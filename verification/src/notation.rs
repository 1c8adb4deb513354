//! How capabilities, decisions and times are written down.
//!
//! Each law speaks of what a call returns, in letters and digits. Numbers are
//! read off their digits by place value, independently of the way in which the
//! crate writes and reads them.

use crate::capability;
use crate::capability::Capability;
use crate::clock;
use crate::decision::Decision;
use crate::error::PermError;
use crate::schema;
use crate::text;
use std::time::SystemTime;
use vstd::prelude::*;

verus! {

/// What a text of decimal digits is worth: each digit times its power of ten.
pub open spec fn place_value(s: Seq<char>) -> int
    decreases s.len(),
{
    if s.len() == 0 {
        0
    } else {
        (s[0] as int - '0' as int) * vstd::arithmetic::power::pow(10, (s.len() - 1) as nat)
            + place_value(s.skip(1))
    }
}

/// Whether `s` consists of at least one of the digits `0` to `9` and nothing
/// else, and is worth `n`.
pub open spec fn is_numeral(s: Seq<char>, n: int) -> bool {
    &&& s.len() > 0
    &&& forall|i: int| 0 <= i < s.len() ==> '0' as int <= (#[trigger] s[i]) as int <= '9' as int
    &&& place_value(s) == n
}

/// Whether `s` is the shortest numeral for `n`: no zero in front of another
/// digit.
pub open spec fn is_plain_numeral(s: Seq<char>, n: int) -> bool {
    &&& is_numeral(s, n)
    &&& s.len() > 1 ==> s[0] != '0'
}

/// Whether `s` is a numeral for `n`, with or without a plus sign before it.
pub open spec fn is_signed_numeral(s: Seq<char>, n: int) -> bool {
    ||| is_numeral(s, n)
    ||| s.len() > 0 && s[0] == '+' && is_numeral(s.skip(1), n)
}

/// Whether `s` names the capability `c` in the database.
pub open spec fn names(s: Seq<char>, c: Capability) -> bool {
    match c {
        Capability::Camera => s == "camera"@,
        Capability::Microphone => s == "microphone"@,
        Capability::Geolocation => s == "geolocation"@,
        Capability::Notifications => s == "notifications"@,
        Capability::Clipboard => s == "clipboard"@,
        Capability::Midi => s == "midi"@,
        Capability::Other(bit) => {
            &&& s.len() > 6
            &&& s.take(6) == "other:"@
            &&& is_signed_numeral(s.skip(6), bit as int)
        },
    }
}

/// Whether `s` names the decision `d` in the database.
pub open spec fn says(s: Seq<char>, d: Decision) -> bool {
    match d {
        Decision::Allow => s == "allow"@,
        Decision::Deny => s == "deny"@,
    }
}

/// A further digit at the end makes a numeral worth ten times as much, and the
/// digit more.
proof fn lemma_last_place(s: Seq<char>)
    requires
        s.len() > 0,
    ensures
        place_value(s) == place_value(s.drop_last()) * 10 + (s.last() as int - '0' as int),
    decreases s.len(),
{
    let d = s[0] as int - '0' as int;
    if s.len() == 1 {
        vstd::arithmetic::power::lemma_pow0(10);
        reveal_with_fuel(place_value, 2);
        assert(s.skip(1) =~= Seq::<char>::empty());
        assert(s.drop_last() =~= Seq::<char>::empty());
    } else {
        let tail = s.skip(1);
        lemma_last_place(tail);
        assert(s.drop_last().skip(1) =~= tail.drop_last());
        let n = (s.len() - 2) as nat;
        vstd::arithmetic::power::lemma_pow_adds(10, n, 1);
        vstd::arithmetic::power::lemma_pow1(10);
        let p = vstd::arithmetic::power::pow(10, n);
        assert(vstd::arithmetic::power::pow(10, (n + 1) as nat) == p * 10);
        assert(d * (p * 10) == (d * p) * 10) by (nonlinear_arith);
    }
}

/// What a text is worth by its places is what it is read as.
proof fn lemma_place_value(s: Seq<char>)
    requires
        text::all_digits(s),
    ensures
        place_value(s) == text::digits_value(s),
    decreases s.len(),
{
    if s.len() > 0 {
        lemma_last_place(s);
        assert(text::is_digit(s[s.len() - 1]));
        assert forall|i: int| 0 <= i < s.drop_last().len() implies text::is_digit(
            #[trigger] s.drop_last()[i],
        ) by {
            assert(text::is_digit(s[i]));
        }
        lemma_place_value(s.drop_last());
    }
}

/// Numerals are what is read as a number.
proof fn lemma_numeral(s: Seq<char>, n: int)
    ensures
        is_numeral(s, n) <==> s.len() > 0 && text::all_digits(s) && text::digits_value(s) == n,
{
    if text::all_digits(s) {
        lemma_place_value(s);
        assert forall|i: int| 0 <= i < s.len() implies '0' as int <= (#[trigger] s[i]) as int
            <= '9' as int by {
            assert(text::is_digit(s[i]));
        }
    }
    if is_numeral(s, n) {
        assert forall|i: int| 0 <= i < s.len() implies text::is_digit(#[trigger] s[i]) by {
            assert('0' as int <= s[i] as int <= '9' as int);
        }
    }
}

/// What is written for a number is its plain numeral.
proof fn lemma_written(n: nat)
    ensures
        is_plain_numeral(text::decimal(n), n as int),
        n > 0 ==> text::decimal(n)[0] != '0',
    decreases n,
{
    text::lemma_decimal_is_read_back(n);
    lemma_numeral(text::decimal(n), n as int);
    if n >= 10 {
        lemma_written(n / 10);
        assert(text::decimal(n)[0] == text::decimal(n / 10)[0]);
    }
}

/// What is read as a number is a numeral for it, signed or not.
proof fn lemma_read(s: Seq<char>, n: u32)
    ensures
        is_signed_numeral(s, n as int) <==> text::parsed_u32(s) == Some(n),
{
    lemma_numeral(s, n as int);
    if s.len() > 0 && s[0] == '+' {
        lemma_numeral(s.skip(1), n as int);
        assert(is_numeral(s, n as int) ==> '0' as int <= s[0] as int);
    }
}

/// What is read as a capability names it.
pub(crate) proof fn lemma_named(s: Seq<char>, c: Capability)
    ensures
        names(s, c) <==> capability::capability_of(s) == Some(c),
{
    reveal_strlit("camera");
    reveal_strlit("microphone");
    reveal_strlit("geolocation");
    reveal_strlit("notifications");
    reveal_strlit("clipboard");
    reveal_strlit("midi");
    reveal_strlit("other:");
    assert("camera"@.len() == 6 && "microphone"@.len() == 10 && "geolocation"@.len() == 11);
    assert("notifications"@.len() == 13 && "clipboard"@.len() == 9 && "midi"@.len() == 4);
    if s.len() >= 6 && s.take(6) == "other:"@ {
        assert(s[0] == s.take(6)[0]);
        if let Capability::Other(bit) = c {
            lemma_read(s.skip(6), bit);
        }
    }
}

/// A text that starts with `other:` names no capability that has a name.
proof fn lemma_not_a_name(s: Seq<char>, c: Capability)
    requires
        s.len() >= 6,
        s.take(6) == "other:"@,
        names(s, c),
    ensures
        c is Other,
{
    reveal_strlit("camera");
    reveal_strlit("microphone");
    reveal_strlit("geolocation");
    reveal_strlit("notifications");
    reveal_strlit("clipboard");
    reveal_strlit("midi");
    reveal_strlit("other:");
    assert(s[0] == s.take(6)[0]);
}

/// Appending a number leaves what was there and adds the plain numeral.
pub proof fn numbers_are_written_in_decimal(out: &mut String, n: u32)
    requires
        call_ensures(text::append_decimal, (out, n), ()),
    ensures
        final(out)@.len() > old(out)@.len(),
        final(out)@.take(old(out)@.len() as int) == old(out)@,
        is_plain_numeral(final(out)@.skip(old(out)@.len() as int), n as int),
{
    lemma_written(n as nat);
    assert(final(out)@.take(old(out)@.len() as int) =~= old(out)@);
    assert(final(out)@.skip(old(out)@.len() as int) =~= text::decimal(n as nat));
}

/// A text is read as a number exactly where it is a numeral, signed or not, for
/// a number that fits.
pub proof fn numbers_are_read_in_decimal(s: &str, r: Option<u32>)
    requires
        call_ensures(text::parse_u32, (s,), r),
    ensures
        forall|n: u32| #[trigger] is_signed_numeral(s@, n as int) <==> r == Some(n),
{
    assert forall|n: u32| #[trigger] is_signed_numeral(s@, n as int) <==> r == Some(n) by {
        lemma_read(s@, n);
    }
}

/// A capability is stored under its name; one without a name under `other:` and
/// the plain numeral of its bit.
pub proof fn storage_keys_spell_out_capabilities(c: Capability, key: String)
    requires
        call_ensures(Capability::as_storage_key, (&c,), key),
    ensures
        match c {
            Capability::Camera => key@ == "camera"@,
            Capability::Microphone => key@ == "microphone"@,
            Capability::Geolocation => key@ == "geolocation"@,
            Capability::Notifications => key@ == "notifications"@,
            Capability::Clipboard => key@ == "clipboard"@,
            Capability::Midi => key@ == "midi"@,
            Capability::Other(bit) => {
                &&& key@.len() > 6
                &&& key@.take(6) == seq!['o', 't', 'h', 'e', 'r', ':']
                &&& is_plain_numeral(key@.skip(6), bit as int)
            },
        },
{
    if let Capability::Other(bit) = c {
        reveal_strlit("other:");
        lemma_written(bit as nat);
        assert(key@.take(6) =~= seq!['o', 't', 'h', 'e', 'r', ':']);
        assert(key@.skip(6) =~= text::decimal(bit as nat));
    }
}

/// The key of a bit is the key of a tenth of it with one digit more; the keys of
/// the bits below ten are `other:` and one digit.
pub proof fn storage_keys_grow_digit_by_digit(bit: u32, key: String, tenth: String)
    requires
        call_ensures(Capability::as_storage_key, (&Capability::Other(bit),), key),
        call_ensures(Capability::as_storage_key, (&Capability::Other(bit / 10),), tenth),
    ensures
        key@.len() > 0,
        key@.last() as int == '0' as int + bit % 10,
        key@.drop_last() == (if bit < 10 {
            seq!['o', 't', 'h', 'e', 'r', ':']
        } else {
            tenth@
        }),
{
    reveal_strlit("other:");
    let n = bit as nat;
    if bit < 10 {
        assert(key@.drop_last() =~= seq!['o', 't', 'h', 'e', 'r', ':']);
    } else {
        assert(text::decimal(n) == text::decimal(n / 10).push(text::digit(n % 10)));
        assert(key@.drop_last() =~= tenth@);
    }
}

/// A text is read as a capability exactly where it names it. Any other text is
/// handed back in the error.
pub proof fn storage_keys_are_read_as_named(s: &str, r: Result<Capability, PermError>)
    requires
        call_ensures(Capability::from_storage_key, (s,), r),
    ensures
        forall|c: Capability| #[trigger] names(s@, c) <==> r == Ok::<Capability, PermError>(c),
        r matches Err(e) ==> e matches PermError::UnknownCapability { capability } && capability@
            == s@,
{
    assert forall|c: Capability| #[trigger] names(s@, c) <==> r == Ok::<Capability, PermError>(
        c,
    ) by {
        lemma_named(s@, c);
    }
}

/// `other:` and a numeral that fits a `u32` is read as exactly that bit.
pub proof fn other_keys_are_read_by_value(s: &str, n: u32, r: Result<Capability, PermError>)
    requires
        call_ensures(Capability::from_storage_key, (s,), r),
        s@.len() > 6,
        s@.take(6) == seq!['o', 't', 'h', 'e', 'r', ':'],
        is_signed_numeral(s@.skip(6), n as int),
    ensures
        r == Ok::<Capability, PermError>(Capability::Other(n)),
{
    reveal_strlit("other:");
    assert("other:"@ =~= seq!['o', 't', 'h', 'e', 'r', ':']);
    lemma_named(s@, Capability::Other(n));
}

/// One digit more at the end of a key makes the bit ten times as large, and the
/// digit more, as long as that fits; past that the key stands for nothing.
pub proof fn other_keys_are_read_digit_by_digit(
    s: &str,
    longer: &str,
    n: u32,
    d: int,
    r: Result<Capability, PermError>,
)
    requires
        call_ensures(Capability::from_storage_key, (s,), Ok::<Capability, PermError>(Capability::Other(n))),
        call_ensures(Capability::from_storage_key, (longer,), r),
        0 <= d <= 9,
        longer@ == s@.push(('0' as int + d) as char),
    ensures
        n * 10 + d <= u32::MAX ==> r == Ok::<Capability, PermError>(
            Capability::Other((n * 10 + d) as u32),
        ),
        n * 10 + d > u32::MAX ==> r is Err,
{
    reveal_strlit("other:");
    let c = ('0' as int + d) as char;
    let more = longer@.skip(6);
    lemma_named(s@, Capability::Other(n));
    lemma_read(s@.skip(6), n);
    assert(longer@.take(6) =~= s@.take(6));
    assert(more =~= s@.skip(6).push(c));
    let digits = text::without_plus(s@.skip(6));
    assert(text::without_plus(more) =~= digits.push(c));
    assert(digits.push(c).drop_last() =~= digits);
    assert(text::digits_value(digits.push(c)) == n * 10 + d);
    assert forall|i: int| 0 <= i < digits.push(c).len() implies text::is_digit(
        #[trigger] digits.push(c)[i],
    ) by {
        if i < digits.len() {
            assert(text::is_digit(digits[i]));
        }
    }
    if n * 10 + d <= u32::MAX {
        lemma_read(more, (n * 10 + d) as u32);
        lemma_named(longer@, Capability::Other((n * 10 + d) as u32));
    } else if let Ok(c) = r {
        lemma_named(longer@, c);
        lemma_not_a_name(longer@, c);
    }
}

/// What is written for a capability is read as that capability.
pub proof fn written_storage_keys_are_read_back(
    c: Capability,
    key: String,
    s: &str,
    r: Result<Capability, PermError>,
)
    requires
        call_ensures(Capability::as_storage_key, (&c,), key),
        call_ensures(Capability::from_storage_key, (s,), r),
        s@ == key@,
    ensures
        r == Ok::<Capability, PermError>(c),
{
    capability::storage_key_reads_back(c);
}

/// A capability is shown by its name; one without a name as `other (bit n)` with
/// the plain numeral of its bit, which is the one in its storage key.
pub proof fn labels_spell_out_capabilities(c: Capability, label: String, key: String)
    requires
        call_ensures(Capability::human_label, (&c,), label),
        call_ensures(Capability::as_storage_key, (&c,), key),
    ensures
        match c {
            Capability::Camera => label@ == "camera"@,
            Capability::Microphone => label@ == "microphone"@,
            Capability::Geolocation => label@ == "geolocation"@,
            Capability::Notifications => label@ == "notifications"@,
            Capability::Clipboard => label@ == "clipboard"@,
            Capability::Midi => label@ == "midi"@,
            Capability::Other(bit) => {
                &&& label@.len() > 12
                &&& label@.take(11) == seq!['o', 't', 'h', 'e', 'r', ' ', '(', 'b', 'i', 't', ' ']
                &&& label@.last() == ')'
                &&& is_plain_numeral(label@.subrange(11, label@.len() - 1), bit as int)
                &&& label@.subrange(11, label@.len() - 1) == key@.skip(6)
            },
        },
{
    if let Capability::Other(bit) = c {
        reveal_strlit("other:");
        reveal_strlit("other (bit ");
        reveal_strlit(")");
        lemma_written(bit as nat);
        assert(label@.take(11) =~= seq!['o', 't', 'h', 'e', 'r', ' ', '(', 'b', 'i', 't', ' ']);
        assert(label@.subrange(11, label@.len() - 1) =~= text::decimal(bit as nat));
        assert(key@.skip(6) =~= text::decimal(bit as nat));
    }
}

/// A decision is stored as `allow` or `deny`.
pub proof fn decisions_are_spelled_out(d: Decision, s: &'static str)
    requires
        call_ensures(Decision::as_str, (d,), s),
    ensures
        s@ == (match d {
            Decision::Allow => seq!['a', 'l', 'l', 'o', 'w'],
            Decision::Deny => seq!['d', 'e', 'n', 'y'],
        }),
{
    reveal_strlit("allow");
    reveal_strlit("deny");
    match d {
        Decision::Allow => {
            assert(s@ =~= seq!['a', 'l', 'l', 'o', 'w']);
        },
        Decision::Deny => {
            assert(s@ =~= seq!['d', 'e', 'n', 'y']);
        },
    }
}

/// A text is read as a decision exactly where it is `allow` or `deny`. Any other
/// text is handed back in the error.
pub proof fn decisions_are_read_as_said(s: &str, r: Result<Decision, PermError>)
    requires
        call_ensures(Decision::from_str, (s,), r),
    ensures
        s@ == "allow"@ <==> r == Ok::<Decision, PermError>(Decision::Allow),
        s@ == "deny"@ <==> r == Ok::<Decision, PermError>(Decision::Deny),
        r matches Err(e) ==> e matches PermError::UnknownDecision { decision } && decision@ == s@,
{
    reveal_strlit("allow");
    reveal_strlit("deny");
    assert("allow"@.len() != "deny"@.len());
}

/// A number of seconds as a time: itself, or wrapped round where it does not fit.
proof fn lemma_seconds(secs: u64)
    ensures
        secs <= i64::MAX ==> secs as i64 == secs,
        secs > i64::MAX ==> secs as i64 == secs - 0x1_0000_0000_0000_0000,
{
    if secs > i64::MAX {
        let wrapped = secs as i64;
        assert(wrapped == secs - 0x1_0000_0000_0000_0000) by (bit_vector)
            requires
                wrapped == secs as i64,
                secs > 0x7fff_ffff_ffff_ffffu64,
        ;
    }
}

/// Seconds since the unix epoch are stored as they are; from the point where
/// they no longer fit an `i64` they wrap round. A clock before the epoch counts
/// as standing at it.
pub proof fn seconds_are_stored_as_they_are(elapsed: Option<u64>, r: i64)
    requires
        call_ensures(clock::unix_seconds, (elapsed,), r),
    ensures
        match elapsed {
            Some(secs) => r == (if secs <= i64::MAX {
                secs as int
            } else {
                secs - 0x1_0000_0000_0000_0000
            }),
            None => r == 0,
        },
{
    if let Some(secs) = elapsed {
        lemma_seconds(secs);
    }
}

/// Whether `now` is the time of a reading of the clock: whole seconds since the
/// unix epoch, wrapped round where they do not fit, or 0 before the epoch.
pub open spec fn is_time_of(reading: SystemTime, now: i64) -> bool {
    match clock::after_epoch(reading) {
        Some(length) => {
            let secs = clock::seconds_in(length);
            now == (if secs <= i64::MAX {
                secs as int
            } else {
                secs - 0x1_0000_0000_0000_0000
            })
        },
        None => now == 0,
    }
}

/// A stored time is the time of its reading.
pub(crate) proof fn lemma_stored_time(reading: SystemTime)
    ensures
        is_time_of(reading, clock::stored_time(reading)),
{
    if let Some(length) = clock::after_epoch(reading) {
        lemma_seconds(clock::seconds_in(length));
    }
}

/// The current time is the time of some reading of the clock.
pub proof fn current_time_is_in_seconds(r: i64)
    requires
        call_ensures(clock::current_unix_time, (), r),
    ensures
        exists|reading: SystemTime| #[trigger] is_time_of(reading, r),
{
    let reading = choose|reading: SystemTime| r == #[trigger] clock::stored_time(reading);
    lemma_stored_time(reading);
}

/// There is one migration.
pub proof fn schema_is_at_version_one(r: i64)
    requires
        call_ensures(schema::latest_version, (), r),
    ensures
        r == 1,
{
}

/// An error of the database becomes a failed query that carries it.
pub proof fn database_errors_become_query_errors(e: rusqlite::Error, r: PermError)
    requires
        call_ensures(<PermError as From<rusqlite::Error>>::from, (e,), r),
    ensures
        r == (PermError::Query { source: e }),
{
}

} // verus!
