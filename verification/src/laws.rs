//! What holds of the store across calls.
//!
//! Each law relates states of a store that the operations lead from one to the
//! next. The predicates are the ones that the operations themselves ensure.

use crate::capability;
use crate::capability::Capability;
use crate::clock;
use crate::decision;
use crate::decision::Decision;
use crate::error::PermError;
use crate::model;
use crate::schema;
use crate::sqlite;
use crate::store;
use crate::store::{PermissionRow, Permissions};
use std::time::SystemTime;
use vstd::prelude::*;

verus! {

/// A decision that was set is the one that is found.
pub proof fn set_then_get(
    s0: Permissions,
    s1: Permissions,
    s2: Permissions,
    origin: Seq<char>,
    capability: Capability,
    decision: Decision,
    now: i64,
    r: Result<Option<Decision>, PermError>,
)
    requires
        s0.accountable(),
        store::is_recorded(s0, s1, origin, capability, decision, now, Ok(())),
        store::is_looked_up(s1, s2, origin, capability, r),
        s2.reply() is Ok,
    ensures
        r == Ok::<Option<Decision>, PermError>(Some(decision)),
{
    decision::decision_text_reads_back(decision);
    if let Ok(Some(d)) = r {
        decision::decision_text_reads_back(d);
    }
}

/// Of two decisions for one origin and capability the later one stays, and the
/// store is as if only it had been set.
pub proof fn second_set_wins(
    s0: Permissions,
    s1: Permissions,
    s2: Permissions,
    origin: Seq<char>,
    capability: Capability,
    first: (Decision, i64),
    second: (Decision, i64),
)
    requires
        store::is_recorded(s0, s1, origin, capability, first.0, first.1, Ok(())),
        store::is_recorded(s1, s2, origin, capability, second.0, second.1, Ok(())),
    ensures
        s2.rows() == s0.rows().insert(
            store::key_of(origin, capability),
            (second.0.text(), second.1),
        ),
        s2.rows().dom() == s1.rows().dom(),
{
    assert(s2.rows() =~= s0.rows().insert(
        store::key_of(origin, capability),
        (second.0.text(), second.1),
    ));
    assert(s2.rows().dom() =~= s1.rows().dom());
}

/// Setting a decision leaves every other origin and capability as it was.
pub proof fn set_leaves_the_rest(
    s0: Permissions,
    s1: Permissions,
    origin: Seq<char>,
    capability: Capability,
    decision: Decision,
    now: i64,
    other_origin: Seq<char>,
    other: Capability,
)
    requires
        store::is_recorded(s0, s1, origin, capability, decision, now, Ok(())),
        other_origin != origin || other != capability,
    ensures
        s1.rows().contains_key(store::key_of(other_origin, other)) == s0.rows().contains_key(
            store::key_of(other_origin, other),
        ),
        s1.rows()[store::key_of(other_origin, other)] == s0.rows()[store::key_of(
            other_origin,
            other,
        )],
{
    if other != capability {
        capability::storage_keys_differ(other, capability);
    }
}

/// Setting a decision adds a row exactly where there was none.
pub proof fn set_adds_at_most_one_row(
    s0: Permissions,
    s1: Permissions,
    origin: Seq<char>,
    capability: Capability,
    decision: Decision,
    now: i64,
)
    requires
        s0.rows().dom().finite(),
        store::is_recorded(s0, s1, origin, capability, decision, now, Ok(())),
    ensures
        s1.rows().dom().finite(),
        s1.rows().dom().len() == s0.rows().dom().len() + (if s0.rows().contains_key(
            store::key_of(origin, capability),
        ) {
            0int
        } else {
            1int
        }),
{
    let key = store::key_of(origin, capability);
    assert(s1.rows().dom() =~= s0.rows().dom().insert(key));
}

/// Looking up and listing change no row.
pub proof fn reading_changes_nothing(
    s0: Permissions,
    s1: Permissions,
    s2: Permissions,
    origin: Seq<char>,
    capability: Capability,
    found: Result<Option<Decision>, PermError>,
    list: Result<Vec<PermissionRow>, PermError>,
)
    requires
        store::is_looked_up(s0, s1, origin, capability, found),
        store::is_listed(s1, s2, list),
    ensures
        s2.rows() == s0.rows(),
        s2.accountable() == s0.accountable(),
{
}

/// A forgotten decision is not found: the user is asked again. Forgetting it a
/// second time deletes nothing.
pub proof fn forget_resets_to_ask(
    s0: Permissions,
    s1: Permissions,
    s2: Permissions,
    s3: Permissions,
    origin: Seq<char>,
    capability: Capability,
    deleted: bool,
    found: Result<Option<Decision>, PermError>,
    again: Result<bool, PermError>,
)
    requires
        s0.accountable(),
        store::is_forgotten(s0, s1, origin, capability, Ok(deleted)),
        store::is_looked_up(s1, s2, origin, capability, found),
        s2.reply() is Ok,
        store::is_forgotten(s2, s3, origin, capability, again),
        s3.reply() is Ok,
    ensures
        deleted == s0.rows().contains_key(store::key_of(origin, capability)),
        found == Ok::<Option<Decision>, PermError>(None),
        again == Ok::<bool, PermError>(false),
{
}

/// Forgetting a decision that was set deletes it, and leaves the store as it
/// was before if there was none.
pub proof fn forget_undoes_set(
    s0: Permissions,
    s1: Permissions,
    s2: Permissions,
    origin: Seq<char>,
    capability: Capability,
    decision: Decision,
    now: i64,
    deleted: bool,
)
    requires
        s0.accountable(),
        store::is_recorded(s0, s1, origin, capability, decision, now, Ok(())),
        store::is_forgotten(s1, s2, origin, capability, Ok(deleted)),
    ensures
        deleted,
        !s0.rows().contains_key(store::key_of(origin, capability)) ==> s2.rows() == s0.rows(),
{
    if !s0.rows().contains_key(store::key_of(origin, capability)) {
        assert(s2.rows() =~= s0.rows());
    }
}

/// Forgetting a decision leaves every other origin and capability as it was.
pub proof fn forget_leaves_the_rest(
    s0: Permissions,
    s1: Permissions,
    origin: Seq<char>,
    capability: Capability,
    deleted: bool,
    other_origin: Seq<char>,
    other: Capability,
)
    requires
        store::is_forgotten(s0, s1, origin, capability, Ok(deleted)),
        other_origin != origin || other != capability,
    ensures
        s1.rows().contains_key(store::key_of(other_origin, other)) == s0.rows().contains_key(
            store::key_of(other_origin, other),
        ),
        s0.rows().contains_key(store::key_of(other_origin, other)) ==> s1.rows()[store::key_of(
            other_origin,
            other,
        )] == s0.rows()[store::key_of(other_origin, other)],
{
    if other != capability {
        capability::storage_keys_differ(other, capability);
    }
}

/// Forgetting an origin removes its decisions, whatever the capability, and
/// leaves every other origin as it was. Forgetting it again deletes nothing.
pub proof fn forget_origin_removes_just_that_origin(
    s0: Permissions,
    s1: Permissions,
    s2: Permissions,
    s3: Permissions,
    origin: Seq<char>,
    n: usize,
    capability: Capability,
    found: Result<Option<Decision>, PermError>,
    again: usize,
)
    requires
        s0.accountable(),
        store::is_origin_forgotten(s0, s1, origin, Ok(n)),
        store::is_looked_up(s1, s2, origin, capability, found),
        s2.reply() is Ok,
        store::is_origin_forgotten(s2, s3, origin, Ok(again)),
    ensures
        found == Ok::<Option<Decision>, PermError>(None),
        again == 0,
        forall|key: model::Key|
            key.0 != origin ==> {
                &&& #[trigger] s1.rows().contains_key(key) == s0.rows().contains_key(key)
                &&& s0.rows().contains_key(key) ==> s1.rows()[key] == s0.rows()[key]
            },
{
    assert(model::of_origin(s2.rows(), origin) =~= Set::empty());
}

/// The rows of an origin and the rows that forgetting it leaves are the rows
/// there were.
pub proof fn forget_origin_counts_what_goes(
    s0: Permissions,
    s1: Permissions,
    origin: Seq<char>,
    n: usize,
)
    requires
        s0.accountable(),
        s0.rows().dom().finite(),
        s0.rows().dom().len() <= usize::MAX,
        store::is_origin_forgotten(s0, s1, origin, Ok(n)),
    ensures
        s1.rows().dom().finite(),
        n + s1.rows().dom().len() == s0.rows().dom().len(),
{
    let gone = model::of_origin(s0.rows(), origin);
    s0.rows().dom().lemma_len_filter(|k: model::Key| k.0 == origin);
    assert(s1.rows().dom() =~= s0.rows().dom().difference(gone));
    vstd::set_lib::lemma_set_disjoint_lens(s1.rows().dom(), gone);
    assert(s1.rows().dom() + gone =~= s0.rows().dom());
}

/// After a wipe nothing is found, nothing is listed and nothing is left to wipe,
/// and the count is that of the rows there were.
pub proof fn clear_leaves_nothing(
    s0: Permissions,
    s1: Permissions,
    s2: Permissions,
    s3: Permissions,
    s4: Permissions,
    n: usize,
    origin: Seq<char>,
    capability: Capability,
    found: Result<Option<Decision>, PermError>,
    list: Result<Vec<PermissionRow>, PermError>,
    again: usize,
)
    requires
        s0.accountable(),
        store::is_cleared(s0, s1, Ok(n)),
        store::is_looked_up(s1, s2, origin, capability, found),
        s2.reply() is Ok,
        store::is_listed(s2, s3, list),
        s3.reply() is Ok,
        store::is_cleared(s3, s4, Ok(again)),
    ensures
        s0.rows().dom().len() <= usize::MAX ==> n == s0.rows().dom().len(),
        found == Ok::<Option<Decision>, PermError>(None),
        list matches Ok(rows) && rows@.len() == 0,
        again == 0,
{
    let stored = s3.reply()->Ok_0->Rows_0;
    if stored.len() > 0 {
        assert(s2.rows().contains_key(stored[0].key()));
    }
}

/// Text order is irreflexive and asymmetric.
proof fn lemma_text_order(a: Seq<char>, b: Seq<char>)
    requires
        model::text_before(a, b),
    ensures
        !model::text_before(b, a),
        a != b,
{
    let n = choose|n: int|
        {
            &&& 0 <= n <= a.len()
            &&& n < b.len()
            &&& #[trigger] a.take(n) == b.take(n)
            &&& n == a.len() || (a[n] as int) < (b[n] as int)
        };
    if model::text_before(b, a) {
        let m = choose|m: int|
            {
                &&& 0 <= m <= b.len()
                &&& m < a.len()
                &&& #[trigger] b.take(m) == a.take(m)
                &&& m == b.len() || (b[m] as int) < (a[m] as int)
            };
        if m < n {
            assert(a.take(n)[m] == b.take(n)[m]);
        } else if n < m {
            assert(a.take(m)[n] == b.take(m)[n]);
        }
    }
}

/// Listing order is irreflexive and asymmetric.
proof fn lemma_listing_order(a: model::StoredRow, b: model::StoredRow)
    requires
        model::listed_before(a, b),
    ensures
        !model::listed_before(b, a),
        a.key() != b.key() || a.set_at != b.set_at,
{
    if model::text_before(a.origin, b.origin) {
        lemma_text_order(a.origin, b.origin);
    }
    if model::text_before(b.origin, a.origin) {
        lemma_text_order(b.origin, a.origin);
    }
    if model::text_before(a.capability, b.capability) {
        lemma_text_order(a.capability, b.capability);
    }
}

/// A row occurs in a listing once.
proof fn lemma_listed_once(
    list: Seq<model::StoredRow>,
    table: Map<model::Key, model::Entry>,
    i: int,
    j: int,
)
    requires
        model::is_listing(list, table),
        0 <= i < list.len(),
        0 <= j < list.len(),
        list[i].key() == list[j].key(),
    ensures
        i == j,
        list[i] == list[j],
{
    assert(list[i].entry() == list[j].entry());
    if i < j {
        lemma_listing_order(list[i], list[j]);
    } else if j < i {
        lemma_listing_order(list[j], list[i]);
    }
}

/// The rows in a table fix the listing, order included.
pub proof fn listing_is_stable(
    a: Seq<model::StoredRow>,
    b: Seq<model::StoredRow>,
    table: Map<model::Key, model::Entry>,
)
    requires
        model::is_listing(a, table),
        model::is_listing(b, table),
    ensures
        a == b,
{
    listing_is_complete(a, table);
    listing_is_complete(b, table);
    assert forall|i: int| 0 <= i < a.len() implies a[i] == b[i] by {
        lemma_same_start(a, b, table, i + 1);
    }
    assert(a =~= b);
}

/// Two listings of one table start alike.
proof fn lemma_same_start(
    a: Seq<model::StoredRow>,
    b: Seq<model::StoredRow>,
    table: Map<model::Key, model::Entry>,
    n: int,
)
    requires
        model::is_listing(a, table),
        model::is_listing(b, table),
        a.len() == b.len(),
        0 <= n <= a.len(),
    ensures
        forall|i: int| 0 <= i < n ==> a[i] == b[i],
    decreases n,
{
    if n > 0 {
        let i = n - 1;
        lemma_same_start(a, b, table, i);
        let ja = lemma_where_listed(b, table, a[i]);
        let jb = lemma_where_listed(a, table, b[i]);
        if ja < i {
            lemma_listed_once(a, table, ja, i);
        }
        if jb < i {
            lemma_listed_once(b, table, jb, i);
        }
        if ja > i && jb > i {
            lemma_listing_order(b[i], b[ja]);
            assert(model::listed_before(a[i], a[jb]));
        }
        assert(a[i] == b[i]);
    }
}

/// A row of one listing has its place in the other.
proof fn lemma_where_listed(
    list: Seq<model::StoredRow>,
    table: Map<model::Key, model::Entry>,
    row: model::StoredRow,
) -> (j: int)
    requires
        model::is_listing(list, table),
        table.contains_key(row.key()),
        table[row.key()] == row.entry(),
    ensures
        0 <= j < list.len(),
        list[j] == row,
{
    let j = choose|j: int| 0 <= j < list.len() && (#[trigger] list[j]).key() == row.key();
    assert(list[j].entry() == row.entry());
    j
}

/// A listing has as many rows as the table.
pub proof fn listing_is_complete(
    list: Seq<model::StoredRow>,
    table: Map<model::Key, model::Entry>,
)
    requires
        model::is_listing(list, table),
    ensures
        table.dom().finite(),
        list.len() == table.dom().len(),
{
    let keys = list.map_values(|row: model::StoredRow| row.key());
    assert forall|i: int, j: int|
        0 <= i < keys.len() && 0 <= j < keys.len() && i != j implies keys[i] != keys[j] by {
        if keys[i] == keys[j] {
            lemma_listed_once(list, table, i, j);
        }
    }
    assert(keys.to_set() =~= table.dom()) by {
        assert forall|k: model::Key| table.dom().contains(k) implies keys.contains(k) by {
            assert(table.contains_key(k));
            let i = choose|i: int| 0 <= i < list.len() && (#[trigger] list[i]).key() == k;
            assert(keys[i] == k);
        }
        assert forall|k: model::Key| keys.contains(k) implies table.dom().contains(k) by {
            let i = choose|i: int| 0 <= i < keys.len() && keys[i] == k;
            assert(table.contains_key(list[i].key()));
        }
    }
    keys.unique_seq_to_set();
}

/// Whether every row is one that this store writes: it stands for a capability
/// and a decision, under the key that the capability is stored under.
pub open spec fn tidy(rows: Map<model::Key, model::Entry>) -> bool {
    forall|k: model::Key| #[trigger]
        rows.contains_key(k) ==> {
            &&& capability::capability_of(k.1) matches Some(c) && c.key() == k.1
            &&& decision::decision_of(rows[k].0) is Some
        }
}

/// A new in-memory store is tidy, and no operation makes a tidy store untidy.
pub proof fn stores_stay_tidy(
    s0: Permissions,
    s1: Permissions,
    origin: Seq<char>,
    capability: Capability,
    decision: Decision,
    now: i64,
    set: Result<(), PermError>,
    forgotten: Result<bool, PermError>,
    origin_forgotten: Result<usize, PermError>,
    cleared: Result<usize, PermError>,
)
    requires
        tidy(s0.rows()),
        ({
            ||| store::is_recorded(s0, s1, origin, capability, decision, now, set)
            ||| store::is_forgotten(s0, s1, origin, capability, forgotten)
            ||| store::is_origin_forgotten(s0, s1, origin, origin_forgotten)
            ||| store::is_cleared(s0, s1, cleared)
        }),
    ensures
        tidy(Map::<model::Key, model::Entry>::empty()),
        tidy(s1.rows()),
{
    capability::storage_key_reads_back(capability);
    decision::decision_text_reads_back(decision);
    assert forall|k: model::Key| #[trigger] s1.rows().contains_key(k) implies {
        &&& capability::capability_of(k.1) matches Some(c) && c.key() == k.1
        &&& decision::decision_of(s1.rows()[k].0) is Some
    } by {
        if k != store::key_of(origin, capability) || !store::is_recorded(
            s0,
            s1,
            origin,
            capability,
            decision,
            now,
            set,
        ) {
            assert(s0.rows().contains_key(k));
        }
    }
}

/// In a tidy store no row is unreadable: a lookup or a listing fails only where
/// the database does.
pub proof fn tidy_stores_are_readable(
    s0: Permissions,
    s1: Permissions,
    s2: Permissions,
    origin: Seq<char>,
    capability: Capability,
    found: Result<Option<Decision>, PermError>,
    list: Result<Vec<PermissionRow>, PermError>,
)
    requires
        s0.accountable(),
        tidy(s0.rows()),
        store::is_looked_up(s0, s1, origin, capability, found),
        store::is_listed(s1, s2, list),
    ensures
        found is Err ==> s1.reply() is Err,
        list is Err ==> s2.reply() is Err,
{
    if s2.reply() is Ok && list is Err {
        let stored = s2.reply()->Ok_0->Rows_0;
        let e = list->Err_0;
        let j = choose|j: int|
            {
                &&& 0 <= j < stored.len()
                &&& store::is_complaint(#[trigger] stored[j], e)
                &&& forall|i: int| 0 <= i < j ==> store::is_readable(#[trigger] stored[i])
            };
        assert(s0.rows().contains_key(stored[j].key()));
        assert(s0.rows()[stored[j].key()] == stored[j].entry());
    }
}

/// What a listing of a tidy store shows is what lookups find: a row for an
/// origin and a capability, with its decision, exactly where one is stored.
pub proof fn listing_shows_what_is_stored(
    s0: Permissions,
    s1: Permissions,
    rows: Vec<PermissionRow>,
    origin: Seq<char>,
    capability: Capability,
)
    requires
        s0.accountable(),
        tidy(s0.rows()),
        store::is_listed(s0, s1, Ok(rows)),
    ensures
        rows@.len() == s0.rows().dom().len(),
        forall|i: int|
            0 <= i < rows@.len() ==> {
                let key = store::key_of((#[trigger] rows@[i]).origin@, rows@[i].capability);
                &&& s0.rows().contains_key(key)
                &&& s0.rows()[key] == (rows@[i].decision.text(), rows@[i].set_at)
            },
        s0.rows().contains_key(store::key_of(origin, capability)) ==> exists|i: int|
            {
                &&& 0 <= i < rows@.len()
                &&& (#[trigger] rows@[i]).origin@ == origin
                &&& rows@[i].capability == capability
            },
{
    let stored = s1.reply()->Ok_0->Rows_0;
    listing_is_complete(stored, s0.rows());
    assert forall|i: int| 0 <= i < rows@.len() implies {
        let key = store::key_of((#[trigger] rows@[i]).origin@, rows@[i].capability);
        &&& s0.rows().contains_key(key)
        &&& s0.rows()[key] == (rows@[i].decision.text(), rows@[i].set_at)
    } by {
        assert(store::is_decoded_row(stored[i], rows@[i]));
        assert(s0.rows().contains_key(stored[i].key()));
        decision::decision_text_is_the_only_one(stored[i].decision);
    }
    let key = store::key_of(origin, capability);
    if s0.rows().contains_key(key) {
        let i = choose|i: int| 0 <= i < stored.len() && (#[trigger] stored[i]).key() == key;
        assert(store::is_decoded_row(stored[i], rows@[i]));
        capability::storage_key_reads_back(capability);
        assert(rows@[i].origin@ == origin);
    }
}

/// A decision that was set is listed, under its origin and capability, with the
/// time it was set at.
pub proof fn set_then_list(
    s0: Permissions,
    s1: Permissions,
    s2: Permissions,
    origin: Seq<char>,
    capability: Capability,
    decision: Decision,
    now: i64,
    rows: Vec<PermissionRow>,
)
    requires
        s0.accountable(),
        store::is_recorded(s0, s1, origin, capability, decision, now, Ok(())),
        store::is_listed(s1, s2, Ok(rows)),
    ensures
        exists|i: int|
            {
                &&& 0 <= i < rows@.len()
                &&& (#[trigger] rows@[i]).origin@ == origin
                &&& rows@[i].capability == capability
                &&& rows@[i].decision == decision
                &&& rows@[i].set_at == now
            },
{
    let stored = s2.reply()->Ok_0->Rows_0;
    let key = store::key_of(origin, capability);
    assert(s1.rows().contains_key(key));
    let i = choose|i: int| 0 <= i < stored.len() && (#[trigger] stored[i]).key() == key;
    assert(store::is_decoded_row(stored[i], rows@[i]));
    capability::storage_key_reads_back(capability);
    decision::decision_text_reads_back(decision);
    assert(rows@[i].origin@ == origin);
}

/// A listing comes newest first; rows set at the same time come by origin, and
/// in a tidy store those of one origin by capability.
pub proof fn listing_is_newest_first(
    s0: Permissions,
    s1: Permissions,
    rows: Vec<PermissionRow>,
    i: int,
    j: int,
)
    requires
        s0.accountable(),
        store::is_listed(s0, s1, Ok(rows)),
        0 <= i < j < rows@.len(),
    ensures
        rows@[i].set_at >= rows@[j].set_at,
        rows@[i].set_at == rows@[j].set_at ==> rows@[i].origin@ == rows@[j].origin@
            || model::text_before(rows@[i].origin@, rows@[j].origin@),
        tidy(s0.rows()) && rows@[i].set_at == rows@[j].set_at && rows@[i].origin@ == rows@[j].origin@
            ==> model::text_before(rows@[i].capability.key(), rows@[j].capability.key()),
{
    let stored = s1.reply()->Ok_0->Rows_0;
    assert(store::is_decoded_row(stored[i], rows@[i]));
    assert(store::is_decoded_row(stored[j], rows@[j]));
    assert(model::listed_before(stored[i], stored[j]));
    assert(s0.rows().contains_key(stored[i].key()));
    assert(s0.rows().contains_key(stored[j].key()));
    if model::text_before(stored[i].origin, stored[j].origin) {
        lemma_text_order(stored[i].origin, stored[j].origin);
    }
}

/// A database that is up to date is asked for its version and nothing more.
pub proof fn nothing_is_pending_when_up_to_date(current: i64, n: nat)
    requires
        current >= n,
    ensures
        schema::pending_plan(current, n) == Seq::<model::Request>::empty(),
    decreases n,
{
    if n > 0 {
        nothing_is_pending_when_up_to_date(current, (n - 1) as nat);
    }
}

/// Once brought up to date, a database stays so: whatever its newest version
/// was, the next upgrade finds nothing to do. No version noted is ever lost.
pub proof fn upgrades_happen_once(
    before: model::Progress,
    after: model::Progress,
    current: i64,
    next: i64,
)
    requires
        model::is_newest(current, before.tables.versions),
        schema::upgrades(before, after, current, Ok(())),
        model::is_newest(next, after.tables.versions),
    ensures
        next >= schema::latest(),
        schema::pending_plan(next, schema::scripts().len()) == Seq::<model::Request>::empty(),
        before.tables.versions.subset_of(after.tables.versions),
        after.tables.permissions == before.tables.permissions,
{
    let latest = schema::scripts().len() as i64;
    if current < latest {
        assert(after.tables.versions.contains(latest));
    } else {
        assert(before.tables.versions.contains(current));
        assert(after.tables.versions.contains(current));
    }
    nothing_is_pending_when_up_to_date(next, schema::scripts().len());
}

/// Opening a database that was not there yet runs every migration, notes each,
/// and gives a store without decisions.
pub proof fn opening_a_new_database(store: Permissions)
    requires
        store::is_ready(store),
        sqlite::private_and_empty(store.connection()),
    ensures
        schema::requests(store.transcript().skip(3)) == schema::schema_plan(
            0,
            schema::scripts().len(),
        ),
        store.rows() == Map::<model::Key, model::Entry>::empty(),
        store.versions() == Set::new(|v: i64| 0 < v <= schema::latest()),
{
    assert(store.versions() =~= Set::new(|v: i64| 0 < v <= schema::latest()));
}

/// A call on a store, with its outcome.
pub enum Call {
    Record {
        origin: Seq<char>,
        capability: Capability,
        decision: Decision,
        now: i64,
        r: Result<(), PermError>,
    },
    Get { origin: Seq<char>, capability: Capability, r: Result<Option<Decision>, PermError> },
    Forget { origin: Seq<char>, capability: Capability, r: Result<bool, PermError> },
    ForgetOrigin { origin: Seq<char>, r: Result<usize, PermError> },
    Clear { r: Result<usize, PermError> },
    All { r: Result<Vec<PermissionRow>, PermError> },
}

/// Whether `call` leads from `before` to `after`.
pub open spec fn leads(before: Permissions, call: Call, after: Permissions) -> bool {
    match call {
        Call::Record { origin, capability, decision, now, r } => store::is_recorded(
            before,
            after,
            origin,
            capability,
            decision,
            now,
            r,
        ),
        Call::Get { origin, capability, r } => store::is_looked_up(
            before,
            after,
            origin,
            capability,
            r,
        ),
        Call::Forget { origin, capability, r } => store::is_forgotten(
            before,
            after,
            origin,
            capability,
            r,
        ),
        Call::ForgetOrigin { origin, r } => store::is_origin_forgotten(before, after, origin, r),
        Call::Clear { r } => store::is_cleared(before, after, r),
        Call::All { r } => store::is_listed(before, after, r),
    }
}

/// Every operation is a call in this sense, on the store, origin, capability and
/// decision it is given; what [`Permissions::set`] adds is the time.
pub proof fn operations_are_calls(
    store: &mut Permissions,
    origin: &str,
    capability: Capability,
    decision: Decision,
    now: i64,
    found: Result<Option<Decision>, PermError>,
    recorded: Result<(), PermError>,
    deleted: Result<bool, PermError>,
    count: Result<usize, PermError>,
    list: Result<Vec<PermissionRow>, PermError>,
)
    ensures
        call_ensures(Permissions::get, (store, origin, capability), found) ==> leads(
            *old(store),
            Call::Get { origin: origin@, capability, r: found },
            *final(store),
        ),
        call_ensures(Permissions::record, (store, origin, capability, decision, now), recorded)
            ==> leads(
            *old(store),
            Call::Record { origin: origin@, capability, decision, now, r: recorded },
            *final(store),
        ),
        call_ensures(Permissions::set, (store, origin, capability, decision), recorded)
            ==> exists|at: i64| #[trigger]
            leads(
                *old(store),
                Call::Record { origin: origin@, capability, decision, now: at, r: recorded },
                *final(store),
            ),
        call_ensures(Permissions::forget, (store, origin, capability), deleted) ==> leads(
            *old(store),
            Call::Forget { origin: origin@, capability, r: deleted },
            *final(store),
        ),
        call_ensures(Permissions::forget_origin, (store, origin), count) ==> leads(
            *old(store),
            Call::ForgetOrigin { origin: origin@, r: count },
            *final(store),
        ),
        call_ensures(Permissions::clear, (store,), count) ==> leads(
            *old(store),
            Call::Clear { r: count },
            *final(store),
        ),
        call_ensures(Permissions::all, (store,), list) ==> leads(
            *old(store),
            Call::All { r: list },
            *final(store),
        ),
{
    if call_ensures(Permissions::set, (store, origin, capability, decision), recorded) {
        let reading = choose|reading: SystemTime|
            store::is_recorded(
                *old(store),
                *final(store),
                origin@,
                capability,
                decision,
                #[trigger] clock::stored_time(reading),
                recorded,
            );
        let at = clock::stored_time(reading);
        assert(leads(
            *old(store),
            Call::Record { origin: origin@, capability, decision, now: at, r: recorded },
            *final(store),
        ));
    }
}

/// Whether `calls` lead from the first of `states` through each to the last.
pub open spec fn is_history(states: Seq<Permissions>, calls: Seq<Call>) -> bool {
    &&& states.len() == calls.len() + 1
    &&& forall|i: int|
        0 <= i < calls.len() ==> leads(states[i], #[trigger] calls[i], states[i + 1])
}

/// The text last stored for an origin and a capability: that of the last
/// successful set, unless a successful forget, forget of the origin or wipe came
/// after it; `start` where no call touched it.
pub open spec fn last_stored(
    start: Option<Seq<char>>,
    calls: Seq<Call>,
    origin: Seq<char>,
    capability: Capability,
) -> Option<Seq<char>>
    decreases calls.len(),
{
    if calls.len() == 0 {
        start
    } else {
        let earlier = last_stored(start, calls.drop_last(), origin, capability);
        match calls.last() {
            Call::Record { origin: o, capability: c, decision, now, r } => if o == origin && c
                == capability && r is Ok {
                Some(decision.text())
            } else {
                earlier
            },
            Call::Forget { origin: o, capability: c, r } => if o == origin && c == capability
                && r is Ok {
                None
            } else {
                earlier
            },
            Call::ForgetOrigin { origin: o, r } => if o == origin && r is Ok {
                None
            } else {
                earlier
            },
            Call::Clear { r } => if r is Ok {
                None
            } else {
                earlier
            },
            _ => earlier,
        }
    }
}

/// The text that a store holds for an origin and a capability, if any.
pub open spec fn text_at(
    rows: Map<model::Key, model::Entry>,
    origin: Seq<char>,
    capability: Capability,
) -> Option<Seq<char>> {
    let key = store::key_of(origin, capability);
    if rows.contains_key(key) {
        Some(rows[key].0)
    } else {
        None
    }
}

/// A history without its last call is a history.
proof fn lemma_history_start(states: Seq<Permissions>, calls: Seq<Call>)
    requires
        is_history(states, calls),
        calls.len() > 0,
    ensures
        is_history(states.drop_last(), calls.drop_last()),
{
    let earlier = states.drop_last();
    assert forall|i: int| 0 <= i < calls.len() - 1 implies leads(
        earlier[i],
        #[trigger] calls.drop_last()[i],
        earlier[i + 1],
    ) by {
        assert(leads(states[i], calls[i], states[i + 1]));
    }
}

/// The calls leave the applied migrations as they are, and the rows stay
/// accounted for.
proof fn lemma_history_keeps_versions(states: Seq<Permissions>, calls: Seq<Call>)
    requires
        is_history(states, calls),
    ensures
        states.last().versions() == states[0].versions(),
        states.last().accountable() == states[0].accountable(),
    decreases calls.len(),
{
    if calls.len() > 0 {
        let n = calls.len() - 1;
        lemma_history_start(states, calls);
        lemma_history_keeps_versions(states.drop_last(), calls.drop_last());
        assert(leads(states[n], calls[n], states[n + 1]));
    }
}

/// After any calls a store holds what was last stored.
proof fn lemma_history(
    states: Seq<Permissions>,
    calls: Seq<Call>,
    origin: Seq<char>,
    capability: Capability,
)
    requires
        is_history(states, calls),
    ensures
        text_at(states.last().rows(), origin, capability) == last_stored(
            text_at(states[0].rows(), origin, capability),
            calls,
            origin,
            capability,
        ),
    decreases calls.len(),
{
    if calls.len() > 0 {
        let n = calls.len() - 1;
        lemma_history_start(states, calls);
        lemma_history(states.drop_last(), calls.drop_last(), origin, capability);
        assert(leads(states[n], calls[n], states[n + 1]));
        match calls.last() {
            Call::Record { origin: o, capability: c, decision, now, r } => {
                if c != capability {
                    capability::storage_keys_differ(c, capability);
                }
            },
            Call::Forget { origin: o, capability: c, r } => {
                if c != capability {
                    capability::storage_keys_differ(c, capability);
                }
            },
            _ => {},
        }
    }
}

/// After any calls, in any order and whether they succeeded or not, a lookup
/// gives what was last stored for its origin and capability.
pub proof fn lookup_gives_what_was_last_stored(
    states: Seq<Permissions>,
    calls: Seq<Call>,
    after: Permissions,
    origin: Seq<char>,
    capability: Capability,
    r: Result<Option<Decision>, PermError>,
)
    requires
        states[0].accountable(),
        is_history(states, calls),
        store::is_looked_up(states.last(), after, origin, capability, r),
        after.reply() is Ok,
    ensures
        store::is_decoded_decision(
            last_stored(
                text_at(states[0].rows(), origin, capability),
                calls,
                origin,
                capability,
            ),
            r,
        ),
{
    lemma_history(states, calls, origin, capability);
    lemma_history_keeps_versions(states, calls);
}

/// The decision last set for an origin and a capability, unless a successful
/// forget, forget of the origin or wipe came after it.
pub open spec fn last_set(calls: Seq<Call>, origin: Seq<char>, capability: Capability) -> Option<
    Decision,
> {
    match last_stored(None, calls, origin, capability) {
        Some(s) => decision::decision_of(s),
        None => None,
    }
}

/// What was last stored is the text of a decision, where nothing was stored at
/// the start.
proof fn lemma_last_stored_is_readable(
    calls: Seq<Call>,
    origin: Seq<char>,
    capability: Capability,
)
    ensures
        last_stored(None, calls, origin, capability) matches Some(s) ==> decision::decision_of(
            s,
        ) is Some,
    decreases calls.len(),
{
    if calls.len() > 0 {
        lemma_last_stored_is_readable(calls.drop_last(), origin, capability);
        if let Call::Record { origin: o, capability: c, decision, now, r } = calls.last() {
            decision::decision_text_reads_back(decision);
        }
    }
}

/// In a store that started empty a lookup gives the decision last set for its
/// origin and capability, and none where none was set or it was forgotten since.
pub proof fn lookup_gives_the_last_decision(
    states: Seq<Permissions>,
    calls: Seq<Call>,
    after: Permissions,
    origin: Seq<char>,
    capability: Capability,
    r: Result<Option<Decision>, PermError>,
)
    requires
        states[0].accountable(),
        states[0].rows() == Map::<model::Key, model::Entry>::empty(),
        is_history(states, calls),
        store::is_looked_up(states.last(), after, origin, capability, r),
        after.reply() is Ok,
    ensures
        r == Ok::<Option<Decision>, PermError>(last_set(calls, origin, capability)),
{
    lookup_gives_what_was_last_stored(states, calls, after, origin, capability, r);
    lemma_last_stored_is_readable(calls, origin, capability);
}

/// Whether `reopened` is a store opened on the database that another store left
/// behind: one that was newly opened, and then closed after some calls.
pub open spec fn is_reopened(states: Seq<Permissions>, calls: Seq<Call>, reopened: Permissions) -> bool {
    &&& store::is_ready(states[0])
    &&& states[0].accountable()
    &&& is_history(states, calls)
    &&& store::is_ready(reopened)
    &&& reopened.accountable()
    &&& sqlite::versions_at_open(reopened.connection()) == states.last().versions()
    &&& sqlite::rows_at_open(reopened.connection()) == states.last().rows()
}

/// Opening a database that this store has brought up to date finds it so, runs
/// no migration again and keeps every row.
pub proof fn reopening_changes_nothing(
    states: Seq<Permissions>,
    calls: Seq<Call>,
    reopened: Permissions,
)
    requires
        is_reopened(states, calls, reopened),
    ensures
        schema::current_version(reopened.transcript().skip(3)) >= schema::latest(),
        schema::requests(reopened.transcript().skip(3)) == schema::schema_plan(0, 0),
        reopened.versions() == states.last().versions(),
        reopened.rows() == states.last().rows(),
{
    lemma_history_keeps_versions(states, calls);
    let ready = states[0];
    let next = schema::current_version(reopened.transcript().skip(3));
    upgrades_happen_once(
        model::replay(sqlite::tables_at_open(ready.connection()), Seq::empty()),
        sqlite::progress(ready.connection()),
        schema::current_version(ready.transcript().skip(3)),
        next,
    );
    assert(schema::requests(reopened.transcript().skip(3)) =~= schema::schema_plan(0, 0));
    assert(reopened.versions() =~= states.last().versions());
}

/// A store lists the same rows after reopening as before closing: the same
/// origins, capabilities, decisions and times, in the same order.
pub proof fn reopening_lists_the_same_rows(
    states: Seq<Permissions>,
    calls: Seq<Call>,
    closed: Permissions,
    before: Vec<PermissionRow>,
    reopened: Permissions,
    listed: Permissions,
    after: Vec<PermissionRow>,
)
    requires
        is_reopened(states, calls, reopened),
        store::is_listed(states.last(), closed, Ok(before)),
        store::is_listed(reopened, listed, Ok(after)),
    ensures
        after@.len() == before@.len(),
        forall|i: int|
            0 <= i < after@.len() ==> {
                &&& (#[trigger] after@[i]).origin@ == before@[i].origin@
                &&& after@[i].capability == before@[i].capability
                &&& after@[i].decision == before@[i].decision
                &&& after@[i].set_at == before@[i].set_at
            },
{
    reopening_changes_nothing(states, calls, reopened);
    lemma_history_keeps_versions(states, calls);
    let a = closed.reply()->Ok_0->Rows_0;
    let b = listed.reply()->Ok_0->Rows_0;
    listing_is_stable(a, b, states.last().rows());
    assert forall|i: int| 0 <= i < after@.len() implies {
        &&& (#[trigger] after@[i]).origin@ == before@[i].origin@
        &&& after@[i].capability == before@[i].capability
        &&& after@[i].decision == before@[i].decision
        &&& after@[i].set_at == before@[i].set_at
    } by {
        assert(store::is_decoded_row(a[i], before@[i]));
        assert(store::is_decoded_row(b[i], after@[i]));
    }
}

} // verus!
