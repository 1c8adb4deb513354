//! The capabilities a page can ask for, and the keys they are stored under.

use crate::error::PermError;
use crate::text;
use crate::text::{append_decimal, parse_u32, same_text};
use vstd::prelude::*;

verus! {

/// Capability surface exposed to the user. Mirrors a subset of
/// `cef_permission_request_types_t`; bits with no named variant land in
/// [`Capability::Other`].
///
/// `Other(bit)` carries the **single-bit** value (e.g. `2048` for
/// idle-detection). It is never a composite mask: the handler splits composite
/// masks before calling into the store.
#[derive(Debug, Clone, Copy, PartialEq, Eq, Hash, Structural)]
pub enum Capability {
    Camera,
    Microphone,
    Geolocation,
    Notifications,
    Clipboard,
    Midi,
    /// Anything else CEF surfaces. Stored on disk as `other:<n>` so SQL queries
    /// on the table remain readable.
    Other(u32),
}

/// The capability that a storage key stands for, if any: one of the fixed
/// names, or `other:` followed by a number that fits a `u32`.
pub open spec fn capability_of(s: Seq<char>) -> Option<Capability> {
    if s == "camera"@ {
        Some(Capability::Camera)
    } else if s == "microphone"@ {
        Some(Capability::Microphone)
    } else if s == "geolocation"@ {
        Some(Capability::Geolocation)
    } else if s == "notifications"@ {
        Some(Capability::Notifications)
    } else if s == "clipboard"@ {
        Some(Capability::Clipboard)
    } else if s == "midi"@ {
        Some(Capability::Midi)
    } else if s.len() >= 6 && s.take(6) == "other:"@ {
        match text::parsed_u32(s.skip(6)) {
            Some(bit) => Some(Capability::Other(bit)),
            None => None,
        }
    } else {
        None
    }
}

impl Capability {
    /// The text under which the capability is stored.
    pub open spec fn key(self) -> Seq<char> {
        match self {
            Capability::Camera => "camera"@,
            Capability::Microphone => "microphone"@,
            Capability::Geolocation => "geolocation"@,
            Capability::Notifications => "notifications"@,
            Capability::Clipboard => "clipboard"@,
            Capability::Midi => "midi"@,
            Capability::Other(bit) => "other:"@ + text::decimal(bit as nat),
        }
    }

    /// The text shown to the user.
    pub open spec fn label(self) -> Seq<char> {
        match self {
            Capability::Other(bit) => "other (bit "@ + text::decimal(bit as nat) + ")"@,
            _ => self.key(),
        }
    }

    /// Stable string used as the SQLite primary-key fragment.
    pub fn as_storage_key(&self) -> (r: String)
        ensures
            r@ == self.key(),
    {
        match self {
            Capability::Camera => "camera".to_owned(),
            Capability::Microphone => "microphone".to_owned(),
            Capability::Geolocation => "geolocation".to_owned(),
            Capability::Notifications => "notifications".to_owned(),
            Capability::Clipboard => "clipboard".to_owned(),
            Capability::Midi => "midi".to_owned(),
            Capability::Other(bit) => {
                let mut key: String = "other:".to_owned();
                append_decimal(&mut key, *bit);
                key
            },
        }
    }

    /// Inverse of [`Self::as_storage_key`]. Returns
    /// [`PermError::UnknownCapability`] for malformed input.
    pub fn from_storage_key(s: &str) -> (r: Result<Self, PermError>)
        ensures
            match capability_of(s@) {
                Some(c) => r matches Ok(got) && got == c,
                None => r matches Err(PermError::UnknownCapability { capability }) && capability@
                    == s@,
            },
    {
        if same_text(s, "camera") {
            return Ok(Capability::Camera);
        }
        if same_text(s, "microphone") {
            return Ok(Capability::Microphone);
        }
        if same_text(s, "geolocation") {
            return Ok(Capability::Geolocation);
        }
        if same_text(s, "notifications") {
            return Ok(Capability::Notifications);
        }
        if same_text(s, "clipboard") {
            return Ok(Capability::Clipboard);
        }
        if same_text(s, "midi") {
            return Ok(Capability::Midi);
        }
        let len: usize = s.unicode_len();
        if len >= 6 && same_text(s.substring_char(0, 6), "other:") {
            if let Some(bit) = parse_u32(s.substring_char(6, len)) {
                return Ok(Capability::Other(bit));
            }
        }
        Err(PermError::UnknownCapability { capability: s.to_owned() })
    }

    /// Human-readable label for the prompt UI. Plural-friendly so the list
    /// joins as "camera, microphone".
    pub fn human_label(&self) -> (r: String)
        ensures
            r@ == self.label(),
    {
        match self {
            Capability::Other(bit) => {
                let mut label: String = "other (bit ".to_owned();
                append_decimal(&mut label, *bit);
                label.append(")");
                label
            },
            _ => self.as_storage_key(),
        }
    }
}

/// Every capability is read back from its own storage key.
pub proof fn storage_key_reads_back(c: Capability)
    ensures
        capability_of(c.key()) == Some(c),
{
    reveal_strlit("camera");
    reveal_strlit("microphone");
    reveal_strlit("geolocation");
    reveal_strlit("notifications");
    reveal_strlit("clipboard");
    reveal_strlit("midi");
    reveal_strlit("other:");
    if let Capability::Other(bit) = c {
        text::lemma_decimal_is_read_back(bit as nat);
        assert(c.key()[0] == 'o');
        assert(c.key().take(6) =~= "other:"@);
        assert(c.key().skip(6) =~= text::decimal(bit as nat));
        assert(text::is_digit(text::decimal(bit as nat)[0]));
        assert(text::without_plus(text::decimal(bit as nat)) == text::decimal(bit as nat));
    }
}

/// No two capabilities share a storage key.
pub proof fn storage_keys_differ(a: Capability, b: Capability)
    requires
        a != b,
    ensures
        a.key() != b.key(),
{
    storage_key_reads_back(a);
    storage_key_reads_back(b);
}

/// Whether a text is an `other:` key whose number carries a plus sign or
/// superfluous zeros. Such a key is read, but never written.
pub open spec fn is_loose_key(s: Seq<char>) -> bool {
    s.len() >= 6 && s.take(6) == "other:"@ && text::is_redundant(s.skip(6))
}

/// A key that is read as a capability is the one that capability is stored
/// under, unless it is a loose one.
pub proof fn storage_key_is_the_only_plain_one(s: Seq<char>)
    requires
        !is_loose_key(s),
    ensures
        capability_of(s) matches Some(c) ==> c.key() == s,
{
    if let Some(Capability::Other(bit)) = capability_of(s) {
        reveal_strlit("other:");
        text::lemma_plain_numeral_is_decimal(s.skip(6));
        assert(s =~= "other:"@ + s.skip(6));
    }
}

/// The labels of different capabilities differ.
pub proof fn labels_differ(a: Capability, b: Capability)
    requires
        a != b,
    ensures
        a.label() != b.label(),
{
    reveal_strlit("camera");
    reveal_strlit("microphone");
    reveal_strlit("geolocation");
    reveal_strlit("notifications");
    reveal_strlit("clipboard");
    reveal_strlit("midi");
    reveal_strlit("other (bit ");
    reveal_strlit(")");
    assert("camera"@.len() == 6 && "microphone"@.len() == 10 && "geolocation"@.len() == 11);
    assert("notifications"@.len() == 13 && "clipboard"@.len() == 9 && "midi"@.len() == 4);
    if let Capability::Other(x) = a {
        assert(a.label()[0] == 'o');
        if let Capability::Other(y) = b {
            if a.label() == b.label() {
                let n = a.label().len() - 1;
                assert(text::decimal(x as nat) =~= a.label().subrange(11, n));
                assert(text::decimal(y as nat) =~= b.label().subrange(11, n));
                text::lemma_decimal_is_read_back(x as nat);
                text::lemma_decimal_is_read_back(y as nat);
            }
        }
    }
    if let Capability::Other(y) = b {
        assert(b.label()[0] == 'o');
    }
}

} // verus!
