//! The two sticky answers a user can give.

use crate::error::PermError;
use crate::text::same_text;
use vstd::prelude::*;

verus! {

/// Stored decision. Two-valued: a present row means a sticky decision, an
/// absent row means "ask the user".
#[derive(Debug, Clone, Copy, PartialEq, Eq, Structural)]
pub enum Decision {
    Allow,
    Deny,
}

/// The decision that a stored text stands for, if any.
pub open spec fn decision_of(s: Seq<char>) -> Option<Decision> {
    if s == "allow"@ {
        Some(Decision::Allow)
    } else if s == "deny"@ {
        Some(Decision::Deny)
    } else {
        None
    }
}

impl Decision {
    /// The text under which the decision is stored.
    pub open spec fn text(self) -> Seq<char> {
        match self {
            Decision::Allow => "allow"@,
            Decision::Deny => "deny"@,
        }
    }

    /// The text under which the decision is stored.
    pub fn as_str(self) -> (r: &'static str)
        ensures
            r@ == self.text(),
    {
        match self {
            Decision::Allow => "allow",
            Decision::Deny => "deny",
        }
    }

    /// Inverse of [`Self::as_str`]. Any other text is an
    /// [`PermError::UnknownDecision`] that carries the text.
    pub fn from_str(s: &str) -> (r: Result<Self, PermError>)
        ensures
            match decision_of(s@) {
                Some(d) => r matches Ok(got) && got == d,
                None => r matches Err(PermError::UnknownDecision { decision }) && decision@ == s@,
            },
    {
        if same_text(s, "allow") {
            Ok(Decision::Allow)
        } else if same_text(s, "deny") {
            Ok(Decision::Deny)
        } else {
            Err(PermError::UnknownDecision { decision: s.to_owned() })
        }
    }
}

/// Every decision is read back from the text it is stored under.
pub proof fn decision_text_reads_back(d: Decision)
    ensures
        decision_of(d.text()) == Some(d),
{
    reveal_strlit("allow");
    reveal_strlit("deny");
    assert("allow"@.len() != "deny"@.len());
}

/// A text that stands for a decision is the one that decision is stored under.
pub proof fn decision_text_is_the_only_one(s: Seq<char>)
    ensures
        decision_of(s) matches Some(d) ==> d.text() == s,
{
}

} // verus!
