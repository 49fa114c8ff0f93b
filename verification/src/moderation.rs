//! The safety screening collaborator's response, modeled with plain values:
//! the broker reads only whether any result flags the input.

use vstd::prelude::*;

verus! {

/// One screening result; the broker reads only the flag.
#[derive(Debug, Clone, Copy, PartialEq)]
pub struct ModerationResult {
    pub flagged: bool,
}

/// The screening collaborator's response.
#[derive(Debug, Clone, PartialEq)]
pub struct Moderation {
    pub id: String,
    pub model: String,
    pub results: Vec<ModerationResult>,
}

/// Whether any screening result flags the input.
pub open spec fn spec_flagged(m: Moderation) -> bool {
    exists|i: int| 0 <= i < m.results@.len() && m.results@[i].flagged
}

impl Moderation {
    /// How the broker reads a screening response: flagged when any single
    /// result flags the input.
    pub fn is_flagged(&self) -> (r: bool)
        ensures
            r == spec_flagged(*self),
    {
        let mut i: usize = 0;
        while i < self.results.len()
            invariant
                i <= self.results@.len(),
                forall|j: int| 0 <= j < i ==> !self.results@[j].flagged,
            decreases self.results@.len() - i,
        {
            if self.results[i].flagged {
                return true;
            }
            i = i + 1;
        }
        false
    }
}

} // verus!
