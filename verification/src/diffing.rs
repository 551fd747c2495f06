//! Cumulative-text diffing.
//!
//! One provider resends the entire text so far in every delta instead of
//! only the increment.  The tracker keeps the last full text and emits the
//! added suffix; a value that does not extend the previous one signals a
//! fresh block and is emitted in full.

use vstd::prelude::*;

use crate::text::{spec_starts_with, str_starts_with};

verus! {

/// The increment a new cumulative value contributes over the previous one:
/// the added suffix when `new` extends `prev`, otherwise all of `new`.
pub open spec fn spec_diff(prev: Seq<char>, new: Seq<char>) -> Seq<char> {
    if spec_starts_with(new, prev) {
        new.skip(prev.len() as int)
    } else {
        new
    }
}

/// Tracks the last cumulative value seen on one stream kind.
pub struct CumulativeText {
    /// The full text most recently seen.
    pub last: String,
}

impl CumulativeText {
    /// A tracker that has seen nothing: the first value is emitted in full.
    pub fn new() -> (r: CumulativeText)
        ensures
            r.last@ == Seq::<char>::empty(),
    {
        CumulativeText { last: String::new() }
    }

    /// Feed the next cumulative value; returns the increment to emit.
    /// Never fails: a shorter or unrelated value resets the tracker and
    /// comes back in full.
    pub fn push(&mut self, new_text: &str) -> (delta: String)
        ensures
            final(self).last@ == new_text@,
            delta@ == spec_diff(old(self).last@, new_text@),
    {
        let delta = if str_starts_with(new_text, self.last.as_str()) {
            let n = new_text.unicode_len();
            let p = self.last.unicode_len();
            let suffix = new_text.substring_char(p, n);
            proof {
                assert(new_text@.subrange(self.last@.len() as int, new_text@.len() as int)
                    =~= new_text@.skip(self.last@.len() as int));
            }
            suffix.to_owned()
        } else {
            new_text.to_owned()
        };
        self.last = new_text.to_owned();
        delta
    }
}

} // verus!
