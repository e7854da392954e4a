//! The live search prompt and its backed-up status line.

use vstd::prelude::*;
use vstd::string::StringExecFns;

verus! {

/// The query being typed, and the status line to restore when the search
/// is cancelled.
pub struct SearchInput {
    pub buffer: String,
    pub message_backup: String,
}

impl SearchInput {
    /// An empty prompt that remembers the current status line.
    pub fn new(message_backup: String) -> (r: SearchInput)
        ensures
            r.buffer@ == Seq::<char>::empty(),
            r.message_backup == message_backup,
    {
        SearchInput { buffer: String::new(), message_backup }
    }

    /// The status line shown while typing.
    pub fn prompt(&self) -> (r: String)
        ensures
            r@ == "Search: "@ + self.buffer@,
    {
        "Search: ".to_owned().concat(self.buffer.as_str())
    }
}

} // verus!
