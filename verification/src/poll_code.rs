//! The vote code as the alternative script front end extracts it.

use vstd::prelude::*;

verus! {

/// A vote code: the same one-shot credential as [`crate::nonce::Nonce`],
/// kept under the name its own front end uses.  The script-evaluation layer
/// hands it in as a plain string.
#[derive(Debug)]
pub struct PollCode(String);

impl View for PollCode {
    type V = Seq<char>;

    closed spec fn view(&self) -> Seq<char> {
        self.0@
    }
}

impl PollCode {
    pub fn new(code: String) -> (r: Self)
        ensures
            r@ == code@,
    {
        PollCode(code)
    }

    pub fn get_string(self) -> (r: String)
        ensures
            r@ == self@,
    {
        self.0
    }

    pub fn as_str(&self) -> (r: &str)
        ensures
            r@ == self@,
    {
        self.0.as_str()
    }
}

} // verus!
