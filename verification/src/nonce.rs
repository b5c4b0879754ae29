//! The one-shot vote code handed out by the poll service.

use vstd::prelude::*;

verus! {

/// A vote nonce: an opaque code the service requires on each vote request.
/// The surrounding script-evaluation layer extracts it and hands it in as a
/// plain string.
#[derive(Debug, Clone, Eq, PartialEq)]
pub struct Nonce(String);

impl View for Nonce {
    type V = Seq<char>;

    closed spec fn view(&self) -> Seq<char> {
        self.0@
    }
}

impl Nonce {
    pub fn new(code: String) -> (r: Self)
        ensures
            r@ == code@,
    {
        Nonce(code)
    }

    pub fn into_string(self) -> (r: String)
        ensures
            r@ == self@,
    {
        self.0
    }

    pub fn as_str(&self) -> (r: &str)
        ensures
            r@ == self@,
    {
        self.0.as_str()
    }
}

} // verus!
