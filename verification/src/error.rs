//! Errors of a session.
use vstd::prelude::*;

verus! {

/// Why a step of a session failed, in words.
#[derive(Debug, PartialEq)]
pub struct AcpError {
    pub message: String,
}

impl View for AcpError {
    type V = Seq<char>;

    open spec fn view(&self) -> Seq<char> {
        self.message@
    }
}

impl AcpError {
    pub fn new(message: String) -> (r: AcpError)
        ensures
            r@ == message@,
    {
        AcpError { message }
    }
}

} // verus!
