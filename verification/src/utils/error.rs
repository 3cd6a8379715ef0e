//! The scan error.

use vstd::prelude::*;
use crate::text::owned;

verus! {

/// An error of a scan, with its message.
#[derive(Debug, Clone, PartialEq, Eq)]
pub struct ScanError {
    pub message: String,
}

impl ScanError {
    /// The text the error is displayed as: `ScanError: ` and the message.
    pub fn describe(&self) -> (r: String)
        ensures
            r@ == "ScanError: "@ + self.message@,
    {
        let mut v = crate::text::chars_of("ScanError: ");
        let mut m = crate::text::chars_of(self.message.as_str());
        v.append(&mut m);
        crate::text::string_of(v.as_slice())
    }
}

/// A scan error with the given message.
pub fn new_error(message: &str) -> (r: ScanError)
    ensures
        r.message@ == message@,
{
    ScanError { message: owned(message) }
}

} // verus!
