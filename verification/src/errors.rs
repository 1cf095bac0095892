//! The failures of dispatch: one kind per kind of edit.

use vstd::prelude::*;

verus! {

/// Why an edit produced no delta.
#[derive(Clone, Copy, Debug, PartialEq, Eq, Structural)]
pub enum OTErrorCode {
    /// No rule of the insert chain accepted the edit.
    ApplyInsertFail,
    /// No rule of the delete chain accepted the edit.
    ApplyDeleteFail,
    /// No rule of the format chain accepted the edit.
    ApplyFormatFail,
}

/// A dispatch failure. No delta accompanies it.
#[derive(Clone, Copy, Debug, PartialEq, Eq, Structural)]
pub struct OTError {
    pub code: OTErrorCode,
}

impl OTError {
    pub fn new(code: OTErrorCode) -> (r: OTError)
        ensures
            r.code == code,
    {
        OTError { code }
    }
}

} // verus!
