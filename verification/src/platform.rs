//! What the platform back-ends share: the error they report.

use vstd::prelude::*;

verus! {

/// A failure of a platform back-end, with its reason as text.
#[derive(Debug, Clone)]
pub struct PlatformError {
    pub message: String,
}

impl PlatformError {
    pub fn new(message: String) -> (e: Self)
        ensures
            e.message@ == message@,
    {
        PlatformError { message }
    }
}

} // verus!
