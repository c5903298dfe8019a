//! Values that the terminal frontend copies to the desktop clipboard.
use vstd::prelude::*;
use crate::domain::LookupResult;
use crate::presentation::values_spec;

verus! {

/// The desktop clipboard, as the terminal interface uses it. Failures are messages to show.
pub trait Clipboard {
    /// Put text on the clipboard.
    fn copy(&mut self, text: String) -> Result<(), String>;

    /// Read text from the clipboard.
    fn paste(&mut self) -> Result<String, String>;
}

/// Copyable values: the selected candidate's, or every candidate's joined by newlines.
pub fn values(result: &LookupResult, index: Option<usize>) -> (r: Option<String>)
    ensures
        match (r, values_spec(result@, index)) {
            (Some(s), Some(v)) => s@ == v,
            (None, None) => true,
            _ => false,
        },
{
    crate::presentation::values(result, index)
}

} // verus!
