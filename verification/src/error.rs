//! The marker that is returned when a diagnostic has already been shown.

use vstd::prelude::*;

verus! {

/// Says that a diagnostic was emitted and nothing more is to be reported.
#[derive(Debug, Clone, Copy, PartialEq, Eq, Structural)]
pub struct DiagnosticEmitted;

impl DiagnosticEmitted {
    /// The text of the marker: it has none, the diagnostic has said it all.
    pub fn message(&self) -> (text: String)
        ensures
            text@ == Seq::<char>::empty(),
    {
        String::new()
    }
}

} // verus!
