//! The findings the classifier can report. Each one names the option
//! character it is about; rendering the findings as text is left to the
//! caller.

use vstd::prelude::*;

verus! {

/// One finding about a scanned short-option character.
#[derive(Clone, Copy, PartialEq, Eq, Structural, Debug)]
pub enum Diagnostic {
    /// The character is in neither catalog set.
    UnknownArgument(char),
    /// The option was already recorded earlier in the run.
    DuplicateArgument(char),
    /// The option requires a value, but no token was left to supply one.
    MissingValueForArgument(char),
}

} // verus!
