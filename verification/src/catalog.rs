//! The option catalog: which single-character short options exist, and
//! which of them require an associated value. The catalog mirrors the flag
//! grammar of the `ls` utility and is fixed for a run.

use vstd::prelude::*;

verus! {

/// The boolean (no-value) short options.
pub open spec fn spec_is_no_value_option(c: char) -> bool {
    c == 'a' || c == 'A' || c == 'b' || c == 'B' || c == 'c' || c == 'C' || c == 'd' || c == 'D'
        || c == 'f' || c == 'F' || c == 'g' || c == 'G' || c == 'h' || c == 'H' || c == 'i'
        || c == 'k' || c == 'l' || c == 'L' || c == 'm' || c == 'n' || c == 'N' || c == 'o'
        || c == 'Q' || c == 'r' || c == 'R' || c == 's' || c == 'S' || c == 't' || c == 'u'
        || c == 'U' || c == 'v' || c == 'x' || c == 'Z' || c == '1'
}

/// The short options that require an associated value.
pub open spec fn spec_is_value_option(c: char) -> bool {
    c == 'I' || c == 'p' || c == 'w' || c == 'T'
}

/// No character both takes a value and is a boolean flag: the two catalog
/// sets are disjoint, so an observed option belongs to exactly one of them.
pub proof fn lemma_catalogs_disjoint(c: char)
    ensures
        !(spec_is_no_value_option(c) && spec_is_value_option(c)),
{
}

/// Decides membership in the boolean (no-value) catalog.
pub fn is_no_value_option(c: char) -> (r: bool)
    ensures
        r == spec_is_no_value_option(c),
{
    c == 'a' || c == 'A' || c == 'b' || c == 'B' || c == 'c' || c == 'C' || c == 'd' || c == 'D'
        || c == 'f' || c == 'F' || c == 'g' || c == 'G' || c == 'h' || c == 'H' || c == 'i'
        || c == 'k' || c == 'l' || c == 'L' || c == 'm' || c == 'n' || c == 'N' || c == 'o'
        || c == 'Q' || c == 'r' || c == 'R' || c == 's' || c == 'S' || c == 't' || c == 'u'
        || c == 'U' || c == 'v' || c == 'x' || c == 'Z' || c == '1'
}

/// Decides membership in the value-taking catalog.
pub fn is_value_option(c: char) -> (r: bool)
    ensures
        r == spec_is_value_option(c),
{
    c == 'I' || c == 'p' || c == 'w' || c == 'T'
}

} // verus!
