//! A small helper for speaking about a sequence of strings at the
//! specification level.

use vstd::prelude::*;

verus! {

/// The views of a sequence of strings: each string as its characters.
pub open spec fn string_views(s: Seq<String>) -> Seq<Seq<char>> {
    Seq::new(s.len(), |k: int| s[k]@)
}

} // verus!
