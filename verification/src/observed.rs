//! The options recorded during one run: a mapping from option character to
//! its captured value, kept as a vector of entries in insertion order.

use vstd::prelude::*;

use crate::catalog::{spec_is_no_value_option, spec_is_value_option};

verus! {

/// The options seen so far, each with its captured value. A boolean option
/// carries the empty string as a sentinel value. Keys are unique and the
/// order of insertion is kept.
pub struct ObservedOptions {
    pub entries: Vec<(char, String)>,
}

impl View for ObservedOptions {
    type V = Seq<(char, Seq<char>)>;

    open spec fn view(&self) -> Seq<(char, Seq<char>)> {
        Seq::new(self.entries@.len() as nat, |k: int| (self.entries@[k].0, self.entries@[k].1@))
    }
}

/// Whether option character `c` is recorded in `obs`.
pub open spec fn spec_has_key(obs: Seq<(char, Seq<char>)>, c: char) -> bool {
    exists|k: int| 0 <= k < obs.len() && (#[trigger] obs[k]).0 == c
}

/// Well-formedness of a recorded mapping: no key repeats, every key is in
/// one of the two catalog sets, and a boolean key carries the empty value.
pub open spec fn spec_wf_observed(obs: Seq<(char, Seq<char>)>) -> bool {
    &&& forall|k1: int, k2: int|
        0 <= k1 < k2 < obs.len() ==> (#[trigger] obs[k1]).0 != (#[trigger] obs[k2]).0
    &&& forall|k: int|
        0 <= k < obs.len() ==> spec_is_no_value_option((#[trigger] obs[k]).0)
            || spec_is_value_option(obs[k].0)
    &&& forall|k: int|
        0 <= k < obs.len() && spec_is_no_value_option((#[trigger] obs[k]).0) ==> obs[k].1.len()
            == 0
}

/// Recording a fresh catalog option keeps the mapping well-formed: the new
/// key was absent, it belongs to a catalog set, and a boolean key only ever
/// carries the empty value.
pub proof fn lemma_wf_insert(obs: Seq<(char, Seq<char>)>, c: char, v: Seq<char>)
    requires
        spec_wf_observed(obs),
        !spec_has_key(obs, c),
        spec_is_no_value_option(c) || spec_is_value_option(c),
        spec_is_no_value_option(c) ==> v.len() == 0,
    ensures
        spec_wf_observed(obs.push((c, v))),
{
    let n = obs.push((c, v));
    assert forall|k1: int, k2: int|
        0 <= k1 < k2 < n.len() implies (#[trigger] n[k1]).0 != (#[trigger] n[k2]).0 by {
        if k2 == n.len() - 1 {
            assert(n[k1] == obs[k1]);
            assert(obs[k1].0 != c);
        } else {
            assert(n[k1] == obs[k1]);
            assert(n[k2] == obs[k2]);
        }
    }
    assert forall|k: int|
        0 <= k < n.len() implies spec_is_no_value_option((#[trigger] n[k]).0)
        || spec_is_value_option(n[k].0) by {
        if k < n.len() - 1 {
            assert(n[k] == obs[k]);
        }
    }
    assert forall|k: int|
        0 <= k < n.len() && spec_is_no_value_option((#[trigger] n[k]).0) implies n[k].1.len()
        == 0 by {
        if k < n.len() - 1 {
            assert(n[k] == obs[k]);
        }
    }
}

impl ObservedOptions {
    /// An empty mapping: nothing recorded yet.
    pub fn new() -> (r: Self)
        ensures
            r@ == Seq::<(char, Seq<char>)>::empty(),
    {
        let r = ObservedOptions { entries: Vec::new() };
        proof {
            assert(r@ =~= Seq::<(char, Seq<char>)>::empty());
        }
        r
    }

    /// The number of recorded options.
    pub fn len(&self) -> (r: usize)
        ensures
            r == self@.len(),
    {
        self.entries.len()
    }

    /// Whether option character `c` was recorded.
    pub fn contains_key(&self, c: char) -> (r: bool)
        ensures
            r == spec_has_key(self@, c),
    {
        let mut k: usize = 0;
        while k < self.entries.len()
            invariant
                k <= self.entries.len(),
                forall|j: int| 0 <= j < k ==> (#[trigger] self@[j]).0 != c,
            decreases self.entries.len() - k,
        {
            let p = &self.entries[k];
            if p.0 == c {
                proof {
                    assert(self@[k as int].0 == c);
                }
                return true;
            }
            k = k + 1;
        }
        false
    }

    /// Records option `c` with value `value` as the newest entry.
    pub fn insert(&mut self, c: char, value: String)
        ensures
            final(self)@ == old(self)@.push((c, value@)),
    {
        self.entries.push((c, value));
        proof {
            assert(self@ =~= old(self)@.push((c, value@)));
        }
    }
}

} // verus!
