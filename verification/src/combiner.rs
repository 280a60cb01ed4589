//! The combiner: given the recorded options, compute the suggested combined
//! spelling and the minimal number of dash-prefixed tokens needed to express
//! them all.

use vstd::prelude::*;
use vstd::string::StringExecFns;

use crate::observed::ObservedOptions;
use crate::views::string_views;

verus! {

/// The boolean option characters of `obs`, in order: the keys whose
/// recorded value is empty.
pub open spec fn spec_bool_keys(obs: Seq<(char, Seq<char>)>) -> Seq<char>
    decreases obs.len(),
{
    if obs.len() == 0 {
        Seq::empty()
    } else {
        let rest = spec_bool_keys(obs.drop_last());
        if obs.last().1.len() == 0 {
            rest.push(obs.last().0)
        } else {
            rest
        }
    }
}

/// The value blocks of `obs`, in order: for each key with a non-empty
/// value, the key character immediately followed by its value text.
pub open spec fn spec_value_blocks(obs: Seq<(char, Seq<char>)>) -> Seq<Seq<char>>
    decreases obs.len(),
{
    if obs.len() == 0 {
        Seq::empty()
    } else {
        let rest = spec_value_blocks(obs.drop_last());
        if obs.last().1.len() > 0 {
            rest.push(seq![obs.last().0] + obs.last().1)
        } else {
            rest
        }
    }
}

/// The trailing value blocks from index `k` on, each preceded by a space
/// and a fresh dash.
pub open spec fn spec_joined_tail(blocks: Seq<Seq<char>>, k: int) -> Seq<char>
    decreases blocks.len() - k,
{
    if k < 0 || k >= blocks.len() {
        Seq::empty()
    } else {
        seq![' ', '-'] + blocks[k] + spec_joined_tail(blocks, k + 1)
    }
}

/// The suggested combined spelling: one leading dash, then the boolean
/// block, then the first value block riding along on the same token, then
/// each further value block as its own dash-prefixed token.
pub open spec fn spec_combined(obs: Seq<(char, Seq<char>)>) -> Seq<char> {
    let bb = spec_bool_keys(obs);
    let vb = spec_value_blocks(obs);
    if vb.len() == 0 {
        seq!['-'] + bb
    } else {
        seq!['-'] + bb + vb[0] + spec_joined_tail(vb, 1)
    }
}

/// The minimal number of dash-prefixed tokens needed to express `obs`:
/// one for the boolean block when it is non-empty, plus one for each value
/// block past the first. The first value block always rides along with the
/// boolean token, so a lone value option on its own counts for nothing —
/// a deliberate, documented asymmetry of this counting rule.
pub open spec fn spec_minimal_clusters(obs: Seq<(char, Seq<char>)>) -> int {
    let bb = spec_bool_keys(obs);
    let vb = spec_value_blocks(obs);
    (if bb.len() == 0 {
        0int
    } else {
        1int
    }) + (if vb.len() >= 2 {
        vb.len() - 1
    } else {
        0int
    })
}

/// Relies on String::push: appends the one character at the end.
#[verifier::external_body]
fn push_char(s: &mut String, c: char)
    ensures
        final(s)@ == old(s)@.push(c),
{
    s.push(c);
}

/// Computes the suggested combined spelling of the recorded options and
/// the minimal number of dash-prefixed tokens needed to express them.
pub fn combine_short_args(observed: &ObservedOptions) -> (r: (String, usize))
    ensures
        r.0@ == spec_combined(observed@),
        r.1 as int == spec_minimal_clusters(observed@),
{
    let n = observed.entries.len();
    let mut bool_block = String::new();
    let mut value_blocks: Vec<String> = Vec::new();
    let mut idx: usize = 0;
    proof {
        assert(observed@.take(0) =~= Seq::<(char, Seq<char>)>::empty());
    }
    while idx < n
        invariant
            n == observed.entries.len(),
            idx <= n,
            observed@.len() == n,
            bool_block@ == spec_bool_keys(observed@.take(idx as int)),
            string_views(value_blocks@) == spec_value_blocks(observed@.take(idx as int)),
            bool_block@.len() + value_blocks@.len() <= idx,
        decreases n - idx,
    {
        let p = &observed.entries[idx];
        proof {
            assert(observed@[idx as int] == (p.0, p.1@));
            assert(observed@.take(idx as int + 1).drop_last() =~= observed@.take(idx as int));
            assert(observed@.take(idx as int + 1).last() == observed@[idx as int]);
        }
        if p.1.as_str().is_empty() {
            push_char(&mut bool_block, p.0);
        } else {
            let mut block = String::new();
            push_char(&mut block, p.0);
            block.append(p.1.as_str());
            proof {
                assert(block@ =~= seq![p.0] + p.1@);
            }
            value_blocks.push(block);
            proof {
                assert(string_views(value_blocks@) =~= spec_value_blocks(
                    observed@.take(idx as int + 1),
                ));
            }
        }
        idx = idx + 1;
    }
    proof {
        assert(observed@.take(n as int) =~= observed@);
    }
    let ghost vb = spec_value_blocks(observed@);
    let mut combined = String::new();
    push_char(&mut combined, '-');
    combined.append(bool_block.as_str());
    proof {
        assert(combined@ =~= seq!['-'] + bool_block@);
    }
    let mut total: usize = if bool_block.as_str().is_empty() {
        0
    } else {
        1
    };
    if value_blocks.len() > 0 {
        let first = &value_blocks[0];
        combined.append(first.as_str());
        proof {
            assert(combined@ =~= seq!['-'] + spec_bool_keys(observed@) + vb[0]);
        }
        let mut k: usize = 1;
        while k < value_blocks.len()
            invariant
                1 <= k <= value_blocks.len(),
                string_views(value_blocks@) == vb,
                vb.len() == value_blocks@.len(),
                combined@ + spec_joined_tail(vb, k as int) == spec_combined(observed@),
            decreases value_blocks.len() - k,
        {
            combined.append(" -");
            let bk = &value_blocks[k];
            combined.append(bk.as_str());
            proof {
                reveal_strlit(" -");
                assert((" -")@ =~= seq![' ', '-']);
                assert(combined@ + spec_joined_tail(vb, k as int + 1) =~= spec_combined(
                    observed@,
                ));
            }
            k = k + 1;
        }
        proof {
            assert(combined@ =~= combined@ + spec_joined_tail(vb, k as int));
        }
        if value_blocks.len() >= 2 {
            total = total + (value_blocks.len() - 1);
        }
    }
    (combined, total)
}

} // verus!
