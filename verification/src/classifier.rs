//! The classifier: one left-to-right pass over the argument tokens that
//! records which known short options were seen, counts the tokens that
//! contributed a new option, and collects diagnostics. The final decision —
//! whether a combined spelling would have used fewer tokens — is taken here
//! as well.

use vstd::prelude::*;
use vstd::string::StrSliceExecFns;

use crate::catalog::{
    is_no_value_option, is_value_option, spec_is_no_value_option, spec_is_value_option,
};
use crate::combiner::{combine_short_args, spec_combined, spec_minimal_clusters};
use crate::diagnostics::Diagnostic;
use crate::observed::{lemma_wf_insert, spec_has_key, spec_wf_observed, ObservedOptions};
use crate::views::string_views;

verus! {

/// The short-option-cluster shape: a dash, then at least one more
/// character, the first of which is itself not a dash.
pub open spec fn token_is_cluster(t: Seq<char>) -> bool {
    t.len() >= 2 && t[0] == '-' && t[1] != '-'
}

/// The state carried through the scan of one token's characters.
#[verifier::ext_equal]
pub struct TokenScan {
    /// The options recorded so far.
    pub observed: Seq<(char, Seq<char>)>,
    /// The diagnostics reported so far, in scan order.
    pub diags: Seq<Diagnostic>,
    /// Whether this token has recorded at least one new option.
    pub contributed: bool,
    /// Whether this token took the following token as an option value.
    pub consumed_next: bool,
}

/// The outcome of classifying a token sequence.
#[verifier::ext_equal]
pub struct ClassifyOutcome {
    /// The recorded options, in insertion order.
    pub observed: Seq<(char, Seq<char>)>,
    /// The diagnostics, in scan order.
    pub diags: Seq<Diagnostic>,
    /// How many tokens contributed at least one newly recorded option.
    pub clusters: int,
}

/// The scan of a qualifying token `t` from character position `j` on,
/// with `next` the following token, if any, available as a lookahead
/// value. A boolean option is recorded with the empty value; a value
/// option captures the rest of the token, or the whole next token when
/// the rest is empty, and always ends the scan of this token.
pub open spec fn spec_scan_token(
    t: Seq<char>,
    j: int,
    next: Option<Seq<char>>,
    acc: TokenScan,
) -> TokenScan
    decreases t.len() - j,
{
    if j < 1 || j >= t.len() {
        acc
    } else {
        let c = t[j];
        if spec_is_no_value_option(c) {
            if spec_has_key(acc.observed, c) {
                spec_scan_token(
                    t,
                    j + 1,
                    next,
                    TokenScan {
                        observed: acc.observed,
                        diags: acc.diags.push(Diagnostic::DuplicateArgument(c)),
                        contributed: acc.contributed,
                        consumed_next: acc.consumed_next,
                    },
                )
            } else {
                spec_scan_token(
                    t,
                    j + 1,
                    next,
                    TokenScan {
                        observed: acc.observed.push((c, Seq::empty())),
                        diags: acc.diags,
                        contributed: true,
                        consumed_next: acc.consumed_next,
                    },
                )
            }
        } else if spec_is_value_option(c) {
            if spec_has_key(acc.observed, c) {
                TokenScan {
                    observed: acc.observed,
                    diags: acc.diags.push(Diagnostic::DuplicateArgument(c)),
                    contributed: acc.contributed,
                    consumed_next: acc.consumed_next,
                }
            } else {
                let inline = t.subrange(j + 1, t.len() as int);
                if inline.len() > 0 {
                    TokenScan {
                        observed: acc.observed.push((c, inline)),
                        diags: acc.diags,
                        contributed: true,
                        consumed_next: acc.consumed_next,
                    }
                } else {
                    match next {
                        Some(nv) => TokenScan {
                            observed: acc.observed.push((c, nv)),
                            diags: acc.diags,
                            contributed: true,
                            consumed_next: true,
                        },
                        None => TokenScan {
                            observed: acc.observed,
                            diags: acc.diags.push(Diagnostic::MissingValueForArgument(c)),
                            contributed: acc.contributed,
                            consumed_next: acc.consumed_next,
                        },
                    }
                }
            }
        } else {
            spec_scan_token(
                t,
                j + 1,
                next,
                TokenScan {
                    observed: acc.observed,
                    diags: acc.diags.push(Diagnostic::UnknownArgument(c)),
                    contributed: acc.contributed,
                    consumed_next: acc.consumed_next,
                },
            )
        }
    }
}

/// Classification of the token sequence from index `i` on, continuing the
/// already-accumulated outcome `acc`. A token that does not match the
/// cluster shape is skipped untouched; a qualifying token is scanned, may
/// take the following token as a value, and counts as one used cluster
/// when it recorded at least one new option.
pub open spec fn spec_classify_from(
    tokens: Seq<Seq<char>>,
    i: int,
    acc: ClassifyOutcome,
) -> ClassifyOutcome
    decreases tokens.len() - i,
{
    if i < 0 || i >= tokens.len() {
        acc
    } else if !token_is_cluster(tokens[i]) {
        spec_classify_from(tokens, i + 1, acc)
    } else {
        let next = if i + 1 < tokens.len() {
            Some(tokens[i + 1])
        } else {
            None
        };
        let scan = spec_scan_token(
            tokens[i],
            1,
            next,
            TokenScan {
                observed: acc.observed,
                diags: acc.diags,
                contributed: false,
                consumed_next: false,
            },
        );
        let stepped = ClassifyOutcome {
            observed: scan.observed,
            diags: scan.diags,
            clusters: acc.clusters + if scan.contributed {
                1int
            } else {
                0int
            },
        };
        let advanced = if scan.consumed_next {
            i + 2
        } else {
            i + 1
        };
        let bounded = if advanced > tokens.len() {
            tokens.len() as int
        } else {
            advanced
        };
        spec_classify_from(tokens, bounded, stepped)
    }
}

/// Classification of a whole token sequence, started from nothing.
pub open spec fn spec_classify(tokens: Seq<Seq<char>>) -> ClassifyOutcome {
    spec_classify_from(
        tokens,
        0,
        ClassifyOutcome { observed: Seq::empty(), diags: Seq::empty(), clusters: 0 },
    )
}

/// Whether a combining suggestion is owed for the outcome `co`: the input
/// used more clusters than needed, and something was recorded at all — an
/// empty record must never yield the bare-dash suggestion.
pub open spec fn spec_suggestion_due(co: ClassifyOutcome) -> bool {
    co.clusters > spec_minimal_clusters(co.observed) && co.observed.len() > 0
}

/// Everything the analysis of one argument list yields.
pub struct Analysis {
    /// The recorded options, in insertion order.
    pub observed: ObservedOptions,
    /// How many tokens contributed at least one newly recorded option.
    pub cluster_count: usize,
    /// The classifier's diagnostics, in scan order.
    pub diagnostics: Vec<Diagnostic>,
    /// The suggested combined spelling, when it would save tokens.
    pub suggestion: Option<String>,
}

/// Analyzes one argument list: records the known short options it uses,
/// counts the clusters actually spent on them, collects the diagnostics,
/// and suggests the combined spelling exactly when it would take fewer
/// dash-prefixed tokens than the input used and something was recorded.
pub fn analyze_short_args(args: &Vec<String>) -> (r: Analysis)
    ensures
        r.observed@ == spec_classify(string_views(args@)).observed,
        r.cluster_count as int == spec_classify(string_views(args@)).clusters,
        r.diagnostics@ == spec_classify(string_views(args@)).diags,
        spec_wf_observed(r.observed@),
        (r.suggestion is Some) == spec_suggestion_due(spec_classify(string_views(args@))),
        r.suggestion matches Some(s) ==> s@ == spec_combined(
            spec_classify(string_views(args@)).observed,
        ),
{
    let ghost toks = string_views(args@);
    let mut observed = ObservedOptions::new();
    let mut diagnostics: Vec<Diagnostic> = Vec::new();
    let mut clusters: usize = 0;
    let mut i: usize = 0;
    while i < args.len()
        invariant
            i <= args.len(),
            clusters <= i,
            toks == string_views(args@),
            toks.len() == args@.len(),
            spec_wf_observed(observed@),
            spec_classify_from(
                toks,
                i as int,
                (ClassifyOutcome {
                    observed: observed@,
                    diags: diagnostics@,
                    clusters: clusters as int,
                }),
            ) == spec_classify(toks),
        decreases args.len() - i,
    {
        let ghost acc0 = ClassifyOutcome {
            observed: observed@,
            diags: diagnostics@,
            clusters: clusters as int,
        };
        let t = &args[i];
        let ghost tv = toks[i as int];
        proof {
            assert(tv == t@);
        }
        let tlen = t.as_str().unicode_len();
        if tlen < 2 || t.as_str().get_char(0) != '-' || t.as_str().get_char(1) == '-' {
            proof {
                assert(!token_is_cluster(tv));
                assert(spec_classify_from(toks, i as int, acc0) == spec_classify_from(
                    toks,
                    i as int + 1,
                    acc0,
                ));
            }
            i = i + 1;
        } else {
            proof {
                assert(token_is_cluster(tv));
            }
            let ghost nextv: Option<Seq<char>> = if i + 1 < args.len() {
                Some(toks[i as int + 1])
            } else {
                None
            };
            let ghost init_scan = TokenScan {
                observed: observed@,
                diags: diagnostics@,
                contributed: false,
                consumed_next: false,
            };
            let mut contributed: bool = false;
            let mut consumed: bool = false;
            let mut j: usize = 1;
            while j < tlen
                invariant
                    1 <= j <= tlen,
                    tlen == tv.len(),
                    i < args.len(),
                    toks == string_views(args@),
                    toks.len() == args@.len(),
                    tv == toks[i as int],
                    tv == t@,
                    nextv == (if i + 1 < args.len() {
                        Some(toks[i as int + 1])
                    } else {
                        None::<Seq<char>>
                    }),
                    consumed ==> i + 1 < args.len(),
                    spec_wf_observed(observed@),
                    spec_scan_token(
                        tv,
                        j as int,
                        nextv,
                        (TokenScan {
                            observed: observed@,
                            diags: diagnostics@,
                            contributed,
                            consumed_next: consumed,
                        }),
                    ) == spec_scan_token(tv, 1, nextv, init_scan),
                decreases tlen - j,
            {
                let ghost j0 = j as int;
                let ghost pre_scan = TokenScan {
                    observed: observed@,
                    diags: diagnostics@,
                    contributed,
                    consumed_next: consumed,
                };
                let c = t.as_str().get_char(j);
                proof {
                    assert(c == tv[j0]);
                }
                if is_no_value_option(c) {
                    if observed.contains_key(c) {
                        diagnostics.push(Diagnostic::DuplicateArgument(c));
                    } else {
                        proof {
                            lemma_wf_insert(observed@, c, Seq::empty());
                        }
                        observed.insert(c, String::new());
                        contributed = true;
                    }
                    j = j + 1;
                } else if is_value_option(c) {
                    if observed.contains_key(c) {
                        diagnostics.push(Diagnostic::DuplicateArgument(c));
                        j = tlen;
                    } else {
                        if j + 1 < tlen {
                            let value_str = t.as_str().substring_char(j + 1, tlen);
                            proof {
                                assert(value_str@ == tv.subrange(j0 + 1, tv.len() as int));
                                lemma_wf_insert(observed@, c, value_str@);
                            }
                            observed.insert(c, value_str.to_owned());
                            contributed = true;
                            j = tlen;
                        } else if i + 1 < args.len() {
                            let nt = &args[i + 1];
                            proof {
                                assert(nt@ == toks[i as int + 1]);
                                lemma_wf_insert(observed@, c, nt@);
                            }
                            observed.insert(c, nt.clone());
                            contributed = true;
                            consumed = true;
                            j = tlen;
                        } else {
                            diagnostics.push(Diagnostic::MissingValueForArgument(c));
                            j = tlen;
                        }
                    }
                } else {
                    diagnostics.push(Diagnostic::UnknownArgument(c));
                    j = j + 1;
                }
                proof {
                    assert(spec_scan_token(tv, j0, nextv, pre_scan) == spec_scan_token(
                        tv,
                        j as int,
                        nextv,
                        (TokenScan {
                            observed: observed@,
                            diags: diagnostics@,
                            contributed,
                            consumed_next: consumed,
                        }),
                    ));
                }
            }
            let ghost sc = TokenScan {
                observed: observed@,
                diags: diagnostics@,
                contributed,
                consumed_next: consumed,
            };
            proof {
                assert(spec_scan_token(tv, j as int, nextv, sc) == sc);
                assert(sc == spec_scan_token(tv, 1, nextv, init_scan));
            }
            if contributed {
                clusters = clusters + 1;
            }
            proof {
                let stepped = ClassifyOutcome {
                    observed: sc.observed,
                    diags: sc.diags,
                    clusters: acc0.clusters + if sc.contributed {
                        1int
                    } else {
                        0int
                    },
                };
                assert(stepped == (ClassifyOutcome {
                    observed: observed@,
                    diags: diagnostics@,
                    clusters: clusters as int,
                }));
                assert(spec_classify_from(toks, i as int, acc0) == spec_classify_from(
                    toks,
                    if sc.consumed_next {
                        i as int + 2
                    } else {
                        i as int + 1
                    },
                    stepped,
                ));
            }
            if consumed {
                i = i + 2;
            } else {
                i = i + 1;
            }
        }
    }
    proof {
        assert(spec_classify_from(
            toks,
            i as int,
            (ClassifyOutcome {
                observed: observed@,
                diags: diagnostics@,
                clusters: clusters as int,
            }),
        ) == (ClassifyOutcome {
            observed: observed@,
            diags: diagnostics@,
            clusters: clusters as int,
        }));
    }
    let pair = combine_short_args(&observed);
    let minimal = pair.1;
    let has_entries = observed.len() > 0;
    let suggestion: Option<String> = if clusters > minimal && has_entries {
        Some(pair.0)
    } else {
        None
    };
    Analysis { observed, cluster_count: clusters, diagnostics, suggestion }
}

/// A token that does not match the short-option-cluster shape leaves the
/// classification outcome exactly as it was: it yields no diagnostic, no
/// recorded option, and no counted cluster, at any point of a run.
pub proof fn lemma_non_cluster_token_inert(tokens: Seq<Seq<char>>, i: int, acc: ClassifyOutcome)
    requires
        0 <= i < tokens.len(),
        !token_is_cluster(tokens[i]),
    ensures
        spec_classify_from(tokens, i, acc) == spec_classify_from(tokens, i + 1, acc),
{
}

/// A value option takes its value the same way written inline or as the
/// following token: for an unseen value option `c` and a non-empty value
/// `v`, the one token `-cv` and the two tokens `-c v` classify to the very
/// same outcome — same recorded entry, same diagnostics, same cluster
/// count.
pub proof fn lemma_inline_and_next_token_value_agree(c: char, v: Seq<char>, acc: ClassifyOutcome)
    requires
        spec_is_value_option(c),
        !spec_has_key(acc.observed, c),
        v.len() > 0,
    ensures
        spec_classify_from(seq![seq!['-', c] + v], 0, acc) == spec_classify_from(
            seq![seq!['-', c], v],
            0,
            acc,
        ),
{
    reveal_with_fuel(spec_classify_from, 4);
    reveal_with_fuel(spec_scan_token, 3);
    let inline_tok = seq!['-', c] + v;
    assert(inline_tok[0] == '-');
    assert(inline_tok[1] == c);
    assert(!spec_is_no_value_option(c));
    assert(inline_tok.subrange(2, inline_tok.len() as int) =~= v);
    let split = seq![seq!['-', c], v];
    assert(split[0] == seq!['-', c]);
    assert(split[1] == v);
    assert(split[0][1] == c);
    assert(split[0].subrange(2, 2) =~= Seq::<char>::empty());
    assert(spec_classify_from(seq![inline_tok], 0, acc) == spec_classify_from(split, 0, acc));
}

/// Two unseen boolean options record the same entries whether clustered in
/// one token or spread over two, but the spread form spends one more
/// cluster — the saving that the suggestion reports.
pub proof fn lemma_split_boolean_pair_costs_a_cluster(c1: char, c2: char, acc: ClassifyOutcome)
    requires
        spec_is_no_value_option(c1),
        spec_is_no_value_option(c2),
        c1 != c2,
        !spec_has_key(acc.observed, c1),
        !spec_has_key(acc.observed, c2),
    ensures
        spec_classify_from(seq![seq!['-', c1, c2]], 0, acc).observed == spec_classify_from(
            seq![seq!['-', c1], seq!['-', c2]],
            0,
            acc,
        ).observed,
        spec_classify_from(seq![seq!['-', c1, c2]], 0, acc).diags == spec_classify_from(
            seq![seq!['-', c1], seq!['-', c2]],
            0,
            acc,
        ).diags,
        spec_classify_from(seq![seq!['-', c1], seq!['-', c2]], 0, acc).clusters
            == spec_classify_from(seq![seq!['-', c1, c2]], 0, acc).clusters + 1,
{
    reveal_with_fuel(spec_classify_from, 4);
    reveal_with_fuel(spec_scan_token, 4);
    let with_first = acc.observed.push((c1, Seq::empty()));
    assert(!spec_has_key(with_first, c2)) by {
        assert(forall|k: int|
            0 <= k < acc.observed.len() ==> (#[trigger] with_first[k]) == acc.observed[k]);
        assert(with_first[with_first.len() - 1].0 == c1);
    }
    let clustered = seq![seq!['-', c1, c2]];
    assert(clustered[0] == seq!['-', c1, c2]);
    assert(clustered[0][0] == '-' && clustered[0][1] == c1 && clustered[0][2] == c2);
    let spread = seq![seq!['-', c1], seq!['-', c2]];
    assert(spread[0] == seq!['-', c1] && spread[1] == seq!['-', c2]);
    assert(spread[0][1] == c1 && spread[1][1] == c2);
}

/// The same, stated of a run on that one token alone: nothing at all is
/// produced for it.
pub proof fn lemma_non_cluster_token_alone(t: Seq<char>)
    requires
        !token_is_cluster(t),
    ensures
        spec_classify(seq![t]).observed == Seq::<(char, Seq<char>)>::empty(),
        spec_classify(seq![t]).diags == Seq::<Diagnostic>::empty(),
        spec_classify(seq![t]).clusters == 0,
{
    let tokens = seq![t];
    let init = ClassifyOutcome { observed: Seq::empty(), diags: Seq::empty(), clusters: 0 };
    assert(tokens[0] == t);
    assert(spec_classify_from(tokens, 0, init) == spec_classify_from(tokens, 1, init));
    assert(spec_classify_from(tokens, 1, init) == init);
}

} // verus!
