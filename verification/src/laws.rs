//! The general laws of the pipe, stated and proved over the models.

use vstd::prelude::*;

use crate::ast::{lemma_wf_seq, wf_args, wf_seq, wf_ty, Args, Ty};
use crate::fold::{lemma_subst_seq, 
    insert_fold, insert_fold_from, insert_ty, pipe_fold, pipe_fold_from, subst_args, subst_seq,
    subst_ty,
};
use crate::render::render_opt;

verus! {

/// How many placeholder leaves a tree holds.
pub open spec fn placeholder_count(e: Ty) -> nat
    decreases e,
{
    match e {
        Ty::Placeholder => 1,
        Ty::Path { leading_colon, segments, args } => placeholder_count_args(args),
        Ty::Other { parts, children } => placeholder_count_seq(children),
    }
}

/// How many placeholder leaves a generic-argument list holds.
pub open spec fn placeholder_count_args(a: Args) -> nat
    decreases a,
{
    match a {
        Args::Absent => 0,
        Args::Angle { items } => placeholder_count_seq(items),
        Args::Paren { inputs, ret } => placeholder_count_seq(inputs) + placeholder_count_seq(ret),
    }
}

/// How many placeholder leaves the trees of a list hold together.
pub open spec fn placeholder_count_seq(s: Seq<Ty>) -> nat
    decreases s,
{
    if s.len() == 0 {
        0
    } else {
        placeholder_count(s[0]) + placeholder_count_seq(s.subrange(1, s.len() as int))
    }
}

/// Identity on singletons: a single-element list folds to that element
/// unchanged, in the pipe mode and in both insert modes.
pub proof fn lemma_singleton_identity(l: Seq<Ty>, push: bool)
    requires
        l.len() == 1,
    ensures
        pipe_fold(l) == Option::Some(l[0]),
        insert_fold(l, push) == Result::<Option<Ty>, int>::Ok(Option::Some(l[0])),
{
    assert(l.subrange(1, 1).len() == 0);
}

/// Empty input: an empty list folds to the empty-output sentinel, which
/// renders as empty text; no mode reports an error for it.
pub proof fn lemma_empty_input(l: Seq<Ty>, push: bool)
    requires
        l.len() == 0,
    ensures
        pipe_fold(l) == Option::<Ty>::None,
        insert_fold(l, push) == Result::<Option<Ty>, int>::Ok(Option::<Ty>::None),
        render_opt(pipe_fold(l)) == Seq::<char>::empty(),
{
}

/// Placeholder fan-out: substituting `v` for the placeholders of `e` leaves
/// one copy of the placeholders of `v` for each placeholder of `e`. In
/// particular, for a placeholder-free `v`, an expression with `k`
/// placeholders receives `k` copies of `v` and none remain (see
/// [`lemma_fanout_no_placeholders`]).
pub proof fn lemma_placeholder_fanout(v: Ty, e: Ty)
    ensures
        placeholder_count(subst_ty(v, e)) == placeholder_count(e) * placeholder_count(v),
    decreases e,
{
    match e {
        Ty::Placeholder => {
            assert(1 * placeholder_count(v) == placeholder_count(v));
        },
        Ty::Path { leading_colon, segments, args } => {
            lemma_placeholder_fanout_args(v, args);
        },
        Ty::Other { parts, children } => {
            lemma_placeholder_fanout_seq(v, children);
        },
    }
}

/// Placeholder fan-out under a generic-argument list.
proof fn lemma_placeholder_fanout_args(v: Ty, a: Args)
    ensures
        placeholder_count_args(subst_args(v, a)) == placeholder_count_args(a) * placeholder_count(
            v,
        ),
    decreases a,
{
    match a {
        Args::Absent => {
            assert(0 * placeholder_count(v) == 0);
        },
        Args::Angle { items } => {
            lemma_placeholder_fanout_seq(v, items);
        },
        Args::Paren { inputs, ret } => {
            lemma_placeholder_fanout_seq(v, inputs);
            lemma_placeholder_fanout_seq(v, ret);
            let ci = placeholder_count_seq(inputs);
            let cr = placeholder_count_seq(ret);
            let cv = placeholder_count(v);
            assert((ci + cr) * cv == ci * cv + cr * cv) by (nonlinear_arith);
        },
    }
}

/// Placeholder fan-out over each tree of a list.
proof fn lemma_placeholder_fanout_seq(v: Ty, s: Seq<Ty>)
    ensures
        placeholder_count_seq(subst_seq(v, s)) == placeholder_count_seq(s) * placeholder_count(v),
    decreases s,
{
    if s.len() == 0 {
        assert(0 * placeholder_count(v) == 0);
    } else {
        let rest = s.subrange(1, s.len() as int);
        lemma_placeholder_fanout(v, s[0]);
        lemma_placeholder_fanout_seq(v, rest);
        let w = seq![subst_ty(v, s[0])] + subst_seq(v, rest);
        assert(w[0] == subst_ty(v, s[0]));
        assert(w.subrange(1, w.len() as int) =~= subst_seq(v, rest));
        let c0 = placeholder_count(s[0]);
        let cr = placeholder_count_seq(rest);
        let cv = placeholder_count(v);
        assert((c0 + cr) * cv == c0 * cv + cr * cv) by (nonlinear_arith);
    }
}

/// A placeholder-free accumulated value leaves no placeholder behind: the
/// rewritten expression is fully resolved.
pub proof fn lemma_fanout_no_placeholders(v: Ty, e: Ty)
    requires
        placeholder_count(v) == 0,
    ensures
        placeholder_count(subst_ty(v, e)) == 0,
{
    lemma_placeholder_fanout(v, e);
}

/// Appending one element to the rest of a pipe fold combines the fold of
/// the shorter list with that element.
proof fn lemma_pipe_fold_from_snoc(acc: Ty, rest: Seq<Ty>, x: Ty)
    ensures
        pipe_fold_from(acc, rest.push(x)) == subst_ty(pipe_fold_from(acc, rest), x),
    decreases rest.len(),
{
    let rp = rest.push(x);
    if rest.len() == 0 {
        reveal_with_fuel(pipe_fold_from, 3);
        assert(rp[0] == x);
        assert(rp.subrange(1, rp.len() as int).len() == 0);
    } else {
        assert(rp[0] == rest[0]);
        assert(rp.subrange(1, rp.len() as int) =~= rest.subrange(1, rest.len() as int).push(x));
        lemma_pipe_fold_from_snoc(subst_ty(acc, rest[0]), rest.subrange(1, rest.len() as int), x);
    }
}

/// Left associativity: the pipe fold of a list of two or more elements is
/// the fold of all but the last element, combined with the last element.
/// The fold is pairwise from the left; order is significant.
pub proof fn lemma_pipe_left_associative(l: Seq<Ty>)
    requires
        l.len() >= 2,
    ensures
        pipe_fold(l) == Option::Some(subst_ty(pipe_fold(l.drop_last()).unwrap(), l.last())),
{
    let front = l.drop_last();
    assert(front[0] == l[0]);
    assert(l.subrange(1, l.len() as int) =~= front.subrange(1, front.len() as int).push(l.last()));
    lemma_pipe_fold_from_snoc(l[0], front.subrange(1, front.len() as int), l.last());
}

/// Appending one element to the rest of an insert fold combines the fold of
/// the shorter list with that element; an error in the shorter list stays.
proof fn lemma_insert_fold_from_snoc(acc: Ty, rest: Seq<Ty>, x: Ty, push: bool, idx: int)
    ensures
        insert_fold_from(acc, rest.push(x), push, idx) == (match insert_fold_from(
            acc,
            rest,
            push,
            idx,
        ) {
            Result::Ok(t) => (match insert_ty(t, x, push) {
                Option::Some(u) => Result::<Ty, int>::Ok(u),
                Option::None => Result::<Ty, int>::Err(idx + rest.len()),
            }),
            Result::Err(i) => Result::<Ty, int>::Err(i),
        }),
    decreases rest.len(),
{
    let rp = rest.push(x);
    if rest.len() == 0 {
        reveal_with_fuel(insert_fold_from, 3);
        assert(rp[0] == x);
        assert(rp.subrange(1, rp.len() as int).len() == 0);
    } else {
        assert(rp[0] == rest[0]);
        assert(rp.subrange(1, rp.len() as int) =~= rest.subrange(1, rest.len() as int).push(x));
        match insert_ty(acc, rest[0], push) {
            Option::Some(t) => {
                lemma_insert_fold_from_snoc(
                    t,
                    rest.subrange(1, rest.len() as int),
                    x,
                    push,
                    idx + 1,
                );
            },
            Option::None => {},
        }
    }
}

/// Left associativity of the insert modes: where no step reports an error,
/// the fold of a list of two or more elements is the fold of all but the
/// last element, combined with the last element.
pub proof fn lemma_insert_left_associative(l: Seq<Ty>, push: bool)
    requires
        l.len() >= 2,
        insert_fold(l.drop_last(), push) is Ok,
    ensures
        insert_fold(l, push) == (match insert_ty(
            insert_fold(l.drop_last(), push)->Ok_0.unwrap(),
            l.last(),
            push,
        ) {
            Option::Some(u) => Result::<Option<Ty>, int>::Ok(Option::Some(u)),
            Option::None => Result::<Option<Ty>, int>::Err(l.len() - 1),
        }),
{
    let front = l.drop_last();
    assert(front[0] == l[0]);
    assert(l.subrange(1, l.len() as int) =~= front.subrange(1, front.len() as int).push(l.last()));
    lemma_insert_fold_from_snoc(l[0], front.subrange(1, front.len() as int), l.last(), push, 1);
}

/// Pre against post: piping `v` into a path that already has exactly the
/// one generic argument `x` puts `v` before `x` in the pre mode and after
/// `x` in the post mode.
pub proof fn lemma_pre_post_symmetry(v: Ty, lc: bool, segments: Seq<Seq<char>>, x: Ty)
    requires
        segments.len() > 0,
    ensures
        insert_ty(
            v,
            Ty::Path { leading_colon: lc, segments, args: Args::Angle { items: seq![x] } },
            false,
        ) == Option::Some(
            Ty::Path { leading_colon: lc, segments, args: Args::Angle { items: seq![v, x] } },
        ),
        insert_ty(
            v,
            Ty::Path { leading_colon: lc, segments, args: Args::Angle { items: seq![x] } },
            true,
        ) == Option::Some(
            Ty::Path { leading_colon: lc, segments, args: Args::Angle { items: seq![x, v] } },
        ),
{
    assert(seq![v] + seq![x] =~= seq![v, x]);
    assert(seq![x].push(v) =~= seq![x, v]);
}

/// Pre against post at the fold level: for the two-element list `[t, p]`
/// where `p` is a path with exactly the one generic argument `x`, the pre
/// mode yields `p` with arguments `[t, x]` and the post mode yields `p`
/// with arguments `[x, t]`.
pub proof fn lemma_pre_post_symmetry_fold(t: Ty, lc: bool, segments: Seq<Seq<char>>, x: Ty)
    requires
        segments.len() > 0,
    ensures
        insert_fold(
            seq![t, Ty::Path { leading_colon: lc, segments, args: Args::Angle { items: seq![x] } }],
            false,
        ) == Result::<Option<Ty>, int>::Ok(
            Option::Some(
                Ty::Path { leading_colon: lc, segments, args: Args::Angle { items: seq![t, x] } },
            ),
        ),
        insert_fold(
            seq![t, Ty::Path { leading_colon: lc, segments, args: Args::Angle { items: seq![x] } }],
            true,
        ) == Result::<Option<Ty>, int>::Ok(
            Option::Some(
                Ty::Path { leading_colon: lc, segments, args: Args::Angle { items: seq![x, t] } },
            ),
        ),
{
    reveal_with_fuel(insert_fold_from, 3);
    lemma_pre_post_symmetry(t, lc, segments, x);
    let p = Ty::Path { leading_colon: lc, segments, args: Args::Angle { items: seq![x] } };
    let l = seq![t, p];
    assert(l[0] == t);
    assert(l.subrange(1, 2) =~= seq![p]);
    assert(seq![p][0] == p);
    assert(seq![p].subrange(1, 1).len() == 0);
}

/// Pass-through: an expression without placeholders is returned unchanged
/// by a placeholder-substitution step; the piped-in value is discarded.
pub proof fn lemma_no_placeholder_passthrough(v: Ty, e: Ty)
    requires
        placeholder_count(e) == 0,
    ensures
        subst_ty(v, e) == e,
    decreases e,
{
    match e {
        Ty::Placeholder => {},
        Ty::Path { leading_colon, segments, args } => {
            lemma_no_placeholder_passthrough_args(v, args);
        },
        Ty::Other { parts, children } => {
            lemma_no_placeholder_passthrough_seq(v, children);
        },
    }
}

/// Pass-through under a generic-argument list.
proof fn lemma_no_placeholder_passthrough_args(v: Ty, a: Args)
    requires
        placeholder_count_args(a) == 0,
    ensures
        subst_args(v, a) == a,
    decreases a,
{
    match a {
        Args::Absent => {},
        Args::Angle { items } => {
            lemma_no_placeholder_passthrough_seq(v, items);
        },
        Args::Paren { inputs, ret } => {
            lemma_no_placeholder_passthrough_seq(v, inputs);
            lemma_no_placeholder_passthrough_seq(v, ret);
        },
    }
}

/// Pass-through over each tree of a list.
proof fn lemma_no_placeholder_passthrough_seq(v: Ty, s: Seq<Ty>)
    requires
        placeholder_count_seq(s) == 0,
    ensures
        subst_seq(v, s) == s,
    decreases s,
{
    if s.len() > 0 {
        let rest = s.subrange(1, s.len() as int);
        lemma_no_placeholder_passthrough(v, s[0]);
        lemma_no_placeholder_passthrough_seq(v, rest);
        assert(subst_seq(v, s) =~= s);
    }
}

/// Substitution preserves well-formedness: piping a well-formed value into
/// a well-formed expression yields a well-formed expression.
pub proof fn lemma_subst_preserves_wf(v: Ty, e: Ty)
    requires
        wf_ty(v),
        wf_ty(e),
    ensures
        wf_ty(subst_ty(v, e)),
    decreases e,
{
    match e {
        Ty::Placeholder => {},
        Ty::Path { leading_colon, segments, args } => {
            lemma_subst_preserves_wf_args(v, args);
        },
        Ty::Other { parts, children } => {
            lemma_subst_preserves_wf_seq(v, children);
            lemma_subst_seq(v, children);
        },
    }
}

/// Substitution preserves well-formedness under a generic-argument list.
proof fn lemma_subst_preserves_wf_args(v: Ty, a: Args)
    requires
        wf_ty(v),
        wf_args(a),
    ensures
        wf_args(subst_args(v, a)),
    decreases a,
{
    match a {
        Args::Absent => {},
        Args::Angle { items } => {
            lemma_subst_preserves_wf_seq(v, items);
        },
        Args::Paren { inputs, ret } => {
            lemma_subst_preserves_wf_seq(v, inputs);
            lemma_subst_preserves_wf_seq(v, ret);
            lemma_subst_seq(v, ret);
        },
    }
}

/// Substitution preserves well-formedness of each tree in a list.
proof fn lemma_subst_preserves_wf_seq(v: Ty, s: Seq<Ty>)
    requires
        wf_ty(v),
        wf_seq(s),
    ensures
        wf_seq(subst_seq(v, s)),
    decreases s,
{
    if s.len() > 0 {
        let rest = s.subrange(1, s.len() as int);
        lemma_subst_preserves_wf(v, s[0]);
        lemma_subst_preserves_wf_seq(v, rest);
        let w = seq![subst_ty(v, s[0])] + subst_seq(v, rest);
        assert(w[0] == subst_ty(v, s[0]));
        assert(w.subrange(1, w.len() as int) =~= subst_seq(v, rest));
    }
}

/// Argument insertion preserves well-formedness: where a step succeeds, a
/// well-formed value inserted into a well-formed expression yields a
/// well-formed expression.
pub proof fn lemma_insert_preserves_wf(v: Ty, e: Ty, push: bool)
    requires
        wf_ty(v),
        wf_ty(e),
    ensures
        insert_ty(v, e, push) matches Option::Some(t) ==> wf_ty(t),
{
    match e {
        Ty::Path { leading_colon, segments, args } => {
            if segments.len() > 0 {
                match args {
                    Args::Absent => {
                        reveal_with_fuel(wf_seq, 3);
                        assert(seq![v].subrange(1, 1).len() == 0);
                        assert(wf_seq(seq![v]));
                    },
                    Args::Angle { items } => {
                        lemma_wf_seq(items);
                        let w = if push {
                            items.push(v)
                        } else {
                            seq![v] + items
                        };
                        assert forall|i: int| 0 <= i < w.len() implies wf_ty(w[i]) by {
                            if push {
                                if i < items.len() {
                                    assert(w[i] == items[i]);
                                } else {
                                    assert(w[i] == v);
                                }
                            } else {
                                if i == 0 {
                                    assert(w[i] == v);
                                } else {
                                    assert(w[i] == items[i - 1]);
                                }
                            }
                        }
                        lemma_wf_seq(w);
                    },
                    Args::Paren { .. } => {},
                }
            }
        },
        _ => {},
    }
}

/// The pipe fold preserves well-formedness: a list of well-formed trees
/// folds to a well-formed tree.
pub proof fn lemma_pipe_fold_preserves_wf(l: Seq<Ty>)
    requires
        wf_seq(l),
    ensures
        pipe_fold(l) matches Option::Some(t) ==> wf_ty(t),
{
    if l.len() > 0 {
        lemma_pipe_fold_from_wf(l[0], l.subrange(1, l.len() as int));
    }
}

/// The pipe fold from a well-formed accumulated value stays well formed.
proof fn lemma_pipe_fold_from_wf(acc: Ty, rest: Seq<Ty>)
    requires
        wf_ty(acc),
        wf_seq(rest),
    ensures
        wf_ty(pipe_fold_from(acc, rest)),
    decreases rest.len(),
{
    if rest.len() > 0 {
        lemma_subst_preserves_wf(acc, rest[0]);
        lemma_pipe_fold_from_wf(subst_ty(acc, rest[0]), rest.subrange(1, rest.len() as int));
    }
}

/// The insert fold preserves well-formedness: a list of well-formed trees
/// folds, where it succeeds, to a well-formed tree.
pub proof fn lemma_insert_fold_preserves_wf(l: Seq<Ty>, push: bool)
    requires
        wf_seq(l),
    ensures
        insert_fold(l, push) matches Result::Ok(Option::Some(t)) ==> wf_ty(t),
{
    if l.len() > 0 {
        lemma_insert_fold_from_wf(l[0], l.subrange(1, l.len() as int), push, 1);
    }
}

/// The insert fold from a well-formed accumulated value stays well formed.
proof fn lemma_insert_fold_from_wf(acc: Ty, rest: Seq<Ty>, push: bool, idx: int)
    requires
        wf_ty(acc),
        wf_seq(rest),
    ensures
        insert_fold_from(acc, rest, push, idx) matches Result::Ok(t) ==> wf_ty(t),
    decreases rest.len(),
{
    if rest.len() > 0 {
        lemma_insert_preserves_wf(acc, rest[0], push);
        match insert_ty(acc, rest[0], push) {
            Option::Some(t) => {
                lemma_insert_fold_from_wf(t, rest.subrange(1, rest.len() as int), push, idx + 1);
            },
            Option::None => {},
        }
    }
}

} // verus!
