//! The two combination strategies and the fold driver.
//!
//! A pipe threads an ordered list of type expressions left to right: the
//! result of each step is combined into the next element. The `pipe` mode
//! substitutes the accumulated expression for every placeholder of the next
//! element; the `pipe_pre` / `pipe_post` modes insert the accumulated
//! expression into the generic-argument list of the next element, at the
//! front or at the back.

use vstd::prelude::*;

use crate::ast::{deep_seq, lemma_deep_seq, opt_deep, Args, PathArgs, Ty, TypeExpr};
use crate::render::{render_opt, render_output};

verus! {

/// `e` with every placeholder replaced by `v`, bottom up: a placeholder
/// inside the substituted copies of `v` is never itself replaced.
pub open spec fn subst_ty(v: Ty, e: Ty) -> Ty
    decreases e,
{
    match e {
        Ty::Placeholder => v,
        Ty::Path { leading_colon, segments, args } => Ty::Path {
            leading_colon,
            segments,
            args: subst_args(v, args),
        },
        Ty::Other { parts, children } => Ty::Other { parts, children: subst_seq(v, children) },
    }
}

/// Placeholder substitution under a generic-argument list.
pub open spec fn subst_args(v: Ty, a: Args) -> Args
    decreases a,
{
    match a {
        Args::Absent => Args::Absent,
        Args::Angle { items } => Args::Angle { items: subst_seq(v, items) },
        Args::Paren { inputs, ret } => Args::Paren {
            inputs: subst_seq(v, inputs),
            ret: subst_seq(v, ret),
        },
    }
}

/// Placeholder substitution applied to each element of a list.
pub open spec fn subst_seq(v: Ty, s: Seq<Ty>) -> Seq<Ty>
    decreases s,
{
    if s.len() == 0 {
        Seq::empty()
    } else {
        seq![subst_ty(v, s[0])] + subst_seq(v, s.subrange(1, s.len() as int))
    }
}

/// Substitution over a list acts on each element independently.
pub proof fn lemma_subst_seq(v: Ty, s: Seq<Ty>)
    ensures
        subst_seq(v, s).len() == s.len(),
        forall|i: int| 0 <= i < s.len() ==> subst_seq(v, s)[i] == subst_ty(v, s[i]),
    decreases s,
{
    if s.len() > 0 {
        lemma_subst_seq(v, s.subrange(1, s.len() as int));
    }
}

/// A fresh copy of `e`, equal to `e` as a tree.
pub fn duplicate(e: &TypeExpr) -> (r: TypeExpr)
    ensures
        r.deep() == e.deep(),
    decreases e,
{
    match e {
        TypeExpr::Placeholder => TypeExpr::Placeholder,
        TypeExpr::Path { leading_colon, segments, args } => TypeExpr::Path {
            leading_colon: *leading_colon,
            segments: clone_texts(segments),
            args: duplicate_args(args),
        },
        TypeExpr::Other { parts, children } => TypeExpr::Other {
            parts: clone_texts(parts),
            children: duplicate_children(children),
        },
    }
}

/// A fresh copy of a generic-argument list.
fn duplicate_args(a: &PathArgs) -> (r: PathArgs)
    ensures
        r.deep() == a.deep(),
    decreases a,
{
    match a {
        PathArgs::Absent => PathArgs::Absent,
        PathArgs::Angle { items } => PathArgs::Angle { items: duplicate_children(items) },
        PathArgs::Paren { inputs, ret } => {
            let out = duplicate_children(inputs);
            let r2 = match ret {
                Option::Some(b) => Option::Some(Box::new(duplicate(&**b))),
                Option::None => Option::None,
            };
            PathArgs::Paren { inputs: out, ret: r2 }
        },
    }
}

/// A fresh copy of each tree in a list.
fn duplicate_children(v: &Vec<TypeExpr>) -> (r: Vec<TypeExpr>)
    ensures
        deep_seq(r@) == deep_seq(v@),
    decreases v,
{
    let mut out: Vec<TypeExpr> = Vec::new();
    let mut i: usize = 0;
    while i < v.len()
        invariant
            i <= v@.len(),
            out@.len() == i,
            forall|j: int| 0 <= j < i as int ==> out@[j].deep() == v@[j].deep(),
        decreases v@.len() - i,
    {
        let c = duplicate(&v[i]);
        out.push(c);
        i = i + 1;
    }
    proof {
        lemma_deep_seq(out@);
        lemma_deep_seq(v@);
        assert(deep_seq(out@) =~= deep_seq(v@));
    }
    out
}

/// A copy of a list of text fragments.
fn clone_texts(v: &Vec<String>) -> (r: Vec<String>)
    ensures
        r@ == v@,
{
    let mut out: Vec<String> = Vec::new();
    let mut i: usize = 0;
    while i < v.len()
        invariant
            i <= v@.len(),
            out@.len() == i,
            forall|j: int| 0 <= j < i as int ==> out@[j] == v@[j],
        decreases v@.len() - i,
    {
        out.push(v[i].clone());
        i = i + 1;
    }
    proof {
        assert(out@ =~= v@);
    }
    out
}

/// `next` with every placeholder replaced by an independent copy of `acc`.
///
/// The traversal is post-order: children are rewritten before their parent
/// is examined, and a substituted copy of `acc` is never rescanned, so
/// placeholders inside `acc` survive the step unchanged.
pub fn substitute(acc: &TypeExpr, next: &TypeExpr) -> (r: TypeExpr)
    ensures
        r.deep() == subst_ty(acc.deep(), next.deep()),
    decreases next,
{
    match next {
        TypeExpr::Placeholder => duplicate(acc),
        TypeExpr::Path { leading_colon, segments, args } => TypeExpr::Path {
            leading_colon: *leading_colon,
            segments: clone_texts(segments),
            args: substitute_args(acc, args),
        },
        TypeExpr::Other { parts, children } => {
            let out = substitute_children(acc, children);
            TypeExpr::Other { parts: clone_texts(parts), children: out }
        },
    }
}

/// Placeholder substitution under a generic-argument list.
fn substitute_args(acc: &TypeExpr, a: &PathArgs) -> (r: PathArgs)
    ensures
        r.deep() == subst_args(acc.deep(), a.deep()),
    decreases a,
{
    match a {
        PathArgs::Absent => PathArgs::Absent,
        PathArgs::Angle { items } => PathArgs::Angle { items: substitute_children(acc, items) },
        PathArgs::Paren { inputs, ret } => {
            let out = substitute_children(acc, inputs);
            let r2 = match ret {
                Option::Some(b) => Option::Some(Box::new(substitute(acc, &**b))),
                Option::None => Option::None,
            };
            proof {
                let rm: Seq<Ty> = match ret {
                    Option::Some(b) => seq![(**b).deep()],
                    Option::None => Seq::empty(),
                };
                lemma_subst_seq(acc.deep(), rm);
                let rm2: Seq<Ty> = match &r2 {
                    Option::Some(c) => seq![(**c).deep()],
                    Option::None => Seq::empty(),
                };
                assert(rm2 =~= subst_seq(acc.deep(), rm));
            }
            PathArgs::Paren { inputs: out, ret: r2 }
        },
    }
}

/// Placeholder substitution applied to each element of a list.
fn substitute_children(acc: &TypeExpr, v: &Vec<TypeExpr>) -> (r: Vec<TypeExpr>)
    ensures
        deep_seq(r@) == subst_seq(acc.deep(), deep_seq(v@)),
    decreases v,
{
    let mut out: Vec<TypeExpr> = Vec::new();
    let mut i: usize = 0;
    while i < v.len()
        invariant
            i <= v@.len(),
            out@.len() == i,
            forall|j: int| 0 <= j < i as int ==> out@[j].deep() == subst_ty(acc.deep(), v@[j].deep()),
        decreases v@.len() - i,
    {
        let c = substitute(acc, &v[i]);
        out.push(c);
        i = i + 1;
    }
    proof {
        lemma_deep_seq(out@);
        lemma_deep_seq(v@);
        lemma_subst_seq(acc.deep(), deep_seq(v@));
        assert(deep_seq(out@) =~= subst_seq(acc.deep(), deep_seq(v@)));
    }
    out
}

/// The error a fold can report.
///
/// `UnsupportedInsertionTarget { index }` says that the element at `index`
/// (counted from the start of the list, the initial element being index 0)
/// is a path whose generic arguments use the parenthesized
/// function-signature form, into which no argument can be inserted.
#[derive(Clone, Copy, Debug, PartialEq, Eq, Structural)]
pub enum PipeError {
    UnsupportedInsertionTarget { index: usize },
}

/// The result of one argument-insertion step: `v` inserted into the
/// generic-argument list of `e`, at the front when `push` is false and at
/// the back when `push` is true.
///
/// A non-path expression, or a path without a final segment, passes through
/// unchanged and discards `v`: that is deliberate behaviour, not an error.
/// A parenthesized argument list has no result: nothing can be inserted
/// there, and the fold reports it.
pub open spec fn insert_ty(v: Ty, e: Ty, push: bool) -> Option<Ty> {
    match e {
        Ty::Path { leading_colon, segments, args } => {
            if segments.len() == 0 {
                Option::Some(e)
            } else {
                match args {
                    Args::Absent => Option::Some(
                        Ty::Path { leading_colon, segments, args: Args::Angle { items: seq![v] } },
                    ),
                    Args::Angle { items } => Option::Some(
                        Ty::Path {
                            leading_colon,
                            segments,
                            args: Args::Angle {
                                items: if push {
                                    items.push(v)
                                } else {
                                    seq![v] + items
                                },
                            },
                        },
                    ),
                    Args::Paren { .. } => Option::None,
                }
            }
        },
        _ => Option::Some(e),
    }
}

/// One argument-insertion step on trees; `Err(())` reports the
/// parenthesized form.
pub fn insert_arg(acc: &TypeExpr, next: TypeExpr, push: bool) -> (r: Result<TypeExpr, ()>)
    ensures
        match insert_ty(acc.deep(), next.deep(), push) {
            Option::Some(t) => r matches Result::Ok(x) && x.deep() == t,
            Option::None => r is Err,
        },
{
    match next {
        TypeExpr::Path { leading_colon, segments, args } => {
            if segments.len() == 0 {
                Result::Ok(TypeExpr::Path { leading_colon, segments, args })
            } else {
                match args {
                    PathArgs::Absent => {
                        let mut items: Vec<TypeExpr> = Vec::new();
                        items.push(duplicate(acc));
                        proof {
                            lemma_deep_seq(items@);
                            assert(deep_seq(items@) =~= seq![acc.deep()]);
                        }
                        Result::Ok(
                            TypeExpr::Path { leading_colon, segments, args: PathArgs::Angle { items } },
                        )
                    },
                    PathArgs::Angle { items } => {
                        let mut items = items;
                        let ghost items0 = items@;
                        if push {
                            items.push(duplicate(acc));
                        } else {
                            items.insert(0, duplicate(acc));
                        }
                        proof {
                            lemma_deep_seq(items@);
                            lemma_deep_seq(items0);
                            if push {
                                assert(deep_seq(items@) =~= deep_seq(items0).push(acc.deep()));
                            } else {
                                assert(deep_seq(items@) =~= seq![acc.deep()] + deep_seq(items0));
                            }
                        }
                        Result::Ok(
                            TypeExpr::Path { leading_colon, segments, args: PathArgs::Angle { items } },
                        )
                    },
                    PathArgs::Paren { .. } => Result::Err(()),
                }
            }
        },
        other => Result::Ok(other),
    }
}

/// The pipe-mode left fold, started from `acc`, over the remaining elements.
pub open spec fn pipe_fold_from(acc: Ty, rest: Seq<Ty>) -> Ty
    decreases rest.len(),
{
    if rest.len() == 0 {
        acc
    } else {
        pipe_fold_from(subst_ty(acc, rest[0]), rest.subrange(1, rest.len() as int))
    }
}

/// The pipe mode over a whole list: the first element is piped into the
/// second, the result into the third, and so on. An empty list has no
/// output.
pub open spec fn pipe_fold(l: Seq<Ty>) -> Option<Ty> {
    if l.len() == 0 {
        Option::None
    } else {
        Option::Some(pipe_fold_from(l[0], l.subrange(1, l.len() as int)))
    }
}

/// The insert-mode left fold, started from `acc`, over the remaining
/// elements; `idx` is the list index of `rest[0]`. `Err` carries the list
/// index of the element that used the parenthesized form.
pub open spec fn insert_fold_from(acc: Ty, rest: Seq<Ty>, push: bool, idx: int) -> Result<Ty, int>
    decreases rest.len(),
{
    if rest.len() == 0 {
        Result::Ok(acc)
    } else {
        match insert_ty(acc, rest[0], push) {
            Option::Some(t) => insert_fold_from(
                t,
                rest.subrange(1, rest.len() as int),
                push,
                idx + 1,
            ),
            Option::None => Result::Err(idx),
        }
    }
}

/// The insert mode over a whole list. An empty list has no output; `Err`
/// carries the list index of the element that used the parenthesized form.
pub open spec fn insert_fold(l: Seq<Ty>, push: bool) -> Result<Option<Ty>, int> {
    if l.len() == 0 {
        Result::Ok(Option::None)
    } else {
        match insert_fold_from(l[0], l.subrange(1, l.len() as int), push, 1) {
            Result::Ok(t) => Result::Ok(Option::Some(t)),
            Result::Err(i) => Result::Err(i),
        }
    }
}

/// The pipe mode on trees: a left fold by placeholder substitution.
/// An empty list folds to `None`, the empty-output sentinel.
pub fn fold_pipe(input: &Vec<TypeExpr>) -> (r: Option<TypeExpr>)
    ensures
        opt_deep(r) == pipe_fold(deep_seq(input@)),
{
    proof {
        lemma_deep_seq(input@);
    }
    let ghost l = deep_seq(input@);
    if input.len() == 0 {
        return Option::None;
    }
    let mut acc = duplicate(&input[0]);
    let mut i: usize = 1;
    while i < input.len()
        invariant
            1 <= i as int <= l.len(),
            l == deep_seq(input@),
            l.len() == input@.len(),
            forall|j: int| 0 <= j < l.len() ==> l[j] == input@[j].deep(),
            pipe_fold_from(acc.deep(), l.subrange(i as int, l.len() as int)) == pipe_fold_from(
                l[0],
                l.subrange(1, l.len() as int),
            ),
        decreases input@.len() - i,
    {
        let stepped = substitute(&acc, &input[i]);
        acc = stepped;
        proof {
            let rest = l.subrange(i as int, l.len() as int);
            assert(rest[0] == l[i as int]);
            assert(rest.subrange(1, rest.len() as int) =~= l.subrange(
                i as int + 1,
                l.len() as int,
            ));
        }
        i = i + 1;
    }
    proof {
        assert(l.subrange(i as int, l.len() as int).len() == 0);
    }
    Option::Some(acc)
}

/// The insert mode on trees: a left fold by argument insertion, at the
/// front when `push` is false and at the back when `push` is true. An empty
/// list folds to `None`, the empty-output sentinel.
pub fn fold_insert(input: &Vec<TypeExpr>, push: bool) -> (r: Result<Option<TypeExpr>, PipeError>)
    ensures
        match insert_fold(deep_seq(input@), push) {
            Result::Ok(o) => r matches Result::Ok(x) && opt_deep(x) == o,
            Result::Err(i) => r == Result::<Option<TypeExpr>, PipeError>::Err(
                PipeError::UnsupportedInsertionTarget { index: i as usize },
            ),
        },
{
    proof {
        lemma_deep_seq(input@);
    }
    let ghost l = deep_seq(input@);
    if input.len() == 0 {
        return Result::Ok(Option::None);
    }
    let mut acc = duplicate(&input[0]);
    let mut i: usize = 1;
    while i < input.len()
        invariant
            1 <= i as int <= l.len(),
            l == deep_seq(input@),
            l.len() == input@.len(),
            forall|j: int| 0 <= j < l.len() ==> l[j] == input@[j].deep(),
            insert_fold_from(acc.deep(), l.subrange(i as int, l.len() as int), push, i as int)
                == insert_fold_from(l[0], l.subrange(1, l.len() as int), push, 1),
        decreases input@.len() - i,
    {
        let next = duplicate(&input[i]);
        let step = insert_arg(&acc, next, push);
        proof {
            let rest = l.subrange(i as int, l.len() as int);
            assert(rest[0] == l[i as int]);
            assert(rest.subrange(1, rest.len() as int) =~= l.subrange(
                i as int + 1,
                l.len() as int,
            ));
        }
        match step {
            Result::Ok(t) => {
                acc = t;
            },
            Result::Err(_) => {
                return Result::Err(PipeError::UnsupportedInsertionTarget { index: i });
            },
        }
        i = i + 1;
    }
    proof {
        assert(l.subrange(i as int, l.len() as int).len() == 0);
    }
    Result::Ok(Option::Some(acc))
}

/// The `pipe` entry point: fold the list by placeholder substitution and
/// render the surviving expression; an empty list renders as empty text.
pub fn pipe(input: Vec<TypeExpr>) -> (r: String)
    ensures
        r@ == render_opt(pipe_fold(deep_seq(input@))),
{
    let folded = fold_pipe(&input);
    render_output(&folded)
}

/// The shared body of `pipe_pre` and `pipe_post`: fold the list by argument
/// insertion and render the surviving expression; an empty list renders as
/// empty text.
pub fn pipe_impl(input: Vec<TypeExpr>, push: bool) -> (r: Result<String, PipeError>)
    ensures
        match insert_fold(deep_seq(input@), push) {
            Result::Ok(o) => r matches Result::Ok(s) && s@ == render_opt(o),
            Result::Err(i) => r == Result::<String, PipeError>::Err(
                PipeError::UnsupportedInsertionTarget { index: i as usize },
            ),
        },
{
    match fold_insert(&input, push) {
        Result::Ok(folded) => Result::Ok(render_output(&folded)),
        Result::Err(e) => Result::Err(e),
    }
}

/// The `pipe_pre` entry point: argument insertion at the front of the
/// argument list.
pub fn pipe_pre(input: Vec<TypeExpr>) -> (r: Result<String, PipeError>)
    ensures
        match insert_fold(deep_seq(input@), false) {
            Result::Ok(o) => r matches Result::Ok(s) && s@ == render_opt(o),
            Result::Err(i) => r == Result::<String, PipeError>::Err(
                PipeError::UnsupportedInsertionTarget { index: i as usize },
            ),
        },
{
    pipe_impl(input, false)
}

/// The `pipe_post` entry point: argument insertion at the back of the
/// argument list.
pub fn pipe_post(input: Vec<TypeExpr>) -> (r: Result<String, PipeError>)
    ensures
        match insert_fold(deep_seq(input@), true) {
            Result::Ok(o) => r matches Result::Ok(s) && s@ == render_opt(o),
            Result::Err(i) => r == Result::<String, PipeError>::Err(
                PipeError::UnsupportedInsertionTarget { index: i as usize },
            ),
        },
{
    pipe_impl(input, true)
}

} // verus!


