//! The tree representation of a type expression, and its mathematical model.
//!
//! A [`TypeExpr`] is the executable tree that the folding and rendering
//! functions work on. Its ghost counterpart [`Ty`] states the same tree over
//! `Seq`, so that contracts can speak of whole trees; [`TypeExpr::deep`] maps
//! one to the other.

use vstd::prelude::*;

verus! {

/// An executable type-expression tree.
///
/// - `Placeholder` is the leaf written `_`: it marks where the value piped
///   in so far is substituted.
/// - `Path` is a named type — segments joined by `::`, with `::` in front
///   when `leading_colon` is set — with an optional generic-argument list
///   attached to its last segment.
/// - `Other` is any other expression shape, carried as the literal text
///   fragments that stand around its nested type expressions: a tuple
///   `(A, B)` has parts `(`, `, `, `)` around children `A`, `B`; a
///   one-element tuple has parts `(`, `,)` so the trailing comma that
///   distinguishes it from a parenthesized type is kept; a shape with no
///   nested types is one part of plain text. The pipe never combines into
///   such a node, but placeholder substitution still descends into its
///   children. A well-formed node has one more part than children (see
///   [`wf_ty`]); the renderer interleaves them.
#[derive(Debug)]
pub enum TypeExpr {
    Placeholder,
    Path { leading_colon: bool, segments: Vec<String>, args: PathArgs },
    Other { parts: Vec<String>, children: Vec<TypeExpr> },
}

/// The generic-argument list of a path expression.
///
/// - `Absent`: the path has no argument list (`MyType`).
/// - `Angle`: an angle-bracketed ordered list (`MyType<A, B>`).
/// - `Paren`: the parenthesized function-signature form (`Fn(A) -> B`);
///   the pipe cannot insert into this form and reports an error instead.
#[derive(Debug)]
pub enum PathArgs {
    Absent,
    Angle { items: Vec<TypeExpr> },
    Paren { inputs: Vec<TypeExpr>, ret: Option<Box<TypeExpr>> },
}

/// The mathematical model of a [`TypeExpr`]: the same tree over `Seq`.
#[verifier::ext_equal]
pub enum Ty {
    Placeholder,
    Path { leading_colon: bool, segments: Seq<Seq<char>>, args: Args },
    Other { parts: Seq<Seq<char>>, children: Seq<Ty> },
}

/// The mathematical model of a [`PathArgs`]. A `Paren` return type is a
/// sequence of length zero (no return type) or one.
#[verifier::ext_equal]
pub enum Args {
    Absent,
    Angle { items: Seq<Ty> },
    Paren { inputs: Seq<Ty>, ret: Seq<Ty> },
}

/// The models of the strings in a list, in order.
pub open spec fn text_seq(v: Seq<String>) -> Seq<Seq<char>> {
    Seq::new(v.len(), |i: int| v[i]@)
}

impl TypeExpr {
    /// The model of this tree.
    pub open spec fn deep(self) -> Ty
        decreases self,
    {
        match self {
            TypeExpr::Placeholder => Ty::Placeholder,
            TypeExpr::Path { leading_colon, segments, args } => Ty::Path {
                leading_colon,
                segments: text_seq(segments@),
                args: args.deep(),
            },
            TypeExpr::Other { parts, children } => Ty::Other {
                parts: text_seq(parts@),
                children: deep_seq(children@),
            },
        }
    }
}

impl PathArgs {
    /// The model of this argument list.
    pub open spec fn deep(self) -> Args
        decreases self,
    {
        match self {
            PathArgs::Absent => Args::Absent,
            PathArgs::Angle { items } => Args::Angle { items: deep_seq(items@) },
            PathArgs::Paren { inputs, ret } => Args::Paren {
                inputs: deep_seq(inputs@),
                ret: match ret {
                    Option::Some(r) => seq![(*r).deep()],
                    Option::None => Seq::empty(),
                },
            },
        }
    }
}

/// The models of the trees in a list, in order.
pub open spec fn deep_seq(v: Seq<TypeExpr>) -> Seq<Ty>
    decreases v,
{
    if v.len() == 0 {
        Seq::empty()
    } else {
        seq![v[0].deep()] + deep_seq(v.subrange(1, v.len() as int))
    }
}

/// The model of a list is the list of the models, element by element.
pub proof fn lemma_deep_seq(v: Seq<TypeExpr>)
    ensures
        deep_seq(v).len() == v.len(),
        forall|i: int| 0 <= i < v.len() ==> deep_seq(v)[i] == v[i].deep(),
    decreases v,
{
    if v.len() > 0 {
        lemma_deep_seq(v.subrange(1, v.len() as int));
    }
}

/// The model of an optional tree.
pub open spec fn opt_deep(o: Option<TypeExpr>) -> Option<Ty> {
    match o {
        Option::Some(t) => Option::Some(t.deep()),
        Option::None => Option::None,
    }
}

/// A well-formed tree: every path names at least one segment, and every
/// `Other` node holds exactly one more text part than children, so that the
/// renderer's interleaving reproduces the shape's text.
pub open spec fn wf_ty(e: Ty) -> bool
    decreases e,
{
    match e {
        Ty::Placeholder => true,
        Ty::Path { leading_colon, segments, args } => segments.len() > 0 && wf_args(args),
        Ty::Other { parts, children } => parts.len() == children.len() + 1 && wf_seq(children),
    }
}

/// Well-formedness under a generic-argument list.
pub open spec fn wf_args(a: Args) -> bool
    decreases a,
{
    match a {
        Args::Absent => true,
        Args::Angle { items } => wf_seq(items),
        Args::Paren { inputs, ret } => wf_seq(inputs) && ret.len() <= 1 && wf_seq(ret),
    }
}

/// Well-formedness of each tree in a list.
pub open spec fn wf_seq(s: Seq<Ty>) -> bool
    decreases s,
{
    if s.len() == 0 {
        true
    } else {
        wf_ty(s[0]) && wf_seq(s.subrange(1, s.len() as int))
    }
}

/// A list is well formed exactly when each of its trees is.
pub proof fn lemma_wf_seq(s: Seq<Ty>)
    ensures
        wf_seq(s) <==> (forall|i: int| 0 <= i < s.len() ==> wf_ty(s[i])),
    decreases s,
{
    if s.len() > 0 {
        let rest = s.subrange(1, s.len() as int);
        lemma_wf_seq(rest);
        if wf_seq(s) {
            assert forall|i: int| 0 <= i < s.len() implies wf_ty(s[i]) by {
                if i >= 1 {
                    assert(rest[i - 1] == s[i]);
                    assert(wf_ty(rest[i - 1]));
                }
            }
        }
        if forall|i: int| 0 <= i < s.len() ==> wf_ty(s[i]) {
            assert forall|j: int| 0 <= j < rest.len() implies wf_ty(rest[j]) by {
                assert(rest[j] == s[j + 1]);
                assert(wf_ty(s[j + 1]));
            }
            assert(wf_seq(rest));
        }
    }
}

/// Whether this tree is well formed, as [`wf_ty`] states it; a boundary
/// adapter can test a tree before piping it.
pub fn well_formed(e: &TypeExpr) -> (b: bool)
    ensures
        b == wf_ty(e.deep()),
    decreases e,
{
    match e {
        TypeExpr::Placeholder => true,
        TypeExpr::Path { leading_colon, segments, args } => segments.len() > 0
            && well_formed_args(args),
        TypeExpr::Other { parts, children } => {
            proof {
                lemma_deep_seq(children@);
            }
            parts.len() >= 1 && parts.len() - 1 == children.len() && well_formed_children(children)
        },
    }
}

/// Whether a generic-argument list is well formed.
fn well_formed_args(a: &PathArgs) -> (b: bool)
    ensures
        b == wf_args(a.deep()),
    decreases a,
{
    match a {
        PathArgs::Absent => true,
        PathArgs::Angle { items } => well_formed_children(items),
        PathArgs::Paren { inputs, ret } => {
            let ok = well_formed_children(inputs);
            let ok_ret = match ret {
                Option::Some(b) => {
                    let w = well_formed(&**b);
                    proof {
                        assert(seq![(**b).deep()].subrange(1, 1).len() == 0);
                    }
                    w
                },
                Option::None => true,
            };
            ok && ok_ret
        },
    }
}

/// Whether each tree in a list is well formed.
fn well_formed_children(v: &Vec<TypeExpr>) -> (b: bool)
    ensures
        b == wf_seq(deep_seq(v@)),
    decreases v,
{
    let mut i: usize = 0;
    while i < v.len()
        invariant
            i <= v@.len(),
            forall|j: int| 0 <= j < i as int ==> wf_ty(v@[j].deep()),
        decreases v@.len() - i,
    {
        if !well_formed(&v[i]) {
            proof {
                lemma_deep_seq(v@);
                lemma_wf_seq(deep_seq(v@));
                assert(!wf_ty(deep_seq(v@)[i as int]));
            }
            return false;
        }
        i = i + 1;
    }
    proof {
        lemma_deep_seq(v@);
        lemma_wf_seq(deep_seq(v@));
    }
    true
}

} // verus!

