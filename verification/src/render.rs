//! Serialization of a type expression back to canonical text.
//!
//! The canonical form writes path segments joined by `::` (with a leading
//! `::` where the path carries one), angle-bracketed arguments as `<A, B>`,
//! and the function-signature form as `(A, B) -> C`. An `Other` node is
//! rendered by interleaving its literal text parts with its rendered
//! children — on a well-formed node (one more part than children) the text
//! reads `parts[0] child[0] parts[1] … child[n-1] parts[n]`; on any other
//! node the surplus children are rendered bare and the surplus parts are
//! appended. No semantic transformation happens here.

use vstd::prelude::*;

use crate::ast::{deep_seq, lemma_deep_seq, opt_deep, text_seq, Args, PathArgs, Ty, TypeExpr};

verus! {

/// The canonical text of a tree.
pub open spec fn render_ty(e: Ty) -> Seq<char>
    decreases e, 0int,
{
    match e {
        Ty::Placeholder => seq!['_'],
        Ty::Path { leading_colon, segments, args } => (if leading_colon {
            seq![':', ':']
        } else {
            Seq::<char>::empty()
        }) + render_segments(segments) + render_args(args),
        Ty::Other { parts, children } => render_other(parts, children),
    }
}

/// Path segments joined by `::`.
pub open spec fn render_segments(s: Seq<Seq<char>>) -> Seq<char>
    decreases s.len(),
{
    if s.len() == 0 {
        Seq::empty()
    } else if s.len() == 1 {
        s[0]
    } else {
        s[0] + seq![':', ':'] + render_segments(s.subrange(1, s.len() as int))
    }
}

/// Trees joined by `, `.
pub open spec fn render_list(s: Seq<Ty>) -> Seq<char>
    decreases s, 0int,
{
    if s.len() == 0 {
        Seq::empty()
    } else if s.len() == 1 {
        render_ty(s[0])
    } else {
        render_ty(s[0]) + seq![',', ' '] + render_list(s.subrange(1, s.len() as int))
    }
}

/// Text parts interleaved with rendered children: each child is preceded by
/// one part while parts last, and whatever parts remain after the last
/// child are appended.
pub open spec fn render_other(parts: Seq<Seq<char>>, children: Seq<Ty>) -> Seq<char>
    decreases children, 1int,
{
    if children.len() == 0 {
        concat_texts(parts)
    } else {
        (if parts.len() == 0 {
            Seq::<char>::empty()
        } else {
            parts[0]
        }) + render_ty(children[0]) + render_other(
            drop_first_text(parts),
            children.subrange(1, children.len() as int),
        )
    }
}

/// A list of text fragments without its first fragment; an empty list
/// stays empty.
pub open spec fn drop_first_text(parts: Seq<Seq<char>>) -> Seq<Seq<char>> {
    if parts.len() == 0 {
        parts
    } else {
        parts.subrange(1, parts.len() as int)
    }
}

/// A list of text fragments run together.
pub open spec fn concat_texts(parts: Seq<Seq<char>>) -> Seq<char>
    decreases parts.len(),
{
    if parts.len() == 0 {
        Seq::empty()
    } else {
        parts[0] + concat_texts(parts.subrange(1, parts.len() as int))
    }
}

/// The canonical text of a generic-argument list.
pub open spec fn render_args(a: Args) -> Seq<char>
    decreases a, 2int,
{
    match a {
        Args::Absent => Seq::empty(),
        Args::Angle { items } => seq!['<'] + render_list(items) + seq!['>'],
        Args::Paren { inputs, ret } => seq!['('] + render_list(inputs) + seq![')'] + render_ret(
            ret,
        ),
    }
}

/// The return-type part of the function-signature form: empty when there is
/// none, ` -> T` otherwise.
pub open spec fn render_ret(s: Seq<Ty>) -> Seq<char>
    decreases s, 0int,
{
    if s.len() == 0 {
        Seq::empty()
    } else {
        seq![' ', '-', '>', ' '] + render_ty(s[0])
    }
}

/// The canonical text of a fold result: the empty-output sentinel renders
/// as empty text.
pub open spec fn render_opt(o: Option<Ty>) -> Seq<char> {
    match o {
        Option::Some(t) => render_ty(t),
        Option::None => Seq::empty(),
    }
}

/// Relies on `String::push`: it appends exactly the one given character.
#[verifier::external_body]
fn push_char(out: &mut String, c: char)
    ensures
        final(out)@ == old(out)@ + seq![c],
{
    out.push(c);
}

/// Relies on `String::push_str`: it appends exactly the given characters.
#[verifier::external_body]
fn push_str(out: &mut String, s: &str)
    ensures
        final(out)@ == old(out)@ + s@,
{
    out.push_str(s);
}

/// Append the canonical text of `e`.
fn render_into(e: &TypeExpr, out: &mut String)
    ensures
        final(out)@ == old(out)@ + render_ty(e.deep()),
    decreases e, 0int,
{
    match e {
        TypeExpr::Placeholder => {
            push_char(out, '_');
        },
        TypeExpr::Path { leading_colon, segments, args } => {
            if *leading_colon {
                push_char(out, ':');
                push_char(out, ':');
            }
            render_segments_into(segments, 0, out);
            render_args_into(args, out);
            proof {
                let s = text_seq(segments@);
                assert(s =~= s.subrange(0, s.len() as int));
            }
        },
        TypeExpr::Other { parts, children } => {
            render_other_into(parts, children, 0, out);
            proof {
                assert(text_seq(parts@) =~= texts_from(parts@, 0));
                assert(deep_seq(children@) =~= deep_seq(children@).subrange(
                    0,
                    deep_seq(children@).len() as int,
                ));
            }
        },
    }
    proof {
        assert(out@ =~= old(out)@ + render_ty(e.deep()));
    }
}

/// The models of the text fragments from index `i` on; empty once `i` runs
/// past the end.
pub open spec fn texts_from(v: Seq<String>, i: int) -> Seq<Seq<char>> {
    if 0 <= i <= v.len() {
        text_seq(v).subrange(i, v.len() as int)
    } else {
        Seq::empty()
    }
}

/// Append the text parts from index `i` on, interleaved with the rendered
/// children from index `i` on.
fn render_other_into(parts: &Vec<String>, children: &Vec<TypeExpr>, i: usize, out: &mut String)
    requires
        i as int <= children@.len(),
    ensures
        final(out)@ == old(out)@ + render_other(
            texts_from(parts@, i as int),
            deep_seq(children@).subrange(i as int, deep_seq(children@).len() as int),
        ),
    decreases children, children@.len() - i,
{
    proof {
        lemma_deep_seq(children@);
    }
    let ghost cs = deep_seq(children@);
    let ghost rest = cs.subrange(i as int, cs.len() as int);
    let ghost ps = texts_from(parts@, i as int);
    if i < children.len() {
        if i < parts.len() {
            push_str(out, parts[i].as_str());
        }
        render_into(&children[i], out);
        render_other_into(parts, children, i + 1, out);
        proof {
            assert(rest[0] == cs[i as int]);
            assert(rest.subrange(1, rest.len() as int) =~= cs.subrange(
                i as int + 1,
                cs.len() as int,
            ));
            if i < parts.len() {
                assert(ps[0] == parts@[i as int]@);
                assert(drop_first_text(ps) =~= texts_from(parts@, i as int + 1));
            } else {
                assert(ps.len() == 0);
                assert(drop_first_text(ps) =~= texts_from(parts@, i as int + 1));
            }
            assert(out@ =~= old(out)@ + render_other(ps, rest));
        }
    } else {
        concat_texts_into(parts, i, out);
        proof {
            assert(rest.len() == 0);
            assert(out@ =~= old(out)@ + render_other(ps, rest));
        }
    }
}

/// Append the text parts from index `i` on, run together.
fn concat_texts_into(parts: &Vec<String>, i: usize, out: &mut String)
    ensures
        final(out)@ == old(out)@ + concat_texts(texts_from(parts@, i as int)),
    decreases parts@.len() - i,
{
    let ghost ps = texts_from(parts@, i as int);
    if i < parts.len() {
        push_str(out, parts[i].as_str());
        concat_texts_into(parts, i + 1, out);
        proof {
            assert(ps[0] == parts@[i as int]@);
            assert(ps.subrange(1, ps.len() as int) =~= texts_from(parts@, i as int + 1));
            assert(out@ =~= old(out)@ + concat_texts(ps));
        }
    } else {
        proof {
            assert(ps.len() == 0);
            assert(out@ =~= old(out)@ + concat_texts(ps));
        }
    }
}

/// Append the canonical text of the trees from index `i` on, joined by `, `.
fn render_list_into(v: &Vec<TypeExpr>, i: usize, out: &mut String)
    requires
        i as int <= v@.len(),
    ensures
        final(out)@ == old(out)@ + render_list(
            deep_seq(v@).subrange(i as int, deep_seq(v@).len() as int),
        ),
    decreases v, v@.len() - i,
{
    proof {
        lemma_deep_seq(v@);
    }
    let ghost s = deep_seq(v@);
    let ghost rest = s.subrange(i as int, s.len() as int);
    if i < v.len() {
        render_into(&v[i], out);
        if i + 1 < v.len() {
            push_char(out, ',');
            push_char(out, ' ');
        }
        render_list_into(v, i + 1, out);
        proof {
            assert(rest[0] == s[i as int]);
            assert(rest.subrange(1, rest.len() as int) =~= s.subrange(i as int + 1, s.len() as int));
            assert(out@ =~= old(out)@ + render_list(rest));
        }
    } else {
        proof {
            assert(rest.len() == 0);
            assert(out@ =~= old(out)@ + render_list(rest));
        }
    }
}

/// Append the path segments from index `i` on, joined by `::`.
fn render_segments_into(v: &Vec<String>, i: usize, out: &mut String)
    requires
        i as int <= v@.len(),
    ensures
        final(out)@ == old(out)@ + render_segments(
            text_seq(v@).subrange(i as int, v@.len() as int),
        ),
    decreases v@.len() - i,
{
    let ghost s = text_seq(v@);
    let ghost rest = s.subrange(i as int, s.len() as int);
    if i < v.len() {
        push_str(out, v[i].as_str());
        if i + 1 < v.len() {
            push_char(out, ':');
            push_char(out, ':');
        }
        render_segments_into(v, i + 1, out);
        proof {
            assert(rest[0] == s[i as int]);
            assert(rest.subrange(1, rest.len() as int) =~= s.subrange(i as int + 1, s.len() as int));
            assert(out@ =~= old(out)@ + render_segments(rest));
        }
    } else {
        proof {
            assert(rest.len() == 0);
            assert(out@ =~= old(out)@ + render_segments(rest));
        }
    }
}

/// Append the canonical text of a generic-argument list.
fn render_args_into(a: &PathArgs, out: &mut String)
    ensures
        final(out)@ == old(out)@ + render_args(a.deep()),
    decreases a, 2int,
{
    match a {
        PathArgs::Absent => {
            proof {
                assert(out@ =~= old(out)@ + render_args(a.deep()));
            }
        },
        PathArgs::Angle { items } => {
            push_char(out, '<');
            render_list_into(items, 0, out);
            push_char(out, '>');
            proof {
                assert(deep_seq(items@) =~= deep_seq(items@).subrange(
                    0,
                    deep_seq(items@).len() as int,
                ));
                assert(out@ =~= old(out)@ + render_args(a.deep()));
            }
        },
        PathArgs::Paren { inputs, ret } => {
            push_char(out, '(');
            render_list_into(inputs, 0, out);
            push_char(out, ')');
            match ret {
                Option::Some(b) => {
                    push_char(out, ' ');
                    push_char(out, '-');
                    push_char(out, '>');
                    push_char(out, ' ');
                    render_into(&**b, out);
                },
                Option::None => {},
            }
            proof {
                assert(deep_seq(inputs@) =~= deep_seq(inputs@).subrange(
                    0,
                    deep_seq(inputs@).len() as int,
                ));
                assert(out@ =~= old(out)@ + render_args(a.deep()));
            }
        },
    }
}

/// The canonical text of one tree.
pub fn render(e: &TypeExpr) -> (r: String)
    ensures
        r@ == render_ty(e.deep()),
{
    let mut out = String::new();
    render_into(e, &mut out);
    proof {
        assert(out@ =~= render_ty(e.deep()));
    }
    out
}

/// The canonical text of a fold result: the empty-output sentinel renders
/// as empty text.
pub fn render_output(o: &Option<TypeExpr>) -> (r: String)
    ensures
        r@ == render_opt(opt_deep(*o)),
{
    match o {
        Option::Some(t) => render(t),
        Option::None => String::new(),
    }
}

} // verus!
