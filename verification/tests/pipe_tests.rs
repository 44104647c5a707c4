use type_pipe::ast::{well_formed, PathArgs, TypeExpr};
use type_pipe::fold::{pipe, pipe_post, pipe_pre, PipeError};

fn ph() -> TypeExpr {
    TypeExpr::Placeholder
}

fn plain(name: &str) -> TypeExpr {
    TypeExpr::Path {
        leading_colon: false,
        segments: vec![String::from(name)],
        args: PathArgs::Absent,
    }
}

fn angle(name: &str, items: Vec<TypeExpr>) -> TypeExpr {
    TypeExpr::Path {
        leading_colon: false,
        segments: vec![String::from(name)],
        args: PathArgs::Angle { items },
    }
}

fn paren(name: &str, inputs: Vec<TypeExpr>, ret: Option<TypeExpr>) -> TypeExpr {
    TypeExpr::Path {
        leading_colon: false,
        segments: vec![String::from(name)],
        args: PathArgs::Paren { inputs, ret: ret.map(Box::new) },
    }
}

fn tuple(children: Vec<TypeExpr>) -> TypeExpr {
    let mut parts = vec![String::from("(")];
    match children.len() {
        0 => parts = vec![String::from("()")],
        1 => parts.push(String::from(",)")),
        n => {
            for _ in 1..n {
                parts.push(String::from(", "));
            }
            parts.push(String::from(")"));
        }
    }
    TypeExpr::Other { parts, children }
}

fn reference(child: TypeExpr) -> TypeExpr {
    TypeExpr::Other { parts: vec![String::from("&"), String::new()], children: vec![child] }
}

fn slice(child: TypeExpr) -> TypeExpr {
    TypeExpr::Other { parts: vec![String::from("["), String::from("]")], children: vec![child] }
}

fn opaque(text: &str) -> TypeExpr {
    TypeExpr::Other { parts: vec![String::from(text)], children: vec![] }
}

#[test]
fn simple_pipe() {
    let out = pipe(vec![plain("T"), angle("MyType", vec![ph()])]);
    assert_eq!(out, "MyType<T>");

    let out = pipe(vec![
        plain("T"),
        angle("Wrapper", vec![ph()]),
        angle("MyType", vec![ph(), ph()]),
    ]);
    assert_eq!(out, "MyType<Wrapper<T>, Wrapper<T>>");
}

#[test]
fn simple_pipe_pre() {
    let out = pipe_pre(vec![plain("T"), plain("MyType")]);
    assert_eq!(out, Ok(String::from("MyType<T>")));

    let out = pipe_pre(vec![plain("T"), angle("MyType", vec![plain("String")])]);
    assert_eq!(out, Ok(String::from("MyType<T, String>")));
}

#[test]
fn simple_pipe_post() {
    let out = pipe_post(vec![plain("T"), plain("MyType")]);
    assert_eq!(out, Ok(String::from("MyType<T>")));

    let out = pipe_post(vec![plain("T"), angle("MyType", vec![plain("String")])]);
    assert_eq!(out, Ok(String::from("MyType<String, T>")));

    let out = pipe_post(vec![
        plain("T"),
        angle("MyType", vec![angle("Wrapped", vec![plain("String")])]),
    ]);
    assert_eq!(out, Ok(String::from("MyType<Wrapped<String>, T>")));
}

#[test]
fn large_pipe() {
    let out = pipe(vec![
        plain("T"),
        angle("MyType", vec![ph()]),
        angle("Layer", vec![ph(), plain("String"), ph()]),
        angle("AnotherType", vec![ph(), ph(), ph()]),
    ]);
    let layer = "Layer<MyType<T>, String, MyType<T>>";
    assert_eq!(out, format!("AnotherType<{layer}, {layer}, {layer}>"));
}

#[test]
fn empty_input_gives_empty_output() {
    assert_eq!(pipe(vec![]), "");
    assert_eq!(pipe_pre(vec![]), Ok(String::new()));
    assert_eq!(pipe_post(vec![]), Ok(String::new()));
}

#[test]
fn singleton_is_identity() {
    let one = || vec![angle("MyType", vec![plain("A"), ph()])];
    assert_eq!(pipe(one()), "MyType<A, _>");
    assert_eq!(pipe_pre(one()), Ok(String::from("MyType<A, _>")));
    assert_eq!(pipe_post(one()), Ok(String::from("MyType<A, _>")));
}

#[test]
fn placeholder_fanout_reaches_every_depth() {
    let next = tuple(vec![ph(), slice(ph())]);
    let out = pipe(vec![plain("T"), next]);
    assert_eq!(out, "(T, [T])");
}

#[test]
fn placeholder_fanout_inside_signature_form() {
    let next = paren("Fn", vec![ph()], Some(ph()));
    let out = pipe(vec![plain("T"), next]);
    assert_eq!(out, "Fn(T) -> T");
}

#[test]
fn one_element_tuple_keeps_its_trailing_comma() {
    assert_eq!(pipe(vec![tuple(vec![plain("A")])]), "(A,)");
    assert_eq!(pipe(vec![plain("T"), tuple(vec![ph()])]), "(T,)");
    assert_eq!(pipe(vec![tuple(vec![])]), "()");
}

#[test]
fn substitution_descends_into_array_bounds_shape() {
    let array = TypeExpr::Other {
        parts: vec![String::from("["), String::from("; 4]")],
        children: vec![ph()],
    };
    assert_eq!(pipe(vec![plain("u8"), array]), "[u8; 4]");
}

#[test]
fn opaque_shapes_are_carried_through_unchanged() {
    assert_eq!(pipe(vec![plain("T"), opaque("dyn Clone")]), "dyn Clone");
    assert_eq!(
        pipe_pre(vec![plain("T"), opaque("dyn Clone")]),
        Ok(String::from("dyn Clone"))
    );
}

#[test]
fn leading_colon_is_kept() {
    let rooted = TypeExpr::Path {
        leading_colon: true,
        segments: vec![String::from("outer"), String::from("Inner")],
        args: PathArgs::Absent,
    };
    assert_eq!(pipe_pre(vec![plain("T"), rooted]), Ok(String::from("::outer::Inner<T>")));
}

#[test]
fn substituted_copies_are_not_rescanned() {
    let out = pipe(vec![angle("Wrapper", vec![ph()]), angle("Holder", vec![ph()])]);
    assert_eq!(out, "Holder<Wrapper<_>>");
}

#[test]
fn pipe_without_placeholder_discards_value() {
    let out = pipe(vec![plain("T"), plain("Unrelated")]);
    assert_eq!(out, "Unrelated");
}

#[test]
fn pipe_order_is_significant() {
    let forward = pipe(vec![plain("T"), angle("Wrapper", vec![ph()])]);
    let backward = pipe(vec![angle("Wrapper", vec![ph()]), plain("T")]);
    assert_eq!(forward, "Wrapper<T>");
    assert_eq!(backward, "T");
    assert_ne!(forward, backward);
}

#[test]
fn pipe_is_left_associative() {
    let stepwise = {
        let first = pipe(vec![plain("T"), angle("A", vec![ph()])]);
        assert_eq!(first, "A<T>");
        pipe(vec![angle("A", vec![plain("T")]), angle("B", vec![ph(), ph()])])
    };
    let whole = pipe(vec![plain("T"), angle("A", vec![ph()]), angle("B", vec![ph(), ph()])]);
    assert_eq!(whole, stepwise);
    assert_eq!(whole, "B<A<T>, A<T>>");
}

#[test]
fn insert_into_signature_form_is_reported() {
    let out = pipe_pre(vec![plain("T"), paren("Fn", vec![plain("A")], None)]);
    assert_eq!(out, Err(PipeError::UnsupportedInsertionTarget { index: 1 }));

    let out = pipe_post(vec![
        plain("T"),
        plain("A"),
        paren("Fn", vec![plain("X")], Some(plain("Y"))),
    ]);
    assert_eq!(out, Err(PipeError::UnsupportedInsertionTarget { index: 2 }));
}

#[test]
fn insert_into_non_path_passes_through() {
    let out = pipe_pre(vec![plain("T"), tuple(vec![plain("A"), plain("B")])]);
    assert_eq!(out, Ok(String::from("(A, B)")));

    let out = pipe_post(vec![plain("T"), tuple(vec![plain("A"), plain("B")])]);
    assert_eq!(out, Ok(String::from("(A, B)")));
}

#[test]
fn insert_uses_last_path_segment() {
    let nested = TypeExpr::Path {
        leading_colon: false,
        segments: vec![String::from("outer"), String::from("Inner")],
        args: PathArgs::Absent,
    };
    let out = pipe_pre(vec![plain("T"), nested]);
    assert_eq!(out, Ok(String::from("outer::Inner<T>")));
}

#[test]
fn pre_and_post_keep_existing_argument_order() {
    let list = || vec![
        plain("T"),
        angle("MyType", vec![plain("X"), plain("Y")]),
    ];
    assert_eq!(pipe_pre(list()), Ok(String::from("MyType<T, X, Y>")));
    assert_eq!(pipe_post(list()), Ok(String::from("MyType<X, Y, T>")));
}

#[test]
fn well_formed_checks_parts_arity() {
    assert!(well_formed(&tuple(vec![plain("A")])));
    assert!(well_formed(&reference(plain("A"))));
    assert!(!well_formed(&TypeExpr::Other {
        parts: vec![String::from("&")],
        children: vec![plain("A")],
    }));
    assert!(!well_formed(&TypeExpr::Path {
        leading_colon: false,
        segments: vec![],
        args: PathArgs::Absent,
    }));
}

#[test]
fn render_covers_every_shape() {
    assert_eq!(pipe(vec![reference(plain("A"))]), "&A");
    assert_eq!(pipe(vec![slice(plain("A"))]), "[A]");
    let sig = paren("FnMut", vec![plain("A"), plain("B")], None);
    assert_eq!(pipe(vec![sig]), "FnMut(A, B)");
    assert_eq!(pipe(vec![ph()]), "_");
}
