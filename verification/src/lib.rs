//! A small code-generation library that combines an ordered list of type
//! expressions into one composite type expression: a "pipe" over type syntax.
//!
//! The library works on its own tree representation of type expressions
//! ([`ast::TypeExpr`]). Three folding entry points combine a list left to
//! right ([`fold::pipe`], [`fold::pipe_pre`], [`fold::pipe_post`]) and render
//! the surviving expression back to text ([`render::render`]).

pub mod ast;
pub mod fold;
pub mod laws;
pub mod render;
