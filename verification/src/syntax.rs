//! The program representation that the analysis reads.
//!
//! A host front end hands over a compilation unit in this form: type
//! declarations with the annotations on their fields, and function bodies as
//! trees in which every field access already carries the type that the host
//! resolved for its owner.

use vstd::prelude::*;

verus! {

/// A source location: a range of positions in the host's source map.
#[derive(Clone, Copy, Debug, PartialEq, Eq, Structural)]
pub struct Span {
    pub lo: u32,
    pub hi: u32,
}

/// One token of an annotation's argument list.
#[derive(Debug)]
pub enum Token {
    /// An identifier, such as `reset`.
    Ident(String),
    /// A string literal, such as `"reset"`, without its quotes.
    Str(String),
    /// Anything else: punctuation, a number, a nested group.
    Other,
}

/// An annotation on a field: its name and the tokens of its argument list.
/// An annotation written without arguments has no tokens.
#[derive(Debug)]
pub struct Annotation {
    pub name: String,
    pub args: Vec<Token>,
}

/// A field of a type declaration.
#[derive(Debug)]
pub struct FieldDecl {
    pub name: String,
    pub annotations: Vec<Annotation>,
}

/// A type declaration. `name` identifies the type throughout the unit, and
/// is what field accesses give as the type of their owner.
#[derive(Debug)]
pub struct TypeDecl {
    pub name: String,
    pub fields: Vec<FieldDecl>,
}

/// An expression or statement of a function body.
///
/// Only the forms that matter to the analysis are told apart; every other
/// form is `Other`, with its sub-expressions in source order.
#[derive(Debug)]
pub enum Expr {
    /// `target = value`
    Assign { target: Box<Expr>, value: Box<Expr>, span: Span },
    /// `target op= value`, for any operator
    AssignOp { target: Box<Expr>, value: Box<Expr>, span: Span },
    /// `owner.field`. `owner_type` is the declared type of `owner`, or `None`
    /// where the host could not determine it.
    Field { owner: Box<Expr>, owner_type: Option<String>, field: String },
    /// `&mut place`, written out or taken by the compiler for the receiver
    /// of a method call.
    MutBorrow { place: Box<Expr>, span: Span },
    /// `callee(args)`. A method call is a call whose first argument is the
    /// receiver.
    Call { callee: Box<Expr>, args: Vec<Expr> },
    /// A closure or an inner function: a function of its own, under the name
    /// the host gives it.
    Nested { name: String, body: Box<Expr> },
    /// Any other form.
    Other { children: Vec<Expr> },
}

/// A function or method: its simple name and its body.
#[derive(Debug)]
pub struct Function {
    pub name: String,
    pub body: Expr,
}

/// A top-level item.
#[derive(Debug)]
pub enum Item {
    /// A type declaration.
    Type(TypeDecl),
    /// A free function.
    Function(Function),
    /// A block of methods.
    Impl { methods: Vec<Function> },
    /// Anything else.
    Other,
}

/// A compilation unit: its items, in the order in which the host lists them.
#[derive(Debug)]
pub struct CompilationUnit {
    pub items: Vec<Item>,
}

} // verus!
