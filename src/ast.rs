//! The parts of a program that the pass reads: a tree of expressions and the
//! top-level items that hold them.

use vstd::prelude::*;

verus! {

/// The key of an object-literal property.
#[derive(Debug, PartialEq, Eq)]
pub enum PropKey {
    /// A plain identifier key (`color: ...`).
    Ident(String),
    /// Any other key (string, number, computed), with the expressions it holds.
    Other(Vec<Expr>),
}

/// A property of an object literal.
#[derive(Debug, PartialEq, Eq)]
pub enum Prop {
    /// `key: value`.
    KeyValue(PropKey, Expr),
    /// Any other property (shorthand, spread, method, accessor), with the
    /// expressions it holds, in source order.
    Other(Vec<Expr>),
}

/// An expression.
#[derive(Debug, PartialEq, Eq)]
pub enum Expr {
    /// A bare identifier.
    Ident(String),
    /// A string literal.
    Str(String),
    /// A boolean literal.
    Bool(bool),
    /// An object literal.
    Object(Vec<Prop>),
    /// An array literal. A hole stands as `Other` with nothing in it.
    Array(Vec<Expr>),
    /// A call: the callee and the arguments.
    Call(Box<Expr>, Vec<Expr>),
    /// A spread argument or array element (`...x`).
    Spread(Box<Expr>),
    /// Any other expression (member access, function, operator, template,
    /// a callee such as `super`), with the expressions it holds, in source order.
    Other(Vec<Expr>),
}

/// A top-level item of a program.
#[derive(Debug, PartialEq, Eq)]
pub enum Item {
    /// An import declaration.
    Import,
    /// Any other item, with the expressions it holds, in source order.
    Stmt(Vec<Expr>),
}

/// A parsed program.
#[derive(Debug, PartialEq, Eq)]
pub enum Program {
    /// A module: its top-level items.
    Module(Vec<Item>),
    /// A script: its top-level items.
    Script(Vec<Item>),
}

} // verus!
