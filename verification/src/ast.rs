//! The AST of the meta-grammar: plain data nodes built bottom-up during
//! descent, each carrying the source range it consumed.

use vstd::prelude::*;

use crate::pos::PosRange;
use crate::token::{Token, TokenKind};

verus! {

/// A generic delimited list: its elements in source order, and the
/// delimiter and terminator kinds it was closed with.
#[derive(Debug)]
pub struct List<T> {
    pub Pos: PosRange,
    pub Elements: Vec<T>,
    pub Delimiter: TokenKind,
    pub Term: TokenKind,
}

/// A single identifier token.
#[derive(Debug)]
pub struct Ident {
    pub Pos: PosRange,
    pub Token: Token,
}

/// A `$name: rule` binding.
#[derive(Debug)]
pub struct Field {
    pub Pos: PosRange,
    pub Name: Ident,
    pub Rule: Ident,
}

/// One `lookahead => body` arm.
#[derive(Debug)]
pub struct Pattern {
    pub Pos: PosRange,
    pub Ahead: Ident,
    pub Rule: List<Node>,
}

/// A `{ pattern; pattern; ... }` block.
#[derive(Debug)]
pub struct Branch {
    pub Pos: PosRange,
    pub Patterns: List<Pattern>,
}

/// A `(field, delimiter, terminator)` repetition rule.
#[derive(Debug)]
pub struct ListRule {
    pub Pos: PosRange,
    pub Field: Field,
    pub Delimiter: Ident,
    pub Term: Ident,
}

/// A top-level `name := rule` definition.
#[derive(Debug)]
pub struct Def {
    pub Pos: PosRange,
    pub Name: Ident,
    pub Rule: List<Node>,
}

/// A whole source file: its definitions.
#[derive(Debug)]
pub struct File {
    pub Pos: PosRange,
    pub Definitions: List<Def>,
}

/// A rule element, chosen purely by its leading token kind.
#[derive(Debug)]
pub enum Node {
    NoneNode,
    Ident(Box<Ident>),
    Field(Box<Field>),
    Match(Box<Branch>),
    ListRule(Box<ListRule>),
}

/// An optional value of the meta-grammar's own vocabulary.
#[derive(Debug)]
pub enum Optional<T> {
    Absent,
    Present(T),
}

} // verus!
