//! Grammar-layer tokens: the closed kind enumeration, the reserved-keyword
//! mapping, and the discriminant-only equality used for dispatch.

use vstd::prelude::*;

use crate::chars::collect_range;
use crate::pos::{PosRange, Position};
use crate::scanner::IntFormat;

verus! {

/// Grammar token kinds: the generic classes plus one variant per reserved
/// symbol. `NEWLINE` is internal to the scanner and never reaches the
/// parser.
#[derive(Copy, Clone, Debug, PartialEq, Eq, Structural)]
pub enum TokenKind {
    NoneKind,
    EOF,
    Ident,
    Operator,
    Int(IntFormat),
    Float,
    Str,
    Chr,
    DEFINE,
    ARROW,
    FIELD,
    LPAREN,
    LBRACK,
    LBRACE,
    RPAREN,
    RBRACK,
    RBRACE,
    COLON,
    SEMICOLON,
    COMMA,
    DOT,
    NEWLINE,
}

/// A grammar token: source range, kind, and literal characters.
#[derive(Debug)]
pub struct Token {
    pub Pos: PosRange,
    pub Kind: TokenKind,
    pub Literal: Vec<char>,
}

/// Two tokens agree on range, kind and literal characters.
pub open spec fn tok_eq(a: Token, b: Token) -> bool {
    a.Pos == b.Pos && a.Kind == b.Kind && a.Literal@ == b.Literal@
}

impl Token {
    /// A fresh copy of this token.
    pub fn duplicate(&self) -> (t: Token)
        ensures
            tok_eq(t, *self),
    {
        let n = self.Literal.len();
        let lit = collect_range(&self.Literal, 0, n);
        proof {
            assert(lit@ =~= self.Literal@);
        }
        Token { Pos: self.Pos, Kind: self.Kind, Literal: lit }
    }

    /// The empty token that a fresh parser starts from.
    pub fn empty() -> (t: Token)
        ensures
            t.Kind == TokenKind::NoneKind,
            t.Literal@ == Seq::<char>::empty(),
            t.Pos == (PosRange {
                Begin: Position { Offset: 0, Line: 0, Column: 0 },
                End: Position { Offset: 0, Line: 0, Column: 0 },
            }),
    {
        let lit: Vec<char> = Vec::new();
        Token {
            Pos: PosRange {
                Begin: Position { Offset: 0, Line: 0, Column: 0 },
                End: Position { Offset: 0, Line: 0, Column: 0 },
            },
            Kind: TokenKind::NoneKind,
            Literal: lit,
        }
    }
}

/// The discriminant of a token kind, ignoring any payload.
pub open spec fn kind_index_spec(k: TokenKind) -> int {
    match k {
        TokenKind::NoneKind => 0,
        TokenKind::EOF => 1,
        TokenKind::Ident => 2,
        TokenKind::Operator => 3,
        TokenKind::Int(_) => 4,
        TokenKind::Float => 5,
        TokenKind::Str => 6,
        TokenKind::Chr => 7,
        TokenKind::DEFINE => 8,
        TokenKind::ARROW => 9,
        TokenKind::FIELD => 10,
        TokenKind::LPAREN => 11,
        TokenKind::LBRACK => 12,
        TokenKind::LBRACE => 13,
        TokenKind::RPAREN => 14,
        TokenKind::RBRACK => 15,
        TokenKind::RBRACE => 16,
        TokenKind::COLON => 17,
        TokenKind::SEMICOLON => 18,
        TokenKind::COMMA => 19,
        TokenKind::DOT => 20,
        TokenKind::NEWLINE => 21,
    }
}

/// Discriminant-only equality: kinds match if they have the same tag, any
/// payload (such as an integer's base) ignored.
pub open spec fn tag_eq(a: TokenKind, b: TokenKind) -> bool {
    kind_index_spec(a) == kind_index_spec(b)
}

/// The discriminant of a token kind, ignoring any payload.
pub fn kind_index(k: &TokenKind) -> (r: u8)
    ensures
        r == kind_index_spec(*k),
{
    match k {
        TokenKind::NoneKind => 0,
        TokenKind::EOF => 1,
        TokenKind::Ident => 2,
        TokenKind::Operator => 3,
        TokenKind::Int(_) => 4,
        TokenKind::Float => 5,
        TokenKind::Str => 6,
        TokenKind::Chr => 7,
        TokenKind::DEFINE => 8,
        TokenKind::ARROW => 9,
        TokenKind::FIELD => 10,
        TokenKind::LPAREN => 11,
        TokenKind::LBRACK => 12,
        TokenKind::LBRACE => 13,
        TokenKind::RPAREN => 14,
        TokenKind::RBRACK => 15,
        TokenKind::RBRACE => 16,
        TokenKind::COLON => 17,
        TokenKind::SEMICOLON => 18,
        TokenKind::COMMA => 19,
        TokenKind::DOT => 20,
        TokenKind::NEWLINE => 21,
    }
}

/// Discriminant-only comparison of two token kinds.
pub fn tag_matches(a: &TokenKind, b: &TokenKind) -> (r: bool)
    ensures
        r == tag_eq(*a, *b),
{
    kind_index(a) == kind_index(b)
}

/// The reserved symbol a literal stands for, if any: the keyword table of
/// the grammar.
pub open spec fn keyword_kind_of(lit: Seq<char>) -> Option<TokenKind> {
    if lit == seq![':', '='] {
        Some(TokenKind::DEFINE)
    } else if lit == seq!['=', '>'] {
        Some(TokenKind::ARROW)
    } else if lit == seq!['$'] {
        Some(TokenKind::FIELD)
    } else if lit == seq!['('] {
        Some(TokenKind::LPAREN)
    } else if lit == seq!['['] {
        Some(TokenKind::LBRACK)
    } else if lit == seq!['{'] {
        Some(TokenKind::LBRACE)
    } else if lit == seq![')'] {
        Some(TokenKind::RPAREN)
    } else if lit == seq![']'] {
        Some(TokenKind::RBRACK)
    } else if lit == seq!['}'] {
        Some(TokenKind::RBRACE)
    } else if lit == seq![':'] {
        Some(TokenKind::COLON)
    } else if lit == seq![';'] {
        Some(TokenKind::SEMICOLON)
    } else if lit == seq![','] {
        Some(TokenKind::COMMA)
    } else if lit == seq!['.'] {
        Some(TokenKind::DOT)
    } else if lit == seq!['\n'] {
        Some(TokenKind::NEWLINE)
    } else {
        None
    }
}

/// Look a literal up in the keyword table.
pub fn lookup_keyword(lit: &Vec<char>) -> (r: Option<TokenKind>)
    ensures
        r == keyword_kind_of(lit@),
{
    if lit.len() == 1 {
        let c = lit[0];
        proof {
            assert(lit@ =~= seq![lit@[0]]);
        }
        match c {
            '$' => Some(TokenKind::FIELD),
            '(' => Some(TokenKind::LPAREN),
            '[' => Some(TokenKind::LBRACK),
            '{' => Some(TokenKind::LBRACE),
            ')' => Some(TokenKind::RPAREN),
            ']' => Some(TokenKind::RBRACK),
            '}' => Some(TokenKind::RBRACE),
            ':' => Some(TokenKind::COLON),
            ';' => Some(TokenKind::SEMICOLON),
            ',' => Some(TokenKind::COMMA),
            '.' => Some(TokenKind::DOT),
            '\n' => Some(TokenKind::NEWLINE),
            _ => None,
        }
    } else if lit.len() == 2 {
        let c0 = lit[0];
        let c1 = lit[1];
        proof {
            assert(lit@ =~= seq![lit@[0], lit@[1]]);
        }
        if c0 == ':' && c1 == '=' {
            Some(TokenKind::DEFINE)
        } else if c0 == '=' && c1 == '>' {
            Some(TokenKind::ARROW)
        } else {
            None
        }
    } else {
        None
    }
}

} // verus!
