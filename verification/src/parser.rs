//! The grammar-aware scanner: it wraps the raw tokenizer, maps literals to
//! reserved kinds through the keyword table, discards comments, and
//! synthesizes statement terminators from line breaks.

use vstd::prelude::*;

use crate::diagnosis::UnexpectedTokenError;
use crate::pos::{pos_at, PosRange, Position};
use crate::scan_spec::{lemma_raw_next_progress, raw_next, RawOut};
use crate::scanner::{
    BadFormatError,
    BasicScanner,
    BasicScannerError,
    BasicTokenKind,
    BufferScanner,
    EOFError,
};
use crate::token::{keyword_kind_of, lookup_keyword, tag_eq, tag_matches, tok_eq, Token, TokenKind};

verus! {

/// Failure of a parse: either the tokenizer failed, or a production met a
/// token it did not expect.
#[derive(Debug)]
pub enum ParserError {
    ScannerError(BasicScannerError),
    UnexpectedToken(UnexpectedTokenError),
}

/// The parser state: the raw tokenizer, the single-token lookahead buffer,
/// and the statement-terminator eligibility flag.
pub struct Parser {
    pub Scanner: BasicScanner,
    pub Token: Token,
    pub CompleteSemicolon: bool,
}

/// The delimiter characters the grammar is scanned with: each is always
/// its own single-character raw token.
pub open spec fn std_delims() -> Seq<char> {
    seq!['(', ')', '[', ']', '{', '}', ',', ';', '/', '\n']
}

/// The whitespace characters the grammar is scanned with. Newlines are
/// not whitespace: they reach the scanner as delimiter tokens.
pub open spec fn std_ws() -> Seq<char> {
    seq![' ', '\t', '\r']
}

/// The grammar kind a raw token maps to: identifier and operator literals
/// go through the keyword table, delimiter literals must be in it, and the
/// literal classes pass through unchanged.
pub open spec fn map_kind(bkind: BasicTokenKind, lit: Seq<char>) -> TokenKind {
    match bkind {
        BasicTokenKind::Ident => match keyword_kind_of(lit) {
            Some(k) => k,
            None => TokenKind::Ident,
        },
        BasicTokenKind::Operator => match keyword_kind_of(lit) {
            Some(k) => k,
            None => TokenKind::Operator,
        },
        BasicTokenKind::Delimiter => match keyword_kind_of(lit) {
            Some(k) => k,
            None => TokenKind::NoneKind,
        },
        BasicTokenKind::Int(f) => TokenKind::Int(f),
        BasicTokenKind::Float => TokenKind::Float,
        BasicTokenKind::Str => TokenKind::Str,
        BasicTokenKind::Chr => TokenKind::Chr,
        BasicTokenKind::Comment => TokenKind::NoneKind,
    }
}

/// Whether a token of this kind can legally end a statement, making a
/// following line break eligible for terminator synthesis.
pub open spec fn ends_statement(k: TokenKind) -> bool {
    k is Ident || k is Int || k is RBRACE || k is RPAREN
}

/// What one call of the grammar-aware scanner yields.
pub enum GramOut {
    /// A real or synthesized token: kind, literal, source span, and the
    /// eligibility flag after it.
    TokG { kind: TokenKind, lit: Seq<char>, begin: int, end: int, pending: bool },
    /// End of input observed for the first time: the lookahead kind
    /// becomes `EOF`; `fin` is the final cursor offset.
    EofG { fin: int },
    /// End of input requested again after it was already observed.
    DoubleEofG { at: int, fin: int },
    /// A malformed raw token.
    BadG { from: int, to: int, fin: int },
}

/// The next grammar token from offset `i`: raw tokens are mapped through
/// the keyword table, comments are discarded, and a newline either becomes
/// a synthesized `;` (if `pending`) or is discarded.
pub open spec fn gram_next(buf: Seq<char>, i: int, pending: bool, at_eof: bool) -> GramOut
    decreases buf.len() - i,
{
    match raw_next(buf, std_delims(), std_ws(), i) {
        RawOut::EofR { at, fin } => if at_eof {
            GramOut::DoubleEofG { at, fin }
        } else {
            GramOut::EofG { fin }
        },
        RawOut::BadR { from, to, fin } => GramOut::BadG { from, to, fin },
        RawOut::Tok { kind, lit, begin, end } => {
            if end <= i || end > buf.len() {
                GramOut::EofG { fin: end }
            } else if kind is Comment {
                gram_next(buf, end, pending, at_eof)
            } else {
                let k = map_kind(kind, lit);
                if k is NEWLINE {
                    if pending {
                        GramOut::TokG {
                            kind: TokenKind::SEMICOLON,
                            lit: seq![';'],
                            begin,
                            end,
                            pending: false,
                        }
                    } else {
                        gram_next(buf, end, pending, at_eof)
                    }
                } else {
                    GramOut::TokG { kind: k, lit, begin, end, pending: ends_statement(k) }
                }
            }
        },
    }
}

impl Parser {
    /// The cursor is sound and the scanner is configured with the
    /// grammar's delimiter and whitespace sets.
    pub open spec fn wf(self) -> bool {
        self.Scanner.wf() && self.Scanner.delims() == std_delims() && self.Scanner.ws()
            == std_ws()
    }

    pub open spec fn buf(self) -> Seq<char> {
        self.Scanner.buf()
    }

    pub open spec fn off(self) -> int {
        self.Scanner.off()
    }

    /// Whether the lookahead already reports end of input.
    pub open spec fn at_eof(self) -> bool {
        self.Token.Kind is EOF
    }

    /// What `gram_next` says the next scan from this state yields.
    pub open spec fn next_out(self) -> GramOut {
        gram_next(self.buf(), self.off(), self.CompleteSemicolon, self.at_eof())
    }

    /// Whether the next scan from this state succeeds: it yields a token
    /// or surfaces end-of-input for the first time.
    pub open spec fn scan_succeeds(self) -> bool {
        self.next_out() is TokG || self.next_out() is EofG
    }

    /// A successful scan: the lookahead token, the flag and the cursor all
    /// agree with `gram_next`.
    pub open spec fn scan_ok(pre: Parser, post: Parser) -> bool {
        post.buf() == pre.buf() && match pre.next_out() {
            GramOut::TokG { kind, lit, begin, end, pending } => post.Token.Kind == kind
                && post.Token.Literal@ == lit && post.Token.Pos == (PosRange {
                Begin: pos_at(pre.buf(), begin),
                End: pos_at(pre.buf(), end),
            }) && post.CompleteSemicolon == pending && post.off() == end,
            GramOut::EofG { fin } => post.Token.Kind == TokenKind::EOF && post.Token.Pos
                == pre.Token.Pos && post.Token.Literal@ == pre.Token.Literal@
                && post.CompleteSemicolon == pre.CompleteSemicolon && post.off() == fin,
            _ => false,
        }
    }

    /// A failed scan: the lookahead and flag are untouched and the error
    /// is the one `gram_next` describes.
    pub open spec fn scan_err(pre: Parser, e: ParserError, post: Parser) -> bool {
        post.buf() == pre.buf() && tok_eq(post.Token, pre.Token) && post.CompleteSemicolon
            == pre.CompleteSemicolon && match pre.next_out() {
            GramOut::DoubleEofG { at, fin } => e == ParserError::ScannerError(
                BasicScannerError::EOF((EOFError { Pos: pos_at(pre.buf(), at) })),
            ) && post.off() == fin,
            GramOut::BadG { from, to, fin } => e == ParserError::ScannerError(
                BasicScannerError::BadFormat(
                    (BadFormatError {
                        PosRange: PosRange {
                            Begin: pos_at(pre.buf(), from),
                            End: pos_at(pre.buf(), to),
                        },
                    }),
                ),
            ) && post.off() == fin,
            _ => false,
        }
    }

    /// The full scanning contract: success and failure both follow
    /// `gram_next` exactly.
    pub open spec fn scan_post(pre: Parser, r: Result<Token, ParserError>, post: Parser) -> bool {
        &&& r is Ok ==> Parser::scan_ok(pre, post) && tok_eq(r->Ok_0, post.Token)
        &&& r is Err ==> Parser::scan_err(pre, r->Err_0, post)
    }

    /// A parser over `buffer`, configured with the grammar's delimiters,
    /// whitespace and keyword table, with an empty lookahead.
    pub fn new(buffer: Vec<char>) -> (p: Parser)
        ensures
            p.wf(),
            p.buf() == buffer@,
            p.off() == 0,
            p.Token.Kind == TokenKind::NoneKind,
            p.Token.Literal@ == Seq::<char>::empty(),
            !p.CompleteSemicolon,
    {
        let delims = vec!['(', ')', '[', ']', '{', '}', ',', ';', '/', '\n'];
        let ws = vec![' ', '\t', '\r'];
        proof {
            assert(delims@ =~= std_delims());
            assert(ws@ =~= std_ws());
        }
        Parser {
            Scanner: BasicScanner {
                BufferScanner: BufferScanner::new(buffer),
                Delimiters: delims,
                Whitespaces: ws,
            },
            Token: Token::empty(),
            CompleteSemicolon: false,
        }
    }

    /// The cursor position: just past the lookahead token.
    pub fn GetPos(&self) -> (p: Position)
        ensures
            p == self.Scanner.BufferScanner.Pos,
    {
        self.Scanner.GetPos()
    }

    /// Map a raw token to its grammar kind through the keyword table.
    fn map_basic(bt: &crate::scanner::BasicToken) -> (k: TokenKind)
        requires
            !(bt.Kind is Comment),
            bt.Kind is Delimiter ==> keyword_kind_of(bt.Literal@) is Some,
        ensures
            k == map_kind(bt.Kind, bt.Literal@),
    {
        match bt.Kind {
            BasicTokenKind::Ident => {
                match lookup_keyword(&bt.Literal) {
                    Some(v) => v,
                    None => TokenKind::Ident,
                }
            },
            BasicTokenKind::Operator => {
                match lookup_keyword(&bt.Literal) {
                    Some(v) => v,
                    None => TokenKind::Operator,
                }
            },
            BasicTokenKind::Delimiter => {
                match lookup_keyword(&bt.Literal) {
                    Some(v) => v,
                    None => TokenKind::NoneKind,
                }
            },
            BasicTokenKind::Int(format) => TokenKind::Int(format),
            BasicTokenKind::Float => TokenKind::Float,
            BasicTokenKind::Str => TokenKind::Str,
            BasicTokenKind::Chr => TokenKind::Chr,
            BasicTokenKind::Comment => TokenKind::NoneKind,
        }
    }

    /// Advance the lookahead to the next grammar token. Comments and
    /// ineligible newlines are skipped; an eligible newline becomes a
    /// synthesized `;`; the first end of input becomes an `EOF` token and
    /// a second request past it is an error.
    #[verifier::rlimit(100)]
    pub fn Scan(&mut self) -> (r: Result<Token, ParserError>)
        requires
            old(self).wf(),
        ensures
            final(self).wf(),
            final(self).off() >= old(self).off(),
            Parser::scan_post(*old(self), r, *final(self)),
    {
        loop
            invariant
                old(self).wf(),
                self.wf(),
                self.buf() == old(self).buf(),
                old(self).off() <= self.off() <= self.buf().len(),
                tok_eq(self.Token, old(self).Token),
                self.CompleteSemicolon == old(self).CompleteSemicolon,
                old(self).next_out() == self.next_out(),
            decreases self.buf().len() - self.off(),
        {
            let ghost pre = *self;
            proof {
                lemma_raw_next_progress(self.buf(), std_delims(), std_ws(), self.off());
            }
            let bt = match self.Scanner.Scan() {
                Ok(bt) => bt,
                Err(e) => {
                    match e {
                        BasicScannerError::EOF(eof) => {
                            if tag_matches(&self.Token.Kind, &TokenKind::EOF) {
                                return Err(ParserError::ScannerError(BasicScannerError::EOF(eof)));
                            }
                            self.Token.Kind = TokenKind::EOF;
                            return Ok(self.Token.duplicate());
                        },
                        BasicScannerError::BadFormat(bad) => {
                            return Err(
                                ParserError::ScannerError(BasicScannerError::BadFormat(bad)),
                            );
                        },
                    }
                },
            };
            if matches!(bt.Kind, BasicTokenKind::Comment) {
                continue ;
            }
            proof {
                lemma_delim_literal_is_keyword(pre.buf(), pre.off());
            }
            let kind = Parser::map_basic(&bt);
            if tag_matches(&kind, &TokenKind::NEWLINE) {
                if self.CompleteSemicolon {
                    self.CompleteSemicolon = false;
                    let lit = vec![';'];
                    proof {
                        assert(lit@ =~= seq![';']);
                    }
                    self.Token = Token { Pos: bt.Pos, Kind: TokenKind::SEMICOLON, Literal: lit };
                    return Ok(self.Token.duplicate());
                }
                continue ;
            }
            let pending = tag_matches(&kind, &TokenKind::Ident) || tag_matches(
                &kind,
                &TokenKind::Int(crate::scanner::IntFormat::DEC),
            ) || tag_matches(&kind, &TokenKind::RBRACE) || tag_matches(&kind, &TokenKind::RPAREN);
            self.CompleteSemicolon = pending;
            self.Token = Token { Pos: bt.Pos, Kind: kind, Literal: bt.Literal };
            return Ok(self.Token.duplicate());
        }
    }

    /// A copy of the lookahead token, then advance past it.
    pub fn GetTokenAndScan(&mut self) -> (r: Result<Token, ParserError>)
        requires
            old(self).wf(),
        ensures
            final(self).wf(),
            final(self).off() >= old(self).off(),
            r is Ok ==> tok_eq(r->Ok_0, old(self).Token) && Parser::scan_ok(
                *old(self),
                *final(self),
            ),
            r is Err ==> Parser::scan_err(*old(self), r->Err_0, *final(self)),
    {
        let tok = self.Token.duplicate();
        match self.Scan() {
            Ok(_) => Ok(tok),
            Err(e) => Err(e),
        }
    }

    /// Compare the lookahead's kind tag against `term`, consuming nothing:
    /// a mismatch is `UnexpectedTokenError { Want: term, Have: lookahead }`.
    pub fn Match(&mut self, term: TokenKind) -> (r: Result<(), ParserError>)
        requires
            old(self).wf(),
        ensures
            *final(self) == *old(self),
            final(self).wf(),
            tag_eq(old(self).Token.Kind, term) ==> r is Ok,
            !tag_eq(old(self).Token.Kind, term) ==> (r matches Err(
                ParserError::UnexpectedToken(u),
            ) && u.Want == term && tok_eq(u.Have, old(self).Token)),
    {
        if !tag_matches(&self.Token.Kind, &term) {
            return Err(
                ParserError::UnexpectedToken(
                    UnexpectedTokenError { Want: term, Have: self.Token.duplicate() },
                ),
            );
        }
        Ok(())
    }

    /// `Match`, then advance on success.
    pub fn MatchAndScan(&mut self, term: TokenKind) -> (r: Result<Token, ParserError>)
        requires
            old(self).wf(),
        ensures
            final(self).wf(),
            final(self).off() >= old(self).off(),
            !tag_eq(old(self).Token.Kind, term) ==> (r matches Err(
                ParserError::UnexpectedToken(u),
            ) && u.Want == term && tok_eq(u.Have, old(self).Token) && *final(self) == *old(self)),
            tag_eq(old(self).Token.Kind, term) ==> Parser::scan_post(
                *old(self),
                r,
                *final(self),
            ),
    {
        match self.Match(term) {
            Ok(()) => self.Scan(),
            Err(e) => Err(e),
        }
    }
}

/// Termination measure of repeated scanning: characters left to read,
/// plus one step for surfacing end-of-input.
pub open spec fn scan_measure(p: Parser) -> int {
    2 * (p.buf().len() - p.off()) + if p.at_eof() {
        0int
    } else {
        1int
    }
}

/// Bounds of one grammar-token step: a token always ends past the
/// starting offset, and the cursor never moves backwards or past the end.
pub proof fn lemma_gram_next_bounds(buf: Seq<char>, i: int, pending: bool, at_eof: bool)
    requires
        0 <= i <= buf.len(),
    ensures
        gram_next(buf, i, pending, at_eof) matches GramOut::TokG { begin, end, .. } ==> i <= begin
            <= end && i < end <= buf.len(),
        gram_next(buf, i, pending, at_eof) matches GramOut::EofG { fin } ==> i <= fin <= buf.len()
            && !at_eof,
        gram_next(buf, i, pending, at_eof) matches GramOut::DoubleEofG { at, fin } ==> i <= fin
            <= buf.len() && 0 <= at <= buf.len(),
        gram_next(buf, i, pending, at_eof) matches GramOut::BadG { fin, .. } ==> i <= fin
            <= buf.len(),
    decreases buf.len() - i,
{
    lemma_raw_next_progress(buf, std_delims(), std_ws(), i);
    match raw_next(buf, std_delims(), std_ws(), i) {
        RawOut::Tok { kind, lit, begin, end } => {
            if i < end <= buf.len() {
                if kind is Comment {
                    lemma_gram_next_bounds(buf, end, pending, at_eof);
                } else {
                    let k = map_kind(kind, lit);
                    if k is NEWLINE && !pending {
                        lemma_gram_next_bounds(buf, end, pending, at_eof);
                    }
                }
            }
        },
        _ => {},
    }
}

/// One successful scan strictly shrinks the scan measure: it either
/// consumes at least one character, or surfaces end-of-input for the
/// first time.
pub proof fn lemma_scan_ok_measure(pre: Parser, post: Parser)
    requires
        pre.wf(),
        Parser::scan_ok(pre, post),
    ensures
        scan_measure(post) < scan_measure(pre),
        post.off() >= pre.off(),
{
    lemma_gram_next_bounds(pre.buf(), pre.off(), pre.CompleteSemicolon, pre.at_eof());
}

/// Comments and raw line breaks never reach the grammar layer: no grammar
/// kind exists for a comment, and every token the grammar-aware scanner
/// yields has a kind other than the internal newline marker — a newline
/// either becomes a synthesized `;` or is discarded.
pub proof fn lemma_no_newline_tokens(buf: Seq<char>, i: int, pending: bool, at_eof: bool)
    ensures
        gram_next(buf, i, pending, at_eof) matches GramOut::TokG { kind, .. } ==> !(kind
            is NEWLINE),
    decreases buf.len() - i,
{
    match raw_next(buf, std_delims(), std_ws(), i) {
        RawOut::Tok { kind, lit, begin, end } => {
            if i < end <= buf.len() {
                if kind is Comment {
                    lemma_no_newline_tokens(buf, end, pending, at_eof);
                } else {
                    let k = map_kind(kind, lit);
                    if k is NEWLINE && !pending {
                        lemma_no_newline_tokens(buf, end, pending, at_eof);
                    }
                }
            }
        },
        _ => {},
    }
}

/// After every token the grammar-aware scanner yields, the eligibility
/// flag records exactly whether that token's kind can legally end a
/// statement — identifiers, integers, closing braces and closing
/// parentheses — so a following line break is synthesized into `;` if and
/// only if the line ended after such a token.
pub proof fn lemma_terminator_eligibility(buf: Seq<char>, i: int, pending: bool, at_eof: bool)
    ensures
        gram_next(buf, i, pending, at_eof) matches GramOut::TokG { kind, pending: after, .. }
            ==> after == ends_statement(kind),
    decreases buf.len() - i,
{
    match raw_next(buf, std_delims(), std_ws(), i) {
        RawOut::Tok { kind, lit, begin, end } => {
            if i < end <= buf.len() {
                if kind is Comment {
                    lemma_terminator_eligibility(buf, end, pending, at_eof);
                } else {
                    let k = map_kind(kind, lit);
                    if k is NEWLINE && !pending {
                        lemma_terminator_eligibility(buf, end, pending, at_eof);
                    }
                }
            }
        },
        _ => {},
    }
}

/// A raw delimiter token's literal is always in the keyword table: the
/// delimiter set the parser is configured with is covered by it.
pub proof fn lemma_delim_literal_is_keyword(buf: Seq<char>, i: int)
    requires
        0 <= i <= buf.len(),
    ensures
        raw_next(buf, std_delims(), std_ws(), i) matches RawOut::Tok { kind, lit, .. } ==> (kind
            is Delimiter ==> keyword_kind_of(lit) is Some),
{
    match raw_next(buf, std_delims(), std_ws(), i) {
        RawOut::Tok { kind, lit, begin, end } => {
            if kind is Delimiter {
                let c = lit[0];
                assert(std_delims().contains(c) ==> c == '(' || c == ')' || c == '[' || c == ']'
                    || c == '{' || c == '}' || c == ',' || c == ';' || c == '/' || c == '\n') by {
                    if std_delims().contains(c) {
                        let k = choose|k: int|
                            0 <= k < std_delims().len() && std_delims()[k] == c;
                        assert(std_delims()[k] == c);
                    }
                }
            }
        },
        _ => {},
    }
}

} // verus!
