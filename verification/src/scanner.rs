//! The two lower layers of the lexer: the character cursor over the input
//! buffer, and the raw tokenizer that classifies character runs into raw
//! tokens (identifiers, operators, integers of four bases, strings, single
//! delimiter characters and comments).

use vstd::prelude::*;

use crate::chars::{
    bin_char,
    is_escape_hex_char,
    collect_range,
    contains_char,
    digit,
    escape_hex_char,
    escape_hex_val,
    hex_run_char,
    ident_char,
    letter,
    oct_char,
    punct,
};
use crate::pos::{lemma_line_col_bounds, pos_at, PosRange, Position};
use crate::scan_spec::{
    all_escape_hex,
    bin_pred,
    block_comment_out,
    block_end,
    comment_out,
    dec_pred,
    digit_out,
    esc_hex,
    esc_scan,
    hex_pred,
    hex_seq_val,
    ident_out,
    ident_pred,
    int_run,
    is_valid_scalar,
    lemma_add_assoc,
    lemma_block_end_bounds,
    lemma_empty_add,
    lemma_nl_search_bounds,
    lemma_run_end_bounds,
    line_comment_out,
    nl_search,
    oct_pred,
    op_out,
    op_pred,
    raw_next,
    run_end,
    run_out,
    str_scan,
    string_out,
    ws_end,
    EscOut,
    RawOut,
    StrOut,
};

verus! {

/// Relies on char::from_u32 of std: it returns `Some` exactly on Unicode
/// scalar values (code points up to 0x10FFFF that are not surrogates), and
/// the returned character has the given value.
pub assume_specification[ char::from_u32 ](i: u32) -> (r: Option<char>)
    ensures
        is_valid_scalar(i as nat) <==> r is Some,
        r is Some ==> r->0 as u32 == i,
;

/// Raw token kinds produced by the tokenizer layer.
#[derive(Copy, Clone, Debug, PartialEq, Eq, Structural)]
pub enum BasicTokenKind {
    Ident,
    Operator,
    Int(IntFormat),
    Float,
    Str,
    Chr,
    Delimiter,
    Comment,
}

/// The numeric base of an integer literal.
#[derive(Copy, Clone, Debug, PartialEq, Eq, Structural)]
pub enum IntFormat {
    BIN,
    OCT,
    DEC,
    HEX,
}

/// A raw token: its source range, kind, and literal characters. For string
/// tokens the literal holds the decoded characters, escapes resolved; for
/// every other kind it is the consumed source slice.
#[derive(Debug)]
pub struct BasicToken {
    pub Pos: PosRange,
    pub Kind: BasicTokenKind,
    pub Literal: Vec<char>,
}

/// The cursor ran past the last character of the buffer.
#[derive(Copy, Clone, Debug, PartialEq, Eq, Structural)]
pub struct EOFError {
    pub Pos: Position,
}

/// A malformed token: bad numeric prefix, bad escape, bad comment opener.
#[derive(Copy, Clone, Debug, PartialEq, Eq, Structural)]
pub struct BadFormatError {
    pub PosRange: PosRange,
}

/// Failure of the raw tokenizer.
#[derive(Copy, Clone, Debug, PartialEq, Eq, Structural)]
pub enum BasicScannerError {
    EOF(EOFError),
    BadFormat(BadFormatError),
}

/// The character cursor: an input buffer and the current position in it.
pub struct BufferScanner {
    pub Pos: Position,
    pub Buffer: Vec<char>,
}

impl BufferScanner {
    /// The cursor is inside the buffer and its line/column agree with the
    /// characters before the offset.
    pub open spec fn wf(self) -> bool {
        self.Pos.Offset <= self.Buffer@.len() && self.Pos == pos_at(
            self.Buffer@,
            self.Pos.Offset as int,
        )
    }

    pub open spec fn buf(self) -> Seq<char> {
        self.Buffer@
    }

    pub open spec fn off(self) -> int {
        self.Pos.Offset as int
    }

    /// A cursor at the start of `buffer`.
    pub fn new(buffer: Vec<char>) -> (s: BufferScanner)
        ensures
            s.wf(),
            s.buf() == buffer@,
            s.off() == 0,
    {
        BufferScanner { Pos: Position { Offset: 0, Line: 0, Column: 0 }, Buffer: buffer }
    }

    /// The current character, without advancing; fails at end of input.
    pub fn GetChar(&self) -> (r: Result<char, EOFError>)
        requires
            self.wf(),
        ensures
            self.buf().len() <= usize::MAX,
            self.off() < self.buf().len() ==> r == Ok::<char, EOFError>(self.buf()[self.off()]),
            self.off() == self.buf().len() ==> r == Err::<char, EOFError>(
                (EOFError { Pos: self.Pos }),
            ),
    {
        if self.Pos.Offset == self.Buffer.len() {
            return Err(EOFError { Pos: self.Pos });
        }
        Ok(self.Buffer[self.Pos.Offset])
    }

    /// Consume one character, keeping line and column in step: a newline
    /// increments the line and resets the column.
    pub fn Move(&mut self) -> (r: Result<char, EOFError>)
        requires
            old(self).wf(),
        ensures
            final(self).wf(),
            final(self).buf() == old(self).buf(),
            old(self).off() < old(self).buf().len() ==> r == Ok::<char, EOFError>(
                old(self).buf()[old(self).off()],
            ) && final(self).off() == old(self).off() + 1,
            old(self).off() == old(self).buf().len() ==> r == Err::<char, EOFError>(
                (EOFError { Pos: old(self).Pos }),
            ) && *final(self) == *old(self),
    {
        let ch = match self.GetChar() {
            Ok(c) => c,
            Err(e) => {
                return Err(e);
            },
        };
        proof {
            lemma_line_col_bounds(self.Buffer@, self.Pos.Offset as int);
        }
        if ch == '\n' {
            self.Pos.Line = self.Pos.Line + 1;
            self.Pos.Column = 0;
        } else {
            self.Pos.Column = self.Pos.Column + 1;
        }
        self.Pos.Offset = self.Pos.Offset + 1;
        Ok(ch)
    }

    /// Advance until a newline has been consumed; fails with `EOFError` if
    /// the input ends first.
    pub fn GotoNextLine(&mut self) -> (r: Result<(), EOFError>)
        requires
            old(self).wf(),
        ensures
            final(self).wf(),
            final(self).buf() == old(self).buf(),
            ({
                let e = nl_search(old(self).buf(), old(self).off());
                if e < old(self).buf().len() {
                    r is Ok && final(self).off() == e + 1
                } else {
                    r is Err && final(self).off() == old(self).buf().len() && r->Err_0.Pos
                        == pos_at(old(self).buf(), old(self).buf().len() as int)
                }
            }),
    {
        loop
            invariant
                self.wf(),
                self.buf() == old(self).buf(),
                old(self).off() <= self.off(),
                nl_search(old(self).buf(), old(self).off()) == nl_search(self.buf(), self.off()),
            decreases self.buf().len() - self.off(),
        {
            match self.Move() {
                Ok(ch) => {
                    if ch == '\n' {
                        return Ok(());
                    }
                },
                Err(err) => {
                    return Err(err);
                },
            }
        }
    }
}

/// The raw tokenizer: a cursor plus the configured delimiter and
/// whitespace character sets.
pub struct BasicScanner {
    pub BufferScanner: BufferScanner,
    pub Delimiters: Vec<char>,
    pub Whitespaces: Vec<char>,
}

/// The characters a token carries and the span it was taken from.
pub open spec fn tok_is(
    t: BasicToken,
    kind: BasicTokenKind,
    lit: Seq<char>,
    buf: Seq<char>,
    b: int,
    e: int,
) -> bool {
    t.Kind == kind && t.Literal@ == lit && t.Pos == (PosRange {
        Begin: pos_at(buf, b),
        End: pos_at(buf, e),
    })
}

/// How a scanning result and final cursor offset relate to a `RawOut`
/// description.
pub open spec fn raw_out_post(
    buf: Seq<char>,
    r: Result<BasicToken, BasicScannerError>,
    post_off: int,
    out: RawOut,
) -> bool {
    match out {
        RawOut::Tok { kind, lit, begin, end } => r is Ok && tok_is(
            r->Ok_0,
            kind,
            lit,
            buf,
            begin,
            end,
        ) && post_off == end,
        RawOut::EofR { at, fin } => r == Err::<BasicToken, BasicScannerError>(
            BasicScannerError::EOF((EOFError { Pos: pos_at(buf, at) })),
        ) && post_off == fin,
        RawOut::BadR { from, to, fin } => r == Err::<BasicToken, BasicScannerError>(
            BasicScannerError::BadFormat(
                (BadFormatError {
                    PosRange: PosRange { Begin: pos_at(buf, from), End: pos_at(buf, to) },
                }),
            ),
        ) && post_off == fin,
    }
}

/// The character classes whose tokens are maximal runs.
#[derive(Copy, Clone, Debug, PartialEq, Eq, Structural)]
pub enum RunClass {
    IdentRun,
    DecRun,
    HexRun,
    OctRun,
    BinRun,
    OpRun,
}

impl BasicScanner {
    pub open spec fn wf(self) -> bool {
        self.BufferScanner.wf()
    }

    pub open spec fn buf(self) -> Seq<char> {
        self.BufferScanner.buf()
    }

    pub open spec fn off(self) -> int {
        self.BufferScanner.off()
    }

    pub open spec fn delims(self) -> Seq<char> {
        self.Delimiters@
    }

    pub open spec fn ws(self) -> Seq<char> {
        self.Whitespaces@
    }

    /// The buffer and the configured character sets are untouched.
    pub open spec fn frame(pre: BasicScanner, post: BasicScanner) -> bool {
        post.buf() == pre.buf() && post.delims() == pre.delims() && post.ws() == pre.ws()
    }

    /// The run class each `RunClass` stands for.
    pub open spec fn class_pred(self, cls: RunClass) -> spec_fn(char) -> bool {
        match cls {
            RunClass::IdentRun => ident_pred(),
            RunClass::DecRun => dec_pred(),
            RunClass::HexRun => hex_pred(),
            RunClass::OctRun => oct_pred(),
            RunClass::BinRun => bin_pred(),
            RunClass::OpRun => op_pred(self.delims()),
        }
    }

    fn in_class(&self, cls: RunClass, c: char) -> (r: bool)
        ensures
            r == self.class_pred(cls)(c),
    {
        let r = match cls {
            RunClass::IdentRun => ident_char(c),
            RunClass::DecRun => digit(c),
            RunClass::HexRun => hex_run_char(c),
            RunClass::OctRun => oct_char(c),
            RunClass::BinRun => bin_char(c),
            RunClass::OpRun => punct(c) && !contains_char(&self.Delimiters, c) && c != '"' && c
                != '\'',
        };
        proof {
            assert(self.class_pred(cls)(c) == r);
        }
        r
    }

    pub fn GetChar(&self) -> (r: Result<char, BasicScannerError>)
        requires
            self.wf(),
        ensures
            self.buf().len() <= usize::MAX,
            self.off() < self.buf().len() ==> r == Ok::<char, BasicScannerError>(
                self.buf()[self.off()],
            ),
            self.off() == self.buf().len() ==> r == Err::<char, BasicScannerError>(
                BasicScannerError::EOF((EOFError { Pos: self.BufferScanner.Pos })),
            ),
    {
        match self.BufferScanner.GetChar() {
            Ok(c) => Ok(c),
            Err(e) => Err(BasicScannerError::EOF(e)),
        }
    }

    pub fn Move(&mut self) -> (r: Result<char, BasicScannerError>)
        requires
            old(self).wf(),
        ensures
            final(self).wf(),
            BasicScanner::frame(*old(self), *final(self)),
            old(self).off() < old(self).buf().len() ==> r == Ok::<char, BasicScannerError>(
                old(self).buf()[old(self).off()],
            ) && final(self).off() == old(self).off() + 1,
            old(self).off() == old(self).buf().len() ==> r == Err::<char, BasicScannerError>(
                BasicScannerError::EOF((EOFError { Pos: old(self).BufferScanner.Pos })),
            ) && *final(self) == *old(self),
    {
        match self.BufferScanner.Move() {
            Ok(c) => Ok(c),
            Err(e) => Err(BasicScannerError::EOF(e)),
        }
    }

    pub fn GotoNextLine(&mut self) -> (r: Result<(), BasicScannerError>)
        requires
            old(self).wf(),
        ensures
            final(self).wf(),
            BasicScanner::frame(*old(self), *final(self)),
            ({
                let e = nl_search(old(self).buf(), old(self).off());
                if e < old(self).buf().len() {
                    r is Ok && final(self).off() == e + 1
                } else {
                    r == Err::<(), BasicScannerError>(
                        BasicScannerError::EOF(
                            (EOFError {
                                Pos: pos_at(old(self).buf(), old(self).buf().len() as int),
                            }),
                        ),
                    ) && final(self).off() == old(self).buf().len()
                }
            }),
    {
        match self.BufferScanner.GotoNextLine() {
            Ok(()) => Ok(()),
            Err(e) => Err(BasicScannerError::EOF(e)),
        }
    }

    pub fn GetPos(&self) -> (p: Position)
        ensures
            p == self.BufferScanner.Pos,
    {
        self.BufferScanner.Pos
    }

    /// Advance past the whitespace run at the cursor; fails if it reaches
    /// the end of the input.
    pub fn SkipWhitespaces(&mut self) -> (r: Result<(), BasicScannerError>)
        requires
            old(self).wf(),
        ensures
            final(self).wf(),
            BasicScanner::frame(*old(self), *final(self)),
            ({
                let j = ws_end(old(self).buf(), old(self).ws(), old(self).off());
                if j < old(self).buf().len() {
                    r is Ok && final(self).off() == j
                } else {
                    r == Err::<(), BasicScannerError>(
                        BasicScannerError::EOF(
                            (EOFError {
                                Pos: pos_at(old(self).buf(), old(self).buf().len() as int),
                            }),
                        ),
                    ) && final(self).off() == old(self).buf().len()
                }
            }),
    {
        loop
            invariant
                self.wf(),
                BasicScanner::frame(*old(self), *self),
                old(self).off() <= self.off() <= self.buf().len(),
                ws_end(old(self).buf(), old(self).ws(), old(self).off()) == ws_end(
                    self.buf(),
                    self.ws(),
                    self.off(),
                ),
            decreases self.buf().len() - self.off(),
        {
            let c = match self.GetChar() {
                Ok(c) => c,
                Err(e) => {
                    return Err(e);
                },
            };
            if !contains_char(&self.Whitespaces, c) {
                return Ok(());
            }
            let _ = self.Move();
        }
    }

    /// Scan a maximal run of `cls`-characters into a token tagged `kind`.
    fn scan_run(&mut self, cls: RunClass, kind: BasicTokenKind) -> (r: Result<
        BasicToken,
        BasicScannerError,
    >)
        requires
            old(self).wf(),
        ensures
            final(self).wf(),
            BasicScanner::frame(*old(self), *final(self)),
            raw_out_post(
                old(self).buf(),
                r,
                final(self).off(),
                run_out(old(self).buf(), old(self).off(), old(self).class_pred(cls), kind),
            ),
    {
        let begin = self.GetPos();
        let ghost f = self.class_pred(cls);
        loop
            invariant
                self.wf(),
                BasicScanner::frame(*old(self), *self),
                f == self.class_pred(cls),
                begin == old(self).BufferScanner.Pos,
                old(self).off() <= self.off() <= self.buf().len(),
                run_end(old(self).buf(), old(self).off(), f) == run_end(
                    self.buf(),
                    self.off(),
                    f,
                ),
            ensures
                self.wf(),
                BasicScanner::frame(*old(self), *self),
                begin == old(self).BufferScanner.Pos,
                old(self).off() <= self.off() <= self.buf().len(),
                self.off() < self.buf().len(),
                run_end(old(self).buf(), old(self).off(), f) == self.off(),
            decreases self.buf().len() - self.off(),
        {
            let c = match self.GetChar() {
                Ok(c) => c,
                Err(e) => {
                    return Err(e);
                },
            };
            if !self.in_class(cls, c) {
                break ;
            }
            let _ = self.Move();
        }
        let lit = collect_range(&self.BufferScanner.Buffer, begin.Offset, self.BufferScanner.Pos.Offset);
        Ok(
            BasicToken {
                Pos: PosRange { Begin: begin, End: self.GetPos() },
                Kind: kind,
                Literal: lit,
            },
        )
    }

    /// Scan an identifier: a maximal run of letters, digits and `_`.
    pub fn ScanIdent(&mut self) -> (r: Result<BasicToken, BasicScannerError>)
        requires
            old(self).wf(),
        ensures
            final(self).wf(),
            BasicScanner::frame(*old(self), *final(self)),
            raw_out_post(
                old(self).buf(),
                r,
                final(self).off(),
                ident_out(old(self).buf(), old(self).off()),
            ),
    {
        self.scan_run(RunClass::IdentRun, BasicTokenKind::Ident)
    }

    /// Scan a maximal run of lowercase hexadecimal digits.
    pub fn ScanHex(&mut self) -> (r: Result<BasicToken, BasicScannerError>)
        requires
            old(self).wf(),
        ensures
            final(self).wf(),
            BasicScanner::frame(*old(self), *final(self)),
            raw_out_post(
                old(self).buf(),
                r,
                final(self).off(),
                int_run(old(self).buf(), old(self).off(), old(self).off(), hex_pred(), IntFormat::HEX),
            ),
    {
        self.scan_run(RunClass::HexRun, BasicTokenKind::Int(IntFormat::HEX))
    }

    /// Scan a maximal run of decimal digits.
    pub fn ScanDec(&mut self) -> (r: Result<BasicToken, BasicScannerError>)
        requires
            old(self).wf(),
        ensures
            final(self).wf(),
            BasicScanner::frame(*old(self), *final(self)),
            raw_out_post(
                old(self).buf(),
                r,
                final(self).off(),
                int_run(old(self).buf(), old(self).off(), old(self).off(), dec_pred(), IntFormat::DEC),
            ),
    {
        self.scan_run(RunClass::DecRun, BasicTokenKind::Int(IntFormat::DEC))
    }

    /// Scan a maximal run of octal digits.
    pub fn ScanOct(&mut self) -> (r: Result<BasicToken, BasicScannerError>)
        requires
            old(self).wf(),
        ensures
            final(self).wf(),
            BasicScanner::frame(*old(self), *final(self)),
            raw_out_post(
                old(self).buf(),
                r,
                final(self).off(),
                int_run(old(self).buf(), old(self).off(), old(self).off(), oct_pred(), IntFormat::OCT),
            ),
    {
        self.scan_run(RunClass::OctRun, BasicTokenKind::Int(IntFormat::OCT))
    }

    /// Scan a maximal run of binary digits.
    pub fn ScanBin(&mut self) -> (r: Result<BasicToken, BasicScannerError>)
        requires
            old(self).wf(),
        ensures
            final(self).wf(),
            BasicScanner::frame(*old(self), *final(self)),
            raw_out_post(
                old(self).buf(),
                r,
                final(self).off(),
                int_run(old(self).buf(), old(self).off(), old(self).off(), bin_pred(), IntFormat::BIN),
            ),
    {
        self.scan_run(RunClass::BinRun, BasicTokenKind::Int(IntFormat::BIN))
    }

    /// Scan a maximal run of operator punctuation, stopping before quotes
    /// and configured delimiters.
    pub fn ScanOperator(&mut self) -> (r: Result<BasicToken, BasicScannerError>)
        requires
            old(self).wf(),
        ensures
            final(self).wf(),
            BasicScanner::frame(*old(self), *final(self)),
            raw_out_post(
                old(self).buf(),
                r,
                final(self).off(),
                op_out(old(self).buf(), old(self).delims(), old(self).off()),
            ),
    {
        self.scan_run(RunClass::OpRun, BasicTokenKind::Operator)
    }

    /// Read `runesN` characters and decode them as a hexadecimal code
    /// point. Invalid digits or an invalid code point are `BadFormatError`;
    /// running off the end of the input is `EOFError`.
    pub fn ScanUnicodeHex(&mut self, runesN: u8) -> (r: Result<char, BasicScannerError>)
        requires
            old(self).wf(),
        ensures
            final(self).wf(),
            BasicScanner::frame(*old(self), *final(self)),
            ({
                let buf = old(self).buf();
                match esc_hex(buf, old(self).off(), runesN as int) {
                    EscOut::DoneE { c, end } => r == Ok::<char, BasicScannerError>(c)
                        && final(self).off() == end,
                    EscOut::EofE => r == Err::<char, BasicScannerError>(
                        BasicScannerError::EOF((EOFError { Pos: pos_at(buf, buf.len() as int) })),
                    ) && final(self).off() == buf.len(),
                    EscOut::BadE { from, to } => r == Err::<char, BasicScannerError>(
                        BasicScannerError::BadFormat(
                            (BadFormatError {
                                PosRange: PosRange {
                                    Begin: pos_at(buf, from),
                                    End: pos_at(buf, to),
                                },
                            }),
                        ),
                    ) && final(self).off() == to,
                }
            }),
    {
        let begin = self.GetPos();
        let ghost k = self.off();
        let mut seqv: Vec<char> = Vec::new();
        let mut i: u8 = 0;
        while i < runesN
            invariant
                old(self).wf(),
                self.wf(),
                BasicScanner::frame(*old(self), *self),
                begin == old(self).BufferScanner.Pos,
                i <= runesN,
                k == old(self).off(),
                self.off() == k + i,
                self.off() <= self.buf().len(),
                seqv@ == self.buf().subrange(k, k + i),
            decreases runesN - i,
        {
            let c = match self.Move() {
                Ok(c) => c,
                Err(e) => {
                    return Err(e);
                },
            };
            seqv.push(c);
            proof {
                assert(seqv@ =~= self.buf().subrange(k, k + i + 1));
            }
            i = i + 1;
        }
        let ghost digits = old(self).buf().subrange(k, k + runesN as int);
        proof {
            assert(seqv@ == digits);
        }
        let mut acc: u64 = 0;
        let mut too_big = false;
        let mut p: usize = 0;
        while p < seqv.len()
            invariant
                old(self).wf(),
                self.wf(),
                BasicScanner::frame(*old(self), *self),
                begin == old(self).BufferScanner.Pos,
                digits == old(self).buf().subrange(old(self).off(), old(self).off() + runesN as int),
                runesN as int + old(self).off() <= self.buf().len(),
                self.off() == old(self).off() + runesN as int,
                p <= seqv@.len(),
                seqv@ == digits,
                forall|q: int| 0 <= q < p ==> is_escape_hex_char(#[trigger] digits[q]),
                !too_big ==> acc == hex_seq_val(digits.subrange(0, p as int)) && acc
                    <= 0xFFFF_FFFF,
                too_big ==> hex_seq_val(digits.subrange(0, p as int)) > 0xFFFF_FFFF,
            decreases seqv@.len() - p,
        {
            let d = seqv[p];
            if !escape_hex_char(d) {
                proof {
                    assert(!is_escape_hex_char(digits[p as int]));
                    assert(!all_escape_hex(digits));
                }
                return Err(
                    BasicScannerError::BadFormat(
                        BadFormatError {
                            PosRange: PosRange { Begin: begin, End: self.GetPos() },
                        },
                    ),
                );
            }
            proof {
                assert(digits.subrange(0, p + 1).drop_last() =~= digits.subrange(0, p as int));
                assert(digits.subrange(0, p + 1).last() == digits[p as int]);
            }
            let v = escape_hex_val(d);
            if too_big {
            } else {
                acc = acc * 16 + (v as u64);
                if acc > 0xFFFF_FFFF {
                    too_big = true;
                }
            }
            p = p + 1;
        }
        proof {
            assert(digits.subrange(0, digits.len() as int) =~= digits);
        }
        if too_big {
            return Err(
                BasicScannerError::BadFormat(
                    BadFormatError { PosRange: PosRange { Begin: begin, End: self.GetPos() } },
                ),
            );
        }
        let u = acc as u32;
        match char::from_u32(u) {
            Some(ch) => {
                proof {
                    vstd::utf8::char_u32_cast(ch, u);
                }
                Ok(ch)
            },
            None => Err(
                BasicScannerError::BadFormat(
                    BadFormatError { PosRange: PosRange { Begin: begin, End: self.GetPos() } },
                ),
            ),
        }
    }

    /// Decode the escape sequence at the cursor, the backslash already
    /// consumed: `n`, `t`, `r`, `\` and the quote character stand for
    /// themselves; `x`, `u` and `U` read 2, 4 and 8 hexadecimal digits.
    pub fn ScanEscapeChar(&mut self, quote: char) -> (r: Result<char, BasicScannerError>)
        requires
            old(self).wf(),
        ensures
            final(self).wf(),
            BasicScanner::frame(*old(self), *final(self)),
            ({
                let buf = old(self).buf();
                match esc_scan(buf, quote, old(self).off()) {
                    EscOut::DoneE { c, end } => r == Ok::<char, BasicScannerError>(c)
                        && final(self).off() == end,
                    EscOut::EofE => r == Err::<char, BasicScannerError>(
                        BasicScannerError::EOF((EOFError { Pos: pos_at(buf, buf.len() as int) })),
                    ) && final(self).off() == buf.len(),
                    EscOut::BadE { from, to } => r == Err::<char, BasicScannerError>(
                        BasicScannerError::BadFormat(
                            (BadFormatError {
                                PosRange: PosRange {
                                    Begin: pos_at(buf, from),
                                    End: pos_at(buf, to),
                                },
                            }),
                        ),
                    ) && final(self).off() == to,
                }
            }),
    {
        let begin = self.GetPos();
        let ch = match self.Move() {
            Ok(c) => c,
            Err(e) => {
                return Err(e);
            },
        };
        if ch == 'n' {
            Ok('\n')
        } else if ch == 't' {
            Ok('\t')
        } else if ch == 'r' {
            Ok('\r')
        } else if ch == '\\' {
            Ok('\\')
        } else if ch == 'x' {
            self.ScanUnicodeHex(2)
        } else if ch == 'u' {
            self.ScanUnicodeHex(4)
        } else if ch == 'U' {
            self.ScanUnicodeHex(8)
        } else if ch == quote {
            Ok(quote)
        } else {
            Err(
                BasicScannerError::BadFormat(
                    BadFormatError { PosRange: PosRange { Begin: begin, End: self.GetPos() } },
                ),
            )
        }
    }

    /// Scan a string literal whose opening `quote` sits at the cursor: the
    /// token's literal holds the decoded characters, escapes resolved.
    #[verifier::rlimit(30)]
    pub fn ScanString(&mut self, quote: char) -> (r: Result<BasicToken, BasicScannerError>)
        requires
            old(self).wf(),
        ensures
            final(self).wf(),
            BasicScanner::frame(*old(self), *final(self)),
            raw_out_post(
                old(self).buf(),
                r,
                final(self).off(),
                string_out(old(self).buf(), quote, old(self).off()),
            ),
    {
        let begin = self.GetPos();
        match self.Move() {
            Ok(_) => {},
            Err(e) => {
                return Err(e);
            },
        }
        let ghost i0 = old(self).off() + 1;
        let ghost buf = old(self).buf();
        proof {
            if str_scan(buf, quote, i0) is DoneS {
                lemma_empty_add(str_scan(buf, quote, i0)->DoneS_lit);
            }
        }
        let mut seqv: Vec<char> = Vec::new();
        loop
            invariant_except_break
                ({
                    match str_scan(buf, quote, self.off()) {
                        StrOut::DoneS { lit, end } => str_scan(buf, quote, i0)
                            == (StrOut::DoneS { lit: seqv@ + lit, end: end }),
                        StrOut::EofS => str_scan(buf, quote, i0) is EofS,
                        StrOut::BadS { from, to } => str_scan(buf, quote, i0) == (StrOut::BadS {
                            from,
                            to,
                        }),
                    }
                }),
            invariant
                old(self).wf(),
                old(self).off() + 1 == i0,
                self.wf(),
                BasicScanner::frame(*old(self), *self),
                buf == old(self).buf(),
                buf == self.buf(),
                begin == old(self).BufferScanner.Pos,
                i0 <= self.off() <= buf.len(),
            ensures
                self.wf(),
                BasicScanner::frame(*old(self), *self),
                begin == old(self).BufferScanner.Pos,
                str_scan(buf, quote, i0) == (StrOut::DoneS { lit: seqv@, end: self.off() }),
            decreases buf.len() - self.off(),
        {
            let ghost cur = self.off();
            let ch = match self.Move() {
                Ok(c) => c,
                Err(e) => {
                    proof {
                        assert(cur == buf.len());
                        assert(str_scan(buf, quote, cur) is EofS);
                    }
                    return Err(e);
                },
            };
            if ch == '\\' {
                proof {
                    assert(buf[cur] == '\\');
                }
                let esc = match self.ScanEscapeChar(quote) {
                    Ok(c) => c,
                    Err(e) => {
                        return Err(e);
                    },
                };
                proof {
                    match str_scan(buf, quote, self.off()) {
                        StrOut::DoneS { lit, end } => {
                            lemma_add_assoc(seqv@, seq![esc], lit);
                            assert(seqv@ + seq![esc] =~= seqv@.push(esc));
                        },
                        _ => {},
                    }
                }
                seqv.push(esc);
            } else if ch == quote {
                proof {
                    assert(str_scan(buf, quote, cur) == (StrOut::DoneS {
                        lit: Seq::<char>::empty(),
                        end: cur + 1,
                    }));
                    assert(seqv@ + Seq::<char>::empty() =~= seqv@);
                }
                break ;
            } else {
                proof {
                    match str_scan(buf, quote, self.off()) {
                        StrOut::DoneS { lit, end } => {
                            lemma_add_assoc(seqv@, seq![ch], lit);
                            assert(seqv@ + seq![ch] =~= seqv@.push(ch));
                        },
                        _ => {},
                    }
                }
                seqv.push(ch);
            }
        }
        Ok(
            BasicToken {
                Pos: PosRange { Begin: begin, End: self.GetPos() },
                Kind: BasicTokenKind::Str,
                Literal: seqv,
            },
        )
    }

    /// Scan a line comment whose content starts at the cursor (just past
    /// the `//`): everything through the newline, inclusive.
    pub fn ScanLineComment(&mut self) -> (r: Result<BasicToken, BasicScannerError>)
        requires
            old(self).wf(),
        ensures
            final(self).wf(),
            BasicScanner::frame(*old(self), *final(self)),
            raw_out_post(
                old(self).buf(),
                r,
                final(self).off(),
                line_comment_out(old(self).buf(), old(self).off()),
            ),
    {
        let begin = self.GetPos();
        proof {
            lemma_nl_search_bounds(old(self).buf(), old(self).off());
        }
        match self.GotoNextLine() {
            Ok(()) => {},
            Err(e) => {
                return Err(e);
            },
        }
        let lit = collect_range(
            &self.BufferScanner.Buffer,
            begin.Offset,
            self.BufferScanner.Pos.Offset,
        );
        Ok(
            BasicToken {
                Pos: PosRange { Begin: begin, End: self.GetPos() },
                Kind: BasicTokenKind::Comment,
                Literal: lit,
            },
        )
    }

    /// Scan a block comment whose content starts at the cursor (just past
    /// the `/*`): everything through the closing `*/`, inclusive. A `*`
    /// not followed by `/` skips both characters.
    pub fn ScanQuotedComment(&mut self) -> (r: Result<BasicToken, BasicScannerError>)
        requires
            old(self).wf(),
        ensures
            final(self).wf(),
            BasicScanner::frame(*old(self), *final(self)),
            raw_out_post(
                old(self).buf(),
                r,
                final(self).off(),
                block_comment_out(old(self).buf(), old(self).off()),
            ),
    {
        let begin = self.GetPos();
        let ghost buf = old(self).buf();
        loop
            invariant_except_break
                block_end(buf, old(self).off()) == block_end(buf, self.off()),
            invariant
                old(self).wf(),
                self.wf(),
                BasicScanner::frame(*old(self), *self),
                buf == old(self).buf(),
                buf == self.buf(),
                begin == old(self).BufferScanner.Pos,
                old(self).off() <= self.off() <= buf.len(),
            ensures
                self.wf(),
                BasicScanner::frame(*old(self), *self),
                begin == old(self).BufferScanner.Pos,
                old(self).off() <= self.off() <= buf.len(),
                block_end(buf, old(self).off()) == Some(self.off()),
            decreases buf.len() - self.off(),
        {
            let c = match self.Move() {
                Ok(c) => c,
                Err(e) => {
                    return Err(e);
                },
            };
            if c == '*' {
                let c2 = match self.Move() {
                    Ok(c2) => c2,
                    Err(e) => {
                        return Err(e);
                    },
                };
                if c2 == '/' {
                    break ;
                }
            }
        }
        let lit = collect_range(
            &self.BufferScanner.Buffer,
            begin.Offset,
            self.BufferScanner.Pos.Offset,
        );
        Ok(
            BasicToken {
                Pos: PosRange { Begin: begin, End: self.GetPos() },
                Kind: BasicTokenKind::Comment,
                Literal: lit,
            },
        )
    }

    /// Scan a comment whose `/` sits at the cursor: a second `/` opens a
    /// line comment, a `*` a block comment; anything else is malformed.
    pub fn ScanComment(&mut self) -> (r: Result<BasicToken, BasicScannerError>)
        requires
            old(self).wf(),
        ensures
            final(self).wf(),
            BasicScanner::frame(*old(self), *final(self)),
            raw_out_post(
                old(self).buf(),
                r,
                final(self).off(),
                comment_out(old(self).buf(), old(self).off()),
            ),
    {
        let begin = self.GetPos();
        match self.Move() {
            Ok(_) => {},
            Err(e) => {
                return Err(e);
            },
        }
        let c2 = match self.Move() {
            Ok(c) => c,
            Err(e) => {
                return Err(e);
            },
        };
        let ghost m = *self;
        if c2 == '/' {
            match self.ScanLineComment() {
                Ok(t) => {
                    proof {
                        lemma_nl_search_bounds(m.buf(), m.off());
                    }
                    Ok(self.token_from(begin, t.Kind))
                },
                Err(e) => Err(e),
            }
        } else if c2 == '*' {
            match self.ScanQuotedComment() {
                Ok(t) => {
                    proof {
                        lemma_block_end_bounds(m.buf(), m.off());
                    }
                    Ok(self.token_from(begin, t.Kind))
                },
                Err(e) => Err(e),
            }
        } else {
            Err(
                BasicScannerError::BadFormat(
                    BadFormatError { PosRange: PosRange { Begin: begin, End: self.GetPos() } },
                ),
            )
        }
    }

    /// Produce the next raw token: skip whitespace, then dispatch on the
    /// class of the next character.
    pub fn Scan(&mut self) -> (r: Result<BasicToken, BasicScannerError>)
        requires
            old(self).wf(),
        ensures
            final(self).wf(),
            BasicScanner::frame(*old(self), *final(self)),
            raw_out_post(
                old(self).buf(),
                r,
                final(self).off(),
                raw_next(old(self).buf(), old(self).delims(), old(self).ws(), old(self).off()),
            ),
    {
        match self.SkipWhitespaces() {
            Ok(()) => {},
            Err(e) => {
                return Err(e);
            },
        }
        let begin = self.GetPos();
        let c = match self.GetChar() {
            Ok(c) => c,
            Err(e) => {
                return Err(e);
            },
        };
        if letter(c) || c == '_' {
            self.ScanIdent()
        } else if digit(c) {
            self.ScanDigit()
        } else if c == '"' {
            self.ScanString('"')
        } else if c == '\'' {
            self.ScanString('\'')
        } else if c == '/' {
            self.ScanComment()
        } else if contains_char(&self.Delimiters, c) {
            let ch = match self.Move() {
                Ok(ch) => ch,
                Err(e) => {
                    return Err(e);
                },
            };
            let lit = vec![ch];
            proof {
                assert(lit@ =~= seq![ch]);
            }
            Ok(
                BasicToken {
                    Pos: PosRange { Begin: begin, End: self.GetPos() },
                    Kind: BasicTokenKind::Delimiter,
                    Literal: lit,
                },
            )
        } else if punct(c) {
            self.ScanOperator()
        } else {
            let _ = self.Move();
            Err(
                BasicScannerError::BadFormat(
                    BadFormatError { PosRange: PosRange { Begin: begin, End: self.GetPos() } },
                ),
            )
        }
    }

    /// A token of kind `kind` spanning from `begin` to the cursor, its
    /// literal the source slice between them: used to re-span a token over
    /// the prefix or opener that selected its scan.
    fn token_from(&self, begin: Position, kind: BasicTokenKind) -> (t: BasicToken)
        requires
            self.wf(),
            begin.Offset <= self.BufferScanner.Pos.Offset,
        ensures
            t.Kind == kind,
            t.Literal@ == self.buf().subrange(begin.Offset as int, self.off()),
            t.Pos == (PosRange { Begin: begin, End: self.BufferScanner.Pos }),
    {
        let lit = collect_range(
            &self.BufferScanner.Buffer,
            begin.Offset,
            self.BufferScanner.Pos.Offset,
        );
        BasicToken { Pos: PosRange { Begin: begin, End: self.GetPos() }, Kind: kind, Literal: lit }
    }

    /// Scan an integer literal: `0x`, `0o` and `0b` select a base; a bare
    /// `0` before anything else is malformed; any other leading digit
    /// starts a decimal literal.
    pub fn ScanDigit(&mut self) -> (r: Result<BasicToken, BasicScannerError>)
        requires
            old(self).wf(),
        ensures
            final(self).wf(),
            BasicScanner::frame(*old(self), *final(self)),
            raw_out_post(
                old(self).buf(),
                r,
                final(self).off(),
                digit_out(old(self).buf(), old(self).off()),
            ),
    {
        let begin = self.GetPos();
        let c1 = match self.Move() {
            Ok(c) => c,
            Err(e) => {
                return Err(e);
            },
        };
        if c1 == '0' {
            let c2 = match self.Move() {
                Ok(c) => c,
                Err(e) => {
                    return Err(e);
                },
            };
            let ghost m = *self;
            if c2 == 'x' {
                match self.ScanHex() {
                    Ok(t) => {
                        proof {
                            lemma_run_end_bounds(m.buf(), m.off(), hex_pred());
                        }
                        Ok(self.token_from(begin, t.Kind))
                    },
                    Err(e) => Err(e),
                }
            } else if c2 == 'o' {
                match self.ScanOct() {
                    Ok(t) => {
                        proof {
                            lemma_run_end_bounds(m.buf(), m.off(), oct_pred());
                        }
                        Ok(self.token_from(begin, t.Kind))
                    },
                    Err(e) => Err(e),
                }
            } else if c2 == 'b' {
                match self.ScanBin() {
                    Ok(t) => {
                        proof {
                            lemma_run_end_bounds(m.buf(), m.off(), bin_pred());
                        }
                        Ok(self.token_from(begin, t.Kind))
                    },
                    Err(e) => Err(e),
                }
            } else {
                Err(
                    BasicScannerError::BadFormat(
                        BadFormatError {
                            PosRange: PosRange { Begin: begin, End: self.GetPos() },
                        },
                    ),
                )
            }
        } else {
            self.BufferScanner.Pos = begin;
            self.ScanDec()
        }
    }
}

} // verus!
