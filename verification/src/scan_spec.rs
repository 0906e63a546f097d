//! Mathematical description of the raw tokenizer: what one call of the
//! tokenizer returns, as a function of the buffer, the configured delimiter
//! and whitespace sets, and the starting offset.

use vstd::prelude::*;

use crate::chars::{
    hex_digit_val,
    is_bin_char,
    is_digit,
    is_escape_hex_char,
    is_hex_run_char,
    is_ident_char,
    is_letter,
    is_oct_char,
    is_punct,
};

verus! {

/// End of the whitespace run of `buf` that starts at `i`.
pub open spec fn ws_end(buf: Seq<char>, ws: Seq<char>, i: int) -> int
    decreases buf.len() - i,
{
    if 0 <= i < buf.len() && ws.contains(buf[i]) {
        ws_end(buf, ws, i + 1)
    } else {
        i
    }
}

/// End of the run of characters satisfying `f` that starts at `i`.
pub open spec fn run_end(buf: Seq<char>, i: int, f: spec_fn(char) -> bool) -> int
    decreases buf.len() - i,
{
    if 0 <= i < buf.len() && f(buf[i]) {
        run_end(buf, i + 1, f)
    } else {
        i
    }
}

/// The run class of identifier continuation characters.
pub open spec fn ident_pred() -> spec_fn(char) -> bool {
    |ch: char| is_ident_char(ch)
}

/// The run class of decimal digits.
pub open spec fn dec_pred() -> spec_fn(char) -> bool {
    |ch: char| is_digit(ch)
}

/// The run class of lowercase hexadecimal digits.
pub open spec fn hex_pred() -> spec_fn(char) -> bool {
    |ch: char| is_hex_run_char(ch)
}

/// The run class of octal digits.
pub open spec fn oct_pred() -> spec_fn(char) -> bool {
    |ch: char| is_oct_char(ch)
}

/// The run class of binary digits.
pub open spec fn bin_pred() -> spec_fn(char) -> bool {
    |ch: char| is_bin_char(ch)
}

/// The run class of operator characters: punctuation that is neither a
/// configured delimiter nor a quote.
pub open spec fn op_pred(delims: Seq<char>) -> spec_fn(char) -> bool {
    |ch: char| is_punct(ch) && !delims.contains(ch) && ch != '"' && ch != '\''
}

/// Offset of the first newline of `buf` at or after `i`, or the buffer
/// length if there is none.
pub open spec fn nl_search(buf: Seq<char>, i: int) -> int
    decreases buf.len() - i,
{
    if i < 0 || i >= buf.len() {
        buf.len() as int
    } else if buf[i] == '\n' {
        i
    } else {
        nl_search(buf, i + 1)
    }
}

/// Offset just past the `*/` that closes a block comment whose body starts
/// at `i`, or `None` if the input ends first. A `*` not followed by `/`
/// skips both characters, so overlapping stars are not re-examined.
pub open spec fn block_end(buf: Seq<char>, i: int) -> Option<int>
    decreases buf.len() - i,
{
    if i < 0 || i >= buf.len() {
        None
    } else if buf[i] == '*' {
        if i + 1 >= buf.len() {
            None
        } else if buf[i + 1] == '/' {
            Some(i + 2)
        } else {
            block_end(buf, i + 2)
        }
    } else {
        block_end(buf, i + 1)
    }
}

/// Every character of `s` is a hexadecimal digit of either case.
pub open spec fn all_escape_hex(s: Seq<char>) -> bool {
    forall|k: int| 0 <= k < s.len() ==> is_escape_hex_char(#[trigger] s[k])
}

/// The number denoted by the hexadecimal digit string `s`, most significant
/// digit first.
pub open spec fn hex_seq_val(s: Seq<char>) -> nat
    decreases s.len(),
{
    if s.len() == 0 {
        0
    } else {
        hex_seq_val(s.drop_last()) * 16 + hex_digit_val(s.last())
    }
}

/// A Unicode scalar value: a code point that is not a surrogate.
pub open spec fn is_valid_scalar(v: nat) -> bool {
    v < 0xD800 || (0xE000 <= v && v <= 0x10FFFF)
}

/// Result of decoding one escape sequence.
pub enum EscOut {
    /// The decoded character, and the offset just past the sequence.
    DoneE { c: char, end: int },
    /// The input ended inside the sequence.
    EofE,
    /// Invalid escape character, invalid hex digits, or an invalid code point.
    BadE { from: int, to: int },
}

/// Decoding of `n` hexadecimal digits starting at offset `k`.
pub open spec fn esc_hex(buf: Seq<char>, k: int, n: int) -> EscOut {
    if k + n > buf.len() {
        EscOut::EofE
    } else {
        let digits = buf.subrange(k, k + n);
        if !all_escape_hex(digits) {
            EscOut::BadE { from: k, to: k + n }
        } else {
            let v = hex_seq_val(digits);
            if is_valid_scalar(v) && v <= 0xFFFF_FFFF {
                EscOut::DoneE { c: (v as u32) as char, end: k + n }
            } else {
                EscOut::BadE { from: k, to: k + n }
            }
        }
    }
}

/// Decoding of the escape sequence whose first character (after the
/// backslash) sits at offset `j`. `quote` escapes itself.
pub open spec fn esc_scan(buf: Seq<char>, quote: char, j: int) -> EscOut {
    if j >= buf.len() {
        EscOut::EofE
    } else {
        let c = buf[j];
        if c == 'n' {
            EscOut::DoneE { c: '\n', end: j + 1 }
        } else if c == 't' {
            EscOut::DoneE { c: '\t', end: j + 1 }
        } else if c == 'r' {
            EscOut::DoneE { c: '\r', end: j + 1 }
        } else if c == '\\' {
            EscOut::DoneE { c: '\\', end: j + 1 }
        } else if c == 'x' {
            esc_hex(buf, j + 1, 2)
        } else if c == 'u' {
            esc_hex(buf, j + 1, 4)
        } else if c == 'U' {
            esc_hex(buf, j + 1, 8)
        } else if c == quote {
            EscOut::DoneE { c: quote, end: j + 1 }
        } else {
            EscOut::BadE { from: j, to: j + 1 }
        }
    }
}

/// Result of scanning the body of a string literal.
pub enum StrOut {
    /// The decoded characters and the offset just past the closing quote.
    DoneS { lit: Seq<char>, end: int },
    /// The input ended before the closing quote.
    EofS,
    /// An escape sequence was malformed.
    BadS { from: int, to: int },
}

/// Scanning of a string literal body from offset `i` (just past the opening
/// quote) until the unescaped closing `quote`, decoding escapes.
pub open spec fn str_scan(buf: Seq<char>, quote: char, i: int) -> StrOut
    decreases buf.len() - i,
{
    if i < 0 || i >= buf.len() {
        StrOut::EofS
    } else if buf[i] == '\\' {
        match esc_scan(buf, quote, i + 1) {
            EscOut::DoneE { c, end } => {
                if end <= i + 1 || end > buf.len() {
                    StrOut::EofS
                } else {
                    match str_scan(buf, quote, end) {
                        StrOut::DoneS { lit, end: e2 } => StrOut::DoneS {
                            lit: seq![c] + lit,
                            end: e2,
                        },
                        o => o,
                    }
                }
            },
            EscOut::EofE => StrOut::EofS,
            EscOut::BadE { from, to } => StrOut::BadS { from, to },
        }
    } else if buf[i] == quote {
        StrOut::DoneS { lit: Seq::empty(), end: i + 1 }
    } else {
        match str_scan(buf, quote, i + 1) {
            StrOut::DoneS { lit, end: e2 } => StrOut::DoneS { lit: seq![buf[i]] + lit, end: e2 },
            o => o,
        }
    }
}

/// What one call of the raw tokenizer yields.
pub enum RawOut {
    /// A token: its kind, literal characters, and the source span
    /// `begin..end` that the literal was taken from.
    Tok { kind: crate::scanner::BasicTokenKind, lit: Seq<char>, begin: int, end: int },
    /// End of input: the reported position, and the final cursor offset.
    EofR { at: int, fin: int },
    /// A malformed token over `from..to`, with the final cursor offset.
    BadR { from: int, to: int, fin: int },
}

/// Helper for the integer-base runs: the run of `f`-characters starting at
/// `k` becomes an integer token of format `fmt` whose literal and range
/// begin at `b` — the start of the written literal, base prefix included —
/// or end-of-input if the run reaches the end of the buffer.
pub open spec fn int_run(
    buf: Seq<char>,
    b: int,
    k: int,
    f: spec_fn(char) -> bool,
    fmt: crate::scanner::IntFormat,
) -> RawOut {
    let e = run_end(buf, k, f);
    if e >= buf.len() {
        RawOut::EofR { at: buf.len() as int, fin: buf.len() as int }
    } else {
        RawOut::Tok {
            kind: crate::scanner::BasicTokenKind::Int(fmt),
            lit: buf.subrange(b, e),
            begin: b,
            end: e,
        }
    }
}

/// The raw token produced by a maximal run of `f`-characters starting at
/// `k`, tagged `kind`; reaching the end of the buffer mid-run is a failure.
pub open spec fn run_out(
    buf: Seq<char>,
    k: int,
    f: spec_fn(char) -> bool,
    kind: crate::scanner::BasicTokenKind,
) -> RawOut {
    let e = run_end(buf, k, f);
    if e >= buf.len() {
        RawOut::EofR { at: buf.len() as int, fin: buf.len() as int }
    } else {
        RawOut::Tok { kind: kind, lit: buf.subrange(k, e), begin: k, end: e }
    }
}

/// The raw token produced by an identifier scan starting at `j`.
pub open spec fn ident_out(buf: Seq<char>, j: int) -> RawOut {
    let e = run_end(buf, j, ident_pred());
    if e >= buf.len() {
        RawOut::EofR { at: buf.len() as int, fin: buf.len() as int }
    } else {
        RawOut::Tok {
            kind: crate::scanner::BasicTokenKind::Ident,
            lit: buf.subrange(j, e),
            begin: j,
            end: e,
        }
    }
}

/// The raw token produced by a digit scan starting at `j`: a `0x`/`0o`/`0b`
/// prefix selects the base; a bare `0` before anything else is malformed;
/// any other leading digit starts a decimal run.
pub open spec fn digit_out(buf: Seq<char>, j: int) -> RawOut {
    if j >= buf.len() {
        RawOut::EofR { at: buf.len() as int, fin: buf.len() as int }
    } else if buf[j] != '0' {
        int_run(buf, j, j, dec_pred(), crate::scanner::IntFormat::DEC)
    } else if j + 1 >= buf.len() {
        RawOut::EofR { at: buf.len() as int, fin: buf.len() as int }
    } else if buf[j + 1] == 'x' {
        int_run(buf, j, j + 2, hex_pred(), crate::scanner::IntFormat::HEX)
    } else if buf[j + 1] == 'o' {
        int_run(buf, j, j + 2, oct_pred(), crate::scanner::IntFormat::OCT)
    } else if buf[j + 1] == 'b' {
        int_run(buf, j, j + 2, bin_pred(), crate::scanner::IntFormat::BIN)
    } else {
        RawOut::BadR { from: j, to: j + 2, fin: j + 2 }
    }
}

/// The raw token produced by a string scan whose opening quote sits at `j`.
pub open spec fn string_out(buf: Seq<char>, quote: char, j: int) -> RawOut {
    if j >= buf.len() {
        RawOut::EofR { at: buf.len() as int, fin: buf.len() as int }
    } else {
        match str_scan(buf, quote, j + 1) {
            StrOut::DoneS { lit, end } => RawOut::Tok {
                kind: crate::scanner::BasicTokenKind::Str,
                lit: lit,
                begin: j,
                end: end,
            },
            StrOut::EofS => RawOut::EofR { at: buf.len() as int, fin: buf.len() as int },
            StrOut::BadS { from, to } => RawOut::BadR { from, to, fin: to },
        }
    }
}

/// The raw token produced by a line-comment scan whose content starts at
/// `k` (just past the `//`): everything through the newline, inclusive.
pub open spec fn line_comment_out(buf: Seq<char>, k: int) -> RawOut {
    let e = nl_search(buf, k);
    if e < buf.len() {
        RawOut::Tok {
            kind: crate::scanner::BasicTokenKind::Comment,
            lit: buf.subrange(k, e + 1),
            begin: k,
            end: e + 1,
        }
    } else {
        RawOut::EofR { at: buf.len() as int, fin: buf.len() as int }
    }
}

/// The raw token produced by a block-comment scan whose content starts at
/// `k` (just past the `/*`): everything through the closing `*/`.
pub open spec fn block_comment_out(buf: Seq<char>, k: int) -> RawOut {
    match block_end(buf, k) {
        Some(e) => RawOut::Tok {
            kind: crate::scanner::BasicTokenKind::Comment,
            lit: buf.subrange(k, e),
            begin: k,
            end: e,
        },
        None => RawOut::EofR { at: buf.len() as int, fin: buf.len() as int },
    }
}

/// The raw token produced by a comment scan whose `/` sits at `j`: a second
/// `/` opens a line comment, a `*` a block comment; anything else is
/// malformed.
pub open spec fn comment_out(buf: Seq<char>, j: int) -> RawOut {
    if j >= buf.len() || j + 1 >= buf.len() {
        RawOut::EofR { at: buf.len() as int, fin: buf.len() as int }
    } else if buf[j + 1] == '/' {
        let e = nl_search(buf, j + 2);
        if e < buf.len() {
            RawOut::Tok {
                kind: crate::scanner::BasicTokenKind::Comment,
                lit: buf.subrange(j, e + 1),
                begin: j,
                end: e + 1,
            }
        } else {
            RawOut::EofR { at: buf.len() as int, fin: buf.len() as int }
        }
    } else if buf[j + 1] == '*' {
        match block_end(buf, j + 2) {
            Some(e) => RawOut::Tok {
                kind: crate::scanner::BasicTokenKind::Comment,
                lit: buf.subrange(j, e),
                begin: j,
                end: e,
            },
            None => RawOut::EofR { at: buf.len() as int, fin: buf.len() as int },
        }
    } else {
        RawOut::BadR { from: j, to: j + 2, fin: j + 2 }
    }
}

/// The raw token produced by an operator scan starting at `j`: a maximal
/// run of punctuation, stopping before quotes and configured delimiters.
pub open spec fn op_out(buf: Seq<char>, delims: Seq<char>, j: int) -> RawOut {
    let e = run_end(buf, j, op_pred(delims));
    if e >= buf.len() {
        RawOut::EofR { at: buf.len() as int, fin: buf.len() as int }
    } else {
        RawOut::Tok {
            kind: crate::scanner::BasicTokenKind::Operator,
            lit: buf.subrange(j, e),
            begin: j,
            end: e,
        }
    }
}

/// The raw token starting at offset `i` of `buf`, after skipping
/// whitespace: the single place that fixes how characters are classified.
pub open spec fn raw_next(buf: Seq<char>, delims: Seq<char>, ws: Seq<char>, i: int) -> RawOut {
    let j = ws_end(buf, ws, i);
    if j >= buf.len() {
        RawOut::EofR { at: buf.len() as int, fin: buf.len() as int }
    } else {
        let c = buf[j];
        if is_letter(c) || c == '_' {
            ident_out(buf, j)
        } else if is_digit(c) {
            digit_out(buf, j)
        } else if c == '"' || c == '\'' {
            string_out(buf, c, j)
        } else if c == '/' {
            comment_out(buf, j)
        } else if delims.contains(c) {
            RawOut::Tok {
                kind: crate::scanner::BasicTokenKind::Delimiter,
                lit: seq![c],
                begin: j,
                end: j + 1,
            }
        } else if is_punct(c) {
            op_out(buf, delims, j)
        } else {
            RawOut::BadR { from: j, to: j + 1, fin: j + 1 }
        }
    }
}

/// Bounds of a whitespace run.
pub proof fn lemma_ws_end_bounds(buf: Seq<char>, ws: Seq<char>, i: int)
    requires
        0 <= i <= buf.len(),
    ensures
        i <= ws_end(buf, ws, i) <= buf.len(),
    decreases buf.len() - i,
{
    if i < buf.len() && ws.contains(buf[i]) {
        lemma_ws_end_bounds(buf, ws, i + 1);
    }
}

/// Bounds of a character-class run.
pub proof fn lemma_run_end_bounds(buf: Seq<char>, i: int, f: spec_fn(char) -> bool)
    requires
        0 <= i <= buf.len(),
    ensures
        i <= run_end(buf, i, f) <= buf.len(),
    decreases buf.len() - i,
{
    if i < buf.len() && f(buf[i]) {
        lemma_run_end_bounds(buf, i + 1, f);
    }
}

/// A run whose first character is in the class covers at least that
/// character.
pub proof fn lemma_run_end_first(buf: Seq<char>, i: int, f: spec_fn(char) -> bool)
    requires
        0 <= i < buf.len(),
        f(buf[i]),
    ensures
        i + 1 <= run_end(buf, i, f) <= buf.len(),
{
    assert(run_end(buf, i, f) == run_end(buf, i + 1, f));
    lemma_run_end_bounds(buf, i + 1, f);
}

/// Bounds of the newline search.
pub proof fn lemma_nl_search_bounds(buf: Seq<char>, i: int)
    requires
        0 <= i <= buf.len(),
    ensures
        i <= nl_search(buf, i) <= buf.len(),
        nl_search(buf, i) < buf.len() ==> buf[nl_search(buf, i)] == '\n',
    decreases buf.len() - i,
{
    if i < buf.len() && buf[i] != '\n' {
        lemma_nl_search_bounds(buf, i + 1);
    }
}

/// Bounds of the block-comment search.
pub proof fn lemma_block_end_bounds(buf: Seq<char>, i: int)
    requires
        0 <= i <= buf.len(),
    ensures
        block_end(buf, i) is Some ==> i + 2 <= block_end(buf, i)->0 <= buf.len(),
    decreases buf.len() - i,
{
    if 0 <= i < buf.len() {
        if buf[i] == '*' {
            if i + 1 < buf.len() && buf[i + 1] != '/' {
                lemma_block_end_bounds(buf, i + 2);
            }
        } else {
            lemma_block_end_bounds(buf, i + 1);
        }
    }
}

/// Bounds of an escape-sequence decode.
pub proof fn lemma_esc_scan_bounds(buf: Seq<char>, quote: char, j: int)
    requires
        0 <= j,
    ensures
        esc_scan(buf, quote, j) is DoneE ==> j + 1 <= esc_scan(buf, quote, j)->DoneE_end
            <= buf.len(),
        esc_scan(buf, quote, j) matches EscOut::BadE { from, to } ==> j <= from && from < to
            <= buf.len(),
{
}

/// Bounds of a string-body scan.
pub proof fn lemma_str_scan_bounds(buf: Seq<char>, quote: char, i: int)
    requires
        0 <= i <= buf.len(),
    ensures
        str_scan(buf, quote, i) is DoneS ==> i < str_scan(buf, quote, i)->DoneS_end <= buf.len(),
        str_scan(buf, quote, i) matches StrOut::BadS { from, to } ==> i < from && from < to
            <= buf.len(),
    decreases buf.len() - i,
{
    if 0 <= i < buf.len() {
        if buf[i] == '\\' {
            match esc_scan(buf, quote, i + 1) {
                EscOut::DoneE { c, end } => {
                    lemma_esc_scan_bounds(buf, quote, i + 1);
                    if i + 1 < end <= buf.len() {
                        lemma_str_scan_bounds(buf, quote, end);
                    }
                },
                _ => {
                    lemma_esc_scan_bounds(buf, quote, i + 1);
                },
            }
        } else if buf[i] != quote {
            lemma_str_scan_bounds(buf, quote, i + 1);
        }
    }
}

/// The empty sequence is a left identity of concatenation.
pub proof fn lemma_empty_add(s: Seq<char>)
    ensures
        Seq::<char>::empty() + s == s,
{
    assert(Seq::<char>::empty() + s =~= s);
}

/// Concatenation of character sequences is associative.
pub proof fn lemma_add_assoc(a: Seq<char>, b: Seq<char>, c: Seq<char>)
    ensures
        (a + b) + c == a + (b + c),
{
    assert((a + b) + c =~= a + (b + c));
}

/// The run covers exactly the characters of its class: everything before
/// its end is in the class, and the character at its end (if any) is not.
pub proof fn lemma_run_end_chars(buf: Seq<char>, i: int, f: spec_fn(char) -> bool)
    requires
        0 <= i <= buf.len(),
    ensures
        i <= run_end(buf, i, f) <= buf.len(),
        forall|k: int| i <= k < run_end(buf, i, f) ==> f(#[trigger] buf[k]),
        run_end(buf, i, f) < buf.len() ==> !f(buf[run_end(buf, i, f)]),
    decreases buf.len() - i,
{
    if i < buf.len() && f(buf[i]) {
        lemma_run_end_chars(buf, i + 1, f);
    }
}

/// Integer literals are scanned with the base their prefix selects: the
/// literal text is exactly the consumed source slice, the run is maximal
/// for that base, and the tag is `HEX`, `OCT`, `BIN` for the prefixes
/// `0x`, `0o`, `0b` and `DEC` for a plain digit run.
pub proof fn lemma_integer_literal_bases(buf: Seq<char>, j: int)
    requires
        0 <= j <= buf.len(),
    ensures
        digit_out(buf, j) matches RawOut::Tok { kind, lit, begin, end } ==> ({
            &&& lit == buf.subrange(begin, end)
            &&& j < buf.len()
            &&& begin == j
            &&& begin <= end < buf.len()
            &&& (buf[j] != '0' ==> kind == crate::scanner::BasicTokenKind::Int(
                crate::scanner::IntFormat::DEC,
            ) && end == run_end(buf, j, dec_pred()) && (forall|k: int|
                j <= k < end ==> is_digit(#[trigger] buf[k])) && !is_digit(buf[end]))
            &&& (buf[j] == '0' && j + 1 < buf.len() && buf[j + 1] == 'x' ==> kind
                == crate::scanner::BasicTokenKind::Int(crate::scanner::IntFormat::HEX) && end
                == run_end(buf, j + 2, hex_pred()) && (forall|k: int|
                j + 2 <= k < end ==> is_hex_run_char(#[trigger] buf[k])) && !is_hex_run_char(
                buf[end],
            ))
            &&& (buf[j] == '0' && j + 1 < buf.len() && buf[j + 1] == 'o' ==> kind
                == crate::scanner::BasicTokenKind::Int(crate::scanner::IntFormat::OCT) && end
                == run_end(buf, j + 2, oct_pred()) && (forall|k: int|
                j + 2 <= k < end ==> is_oct_char(#[trigger] buf[k])) && !is_oct_char(buf[end]))
            &&& (buf[j] == '0' && j + 1 < buf.len() && buf[j + 1] == 'b' ==> kind
                == crate::scanner::BasicTokenKind::Int(crate::scanner::IntFormat::BIN) && end
                == run_end(buf, j + 2, bin_pred()) && (forall|k: int|
                j + 2 <= k < end ==> is_bin_char(#[trigger] buf[k])) && !is_bin_char(buf[end]))
        }),
{
    if j < buf.len() {
        if buf[j] != '0' {
            lemma_run_end_chars(buf, j, dec_pred());
            assert forall|k: int| j <= k < run_end(buf, j, dec_pred()) implies is_digit(
                #[trigger] buf[k],
            ) by {
                assert(dec_pred()(buf[k]));
            }
        } else if j + 1 < buf.len() {
            if buf[j + 1] == 'x' {
                lemma_run_end_chars(buf, j + 2, hex_pred());
                assert forall|k: int| j + 2 <= k < run_end(buf, j + 2, hex_pred()) implies
                    is_hex_run_char(#[trigger] buf[k]) by {
                    assert(hex_pred()(buf[k]));
                }
            } else if buf[j + 1] == 'o' {
                lemma_run_end_chars(buf, j + 2, oct_pred());
                assert forall|k: int| j + 2 <= k < run_end(buf, j + 2, oct_pred()) implies
                    is_oct_char(#[trigger] buf[k]) by {
                    assert(oct_pred()(buf[k]));
                }
            } else if buf[j + 1] == 'b' {
                lemma_run_end_chars(buf, j + 2, bin_pred());
                assert forall|k: int| j + 2 <= k < run_end(buf, j + 2, bin_pred()) implies
                    is_bin_char(#[trigger] buf[k]) by {
                    assert(bin_pred()(buf[k]));
                }
            }
        }
    }
}

/// A successful raw token always ends past the starting offset: the
/// tokenizer makes progress.
pub proof fn lemma_raw_next_progress(buf: Seq<char>, delims: Seq<char>, ws: Seq<char>, i: int)
    requires
        0 <= i <= buf.len(),
    ensures
        raw_next(buf, delims, ws, i) matches RawOut::Tok { kind, lit, begin, end } ==> i <= begin
            && begin <= end && i < end <= buf.len(),
        raw_next(buf, delims, ws, i) matches RawOut::EofR { at, fin } ==> i <= fin <= buf.len()
            && i <= at <= buf.len(),
        raw_next(buf, delims, ws, i) matches RawOut::BadR { from, to, fin } ==> i <= from && from
            < to <= buf.len() && fin == to,
{
    lemma_ws_end_bounds(buf, ws, i);
    let j = ws_end(buf, ws, i);
    if j < buf.len() {
        let c = buf[j];
        if is_letter(c) || c == '_' {
            assert(ident_pred()(c));
            lemma_run_end_first(buf, j, ident_pred());
        } else if is_digit(c) {
            if c == '0' {
                if j + 2 <= buf.len() {
                    lemma_run_end_bounds(buf, j + 2, hex_pred());
                    lemma_run_end_bounds(buf, j + 2, oct_pred());
                    lemma_run_end_bounds(buf, j + 2, bin_pred());
                }
            } else {
                assert(dec_pred()(c));
                lemma_run_end_first(buf, j, dec_pred());
            }
        } else if c == '"' || c == '\'' {
            lemma_str_scan_bounds(buf, c, j + 1);
        } else if c == '/' {
            if j + 1 < buf.len() {
                if buf[j + 1] == '/' {
                    lemma_nl_search_bounds(buf, j + 2);
                } else if buf[j + 1] == '*' {
                    lemma_block_end_bounds(buf, j + 2);
                }
            }
        } else if delims.contains(c) {
        } else if is_punct(c) {
            assert(op_pred(delims)(c));
            lemma_run_end_first(buf, j, op_pred(delims));
        }
    }
}

} // verus!
