//! Character classes used by the raw tokenizer, and small helpers over
//! character buffers.

use vstd::prelude::*;

verus! {

/// An ASCII letter.
pub open spec fn is_letter(c: char) -> bool {
    ('a' as u32 <= c as u32 && c as u32 <= 'z' as u32) || ('A' as u32 <= c as u32 && c as u32
        <= 'Z' as u32)
}

/// An ASCII decimal digit.
pub open spec fn is_digit(c: char) -> bool {
    '0' as u32 <= c as u32 && c as u32 <= '9' as u32
}

/// A character that may continue an identifier: letter, digit or underscore.
pub open spec fn is_ident_char(c: char) -> bool {
    is_letter(c) || is_digit(c) || c == '_'
}

/// A lowercase hexadecimal digit, as accepted inside `0x` literals.
pub open spec fn is_hex_run_char(c: char) -> bool {
    is_digit(c) || ('a' as u32 <= c as u32 && c as u32 <= 'f' as u32)
}

/// An octal digit, as accepted inside `0o` literals.
pub open spec fn is_oct_char(c: char) -> bool {
    '0' as u32 <= c as u32 && c as u32 <= '7' as u32
}

/// A binary digit, as accepted inside `0b` literals.
pub open spec fn is_bin_char(c: char) -> bool {
    c == '0' || c == '1'
}

/// ASCII punctuation, the class that may form operator tokens.
pub open spec fn is_punct(c: char) -> bool {
    (0x21 <= c as u32 && c as u32 <= 0x2f) || (0x3a <= c as u32 && c as u32 <= 0x40) || (0x5b <= c
        as u32 && c as u32 <= 0x60) || (0x7b <= c as u32 && c as u32 <= 0x7e)
}

/// A hexadecimal digit of either case, as accepted in escape sequences.
pub open spec fn is_escape_hex_char(c: char) -> bool {
    is_hex_run_char(c) || ('A' as u32 <= c as u32 && c as u32 <= 'F' as u32)
}

/// Numeric value of the escape-sequence hexadecimal digit `c`.
pub open spec fn hex_digit_val(c: char) -> nat {
    if is_digit(c) {
        (c as u32 - '0' as u32) as nat
    } else if 'a' as u32 <= c as u32 && c as u32 <= 'f' as u32 {
        (c as u32 - 'a' as u32 + 10) as nat
    } else if 'A' as u32 <= c as u32 && c as u32 <= 'F' as u32 {
        (c as u32 - 'A' as u32 + 10) as nat
    } else {
        0
    }
}

pub fn letter(c: char) -> (r: bool)
    ensures
        r == is_letter(c),
{
    let u = c as u32;
    ('a' as u32 <= u && u <= 'z' as u32) || ('A' as u32 <= u && u <= 'Z' as u32)
}

pub fn digit(c: char) -> (r: bool)
    ensures
        r == is_digit(c),
{
    let u = c as u32;
    '0' as u32 <= u && u <= '9' as u32
}

pub fn ident_char(c: char) -> (r: bool)
    ensures
        r == is_ident_char(c),
{
    letter(c) || digit(c) || c == '_'
}

pub fn hex_run_char(c: char) -> (r: bool)
    ensures
        r == is_hex_run_char(c),
{
    let u = c as u32;
    digit(c) || ('a' as u32 <= u && u <= 'f' as u32)
}

pub fn oct_char(c: char) -> (r: bool)
    ensures
        r == is_oct_char(c),
{
    let u = c as u32;
    '0' as u32 <= u && u <= '7' as u32
}

pub fn bin_char(c: char) -> (r: bool)
    ensures
        r == is_bin_char(c),
{
    c == '0' || c == '1'
}

pub fn punct(c: char) -> (r: bool)
    ensures
        r == is_punct(c),
{
    let u = c as u32;
    (0x21 <= u && u <= 0x2f) || (0x3a <= u && u <= 0x40) || (0x5b <= u && u <= 0x60) || (0x7b <= u
        && u <= 0x7e)
}

pub fn escape_hex_char(c: char) -> (r: bool)
    ensures
        r == is_escape_hex_char(c),
{
    let u = c as u32;
    hex_run_char(c) || ('A' as u32 <= u && u <= 'F' as u32)
}

/// Numeric value of an escape-sequence hexadecimal digit.
pub fn escape_hex_val(c: char) -> (r: u32)
    requires
        is_escape_hex_char(c),
    ensures
        r == hex_digit_val(c),
        r < 16,
{
    let u = c as u32;
    if '0' as u32 <= u && u <= '9' as u32 {
        u - '0' as u32
    } else if 'a' as u32 <= u && u <= 'f' as u32 {
        u - 'a' as u32 + 10
    } else {
        u - 'A' as u32 + 10
    }
}

/// Whether the character vector `v` holds `c`.
pub fn contains_char(v: &Vec<char>, c: char) -> (r: bool)
    ensures
        r == v@.contains(c),
{
    let mut i: usize = 0;
    while i < v.len()
        invariant
            i <= v@.len(),
            forall|k: int| 0 <= k < i ==> v@[k] != c,
        decreases v@.len() - i,
    {
        if v[i] == c {
            return true;
        }
        i = i + 1;
    }
    false
}

/// A copy of `buf[from..to]`.
pub fn collect_range(buf: &Vec<char>, from: usize, to: usize) -> (r: Vec<char>)
    requires
        from <= to <= buf@.len(),
    ensures
        r@ == buf@.subrange(from as int, to as int),
{
    let mut r: Vec<char> = Vec::new();
    let mut i: usize = from;
    while i < to
        invariant
            from <= i <= to <= buf@.len(),
            r@ == buf@.subrange(from as int, i as int),
        decreases to - i,
    {
        r.push(buf[i]);
        proof {
            assert(r@ =~= buf@.subrange(from as int, i + 1 as int));
        }
        i = i + 1;
    }
    r
}

} // verus!
