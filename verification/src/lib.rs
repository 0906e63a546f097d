//! Front end of a grammar-description language: a two-layer lexical scanner
//! (character cursor, raw tokenizer, grammar-aware scanner with automatic
//! statement-terminator insertion) and a recursive-descent parser built on a
//! generic delimiter/terminator list-parsing protocol.
#![allow(nonstandard_style)]

pub mod chars;
pub mod pos;
pub mod ast;
pub mod diagnosis;
pub mod parse;
pub mod parser;
pub mod scan_spec;
pub mod scanner;
pub mod token;

use vstd::prelude::*;

verus! {

} // verus!
