//! Parse diagnostics: the mismatch report a failed `Match` carries.

use vstd::prelude::*;

use crate::token::{Token, TokenKind};

verus! {

/// A production required one token kind but found another: the kind it
/// wanted and the full token it had.
#[derive(Debug)]
pub struct UnexpectedTokenError {
    pub Want: TokenKind,
    pub Have: Token,
}

} // verus!
