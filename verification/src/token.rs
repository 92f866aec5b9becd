//! The token interface: an external lexer produces a finite sequence of these
//! and the translator consumes them one at a time.

use vstd::prelude::*;
use crate::ir::{Bytes, Interpolation, ScalarKind, VectorSize};

verus! {

/// Source position of a token, used only for diagnostics.
#[derive(Clone, Copy, PartialEq, Eq, Structural, Debug)]
pub struct TokenMetadata {
    pub line: usize,
    pub chars_start: usize,
    pub chars_end: usize,
}

/// What a token is, with its literal payload where it has one. Floating-point
/// literals arrive as the IEEE-754 64-bit pattern of their value, so the
/// translator itself never holds a machine float.
pub enum TokenValue {
    Unknown(char),
    CommentStart,
    CommentEnd,
    Identifier(String),
    IntConstant(i64),
    UintConstant(u64),
    /// Bit pattern of the 64-bit value of a single-precision literal.
    FloatConstant(u64),
    BoolConstant(bool),
    /// Bit pattern of a double-precision literal.
    DoubleConstant(u64),
    Text(String),
    Version,
    Void,
    Const,
    In,
    Out,
    Layout,
    Interpolation(Interpolation),
    Bool,
    Int,
    Uint,
    Float,
    Double,
    Vec((VectorSize, ScalarKind, Bytes)),
    Mat((VectorSize, VectorSize, ScalarKind, Bytes)),
    LeftParen,
    RightParen,
    LeftBracket,
    RightBracket,
    LeftBrace,
    RightBrace,
    Dot,
    Comma,
    Semicolon,
    Colon,
    Question,
    Plus,
    Dash,
    Bang,
    Tilde,
    Star,
    Slash,
    Percent,
    LeftAngle,
    RightAngle,
    VerticalBar,
    Caret,
    Ampersand,
    LeftOp,
    RightOp,
    LeOp,
    GeOp,
    EqOp,
    NeOp,
    AndOp,
    OrOp,
    XorOp,
    IncOp,
    DecOp,
    Equal,
    MulAssign,
    DivAssign,
    ModAssign,
    AddAssign,
    SubAssign,
    LeftAssign,
    RightAssign,
    AndAssign,
    XorAssign,
    OrAssign,
}

/// One token with its source position.
pub struct Token {
    pub meta: TokenMetadata,
    pub value: TokenValue,
}

impl Token {
    pub fn new(meta: TokenMetadata, value: TokenValue) -> (t: Token)
        ensures
            t.meta == meta,
            t.value == value,
    {
        Token { meta, value }
    }
}

} // verus!
