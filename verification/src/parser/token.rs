use vstd::prelude::*;

verus! {

/// Token enum
#[derive(PartialEq, Eq, Structural, Clone, Copy, Debug)]
pub enum Token {
    /// Fn decl token
    Fun,
    Mod,
    /// var decl token
    Var,
    Static,
    Cont,
    Ext,
    Pub,
    Intf,
    Enum,
    As,
    For,
    In,
    On,
    Yield,
    Import,
    This,
    ThisRef,
    Else,
    While,
    Break,
    Continue,
    Return,
    Plus,
    Minus,
    Times,
    Divide,
    Assign,
    PrimitiveType,
    LessThan,
    GreaterThan,
    LessThanEquals,
    GreaterThanEquals,
    Equals,
    NotEquals,
    AddAssign,
    SubAssign,
    MulAssign,
    DivAssign,
    Semicolon,
    Colon,
    DoubleColon,
    Dot,
    DoubleDot,
    Comma,
    Ref,
    Tilde,
    OpenParan,
    CloseParan,
    OpenBlock,
    CloseBlock,
    StringLiteral,
    Identifier,
    IntLiteral,
    FloatLiteral,
    BoolLiteral,
    /// A `#` comment up to the end of its line; never handed to the parser
    HashLineComment,
    /// A run of whitespace; never handed to the parser
    Whitespace,
    /// Error token, produced on a lexer error
    Error,
}

} // verus!
