//! The data the lexer produces: tokens, positioned tokens and lexical
//! errors, together with their mathematical models.

use vstd::prelude::*;

verus! {

/// A floating-point literal, kept as the exact scanned text.
///
/// The scanned digits (which contain exactly one `.` when the literal is
/// well formed) are stored verbatim, and `neg` records a leading minus, so
/// no precision is lost and no float arithmetic happens inside the lexer.
/// A caller that wants a machine float parses `digits` itself.
#[derive(Debug, Clone, PartialEq)]
pub struct FloatLit {
    /// True when the literal was written with a leading `-`.
    pub neg: bool,
    /// The scanned digits-and-dot text, without the sign.
    pub digits: String,
}

/// Represents a syntax token.
#[derive(Debug, Clone, PartialEq)]
pub enum Token {
    RParen,
    LParen,
    RCurly,
    LCurly,
    Colon,
    Semicolon,
    Comma,
    Equals,
    Exclamation,
    Function,
    Return,
    Operator(char),
    Ident(String),
    Float(FloatLit),
    Int(i64),
}

/// The mathematical model of a [`Token`]: the same variants over
/// mathematical values (`Seq<char>` for text, `int` for integers).
pub ghost enum TokenModel {
    RParen,
    LParen,
    RCurly,
    LCurly,
    Colon,
    Semicolon,
    Comma,
    Equals,
    Exclamation,
    Function,
    Return,
    Operator { op: char },
    Ident { text: Seq<char> },
    Float { neg: bool, digits: Seq<char> },
    Int { val: int },
}

impl View for Token {
    type V = TokenModel;

    open spec fn view(&self) -> TokenModel {
        match self {
            Token::RParen => TokenModel::RParen,
            Token::LParen => TokenModel::LParen,
            Token::RCurly => TokenModel::RCurly,
            Token::LCurly => TokenModel::LCurly,
            Token::Colon => TokenModel::Colon,
            Token::Semicolon => TokenModel::Semicolon,
            Token::Comma => TokenModel::Comma,
            Token::Equals => TokenModel::Equals,
            Token::Exclamation => TokenModel::Exclamation,
            Token::Function => TokenModel::Function,
            Token::Return => TokenModel::Return,
            Token::Operator(op) => TokenModel::Operator { op: *op },
            Token::Ident(text) => TokenModel::Ident { text: text@ },
            Token::Float(f) => TokenModel::Float { neg: f.neg, digits: f.digits@ },
            Token::Int(i) => TokenModel::Int { val: *i as int },
        }
    }
}

/// Holds a syntax token along with position metadata.
///
/// `line` and `pos` are the lexer's counters at the *end* of the token:
/// `line` counts the newlines consumed so far and `pos` the characters
/// consumed since the lexer was created (it is not reset per line).
#[derive(Debug, Clone, PartialEq)]
pub struct LexedToken {
    pub line: usize,
    pub pos: usize,
    pub tok: Token,
}

/// Provides an error message with location.
#[derive(Debug, Clone, PartialEq)]
pub struct LexError {
    pub line: usize,
    pub pos: usize,
    pub err: String,
}

/// The result of one `lex` call: a token, end of input, or an error.
pub type LexResult = Result<Option<LexedToken>, LexError>;

/// The ways a `lex` call can fail.
pub ghost enum LexErrKind {
    /// An all-digit literal does not fit in an `i64`.
    IntOverflow,
    /// A dotted literal is not a well-formed float (stray dots, no digit).
    FloatInvalid,
    /// An identifier candidate contains the forbidden letter `l`.
    IdentRejected,
}

/// The exact message that each kind of lexical error carries.
pub open spec fn err_msg(kind: LexErrKind) -> Seq<char> {
    match kind {
        LexErrKind::IntOverflow => "integer literal out of range"@,
        LexErrKind::FloatInvalid => "invalid float literal"@,
        LexErrKind::IdentRejected => "'l' faiLs the ELi Linter"@,
    }
}

} // verus!
