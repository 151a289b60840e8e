//! The token model: the closed set of lexical classifications and the token
//! value itself, a classification paired with the exact source text it covers.

use vstd::prelude::*;

verus! {

/// Lexical classification of a token.
#[derive(Clone, Copy, Debug, PartialEq, Eq, Hash, Structural)]
pub enum TokenKind {
    Illegal,
    Eof,
    Ident,
    Int,
    Assign,
    Plus,
    Minus,
    Bang,
    Asterisk,
    Slash,
    Lt,
    Gt,
    Comma,
    Semicolon,
    Lparen,
    Rparen,
    Lbrace,
    Rbrace,
    Function,
    Let,
    If,
    Else,
    Return,
    True,
    False,
}

/// One lexical unit: its classification and the exact source substring.
#[derive(Debug)]
pub struct Token {
    pub kind: TokenKind,
    pub literal: String,
}

impl Clone for Token {
    fn clone(&self) -> (res: Token)
        ensures
            res.kind == self.kind,
            res.literal@ == self.literal@,
    {
        Token { kind: self.kind, literal: self.literal.clone() }
    }
}

/// The display name of a token kind, as it appears in diagnostics.
pub open spec fn spec_kind_name(kind: TokenKind) -> Seq<char> {
    match kind {
        TokenKind::Illegal => "Illegal"@,
        TokenKind::Eof => "Eof"@,
        TokenKind::Ident => "Ident"@,
        TokenKind::Int => "Int"@,
        TokenKind::Assign => "Assign"@,
        TokenKind::Plus => "Plus"@,
        TokenKind::Minus => "Minus"@,
        TokenKind::Bang => "Bang"@,
        TokenKind::Asterisk => "Asterisk"@,
        TokenKind::Slash => "Slash"@,
        TokenKind::Lt => "Lt"@,
        TokenKind::Gt => "Gt"@,
        TokenKind::Comma => "Comma"@,
        TokenKind::Semicolon => "Semicolon"@,
        TokenKind::Lparen => "Lparen"@,
        TokenKind::Rparen => "Rparen"@,
        TokenKind::Lbrace => "Lbrace"@,
        TokenKind::Rbrace => "Rbrace"@,
        TokenKind::Function => "Function"@,
        TokenKind::Let => "Let"@,
        TokenKind::If => "If"@,
        TokenKind::Else => "Else"@,
        TokenKind::Return => "Return"@,
        TokenKind::True => "True"@,
        TokenKind::False => "False"@,
    }
}

/// The display name of a token kind, used when a diagnostic names the kind.
pub fn kind_name(kind: TokenKind) -> (r: &'static str)
    ensures
        r@ == spec_kind_name(kind),
{
    match kind {
        TokenKind::Illegal => "Illegal",
        TokenKind::Eof => "Eof",
        TokenKind::Ident => "Ident",
        TokenKind::Int => "Int",
        TokenKind::Assign => "Assign",
        TokenKind::Plus => "Plus",
        TokenKind::Minus => "Minus",
        TokenKind::Bang => "Bang",
        TokenKind::Asterisk => "Asterisk",
        TokenKind::Slash => "Slash",
        TokenKind::Lt => "Lt",
        TokenKind::Gt => "Gt",
        TokenKind::Comma => "Comma",
        TokenKind::Semicolon => "Semicolon",
        TokenKind::Lparen => "Lparen",
        TokenKind::Rparen => "Rparen",
        TokenKind::Lbrace => "Lbrace",
        TokenKind::Rbrace => "Rbrace",
        TokenKind::Function => "Function",
        TokenKind::Let => "Let",
        TokenKind::If => "If",
        TokenKind::Else => "Else",
        TokenKind::Return => "Return",
        TokenKind::True => "True",
        TokenKind::False => "False",
    }
}

/// Classification of an identifier's text: a keyword's dedicated kind, or
/// `Ident` for anything unrecognized.
pub open spec fn keyword_kind(name: Seq<char>) -> TokenKind {
    if name == "fn"@ {
        TokenKind::Function
    } else if name == "let"@ {
        TokenKind::Let
    } else if name == "if"@ {
        TokenKind::If
    } else if name == "else"@ {
        TokenKind::Else
    } else if name == "return"@ {
        TokenKind::Return
    } else if name == "true"@ {
        TokenKind::True
    } else if name == "false"@ {
        TokenKind::False
    } else {
        TokenKind::Ident
    }
}

/// Keyword recognition: maps an identifier's text to its keyword kind, and to
/// `Ident` for anything unrecognized.
pub fn lookup_ident(identifier: &String) -> (kind: TokenKind)
    ensures
        kind == keyword_kind(identifier@),
{
    if *identifier == String::from_str("fn") {
        TokenKind::Function
    } else if *identifier == String::from_str("let") {
        TokenKind::Let
    } else if *identifier == String::from_str("if") {
        TokenKind::If
    } else if *identifier == String::from_str("else") {
        TokenKind::Else
    } else if *identifier == String::from_str("return") {
        TokenKind::Return
    } else if *identifier == String::from_str("true") {
        TokenKind::True
    } else if *identifier == String::from_str("false") {
        TokenKind::False
    } else {
        TokenKind::Ident
    }
}

} // verus!
