//! Lexical tokens.
//!
//! The lexer is an external collaborator: the parser consumes an ordered
//! sequence of `Token` values ending in a designated end-of-input token and
//! treats it as an opaque product of scanning.

use vstd::prelude::*;
use vstd::string::StringExecFns;
use crate::object::{GObject, Object};

verus! {

/// The kind of a lexical token.
#[derive(Debug, Clone, Copy, PartialEq, Eq, Structural)]
pub enum TokenType {
    LeftParen,
    RightParen,
    LeftBrace,
    RightBrace,
    Comma,
    Dot,
    Minus,
    Plus,
    Semicolon,
    Slash,
    Star,
    Bang,
    BangEqual,
    Equal,
    EqualEqual,
    Greater,
    GreaterEqual,
    Less,
    LessEqual,
    Identifier,
    Str,
    Number,
    And,
    Break,
    Class,
    Else,
    False,
    Fun,
    For,
    If,
    Nil,
    Or,
    Print,
    Return,
    Super,
    This,
    True,
    Var,
    While,
    Eof,
}

/// A lexical token: kind, source text, optional literal value, source line.
/// Immutable once produced.
#[derive(Debug)]
pub struct Token {
    pub ttype: TokenType,
    pub lexeme: String,
    pub literal: Option<Object>,
    pub line: usize,
}

/// Ghost view of a token.
pub ghost struct GToken {
    pub ttype: TokenType,
    pub lexeme: Seq<char>,
    pub literal: Option<GObject>,
    pub line: nat,
}

/// Ghost view of an optional literal value.
pub open spec fn opt_obj_view(o: Option<Object>) -> Option<GObject> {
    match o {
        Some(v) => Some(v@),
        None => None,
    }
}

impl View for Token {
    type V = GToken;

    open spec fn view(&self) -> GToken {
        GToken {
            ttype: self.ttype,
            lexeme: self.lexeme@,
            literal: opt_obj_view(self.literal),
            line: self.line as nat,
        }
    }
}

impl Clone for Token {
    fn clone(&self) -> (r: Token)
        ensures
            r == *self,
    {
        Token {
            ttype: self.ttype,
            lexeme: self.lexeme.clone(),
            literal: match &self.literal {
                Some(o) => Some(o.clone()),
                None => None,
            },
            line: self.line,
        }
    }
}

impl Token {
    pub fn new(ttype: TokenType, lexeme: String, literal: Option<Object>, line: usize) -> (r: Token)
        ensures
            r == (Token { ttype, lexeme, literal, line }),
    {
        Token { ttype, lexeme, literal, line }
    }

    /// The designated end-of-input token.
    pub fn eof(line: usize) -> (r: Token)
        ensures
            r@ == (GToken {
                ttype: TokenType::Eof,
                lexeme: Seq::<char>::empty(),
                literal: None,
                line: line as nat,
            }),
    {
        Token::new(TokenType::Eof, String::new(), None, line)
    }
}

} // verus!
