//! The single result channel for everything that stops straight-line
//! execution: parse errors, runtime errors, and the two control signals.
//!
//! `break` and `return` are not user-visible errors; they travel through
//! the same channel and are consumed at the nearest loop and at the
//! function-call boundary respectively, before they could reach the user.
//! Reporting to the diagnostic sink is a side effect of the embedding
//! program, which formats and prints a `LoxResult` it receives.

use vstd::prelude::*;
use vstd::string::StringExecFns;
use crate::object::{GObject, Object};
use crate::ops::{dec_digits, usize_to_string};
use crate::token::{GToken, Token, TokenType};

verus! {

/// An error or control signal.
#[derive(Debug)]
pub enum LoxResult {
    /// Malformed syntax at a specific token; recovered from at statement
    /// granularity.
    ParseError { token: Token, message: String },
    /// A runtime error carrying the offending token.
    RuntimeError { token: Token, message: String },
    /// A runtime error known only by source line.
    GenericError { line: usize, message: String },
    /// A failure of the machinery itself rather than of the program, such
    /// as exhaustion of the evaluation budget.
    SystemError { message: String },
    /// Control signal: leave the innermost enclosing loop.
    Break,
    /// Control signal: return from the current function call.
    ReturnValue { value: Object },
}

/// Ghost view of an error or control signal.
pub ghost enum GLox {
    ParseError { token: GToken, message: Seq<char> },
    RuntimeError { token: GToken, message: Seq<char> },
    GenericError { line: nat, message: Seq<char> },
    SystemError { message: Seq<char> },
    Break,
    ReturnValue { value: GObject },
}

impl View for LoxResult {
    type V = GLox;

    open spec fn view(&self) -> GLox {
        match self {
            LoxResult::ParseError { token, message } => GLox::ParseError {
                token: token@,
                message: message@,
            },
            LoxResult::RuntimeError { token, message } => GLox::RuntimeError {
                token: token@,
                message: message@,
            },
            LoxResult::GenericError { line, message } => GLox::GenericError {
                line: *line as nat,
                message: message@,
            },
            LoxResult::SystemError { message } => GLox::SystemError { message: message@ },
            LoxResult::Break => GLox::Break,
            LoxResult::ReturnValue { value } => GLox::ReturnValue { value: value@ },
        }
    }
}

impl LoxResult {
    /// A runtime error known only by source line.
    pub fn new(line: usize, message: &str) -> (r: LoxResult)
        ensures
            r@ == (GLox::GenericError { line: line as nat, message: message@ }),
    {
        LoxResult::GenericError { line, message: String::from_str(message) }
    }

    /// A parse error at the given token.
    pub fn pares_error(token: Token, message: &str) -> (r: LoxResult)
        ensures
            r@ == (GLox::ParseError { token: token@, message: message@ }),
    {
        LoxResult::ParseError { token, message: String::from_str(message) }
    }

    /// A runtime error at the given token.
    pub fn runtime_error(token: &Token, message: &str) -> (r: LoxResult)
        ensures
            r@ == (GLox::RuntimeError { token: token@, message: message@ }),
    {
        LoxResult::RuntimeError { token: token.clone(), message: String::from_str(message) }
    }

    /// The `return` control signal carrying the returned value.
    pub fn return_value(value: Object) -> (r: LoxResult)
        ensures
            r == (LoxResult::ReturnValue { value }),
    {
        LoxResult::ReturnValue { value }
    }

    /// A failure of the machinery itself.
    pub fn system_error(message: &str) -> (r: LoxResult)
        ensures
            r@ == (GLox::SystemError { message: message@ }),
    {
        LoxResult::SystemError { message: String::from_str(message) }
    }

    /// The diagnostic line for this error: the source line and, when a
    /// token is at hand, the offending lexeme — or `at end` for the
    /// end-of-input token. The control signals are never user-visible and
    /// render to nothing; the embedding program prints the rest.
    pub fn render(&self) -> (r: String)
        ensures
            r@ == sp_report(self@),
    {
        match self {
            LoxResult::ParseError { token, message } => render_at(token, message),
            LoxResult::RuntimeError { token, message } => render_at(token, message),
            LoxResult::GenericError { line, message } => String::from_str("[line ").concat(
                usize_to_string(*line).as_str(),
            ).concat("] Error : ").concat(message.as_str()),
            LoxResult::SystemError { message } => String::from_str("Error: ").concat(
                message.as_str(),
            ),
            LoxResult::Break => String::new(),
            LoxResult::ReturnValue { .. } => String::new(),
        }
    }
}

/// The diagnostic line for an error at a token.
pub open spec fn sp_report_at(token: GToken, message: Seq<char>) -> Seq<char> {
    if token.ttype == TokenType::Eof {
        "[line "@ + dec_digits(token.line) + "] Error at end: "@ + message
    } else {
        "[line "@ + dec_digits(token.line) + "] Error at '"@ + token.lexeme + "': "@ + message
    }
}

/// The diagnostic line for an error or signal: what the sink prints, with
/// the control signals rendering to nothing.
pub open spec fn sp_report(g: GLox) -> Seq<char> {
    match g {
        GLox::ParseError { token, message } => sp_report_at(token, message),
        GLox::RuntimeError { token, message } => sp_report_at(token, message),
        GLox::GenericError { line, message } => "[line "@ + dec_digits(line) + "] Error : "@
            + message,
        GLox::SystemError { message } => "Error: "@ + message,
        GLox::Break => Seq::empty(),
        GLox::ReturnValue { .. } => Seq::empty(),
    }
}

/// Render the token-carrying diagnostic shape.
fn render_at(token: &Token, message: &String) -> (r: String)
    ensures
        r@ == sp_report_at(token@, message@),
{
    if token.ttype == TokenType::Eof {
        String::from_str("[line ").concat(usize_to_string(token.line).as_str()).concat(
            "] Error at end: ",
        ).concat(message.as_str())
    } else {
        String::from_str("[line ").concat(usize_to_string(token.line).as_str()).concat(
            "] Error at '",
        ).concat(token.lexeme.as_str()).concat("': ").concat(message.as_str())
    }
}

} // verus!
