//! The text of tokens and of errors, for reports.

use vstd::prelude::*;
use vstd::string::StringExecFns;
use crate::common::{
    Error, ErrorKind, ErrorKindModel, Expected, Kind, Token, TokenModel,
};
use crate::display::{display, display_value};
use crate::numbers::{shows_as, Numbers};
use crate::text::{decimal, decimal_text};

verus! {

/// The text of a token: a keyword or a literal as it is written, a number
/// as `n.show` writes it, a string without its quotes.
pub open spec fn token_text(n: Numbers, token: TokenModel) -> Seq<char> {
    match token {
        TokenModel::Null => "null"@,
        TokenModel::Bool(b) => if b {
            "true"@
        } else {
            "false"@
        },
        TokenModel::Num(x) => (n.show)(x),
        TokenModel::Str(s) => s,
        TokenModel::Op(s) => s,
        TokenModel::Ctrl(c) => seq![c],
        TokenModel::Ident(s) => s,
        TokenModel::Fn => "fn"@,
        TokenModel::Let => "let"@,
        TokenModel::Print => "print"@,
        TokenModel::If => "if"@,
        TokenModel::Else => "else"@,
    }
}

/// Writes a token out as [`token_text`] says, with `show` for a number.
pub fn display_token<S: Fn(u64) -> String>(token: &Token, show: &S) -> (text: String)
    requires
        forall|x: u64| show.requires((x,)),
    ensures
        forall|n: Numbers| #[trigger] shows_as(show, n) ==> text@ == token_text(n, token@),
{
    match token {
        Token::Null => String::from_str("null"),
        Token::Bool(b) => if *b {
            String::from_str("true")
        } else {
            String::from_str("false")
        },
        Token::Num(x) => show(*x),
        Token::Str(s) => s.clone(),
        Token::Op(s) => s.clone(),
        Token::Ctrl(c) => {
            let mut text = String::new();
            text.push(*c);
            assert(text@ =~= seq![*c]);
            text
        },
        Token::Ident(s) => s.clone(),
        Token::Fn => String::from_str("fn"),
        Token::Let => String::from_str("let"),
        Token::Print => String::from_str("print"),
        Token::If => String::from_str("if"),
        Token::Else => String::from_str("else"),
    }
}

/// What the parser was looking for, in words.
pub open spec fn expected_text(expected: Expected) -> Seq<char> {
    match expected {
        Expected::Expression => "an expression"@,
        Expected::Identifier => "an identifier"@,
        Expected::Function => "a function"@,
        Expected::Ctrl(c) => "'"@.push(c) + "'"@,
        Expected::Assign => "'='"@,
        Expected::Else => "'else'"@,
    }
}

/// The message of an error. Values are written as [`display`] writes them.
pub open spec fn message_text(n: Numbers, kind: ErrorKindModel) -> Seq<char> {
    match kind {
        ErrorKindModel::LexError => "Unexpected character"@,
        ErrorKindModel::InvalidNumber => "Invalid number"@,
        ErrorKindModel::SyntaxError(expected) => "Expected "@ + expected_text(expected),
        ErrorKindModel::DuplicateFunction(name) => "Function '"@ + name + "' already exists"@,
        ErrorKindModel::UnboundVariable(name) => "No such variable '"@ + name + "' in scope"@,
        ErrorKindModel::TypeMismatch { wanted, value } => match wanted {
            Kind::Number => "'"@ + display(n, value) + "' is not a number"@,
            Kind::Function => "'"@ + display(n, value) + "' is not callable"@,
            Kind::Boolean => "Conditions must be booleans, found '"@ + display(n, value) + "'"@,
        },
        ErrorKindModel::ArityMismatch { name, expected, found } => "'"@ + name
            + "' called with wrong number of arguments (expected "@ + decimal_text(expected as nat)
            + ", found "@ + decimal_text(found as nat) + ")"@,
        ErrorKindModel::UnknownFunction(name) => "No such function '"@ + name + "'"@,
        ErrorKindModel::DepthExceeded => "Calls are nested too deeply"@,
        ErrorKindModel::MissingEntryPoint => "Programs need a main function but none was found"@,
        ErrorKindModel::EntryPointHasArguments => "The main function cannot have arguments"@,
    }
}

/// Writes the message of an error as [`message_text`] says, with `show`
/// for the numbers in it.
pub fn message<S: Fn(u64) -> String>(error: &Error, show: &S) -> (text: String)
    requires
        forall|x: u64| show.requires((x,)),
    ensures
        forall|n: Numbers| #[trigger] shows_as(show, n) ==> text@ == message_text(n, error.kind@),
{
    match &error.kind {
        ErrorKind::LexError => String::from_str("Unexpected character"),
        ErrorKind::InvalidNumber => String::from_str("Invalid number"),
        ErrorKind::SyntaxError(expected) => {
            let mut text = String::from_str("Expected ");
            match expected {
                Expected::Expression => text.append("an expression"),
                Expected::Identifier => text.append("an identifier"),
                Expected::Function => text.append("a function"),
                Expected::Ctrl(c) => {
                    let mut quoted = String::from_str("'");
                    quoted.push(*c);
                    quoted.append("'");
                    text.append(quoted.as_str());
                },
                Expected::Assign => text.append("'='"),
                Expected::Else => text.append("'else'"),
            }
            text
        },
        ErrorKind::DuplicateFunction(name) => {
            let mut text = String::from_str("Function '");
            text.append(name.as_str());
            text.append("' already exists");
            text
        },
        ErrorKind::UnboundVariable(name) => {
            let mut text = String::from_str("No such variable '");
            text.append(name.as_str());
            text.append("' in scope");
            text
        },
        ErrorKind::TypeMismatch { wanted, value } => {
            let shown = display_value(value, show);
            match wanted {
                Kind::Number => {
                    let mut text = String::from_str("'");
                    text.append(shown.as_str());
                    text.append("' is not a number");
                    text
                },
                Kind::Function => {
                    let mut text = String::from_str("'");
                    text.append(shown.as_str());
                    text.append("' is not callable");
                    text
                },
                Kind::Boolean => {
                    let mut text = String::from_str("Conditions must be booleans, found '");
                    text.append(shown.as_str());
                    text.append("'");
                    text
                },
            }
        },
        ErrorKind::ArityMismatch { name, expected, found } => {
            let mut text = String::from_str("'");
            text.append(name.as_str());
            text.append("' called with wrong number of arguments (expected ");
            text.append(decimal(*expected).as_str());
            text.append(", found ");
            text.append(decimal(*found).as_str());
            text.append(")");
            text
        },
        ErrorKind::UnknownFunction(name) => {
            let mut text = String::from_str("No such function '");
            text.append(name.as_str());
            text.append("'");
            text
        },
        ErrorKind::DepthExceeded => String::from_str("Calls are nested too deeply"),
        ErrorKind::MissingEntryPoint => String::from_str(
            "Programs need a main function but none was found",
        ),
        ErrorKind::EntryPointHasArguments => String::from_str(
            "The main function cannot have arguments",
        ),
    }
}

} // verus!
