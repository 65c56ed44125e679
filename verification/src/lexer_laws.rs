//! What holds of every lexed text, proved from the definition of
//! [`lex`](crate::lexer::lex).

use vstd::prelude::*;
use vstd::string::StringSliceAdditionalSpecFns;
use crate::common::TokenModel;
use crate::lexer::{
    in_class, lex, lex_from, lexeme, lexeme_end, lexeme_end_bounds, run_end, run_end_bounds,
    span_of, string_close, trivia_end, trivia_end_bounds, Class, Lexed, Lexeme,
};
use crate::numbers::Numbers;
use crate::text::text_of;

verus! {

/// A run that is known to hold only bytes of the class, with a byte of
/// another class or the end of the text behind it, ends there.
pub proof fn run_end_is(bytes: Seq<u8>, pos: int, end: int, c: Class)
    requires
        0 <= pos <= end <= bytes.len(),
        forall|i: int| pos <= i < end ==> in_class(c, #[trigger] bytes[i]),
        end < bytes.len() ==> !in_class(c, bytes[end]),
    ensures
        run_end(bytes, pos, c) == end,
    decreases end - pos,
{
    if pos < end {
        run_end_is(bytes, pos + 1, end, c);
    }
}

/// A text that is one numeric literal (digits, and then perhaps a dot and
/// more digits) lexes to exactly one token: the number that its text reads
/// as, spanning the whole text. `dot` is where the digits before the dot
/// end.
pub proof fn number_literal_is_one_token(n: Numbers, bytes: Seq<u8>, dot: int, value: u64)
    requires
        bytes.len() <= usize::MAX,
        0 < dot <= bytes.len(),
        forall|i: int| 0 <= i < dot ==> in_class(Class::Digit, #[trigger] bytes[i]),
        dot < bytes.len() ==> bytes[dot] == 0x2e && dot + 1 < bytes.len() && forall|i: int|
            dot < i < bytes.len() ==> in_class(Class::Digit, #[trigger] bytes[i]),
        (n.read)(text_of(bytes, 0, bytes.len() as int)) == Some(value),
    ensures
        lex(n, bytes) == (Lexed {
            tokens: seq![(TokenModel::Num(value), span_of(0, bytes.len() as int))],
            errors: Seq::empty(),
        }),
{
    let len = bytes.len() as int;
    assert(in_class(Class::Digit, bytes[0]));
    run_end_is(bytes, 1, dot, Class::Digit);
    if dot < len {
        assert(in_class(Class::Digit, bytes[dot + 1]));
        run_end_is(bytes, dot + 2, len, Class::Digit);
    }
    assert(lexeme_end(bytes, 0) == len);
    assert(trivia_end(bytes, 0) == 0);
    assert(trivia_end(bytes, len) == len);
    let rest = lex_from(n, bytes, len);
    assert(rest.tokens =~= Seq::empty());
    assert(rest.errors =~= Seq::empty());
    assert(lex(n, bytes).tokens =~= seq![(TokenModel::Num(value), span_of(0, len))]);
}

/// Every token's span covers exactly the bytes it was read from: the token
/// is what stands at the start of its span, and the span ends where that
/// lexeme ends. Spans lie within the text and follow each other without
/// overlap.
pub proof fn token_spans_cover_their_text(n: Numbers, bytes: Seq<u8>, pos: int, i: int)
    requires
        0 <= pos <= bytes.len() <= usize::MAX,
        0 <= i < lex_from(n, bytes, pos).tokens.len(),
    ensures
        ({
            let tokens = lex_from(n, bytes, pos).tokens;
            let span = tokens[i].1;
            &&& pos <= span.start < span.end <= bytes.len()
            &&& lexeme(n, bytes, span.start as int) == Lexeme::Token(tokens[i].0)
            &&& span.end == lexeme_end(bytes, span.start as int)
            &&& i + 1 < tokens.len() ==> span.end <= tokens[i + 1].1.start
        }),
    decreases bytes.len() - pos,
{
    trivia_end_bounds(bytes, pos);
    let p = trivia_end(bytes, pos);
    if p < bytes.len() {
        lexeme_end_bounds(bytes, p);
        let end = lexeme_end(bytes, p);
        let rest = lex_from(n, bytes, end);
        match lexeme(n, bytes, p) {
            Lexeme::Token(t) => {
                let tokens = lex_from(n, bytes, pos).tokens;
                assert(tokens =~= seq![(t, span_of(p, end))] + rest.tokens);
                if i == 0 {
                    if 1 < tokens.len() {
                        token_spans_cover_their_text(n, bytes, end, 0);
                        assert(tokens[1] == rest.tokens[0]);
                    }
                } else {
                    token_spans_cover_their_text(n, bytes, end, i - 1);
                    assert(tokens[i] == rest.tokens[i - 1]);
                    if i + 1 < tokens.len() {
                        assert(tokens[i + 1] == rest.tokens[i]);
                    }
                }
            },
            Lexeme::Failure(_) => {
                token_spans_cover_their_text(n, bytes, end, i);
            },
        }
    }
}


/// What it means that the bytes `text` spell `token`: a number is what the
/// text reads as; a string is the text between its two quotes; an
/// operator or an identifier is the text itself; a control character is
/// the one byte; a keyword, a boolean or `null` is written as such.
pub open spec fn spells(n: Numbers, text: Seq<u8>, token: TokenModel) -> bool {
    let len = text.len() as int;
    match token {
        TokenModel::Num(value) => (n.read)(text_of(text, 0, len)) == Some(value),
        TokenModel::Str(s) => len >= 2 && text[0] == 0x22 && text[len - 1] == 0x22 && s == text_of(
            text,
            1,
            len - 1,
        ),
        TokenModel::Op(s) => s == text_of(text, 0, len),
        TokenModel::Ident(s) => s == text_of(text, 0, len),
        TokenModel::Ctrl(c) => len == 1 && c == text[0] as char,
        TokenModel::Fn => text == "fn".spec_bytes(),
        TokenModel::Let => text == "let".spec_bytes(),
        TokenModel::Print => text == "print".spec_bytes(),
        TokenModel::If => text == "if".spec_bytes(),
        TokenModel::Else => text == "else".spec_bytes(),
        TokenModel::Bool(b) => text == if b {
            "true".spec_bytes()
        } else {
            "false".spec_bytes()
        },
        TokenModel::Null => text == "null".spec_bytes(),
    }
}

/// The bytes that a token's span covers spell the token.
pub proof fn tokens_are_spelled_by_their_spans(n: Numbers, bytes: Seq<u8>, i: int)
    requires
        bytes.len() <= usize::MAX,
        0 <= i < lex(n, bytes).tokens.len(),
    ensures
        ({
            let token = lex(n, bytes).tokens[i];
            &&& 0 <= token.1.start < token.1.end <= bytes.len()
            &&& spells(n, bytes.subrange(token.1.start as int, token.1.end as int), token.0)
        }),
{
    token_spans_cover_their_text(n, bytes, 0, i);
    let token = lex(n, bytes).tokens[i];
    let start = token.1.start as int;
    let end = token.1.end as int;
    let text = bytes.subrange(start, end);
    assert(text.subrange(0, text.len() as int) =~= text);
    if bytes[start] == 0x22 {
        run_end_bounds(bytes, start + 1, Class::StringBody);
        match string_close(bytes, start) {
            Some(close) => {
                assert(text.subrange(1, text.len() - 1) =~= bytes.subrange(start + 1, close));
            },
            None => {},
        }
    }
}

} // verus!
