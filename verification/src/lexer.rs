//! The lexer: source text to tokens, each with the span of bytes it was
//! read from.
//!
//! - A number is a run of decimal digits, and then, where a dot and a digit
//!   follow, the dot and the digits behind it.
//! - A string stands between two double quotes on one line; what is
//!   between them is taken as it is.
//! - An operator is a longest run of the characters `+ * - / ! =`.
//! - Each of `( ) [ ] { } ; ,` is a token of its own.
//! - A word is a letter or an underscore and the letters, digits and
//!   underscores behind it, all of them ASCII. The words `fn`, `let`,
//!   `print`, `if` and `else` are keywords, `true`, `false` and `null` are
//!   literals, and every other word is an identifier.
//! - ASCII white space and comments, from `//` to the end of the line,
//!   separate tokens and are skipped.
//!
//! A character that starts no token is recorded as an error and skipped,
//! and lexing goes on behind it, so that one pass finds every such
//! character.
//!
//! [`lex`] says which tokens and errors a text has; [`lexer`] computes them.

use vstd::prelude::*;
use vstd::string::StringSliceAdditionalSpecFns;
use vstd::utf8::{encode_utf8_valid_utf8, valid_utf8};
use crate::common::{
    errors_model, tokens_model, Error, ErrorKind, ErrorKindModel, ErrorModel, Span, Spanned, Token,
    TokenModel,
};
use crate::numbers::{reads_as, Numbers};
use crate::text::{after_ascii, boundary_at, slice, text_of};

verus! {

/// The kinds of byte that the lexer scans runs of.
#[derive(Clone, Copy, Debug, PartialEq, Eq, Structural)]
pub enum Class {
    /// A decimal digit.
    Digit,
    /// One of `+ * - / ! =`.
    Operator,
    /// A letter, a digit or an underscore.
    Word,
    /// Anything but a double quote or a line feed.
    StringBody,
    /// Anything but a line feed.
    LineBody,
    /// A byte that continues a character of several bytes.
    Continuation,
}

/// Whether byte `b` belongs to class `c`.
pub open spec fn in_class(c: Class, b: u8) -> bool {
    match c {
        Class::Digit => 0x30 <= b <= 0x39,
        Class::Operator => b == 0x2b || b == 0x2a || b == 0x2d || b == 0x2f || b == 0x21 || b
            == 0x3d,
        Class::Word => is_word_start(b) || 0x30 <= b <= 0x39,
        Class::StringBody => b != 0x22 && b != 0x0a,
        Class::LineBody => b != 0x0a,
        Class::Continuation => 0x80 <= b <= 0xbf,
    }
}

/// A letter or an underscore.
pub open spec fn is_word_start(b: u8) -> bool {
    (0x41 <= b <= 0x5a) || (0x61 <= b <= 0x7a) || b == 0x5f
}

/// One of `( ) [ ] { } ; ,`.
pub open spec fn is_ctrl(b: u8) -> bool {
    b == 0x28 || b == 0x29 || b == 0x5b || b == 0x5d || b == 0x7b || b == 0x7d || b == 0x3b || b
        == 0x2c
}

/// A space, a tab, a line feed, a vertical tab, a form feed or a carriage
/// return.
pub open spec fn is_space(b: u8) -> bool {
    b == 0x20 || (0x09 <= b <= 0x0d)
}

/// Decides [`in_class`].
pub fn class_has(c: Class, b: u8) -> (has: bool)
    ensures
        has == in_class(c, b),
{
    match c {
        Class::Digit => 0x30 <= b && b <= 0x39,
        Class::Operator => b == 0x2b || b == 0x2a || b == 0x2d || b == 0x2f || b == 0x21 || b
            == 0x3d,
        Class::Word => (0x41 <= b && b <= 0x5a) || (0x61 <= b && b <= 0x7a) || b == 0x5f || (0x30
            <= b && b <= 0x39),
        Class::StringBody => b != 0x22 && b != 0x0a,
        Class::LineBody => b != 0x0a,
        Class::Continuation => 0x80 <= b && b <= 0xbf,
    }
}

/// Where the run of bytes of class `c` that starts at `pos` ends: the
/// first place at or after `pos` whose byte is not of the class, or the
/// end of the text.
pub open spec fn run_end(bytes: Seq<u8>, pos: int, c: Class) -> int
    decreases bytes.len() - pos,
{
    if 0 <= pos < bytes.len() && in_class(c, bytes[pos]) {
        run_end(bytes, pos + 1, c)
    } else {
        pos
    }
}

/// A run ends at or after its start and within the text; every byte of it
/// is of the class, and the byte behind it is not.
pub proof fn run_end_bounds(bytes: Seq<u8>, pos: int, c: Class)
    requires
        0 <= pos <= bytes.len(),
    ensures
        pos <= run_end(bytes, pos, c) <= bytes.len(),
        forall|i: int| pos <= i < run_end(bytes, pos, c) ==> in_class(c, #[trigger] bytes[i]),
        run_end(bytes, pos, c) < bytes.len() ==> !in_class(c, bytes[run_end(bytes, pos, c)]),
    decreases bytes.len() - pos,
{
    if pos < bytes.len() && in_class(c, bytes[pos]) {
        run_end_bounds(bytes, pos + 1, c);
    }
}

/// Finds [`run_end`].
pub fn scan(bytes: &[u8], pos: usize, c: Class) -> (end: usize)
    requires
        pos <= bytes@.len(),
    ensures
        end == run_end(bytes@, pos as int, c),
        pos <= end <= bytes@.len(),
{
    let mut end: usize = pos;
    while end < bytes.len() && class_has(c, bytes[end])
        invariant
            pos <= end <= bytes@.len(),
            run_end(bytes@, pos as int, c) == run_end(bytes@, end as int, c),
        decreases bytes@.len() - end,
    {
        end += 1;
    }
    end
}

/// Whether a comment starts at `pos`: two slashes.
pub open spec fn starts_comment(bytes: Seq<u8>, pos: int) -> bool {
    0 <= pos && pos + 1 < bytes.len() && bytes[pos] == 0x2f && bytes[pos + 1] == 0x2f
}

/// Where the white space and comments that start at `pos` end. A comment
/// runs from two slashes to the end of its line.
pub open spec fn trivia_end(bytes: Seq<u8>, pos: int) -> int
    decreases bytes.len() - pos,
    via trivia_end_decreases
{
    if 0 <= pos < bytes.len() {
        if is_space(bytes[pos]) {
            trivia_end(bytes, pos + 1)
        } else if starts_comment(bytes, pos) {
            trivia_end(bytes, run_end(bytes, pos + 2, Class::LineBody))
        } else {
            pos
        }
    } else {
        pos
    }
}

#[via_fn]
proof fn trivia_end_decreases(bytes: Seq<u8>, pos: int) {
    if 0 <= pos < bytes.len() && !is_space(bytes[pos]) && starts_comment(bytes, pos) {
        run_end_bounds(bytes, pos + 2, Class::LineBody);
    }
}

/// White space and comments end at or after their start, within the text.
pub proof fn trivia_end_bounds(bytes: Seq<u8>, pos: int)
    requires
        0 <= pos <= bytes.len(),
    ensures
        pos <= trivia_end(bytes, pos) <= bytes.len(),
    decreases bytes.len() - pos,
{
    if pos < bytes.len() {
        if is_space(bytes[pos]) {
            trivia_end_bounds(bytes, pos + 1);
        } else if starts_comment(bytes, pos) {
            run_end_bounds(bytes, pos + 2, Class::LineBody);
            trivia_end_bounds(bytes, run_end(bytes, pos + 2, Class::LineBody));
        }
    }
}

/// Finds [`trivia_end`].
pub fn skip_trivia(bytes: &[u8], pos: usize) -> (end: usize)
    requires
        pos <= bytes@.len(),
    ensures
        end == trivia_end(bytes@, pos as int),
        pos <= end <= bytes@.len(),
{
    let mut end: usize = pos;
    loop
        invariant
            pos <= end <= bytes@.len(),
            trivia_end(bytes@, pos as int) == trivia_end(bytes@, end as int),
        decreases bytes@.len() - end,
    {
        if end >= bytes.len() {
            return end;
        }
        let b = bytes[end];
        if b == 0x20 || (0x09 <= b && b <= 0x0d) {
            end += 1;
        } else if b == 0x2f && end + 1 < bytes.len() && bytes[end + 1] == 0x2f {
            end = scan(bytes, end + 2, Class::LineBody);
        } else {
            return end;
        }
    }
}

/// Where the number that starts at `p` ends: digits, and then, where a
/// dot and a digit follow, the dot and the digits behind it.
pub open spec fn number_end(bytes: Seq<u8>, p: int) -> int {
    let whole = run_end(bytes, p + 1, Class::Digit);
    if whole + 1 < bytes.len() && bytes[whole] == 0x2e && in_class(Class::Digit, bytes[whole + 1]) {
        run_end(bytes, whole + 2, Class::Digit)
    } else {
        whole
    }
}

/// Where the double quote is that closes the string opened at `p`, if the
/// string is closed on its line.
pub open spec fn string_close(bytes: Seq<u8>, p: int) -> Option<int> {
    let close = run_end(bytes, p + 1, Class::StringBody);
    if close < bytes.len() && bytes[close] == 0x22 {
        Some(close)
    } else {
        None
    }
}

/// Where the token or the rejected character that starts at `p` ends.
pub open spec fn lexeme_end(bytes: Seq<u8>, p: int) -> int {
    let b = bytes[p];
    if in_class(Class::Digit, b) {
        number_end(bytes, p)
    } else if b == 0x22 {
        match string_close(bytes, p) {
            Some(close) => close + 1,
            None => p + 1,
        }
    } else if in_class(Class::Operator, b) {
        run_end(bytes, p + 1, Class::Operator)
    } else if is_ctrl(b) {
        p + 1
    } else if is_word_start(b) {
        run_end(bytes, p + 1, Class::Word)
    } else {
        run_end(bytes, p + 1, Class::Continuation)
    }
}

/// A lexeme ends behind its start and within the text.
pub proof fn lexeme_end_bounds(bytes: Seq<u8>, p: int)
    requires
        0 <= p < bytes.len(),
    ensures
        p < lexeme_end(bytes, p) <= bytes.len(),
{
    run_end_bounds(bytes, p + 1, Class::Digit);
    let whole = run_end(bytes, p + 1, Class::Digit);
    if whole + 2 <= bytes.len() {
        run_end_bounds(bytes, whole + 2, Class::Digit);
    }
    run_end_bounds(bytes, p + 1, Class::StringBody);
    run_end_bounds(bytes, p + 1, Class::Operator);
    run_end_bounds(bytes, p + 1, Class::Word);
    run_end_bounds(bytes, p + 1, Class::Continuation);
}

/// The token that a word spells: a keyword, a boolean, `null`, or else an
/// identifier.
pub open spec fn word_token(word: Seq<u8>) -> TokenModel {
    if word == "fn".spec_bytes() {
        TokenModel::Fn
    } else if word == "let".spec_bytes() {
        TokenModel::Let
    } else if word == "print".spec_bytes() {
        TokenModel::Print
    } else if word == "if".spec_bytes() {
        TokenModel::If
    } else if word == "else".spec_bytes() {
        TokenModel::Else
    } else if word == "true".spec_bytes() {
        TokenModel::Bool(true)
    } else if word == "false".spec_bytes() {
        TokenModel::Bool(false)
    } else if word == "null".spec_bytes() {
        TokenModel::Null
    } else {
        TokenModel::Ident(text_of(word, 0, word.len() as int))
    }
}

/// What stands at a place in the text: a token, or a reason why none does.
pub enum Lexeme {
    Token(TokenModel),
    Failure(ErrorKindModel),
}

/// What stands at `p`, where `p` is within the text and no white space or
/// comment starts there.
pub open spec fn lexeme(n: Numbers, bytes: Seq<u8>, p: int) -> Lexeme {
    let b = bytes[p];
    let end = lexeme_end(bytes, p);
    if in_class(Class::Digit, b) {
        match (n.read)(text_of(bytes, p, end)) {
            Some(value) => Lexeme::Token(TokenModel::Num(value)),
            None => Lexeme::Failure(ErrorKindModel::InvalidNumber),
        }
    } else if b == 0x22 {
        match string_close(bytes, p) {
            Some(close) => Lexeme::Token(TokenModel::Str(text_of(bytes, p + 1, close))),
            None => Lexeme::Failure(ErrorKindModel::LexError),
        }
    } else if in_class(Class::Operator, b) {
        Lexeme::Token(TokenModel::Op(text_of(bytes, p, end)))
    } else if is_ctrl(b) {
        Lexeme::Token(TokenModel::Ctrl(b as char))
    } else if is_word_start(b) {
        Lexeme::Token(word_token(bytes.subrange(p, end)))
    } else {
        Lexeme::Failure(ErrorKindModel::LexError)
    }
}

/// The tokens and the errors of a text, each in the order of the text.
pub struct Lexed {
    pub tokens: Seq<Spanned<TokenModel>>,
    pub errors: Seq<ErrorModel>,
}

/// The span from `start` up to `end`.
pub open spec fn span_of(start: int, end: int) -> Span {
    Span { start: start as usize, end: end as usize }
}

/// The tokens and errors of the text from `pos` on.
pub open spec fn lex_from(n: Numbers, bytes: Seq<u8>, pos: int) -> Lexed
    decreases bytes.len() - pos,
    via lex_from_decreases
{
    let p = trivia_end(bytes, pos);
    if 0 <= pos <= p < bytes.len() {
        let end = lexeme_end(bytes, p);
        let rest = lex_from(n, bytes, end);
        match lexeme(n, bytes, p) {
            Lexeme::Token(t) => Lexed {
                tokens: seq![(t, span_of(p, end))] + rest.tokens,
                errors: rest.errors,
            },
            Lexeme::Failure(kind) => Lexed {
                tokens: rest.tokens,
                errors: seq![ErrorModel { span: span_of(p, end), kind }] + rest.errors,
            },
        }
    } else {
        Lexed { tokens: Seq::empty(), errors: Seq::empty() }
    }
}

#[via_fn]
proof fn lex_from_decreases(n: Numbers, bytes: Seq<u8>, pos: int) {
    let p = trivia_end(bytes, pos);
    if 0 <= pos <= p < bytes.len() {
        lexeme_end_bounds(bytes, p);
    }
}

/// The tokens and errors of a text.
pub open spec fn lex(n: Numbers, bytes: Seq<u8>) -> Lexed {
    lex_from(n, bytes, 0)
}


/// Whether the bytes from `start` up to `end` are those of `word`.
pub fn spells(bytes: &[u8], start: usize, end: usize, word: &str) -> (same: bool)
    requires
        start <= end <= bytes@.len(),
    ensures
        same == (bytes@.subrange(start as int, end as int) == word.spec_bytes()),
{
    let letters = word.as_bytes();
    if letters.len() != end - start {
        return false;
    }
    let mut i: usize = 0;
    while i < letters.len()
        invariant
            start <= end <= bytes@.len(),
            letters@ == word.spec_bytes(),
            letters@.len() == end - start,
            i <= letters@.len(),
            forall|j: int| 0 <= j < i ==> bytes@[start + j] == letters@[j],
        decreases letters@.len() - i,
    {
        if bytes[start + i] != letters[i] {
            assert(bytes@.subrange(start as int, end as int)[i as int] != letters@[i as int]);
            return false;
        }
        i += 1;
    }
    assert(bytes@.subrange(start as int, end as int) =~= letters@);
    true
}

/// A stretch of text that starts and ends with an ASCII byte starts and
/// ends where characters start.
pub proof fn ascii_ends_are_boundaries(bytes: Seq<u8>, start: int, end: int)
    requires
        valid_utf8(bytes),
        0 <= start < end <= bytes.len(),
        bytes[start] < 0x80,
        bytes[end - 1] < 0x80,
    ensures
        vstd::utf8::is_char_boundary(bytes, start),
        vstd::utf8::is_char_boundary(bytes, end),
{
    boundary_at(bytes, start);
    if end < bytes.len() {
        after_ascii(bytes, end - 1);
    }
    boundary_at(bytes, end);
}

/// The token that the word from `start` up to `end` spells.
pub fn read_word(src: &str, bytes: &[u8], start: usize, end: usize) -> (token: Token)
    requires
        bytes@ == src.spec_bytes(),
        start < end <= bytes@.len(),
        bytes@[start as int] < 0x80,
        bytes@[end - 1] < 0x80,
    ensures
        token@ == word_token(bytes@.subrange(start as int, end as int)),
{
    if spells(bytes, start, end, "fn") {
        Token::Fn
    } else if spells(bytes, start, end, "let") {
        Token::Let
    } else if spells(bytes, start, end, "print") {
        Token::Print
    } else if spells(bytes, start, end, "if") {
        Token::If
    } else if spells(bytes, start, end, "else") {
        Token::Else
    } else if spells(bytes, start, end, "true") {
        Token::Bool(true)
    } else if spells(bytes, start, end, "false") {
        Token::Bool(false)
    } else if spells(bytes, start, end, "null") {
        Token::Null
    } else {
        proof {
            encode_utf8_valid_utf8(src@);
            ascii_ends_are_boundaries(bytes@, start as int, end as int);
            let word = bytes@.subrange(start as int, end as int);
            assert(word.subrange(0, word.len() as int) =~= word);
        }
        Token::Ident(slice(src, start, end).to_owned())
    }
}

/// Reads what stands at `p`: where it ends, and the token or the reason
/// why there is none.
pub fn read_lexeme<R: Fn(&str) -> Option<u64>>(src: &str, bytes: &[u8], p: usize, read: &R) -> (out:
    (usize, Result<Token, ErrorKind>))
    requires
        bytes@ == src.spec_bytes(),
        p < bytes@.len(),
        forall|text: &str| read.requires((text,)),
    ensures
        out.0 == lexeme_end(bytes@, p as int),
        p < out.0 <= bytes@.len(),
        forall|n: Numbers| #[trigger]
            reads_as(read, n) ==> match out.1 {
                Ok(token) => lexeme(n, bytes@, p as int) == Lexeme::Token(token@),
                Err(kind) => lexeme(n, bytes@, p as int) == Lexeme::Failure(kind@),
            },
{
    proof {
        encode_utf8_valid_utf8(src@);
        lexeme_end_bounds(bytes@, p as int);
    }
    let b = bytes[p];
    if class_has(Class::Digit, b) {
        let whole = scan(bytes, p + 1, Class::Digit);
        let end = if whole < bytes.len() && whole + 1 < bytes.len() && bytes[whole] == 0x2e && class_has(
            Class::Digit,
            bytes[whole + 1],
        ) {
            scan(bytes, whole + 2, Class::Digit)
        } else {
            whole
        };
        proof {
            run_end_bounds(bytes@, p + 1, Class::Digit);
            if whole + 2 <= bytes@.len() {
                run_end_bounds(bytes@, whole + 2, Class::Digit);
            }
            ascii_ends_are_boundaries(bytes@, p as int, end as int);
        }
        match read(slice(src, p, end)) {
            Some(value) => (end, Ok(Token::Num(value))),
            None => (end, Err(ErrorKind::InvalidNumber)),
        }
    } else if b == 0x22 {
        let close = scan(bytes, p + 1, Class::StringBody);
        if close < bytes.len() && bytes[close] == 0x22 {
            proof {
                after_ascii(bytes@, p as int);
                boundary_at(bytes@, p + 1);
                boundary_at(bytes@, close as int);
            }
            (close + 1, Ok(Token::Str(slice(src, p + 1, close).to_owned())))
        } else {
            (p + 1, Err(ErrorKind::LexError))
        }
    } else if class_has(Class::Operator, b) {
        let end = scan(bytes, p + 1, Class::Operator);
        proof {
            run_end_bounds(bytes@, p + 1, Class::Operator);
            ascii_ends_are_boundaries(bytes@, p as int, end as int);
        }
        (end, Ok(Token::Op(slice(src, p, end).to_owned())))
    } else if b == 0x28 || b == 0x29 || b == 0x5b || b == 0x5d || b == 0x7b || b == 0x7d || b
        == 0x3b || b == 0x2c {
        (p + 1, Ok(Token::Ctrl(b as char)))
    } else if (0x41 <= b && b <= 0x5a) || (0x61 <= b && b <= 0x7a) || b == 0x5f {
        let end = scan(bytes, p + 1, Class::Word);
        proof {
            run_end_bounds(bytes@, p + 1, Class::Word);
        }
        (end, Ok(read_word(src, bytes, p, end)))
    } else {
        (scan(bytes, p + 1, Class::Continuation), Err(ErrorKind::LexError))
    }
}

/// Lexes `src`: its tokens, each with its span, and the errors, as [`lex`]
/// says. `read` turns the text of a numeric literal into a number, or
/// refuses it.
pub fn lexer<R: Fn(&str) -> Option<u64>>(src: &str, read: &R) -> (out: (
    Vec<Spanned<Token>>,
    Vec<Error>,
))
    requires
        forall|text: &str| read.requires((text,)),
    ensures
        forall|n: Numbers| #[trigger]
            reads_as(read, n) ==> {
                &&& tokens_model(out.0@) == lex(n, src.spec_bytes()).tokens
                &&& errors_model(out.1@) == lex(n, src.spec_bytes()).errors
            },
{
    let bytes = src.as_bytes();
    let mut tokens: Vec<Spanned<Token>> = Vec::new();
    let mut errors: Vec<Error> = Vec::new();
    let mut pos: usize = 0;
    proof {
        assert(tokens_model(tokens@) =~= Seq::empty());
        assert(errors_model(errors@) =~= Seq::empty());
        assert forall|n: Numbers| #[trigger] reads_as(read, n) implies ({
            &&& lex(n, bytes@).tokens == tokens_model(tokens@) + lex_from(n, bytes@, 0).tokens
            &&& lex(n, bytes@).errors == errors_model(errors@) + lex_from(n, bytes@, 0).errors
        }) by {
            assert(lex(n, bytes@).tokens =~= Seq::empty() + lex_from(n, bytes@, 0).tokens);
            assert(lex(n, bytes@).errors =~= Seq::empty() + lex_from(n, bytes@, 0).errors);
        }
    }
    loop
        invariant
            bytes@ == src.spec_bytes(),
            pos <= bytes@.len(),
            forall|text: &str| read.requires((text,)),
            forall|n: Numbers| #[trigger]
                reads_as(read, n) ==> {
                    &&& lex(n, bytes@).tokens == tokens_model(tokens@) + lex_from(
                        n,
                        bytes@,
                        pos as int,
                    ).tokens
                    &&& lex(n, bytes@).errors == errors_model(errors@) + lex_from(
                        n,
                        bytes@,
                        pos as int,
                    ).errors
                },
        decreases bytes@.len() - pos,
    {
        let p = skip_trivia(bytes, pos);
        if p >= bytes.len() {
            proof {
                assert forall|n: Numbers| #[trigger] reads_as(read, n) implies ({
                    &&& tokens_model(tokens@) == lex(n, bytes@).tokens
                    &&& errors_model(errors@) == lex(n, bytes@).errors
                }) by {
                    assert(tokens_model(tokens@) + Seq::empty() =~= tokens_model(tokens@));
                    assert(errors_model(errors@) + Seq::empty() =~= errors_model(errors@));
                }
            }
            return (tokens, errors);
        }
        let (end, item) = read_lexeme(src, bytes, p, read);
        let span = Span { start: p, end };
        let ghost tokens_before = tokens@;
        let ghost errors_before = errors@;
        match item {
            Ok(token) => {
                tokens.push((token, span));
                proof {
                    assert(tokens_model(tokens@) =~= tokens_model(tokens_before).push(
                        (token@, span),
                    ));
                    assert forall|n: Numbers| #[trigger] reads_as(read, n) implies ({
                        &&& lex(n, bytes@).tokens == tokens_model(tokens@) + lex_from(
                            n,
                            bytes@,
                            end as int,
                        ).tokens
                        &&& lex(n, bytes@).errors == errors_model(errors@) + lex_from(
                            n,
                            bytes@,
                            end as int,
                        ).errors
                    }) by {
                        let rest = lex_from(n, bytes@, end as int);
                        assert(lex_from(n, bytes@, pos as int).tokens == seq![(token@, span)]
                            + rest.tokens);
                        assert(tokens_model(tokens_before) + (seq![(token@, span)] + rest.tokens)
                            =~= tokens_model(tokens@) + rest.tokens);
                    }
                }
            },
            Err(kind) => {
                let error = Error { span, kind };
                errors.push(error);
                proof {
                    assert(errors_model(errors@) =~= errors_model(errors_before).push(error@));
                    assert forall|n: Numbers| #[trigger] reads_as(read, n) implies ({
                        &&& lex(n, bytes@).tokens == tokens_model(tokens@) + lex_from(
                            n,
                            bytes@,
                            end as int,
                        ).tokens
                        &&& lex(n, bytes@).errors == errors_model(errors@) + lex_from(
                            n,
                            bytes@,
                            end as int,
                        ).errors
                    }) by {
                        let rest = lex_from(n, bytes@, end as int);
                        assert(lex_from(n, bytes@, pos as int).errors == seq![error@]
                            + rest.errors);
                        assert(errors_model(errors_before) + (seq![error@] + rest.errors)
                            =~= errors_model(errors@) + rest.errors);
                    }
                }
            },
        }
        pos = end;
    }
}

} // verus!
