use interp::common::{Error, ErrorKind, Span, Token};
use interp::lexer::lexer;
use interp::message::display_token;

fn read(text: &str) -> Option<u64> {
    text.parse::<f64>().ok().map(f64::to_bits)
}

fn show(x: u64) -> String {
    format!("{}", f64::from_bits(x))
}

fn tokens(src: &str) -> Vec<Token> {
    let (tokens, errors) = lexer(src, &read);
    assert_eq!(errors, vec![]);
    tokens.into_iter().map(|(token, _)| token).collect()
}

fn num(x: f64) -> Token {
    Token::Num(x.to_bits())
}

fn ident(name: &str) -> Token {
    Token::Ident(name.to_string())
}

fn op(text: &str) -> Token {
    Token::Op(text.to_string())
}

#[test]
fn a_numeric_literal_is_one_number_token() {
    for text in ["0", "7", "42", "007", "3.14", "10.0", "0.5", "123456789.987654321"] {
        let (tokens, errors) = lexer(text, &read);
        assert_eq!(errors, vec![]);
        assert_eq!(
            tokens,
            vec![(Token::Num(text.parse::<f64>().unwrap().to_bits()), Span::new(0, text.len()))]
        );
    }
}

#[test]
fn a_number_the_reader_refuses_is_an_error_at_its_span() {
    let refuse = |_: &str| -> Option<u64> { None };
    let (tokens, errors) = lexer("x 12.5 y", &refuse);
    assert_eq!(errors, vec![Error { span: Span::new(2, 6), kind: ErrorKind::InvalidNumber }]);
    assert_eq!(
        tokens,
        vec![(ident("x"), Span::new(0, 1)), (ident("y"), Span::new(7, 8))]
    );
}

#[test]
fn the_reader_is_given_the_text_of_the_literal() {
    let length = |text: &str| -> Option<u64> { Some(text.len() as u64) };
    let (tokens, _) = lexer("1 22.5 333", &length);
    assert_eq!(
        tokens,
        vec![
            (Token::Num(1), Span::new(0, 1)),
            (Token::Num(4), Span::new(2, 6)),
            (Token::Num(3), Span::new(7, 10)),
        ]
    );
}

#[test]
fn a_dot_needs_digits_on_both_sides() {
    let (tokens, errors) = lexer("1. .5 1.5.2", &read);
    assert_eq!(
        tokens,
        vec![
            (num(1.0), Span::new(0, 1)),
            (num(5.0), Span::new(4, 5)),
            (num(1.5), Span::new(6, 9)),
            (num(2.0), Span::new(10, 11)),
        ]
    );
    assert_eq!(
        errors,
        vec![
            Error { span: Span::new(1, 2), kind: ErrorKind::LexError },
            Error { span: Span::new(3, 4), kind: ErrorKind::LexError },
            Error { span: Span::new(9, 10), kind: ErrorKind::LexError },
        ]
    );
}

#[test]
fn every_span_covers_its_token() {
    let src = "fn add(a, b) {\n  let s = \"sum\"; // note\n  print a+b != 3.5\n}";
    let (tokens, errors) = lexer(src, &read);
    assert_eq!(errors, vec![]);
    let mut last = 0;
    for (token, span) in &tokens {
        assert!(last <= span.start && span.start < span.end && span.end <= src.len());
        last = span.end;
        let text = &src[span.start..span.end];
        match token {
            Token::Str(s) => assert_eq!(text, format!("\"{}\"", s)),
            other => assert_eq!(text, display_token(other, &show)),
        }
    }
    assert_eq!(tokens.len(), 20);
}

#[test]
fn keywords_and_identifiers() {
    assert_eq!(
        tokens("fn let print if else true false null"),
        vec![
            Token::Fn,
            Token::Let,
            Token::Print,
            Token::If,
            Token::Else,
            Token::Bool(true),
            Token::Bool(false),
            Token::Null,
        ]
    );
    assert_eq!(
        tokens("fnx _let print2 If a_b_1 nulls"),
        vec![ident("fnx"), ident("_let"), ident("print2"), ident("If"), ident("a_b_1"), ident("nulls")]
    );
}

#[test]
fn a_run_of_operator_characters_is_one_token() {
    assert_eq!(tokens("a==b"), vec![ident("a"), op("=="), ident("b")]);
    assert_eq!(tokens("a = b != c"), vec![ident("a"), op("="), ident("b"), op("!="), ident("c")]);
    assert_eq!(tokens("2*-3"), vec![num(2.0), op("*-"), num(3.0)]);
    assert_eq!(tokens("+ - * / ! ="), vec![op("+"), op("-"), op("*"), op("/"), op("!"), op("=")]);
}

#[test]
fn control_characters_stand_alone() {
    assert_eq!(
        tokens("()[]{};,"),
        vec![
            Token::Ctrl('('),
            Token::Ctrl(')'),
            Token::Ctrl('['),
            Token::Ctrl(']'),
            Token::Ctrl('{'),
            Token::Ctrl('}'),
            Token::Ctrl(';'),
            Token::Ctrl(','),
        ]
    );
}

#[test]
fn strings_keep_their_text_as_it_is() {
    let (tokens, errors) = lexer("\"a\\n b\" \"\" \"héllo // wörld\"", &read);
    assert_eq!(errors, vec![]);
    assert_eq!(
        tokens,
        vec![
            (Token::Str("a\\n b".to_string()), Span::new(0, 7)),
            (Token::Str("".to_string()), Span::new(8, 10)),
            (Token::Str("héllo // wörld".to_string()), Span::new(11, 29)),
        ]
    );
}

#[test]
fn a_string_must_close_on_its_line() {
    let (tokens, errors) = lexer("\"abc\ndef\"", &read);
    assert_eq!(
        errors,
        vec![
            Error { span: Span::new(0, 1), kind: ErrorKind::LexError },
            Error { span: Span::new(8, 9), kind: ErrorKind::LexError },
        ]
    );
    assert_eq!(tokens, vec![(ident("abc"), Span::new(1, 4)), (ident("def"), Span::new(5, 8))]);
}

#[test]
fn comments_and_white_space_are_skipped() {
    assert_eq!(tokens("  a // b c\n\t// only a comment\r\n d//"), vec![ident("a"), ident("d")]);
    assert_eq!(tokens(""), vec![]);
    assert_eq!(tokens("   \n // nothing"), vec![]);
    assert_eq!(tokens("a / b"), vec![ident("a"), op("/"), ident("b")]);
    assert_eq!(tokens("a +// b"), vec![ident("a"), op("+//"), ident("b")]);
}

#[test]
fn a_character_that_starts_no_token_is_skipped_whole() {
    let (tokens, errors) = lexer("a é b 😀c $", &read);
    assert_eq!(
        tokens,
        vec![(ident("a"), Span::new(0, 1)), (ident("b"), Span::new(5, 6)), (ident("c"), Span::new(11, 12))]
    );
    assert_eq!(
        errors,
        vec![
            Error { span: Span::new(2, 4), kind: ErrorKind::LexError },
            Error { span: Span::new(7, 11), kind: ErrorKind::LexError },
            Error { span: Span::new(13, 14), kind: ErrorKind::LexError },
        ]
    );
}

#[test]
fn tokens_are_written_as_they_are_read() {
    assert_eq!(display_token(&Token::Null, &show), "null");
    assert_eq!(display_token(&Token::Bool(true), &show), "true");
    assert_eq!(display_token(&Token::Bool(false), &show), "false");
    assert_eq!(display_token(&num(2.5), &show), "2.5");
    assert_eq!(display_token(&Token::Str("a b".to_string()), &show), "a b");
    assert_eq!(display_token(&op("=="), &show), "==");
    assert_eq!(display_token(&Token::Ctrl('{'), &show), "{");
    assert_eq!(display_token(&Token::Ctrl('é'), &show), "é");
    assert_eq!(display_token(&ident("x1"), &show), "x1");
    assert_eq!(display_token(&Token::Fn, &show), "fn");
    assert_eq!(display_token(&Token::Let, &show), "let");
    assert_eq!(display_token(&Token::Print, &show), "print");
    assert_eq!(display_token(&Token::If, &show), "if");
    assert_eq!(display_token(&Token::Else, &show), "else");
}
