use interp::common::{BinaryOp, Error, ErrorKind, Expected, Expr, Func, Span, Spanned, Value};
use interp::funcs::FuncTable;
use interp::lexer::lexer;
use interp::parser::{funcs_parser, parse_expr};

fn read(text: &str) -> Option<u64> {
    text.parse::<f64>().ok().map(f64::to_bits)
}

fn show(x: u64) -> String {
    format!("{}", f64::from_bits(x))
}

fn parse(src: &str) -> (FuncTable, Vec<Error>) {
    let (tokens, errors) = lexer(src, &read);
    assert_eq!(errors, vec![]);
    funcs_parser(&tokens, Span::new(src.len(), src.len()))
}

fn expr(src: &str) -> (Spanned<Expr>, usize, Vec<Error>) {
    let (tokens, errors) = lexer(src, &read);
    assert_eq!(errors, vec![]);
    let mut errors = Vec::new();
    let (expr, next) = parse_expr(&tokens, Span::new(src.len(), src.len()), 0, &mut errors);
    (expr, next, errors)
}

/// The shape of an expression, without its spans.
fn shape(e: &Spanned<Expr>) -> String {
    let list = |items: &Vec<Spanned<Expr>>| items.iter().map(shape).collect::<Vec<_>>().join(" ");
    match &e.0 {
        Expr::Error => "<error>".to_string(),
        Expr::Value(Value::Null) => "null".to_string(),
        Expr::Value(Value::Bool(b)) => b.to_string(),
        Expr::Value(Value::Num(x)) => show(*x),
        Expr::Value(Value::Str(s)) => format!("{:?}", s),
        Expr::Value(_) => "<value>".to_string(),
        Expr::List(items) => format!("[{}]", list(items)),
        Expr::Local(name) => name.clone(),
        Expr::Let(name, value, body) => format!("(let {} {} {})", name, shape(value), shape(body)),
        Expr::Then(a, b) => format!("(then {} {})", shape(a), shape(b)),
        Expr::Binary(a, op, b) => {
            let op = match op {
                BinaryOp::Add => "+",
                BinaryOp::Sub => "-",
                BinaryOp::Mul => "*",
                BinaryOp::Div => "/",
                BinaryOp::Eq => "==",
                BinaryOp::NotEq => "!=",
            };
            format!("({} {} {})", op, shape(a), shape(b))
        }
        Expr::Call(f, args) => format!("(call {} [{}])", shape(f), list(args)),
        Expr::If(c, a, b) => format!("(if {} {} {})", shape(c), shape(a), shape(b)),
        Expr::Print(a) => format!("(print {})", shape(a)),
    }
}

fn shape_of(src: &str) -> String {
    let (e, next, errors) = expr(src);
    assert_eq!(errors, vec![]);
    let (tokens, _) = lexer(src, &read);
    assert_eq!(next, tokens.len());
    shape(&e)
}

fn syntax(start: usize, end: usize, expected: Expected) -> Error {
    Error { span: Span::new(start, end), kind: ErrorKind::SyntaxError(expected) }
}

#[test]
fn operators_bind_by_their_level_and_to_the_left() {
    assert_eq!(shape_of("1 + 2 * 3"), "(+ 1 (* 2 3))");
    assert_eq!(shape_of("1 * 2 + 3"), "(+ (* 1 2) 3)");
    assert_eq!(shape_of("1 - 2 - 3"), "(- (- 1 2) 3)");
    assert_eq!(shape_of("8 / 4 * 2"), "(* (/ 8 4) 2)");
    assert_eq!(shape_of("1 + 2 == 3 * 1"), "(== (+ 1 2) (* 3 1))");
    assert_eq!(shape_of("a == b != c"), "(!= (== a b) c)");
    assert_eq!(shape_of("(1 + 2) * 3"), "(* (+ 1 2) 3)");
}

#[test]
fn calls_bind_tightest_and_repeat() {
    assert_eq!(shape_of("f()"), "(call f [])");
    assert_eq!(shape_of("f(1, g(2), 3,)"), "(call f [1 (call g [2]) 3])");
    assert_eq!(shape_of("f(1)(2)"), "(call (call f [1]) [2])");
    assert_eq!(shape_of("1 + f(2) * 3"), "(+ 1 (* (call f [2]) 3))");
    assert_eq!(shape_of("(f)(x; y)"), "(call f [(then x y)])");
}

#[test]
fn atoms() {
    assert_eq!(shape_of("null"), "null");
    assert_eq!(shape_of("true"), "true");
    assert_eq!(shape_of("false"), "false");
    assert_eq!(shape_of("2.5"), "2.5");
    assert_eq!(shape_of("\"a b\""), "\"a b\"");
    assert_eq!(shape_of("name"), "name");
    assert_eq!(shape_of("[]"), "[]");
    assert_eq!(shape_of("[1, [2, 3], x,]"), "[1 [2 3] x]");
    assert_eq!(shape_of("((x))"), "x");
}

#[test]
fn print_takes_an_operator_expression() {
    assert_eq!(shape_of("print x + 3"), "(print (+ x 3))");
    assert_eq!(shape_of("print 1; 2"), "(then (print 1) 2)");
    assert_eq!(shape_of("1 + print 2 * 3"), "(+ 1 (print (* 2 3)))");
    assert_eq!(shape_of("print print 1"), "(print (print 1))");
}

#[test]
fn an_if_has_both_branches() {
    assert_eq!(shape_of("if a == 1 { b } else { c; d }"), "(if (== a 1) b (then c d))");
    assert_eq!(
        shape_of("if a { if b { 1 } else { 2 } } else { 3 } + 4"),
        "(+ (if a (if b 1 2) 3) 4)"
    );
}

#[test]
fn a_let_binds_in_the_rest_of_the_block() {
    assert_eq!(shape_of("let x = 1; x"), "(let x 1 x)");
    assert_eq!(shape_of("let x = 1 + 2; let y = x; x * y"), "(let x (+ 1 2) (let y x (* x y)))");
    assert_eq!(shape_of("a; let x = 1; b; c"), "(then a (let x 1 (then b c)))");
}

#[test]
fn a_sequence_nests_to_the_right_and_may_end_with_a_semicolon() {
    assert_eq!(shape_of("a; b; c"), "(then a (then b c))");
    assert_eq!(shape_of("a;"), "(then a null)");
    assert_eq!(shape_of("[a;, b]"), "[(then a null) b]");
}

#[test]
fn every_node_has_its_span() {
    let (e, _, errors) = expr("let x = 12; f(x, [1]) + 3");
    assert_eq!(errors, vec![]);
    assert_eq!(e.1, Span::new(0, 25));
    let Expr::Let(name, value, body) = e.0 else { panic!() };
    assert_eq!(name, "x");
    assert_eq!(*value, (Expr::Value(Value::Num(12f64.to_bits())), Span::new(8, 10)));
    assert_eq!(body.1, Span::new(12, 25));
    let Expr::Binary(call, BinaryOp::Add, three) = body.0 else { panic!() };
    assert_eq!(three.1, Span::new(24, 25));
    assert_eq!(call.1, Span::new(12, 21));
    let Expr::Call(f, args) = call.0 else { panic!() };
    assert_eq!(*f, (Expr::Local("f".to_string()), Span::new(12, 13)));
    assert_eq!(args[0], (Expr::Local("x".to_string()), Span::new(14, 15)));
    assert_eq!(
        args[1],
        (Expr::List(vec![(Expr::Value(Value::Num(1f64.to_bits())), Span::new(18, 19))]), Span::new(17, 20))
    );

    let (e, _, _) = expr("a ;");
    assert_eq!(e.1, Span::new(0, 3));
    let Expr::Then(_, nothing) = e.0 else { panic!() };
    assert_eq!(*nothing, (Expr::Value(Value::Null), Span::new(3, 3)));

    let (e, _, _) = expr("if c { 1 } else { 2 }");
    assert_eq!(e.1, Span::new(0, 21));
    let (e, _, _) = expr("print  x");
    assert_eq!(e.1, Span::new(0, 8));
}

#[test]
fn a_missing_operand_is_an_error_node() {
    let (e, next, errors) = expr("1 + ; 2");
    assert_eq!(shape(&e), "(then (+ 1 <error>) 2)");
    assert_eq!(next, 4);
    assert_eq!(errors, vec![syntax(4, 5, Expected::Expression)]);
    let Expr::Then(sum, _) = e.0 else { panic!() };
    let Expr::Binary(_, _, missing) = sum.0 else { panic!() };
    assert_eq!(*missing, (Expr::Error, Span::new(4, 4)));
}

#[test]
fn reading_goes_on_at_the_next_semicolon() {
    let (e, _, errors) = expr("let = 5 (x; y); let z 3; z");
    assert_eq!(shape(&e), "(then <error> (then <error> z))");
    assert_eq!(errors, vec![syntax(4, 5, Expected::Identifier), syntax(22, 23, Expected::Assign)]);
    let Expr::Then(first, _) = e.0 else { panic!() };
    assert_eq!(first.1, Span::new(0, 14));
}

#[test]
fn an_unclosed_group_is_an_error_node_up_to_its_closer() {
    let (e, next, errors) = expr("[1 2, (3)] + 4; 5");
    assert_eq!(shape(&e), "(then (+ <error> 4) 5)");
    assert_eq!(next, 12);
    assert_eq!(errors, vec![syntax(3, 4, Expected::Ctrl(']'))]);
    let Expr::Then(sum, _) = e.0 else { panic!() };
    let Expr::Binary(list, _, _) = sum.0 else { panic!() };
    assert_eq!(*list, (Expr::Error, Span::new(0, 10)));

    // A delimiter that is never closed takes what follows up to the `;`.
    let (e, _, errors) = expr("[1 2, (3] + 4; 5");
    assert_eq!(shape(&e), "(then <error> 5)");
    assert_eq!(errors, vec![syntax(3, 4, Expected::Ctrl(']'))]);

    let (e, _, errors) = expr("f(1 2) + 3");
    assert_eq!(shape(&e), "(+ <error> 3)");
    assert_eq!(errors, vec![syntax(4, 5, Expected::Ctrl(')'))]);

    let (e, _, errors) = expr("(1 2) * 3");
    assert_eq!(shape(&e), "(* <error> 3)");
    assert_eq!(errors, vec![syntax(3, 4, Expected::Ctrl(')'))]);
}

#[test]
fn an_if_without_its_parts_is_an_error_node() {
    let (e, _, errors) = expr("if a b");
    assert_eq!(shape(&e), "<error>");
    assert_eq!(errors, vec![syntax(5, 6, Expected::Ctrl('{'))]);
    let (e, _, errors) = expr("if a { b c }; d");
    assert_eq!(shape(&e), "(then <error> d)");
    assert_eq!(errors, vec![syntax(9, 10, Expected::Ctrl('}'))]);
    let (e, _, errors) = expr("if a { b } else c");
    assert_eq!(shape(&e), "<error>");
    assert_eq!(errors, vec![syntax(16, 17, Expected::Ctrl('{'))]);
    let (e, _, errors) = expr("if a { b } else { c");
    assert_eq!(shape(&e), "<error>");
    assert_eq!(errors, vec![syntax(19, 19, Expected::Ctrl('}'))]);
}

#[test]
fn a_let_needs_a_semicolon_and_a_body() {
    let (e, _, errors) = expr("let x = 1");
    assert_eq!(shape(&e), "<error>");
    assert_eq!(errors, vec![syntax(9, 9, Expected::Ctrl(';'))]);
    let (e, _, errors) = expr("let x = 1;");
    assert_eq!(shape(&e), "(let x 1 <error>)");
    assert_eq!(errors, vec![syntax(10, 10, Expected::Expression)]);
}

#[test]
fn what_cannot_start_an_expression_is_an_error() {
    for src in ["", ")", "else", "fn", "+ 1", "}", ","] {
        let (e, _, errors) = expr(src);
        assert_eq!(shape(&e), "<error>");
        assert_eq!(errors.len(), 1);
        assert_eq!(errors[0].kind, ErrorKind::SyntaxError(Expected::Expression));
    }
}

#[test]
fn functions_are_declared_with_their_parameters() {
    let (funcs, errors) = parse("fn zero() { 0 } fn one(a) { a } fn two(a, b,) { a + b }");
    assert_eq!(errors, vec![]);
    assert_eq!(funcs.entries.len(), 3);
    let zero = funcs.get("zero").unwrap();
    assert_eq!(
        *zero,
        Func {
            args: vec![],
            span: Span::new(0, 9),
            body: (Expr::Value(Value::Num(0f64.to_bits())), Span::new(12, 13)),
        }
    );
    let one = funcs.get("one").unwrap();
    assert_eq!(one.args, vec!["a".to_string()]);
    assert_eq!(one.span, Span::new(16, 25));
    let two = funcs.get("two").unwrap();
    assert_eq!(two.args, vec!["a".to_string(), "b".to_string()]);
    assert_eq!(shape(&two.body), "(+ a b)");
}

#[test]
fn an_empty_program_has_no_functions() {
    let (funcs, errors) = parse("  // nothing here\n");
    assert_eq!(errors, vec![]);
    assert!(funcs.entries.is_empty());
}

#[test]
fn a_bad_header_drops_the_declaration() {
    let (funcs, errors) = parse("fn (a) { 1 } fn b a { 2 } fn c(1) { 3 } fn d() 4 fn e() { 5 }");
    assert_eq!(
        errors,
        vec![
            syntax(3, 4, Expected::Identifier),
            syntax(18, 19, Expected::Ctrl('(')),
            syntax(31, 32, Expected::Ctrl(')')),
            syntax(47, 48, Expected::Ctrl('{')),
        ]
    );
    assert_eq!(funcs.entries.len(), 1);
    assert!(funcs.contains_key("e"));
}

#[test]
fn a_body_that_does_not_end_keeps_the_function() {
    let (funcs, errors) = parse("fn a() { 1 2 } fn b() { 3 }");
    assert_eq!(errors, vec![syntax(11, 12, Expected::Ctrl('}'))]);
    assert_eq!(shape(&funcs.get("a").unwrap().body), "1");
    assert_eq!(shape(&funcs.get("b").unwrap().body), "3");
}

#[test]
fn errors_come_in_the_order_of_the_text() {
    let (_, errors) = parse("fn f() { ( } fn f() { 1 } x fn g( { }");
    assert_eq!(
        errors,
        vec![
            syntax(11, 12, Expected::Expression),
            syntax(11, 12, Expected::Ctrl(')')),
            Error { span: Span::new(16, 17), kind: ErrorKind::DuplicateFunction("f".to_string()) },
            syntax(26, 27, Expected::Function),
            syntax(34, 35, Expected::Ctrl(')')),
        ]
    );
}
