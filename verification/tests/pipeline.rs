use interp::common::{BinaryOp, Error, ErrorKind, Expected, Kind, Span, Token, Value};
use interp::funcs::FuncTable;
use interp::lexer::lexer;
use interp::parser::funcs_parser;
use interp::runner::eval_expr;

fn read(text: &str) -> Option<u64> {
    text.parse::<f64>().ok().map(f64::to_bits)
}

fn arith(op: BinaryOp, a: u64, b: u64) -> u64 {
    let (x, y) = (f64::from_bits(a), f64::from_bits(b));
    match op {
        BinaryOp::Add => (x + y).to_bits(),
        BinaryOp::Sub => (x - y).to_bits(),
        BinaryOp::Mul => (x * y).to_bits(),
        BinaryOp::Div => (x / y).to_bits(),
        BinaryOp::Eq | BinaryOp::NotEq => unreachable!(),
    }
}

fn show(x: u64) -> String {
    format!("{}", f64::from_bits(x))
}

fn num(x: f64) -> Value {
    Value::Num(x.to_bits())
}

fn parse(src: &str) -> (FuncTable, Vec<Error>) {
    let (tokens, mut errors) = lexer(src, &read);
    let (funcs, more) = funcs_parser(&tokens, Span::new(src.len(), src.len()));
    errors.extend(more);
    (funcs, errors)
}

fn run(src: &str) -> (Result<Value, Error>, Vec<String>) {
    let (funcs, errors) = parse(src);
    assert_eq!(errors, vec![]);
    let main = funcs.get("main").unwrap();
    assert_eq!(main.args.len(), 0);
    let mut out = Vec::new();
    let mut stack = Vec::new();
    let result = eval_expr(&main.body, &funcs, &mut stack, 100, &arith, &show, &mut out);
    assert!(stack.is_empty());
    (result, out)
}

#[test]
fn prints_five_and_returns_five() {
    let (result, out) =
        run("fn main() { let x = 2; if x == 2 { print x + 3 } else { print 0 } }");
    assert_eq!(result, Ok(num(5.0)));
    assert_eq!(out, vec!["5".to_string()]);
}

#[test]
fn too_many_arguments_is_an_arity_mismatch() {
    let (result, out) = run("fn add(a,b) { a + b } fn main() { add(1,2,3) }");
    let error = result.unwrap_err();
    assert_eq!(
        error.kind,
        ErrorKind::ArityMismatch { name: "add".to_string(), expected: 2, found: 3 }
    );
    assert_eq!(error.span, Span::new(34, 44));
    assert!(out.is_empty());
}

#[test]
fn arity_is_checked_before_the_arguments_are_evaluated() {
    let (result, out) = run("fn f(a) { a } fn main() { f(print 1, nothing) }");
    assert_eq!(
        result.unwrap_err().kind,
        ErrorKind::ArityMismatch { name: "f".to_string(), expected: 1, found: 2 }
    );
    assert!(out.is_empty());
}

#[test]
fn two_bad_characters_are_two_lex_errors() {
    let (tokens, errors) = lexer("fn main() { 1 @ }\nfn other() { # 2 }", &read);
    assert_eq!(
        errors,
        vec![
            Error { span: Span::new(14, 15), kind: ErrorKind::LexError },
            Error { span: Span::new(31, 32), kind: ErrorKind::LexError },
        ]
    );
    assert_eq!(tokens.len(), 14);
    assert_eq!(tokens[5], (Token::Num(1f64.to_bits()), Span::new(12, 13)));
    assert_eq!(tokens[12], (Token::Num(2f64.to_bits()), Span::new(33, 34)));
}

#[test]
fn a_function_does_not_see_its_callers_variables() {
    let (result, _) = run("fn f() { x } fn main() { let x = 5; f() }");
    assert_eq!(
        result,
        Err(Error { span: Span::new(9, 10), kind: ErrorKind::UnboundVariable("x".to_string()) })
    );
}

#[test]
fn arguments_are_evaluated_in_the_callers_scope() {
    let (result, _) = run("fn f(y) { y * 2 } fn main() { let x = 5; f(x + 1) }");
    assert_eq!(result, Ok(num(12.0)));
}

#[test]
fn a_number_never_equals_a_boolean() {
    let (result, _) = run("fn main() { 1 == true }");
    assert_eq!(result, Ok(Value::Bool(false)));
    let (result, _) = run("fn main() { 1 != true }");
    assert_eq!(result, Ok(Value::Bool(true)));
}

#[test]
fn lists_are_equal_item_by_item() {
    assert_eq!(run("fn main() { [1] == [1] }").0, Ok(Value::Bool(true)));
    assert_eq!(run("fn main() { [1, 2] == [1] }").0, Ok(Value::Bool(false)));
    assert_eq!(run("fn main() { [1, [2, \"a\"]] == [1, [2, \"a\"]] }").0, Ok(Value::Bool(true)));
    assert_eq!(run("fn main() { [1, [2, \"a\"]] != [1, [2, \"b\"]] }").0, Ok(Value::Bool(true)));
}

#[test]
fn let_binds_only_in_its_body() {
    let (result, _) = run("fn main() { (let x = 1; x + 1) + 10 }");
    assert_eq!(result, Ok(num(12.0)));
    let (result, _) = run("fn main() { [(let x = 1; x), x] }");
    assert_eq!(result.unwrap_err().kind, ErrorKind::UnboundVariable("x".to_string()));
}

#[test]
fn the_innermost_binding_wins() {
    let (result, _) = run("fn main() { let x = 1; let x = 2; x }");
    assert_eq!(result, Ok(num(2.0)));
}

#[test]
fn the_stack_is_restored_after_a_failure() {
    let (funcs, errors) = parse("fn main() { let x = 1; x + true }");
    assert_eq!(errors, vec![]);
    let main = funcs.get("main").unwrap();
    let mut stack = vec![("y".to_string(), Value::Null)];
    let mut out = Vec::new();
    let result = eval_expr(&main.body, &funcs, &mut stack, 10, &arith, &show, &mut out);
    assert_eq!(
        result.unwrap_err().kind,
        ErrorKind::TypeMismatch { wanted: Kind::Number, value: Value::Bool(true) }
    );
    assert_eq!(stack, vec![("y".to_string(), Value::Null)]);
}

#[test]
fn arithmetic_follows_the_usual_precedence() {
    assert_eq!(run("fn main() { 1 + 2 * 3 }").0, Ok(num(7.0)));
    assert_eq!(run("fn main() { (1 + 2) * 3 }").0, Ok(num(9.0)));
    assert_eq!(run("fn main() { 10 - 4 - 3 }").0, Ok(num(3.0)));
    assert_eq!(run("fn main() { 8 / 4 / 2 }").0, Ok(num(1.0)));
    assert_eq!(run("fn main() { 1 + 1 == 2 }").0, Ok(Value::Bool(true)));
    assert_eq!(run("fn main() { 0.5 + 0.25 }").0, Ok(num(0.75)));
}

#[test]
fn division_by_zero_is_not_an_error() {
    assert_eq!(run("fn main() { 1 / 0 }").0, Ok(num(f64::INFINITY)));
    assert_eq!(run("fn main() { 0 - 1 / 0 }").0, Ok(num(f64::NEG_INFINITY)));
    assert_eq!(run("fn main() { 0 / 0 == 0 / 0 }").0, Ok(Value::Bool(false)));
    assert_eq!(run("fn main() { 0 == 0 * (0 - 1) }").0, Ok(Value::Bool(true)));
}

#[test]
fn a_non_number_operand_is_a_type_mismatch_at_its_span() {
    let (result, _) = run("fn main() { 1 + \"a\" }");
    assert_eq!(
        result,
        Err(Error {
            span: Span::new(16, 19),
            kind: ErrorKind::TypeMismatch { wanted: Kind::Number, value: Value::Str("a".to_string()) },
        })
    );
    let (result, out) = run("fn main() { null * print 2 }");
    assert_eq!(
        result,
        Err(Error {
            span: Span::new(12, 16),
            kind: ErrorKind::TypeMismatch { wanted: Kind::Number, value: Value::Null },
        })
    );
    assert!(out.is_empty());
}

#[test]
fn a_condition_must_be_a_boolean() {
    let (result, _) = run("fn main() { if 1 { 2 } else { 3 } }");
    assert_eq!(
        result,
        Err(Error {
            span: Span::new(15, 16),
            kind: ErrorKind::TypeMismatch { wanted: Kind::Boolean, value: num(1.0) },
        })
    );
}

#[test]
fn only_the_chosen_branch_is_evaluated() {
    let (result, out) = run("fn main() { if false { print 1 } else { print 2 } }");
    assert_eq!(result, Ok(num(2.0)));
    assert_eq!(out, vec!["2".to_string()]);
}

#[test]
fn only_functions_can_be_called() {
    let (result, _) = run("fn main() { let f = 3; f(1) }");
    assert_eq!(
        result,
        Err(Error {
            span: Span::new(23, 24),
            kind: ErrorKind::TypeMismatch { wanted: Kind::Function, value: num(3.0) },
        })
    );
}

#[test]
fn a_function_is_a_value() {
    let (result, out) = run("fn id(x) { x } fn main() { let f = id; print f; f(4) }");
    assert_eq!(result, Ok(num(4.0)));
    assert_eq!(out, vec!["<function: id>".to_string()]);
}

#[test]
fn print_returns_what_it_prints() {
    let (result, out) = run("fn main() { print [1, \"two\", null, true, [2.5]]; print \"x\" }");
    assert_eq!(result, Ok(Value::Str("x".to_string())));
    assert_eq!(out, vec!["[1, two, null, true, [2.5]]".to_string(), "x".to_string()]);
}

#[test]
fn a_list_stops_at_its_first_failing_item() {
    let (result, out) = run("fn main() { [print 1, missing, print 3] }");
    assert_eq!(result.unwrap_err().kind, ErrorKind::UnboundVariable("missing".to_string()));
    assert_eq!(out, vec!["1".to_string()]);
}

#[test]
fn a_sequence_gives_its_last_value() {
    assert_eq!(run("fn main() { 1; 2; 3 }").0, Ok(num(3.0)));
    assert_eq!(run("fn main() { 1; }").0, Ok(Value::Null));
}

#[test]
fn recursion_works_within_the_depth() {
    let src = "fn fact(n) { if n == 0 { 1 } else { n * fact(n - 1) } } fn main() { fact(5) }";
    assert_eq!(run(src).0, Ok(num(120.0)));
}

#[test]
fn endless_recursion_ends_at_the_depth() {
    let (funcs, errors) = parse("fn main() { main() }");
    assert_eq!(errors, vec![]);
    let main = funcs.get("main").unwrap();
    let mut out = Vec::new();
    let result = eval_expr(&main.body, &funcs, &mut Vec::new(), 50, &arith, &show, &mut out);
    assert_eq!(result, Err(Error { span: Span::new(12, 18), kind: ErrorKind::DepthExceeded }));
}

#[test]
fn a_later_declaration_replaces_an_earlier_one_with_an_error() {
    let (funcs, errors) = parse("fn f() { 1 } fn f() { 2 } fn main() { f() }");
    assert_eq!(
        errors,
        vec![Error {
            span: Span::new(16, 17),
            kind: ErrorKind::DuplicateFunction("f".to_string()),
        }]
    );
    let main = funcs.get("main").unwrap();
    let mut out = Vec::new();
    let result = eval_expr(&main.body, &funcs, &mut Vec::new(), 5, &arith, &show, &mut out);
    assert_eq!(result, Ok(num(2.0)));
}

#[test]
fn syntax_errors_are_collected() {
    let (funcs, errors) = parse("fn a() { 1 + } fn b() { (2 } fn c() { 3 }");
    assert_eq!(
        errors,
        vec![
            Error { span: Span::new(13, 14), kind: ErrorKind::SyntaxError(Expected::Expression) },
            Error { span: Span::new(27, 28), kind: ErrorKind::SyntaxError(Expected::Ctrl(')')) },
        ]
    );
    assert!(funcs.contains_key("a"));
    assert!(funcs.contains_key("b"));
    assert!(funcs.contains_key("c"));
}

#[test]
fn an_if_needs_its_else() {
    let (_, errors) = parse("fn main() { if true { 1 } }");
    assert_eq!(
        errors,
        vec![Error { span: Span::new(26, 27), kind: ErrorKind::SyntaxError(Expected::Else) }]
    );
}

#[test]
fn text_outside_a_declaration_is_skipped() {
    let (funcs, errors) = parse("1 + 2 fn main() { 3 }");
    assert_eq!(
        errors,
        vec![Error { span: Span::new(0, 1), kind: ErrorKind::SyntaxError(Expected::Function) }]
    );
    assert!(funcs.contains_key("main"));
}

#[test]
fn a_missing_token_at_the_end_is_reported_at_the_end() {
    let (_, errors) = parse("fn main() { 1");
    assert_eq!(
        errors,
        vec![Error { span: Span::new(13, 13), kind: ErrorKind::SyntaxError(Expected::Ctrl('}')) }]
    );
}
