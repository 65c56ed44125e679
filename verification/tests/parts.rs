use interp::common::{BinaryOp, Error, ErrorKind, Expected, Expr, Func, Kind, Span, Value};
use interp::display::display_value;
use interp::extract::{name_source, NameSource};
use interp::funcs::FuncTable;
use interp::gridfin::{centred_offset, output_name, BasePlate, Plate, Wall};
use interp::message::message;
use interp::text::{decimal, same_text, slice};
use interp::numbers::{numbers_equal, values_equal};
use interp::program::run;
use interp::runner::{bind_args, bodies_complete, eval_expr, find_local, is_complete};

fn read(text: &str) -> Option<u64> {
    text.parse::<f64>().ok().map(f64::to_bits)
}

fn arith(op: BinaryOp, a: u64, b: u64) -> u64 {
    let (x, y) = (f64::from_bits(a), f64::from_bits(b));
    match op {
        BinaryOp::Add => (x + y).to_bits(),
        BinaryOp::Sub => (x - y).to_bits(),
        BinaryOp::Mul => (x * y).to_bits(),
        BinaryOp::Div => (x / y).to_bits(),
        BinaryOp::Eq | BinaryOp::NotEq => unreachable!(),
    }
}

fn show(x: u64) -> String {
    format!("{}", f64::from_bits(x))
}

fn num(x: f64) -> Value {
    Value::Num(x.to_bits())
}

fn span() -> Span {
    Span::new(0, 0)
}

fn lit(v: Value) -> (Expr, Span) {
    (Expr::Value(v), span())
}

fn run_main(src: &str) -> (Result<Value, Vec<Error>>, Vec<String>) {
    let mut out = Vec::new();
    let result = run(src, "main", 100, &read, &arith, &show, &mut out);
    (result, out)
}

#[test]
fn a_run_gives_the_value_and_the_lines() {
    let (result, out) =
        run_main("fn main() { let x = 2; if x == 2 { print x + 3 } else { print 0 } }");
    assert_eq!(result, Ok(num(5.0)));
    assert_eq!(out, vec!["5".to_string()]);
}

#[test]
fn a_run_reports_lex_and_syntax_errors_together() {
    let (result, out) = run_main("fn main() { print 1 @ } fn f( { }");
    assert_eq!(
        result,
        Err(vec![
            Error { span: Span::new(20, 21), kind: ErrorKind::LexError },
            Error { span: Span::new(30, 31), kind: ErrorKind::SyntaxError(Expected::Ctrl(')')) },
        ])
    );
    assert!(out.is_empty());
}

#[test]
fn a_run_needs_its_entry_function() {
    let (result, _) = run_main("fn start() { 1 }");
    assert_eq!(result, Err(vec![Error { span: Span::new(0, 16), kind: ErrorKind::MissingEntryPoint }]));
}

#[test]
fn the_entry_function_takes_no_arguments() {
    let (result, _) = run_main("fn main(x) { x }");
    assert_eq!(
        result,
        Err(vec![Error { span: Span::new(0, 10), kind: ErrorKind::EntryPointHasArguments }])
    );
}

#[test]
fn a_failing_run_keeps_the_lines_printed_before() {
    let (result, out) = run_main("fn main() { print 1; print nothing; print 3 }");
    assert_eq!(
        result,
        Err(vec![Error {
            span: Span::new(27, 34),
            kind: ErrorKind::UnboundVariable("nothing".to_string()),
        }])
    );
    assert_eq!(out, vec!["1".to_string()]);
}

#[test]
fn a_run_adds_to_the_lines_that_are_there() {
    let mut out = vec!["before".to_string()];
    let result = run("fn go() { print 2 * 3 }", "go", 5, &read, &arith, &show, &mut out);
    assert_eq!(result, Ok(num(6.0)));
    assert_eq!(out, vec!["before".to_string(), "6".to_string()]);
}

#[test]
fn a_call_needs_one_level_of_depth() {
    let mut out = Vec::new();
    let src = "fn f() { 1 } fn main() { f() }";
    let result = run(src, "main", 0, &read, &arith, &show, &mut out);
    assert_eq!(result, Err(vec![Error { span: Span::new(25, 28), kind: ErrorKind::DepthExceeded }]));
    let result = run(src, "main", 1, &read, &arith, &show, &mut out);
    assert_eq!(result, Ok(num(1.0)));
}

#[test]
fn numbers_compare_as_floats_do() {
    let nan = f64::NAN.to_bits();
    assert!(numbers_equal(1f64.to_bits(), 1f64.to_bits()));
    assert!(!numbers_equal(1f64.to_bits(), 2f64.to_bits()));
    assert!(numbers_equal(0f64.to_bits(), (-0f64).to_bits()));
    assert!(!numbers_equal(nan, nan));
    assert!(!numbers_equal(nan, 1f64.to_bits()));
    assert!(numbers_equal(f64::INFINITY.to_bits(), f64::INFINITY.to_bits()));
    assert!(!numbers_equal(f64::INFINITY.to_bits(), f64::NEG_INFINITY.to_bits()));
    let pairs: [(f64, f64); 4] =
        [(0.1 + 0.2, 0.3), (1e308 * 10.0, f64::INFINITY), (-1.5, -1.5), (5e-324, 0.0)];
    for (a, b) in pairs {
        assert_eq!(numbers_equal(a.to_bits(), b.to_bits()), a == b);
    }
}

#[test]
fn values_compare_by_kind_and_content() {
    let list = |items: Vec<Value>| Value::List(items);
    assert!(values_equal(&Value::Null, &Value::Null));
    assert!(!values_equal(&num(1.0), &Value::Bool(true)));
    assert!(!values_equal(&Value::Null, &Value::Bool(false)));
    assert!(values_equal(&list(vec![num(1.0)]), &list(vec![num(1.0)])));
    assert!(!values_equal(&list(vec![num(1.0)]), &list(vec![num(2.0)])));
    assert!(!values_equal(&list(vec![]), &list(vec![Value::Null])));
    assert!(values_equal(&Value::Str("a".to_string()), &Value::Str("a".to_string())));
    assert!(!values_equal(&Value::Str("f".to_string()), &Value::Func("f".to_string())));
    assert!(values_equal(&Value::Func("f".to_string()), &Value::Func("f".to_string())));
    assert!(!values_equal(&list(vec![num(f64::NAN)]), &list(vec![num(f64::NAN)])));
    assert!(num(0.0) == num(-0.0));
    assert!(num(f64::NAN) != num(f64::NAN));
    assert!(list(vec![num(1.0), Value::Null]) == list(vec![num(1.0), Value::Null]));
}

#[test]
fn a_number_or_a_type_mismatch() {
    assert_eq!(num(2.5).num(Span::new(1, 2)), Ok(2.5f64.to_bits()));
    assert_eq!(
        Value::Str("x".to_string()).num(Span::new(1, 2)),
        Err(Error {
            span: Span::new(1, 2),
            kind: ErrorKind::TypeMismatch { wanted: Kind::Number, value: Value::Str("x".to_string()) },
        })
    );
}

#[test]
fn values_are_written_out() {
    assert_eq!(display_value(&Value::Null, &show), "null");
    assert_eq!(display_value(&Value::Bool(true), &show), "true");
    assert_eq!(display_value(&Value::Bool(false), &show), "false");
    assert_eq!(display_value(&num(5.0), &show), "5");
    assert_eq!(display_value(&num(-0.25), &show), "-0.25");
    assert_eq!(display_value(&Value::Str("hi there".to_string()), &show), "hi there");
    assert_eq!(display_value(&Value::Func("main".to_string()), &show), "<function: main>");
    assert_eq!(display_value(&Value::List(vec![]), &show), "[]");
    assert_eq!(display_value(&Value::List(vec![num(1.0)]), &show), "[1]");
    assert_eq!(
        display_value(
            &Value::List(vec![num(1.0), Value::List(vec![Value::Null, Value::Bool(true)]), num(2.0)]),
            &show
        ),
        "[1, [null, true], 2]"
    );
}

#[test]
fn numbers_in_messages_are_decimal() {
    assert_eq!(decimal(0), "0");
    assert_eq!(decimal(7), "7");
    assert_eq!(decimal(10), "10");
    assert_eq!(decimal(1234567890), "1234567890");
    assert_eq!(decimal(usize::MAX), usize::MAX.to_string());
}

#[test]
fn every_error_has_its_message() {
    let text = |kind: ErrorKind| message(&Error { span: span(), kind }, &show);
    assert_eq!(text(ErrorKind::LexError), "Unexpected character");
    assert_eq!(text(ErrorKind::InvalidNumber), "Invalid number");
    assert_eq!(text(ErrorKind::SyntaxError(Expected::Expression)), "Expected an expression");
    assert_eq!(text(ErrorKind::SyntaxError(Expected::Identifier)), "Expected an identifier");
    assert_eq!(text(ErrorKind::SyntaxError(Expected::Function)), "Expected a function");
    assert_eq!(text(ErrorKind::SyntaxError(Expected::Ctrl(')'))), "Expected ')'");
    assert_eq!(text(ErrorKind::SyntaxError(Expected::Assign)), "Expected '='");
    assert_eq!(text(ErrorKind::SyntaxError(Expected::Else)), "Expected 'else'");
    assert_eq!(text(ErrorKind::DuplicateFunction("f".to_string())), "Function 'f' already exists");
    assert_eq!(text(ErrorKind::UnboundVariable("x".to_string())), "No such variable 'x' in scope");
    assert_eq!(
        text(ErrorKind::TypeMismatch { wanted: Kind::Number, value: Value::Bool(true) }),
        "'true' is not a number"
    );
    assert_eq!(
        text(ErrorKind::TypeMismatch { wanted: Kind::Function, value: num(3.0) }),
        "'3' is not callable"
    );
    assert_eq!(
        text(ErrorKind::TypeMismatch { wanted: Kind::Boolean, value: Value::List(vec![num(1.5)]) }),
        "Conditions must be booleans, found '[1.5]'"
    );
    assert_eq!(
        text(ErrorKind::ArityMismatch { name: "add".to_string(), expected: 2, found: 13 }),
        "'add' called with wrong number of arguments (expected 2, found 13)"
    );
    assert_eq!(text(ErrorKind::UnknownFunction("g".to_string())), "No such function 'g'");
    assert_eq!(text(ErrorKind::DepthExceeded), "Calls are nested too deeply");
    assert_eq!(
        text(ErrorKind::MissingEntryPoint),
        "Programs need a main function but none was found"
    );
    assert_eq!(text(ErrorKind::EntryPointHasArguments), "The main function cannot have arguments");
}

#[test]
fn the_table_keeps_the_last_function_of_a_name() {
    let func = |v: f64| Func { args: vec![], span: span(), body: lit(num(v)) };
    let mut table = FuncTable::new();
    assert!(!table.contains_key("f"));
    assert!(table.get("f").is_none());
    assert!(!table.insert("f".to_string(), func(1.0)));
    assert!(!table.insert("g".to_string(), func(2.0)));
    assert!(table.insert("f".to_string(), func(3.0)));
    assert!(table.contains_key("f"));
    assert!(table.contains_key("g"));
    assert!(!table.contains_key("h"));
    let f = table.get("f").unwrap();
    assert!(matches!(&f.body.0, Expr::Value(v) if *v == num(3.0)));
    let g = table.get("g").unwrap();
    assert!(matches!(&g.body.0, Expr::Value(v) if *v == num(2.0)));
}

#[test]
fn the_latest_binding_of_a_name_is_found() {
    let stack = vec![
        ("x".to_string(), num(1.0)),
        ("y".to_string(), num(2.0)),
        ("x".to_string(), num(3.0)),
    ];
    assert_eq!(find_local(&stack, "x"), Some(num(3.0)));
    assert_eq!(find_local(&stack, "y"), Some(num(2.0)));
    assert_eq!(find_local(&stack, "z"), None);
    assert_eq!(find_local(&Vec::new(), "x"), None);
}

#[test]
fn arguments_are_bound_in_order() {
    let frame = bind_args(&vec!["a".to_string(), "b".to_string()], &vec![num(1.0), Value::Null]);
    assert_eq!(frame, vec![("a".to_string(), num(1.0)), ("b".to_string(), Value::Null)]);
    assert_eq!(bind_args(&vec![], &vec![]), vec![]);
}

#[test]
fn a_local_shadows_a_function_and_a_function_is_found_last() {
    let mut table = FuncTable::new();
    table.insert("f".to_string(), Func { args: vec![], span: span(), body: lit(Value::Null) });
    let expr = (Expr::Local("f".to_string()), Span::new(3, 4));
    let mut out = Vec::new();
    let mut stack = vec![("f".to_string(), num(1.0))];
    assert_eq!(eval_expr(&expr, &table, &mut stack, 1, &arith, &show, &mut out), Ok(num(1.0)));
    let mut stack = Vec::new();
    assert_eq!(
        eval_expr(&expr, &table, &mut stack, 1, &arith, &show, &mut out),
        Ok(Value::Func("f".to_string()))
    );
    let missing = (Expr::Local("g".to_string()), Span::new(3, 4));
    assert_eq!(
        eval_expr(&missing, &table, &mut stack, 1, &arith, &show, &mut out),
        Err(Error { span: Span::new(3, 4), kind: ErrorKind::UnboundVariable("g".to_string()) })
    );
}

#[test]
fn a_function_value_without_a_declaration_cannot_be_called() {
    let table = FuncTable::new();
    let call = (Expr::Call(Box::new(lit(Value::Func("ghost".to_string()))), vec![]), Span::new(1, 9));
    let mut out = Vec::new();
    assert_eq!(
        eval_expr(&call, &table, &mut Vec::new(), 3, &arith, &show, &mut out),
        Err(Error { span: Span::new(1, 9), kind: ErrorKind::UnknownFunction("ghost".to_string()) })
    );
}

#[test]
fn a_placeholder_makes_a_tree_incomplete() {
    let good = Expr::Binary(Box::new(lit(num(1.0))), BinaryOp::Add, Box::new(lit(num(2.0))));
    assert!(is_complete(&good));
    assert!(!is_complete(&Expr::Error));
    let bad = Expr::List(vec![lit(Value::Null), (Expr::Print(Box::new((Expr::Error, span()))), span())]);
    assert!(!is_complete(&bad));
    let call = Expr::Call(Box::new(lit(Value::Null)), vec![(Expr::Error, span())]);
    assert!(!is_complete(&call));
    let mut table = FuncTable::new();
    table.insert("a".to_string(), Func { args: vec![], span: span(), body: (good, span()) });
    assert!(bodies_complete(&table));
    table.insert("b".to_string(), Func { args: vec![], span: span(), body: (bad, span()) });
    assert!(!bodies_complete(&table));
}

#[test]
fn grid_parts_keep_their_sizes() {
    let wall = Wall::new(2, 3, 4, true);
    assert_eq!((wall.x(), wall.y(), wall.height(), wall.filled()), (2, 3, 4, true));
    let plate = Plate::new(5, 6);
    assert_eq!((plate.x(), plate.y()), (5, 6));
    let base = BasePlate::new(7, 8);
    assert_eq!((base.x(), base.y()), (7, 8));
}

#[test]
fn cells_lie_centred_in_their_row() {
    assert_eq!(centred_offset(0, 1), 0);
    assert_eq!((0..2).map(|i| centred_offset(i, 2)).collect::<Vec<_>>(), vec![-1, 1]);
    assert_eq!((0..3).map(|i| centred_offset(i, 3)).collect::<Vec<_>>(), vec![-2, 0, 2]);
    assert_eq!((0..4).map(|i| centred_offset(i, 4)).collect::<Vec<_>>(), vec![-3, -1, 1, 3]);
    assert_eq!(centred_offset(usize::MAX, usize::MAX), usize::MAX as i128 + 1);
    for n in 1..6usize {
        for i in 0..n {
            let by_float = (41.5 * i as f64) - (41.5 * (n - 1) as f64) / 2.0;
            assert_eq!(20.75 * centred_offset(i, n) as f64, by_float);
        }
    }
}

#[test]
fn parts_are_written_to_files_named_by_kind_and_size() {
    assert_eq!(output_name(false, false, 2, 3, 4), "gf_2x3x4.stl");
    assert_eq!(output_name(true, false, 1, 1, 1), "base_1x1x1.stl");
    assert_eq!(output_name(false, true, 10, 0, 123), "gf_10x0x123.step");
    assert_eq!(output_name(true, true, 7, 8, 9), "base_7x8x9.step");
}

#[test]
fn text_is_cut_and_compared_by_bytes() {
    assert_eq!(slice("héllo wörld", 0, 6), "héllo");
    assert_eq!(slice("héllo wörld", 7, 13), "wörld");
    assert_eq!(slice("abc", 1, 1), "");
    assert!(same_text("héllo", "héllo"));
    assert!(!same_text("héllo", "hello"));
    assert!(!same_text("ab", "abc"));
    assert!(same_text("", ""));
}

#[test]
fn the_item_names_itself_only_under_a_bare_attribute() {
    assert_eq!(name_source(true, true), NameSource::Item);
    assert_eq!(name_source(true, false), NameSource::Attribute);
    assert_eq!(name_source(false, true), NameSource::Attribute);
    assert_eq!(name_source(false, false), NameSource::Attribute);
}
