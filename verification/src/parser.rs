//! The parser: tokens to the table of declared functions, as the
//! [grammar](crate::grammar) says. It reads on behind an error, so that one
//! pass finds every error it can.

use vstd::prelude::*;
use crate::common::{
    errors_model, names_model, spanned_model, spanned_models, spanned_models_index, tokens_model,
    BinaryOp, Error, ErrorKind, ErrorModel, Expected, Expr, ExprModel, Func, Span, Spanned, Token,
    Value, ValueModel,
};
use crate::funcs::FuncTable;
use crate::grammar::{
    atom, binary, call, calls, chain, declaration, declaration_errors, end_of, expr, fail, if_,
    is_ctrl_at, is_op_at, items, join, let_, next_fn_len, op_at, params, parse, peek, program,
    span_at, starts_expr, sync_len, unexpected, Declared, Step,
};
use crate::text::same_text;

verus! {

/// Whether the control character `c` stands at `pos`.
pub fn ctrl_at(tokens: &Vec<Spanned<Token>>, pos: usize, c: char) -> (found: bool)
    ensures
        found == is_ctrl_at(tokens_model(tokens@), pos as int, c),
{
    if pos < tokens.len() {
        match &tokens[pos].0 {
            Token::Ctrl(d) => *d == c,
            _ => false,
        }
    } else {
        false
    }
}

/// Whether the operator spelled `op` stands at `pos`.
pub fn op_text_at(tokens: &Vec<Spanned<Token>>, pos: usize, op: &str) -> (found: bool)
    ensures
        found == is_op_at(tokens_model(tokens@), pos as int, op@),
{
    if pos < tokens.len() {
        match &tokens[pos].0 {
            Token::Op(text) => same_text(text.as_str(), op),
            _ => false,
        }
    } else {
        false
    }
}

/// The span of the token at `pos`, or `eoi` behind the last token.
pub fn span_of(tokens: &Vec<Spanned<Token>>, eoi: Span, pos: usize) -> (span: Span)
    ensures
        span == span_at(tokens_model(tokens@), eoi, pos as int),
{
    if pos < tokens.len() {
        tokens[pos].1
    } else {
        eoi
    }
}

/// The place behind the tokens that are skipped from `pos` on to get back
/// in step, with `depth` delimiters open.
pub fn skip_sync(tokens: &Vec<Spanned<Token>>, pos: usize, depth: usize) -> (stop: usize)
    requires
        pos <= tokens.len(),
        depth <= pos,
    ensures
        stop == pos + sync_len(tokens_model(tokens@), pos as int, depth as nat),
        stop <= tokens.len(),
    decreases tokens.len() - pos,
{
    if pos < tokens.len() {
        match &tokens[pos].0 {
            Token::Ctrl(c) => {
                let c = *c;
                if c == '(' || c == '[' || c == '{' {
                    skip_sync(tokens, pos + 1, depth + 1)
                } else if c == ')' || c == ']' || c == '}' {
                    if depth == 0 {
                        pos
                    } else {
                        skip_sync(tokens, pos + 1, depth - 1)
                    }
                } else if c == ';' && depth == 0 {
                    pos
                } else {
                    skip_sync(tokens, pos + 1, depth)
                }
            },
            _ => skip_sync(tokens, pos + 1, depth),
        }
    } else {
        pos
    }
}

/// The place of the next `fn` at or behind `pos`, or the end.
pub fn skip_to_fn(tokens: &Vec<Spanned<Token>>, pos: usize) -> (stop: usize)
    requires
        pos <= tokens.len(),
    ensures
        stop == pos + next_fn_len(tokens_model(tokens@), pos as int),
        stop <= tokens.len(),
{
    let mut stop: usize = pos;
    while stop < tokens.len() && !is_fn(&tokens[stop].0)
        invariant
            pos <= stop <= tokens.len(),
            pos + next_fn_len(tokens_model(tokens@), pos as int) == stop + next_fn_len(
                tokens_model(tokens@),
                stop as int,
            ),
        decreases tokens.len() - stop,
    {
        stop += 1;
    }
    stop
}

/// Whether the token is the keyword `fn`.
pub fn is_fn(token: &Token) -> (yes: bool)
    ensures
        yes == (token@ is Fn),
{
    match token {
        Token::Fn => true,
        _ => false,
    }
}

/// The span from the start of `a` to the end of `b`.
pub fn join_spans(a: Span, b: Span) -> (span: Span)
    ensures
        span == join(a, b),
{
    Span { start: a.start, end: b.end }
}

/// Records that `expected` was missing at `at`, skips to where reading can
/// go on, and gives the error node for the construct that started at
/// `start`.
fn fail_at(
    tokens: &Vec<Spanned<Token>>,
    eoi: Span,
    start: usize,
    at: usize,
    expected: Expected,
    closer: Option<char>,
    errors: &mut Vec<Error>,
) -> (out: (Spanned<Expr>, usize))
    requires
        start <= at <= tokens.len(),
    ensures
        ({
            let step = fail(
                tokens_model(tokens@),
                eoi,
                start as int,
                (at - start) as nat,
                expected,
                closer,
                Seq::empty(),
            );
            &&& spanned_model(out.0) == step.expr
            &&& out.1 == start + step.taken
            &&& at <= out.1 <= tokens.len()
            &&& errors_model(final(errors)@) == errors_model(old(errors)@) + step.errors
        }),
{
    let error = Error { span: span_of(tokens, eoi, at), kind: ErrorKind::SyntaxError(expected) };
    let ghost before = errors@;
    errors.push(error);
    let stop = skip_sync(tokens, at, 0);
    let end = match closer {
        Some(c) => if ctrl_at(tokens, stop, c) {
            stop + 1
        } else {
            stop
        },
        None => stop,
    };
    let first = span_of(tokens, eoi, start);
    let span = if start < end {
        join_spans(first, span_of(tokens, eoi, end - 1))
    } else {
        Span { start: first.start, end: first.start }
    };
    proof {
        assert(errors_model(errors@) =~= errors_model(before) + seq![error@]);
        assert(Seq::<ErrorModel>::empty().push(error@) =~= seq![error@]);
    }
    ((Expr::Error, span), end)
}


/// `out` is the expression, the place behind it and the errors that `step`
/// describes, read from `pos` on with `before` already recorded.
pub open spec fn reads(
    step: Step,
    out: (Spanned<Expr>, usize),
    pos: usize,
    len: nat,
    before: Seq<Error>,
    after: Seq<Error>,
) -> bool {
    &&& spanned_model(out.0) == step.expr
    &&& out.1 == pos + step.taken
    &&& out.1 <= len
    &&& errors_model(after) == errors_model(before) + step.errors
}

/// The binary operator of binding level `level` at `pos`, if one stands
/// there.
pub fn op_here(tokens: &Vec<Spanned<Token>>, pos: usize, level: u8) -> (op: Option<BinaryOp>)
    ensures
        op == op_at(tokens_model(tokens@), pos as int, level as nat),
{
    if level == 0 {
        if op_text_at(tokens, pos, "==") {
            Some(BinaryOp::Eq)
        } else if op_text_at(tokens, pos, "!=") {
            Some(BinaryOp::NotEq)
        } else {
            None
        }
    } else if level == 1 {
        if op_text_at(tokens, pos, "+") {
            Some(BinaryOp::Add)
        } else if op_text_at(tokens, pos, "-") {
            Some(BinaryOp::Sub)
        } else {
            None
        }
    } else if level == 2 {
        if op_text_at(tokens, pos, "*") {
            Some(BinaryOp::Mul)
        } else if op_text_at(tokens, pos, "/") {
            Some(BinaryOp::Div)
        } else {
            None
        }
    } else {
        None
    }
}

/// Whether an expression can start with the token at `pos`.
pub fn can_start(tokens: &Vec<Spanned<Token>>, pos: usize) -> (yes: bool)
    ensures
        yes == starts_expr(peek(tokens_model(tokens@), pos as int)),
{
    if pos < tokens.len() {
        match &tokens[pos].0 {
            Token::Null => true,
            Token::Bool(_) => true,
            Token::Num(_) => true,
            Token::Str(_) => true,
            Token::Ident(_) => true,
            Token::Ctrl(c) => *c == '(' || *c == '[',
            Token::Let => true,
            Token::If => true,
            Token::Print => true,
            _ => false,
        }
    } else {
        false
    }
}

/// Reads the expression that starts at `pos`, as [`expr`] says.
pub fn parse_expr(tokens: &Vec<Spanned<Token>>, eoi: Span, pos: usize, errors: &mut Vec<Error>) -> (out:
    (Spanned<Expr>, usize))
    requires
        pos <= tokens.len(),
    ensures
        reads(
            expr(tokens_model(tokens@), eoi, pos as int),
            out,
            pos,
            tokens@.len(),
            old(errors)@,
            final(errors)@,
        ),
    decreases tokens.len() - pos, 10nat,
{
    if pos >= tokens.len() {
        return fail_at(tokens, eoi, pos, pos, Expected::Expression, None, errors);
    }
    let starts_let = match &tokens[pos].0 {
        Token::Let => true,
        _ => false,
    };
    let (first, p) = if starts_let {
        parse_let(tokens, eoi, pos, errors)
    } else {
        parse_binary(tokens, eoi, pos, 0, errors)
    };
    let ghost t = tokens_model(tokens@);
    let ghost first_step = if t[pos as int].0 is Let {
        let_(t, eoi, pos as int)
    } else {
        binary(t, eoi, pos as int, 0)
    };
    if ctrl_at(tokens, p, ';') {
        if can_start(tokens, p + 1) {
            let (rest, end) = parse_expr(tokens, eoi, p + 1, errors);
            let span = join_spans(first.1, rest.1);
            proof {
                let rest_step = expr(t, eoi, p + 1);
                assert(errors_model(errors@) =~= errors_model(old(errors)@) + (first_step.errors
                    + rest_step.errors));
            }
            ((Expr::Then(Box::new(first), Box::new(rest)), span), end)
        } else {
            let semi = tokens[p].1;
            let span = join_spans(first.1, semi);
            let nothing = (Expr::Value(Value::Null), Span { start: semi.end, end: semi.end });
            assert(spanned_model(nothing) == (
                ExprModel::Value(ValueModel::Null),
                end_of(semi),
            ));
            ((Expr::Then(Box::new(first), Box::new(nothing)), span), p + 1)
        }
    } else {
        (first, p)
    }
}

/// Reads the `let` whose keyword stands at `pos`, as [`let_`] says.
fn parse_let(tokens: &Vec<Spanned<Token>>, eoi: Span, pos: usize, errors: &mut Vec<Error>) -> (out:
    (Spanned<Expr>, usize))
    requires
        pos < tokens.len(),
    ensures
        reads(
            let_(tokens_model(tokens@), eoi, pos as int),
            out,
            pos,
            tokens@.len(),
            old(errors)@,
            final(errors)@,
        ),
    decreases tokens.len() - pos, 9nat,
{
    let ghost t = tokens_model(tokens@);
    let name = if pos + 1 < tokens.len() {
        match &tokens[pos + 1].0 {
            Token::Ident(name) => Some(name.clone()),
            _ => None,
        }
    } else {
        None
    };
    let name = match name {
        Some(name) => name,
        None => {
            return fail_at(tokens, eoi, pos, pos + 1, Expected::Identifier, None, errors);
        },
    };
    if !op_text_at(tokens, pos + 2, "=") {
        return fail_at(tokens, eoi, pos, pos + 2, Expected::Assign, None, errors);
    }
    let (value, p) = parse_binary(tokens, eoi, pos + 3, 0, errors);
    let ghost value_step = binary(t, eoi, pos + 3, 0);
    if !ctrl_at(tokens, p, ';') {
        let out = fail_at(tokens, eoi, pos, p, Expected::Ctrl(';'), None, errors);
        proof {
            assert(errors_model(errors@) =~= errors_model(old(errors)@) + value_step.errors.push(
                unexpected(t, eoi, p as int, Expected::Ctrl(';')),
            ));
        }
        return out;
    }
    let (body, end) = parse_expr(tokens, eoi, p + 1, errors);
    let span = join_spans(tokens[pos].1, body.1);
    proof {
        let body_step = expr(t, eoi, p + 1);
        assert(errors_model(errors@) =~= errors_model(old(errors)@) + (value_step.errors
            + body_step.errors));
    }
    ((Expr::Let(name, Box::new(value), Box::new(body)), span), end)
}

/// Reads the operator expression of binding level `level` that starts at
/// `pos`, as [`binary`] says.
pub fn parse_binary(
    tokens: &Vec<Spanned<Token>>,
    eoi: Span,
    pos: usize,
    level: u8,
    errors: &mut Vec<Error>,
) -> (out: (Spanned<Expr>, usize))
    requires
        pos <= tokens.len(),
    ensures
        reads(
            binary(tokens_model(tokens@), eoi, pos as int, level as nat),
            out,
            pos,
            tokens@.len(),
            old(errors)@,
            final(errors)@,
        ),
    decreases tokens.len() - pos, (if level < 3 {
        8 - level
    } else {
        5
    }) as nat,
{
    if level >= 3 {
        return parse_call(tokens, eoi, pos, errors);
    }
    let ghost t = tokens_model(tokens@);
    let (first, after) = parse_binary(tokens, eoi, pos, level + 1, errors);
    let mut left = first;
    let mut p = after;
    let ghost mut cur = binary(t, eoi, pos as int, (level + 1) as nat);
    loop
        invariant
            level < 3,
            t == tokens_model(tokens@),
            pos <= p <= tokens.len(),
            reads(cur, (left, p), pos, tokens@.len(), old(errors)@, errors@),
            binary(t, eoi, pos as int, level as nat) == chain(t, eoi, p as int, level as nat, cur),
        decreases tokens.len() - p,
    {
        let op = match op_here(tokens, p, level) {
            Some(op) => op,
            None => {
                return (left, p);
            },
        };
        let (right, q) = parse_binary(tokens, eoi, p + 1, level + 1, errors);
        let span = join_spans(left.1, right.1);
        proof {
            let right_step = binary(t, eoi, p + 1, (level + 1) as nat);
            let next = Step {
                expr: (
                    ExprModel::Binary(Box::new(cur.expr), op, Box::new(right_step.expr)),
                    join(cur.expr.1, right_step.expr.1),
                ),
                taken: cur.taken + 1 + right_step.taken,
                errors: cur.errors + right_step.errors,
            };
            assert(errors_model(errors@) =~= errors_model(old(errors)@) + next.errors);
            cur = next;
        }
        left = (Expr::Binary(Box::new(left), op, Box::new(right)), span);
        p = q;
    }
}

/// Reads the call that starts at `pos`, as [`call`] says.
pub fn parse_call(tokens: &Vec<Spanned<Token>>, eoi: Span, pos: usize, errors: &mut Vec<Error>) -> (out:
    (Spanned<Expr>, usize))
    requires
        pos <= tokens.len(),
    ensures
        reads(
            call(tokens_model(tokens@), eoi, pos as int),
            out,
            pos,
            tokens@.len(),
            old(errors)@,
            final(errors)@,
        ),
    decreases tokens.len() - pos, 4nat,
{
    let ghost t = tokens_model(tokens@);
    let (first, after) = parse_atom(tokens, eoi, pos, errors);
    let mut callee = first;
    let mut p = after;
    let ghost mut cur = atom(t, eoi, pos as int);
    loop
        invariant
            t == tokens_model(tokens@),
            pos <= p <= tokens.len(),
            reads(cur, (callee, p), pos, tokens@.len(), old(errors)@, errors@),
            call(t, eoi, pos as int) == calls(t, eoi, p as int, cur),
        decreases tokens.len() - p,
    {
        if !ctrl_at(tokens, p, '(') {
            return (callee, p);
        }
        let (args, q, closed) = parse_items(tokens, eoi, p + 1, ')', errors);
        let ghost list = items(t, eoi, p + 1, ')');
        if !closed {
            let out = fail_at(tokens, eoi, p, q, Expected::Ctrl(')'), Some(')'), errors);
            proof {
                assert(errors_model(errors@) =~= errors_model(old(errors)@) + (cur.errors
                    + list.errors).push(unexpected(t, eoi, q as int, Expected::Ctrl(')'))));
            }
            return out;
        }
        let span = join_spans(callee.1, span_of(tokens, eoi, q - 1));
        proof {
            let next = Step {
                expr: (
                    ExprModel::Call(Box::new(cur.expr), list.items),
                    join(cur.expr.1, span_at(t, eoi, p + list.taken)),
                ),
                taken: cur.taken + 1 + list.taken,
                errors: cur.errors + list.errors,
            };
            assert(errors_model(errors@) =~= errors_model(old(errors)@) + next.errors);
            cur = next;
        }
        callee = (Expr::Call(Box::new(callee), args), span);
        p = q;
    }
}

/// Reads the atom that starts at `pos`, as [`atom`] says.
pub fn parse_atom(tokens: &Vec<Spanned<Token>>, eoi: Span, pos: usize, errors: &mut Vec<Error>) -> (out:
    (Spanned<Expr>, usize))
    requires
        pos <= tokens.len(),
    ensures
        reads(
            atom(tokens_model(tokens@), eoi, pos as int),
            out,
            pos,
            tokens@.len(),
            old(errors)@,
            final(errors)@,
        ),
    decreases tokens.len() - pos, 3nat,
{
    let ghost t = tokens_model(tokens@);
    if pos >= tokens.len() {
        return fail_at(tokens, eoi, pos, pos, Expected::Expression, None, errors);
    }
    let span = tokens[pos].1;
    proof {
        assert(errors_model(errors@) + Seq::<ErrorModel>::empty() =~= errors_model(errors@));
    }
    match &tokens[pos].0 {
        Token::Null => ((Expr::Value(Value::Null), span), pos + 1),
        Token::Bool(b) => ((Expr::Value(Value::Bool(*b)), span), pos + 1),
        Token::Num(x) => ((Expr::Value(Value::Num(*x)), span), pos + 1),
        Token::Str(s) => ((Expr::Value(Value::Str(s.clone())), span), pos + 1),
        Token::Ident(name) => ((Expr::Local(name.clone()), span), pos + 1),
        Token::Print => {
            let (value, end) = parse_binary(tokens, eoi, pos + 1, 0, errors);
            let whole = join_spans(span, value.1);
            ((Expr::Print(Box::new(value)), whole), end)
        },
        Token::If => parse_if(tokens, eoi, pos, errors),
        Token::Ctrl(_) => parse_group(tokens, eoi, pos, errors),
        _ => fail_at(tokens, eoi, pos, pos, Expected::Expression, None, errors),
    }
}

/// Reads the atom that starts with the control character at `pos`: a list
/// in square brackets or an expression in parentheses, as [`atom`] says.
fn parse_group(tokens: &Vec<Spanned<Token>>, eoi: Span, pos: usize, errors: &mut Vec<Error>) -> (out:
    (Spanned<Expr>, usize))
    requires
        pos < tokens.len(),
        tokens@[pos as int].0 is Ctrl,
    ensures
        reads(
            atom(tokens_model(tokens@), eoi, pos as int),
            out,
            pos,
            tokens@.len(),
            old(errors)@,
            final(errors)@,
        ),
    decreases tokens.len() - pos, 2nat,
{
    let ghost t = tokens_model(tokens@);
    let span = tokens[pos].1;
    let c = match &tokens[pos].0 {
        Token::Ctrl(c) => *c,
        _ => vstd::pervasive::unreached(),
    };
    if c == '[' {
        let (list, end, closed) = parse_items(tokens, eoi, pos + 1, ']', errors);
        let ghost list_step = items(t, eoi, pos + 1, ']');
        if closed {
            let whole = join_spans(span, span_of(tokens, eoi, end - 1));
            ((Expr::List(list), whole), end)
        } else {
            let out = fail_at(tokens, eoi, pos, end, Expected::Ctrl(']'), Some(']'), errors);
            proof {
                assert(errors_model(errors@) =~= errors_model(old(errors)@)
                    + list_step.errors.push(unexpected(t, eoi, end as int, Expected::Ctrl(']'))));
            }
            out
        }
    } else if c == '(' {
        let (inner, end) = parse_expr(tokens, eoi, pos + 1, errors);
        let ghost inner_step = expr(t, eoi, pos + 1);
        if ctrl_at(tokens, end, ')') {
            (inner, end + 1)
        } else {
            let out = fail_at(tokens, eoi, pos, end, Expected::Ctrl(')'), Some(')'), errors);
            proof {
                assert(errors_model(errors@) =~= errors_model(old(errors)@)
                    + inner_step.errors.push(unexpected(t, eoi, end as int, Expected::Ctrl(')'))));
            }
            out
        }
    } else {
        fail_at(tokens, eoi, pos, pos, Expected::Expression, None, errors)
    }
}

/// Reads the `if` whose keyword stands at `pos`, as [`if_`] says.
#[verifier::rlimit(60)]
fn parse_if(tokens: &Vec<Spanned<Token>>, eoi: Span, pos: usize, errors: &mut Vec<Error>) -> (out:
    (Spanned<Expr>, usize))
    requires
        pos < tokens.len(),
    ensures
        reads(
            if_(tokens_model(tokens@), eoi, pos as int),
            out,
            pos,
            tokens@.len(),
            old(errors)@,
            final(errors)@,
        ),
    decreases tokens.len() - pos, 2nat,
{
    let ghost t = tokens_model(tokens@);
    let (cond, p1) = parse_binary(tokens, eoi, pos + 1, 0, errors);
    let ghost cond_step = binary(t, eoi, pos + 1, 0);
    if !ctrl_at(tokens, p1, '{') {
        let out = fail_at(tokens, eoi, pos, p1, Expected::Ctrl('{'), None, errors);
        proof {
            assert(errors_model(errors@) =~= errors_model(old(errors)@) + cond_step.errors.push(
                unexpected(t, eoi, p1 as int, Expected::Ctrl('{')),
            ));
        }
        return out;
    }
    let (yes, p2) = parse_expr(tokens, eoi, p1 + 1, errors);
    let ghost yes_step = expr(t, eoi, p1 + 1);
    let ghost so_far = cond_step.errors + yes_step.errors;
    proof {
        assert(errors_model(errors@) =~= errors_model(old(errors)@) + so_far);
    }
    if !ctrl_at(tokens, p2, '}') {
        let out = fail_at(tokens, eoi, pos, p2, Expected::Ctrl('}'), Some('}'), errors);
        proof {
            assert(errors_model(errors@) =~= errors_model(old(errors)@) + so_far.push(
                unexpected(t, eoi, p2 as int, Expected::Ctrl('}')),
            ));
        }
        return out;
    }
    let has_else = if p2 + 1 < tokens.len() {
        match &tokens[p2 + 1].0 {
            Token::Else => true,
            _ => false,
        }
    } else {
        false
    };
    if !has_else {
        let out = fail_at(tokens, eoi, pos, p2 + 1, Expected::Else, None, errors);
        proof {
            assert(errors_model(errors@) =~= errors_model(old(errors)@) + so_far.push(
                unexpected(t, eoi, p2 + 1, Expected::Else),
            ));
        }
        return out;
    }
    if !ctrl_at(tokens, p2 + 2, '{') {
        let out = fail_at(tokens, eoi, pos, p2 + 2, Expected::Ctrl('{'), None, errors);
        proof {
            assert(errors_model(errors@) =~= errors_model(old(errors)@) + so_far.push(
                unexpected(t, eoi, p2 + 2, Expected::Ctrl('{')),
            ));
        }
        return out;
    }
    let (no, p3) = parse_expr(tokens, eoi, p2 + 3, errors);
    let ghost no_step = expr(t, eoi, p2 + 3);
    proof {
        assert(errors_model(errors@) =~= errors_model(old(errors)@) + (so_far + no_step.errors));
    }
    if !ctrl_at(tokens, p3, '}') {
        let out = fail_at(tokens, eoi, pos, p3, Expected::Ctrl('}'), Some('}'), errors);
        proof {
            assert(errors_model(errors@) =~= errors_model(old(errors)@) + (so_far
                + no_step.errors).push(unexpected(t, eoi, p3 as int, Expected::Ctrl('}'))));
        }
        return out;
    }
    let span = join_spans(tokens[pos].1, tokens[p3].1);
    ((Expr::If(Box::new(cond), Box::new(yes), Box::new(no)), span), p3 + 1)
}

/// Reads the expressions from `pos` on up to the closing delimiter
/// `closer`, as [`items`] says: the expressions, the place behind them, and
/// whether the delimiter was found.
pub fn parse_items(
    tokens: &Vec<Spanned<Token>>,
    eoi: Span,
    pos: usize,
    closer: char,
    errors: &mut Vec<Error>,
) -> (out: (Vec<Spanned<Expr>>, usize, bool))
    requires
        pos <= tokens.len(),
    ensures
        ({
            let list = items(tokens_model(tokens@), eoi, pos as int, closer);
            &&& spanned_models(out.0@) == list.items
            &&& out.1 == pos + list.taken
            &&& out.1 <= tokens.len()
            &&& out.2 == list.closed
            &&& out.2 ==> out.1 > pos
            &&& errors_model(final(errors)@) == errors_model(old(errors)@) + list.errors
        }),
    decreases tokens.len() - pos, 11nat,
{
    let ghost t = tokens_model(tokens@);
    let mut found: Vec<Spanned<Expr>> = Vec::new();
    let mut p: usize = pos;
    let ghost mut seen: Seq<ErrorModel> = Seq::empty();
    proof {
        spanned_models_index(found@);
        assert(spanned_models(found@) =~= Seq::empty());
        assert(errors_model(errors@) =~= errors_model(old(errors)@) + seen);
        let whole = items(t, eoi, pos as int, closer);
        assert(whole.items =~= spanned_models(found@) + whole.items);
        assert(whole.errors =~= seen + whole.errors);
    }
    loop
        invariant
            t == tokens_model(tokens@),
            pos <= p <= tokens.len(),
            errors_model(errors@) == errors_model(old(errors)@) + seen,
            ({
                let whole = items(t, eoi, pos as int, closer);
                let rest = items(t, eoi, p as int, closer);
                &&& whole.items == spanned_models(found@) + rest.items
                &&& whole.taken == (p - pos) + rest.taken
                &&& whole.errors == seen + rest.errors
                &&& whole.closed == rest.closed
            }),
        decreases tokens.len() - p,
    {
        let ghost rest = items(t, eoi, p as int, closer);
        if p >= tokens.len() {
            proof {
                assert(spanned_models(found@) + rest.items =~= spanned_models(found@));
                assert(seen + rest.errors =~= seen);
            }
            return (found, p, false);
        }
        if ctrl_at(tokens, p, closer) {
            proof {
                assert(spanned_models(found@) + rest.items =~= spanned_models(found@));
                assert(seen + rest.errors =~= seen);
            }
            return (found, p + 1, true);
        }
        let ghost found_before = found@;
        let (first, q) = parse_expr(tokens, eoi, p, errors);
        let ghost first_step = expr(t, eoi, p as int);
        found.push(first);
        proof {
            spanned_models_index(found@);
            spanned_models_index(found_before);
            assert(spanned_models(found@) =~= spanned_models(found_before).push(first_step.expr));
            assert(errors_model(errors@) =~= errors_model(old(errors)@) + (seen
                + first_step.errors));
        }
        if ctrl_at(tokens, q, ',') {
            proof {
                let more = items(t, eoi, q + 1, closer);
                assert(spanned_models(found_before) + (seq![first_step.expr] + more.items)
                    =~= spanned_models(found@) + more.items);
                assert(seen + (first_step.errors + more.errors) =~= (seen + first_step.errors)
                    + more.errors);
                seen = seen + first_step.errors;
            }
            p = q + 1;
        } else if ctrl_at(tokens, q, closer) {
            proof {
                assert(spanned_models(found_before) + seq![first_step.expr] =~= spanned_models(
                    found@,
                ));
            }
            return (found, q + 1, true);
        } else {
            proof {
                assert(spanned_models(found_before) + seq![first_step.expr] =~= spanned_models(
                    found@,
                ));
            }
            return (found, q, false);
        }
    }
}


/// Reads the parameter names from `pos` on up to the `)`, as [`params`]
/// says: the names, the place behind them, and whether the `)` was found.
pub fn parse_params(tokens: &Vec<Spanned<Token>>, pos: usize) -> (out: (Vec<String>, usize, bool))
    requires
        pos <= tokens.len(),
    ensures
        ({
            let list = params(tokens_model(tokens@), pos as int);
            &&& names_model(out.0@) == list.names
            &&& out.1 == pos + list.taken
            &&& out.1 <= tokens.len()
            &&& out.2 == list.closed
            &&& out.2 ==> out.1 > pos
        }),
{
    let ghost t = tokens_model(tokens@);
    let mut names: Vec<String> = Vec::new();
    let mut p: usize = pos;
    proof {
        assert(names_model(names@) =~= Seq::empty());
        assert(params(t, pos as int).names =~= names_model(names@) + params(t, pos as int).names);
    }
    loop
        invariant
            t == tokens_model(tokens@),
            pos <= p <= tokens.len(),
            ({
                let whole = params(t, pos as int);
                let rest = params(t, p as int);
                &&& whole.names == names_model(names@) + rest.names
                &&& whole.taken == (p - pos) + rest.taken
                &&& whole.closed == rest.closed
            }),
        decreases tokens.len() - p,
    {
        if p >= tokens.len() {
            assert(names_model(names@) + Seq::empty() =~= names_model(names@));
            return (names, p, false);
        }
        let ghost names_before = names@;
        match &tokens[p].0 {
            Token::Ctrl(c) => {
                assert(names_model(names@) + Seq::empty() =~= names_model(names@));
                if *c == ')' {
                    return (names, p + 1, true);
                } else {
                    return (names, p, false);
                }
            },
            Token::Ident(name) => {
                names.push(name.clone());
                assert(names_model(names@) =~= names_model(names_before) + seq![name@]);
                if ctrl_at(tokens, p + 1, ',') {
                    proof {
                        let more = params(t, p + 2);
                        assert(names_model(names_before) + (seq![name@] + more.names)
                            =~= names_model(names@) + more.names);
                    }
                    p = p + 2;
                } else if ctrl_at(tokens, p + 1, ')') {
                    return (names, p + 2, true);
                } else {
                    return (names, p + 1, false);
                }
            },
            _ => {
                assert(names_model(names@) + Seq::empty() =~= names_model(names@));
                return (names, p, false);
            },
        }
    }
}

/// The model of what reading a declaration gives.
pub open spec fn declared_model(found: Option<(String, Span, Func)>) -> Option<Declared> {
    match found {
        Some(d) => Some(Declared { name: d.0@, name_span: d.1, func: d.2@ }),
        None => None,
    }
}

/// Records that `expected` was missing at `at` in the declaration whose
/// `fn` stands at `pos`, and skips to the next `fn`.
fn drop_declaration(
    tokens: &Vec<Spanned<Token>>,
    eoi: Span,
    pos: usize,
    at: usize,
    expected: Expected,
    errors: &mut Vec<Error>,
) -> (stop: usize)
    requires
        pos < at <= tokens.len(),
    ensures
        stop == at + next_fn_len(tokens_model(tokens@), at as int),
        stop <= tokens.len(),
        errors_model(final(errors)@) == errors_model(old(errors)@) + seq![
            unexpected(tokens_model(tokens@), eoi, at as int, expected),
        ],
{
    let error = Error { span: span_of(tokens, eoi, at), kind: ErrorKind::SyntaxError(expected) };
    let ghost before = errors@;
    errors.push(error);
    assert(errors_model(errors@) =~= errors_model(before) + seq![error@]);
    skip_to_fn(tokens, at)
}

/// Reads the declaration whose `fn` stands at `pos`, as [`declaration`]
/// says: the function with its name and where the name stands, unless the
/// header does not fit, and the place behind the declaration.
pub fn parse_declaration(
    tokens: &Vec<Spanned<Token>>,
    eoi: Span,
    pos: usize,
    errors: &mut Vec<Error>,
) -> (out: (Option<(String, Span, Func)>, usize))
    requires
        pos < tokens.len(),
    ensures
        ({
            let d = declaration(tokens_model(tokens@), eoi, pos as int);
            &&& declared_model(out.0) == d.declared
            &&& out.1 == pos + 1 + d.taken
            &&& out.1 <= tokens.len()
            &&& errors_model(final(errors)@) == errors_model(old(errors)@) + d.errors
        }),
{
    let ghost t = tokens_model(tokens@);
    let name = if pos + 1 < tokens.len() {
        match &tokens[pos + 1].0 {
            Token::Ident(name) => Some(name.clone()),
            _ => None,
        }
    } else {
        None
    };
    let name = match name {
        Some(name) => name,
        None => {
            let stop = drop_declaration(tokens, eoi, pos, pos + 1, Expected::Identifier, errors);
            return (None, stop);
        },
    };
    let name_span = tokens[pos + 1].1;
    if !ctrl_at(tokens, pos + 2, '(') {
        let stop = drop_declaration(tokens, eoi, pos, pos + 2, Expected::Ctrl('('), errors);
        return (None, stop);
    }
    let (args, open, closed) = parse_params(tokens, pos + 3);
    if !closed {
        let stop = drop_declaration(tokens, eoi, pos, open, Expected::Ctrl(')'), errors);
        return (None, stop);
    }
    if !ctrl_at(tokens, open, '{') {
        let stop = drop_declaration(tokens, eoi, pos, open, Expected::Ctrl('{'), errors);
        return (None, stop);
    }
    let span = join_spans(tokens[pos].1, span_of(tokens, eoi, open - 1));
    let (body, close) = parse_expr(tokens, eoi, open + 1, errors);
    let func = Func { args, span, body };
    if ctrl_at(tokens, close, '}') {
        (Some((name, name_span, func)), close + 1)
    } else {
        let error = Error {
            span: span_of(tokens, eoi, close),
            kind: ErrorKind::SyntaxError(Expected::Ctrl('}')),
        };
        let ghost before = errors@;
        errors.push(error);
        assert(errors_model(errors@) =~= errors_model(before).push(error@));
        let stop = skip_to_fn(tokens, close);
        (Some((name, name_span, func)), stop)
    }
}

/// Parses a program: the table of its functions and the errors met, as
/// [`parse`] says. `eoi` is the span of the end of the text, where errors
/// about missing tokens are reported.
pub fn funcs_parser(tokens: &Vec<Spanned<Token>>, eoi: Span) -> (out: (FuncTable, Vec<Error>))
    ensures
        out.0@ == parse(tokens_model(tokens@), eoi).funcs,
        errors_model(out.1@) == parse(tokens_model(tokens@), eoi).errors,
{
    let ghost t = tokens_model(tokens@);
    let mut table = FuncTable::new();
    let mut errors: Vec<Error> = Vec::new();
    let mut pos: usize = 0;
    proof {
        assert(errors_model(errors@) =~= Seq::empty());
        assert(parse(t, eoi).errors =~= errors_model(errors@) + program(t, eoi, 0, table@).errors);
    }
    while pos < tokens.len()
        invariant
            t == tokens_model(tokens@),
            pos <= tokens.len(),
            parse(t, eoi).funcs == program(t, eoi, pos as int, table@).funcs,
            parse(t, eoi).errors == errors_model(errors@) + program(
                t,
                eoi,
                pos as int,
                table@,
            ).errors,
        decreases tokens.len() - pos,
    {
        let ghost errors_before = errors@;
        let ghost table_before = table@;
        if is_fn(&tokens[pos].0) {
            let (found, next) = parse_declaration(tokens, eoi, pos, &mut errors);
            let ghost first = declaration(t, eoi, pos as int);
            match found {
                Some((name, name_span, func)) => {
                    let again = name.clone();
                    let ghost mid = errors@;
                    if table.insert(name, func) {
                        let error = Error {
                            span: name_span,
                            kind: ErrorKind::DuplicateFunction(again),
                        };
                        errors.push(error);
                        assert(errors_model(errors@) =~= errors_model(mid).push(error@));
                    }
                },
                None => {},
            }
            proof {
                let rest = program(t, eoi, next as int, table@);
                assert(errors_model(errors@) =~= errors_model(errors_before) + declaration_errors(
                    first,
                    table_before,
                ));
                assert(errors_model(errors_before) + (declaration_errors(first, table_before)
                    + rest.errors) =~= errors_model(errors@) + rest.errors);
            }
            pos = next;
        } else {
            let error = Error {
                span: tokens[pos].1,
                kind: ErrorKind::SyntaxError(Expected::Function),
            };
            errors.push(error);
            let next = skip_to_fn(tokens, pos + 1);
            proof {
                let rest = program(t, eoi, next as int, table@);
                assert(errors_model(errors@) =~= errors_model(errors_before) + seq![error@]);
                assert(errors_model(errors_before) + (seq![error@] + rest.errors) =~= errors_model(
                    errors@,
                ) + rest.errors);
            }
            pos = next;
        }
    }
    proof {
        assert(errors_model(errors@) + Seq::empty() =~= errors_model(errors@));
    }
    (table, errors)
}

} // verus!
