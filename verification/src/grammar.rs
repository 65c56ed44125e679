//! The grammar, as a function from tokens to syntax trees.
//!
//! A program is a sequence of function declarations,
//! `fn name(params, ...) { body }`. A body is an expression. From the
//! loosest to the tightest binding, an expression is
//!
//! - a sequence `first; rest`, which nests to the right, and whose `rest`
//!   may be missing before a closing delimiter (it is then `null`);
//! - `let name = value; rest`, which binds `name` in `rest`;
//! - a comparison with `==` or `!=`, then a sum with `+` or `-`, then a
//!   product with `*` or `/`, each associating to the left;
//! - a call `callee(args, ...)`, which may be repeated;
//! - an atom: a literal, a name, a list `[items, ...]`, an expression in
//!   parentheses, `if cond { yes } else { no }`, or `print value`.
//!
//! The items of a list, the arguments of a call, the branches of an `if`
//! and what stands in parentheses are expressions of any kind. The value of
//! a `let`, the condition of an `if` and the value of a `print` are
//! comparisons or tighter. A comma may follow the last item, argument or
//! parameter.
//!
//! Where the tokens do not fit, an error is recorded at the token that does
//! not fit, the construct becomes an [`ExprModel::Error`], and the tokens
//! up to the next `;` or closing delimiter at the same nesting are skipped.
//! A declaration that does not fit is skipped up to the next `fn`.
//! A name declared twice is an error at the later name, and the later
//! declaration stands.
//!
//! Every function here says how many tokens it takes, so a place in the
//! token sequence never moves backwards.

use vstd::prelude::*;
use crate::common::{
    BinaryOp, ErrorKindModel, ErrorModel, Expected, ExprModel, FuncModel, Span, Spanned,
    TokenModel, ValueModel,
};

verus! {

/// A run of tokens, each with its span.
pub type Tokens = Seq<Spanned<TokenModel>>;

/// The token at `pos`, if there is one.
pub open spec fn peek(t: Tokens, pos: int) -> Option<TokenModel> {
    if 0 <= pos < t.len() {
        Some(t[pos].0)
    } else {
        None
    }
}

/// The span of the token at `pos`, or of the end of input behind the last.
pub open spec fn span_at(t: Tokens, eoi: Span, pos: int) -> Span {
    if 0 <= pos < t.len() {
        t[pos].1
    } else {
        eoi
    }
}

/// Whether the control character `c` stands at `pos`.
pub open spec fn is_ctrl_at(t: Tokens, pos: int, c: char) -> bool {
    peek(t, pos) == Some(TokenModel::Ctrl(c))
}

/// Whether the operator spelled `op` stands at `pos`.
pub open spec fn is_op_at(t: Tokens, pos: int, op: Seq<char>) -> bool {
    peek(t, pos) == Some(TokenModel::Op(op))
}

/// The span from the start of `a` to the end of `b`.
pub open spec fn join(a: Span, b: Span) -> Span {
    Span { start: a.start, end: b.end }
}

/// The empty span at the end of `a`.
pub open spec fn end_of(a: Span) -> Span {
    Span { start: a.end, end: a.end }
}

/// The span of the tokens from `start` up to `end`; empty, at the start of
/// the token at `start`, where there are none.
pub open spec fn cover(t: Tokens, eoi: Span, start: int, end: int) -> Span {
    let first = span_at(t, eoi, start);
    if start < end {
        join(first, span_at(t, eoi, end - 1))
    } else {
        Span { start: first.start, end: first.start }
    }
}

/// A syntax error at the token at `pos`.
pub open spec fn unexpected(t: Tokens, eoi: Span, pos: int, expected: Expected) -> ErrorModel {
    ErrorModel { span: span_at(t, eoi, pos), kind: ErrorKindModel::SyntaxError(expected) }
}

/// How many tokens from `pos` on are skipped to get back in step: those up
/// to the next `;` or closing delimiter that is not nested in delimiters
/// opened since `pos`. `depth` counts the delimiters that are open.
pub open spec fn sync_len(t: Tokens, pos: int, depth: nat) -> nat
    decreases t.len() - pos,
{
    if 0 <= pos < t.len() {
        match t[pos].0 {
            TokenModel::Ctrl(c) => if c == '(' || c == '[' || c == '{' {
                1 + sync_len(t, pos + 1, depth + 1)
            } else if c == ')' || c == ']' || c == '}' {
                if depth == 0 {
                    0
                } else {
                    1 + sync_len(t, pos + 1, (depth - 1) as nat)
                }
            } else if c == ';' && depth == 0 {
                0
            } else {
                1 + sync_len(t, pos + 1, depth)
            },
            _ => 1 + sync_len(t, pos + 1, depth),
        }
    } else {
        0
    }
}

/// How many tokens from `pos` on stand before the next `fn`.
pub open spec fn next_fn_len(t: Tokens, pos: int) -> nat
    decreases t.len() - pos,
{
    if 0 <= pos < t.len() && !(t[pos].0 is Fn) {
        1 + next_fn_len(t, pos + 1)
    } else {
        0
    }
}

/// How many tokens stand at and behind `pos`.
pub open spec fn remaining(t: Tokens, pos: int) -> nat {
    if 0 <= pos <= t.len() {
        (t.len() - pos) as nat
    } else {
        0
    }
}

/// The result of reading one expression: the expression, how many tokens
/// it took, and the errors met on the way.
pub struct Step {
    pub expr: Spanned<ExprModel>,
    pub taken: nat,
    pub errors: Seq<ErrorModel>,
}

/// The result of reading a comma-separated run of expressions up to a
/// closing delimiter. `closed` says whether the delimiter was found; it is
/// then among the tokens taken.
pub struct Items {
    pub items: Seq<Spanned<ExprModel>>,
    pub taken: nat,
    pub errors: Seq<ErrorModel>,
    pub closed: bool,
}

/// What becomes of a construct that started at `start` and went wrong
/// `used` tokens later: an error node and one error. The tokens up to the
/// next `;` or closing delimiter are skipped; where `closer` is given and
/// is that delimiter, it is taken too. `before` are the errors met earlier
/// in the construct.
pub open spec fn fail(
    t: Tokens,
    eoi: Span,
    start: int,
    used: nat,
    expected: Expected,
    closer: Option<char>,
    before: Seq<ErrorModel>,
) -> Step {
    let stop = start + used + sync_len(t, start + used, 0);
    let taken = if closer is Some && is_ctrl_at(t, stop, closer->Some_0) {
        used + sync_len(t, start + used, 0) + 1
    } else {
        used + sync_len(t, start + used, 0)
    };
    Step {
        expr: (ExprModel::Error, cover(t, eoi, start, start + taken)),
        taken,
        errors: before.push(unexpected(t, eoi, start + used, expected)),
    }
}

/// Whether an expression can start with this token.
pub open spec fn starts_expr(token: Option<TokenModel>) -> bool {
    match token {
        Some(TokenModel::Null) => true,
        Some(TokenModel::Bool(_)) => true,
        Some(TokenModel::Num(_)) => true,
        Some(TokenModel::Str(_)) => true,
        Some(TokenModel::Ident(_)) => true,
        Some(TokenModel::Ctrl(c)) => c == '(' || c == '[',
        Some(TokenModel::Let) => true,
        Some(TokenModel::If) => true,
        Some(TokenModel::Print) => true,
        _ => false,
    }
}

/// The binary operator of binding level `level` that stands at `pos`, if
/// one does: level 0 holds `==` and `!=`, level 1 `+` and `-`, level 2 `*`
/// and `/`.
pub open spec fn op_at(t: Tokens, pos: int, level: nat) -> Option<BinaryOp> {
    if level == 0 {
        if is_op_at(t, pos, "=="@) {
            Some(BinaryOp::Eq)
        } else if is_op_at(t, pos, "!="@) {
            Some(BinaryOp::NotEq)
        } else {
            None
        }
    } else if level == 1 {
        if is_op_at(t, pos, "+"@) {
            Some(BinaryOp::Add)
        } else if is_op_at(t, pos, "-"@) {
            Some(BinaryOp::Sub)
        } else {
            None
        }
    } else if level == 2 {
        if is_op_at(t, pos, "*"@) {
            Some(BinaryOp::Mul)
        } else if is_op_at(t, pos, "/"@) {
            Some(BinaryOp::Div)
        } else {
            None
        }
    } else {
        None
    }
}

/// The expression that starts at `pos`: a `let` or an operator expression,
/// and then, behind a `;`, the rest of the sequence.
pub open spec fn expr(t: Tokens, eoi: Span, pos: int) -> Step
    decreases remaining(t, pos), 10nat,
{
    if 0 <= pos < t.len() {
        let first = if t[pos].0 is Let {
            let_(t, eoi, pos)
        } else {
            binary(t, eoi, pos, 0)
        };
        let p = pos + first.taken;
        if is_ctrl_at(t, p, ';') {
            if starts_expr(peek(t, p + 1)) {
                let rest = expr(t, eoi, p + 1);
                Step {
                    expr: (
                        ExprModel::Then(Box::new(first.expr), Box::new(rest.expr)),
                        join(first.expr.1, rest.expr.1),
                    ),
                    taken: first.taken + 1 + rest.taken,
                    errors: first.errors + rest.errors,
                }
            } else {
                Step {
                    expr: (
                        ExprModel::Then(
                            Box::new(first.expr),
                            Box::new((ExprModel::Value(ValueModel::Null), end_of(t[p].1))),
                        ),
                        join(first.expr.1, t[p].1),
                    ),
                    taken: first.taken + 1,
                    errors: first.errors,
                }
            }
        } else {
            first
        }
    } else {
        fail(t, eoi, pos, 0, Expected::Expression, None, Seq::empty())
    }
}

/// The `let` whose keyword stands at `pos`.
pub open spec fn let_(t: Tokens, eoi: Span, pos: int) -> Step
    decreases remaining(t, pos), 9nat,
{
    if 0 <= pos < t.len() {
        match peek(t, pos + 1) {
            Some(TokenModel::Ident(name)) => if is_op_at(t, pos + 2, "="@) {
                let value = binary(t, eoi, pos + 3, 0);
                let p = pos + 3 + value.taken;
                if is_ctrl_at(t, p, ';') {
                    let body = expr(t, eoi, p + 1);
                    Step {
                        expr: (
                            ExprModel::Let(name, Box::new(value.expr), Box::new(body.expr)),
                            join(t[pos].1, body.expr.1),
                        ),
                        taken: 3 + value.taken + 1 + body.taken,
                        errors: value.errors + body.errors,
                    }
                } else {
                    fail(t, eoi, pos, 3 + value.taken, Expected::Ctrl(';'), None, value.errors)
                }
            } else {
                fail(t, eoi, pos, 2, Expected::Assign, None, Seq::empty())
            },
            _ => fail(t, eoi, pos, 1, Expected::Identifier, None, Seq::empty()),
        }
    } else {
        fail(t, eoi, pos, 0, Expected::Expression, None, Seq::empty())
    }
}

/// The operator expression of binding level `level` that starts at `pos`;
/// above level 2 it is a call.
pub open spec fn binary(t: Tokens, eoi: Span, pos: int, level: nat) -> Step
    decreases remaining(t, pos), (if level < 3 {
        8 - level
    } else {
        5
    }) as nat,
{
    if 0 <= pos <= t.len() {
        if level < 3 {
            let first = binary(t, eoi, pos, level + 1);
            chain(t, eoi, pos + first.taken, level, first)
        } else {
            call(t, eoi, pos)
        }
    } else {
        fail(t, eoi, pos, 0, Expected::Expression, None, Seq::empty())
    }
}

/// Extends `left`, which ends before `pos`, by the operators of `level`
/// that follow with their operands, nesting to the left.
pub open spec fn chain(t: Tokens, eoi: Span, pos: int, level: nat, left: Step) -> Step
    decreases remaining(t, pos), 0nat,
{
    if 0 <= pos < t.len() && level < 3 {
        match op_at(t, pos, level) {
            Some(op) => {
                let right = binary(t, eoi, pos + 1, level + 1);
                chain(
                    t,
                    eoi,
                    pos + 1 + right.taken,
                    level,
                    Step {
                        expr: (
                            ExprModel::Binary(Box::new(left.expr), op, Box::new(right.expr)),
                            join(left.expr.1, right.expr.1),
                        ),
                        taken: left.taken + 1 + right.taken,
                        errors: left.errors + right.errors,
                    },
                )
            },
            None => left,
        }
    } else {
        left
    }
}

/// The call that starts at `pos`: an atom and the argument lists behind it.
pub open spec fn call(t: Tokens, eoi: Span, pos: int) -> Step
    decreases remaining(t, pos), 4nat,
{
    if 0 <= pos <= t.len() {
        let callee = atom(t, eoi, pos);
        calls(t, eoi, pos + callee.taken, callee)
    } else {
        fail(t, eoi, pos, 0, Expected::Expression, None, Seq::empty())
    }
}

/// Extends `callee`, which ends before `pos`, by the argument lists that
/// follow.
pub open spec fn calls(t: Tokens, eoi: Span, pos: int, callee: Step) -> Step
    decreases remaining(t, pos), 0nat,
{
    if 0 <= pos < t.len() && is_ctrl_at(t, pos, '(') {
        let args = items(t, eoi, pos + 1, ')');
        if args.closed {
            calls(
                t,
                eoi,
                pos + 1 + args.taken,
                Step {
                    expr: (
                        ExprModel::Call(Box::new(callee.expr), args.items),
                        join(callee.expr.1, span_at(t, eoi, pos + args.taken)),
                    ),
                    taken: callee.taken + 1 + args.taken,
                    errors: callee.errors + args.errors,
                },
            )
        } else {
            let failed = fail(
                t,
                eoi,
                pos,
                1 + args.taken,
                Expected::Ctrl(')'),
                Some(')'),
                callee.errors + args.errors,
            );
            Step { expr: failed.expr, taken: callee.taken + failed.taken, errors: failed.errors }
        }
    } else {
        callee
    }
}

/// The atom that starts at `pos`.
pub open spec fn atom(t: Tokens, eoi: Span, pos: int) -> Step
    decreases remaining(t, pos), 3nat,
{
    if 0 <= pos < t.len() {
        let span = t[pos].1;
        match t[pos].0 {
            TokenModel::Null => Step {
                expr: (ExprModel::Value(ValueModel::Null), span),
                taken: 1,
                errors: Seq::empty(),
            },
            TokenModel::Bool(b) => Step {
                expr: (ExprModel::Value(ValueModel::Bool(b)), span),
                taken: 1,
                errors: Seq::empty(),
            },
            TokenModel::Num(x) => Step {
                expr: (ExprModel::Value(ValueModel::Num(x)), span),
                taken: 1,
                errors: Seq::empty(),
            },
            TokenModel::Str(s) => Step {
                expr: (ExprModel::Value(ValueModel::Str(s)), span),
                taken: 1,
                errors: Seq::empty(),
            },
            TokenModel::Ident(name) => Step {
                expr: (ExprModel::Local(name), span),
                taken: 1,
                errors: Seq::empty(),
            },
            TokenModel::Print => {
                let value = binary(t, eoi, pos + 1, 0);
                Step {
                    expr: (ExprModel::Print(Box::new(value.expr)), join(span, value.expr.1)),
                    taken: 1 + value.taken,
                    errors: value.errors,
                }
            },
            TokenModel::If => if_(t, eoi, pos),
            TokenModel::Ctrl(c) => if c == '[' {
                let list = items(t, eoi, pos + 1, ']');
                if list.closed {
                    Step {
                        expr: (
                            ExprModel::List(list.items),
                            join(span, span_at(t, eoi, pos + list.taken)),
                        ),
                        taken: 1 + list.taken,
                        errors: list.errors,
                    }
                } else {
                    fail(t, eoi, pos, 1 + list.taken, Expected::Ctrl(']'), Some(']'), list.errors)
                }
            } else if c == '(' {
                let inner = expr(t, eoi, pos + 1);
                if is_ctrl_at(t, pos + 1 + inner.taken, ')') {
                    Step { expr: inner.expr, taken: 1 + inner.taken + 1, errors: inner.errors }
                } else {
                    fail(t, eoi, pos, 1 + inner.taken, Expected::Ctrl(')'), Some(')'), inner.errors)
                }
            } else {
                fail(t, eoi, pos, 0, Expected::Expression, None, Seq::empty())
            },
            _ => fail(t, eoi, pos, 0, Expected::Expression, None, Seq::empty()),
        }
    } else {
        fail(t, eoi, pos, 0, Expected::Expression, None, Seq::empty())
    }
}

/// The `if` whose keyword stands at `pos`.
pub open spec fn if_(t: Tokens, eoi: Span, pos: int) -> Step
    decreases remaining(t, pos), 2nat,
{
    if 0 <= pos < t.len() {
        let cond = binary(t, eoi, pos + 1, 0);
        let p1 = pos + 1 + cond.taken;
        if !is_ctrl_at(t, p1, '{') {
            fail(t, eoi, pos, 1 + cond.taken, Expected::Ctrl('{'), None, cond.errors)
        } else {
            let yes = expr(t, eoi, p1 + 1);
            let p2 = p1 + 1 + yes.taken;
            let so_far = cond.errors + yes.errors;
            if !is_ctrl_at(t, p2, '}') {
                fail(t, eoi, pos, (p2 - pos) as nat, Expected::Ctrl('}'), Some('}'), so_far)
            } else if !(peek(t, p2 + 1) == Some(TokenModel::Else)) {
                fail(t, eoi, pos, (p2 + 1 - pos) as nat, Expected::Else, None, so_far)
            } else if !is_ctrl_at(t, p2 + 2, '{') {
                fail(t, eoi, pos, (p2 + 2 - pos) as nat, Expected::Ctrl('{'), None, so_far)
            } else {
                let no = expr(t, eoi, p2 + 3);
                let p3 = p2 + 3 + no.taken;
                if !is_ctrl_at(t, p3, '}') {
                    fail(
                        t,
                        eoi,
                        pos,
                        (p3 - pos) as nat,
                        Expected::Ctrl('}'),
                        Some('}'),
                        so_far + no.errors,
                    )
                } else {
                    Step {
                        expr: (
                            ExprModel::If(
                                Box::new(cond.expr),
                                Box::new(yes.expr),
                                Box::new(no.expr),
                            ),
                            join(t[pos].1, t[p3].1),
                        ),
                        taken: (p3 + 1 - pos) as nat,
                        errors: so_far + no.errors,
                    }
                }
            }
        }
    } else {
        fail(t, eoi, pos, 0, Expected::Expression, None, Seq::empty())
    }
}

/// The expressions from `pos` on, separated by commas, up to the closing
/// delimiter `closer`, before which one more comma may stand.
pub open spec fn items(t: Tokens, eoi: Span, pos: int, closer: char) -> Items
    decreases remaining(t, pos), 11nat,
{
    if 0 <= pos < t.len() {
        if is_ctrl_at(t, pos, closer) {
            Items { items: Seq::empty(), taken: 1, errors: Seq::empty(), closed: true }
        } else {
            let first = expr(t, eoi, pos);
            let p = pos + first.taken;
            if is_ctrl_at(t, p, ',') {
                let rest = items(t, eoi, p + 1, closer);
                Items {
                    items: seq![first.expr] + rest.items,
                    taken: first.taken + 1 + rest.taken,
                    errors: first.errors + rest.errors,
                    closed: rest.closed,
                }
            } else if is_ctrl_at(t, p, closer) {
                Items {
                    items: seq![first.expr],
                    taken: first.taken + 1,
                    errors: first.errors,
                    closed: true,
                }
            } else {
                Items {
                    items: seq![first.expr],
                    taken: first.taken,
                    errors: first.errors,
                    closed: false,
                }
            }
        }
    } else {
        Items { items: Seq::empty(), taken: 0, errors: Seq::empty(), closed: false }
    }
}


/// The result of reading a parameter list behind its `(`: the names, how
/// many tokens were taken, and whether the `)` was found (it is then among
/// them).
pub struct Params {
    pub names: Seq<Seq<char>>,
    pub taken: nat,
    pub closed: bool,
}

/// The parameter names from `pos` on, separated by commas, up to the `)`,
/// before which one more comma may stand.
pub open spec fn params(t: Tokens, pos: int) -> Params
    decreases remaining(t, pos),
{
    if 0 <= pos < t.len() {
        match t[pos].0 {
            TokenModel::Ctrl(c) => Params {
                names: Seq::empty(),
                taken: if c == ')' {
                    1
                } else {
                    0
                },
                closed: c == ')',
            },
            TokenModel::Ident(name) => if is_ctrl_at(t, pos + 1, ',') {
                let rest = params(t, pos + 2);
                Params {
                    names: seq![name] + rest.names,
                    taken: 2 + rest.taken,
                    closed: rest.closed,
                }
            } else if is_ctrl_at(t, pos + 1, ')') {
                Params { names: seq![name], taken: 2, closed: true }
            } else {
                Params { names: seq![name], taken: 1, closed: false }
            },
            _ => Params { names: Seq::empty(), taken: 0, closed: false },
        }
    } else {
        Params { names: Seq::empty(), taken: 0, closed: false }
    }
}

/// A declared function: its name, where the name stands, and what it is.
pub struct Declared {
    pub name: Seq<char>,
    pub name_span: Span,
    pub func: FuncModel,
}

/// The result of reading one declaration: the function, unless its header
/// does not fit; how many tokens were taken behind the `fn`; and the errors
/// met.
pub struct Declaration {
    pub declared: Option<Declared>,
    pub taken: nat,
    pub errors: Seq<ErrorModel>,
}

/// What becomes of a declaration that goes wrong `used` tokens behind its
/// `fn`, which stands at `pos`: it is dropped, with the tokens up to the
/// next `fn`.
pub open spec fn dropped(t: Tokens, eoi: Span, pos: int, used: nat, expected: Expected) -> Declaration {
    Declaration {
        declared: None,
        taken: used + next_fn_len(t, pos + 1 + used),
        errors: seq![unexpected(t, eoi, pos + 1 + used, expected)],
    }
}

/// The declaration whose `fn` stands at `pos`. Its span runs from the `fn`
/// to the `)` of its parameters. Where only the `}` behind the body is
/// missing, the function is kept, and the tokens up to the next `fn` are
/// skipped.
pub open spec fn declaration(t: Tokens, eoi: Span, pos: int) -> Declaration {
    match peek(t, pos + 1) {
        Some(TokenModel::Ident(name)) => if !is_ctrl_at(t, pos + 2, '(') {
            dropped(t, eoi, pos, 1, Expected::Ctrl('('))
        } else {
            let list = params(t, pos + 3);
            let open = pos + 3 + list.taken;
            if !list.closed {
                dropped(t, eoi, pos, 2 + list.taken, Expected::Ctrl(')'))
            } else if !is_ctrl_at(t, open, '{') {
                dropped(t, eoi, pos, 2 + list.taken, Expected::Ctrl('{'))
            } else {
                let body = expr(t, eoi, open + 1);
                let close = open + 1 + body.taken;
                let declared = Some(
                    Declared {
                        name,
                        name_span: span_at(t, eoi, pos + 1),
                        func: FuncModel {
                            args: list.names,
                            span: join(span_at(t, eoi, pos), span_at(t, eoi, open - 1)),
                            body: body.expr,
                        },
                    },
                );
                if is_ctrl_at(t, close, '}') {
                    Declaration {
                        declared,
                        taken: 3 + list.taken + body.taken + 1,
                        errors: body.errors,
                    }
                } else {
                    Declaration {
                        declared,
                        taken: 3 + list.taken + body.taken + next_fn_len(t, close),
                        errors: body.errors.push(unexpected(t, eoi, close, Expected::Ctrl('}'))),
                    }
                }
            }
        },
        _ => dropped(t, eoi, pos, 0, Expected::Identifier),
    }
}

/// A function table and the errors met in making it.
pub struct Table {
    pub funcs: Map<Seq<char>, FuncModel>,
    pub errors: Seq<ErrorModel>,
}

/// The errors of a declaration that was read with `declared` already in
/// the table: its own, and one more where its name is declared already.
pub open spec fn declaration_errors(
    first: Declaration,
    declared: Map<Seq<char>, FuncModel>,
) -> Seq<ErrorModel> {
    match first.declared {
        Some(d) => if declared.contains_key(d.name) {
            first.errors.push(
                ErrorModel { span: d.name_span, kind: ErrorKindModel::DuplicateFunction(d.name) },
            )
        } else {
            first.errors
        },
        None => first.errors,
    }
}

/// The table with a declaration entered, in place of an earlier one of
/// the same name.
pub open spec fn enter(first: Declaration, declared: Map<Seq<char>, FuncModel>) -> Map<
    Seq<char>,
    FuncModel,
> {
    match first.declared {
        Some(d) => declared.insert(d.name, d.func),
        None => declared,
    }
}

/// The table that the declarations from `pos` on make of `declared`, and
/// the errors met. Tokens that stand where a declaration should start are
/// an error and are skipped up to the next `fn`.
pub open spec fn program(t: Tokens, eoi: Span, pos: int, declared: Map<Seq<char>, FuncModel>) -> Table
    decreases remaining(t, pos),
{
    if 0 <= pos < t.len() {
        if t[pos].0 is Fn {
            let first = declaration(t, eoi, pos);
            let rest = program(t, eoi, pos + 1 + first.taken, enter(first, declared));
            Table {
                funcs: rest.funcs,
                errors: declaration_errors(first, declared) + rest.errors,
            }
        } else {
            let rest = program(t, eoi, pos + 1 + next_fn_len(t, pos + 1), declared);
            Table {
                funcs: rest.funcs,
                errors: seq![unexpected(t, eoi, pos, Expected::Function)] + rest.errors,
            }
        }
    } else {
        Table { funcs: declared, errors: Seq::empty() }
    }
}

/// The function table of a program and the errors of reading it, in the
/// order of the text.
pub open spec fn parse(t: Tokens, eoi: Span) -> Table {
    program(t, eoi, 0, Map::empty())
}

} // verus!
