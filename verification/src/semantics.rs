//! What expressions mean: [`eval`] says what an expression evaluates to,
//! against a stack of local bindings and the table of declared functions.

use vstd::prelude::*;
use crate::common::{
    BinaryOp, ErrorKindModel, ErrorModel, Expected, ExprModel, FuncModel, Kind, Span, Spanned,
    ValueModel,
};
use crate::display::display;
use crate::numbers::{value_eq, Numbers};

verus! {

/// The local bindings that an expression sees, oldest first.
pub type Bindings = Seq<(Seq<char>, ValueModel)>;

/// What evaluating one expression gives: a value or the first failure, and
/// the lines printed on the way, in order.
pub struct Run {
    pub result: Result<ValueModel, ErrorModel>,
    pub printed: Seq<Seq<char>>,
}

/// What evaluating a run of expressions gives: their values in order or the
/// first failure, and the lines printed on the way.
pub struct Runs {
    pub result: Result<Seq<ValueModel>, ErrorModel>,
    pub printed: Seq<Seq<char>>,
}

/// The value of the most recent binding of `name`, if there is one.
pub open spec fn lookup(stack: Bindings, name: Seq<char>) -> Option<ValueModel>
    decreases stack.len(),
{
    if stack.len() == 0 {
        None
    } else if stack.last().0 == name {
        Some(stack.last().1)
    } else {
        lookup(stack.drop_last(), name)
    }
}

/// The bindings of a call: each parameter with the argument in its place.
pub open spec fn bind(params: Seq<Seq<char>>, args: Seq<ValueModel>) -> Bindings {
    Seq::new(params.len(), |i: int| (params[i], args[i]))
}

/// No placeholder for a failed parse occurs in the expression.
pub open spec fn complete(e: ExprModel) -> bool
    decreases e, 0nat,
{
    match e {
        ExprModel::Error => false,
        ExprModel::Value(_) => true,
        ExprModel::List(items) => complete_upto(items, items.len()),
        ExprModel::Local(_) => true,
        ExprModel::Let(_, bound, body) => complete(bound.0) && complete(body.0),
        ExprModel::Then(first, second) => complete(first.0) && complete(second.0),
        ExprModel::Binary(left, _, right) => complete(left.0) && complete(right.0),
        ExprModel::Call(callee, args) => complete(callee.0) && complete_upto(args, args.len()),
        ExprModel::If(cond, yes, no) => complete(cond.0) && complete(yes.0) && complete(no.0),
        ExprModel::Print(inner) => complete(inner.0),
    }
}

/// The first `k` of `items` are complete.
pub open spec fn complete_upto(items: Seq<Spanned<ExprModel>>, k: nat) -> bool
    decreases items, k,
{
    if k == 0 || k > items.len() {
        true
    } else {
        complete_upto(items, (k - 1) as nat) && complete(items[k - 1].0)
    }
}

/// The first `k` of `items` are complete where each of them is.
pub proof fn complete_upto_each(items: Seq<Spanned<ExprModel>>, k: nat)
    requires
        k <= items.len(),
    ensures
        complete_upto(items, k) <==> forall|i: int|
            0 <= i < k ==> complete((#[trigger] items[i]).0),
    decreases k,
{
    if k > 0 {
        complete_upto_each(items, (k - 1) as nat);
        if complete_upto(items, k) {
            assert forall|i: int| 0 <= i < k implies complete((#[trigger] items[i]).0) by {}
        }
    }
}

/// The body of every function in the table is complete.
pub open spec fn table_complete(funcs: Map<Seq<char>, FuncModel>) -> bool {
    forall|name: Seq<char>| #[trigger] funcs.contains_key(name) ==> complete(funcs[name].body.0)
}

/// A failure at `span`.
pub open spec fn failure(span: Span, kind: ErrorKindModel) -> Result<ValueModel, ErrorModel> {
    Err(ErrorModel { span, kind })
}

/// What `expr` evaluates to.
///
/// `stack` holds the local bindings in scope, `funcs` the declared
/// functions, and `depth` says how many calls may be nested inside this
/// evaluation.
///
/// - A literal is its value. A list evaluates its items from left to right.
/// - A name is its most recent binding, or else the function declared
///   under it.
/// - A `let` evaluates its body with one more binding, which ends with
///   the body.
/// - An arithmetic operator wants a number on its left, which is tested
///   before the right operand is evaluated, and a number on its right.
///   `==` and `!=` take any two values.
/// - A call wants a function as its callee. The number of arguments is
///   tested first; then the arguments are evaluated in the caller's
///   bindings; then the body is evaluated against the bound arguments
///   alone: nothing of the caller's bindings is visible in it.
/// - An `if` wants a boolean and evaluates one branch.
/// - A `print` adds the text of its value to the lines printed and gives
///   the value.
///
/// The first failure ends the evaluation. An error node, which no
/// [`complete`] expression holds, fails as the syntax error it stands for.
pub open spec fn eval(
    n: Numbers,
    funcs: Map<Seq<char>, FuncModel>,
    stack: Bindings,
    depth: nat,
    expr: Spanned<ExprModel>,
) -> Run
    decreases depth, expr, 0nat,
{
    match expr.0 {
        ExprModel::Error => Run { result: failure(expr.1, ErrorKindModel::SyntaxError(Expected::Expression)), printed: Seq::empty() },
        ExprModel::Value(v) => Run { result: Ok(v), printed: Seq::empty() },
        ExprModel::List(items) => {
            let all = eval_all(n, funcs, stack, depth, items, items.len());
            match all.result {
                Ok(values) => Run { result: Ok(ValueModel::List(values)), printed: all.printed },
                Err(e) => Run { result: Err(e), printed: all.printed },
            }
        },
        ExprModel::Local(name) => Run {
            result: match lookup(stack, name) {
                Some(v) => Ok(v),
                None => if funcs.contains_key(name) {
                    Ok(ValueModel::Func(name))
                } else {
                    failure(expr.1, ErrorKindModel::UnboundVariable(name))
                },
            },
            printed: Seq::empty(),
        },
        ExprModel::Let(name, bound, body) => {
            let first = eval(n, funcs, stack, depth, *bound);
            match first.result {
                Ok(v) => {
                    let rest = eval(n, funcs, stack.push((name, v)), depth, *body);
                    Run { result: rest.result, printed: first.printed + rest.printed }
                },
                Err(e) => first,
            }
        },
        ExprModel::Then(a, b) => {
            let first = eval(n, funcs, stack, depth, *a);
            match first.result {
                Ok(_) => {
                    let rest = eval(n, funcs, stack, depth, *b);
                    Run { result: rest.result, printed: first.printed + rest.printed }
                },
                Err(e) => first,
            }
        },
        ExprModel::Binary(a, op, b) => {
            let left = eval(n, funcs, stack, depth, *a);
            match left.result {
                Err(e) => left,
                Ok(x) => if op.is_arithmetic() && !(x is Num) {
                    Run {
                        result: failure(
                            a.1,
                            ErrorKindModel::TypeMismatch { wanted: Kind::Number, value: x },
                        ),
                        printed: left.printed,
                    }
                } else {
                    let right = eval(n, funcs, stack, depth, *b);
                    let printed = left.printed + right.printed;
                    match right.result {
                        Err(e) => Run { result: Err(e), printed },
                        Ok(y) => Run { result: apply(n, op, x, y, b.1), printed },
                    }
                },
            }
        },
        ExprModel::Call(callee, args) => {
            let target = eval(n, funcs, stack, depth, *callee);
            match target.result {
                Err(e) => target,
                Ok(ValueModel::Func(name)) => {
                    if !funcs.contains_key(name) {
                        Run {
                            result: failure(expr.1, ErrorKindModel::UnknownFunction(name)),
                            printed: target.printed,
                        }
                    } else if funcs[name].args.len() != args.len() {
                        Run {
                            result: failure(
                                expr.1,
                                ErrorKindModel::ArityMismatch {
                                    name,
                                    expected: funcs[name].args.len() as usize,
                                    found: args.len() as usize,
                                },
                            ),
                            printed: target.printed,
                        }
                    } else {
                        let given = eval_all(n, funcs, stack, depth, args, args.len());
                        let printed = target.printed + given.printed;
                        match given.result {
                            Err(e) => Run { result: Err(e), printed },
                            Ok(values) => if depth == 0 {
                                Run {
                                    result: failure(expr.1, ErrorKindModel::DepthExceeded),
                                    printed,
                                }
                            } else {
                                let inner = eval(
                                    n,
                                    funcs,
                                    bind(funcs[name].args, values),
                                    (depth - 1) as nat,
                                    funcs[name].body,
                                );
                                Run { result: inner.result, printed: printed + inner.printed }
                            },
                        }
                    }
                },
                Ok(other) => Run {
                    result: failure(
                        callee.1,
                        ErrorKindModel::TypeMismatch { wanted: Kind::Function, value: other },
                    ),
                    printed: target.printed,
                },
            }
        },
        ExprModel::If(cond, yes, no) => {
            let test = eval(n, funcs, stack, depth, *cond);
            match test.result {
                Err(e) => test,
                Ok(ValueModel::Bool(c)) => {
                    let branch = eval(
                        n,
                        funcs,
                        stack,
                        depth,
                        if c {
                            *yes
                        } else {
                            *no
                        },
                    );
                    Run { result: branch.result, printed: test.printed + branch.printed }
                },
                Ok(other) => Run {
                    result: failure(
                        cond.1,
                        ErrorKindModel::TypeMismatch { wanted: Kind::Boolean, value: other },
                    ),
                    printed: test.printed,
                },
            }
        },
        ExprModel::Print(inner) => {
            let shown = eval(n, funcs, stack, depth, *inner);
            match shown.result {
                Err(e) => shown,
                Ok(v) => Run { result: Ok(v), printed: shown.printed.push(display(n, v)) },
            }
        },
    }
}

/// What a binary operator gives for two values, the left one already known
/// to be a number where the operator is arithmetic. `right_span` is where
/// the right operand stands.
pub open spec fn apply(n: Numbers, op: BinaryOp, x: ValueModel, y: ValueModel, right_span: Span) -> Result<
    ValueModel,
    ErrorModel,
> {
    match op {
        BinaryOp::Eq => Ok(ValueModel::Bool(value_eq(x, y))),
        BinaryOp::NotEq => Ok(ValueModel::Bool(!value_eq(x, y))),
        _ => match (x, y) {
            (ValueModel::Num(a), ValueModel::Num(b)) => Ok(ValueModel::Num((n.arith)(op, a, b))),
            _ => failure(
                right_span,
                ErrorKindModel::TypeMismatch { wanted: Kind::Number, value: y },
            ),
        },
    }
}

/// What the first `k` of `items` evaluate to, left to right, up to the
/// first failure.
pub open spec fn eval_all(
    n: Numbers,
    funcs: Map<Seq<char>, FuncModel>,
    stack: Bindings,
    depth: nat,
    items: Seq<Spanned<ExprModel>>,
    k: nat,
) -> Runs
    decreases depth, items, k,
{
    if k == 0 || k > items.len() {
        Runs { result: Ok(Seq::empty()), printed: Seq::empty() }
    } else {
        let before = eval_all(n, funcs, stack, depth, items, (k - 1) as nat);
        match before.result {
            Err(e) => before,
            Ok(values) => {
                let next = eval(n, funcs, stack, depth, items[k - 1]);
                let printed = before.printed + next.printed;
                match next.result {
                    Err(e) => Runs { result: Err(e), printed },
                    Ok(v) => Runs { result: Ok(values.push(v)), printed },
                }
            },
        }
    }
}

} // verus!
