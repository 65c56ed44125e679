//! What holds of every evaluation, proved from the definition of
//! [`eval`](crate::semantics::eval).

use vstd::prelude::*;
use crate::common::{
    BinaryOp, ErrorKindModel, ErrorModel, ExprModel, FuncModel, Span, Spanned, ValueModel,
};
use crate::numbers::{is_nan, num_eq, value_eq, Numbers};
use crate::semantics::{apply, bind, eval, eval_all, failure, lookup, Bindings, Run, Runs};

verus! {


/// Where the bound expression of a `let` evaluates to `v`, the whole `let`
/// evaluates to what its body does with the name bound to `v` on top of the
/// bindings that were there, after the lines that the bound expression
/// printed.
pub proof fn let_binds_for_its_body(
    n: Numbers,
    funcs: Map<Seq<char>, FuncModel>,
    stack: Bindings,
    depth: nat,
    name: Seq<char>,
    bound: Spanned<ExprModel>,
    body: Spanned<ExprModel>,
    span: Span,
    v: ValueModel,
)
    requires
        eval(n, funcs, stack, depth, bound).result == Ok::<ValueModel, ErrorModel>(v),
    ensures
        eval(
            n,
            funcs,
            stack,
            depth,
            (ExprModel::Let(name, Box::new(bound), Box::new(body)), span),
        ) == (Run {
            result: eval(n, funcs, stack.push((name, v)), depth, body).result,
            printed: eval(n, funcs, stack, depth, bound).printed + eval(
                n,
                funcs,
                stack.push((name, v)),
                depth,
                body,
            ).printed,
        }),
{
}

/// A binding made by a `let` ends with the `let`: what follows it in a
/// sequence is evaluated against the bindings that were there before.
pub proof fn let_binding_ends_with_its_body(
    n: Numbers,
    funcs: Map<Seq<char>, FuncModel>,
    stack: Bindings,
    depth: nat,
    name: Seq<char>,
    bound: Spanned<ExprModel>,
    body: Spanned<ExprModel>,
    span: Span,
    next: Spanned<ExprModel>,
    whole: Span,
)
    requires
        eval(
            n,
            funcs,
            stack,
            depth,
            (ExprModel::Let(name, Box::new(bound), Box::new(body)), span),
        ).result is Ok,
    ensures
        eval(
            n,
            funcs,
            stack,
            depth,
            (
                ExprModel::Then(
                    Box::new((ExprModel::Let(name, Box::new(bound), Box::new(body)), span)),
                    Box::new(next),
                ),
                whole,
            ),
        ).result == eval(n, funcs, stack, depth, next).result,
{
}

/// A call with another number of arguments than the function declares
/// fails with an arity mismatch that names the function and both numbers,
/// whatever the arguments are: they are not evaluated.
pub proof fn wrong_arity_always_fails(
    n: Numbers,
    funcs: Map<Seq<char>, FuncModel>,
    stack: Bindings,
    depth: nat,
    callee: Spanned<ExprModel>,
    args: Seq<Spanned<ExprModel>>,
    span: Span,
    name: Seq<char>,
)
    requires
        eval(n, funcs, stack, depth, callee).result == Ok::<ValueModel, ErrorModel>(
            ValueModel::Func(name),
        ),
        funcs.contains_key(name),
        funcs[name].args.len() != args.len(),
    ensures
        eval(n, funcs, stack, depth, (ExprModel::Call(Box::new(callee), args), span)) == (Run {
            result: failure(
                span,
                ErrorKindModel::ArityMismatch {
                    name,
                    expected: funcs[name].args.len() as usize,
                    found: args.len() as usize,
                },
            ),
            printed: eval(n, funcs, stack, depth, callee).printed,
        }),
{
}

/// A function's body sees its arguments and nothing else of its caller:
/// two callers whose bindings give the callee and the arguments the same
/// values get the same result from the call.
pub proof fn call_sees_only_its_arguments(
    n: Numbers,
    funcs: Map<Seq<char>, FuncModel>,
    here: Bindings,
    there: Bindings,
    depth: nat,
    callee: Spanned<ExprModel>,
    args: Seq<Spanned<ExprModel>>,
    span: Span,
)
    requires
        eval(n, funcs, here, depth, callee) == eval(n, funcs, there, depth, callee),
        eval_all(n, funcs, here, depth, args, args.len()) == eval_all(
            n,
            funcs,
            there,
            depth,
            args,
            args.len(),
        ),
    ensures
        eval(n, funcs, here, depth, (ExprModel::Call(Box::new(callee), args), span)) == eval(
            n,
            funcs,
            there,
            depth,
            (ExprModel::Call(Box::new(callee), args), span),
        ),
{
}

/// A name that is neither a parameter nor a declared function is unbound
/// in a function's body, whatever the caller has bound under that name.
pub proof fn caller_bindings_are_not_visible(
    n: Numbers,
    funcs: Map<Seq<char>, FuncModel>,
    params: Seq<Seq<char>>,
    args: Seq<ValueModel>,
    depth: nat,
    name: Seq<char>,
    span: Span,
)
    requires
        params.len() == args.len(),
        !params.contains(name),
        !funcs.contains_key(name),
    ensures
        eval(n, funcs, bind(params, args), depth, (ExprModel::Local(name), span)).result
            == failure(span, ErrorKindModel::UnboundVariable(name)),
{
    not_bound(bind(params, args), name);
}

/// Looking up a name that no binding has finds nothing.
pub proof fn not_bound(stack: Bindings, name: Seq<char>)
    requires
        forall|i: int| 0 <= i < stack.len() ==> (#[trigger] stack[i]).0 != name,
    ensures
        lookup(stack, name) is None,
    decreases stack.len(),
{
    if stack.len() > 0 {
        not_bound(stack.drop_last(), name);
    }
}

/// Comparing two values for equality or inequality never fails, whatever
/// their kinds: it gives a boolean, and `!=` gives the opposite of `==`.
pub proof fn comparison_never_fails(n: Numbers, x: ValueModel, y: ValueModel, span: Span)
    ensures
        apply(n, BinaryOp::Eq, x, y, span) == Ok::<ValueModel, ErrorModel>(
            ValueModel::Bool(value_eq(x, y)),
        ),
        apply(n, BinaryOp::NotEq, x, y, span) == Ok::<ValueModel, ErrorModel>(
            ValueModel::Bool(!value_eq(x, y)),
        ),
{
}

/// Where both operands evaluate, `==` evaluates to whether the two values
/// are structurally equal.
pub proof fn equality_is_structural(
    n: Numbers,
    funcs: Map<Seq<char>, FuncModel>,
    stack: Bindings,
    depth: nat,
    left: Spanned<ExprModel>,
    right: Spanned<ExprModel>,
    span: Span,
    x: ValueModel,
    y: ValueModel,
)
    requires
        eval(n, funcs, stack, depth, left).result == Ok::<ValueModel, ErrorModel>(x),
        eval(n, funcs, stack, depth, right).result == Ok::<ValueModel, ErrorModel>(y),
    ensures
        eval(
            n,
            funcs,
            stack,
            depth,
            (ExprModel::Binary(Box::new(left), BinaryOp::Eq, Box::new(right)), span),
        ).result == Ok::<ValueModel, ErrorModel>(ValueModel::Bool(value_eq(x, y))),
{
}

/// Values of different kinds are never equal.
pub proof fn kinds_do_not_mix(x: ValueModel, y: ValueModel)
    requires
        value_eq(x, y),
    ensures
        x is Null <==> y is Null,
        x is Bool <==> y is Bool,
        x is Num <==> y is Num,
        x is Str <==> y is Str,
        x is List <==> y is List,
        x is Func <==> y is Func,
{
}

/// Two lists are equal exactly when they have the same length and equal
/// items at every place.
pub proof fn lists_compare_item_by_item(xs: Seq<ValueModel>, ys: Seq<ValueModel>)
    ensures
        value_eq(ValueModel::List(xs), ValueModel::List(ys)) <==> (xs.len() == ys.len()
            && forall|i: int| 0 <= i < xs.len() ==> value_eq(#[trigger] xs[i], ys[i])),
{
}

/// Equality does not depend on the order of the two values.
pub proof fn equality_is_symmetric(x: ValueModel, y: ValueModel)
    ensures
        value_eq(x, y) == value_eq(y, x),
    decreases x,
{
    match (x, y) {
        (ValueModel::List(xs), ValueModel::List(ys)) => {
            if xs.len() == ys.len() {
                assert forall|i: int| 0 <= i < xs.len() implies value_eq(xs[i], ys[i]) == value_eq(
                    ys[i],
                    xs[i],
                ) by {
                    equality_is_symmetric(xs[i], ys[i]);
                }
            }
        },
        _ => {},
    }
}

/// A number that is not a NaN equals itself.
pub proof fn number_equals_itself(bits: u64)
    requires
        !is_nan(bits),
    ensures
        value_eq(ValueModel::Num(bits), ValueModel::Num(bits)),
        num_eq(bits, bits),
{
}


/// Evaluation stopped because calls were nested too deeply.
pub open spec fn exceeded(run: Run) -> bool {
    run.result is Err && run.result->Err_0.kind is DepthExceeded
}

/// Evaluation of a run of expressions stopped because calls were nested
/// too deeply.
pub open spec fn exceeded_in(runs: Runs) -> bool {
    runs.result is Err && runs.result->Err_0.kind is DepthExceeded
}

/// The depth only limits: unless evaluation stops because calls nest too
/// deeply, allowing one more level changes neither the result nor what is
/// printed.
pub proof fn more_depth_changes_nothing(
    n: Numbers,
    funcs: Map<Seq<char>, FuncModel>,
    stack: Bindings,
    depth: nat,
    expr: Spanned<ExprModel>,
)
    ensures
        !exceeded(eval(n, funcs, stack, depth, expr)) ==> eval(n, funcs, stack, depth + 1, expr)
            == eval(n, funcs, stack, depth, expr),
    decreases depth, expr, 0nat,
{
    match expr.0 {
        ExprModel::List(items) => {
            more_depth_changes_no_items(n, funcs, stack, depth, items, items.len());
        },
        ExprModel::Let(name, bound, body) => {
            more_depth_changes_nothing(n, funcs, stack, depth, *bound);
            let first = eval(n, funcs, stack, depth, *bound);
            if first.result is Ok {
                more_depth_changes_nothing(
                    n,
                    funcs,
                    stack.push((name, first.result->Ok_0)),
                    depth,
                    *body,
                );
            }
        },
        ExprModel::Then(a, b) => {
            more_depth_changes_nothing(n, funcs, stack, depth, *a);
            more_depth_changes_nothing(n, funcs, stack, depth, *b);
        },
        ExprModel::Binary(a, _, b) => {
            more_depth_changes_nothing(n, funcs, stack, depth, *a);
            more_depth_changes_nothing(n, funcs, stack, depth, *b);
        },
        ExprModel::Call(callee, args) => {
            more_depth_changes_nothing(n, funcs, stack, depth, *callee);
            more_depth_changes_no_items(n, funcs, stack, depth, args, args.len());
            let target = eval(n, funcs, stack, depth, *callee);
            let given = eval_all(n, funcs, stack, depth, args, args.len());
            if depth > 0 && target.result is Ok && target.result->Ok_0 is Func && given.result is Ok {
                let name = target.result->Ok_0->Func_0;
                if funcs.contains_key(name) {
                    more_depth_changes_nothing(
                        n,
                        funcs,
                        bind(funcs[name].args, given.result->Ok_0),
                        (depth - 1) as nat,
                        funcs[name].body,
                    );
                }
            }
        },
        ExprModel::If(cond, yes, no) => {
            more_depth_changes_nothing(n, funcs, stack, depth, *cond);
            more_depth_changes_nothing(n, funcs, stack, depth, *yes);
            more_depth_changes_nothing(n, funcs, stack, depth, *no);
        },
        ExprModel::Print(inner) => {
            more_depth_changes_nothing(n, funcs, stack, depth, *inner);
        },
        _ => {},
    }
}

/// The same for a run of expressions.
pub proof fn more_depth_changes_no_items(
    n: Numbers,
    funcs: Map<Seq<char>, FuncModel>,
    stack: Bindings,
    depth: nat,
    items: Seq<Spanned<ExprModel>>,
    k: nat,
)
    ensures
        !exceeded_in(eval_all(n, funcs, stack, depth, items, k)) ==> eval_all(
            n,
            funcs,
            stack,
            depth + 1,
            items,
            k,
        ) == eval_all(n, funcs, stack, depth, items, k),
    decreases depth, items, k,
{
    if 0 < k <= items.len() {
        more_depth_changes_no_items(n, funcs, stack, depth, items, (k - 1) as nat);
        more_depth_changes_nothing(n, funcs, stack, depth, items[k - 1]);
    }
}

} // verus!
