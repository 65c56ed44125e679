//! The evaluator: a walk over one expression that computes what
//! [`eval`](crate::semantics::eval) says.

use vstd::prelude::*;
use crate::common::{
    list_model, names_model, spanned_model, spanned_models, spanned_models_index, values_model,
    values_model_index, BinaryOp, Error, ErrorKind, ErrorModel, Expected, Expr, ExprModel,
    FuncModel, Kind, Spanned, Value, ValueModel,
};
use crate::display::display_value;
use crate::funcs::{table_model_source, FuncTable};
use crate::numbers::{computes_as, shows_as, values_equal, Numbers};
use crate::text::same_text;
use crate::semantics::{
    bind, complete, complete_upto, complete_upto_each, eval, eval_all, lookup, table_complete,
    Bindings,
};

verus! {

/// Decides [`complete`].
pub fn is_complete(expr: &Expr) -> (ok: bool)
    ensures
        ok == complete(expr@),
    decreases expr, 1nat,
{
    match expr {
        Expr::Error => false,
        Expr::Value(_) => true,
        Expr::List(items) => {
            proof {
                spanned_models_index(items@);
            }
            are_complete(items)
        },
        Expr::Local(_) => true,
        Expr::Let(_, bound, body) => is_complete(&bound.0) && is_complete(&body.0),
        Expr::Then(first, second) => is_complete(&first.0) && is_complete(&second.0),
        Expr::Binary(left, _, right) => is_complete(&left.0) && is_complete(&right.0),
        Expr::Call(callee, args) => {
            proof {
                spanned_models_index(args@);
            }
            is_complete(&callee.0) && are_complete(args)
        },
        Expr::If(cond, yes, no) => is_complete(&cond.0) && is_complete(&yes.0) && is_complete(
            &no.0,
        ),
        Expr::Print(inner) => is_complete(&inner.0),
    }
}

/// Whether every one of `items` is complete.
pub fn are_complete(items: &Vec<Spanned<Expr>>) -> (ok: bool)
    ensures
        ok == complete_upto(spanned_models(items@), items@.len()),
    decreases items, 0nat,
{
    let mut i: usize = 0;
    proof {
        spanned_models_index(items@);
    }
    while i < items.len()
        invariant
            i <= items.len(),
            spanned_models(items@).len() == items@.len(),
            complete_upto(spanned_models(items@), i as nat),
        decreases items.len() - i,
    {
        proof {
            spanned_models_index(items@);
        }
        assert(decreases_to!(items => items[i as int]));
        if !is_complete(&items[i].0) {
            proof {
                complete_upto_each(spanned_models(items@), items@.len() as nat);
            }
            return false;
        }
        i += 1;
    }
    true
}

/// Whether the body of every entry of the table is complete. If so, the
/// table is complete.
pub fn bodies_complete(funcs: &FuncTable) -> (ok: bool)
    ensures
        ok == (forall|i: int|
            0 <= i < funcs.entries@.len() ==> complete((#[trigger] funcs.entries@[i]).1.body.0@)),
        ok ==> table_complete(funcs@),
{
    let mut i: usize = 0;
    while i < funcs.entries.len()
        invariant
            i <= funcs.entries.len(),
            forall|j: int| 0 <= j < i ==> complete((#[trigger] funcs.entries@[j]).1.body.0@),
        decreases funcs.entries.len() - i,
    {
        if !is_complete(&funcs.entries[i].1.body.0) {
            return false;
        }
        i += 1;
    }
    proof {
        assert forall|name: Seq<char>| #[trigger] funcs@.contains_key(name) implies complete(
            funcs@[name].body.0,
        ) by {
            table_model_source(funcs.entries@, name);
        }
    }
    true
}

/// The model of the bindings on an evaluator's stack.
pub open spec fn stack_model(stack: Seq<(String, Value)>) -> Bindings {
    stack.map_values(|b: (String, Value)| (b.0@, b.1@))
}

/// The model of an evaluation's result.
pub open spec fn result_model(res: Result<Value, Error>) -> Result<ValueModel, ErrorModel> {
    match res {
        Ok(v) => Ok(v@),
        Err(e) => Err(e@),
    }
}

/// The model of the result of evaluating a run of expressions.
pub open spec fn results_model(res: Result<Vec<Value>, Error>) -> Result<
    Seq<ValueModel>,
    ErrorModel,
> {
    match res {
        Ok(values) => Ok(values_model(values@)),
        Err(e) => Err(e@),
    }
}

/// The functions `arith` and `show` behave as `n` describes.
pub open spec fn described<A: Fn(BinaryOp, u64, u64) -> u64, S: Fn(u64) -> String>(
    arith: &A,
    show: &S,
    n: Numbers,
) -> bool {
    computes_as(arith, n) && shows_as(show, n)
}

/// The most recent binding of `name` on the stack, if there is one.
pub fn find_local(stack: &Vec<(String, Value)>, name: &str) -> (found: Option<Value>)
    ensures
        match found {
            Some(v) => lookup(stack_model(stack@), name@) == Some(v@),
            None => lookup(stack_model(stack@), name@) is None,
        },
{
    let mut i: usize = stack.len();
    assert(stack@.subrange(0, i as int) =~= stack@);
    while i > 0
        invariant
            i <= stack.len(),
            lookup(stack_model(stack@), name@) == lookup(
                stack_model(stack@.subrange(0, i as int)),
                name@,
            ),
        decreases i,
    {
        let ghost prefix = stack@.subrange(0, i as int);
        i -= 1;
        proof {
            assert(stack_model(prefix).last() == (stack@[i as int].0@, stack@[i as int].1@));
            assert(stack_model(prefix).drop_last() =~= stack_model(stack@.subrange(0, i as int)));
        }
        if same_text(stack[i].0.as_str(), name) {
            return Some(stack[i].1.clone());
        }
    }
    proof {
        assert(stack_model(stack@.subrange(0, 0)) =~= Seq::empty());
    }
    None
}

/// The bindings of a call: each parameter name with its argument.
pub fn bind_args(params: &Vec<String>, args: &Vec<Value>) -> (frame: Vec<(String, Value)>)
    requires
        params.len() == args.len(),
    ensures
        stack_model(frame@) == bind(names_model(params@), values_model(args@)),
{
    let mut frame: Vec<(String, Value)> = Vec::new();
    let mut i: usize = 0;
    while i < params.len()
        invariant
            params.len() == args.len(),
            i <= params.len(),
            frame.len() == i,
            forall|j: int|
                0 <= j < i ==> (#[trigger] frame@[j]).0@ == params@[j]@ && frame@[j].1@
                    == args@[j]@,
        decreases params.len() - i,
    {
        frame.push((params[i].clone(), args[i].clone()));
        i += 1;
    }
    proof {
        values_model_index(args@);
        assert(stack_model(frame@) =~= bind(names_model(params@), values_model(args@)));
    }
    frame
}

/// Evaluates `items` from left to right and stops at the first that fails.
pub fn eval_items<A: Fn(BinaryOp, u64, u64) -> u64, S: Fn(u64) -> String>(
    items: &Vec<Spanned<Expr>>,
    funcs: &FuncTable,
    stack: &mut Vec<(String, Value)>,
    depth: usize,
    arith: &A,
    show: &S,
    out: &mut Vec<String>,
) -> (res: Result<Vec<Value>, Error>)
    requires
        forall|i: int| 0 <= i < items@.len() ==> complete((#[trigger] items@[i]).0@),
        table_complete(funcs@),
        forall|op: BinaryOp, a: u64, b: u64| op.is_arithmetic() ==> arith.requires((op, a, b)),
        forall|x: u64| show.requires((x,)),
    ensures
        final(stack)@ == old(stack)@,
        res is Ok ==> res->Ok_0.len() == items.len(),
        forall|n: Numbers| #[trigger]
            described(arith, show, n) ==> {
                let runs = eval_all(
                    n,
                    funcs@,
                    stack_model(old(stack)@),
                    depth as nat,
                    spanned_models(items@),
                    items@.len(),
                );
                &&& results_model(res) == runs.result
                &&& names_model(final(out)@) == names_model(old(out)@) + runs.printed
            },
    decreases depth, items, 0nat,
{
    let mut values: Vec<Value> = Vec::new();
    let mut i: usize = 0;
    proof {
        spanned_models_index(items@);
        assert(values_model(values@) =~= Seq::empty());
        assert forall|n: Numbers| #[trigger] described(arith, show, n) implies names_model(out@)
            == names_model(old(out)@) + eval_all(
            n,
            funcs@,
            stack_model(old(stack)@),
            depth as nat,
            spanned_models(items@),
            0,
        ).printed by {
            assert(names_model(out@) =~= names_model(old(out)@) + Seq::empty());
        }
    }
    while i < items.len()
        invariant
            i <= items.len(),
            values.len() == i,
            stack@ == old(stack)@,
            forall|i: int| 0 <= i < items@.len() ==> complete((#[trigger] items@[i]).0@),
            table_complete(funcs@),
            forall|op: BinaryOp, a: u64, b: u64| op.is_arithmetic() ==> arith.requires((op, a, b)),
            forall|x: u64| show.requires((x,)),
            forall|n: Numbers| #[trigger]
                described(arith, show, n) ==> {
                    let runs = eval_all(
                        n,
                        funcs@,
                        stack_model(old(stack)@),
                        depth as nat,
                        spanned_models(items@),
                        i as nat,
                    );
                    &&& runs.result == Ok::<Seq<ValueModel>, ErrorModel>(values_model(values@))
                    &&& names_model(out@) == names_model(old(out)@) + runs.printed
                },
        decreases items.len() - i,
    {
        proof {
            spanned_models_index(items@);
        }
        assert(decreases_to!(items => items[i as int]));
        let ghost values_before = values@;
        match eval_expr(&items[i], funcs, stack, depth, arith, show, out) {
            Ok(v) => {
                values.push(v);
                proof {
                    values_model_index(values@);
                    values_model_index(values_before);
                    assert(values_model(values@) =~= values_model(values_before).push(v@));
                    assert forall|n: Numbers| #[trigger] described(arith, show, n) implies ({
                        let runs = eval_all(
                            n,
                            funcs@,
                            stack_model(old(stack)@),
                            depth as nat,
                            spanned_models(items@),
                            (i + 1) as nat,
                        );
                        &&& runs.result == Ok::<Seq<ValueModel>, ErrorModel>(values_model(values@))
                        &&& names_model(out@) == names_model(old(out)@) + runs.printed
                    }) by {
                        let before = eval_all(
                            n,
                            funcs@,
                            stack_model(old(stack)@),
                            depth as nat,
                            spanned_models(items@),
                            i as nat,
                        );
                        let next = eval(
                            n,
                            funcs@,
                            stack_model(old(stack)@),
                            depth as nat,
                            spanned_models(items@)[i as int],
                        );
                        assert(names_model(out@) =~= names_model(old(out)@) + (before.printed
                            + next.printed));
                    }
                }
            },
            Err(e) => {
                proof {
                    assert forall|n: Numbers| #[trigger] described(arith, show, n) implies ({
                        let runs = eval_all(
                            n,
                            funcs@,
                            stack_model(old(stack)@),
                            depth as nat,
                            spanned_models(items@),
                            items@.len(),
                        );
                        &&& runs.result == Err::<Seq<ValueModel>, ErrorModel>(e@)
                        &&& names_model(out@) == names_model(old(out)@) + runs.printed
                    }) by {
                        let before = eval_all(
                            n,
                            funcs@,
                            stack_model(old(stack)@),
                            depth as nat,
                            spanned_models(items@),
                            i as nat,
                        );
                        let next = eval(
                            n,
                            funcs@,
                            stack_model(old(stack)@),
                            depth as nat,
                            spanned_models(items@)[i as int],
                        );
                        assert(names_model(out@) =~= names_model(old(out)@) + (before.printed
                            + next.printed));
                        eval_all_stays_failed(
                            n,
                            funcs@,
                            stack_model(old(stack)@),
                            depth as nat,
                            spanned_models(items@),
                            (i + 1) as nat,
                            items@.len() as nat,
                        );
                    }
                }
                return Err(e);
            },
        }
        i += 1;
    }
    Ok(values)
}

/// Once a run of expressions has failed, evaluating more of them changes
/// nothing.
pub proof fn eval_all_stays_failed(
    n: Numbers,
    funcs: Map<Seq<char>, FuncModel>,
    stack: Bindings,
    depth: nat,
    items: Seq<Spanned<ExprModel>>,
    k: nat,
    m: nat,
)
    requires
        k <= m <= items.len(),
        eval_all(n, funcs, stack, depth, items, k).result is Err,
    ensures
        eval_all(n, funcs, stack, depth, items, m) == eval_all(n, funcs, stack, depth, items, k),
    decreases m,
{
    if k < m {
        eval_all_stays_failed(n, funcs, stack, depth, items, k, (m - 1) as nat);
    }
}

/// Evaluates `expr` as [`eval`] says.
///
/// `stack` holds the local bindings in scope and is left as it was found,
/// also where evaluation fails. `depth` bounds how deep calls may nest.
/// `arith` carries out the four arithmetic operators and `show` writes a
/// number out; each line that a `print` emits is added to `out`.
pub fn eval_expr<A: Fn(BinaryOp, u64, u64) -> u64, S: Fn(u64) -> String>(
    expr: &Spanned<Expr>,
    funcs: &FuncTable,
    stack: &mut Vec<(String, Value)>,
    depth: usize,
    arith: &A,
    show: &S,
    out: &mut Vec<String>,
) -> (res: Result<Value, Error>)
    requires
        complete(expr.0@),
        table_complete(funcs@),
        forall|op: BinaryOp, a: u64, b: u64| op.is_arithmetic() ==> arith.requires((op, a, b)),
        forall|x: u64| show.requires((x,)),
    ensures
        final(stack)@ == old(stack)@,
        forall|n: Numbers| #[trigger]
            described(arith, show, n) ==> {
                let run = eval(
                    n,
                    funcs@,
                    stack_model(old(stack)@),
                    depth as nat,
                    spanned_model(*expr),
                );
                &&& result_model(res) == run.result
                &&& names_model(final(out)@) == names_model(old(out)@) + run.printed
            },
    decreases depth, expr, 1nat,
{
    let span = expr.1;
    match &expr.0 {
        Expr::Error => Err(Error { span, kind: ErrorKind::SyntaxError(Expected::Expression) }),
        Expr::Value(v) => {
            proof {
                assert(names_model(out@) =~= names_model(old(out)@) + Seq::empty());
            }
            Ok(v.clone())
        },
        Expr::List(items) => {
            proof {
                spanned_models_index(items@);
                assert forall|i: int| 0 <= i < items@.len() implies complete(
                    (#[trigger] items@[i]).0@,
                ) by {
                    let models = spanned_models(items@);
                    assert(expr.0@ == ExprModel::List(models));
                    complete_upto_each(models, models.len());
                    assert(models[i] == spanned_model(items@[i]));
                }
            }
            match eval_items(items, funcs, stack, depth, arith, show, out) {
                Ok(values) => {
                    let list = Value::List(values);
                    proof {
                        list_model(list);
                    }
                    Ok(list)
                },
                Err(e) => Err(e),
            }
        },
        Expr::Local(name) => {
            proof {
                assert(names_model(out@) =~= names_model(old(out)@) + Seq::empty());
            }
            match find_local(stack, name.as_str()) {
                Some(v) => Ok(v),
                None => if funcs.contains_key(name.as_str()) {
                    Ok(Value::Func(name.clone()))
                } else {
                    Err(Error { span, kind: ErrorKind::UnboundVariable(name.clone()) })
                },
            }
        },
        Expr::Let(name, bound, body) => {
            let v = match eval_expr(bound, funcs, stack, depth, arith, show, out) {
                Ok(v) => v,
                Err(e) => {
                    return Err(e);
                },
            };
            stack.push((name.clone(), v));
            proof {
                assert(stack_model(stack@) =~= stack_model(old(stack)@).push((name@, v@)));
            }
            let res = eval_expr(body, funcs, stack, depth, arith, show, out);
            stack.pop();
            proof {
                assert(stack@ =~= old(stack)@);
                assert forall|n: Numbers| #[trigger] described(arith, show, n) implies ({
                    let run = eval(
                        n,
                        funcs@,
                        stack_model(old(stack)@),
                        depth as nat,
                        spanned_model(*expr),
                    );
                    &&& result_model(res) == run.result
                    &&& names_model(out@) == names_model(old(out)@) + run.printed
                }) by {
                    let first = eval(
                        n,
                        funcs@,
                        stack_model(old(stack)@),
                        depth as nat,
                        spanned_model(**bound),
                    );
                    let rest = eval(
                        n,
                        funcs@,
                        stack_model(old(stack)@).push((name@, v@)),
                        depth as nat,
                        spanned_model(**body),
                    );
                    assert(names_model(out@) =~= names_model(old(out)@) + (first.printed
                        + rest.printed));
                }
            }
            res
        },
        Expr::Then(a, b) => {
            match eval_expr(a, funcs, stack, depth, arith, show, out) {
                Ok(_) => {},
                Err(e) => {
                    return Err(e);
                },
            }
            let res = eval_expr(b, funcs, stack, depth, arith, show, out);
            proof {
                assert forall|n: Numbers| #[trigger] described(arith, show, n) implies ({
                    let run = eval(
                        n,
                        funcs@,
                        stack_model(old(stack)@),
                        depth as nat,
                        spanned_model(*expr),
                    );
                    &&& result_model(res) == run.result
                    &&& names_model(out@) == names_model(old(out)@) + run.printed
                }) by {
                    let first = eval(
                        n,
                        funcs@,
                        stack_model(old(stack)@),
                        depth as nat,
                        spanned_model(**a),
                    );
                    let rest = eval(
                        n,
                        funcs@,
                        stack_model(old(stack)@),
                        depth as nat,
                        spanned_model(**b),
                    );
                    assert(names_model(out@) =~= names_model(old(out)@) + (first.printed
                        + rest.printed));
                }
            }
            res
        },
        Expr::Binary(a, op, b) => eval_binary(expr, funcs, stack, depth, arith, show, out),
        Expr::Call(callee, args) => eval_call(expr, funcs, stack, depth, arith, show, out),
        Expr::If(cond, yes, no) => {
            let c = match eval_expr(cond, funcs, stack, depth, arith, show, out) {
                Ok(c) => c,
                Err(e) => {
                    return Err(e);
                },
            };
            let res = match c {
                Value::Bool(true) => eval_expr(yes, funcs, stack, depth, arith, show, out),
                Value::Bool(false) => eval_expr(no, funcs, stack, depth, arith, show, out),
                other => {
                    return Err(
                        Error {
                            span: cond.1,
                            kind: ErrorKind::TypeMismatch { wanted: Kind::Boolean, value: other },
                        },
                    );
                },
            };
            proof {
                assert forall|n: Numbers| #[trigger] described(arith, show, n) implies ({
                    let run = eval(
                        n,
                        funcs@,
                        stack_model(old(stack)@),
                        depth as nat,
                        spanned_model(*expr),
                    );
                    &&& result_model(res) == run.result
                    &&& names_model(out@) == names_model(old(out)@) + run.printed
                }) by {
                    let test = eval(
                        n,
                        funcs@,
                        stack_model(old(stack)@),
                        depth as nat,
                        spanned_model(**cond),
                    );
                    let branch = eval(
                        n,
                        funcs@,
                        stack_model(old(stack)@),
                        depth as nat,
                        if c@ == ValueModel::Bool(true) {
                            spanned_model(**yes)
                        } else {
                            spanned_model(**no)
                        },
                    );
                    assert(names_model(out@) =~= names_model(old(out)@) + (test.printed
                        + branch.printed));
                }
            }
            res
        },
        Expr::Print(inner) => {
            let v = match eval_expr(inner, funcs, stack, depth, arith, show, out) {
                Ok(v) => v,
                Err(e) => {
                    return Err(e);
                },
            };
            let line = display_value(&v, show);
            let ghost out_mid = out@;
            out.push(line);
            proof {
                assert(names_model(out@) =~= names_model(out_mid).push(line@));
            }
            Ok(v)
        },
    }
}

/// Lines added in two turns are the lines of the first turn and then
/// those of the second.
pub proof fn printed_in_turn(before: Seq<String>, between: Seq<String>, after: Seq<String>)
    ensures
        forall|first: Seq<Seq<char>>, second: Seq<Seq<char>>|
            names_model(between) == names_model(before) + first && names_model(after)
                == names_model(between) + second ==> names_model(after) == names_model(before) + (
            first + second),
{
    assert forall|first: Seq<Seq<char>>, second: Seq<Seq<char>>|
        names_model(between) == names_model(before) + first && names_model(after) == names_model(
            between,
        ) + second implies names_model(after) == names_model(before) + (first + second) by {
        assert(names_model(before) + first + second =~= names_model(before) + (first + second));
    }
}

/// Evaluates a binary operation; `expr` is the whole node.
fn eval_binary<A: Fn(BinaryOp, u64, u64) -> u64, S: Fn(u64) -> String>(
    expr: &Spanned<Expr>,
    funcs: &FuncTable,
    stack: &mut Vec<(String, Value)>,
    depth: usize,
    arith: &A,
    show: &S,
    out: &mut Vec<String>,
) -> (res: Result<Value, Error>)
    requires
        expr.0 is Binary,
        complete(expr.0@),
        table_complete(funcs@),
        forall|op: BinaryOp, a: u64, b: u64| op.is_arithmetic() ==> arith.requires((op, a, b)),
        forall|x: u64| show.requires((x,)),
    ensures
        final(stack)@ == old(stack)@,
        forall|n: Numbers| #[trigger]
            described(arith, show, n) ==> {
                let run = eval(
                    n,
                    funcs@,
                    stack_model(old(stack)@),
                    depth as nat,
                    spanned_model(*expr),
                );
                &&& result_model(res) == run.result
                &&& names_model(final(out)@) == names_model(old(out)@) + run.printed
            },
    decreases depth, expr, 0nat,
{
    match &expr.0 {
        Expr::Binary(a, op, b) => {
            let x = match eval_expr(a, funcs, stack, depth, arith, show, out) {
                Ok(x) => x,
                Err(e) => {
                    return Err(e);
                },
            };
            let ghost out_mid = out@;
            let arithmetic = match op {
                BinaryOp::Eq => false,
                BinaryOp::NotEq => false,
                _ => true,
            };
            if arithmetic {
                let p = match x.num(a.1) {
                    Ok(p) => p,
                    Err(e) => {
                        return Err(e);
                    },
                };
                let y = match eval_expr(b, funcs, stack, depth, arith, show, out) {
                    Ok(y) => y,
                    Err(e) => {
                        proof {
                            printed_in_turn(old(out)@, out_mid, out@);
                        }
                        return Err(e);
                    },
                };
                proof {
                    printed_in_turn(old(out)@, out_mid, out@);
                }
                match y.num(b.1) {
                    Ok(q) => Ok(Value::Num(arith(*op, p, q))),
                    Err(e) => Err(e),
                }
            } else {
                let y = match eval_expr(b, funcs, stack, depth, arith, show, out) {
                    Ok(y) => y,
                    Err(e) => {
                        proof {
                            printed_in_turn(old(out)@, out_mid, out@);
                        }
                        return Err(e);
                    },
                };
                proof {
                    printed_in_turn(old(out)@, out_mid, out@);
                }
                let equal = values_equal(&x, &y);
                match op {
                    BinaryOp::Eq => Ok(Value::Bool(equal)),
                    _ => Ok(Value::Bool(!equal)),
                }
            }
        },
        _ => vstd::pervasive::unreached(),
    }
}

/// Evaluates a call; `expr` is the whole node.
fn eval_call<A: Fn(BinaryOp, u64, u64) -> u64, S: Fn(u64) -> String>(
    expr: &Spanned<Expr>,
    funcs: &FuncTable,
    stack: &mut Vec<(String, Value)>,
    depth: usize,
    arith: &A,
    show: &S,
    out: &mut Vec<String>,
) -> (res: Result<Value, Error>)
    requires
        expr.0 is Call,
        complete(expr.0@),
        table_complete(funcs@),
        forall|op: BinaryOp, a: u64, b: u64| op.is_arithmetic() ==> arith.requires((op, a, b)),
        forall|x: u64| show.requires((x,)),
    ensures
        final(stack)@ == old(stack)@,
        forall|n: Numbers| #[trigger]
            described(arith, show, n) ==> {
                let run = eval(
                    n,
                    funcs@,
                    stack_model(old(stack)@),
                    depth as nat,
                    spanned_model(*expr),
                );
                &&& result_model(res) == run.result
                &&& names_model(final(out)@) == names_model(old(out)@) + run.printed
            },
    decreases depth, expr, 0nat,
{
    match &expr.0 {
        Expr::Call(callee, args) => {
            proof {
                spanned_models_index(args@);
                assert forall|i: int| 0 <= i < args@.len() implies complete(
                    (#[trigger] args@[i]).0@,
                ) by {
                    let models = spanned_models(args@);
                    assert(expr.0@->Call_1 == models);
                    complete_upto_each(models, models.len());
                    assert(models[i] == spanned_model(args@[i]));
                }
            }
            let target = match eval_expr(callee, funcs, stack, depth, arith, show, out) {
                Ok(target) => target,
                Err(e) => {
                    return Err(e);
                },
            };
            let name = match target {
                Value::Func(name) => name,
                other => {
                    return Err(
                        Error {
                            span: callee.1,
                            kind: ErrorKind::TypeMismatch { wanted: Kind::Function, value: other },
                        },
                    );
                },
            };
            let func = match funcs.get(name.as_str()) {
                Some(func) => func,
                None => {
                    return Err(Error { span: expr.1, kind: ErrorKind::UnknownFunction(name) });
                },
            };
            if func.args.len() != args.len() {
                return Err(
                    Error {
                        span: expr.1,
                        kind: ErrorKind::ArityMismatch {
                            name,
                            expected: func.args.len(),
                            found: args.len(),
                        },
                    },
                );
            }
            let given = eval_items(args, funcs, stack, depth, arith, show, out);
            proof {
                assert forall|n: Numbers| #[trigger] described(arith, show, n) implies ({
                    let first = eval(
                        n,
                        funcs@,
                        stack_model(old(stack)@),
                        depth as nat,
                        spanned_model(**callee),
                    );
                    let runs = eval_all(
                        n,
                        funcs@,
                        stack_model(old(stack)@),
                        depth as nat,
                        spanned_models(args@),
                        args@.len(),
                    );
                    names_model(out@) == names_model(old(out)@) + (first.printed + runs.printed)
                }) by {
                    let first = eval(
                        n,
                        funcs@,
                        stack_model(old(stack)@),
                        depth as nat,
                        spanned_model(**callee),
                    );
                    let runs = eval_all(
                        n,
                        funcs@,
                        stack_model(old(stack)@),
                        depth as nat,
                        spanned_models(args@),
                        args@.len(),
                    );
                    assert(names_model(out@) =~= names_model(old(out)@) + (first.printed
                        + runs.printed));
                }
            }
            let values = match given {
                Ok(values) => values,
                Err(e) => {
                    return Err(e);
                },
            };
            if depth == 0 {
                return Err(Error { span: expr.1, kind: ErrorKind::DepthExceeded });
            }
            let mut frame = bind_args(&func.args, &values);
            let ghost frame_before = frame@;
            let res = eval_expr(&func.body, funcs, &mut frame, depth - 1, arith, show, out);
            proof {
                assert forall|n: Numbers| #[trigger] described(arith, show, n) implies ({
                    let run = eval(
                        n,
                        funcs@,
                        stack_model(old(stack)@),
                        depth as nat,
                        spanned_model(*expr),
                    );
                    &&& result_model(res) == run.result
                    &&& names_model(out@) == names_model(old(out)@) + run.printed
                }) by {
                    let first = eval(
                        n,
                        funcs@,
                        stack_model(old(stack)@),
                        depth as nat,
                        spanned_model(**callee),
                    );
                    let runs = eval_all(
                        n,
                        funcs@,
                        stack_model(old(stack)@),
                        depth as nat,
                        spanned_models(args@),
                        args@.len(),
                    );
                    let inner = eval(
                        n,
                        funcs@,
                        stack_model(frame_before),
                        (depth - 1) as nat,
                        spanned_model(func.body),
                    );
                    assert(names_model(out@) =~= names_model(old(out)@) + ((first.printed
                        + runs.printed) + inner.printed));
                }
            }
            res
        },
        _ => vstd::pervasive::unreached(),
    }
}

} // verus!
