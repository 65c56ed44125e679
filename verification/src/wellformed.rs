//! A program that parses without an error holds no error node: every
//! function body in its table is complete and can be evaluated.

use vstd::prelude::*;
use crate::common::{ExprModel, FuncModel, Span, Spanned, TokenModel, ValueModel};
use crate::grammar::{
    atom, binary, call, calls, chain, declaration, declaration_errors, enter, expr, if_, is_ctrl_at,
    is_op_at, items, join, let_, op_at, params, parse, peek, program, remaining, span_at,
    starts_expr, Step, Tokens,
};
use crate::semantics::{complete, complete_upto_each, table_complete};

verus! {

/// The step holds a complete expression unless it met an error.
pub open spec fn sound(step: Step) -> bool {
    step.errors.len() == 0 ==> complete(step.expr.0)
}

/// Every item is complete.
pub open spec fn all_complete(items: Seq<Spanned<ExprModel>>) -> bool {
    forall|i: int| 0 <= i < items.len() ==> complete((#[trigger] items[i]).0)
}

/// An expression read without error is complete.
pub proof fn expr_is_sound(t: Tokens, eoi: Span, pos: int)
    ensures
        sound(expr(t, eoi, pos)),
    decreases remaining(t, pos), 10nat,
{
    if 0 <= pos < t.len() {
        let first = if t[pos].0 is Let {
            let_(t, eoi, pos)
        } else {
            binary(t, eoi, pos, 0)
        };
        if t[pos].0 is Let {
            let_is_sound(t, eoi, pos);
        } else {
            binary_is_sound(t, eoi, pos, 0);
        }
        let p = pos + first.taken;
        if is_ctrl_at(t, p, ';') && starts_expr(peek(t, p + 1)) {
            expr_is_sound(t, eoi, p + 1);
        }
        assert(complete(ExprModel::Value(ValueModel::Null)));
    }
}

/// A `let` read without error is complete.
pub proof fn let_is_sound(t: Tokens, eoi: Span, pos: int)
    ensures
        sound(let_(t, eoi, pos)),
    decreases remaining(t, pos), 9nat,
{
    if 0 <= pos < t.len() {
        if peek(t, pos + 1) is Some && peek(t, pos + 1)->Some_0 is Ident && is_op_at(
            t,
            pos + 2,
            "="@,
        ) {
            binary_is_sound(t, eoi, pos + 3, 0);
            let value = binary(t, eoi, pos + 3, 0);
            let p = pos + 3 + value.taken;
            if is_ctrl_at(t, p, ';') {
                expr_is_sound(t, eoi, p + 1);
            }
        }
    }
}

/// An operator expression read without error is complete.
pub proof fn binary_is_sound(t: Tokens, eoi: Span, pos: int, level: nat)
    ensures
        sound(binary(t, eoi, pos, level)),
    decreases remaining(t, pos), (if level < 3 {
        8 - level
    } else {
        5
    }) as nat,
{
    if 0 <= pos <= t.len() {
        if level < 3 {
            binary_is_sound(t, eoi, pos, level + 1);
            let first = binary(t, eoi, pos, level + 1);
            chain_is_sound(t, eoi, pos + first.taken, level, first);
        } else {
            call_is_sound(t, eoi, pos);
        }
    }
}

/// Operators and operands read without error extend a complete expression
/// to a complete one.
pub proof fn chain_is_sound(t: Tokens, eoi: Span, pos: int, level: nat, left: Step)
    requires
        sound(left),
    ensures
        sound(chain(t, eoi, pos, level, left)),
        chain(t, eoi, pos, level, left).errors.len() >= left.errors.len(),
    decreases remaining(t, pos), 0nat,
{
    if 0 <= pos < t.len() && level < 3 {
        match op_at(t, pos, level) {
            Some(op) => {
                binary_is_sound(t, eoi, pos + 1, level + 1);
                let right = binary(t, eoi, pos + 1, level + 1);
                let next = Step {
                    expr: (
                        ExprModel::Binary(Box::new(left.expr), op, Box::new(right.expr)),
                        join(left.expr.1, right.expr.1),
                    ),
                    taken: left.taken + 1 + right.taken,
                    errors: left.errors + right.errors,
                };
                chain_is_sound(t, eoi, pos + 1 + right.taken, level, next);
            },
            None => {},
        }
    }
}

/// A call read without error is complete.
pub proof fn call_is_sound(t: Tokens, eoi: Span, pos: int)
    ensures
        sound(call(t, eoi, pos)),
    decreases remaining(t, pos), 4nat,
{
    if 0 <= pos <= t.len() {
        atom_is_sound(t, eoi, pos);
        let callee = atom(t, eoi, pos);
        calls_is_sound(t, eoi, pos + callee.taken, callee);
    }
}

/// Argument lists read without error extend a complete callee to a
/// complete call.
pub proof fn calls_is_sound(t: Tokens, eoi: Span, pos: int, callee: Step)
    requires
        sound(callee),
    ensures
        sound(calls(t, eoi, pos, callee)),
        calls(t, eoi, pos, callee).errors.len() >= callee.errors.len(),
    decreases remaining(t, pos), 0nat,
{
    if 0 <= pos < t.len() && is_ctrl_at(t, pos, '(') {
        items_are_sound(t, eoi, pos + 1, ')');
        let args = items(t, eoi, pos + 1, ')');
        if args.closed {
            let next = Step {
                expr: (
                    ExprModel::Call(Box::new(callee.expr), args.items),
                    join(
                        callee.expr.1,
                        span_at(t, eoi, pos + args.taken),
                    ),
                ),
                taken: callee.taken + 1 + args.taken,
                errors: callee.errors + args.errors,
            };
            if next.errors.len() == 0 {
                complete_upto_each(args.items, args.items.len());
            }
            calls_is_sound(t, eoi, pos + 1 + args.taken, next);
        }
    }
}

/// An atom read without error is complete.
pub proof fn atom_is_sound(t: Tokens, eoi: Span, pos: int)
    ensures
        sound(atom(t, eoi, pos)),
    decreases remaining(t, pos), 3nat,
{
    if 0 <= pos < t.len() {
        match t[pos].0 {
            TokenModel::Print => {
                binary_is_sound(t, eoi, pos + 1, 0);
            },
            TokenModel::If => {
                if_is_sound(t, eoi, pos);
            },
            TokenModel::Ctrl(c) => {
                if c == '[' {
                    items_are_sound(t, eoi, pos + 1, ']');
                    let list = items(t, eoi, pos + 1, ']');
                    if list.closed && list.errors.len() == 0 {
                        complete_upto_each(list.items, list.items.len());
                    }
                } else if c == '(' {
                    expr_is_sound(t, eoi, pos + 1);
                }
            },
            _ => {},
        }
    }
}

/// An `if` read without error is complete.
pub proof fn if_is_sound(t: Tokens, eoi: Span, pos: int)
    ensures
        sound(if_(t, eoi, pos)),
    decreases remaining(t, pos), 2nat,
{
    if 0 <= pos < t.len() {
        binary_is_sound(t, eoi, pos + 1, 0);
        let cond = binary(t, eoi, pos + 1, 0);
        let p1 = pos + 1 + cond.taken;
        if is_ctrl_at(t, p1, '{') {
            expr_is_sound(t, eoi, p1 + 1);
            let yes = expr(t, eoi, p1 + 1);
            let p2 = p1 + 1 + yes.taken;
            if is_ctrl_at(t, p2, '}') && peek(t, p2 + 1) == Some(TokenModel::Else)
                && is_ctrl_at(t, p2 + 2, '{') {
                expr_is_sound(t, eoi, p2 + 3);
            }
        }
    }
}

/// The items of a list read without error are complete.
pub proof fn items_are_sound(t: Tokens, eoi: Span, pos: int, closer: char)
    ensures
        items(t, eoi, pos, closer).errors.len() == 0 ==> all_complete(
            items(t, eoi, pos, closer).items,
        ),
    decreases remaining(t, pos), 11nat,
{
    if 0 <= pos < t.len() && !is_ctrl_at(t, pos, closer) {
        expr_is_sound(t, eoi, pos);
        let first = expr(t, eoi, pos);
        let p = pos + first.taken;
        if is_ctrl_at(t, p, ',') {
            items_are_sound(t, eoi, p + 1, closer);
            let rest = items(t, eoi, p + 1, closer);
            let all = items(t, eoi, pos, closer);
            if all.errors.len() == 0 {
                assert forall|i: int| 0 <= i < all.items.len() implies complete(
                    (#[trigger] all.items[i]).0,
                ) by {
                    if i > 0 {
                        assert(all.items[i] == rest.items[i - 1]);
                    }
                }
            }
        }
    }
}

/// The declarations from `pos` on, read without error, add only functions
/// with complete bodies to a table of such functions.
pub proof fn program_is_sound(t: Tokens, eoi: Span, pos: int, declared: Map<Seq<char>, FuncModel>)
    requires
        table_complete(declared),
    ensures
        program(t, eoi, pos, declared).errors.len() == 0 ==> table_complete(
            program(t, eoi, pos, declared).funcs,
        ),
    decreases remaining(t, pos),
{
    if 0 <= pos < t.len() {
        if t[pos].0 is Fn {
            let first = declaration(t, eoi, pos);
            if declaration_errors(first, declared).len() == 0 {
                declaration_is_sound(t, eoi, pos);
                let next = enter(first, declared);
                assert(table_complete(next)) by {
                    assert forall|name: Seq<char>| #[trigger] next.contains_key(name) implies complete(
                        next[name].body.0,
                    ) by {
                        if !declared.contains_key(name) || (first.declared is Some
                            && first.declared->Some_0.name == name) {
                        } else {
                            assert(declared.contains_key(name));
                        }
                    }
                }
                program_is_sound(t, eoi, pos + 1 + first.taken, next);
            }
        }
    }
}

/// The body of a function declared without error is complete.
pub proof fn declaration_is_sound(t: Tokens, eoi: Span, pos: int)
    ensures
        ({
            let d = declaration(t, eoi, pos);
            d.errors.len() == 0 && d.declared is Some ==> complete(d.declared->Some_0.func.body.0)
        }),
{
    match peek(t, pos + 1) {
        Some(TokenModel::Ident(name)) => {
            if is_ctrl_at(t, pos + 2, '(') {
                let list = params(t, pos + 3);
                let open = pos + 3 + list.taken;
                if list.closed && is_ctrl_at(t, open, '{') {
                    expr_is_sound(t, eoi, open + 1);
                }
            }
        },
        _ => {},
    }
}

/// Every function of a program that parses without error has a complete
/// body.
pub proof fn error_free_programs_are_complete(t: Tokens, eoi: Span)
    requires
        parse(t, eoi).errors.len() == 0,
    ensures
        table_complete(parse(t, eoi).funcs),
{
    program_is_sound(t, eoi, 0, Map::empty());
}

} // verus!
