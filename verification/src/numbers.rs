//! Numbers as the evaluator sees them: 64-bit patterns of IEEE 754 binary64
//! values. Equality is decided here, on the bits. Reading a literal,
//! arithmetic and printing are done by functions that the caller supplies;
//! what this library proves holds for every such function.

use vstd::prelude::*;
use crate::common::{list_model, BinaryOp, Value, ValueModel};

verus! {

/// A mathematical description of the number functions a caller supplies:
/// what a literal's text reads as, what an arithmetic operator gives, and
/// how a number is written out.
pub struct Numbers {
    pub read: spec_fn(Seq<char>) -> Option<u64>,
    pub arith: spec_fn(BinaryOp, u64, u64) -> u64,
    pub show: spec_fn(u64) -> Seq<char>,
}

/// Whatever `f` returns for a literal's text is what `n.read` says.
pub open spec fn reads_as<R: Fn(&str) -> Option<u64>>(f: &R, n: Numbers) -> bool {
    forall|text: &str, r: Option<u64>| #[trigger] f.ensures((text,), r) ==> r == (n.read)(text@)
}

/// Whatever `f` returns for an arithmetic operator and two numbers is what
/// `n.arith` says.
pub open spec fn computes_as<A: Fn(BinaryOp, u64, u64) -> u64>(f: &A, n: Numbers) -> bool {
    forall|op: BinaryOp, a: u64, b: u64, r: u64| #[trigger]
        f.ensures((op, a, b), r) && op.is_arithmetic() ==> r == (n.arith)(op, a, b)
}

/// Whatever text `f` returns for a number is what `n.show` says.
pub open spec fn shows_as<S: Fn(u64) -> String>(f: &S, n: Numbers) -> bool {
    forall|x: u64, r: String| #[trigger] f.ensures((x,), r) ==> r@ == (n.show)(x)
}

/// The bits of a binary64 value without its sign.
pub open spec fn magnitude(bits: u64) -> u64 {
    bits & 0x7fff_ffff_ffff_ffff
}

/// A bit pattern with all exponent bits set and a non-zero fraction.
pub open spec fn is_nan(bits: u64) -> bool {
    magnitude(bits) > 0x7ff0_0000_0000_0000
}

/// Equality of two binary64 values: a NaN equals nothing, the two zeros
/// equal each other, and any other value equals only itself.
pub open spec fn num_eq(a: u64, b: u64) -> bool {
    !is_nan(a) && !is_nan(b) && (a == b || (magnitude(a) == 0 && magnitude(b) == 0))
}

/// Decides [`num_eq`].
pub fn numbers_equal(a: u64, b: u64) -> (equal: bool)
    ensures
        equal == num_eq(a, b),
{
    let ma: u64 = a & 0x7fff_ffff_ffff_ffff;
    let mb: u64 = b & 0x7fff_ffff_ffff_ffff;
    ma <= 0x7ff0_0000_0000_0000 && mb <= 0x7ff0_0000_0000_0000 && (a == b || (ma == 0 && mb == 0))
}

/// Structural equality of values: the same variant and equal contents,
/// lists element by element. Numbers are compared by [`num_eq`].
pub open spec fn value_eq(a: ValueModel, b: ValueModel) -> bool
    decreases a,
{
    match (a, b) {
        (ValueModel::Null, ValueModel::Null) => true,
        (ValueModel::Bool(x), ValueModel::Bool(y)) => x == y,
        (ValueModel::Num(x), ValueModel::Num(y)) => num_eq(x, y),
        (ValueModel::Str(x), ValueModel::Str(y)) => x == y,
        (ValueModel::List(xs), ValueModel::List(ys)) => xs.len() == ys.len() && forall|i: int|
            0 <= i < xs.len() ==> value_eq(#[trigger] xs[i], ys[i]),
        (ValueModel::Func(x), ValueModel::Func(y)) => x == y,
        _ => false,
    }
}

/// Decides [`value_eq`].
pub fn values_equal(a: &Value, b: &Value) -> (equal: bool)
    ensures
        equal == value_eq(a@, b@),
    decreases a,
{
    match (a, b) {
        (Value::Null, Value::Null) => true,
        (Value::Bool(x), Value::Bool(y)) => *x == *y,
        (Value::Num(x), Value::Num(y)) => numbers_equal(*x, *y),
        (Value::Str(x), Value::Str(y)) => *x == *y,
        (Value::List(xs), Value::List(ys)) => {
            proof {
                list_model(*a);
                list_model(*b);
            }
            if xs.len() != ys.len() {
                return false;
            }
            let mut i: usize = 0;
            while i < xs.len()
                invariant
                    a is List,
                    a->List_0 == *xs,
                    b is List,
                    b->List_0 == *ys,
                    xs.len() == ys.len(),
                    i <= xs.len(),
                    forall|j: int| 0 <= j < i ==> value_eq(xs@[j]@, ys@[j]@),
                decreases xs.len() - i,
            {
                assert(decreases_to!(xs => xs[i as int]));
                if !values_equal(&xs[i], &ys[i]) {
                    proof {
                        list_model(*a);
                        list_model(*b);
                    }
                    return false;
                }
                i += 1;
            }
            proof {
                list_model(*a);
                list_model(*b);
            }
            true
        },
        (Value::Func(x), Value::Func(y)) => *x == *y,
        _ => false,
    }
}

impl PartialEq for Value {
    fn eq(&self, other: &Value) -> (equal: bool) {
        values_equal(self, other)
    }
}

impl vstd::std_specs::cmp::PartialEqSpecImpl for Value {
    open spec fn obeys_eq_spec() -> bool {
        true
    }

    open spec fn eq_spec(&self, other: &Value) -> bool {
        value_eq(self@, other@)
    }
}

} // verus!
