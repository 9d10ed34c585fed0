use vstd::prelude::*;

use crate::mir::rvalue::{BinOp, UnaryOp};
use crate::mir::value::{value_view, vv_as_bool, vv_as_int, VVal, Value};

verus! {

/// The integer `x` as an `i64`, if it fits.
pub open spec fn fit_i64(x: int) -> Option<VVal> {
    if i64::MIN <= x <= i64::MAX {
        Some(VVal::Int(x as i64))
    } else {
        None
    }
}

/// The result of a unary operator; `None` where the operation overflows.
/// An operand of the wrong kind counts as `false` or `0`.
pub open spec fn unary_spec(op: UnaryOp, v: VVal) -> Option<VVal> {
    match op {
        UnaryOp::Not => Some(VVal::Bool(!vv_as_bool(v).unwrap_or(false))),
        UnaryOp::Neg => fit_i64(-(vv_as_int(v).unwrap_or(0) as int)),
    }
}

/// The result of a binary operator; `None` where the operation overflows
/// or divides by zero. An operand of the wrong kind counts as `false` or
/// `0` (as `1` on the right of `/` and `%`); `==` and `!=` compare the
/// integers operands hold.
pub open spec fn binary_spec(op: BinOp, l: VVal, r: VVal) -> Option<VVal> {
    let a = vv_as_int(l).unwrap_or(0);
    let b = vv_as_int(r).unwrap_or(0);
    let d = vv_as_int(r).unwrap_or(1);
    match op {
        BinOp::Add => fit_i64(a + b),
        BinOp::Sub => fit_i64(a - b),
        BinOp::Mul => fit_i64(a * b),
        BinOp::Div => match a.checked_div(d) {
            Some(q) => Some(VVal::Int(q)),
            None => None,
        },
        BinOp::Rem => match a.checked_rem(d) {
            Some(q) => Some(VVal::Int(q)),
            None => None,
        },
        BinOp::Eq => Some(VVal::Bool(vv_as_int(l) == vv_as_int(r))),
        BinOp::Ne => Some(VVal::Bool(vv_as_int(l) != vv_as_int(r))),
        BinOp::Lt => Some(VVal::Bool(a < b)),
        BinOp::Le => Some(VVal::Bool(a <= b)),
        BinOp::Gt => Some(VVal::Bool(a > b)),
        BinOp::Ge => Some(VVal::Bool(a >= b)),
        BinOp::And => Some(VVal::Bool(vv_as_bool(l).unwrap_or(false) && vv_as_bool(r).unwrap_or(false))),
        BinOp::Or => Some(VVal::Bool(vv_as_bool(l).unwrap_or(false) || vv_as_bool(r).unwrap_or(false))),
    }
}

fn int_result(r: Option<i64>) -> (v: Option<Value>)
    ensures
        match r {
            Some(n) => v matches Some(x) && value_view(x) == VVal::Int(n),
            None => v is None,
        },
{
    match r {
        Some(n) => Some(Value::Int(n)),
        None => None,
    }
}

/// Applies a unary operator.
pub fn unary_op(op: UnaryOp, val: Value) -> (r: Option<Value>)
    ensures
        match unary_spec(op, value_view(val)) {
            Some(x) => r matches Some(v) && value_view(v) == x,
            None => r is None,
        },
{
    match op {
        UnaryOp::Not => Some(Value::Bool(!val.as_bool().unwrap_or(false))),
        UnaryOp::Neg => int_result(0i64.checked_sub(val.as_int().unwrap_or(0))),
    }
}

/// Applies a binary operator.
pub fn binary_op(op: BinOp, left: Value, right: Value) -> (r: Option<Value>)
    ensures
        match binary_spec(op, value_view(left), value_view(right)) {
            Some(x) => r matches Some(v) && value_view(v) == x,
            None => r is None,
        },
{
    let a = left.as_int().unwrap_or(0);
    let b = right.as_int().unwrap_or(0);
    match op {
        BinOp::Add => int_result(a.checked_add(b)),
        BinOp::Sub => int_result(a.checked_sub(b)),
        BinOp::Mul => int_result(a.checked_mul(b)),
        BinOp::Div => int_result(a.checked_div(right.as_int().unwrap_or(1))),
        BinOp::Rem => int_result(a.checked_rem(right.as_int().unwrap_or(1))),
        BinOp::Eq => Some(Value::Bool(left.as_int() == right.as_int())),
        BinOp::Ne => Some(Value::Bool(left.as_int() != right.as_int())),
        BinOp::Lt => Some(Value::Bool(a < b)),
        BinOp::Le => Some(Value::Bool(a <= b)),
        BinOp::Gt => Some(Value::Bool(a > b)),
        BinOp::Ge => Some(Value::Bool(a >= b)),
        BinOp::And => Some(Value::Bool(left.as_bool().unwrap_or(false) && right.as_bool().unwrap_or(false))),
        BinOp::Or => Some(Value::Bool(left.as_bool().unwrap_or(false) || right.as_bool().unwrap_or(false))),
    }
}

// ---- what the operators mean ----------------------------------------------------

/// Comparison `op` holds of integers `a` and `b` in a run.
pub open spec fn int_test(op: BinOp, a: i64, b: i64) -> bool {
    binary_spec(op, VVal::Int(a), VVal::Int(b)) == Some(VVal::Bool(true))
}

/// The comparisons of integers give booleans and order the integers as
/// arithmetic does: `<`, `<=`, `>`, `>=`, `==` and `!=` hold exactly when
/// `a` and `b` stand in that relation.
pub proof fn integer_comparisons_order(a: i64, b: i64)
    ensures
        binary_spec(BinOp::Lt, VVal::Int(a), VVal::Int(b)) matches Some(VVal::Bool(_)),
        binary_spec(BinOp::Le, VVal::Int(a), VVal::Int(b)) matches Some(VVal::Bool(_)),
        binary_spec(BinOp::Gt, VVal::Int(a), VVal::Int(b)) matches Some(VVal::Bool(_)),
        binary_spec(BinOp::Ge, VVal::Int(a), VVal::Int(b)) matches Some(VVal::Bool(_)),
        binary_spec(BinOp::Eq, VVal::Int(a), VVal::Int(b)) matches Some(VVal::Bool(_)),
        binary_spec(BinOp::Ne, VVal::Int(a), VVal::Int(b)) matches Some(VVal::Bool(_)),
        int_test(BinOp::Lt, a, b) <==> a < b,
        int_test(BinOp::Le, a, b) <==> a <= b,
        int_test(BinOp::Gt, a, b) <==> a > b,
        int_test(BinOp::Ge, a, b) <==> a >= b,
        int_test(BinOp::Eq, a, b) <==> a == b,
        int_test(BinOp::Ne, a, b) <==> a != b,
{
}

/// How the comparisons relate: `>` is `<` with the operands swapped and
/// fails exactly where `<=` holds; `>=` is `<=` swapped and fails exactly
/// where `<` holds; `!=` fails exactly where `==` holds; of `<`, `==` and
/// `>` exactly one holds; an integer is `<=`, `>=` and `==` itself and
/// neither `<` nor `>` itself.
pub proof fn comparisons_relate(a: i64, b: i64)
    ensures
        int_test(BinOp::Gt, a, b) == int_test(BinOp::Lt, b, a),
        int_test(BinOp::Gt, a, b) == !int_test(BinOp::Le, a, b),
        int_test(BinOp::Ge, a, b) == int_test(BinOp::Le, b, a),
        int_test(BinOp::Ge, a, b) == !int_test(BinOp::Lt, a, b),
        int_test(BinOp::Ne, a, b) == !int_test(BinOp::Eq, a, b),
        int_test(BinOp::Eq, a, b) == int_test(BinOp::Eq, b, a),
        (int_test(BinOp::Lt, a, b) as int) + (int_test(BinOp::Eq, a, b) as int) + (int_test(BinOp::Gt, a, b) as int) == 1,
        int_test(BinOp::Le, a, a) && int_test(BinOp::Ge, a, a) && int_test(BinOp::Eq, a, a),
        !int_test(BinOp::Lt, a, a) && !int_test(BinOp::Gt, a, a) && !int_test(BinOp::Ne, a, a),
{
}

/// Addition, subtraction and multiplication of integers are exact where the
/// result fits in 64 bits and fail where it does not; addition and
/// multiplication do not depend on the order of the operands, and a
/// difference added back to the right operand gives the left one.
pub proof fn integer_arithmetic_is_exact(a: i64, b: i64)
    ensures
        binary_spec(BinOp::Add, VVal::Int(a), VVal::Int(b)) is Some <==> i64::MIN <= a + b <= i64::MAX,
        binary_spec(BinOp::Add, VVal::Int(a), VVal::Int(b)) matches Some(v) ==> v == VVal::Int((a + b) as i64),
        binary_spec(BinOp::Sub, VVal::Int(a), VVal::Int(b)) is Some <==> i64::MIN <= a - b <= i64::MAX,
        binary_spec(BinOp::Sub, VVal::Int(a), VVal::Int(b)) matches Some(v) ==> v == VVal::Int((a - b) as i64),
        binary_spec(BinOp::Mul, VVal::Int(a), VVal::Int(b)) is Some <==> i64::MIN <= a * b <= i64::MAX,
        binary_spec(BinOp::Mul, VVal::Int(a), VVal::Int(b)) matches Some(v) ==> v == VVal::Int((a * b) as i64),
        binary_spec(BinOp::Add, VVal::Int(a), VVal::Int(b)) == binary_spec(BinOp::Add, VVal::Int(b), VVal::Int(a)),
        binary_spec(BinOp::Mul, VVal::Int(a), VVal::Int(b)) == binary_spec(BinOp::Mul, VVal::Int(b), VVal::Int(a)),
        binary_spec(BinOp::Sub, VVal::Int(a), VVal::Int(b)) matches Some(VVal::Int(d)) ==> binary_spec(
            BinOp::Add,
            VVal::Int(d),
            VVal::Int(b),
        ) == Some(VVal::Int(a)),
{
    assert(a * b == b * a) by (nonlinear_arith);
}

/// Integer division rounds toward zero and the remainder makes up the
/// difference: where the divisor is not zero and the quotient fits, `/`
/// gives `q` and `%` gives `m` with `q * b + m == a`, `m` smaller than `b`
/// in size and zero or of the sign of `a`; both fail on a zero divisor.
pub proof fn integer_division_truncates(a: i64, b: i64)
    ensures
        b == 0 ==> binary_spec(BinOp::Div, VVal::Int(a), VVal::Int(b)) is None && binary_spec(
            BinOp::Rem,
            VVal::Int(a),
            VVal::Int(b),
        ) is None,
        b != 0 && !(a == i64::MIN && b == -1) ==> {
            &&& binary_spec(BinOp::Div, VVal::Int(a), VVal::Int(b)) matches Some(VVal::Int(q))
            &&& binary_spec(BinOp::Rem, VVal::Int(a), VVal::Int(b)) matches Some(VVal::Int(m))
            &&& q * b + m == a
            &&& -abs(b as int) < m < abs(b as int)
            &&& (m == 0 || (m < 0) == (a < 0))
        },
{
    if b != 0 && !(a == i64::MIN && b == -1) {
        lemma_trunc_div(a, b);
    }
}

/// The absolute value of `x`.
pub open spec fn abs(x: int) -> int {
    if x < 0 { -x } else { x }
}

/// `and` and `or` of booleans are conjunction and disjunction, `not`
/// negates a boolean, and negation of an integer is exact except on the
/// one integer whose negation does not fit.
pub proof fn connectives_and_negation(p: bool, q: bool, a: i64)
    ensures
        binary_spec(BinOp::And, VVal::Bool(p), VVal::Bool(q)) == Some(VVal::Bool(p && q)),
        binary_spec(BinOp::Or, VVal::Bool(p), VVal::Bool(q)) == Some(VVal::Bool(p || q)),
        unary_spec(UnaryOp::Not, VVal::Bool(p)) == Some(VVal::Bool(!p)),
        unary_spec(UnaryOp::Neg, VVal::Int(a)) is Some <==> a != i64::MIN,
        unary_spec(UnaryOp::Neg, VVal::Int(a)) matches Some(v) ==> v == VVal::Int((-a) as i64),
{
}

/// Where the divisor is not zero and the quotient fits, `/` and `%` give a
/// quotient and remainder related by the truncating division identity; the
/// quotient is that of the sizes, with the sign of the product of the
/// signs.
pub proof fn lemma_trunc_div(a: i64, b: i64)
    requires
        b != 0,
        !(a == i64::MIN && b == -1),
    ensures
        binary_spec(BinOp::Div, VVal::Int(a), VVal::Int(b)) matches Some(VVal::Int(q)) && binary_spec(
            BinOp::Rem,
            VVal::Int(a),
            VVal::Int(b),
        ) matches Some(VVal::Int(m)) && q * b + m == a && -abs(b as int) < m < abs(b as int) && (m == 0 || (m < 0) == (a
            < 0)) && q == (if (a < 0) == (b < 0) {
            abs(a as int) / abs(b as int)
        } else {
            -(abs(a as int) / abs(b as int))
        }),
{
    let x = a as int;
    let d = b as int;
    let ax = abs(x);
    let ad = abs(d);
    vstd::arithmetic::div_mod::lemma_fundamental_div_mod(ax, ad);
    vstd::arithmetic::div_mod::lemma_mod_pos_bound(ax, ad);
    vstd::arithmetic::div_mod::lemma_div_pos_is_pos(ax, ad);
    vstd::arithmetic::div_mod::lemma_div_nonincreasing(ax, ad);
    let q0 = ax / ad;
    let m0 = ax % ad;
    assert(ax == ad * q0 + m0);
    if x == 0 {
        assert(q0 == 0 && m0 == 0) by (nonlinear_arith)
            requires
                ax == 0,
                ad > 0,
                ax == ad * q0 + m0,
                0 <= m0 < ad,
                q0 >= 0,
        ;
    } else if x > 0 && d > 0 {
        assert(q0 * d + m0 == x) by (nonlinear_arith)
            requires
                ax == x,
                ad == d,
                ax == ad * q0 + m0,
        ;
    } else if x < 0 && d < 0 {
        assert(q0 <= 0x7fffffffffffffff) by (nonlinear_arith)
            requires
                ax == ad * q0 + m0,
                0 <= m0,
                0 <= q0 <= ax,
                ax <= 0x8000000000000000,
                ad >= 1,
                ad == 1 ==> ax <= 0x7fffffffffffffff,
        ;
        assert(q0 * d + (-m0) == x) by (nonlinear_arith)
            requires
                ax == -x,
                ad == -d,
                ax == ad * q0 + m0,
        ;
    } else if x < 0 {
        assert((-q0) * d + (-m0) == x) by (nonlinear_arith)
            requires
                ax == -x,
                ad == d,
                ax == ad * q0 + m0,
        ;
    } else {
        assert((-q0) * d + m0 == x) by (nonlinear_arith)
            requires
                ax == x,
                ad == -d,
                ax == ad * q0 + m0,
        ;
    }
}

} // verus!
