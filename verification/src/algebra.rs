//! The operator algebra over values: truthiness, the unary operators, and
//! the uniform dispatch of every binary operator.
//!
//! Unless a rule says otherwise, a type mismatch yields `Undefined` for
//! arithmetic and `false` for comparison; no operator raises an exception by
//! itself. Arithmetic on numbers wraps in 64 bits; division and remainder by
//! zero (or overflowing) yield `Undefined`.

use vstd::prelude::*;
use vstd::string::StringExecFns;
use vstd::wrapping::i64_specs;
use crate::opcodes::Opcode;
use crate::value::{Heap, Value, value_wf, vals_wf, heap_wf, same_except_objects};
use crate::equality::{eq_val, eq_value, cmp_val, cmp_value, Order};
use crate::display::{disp_val, display_string};
use crate::scope::is_str_val;

verus! {

/// Truthiness: booleans are themselves, a number is true iff it is not
/// zero, `Nil` and `Undefined` are false, every other value is true.
pub open spec fn truthy(v: Value) -> bool {
    match v {
        Value::Bool(b) => b,
        Value::Number(n) => n != 0,
        Value::Nil => false,
        Value::Undefined => false,
        _ => true,
    }
}

/// Executable counterpart of [`truthy`].
pub fn is_truthy(v: &Value) -> (r: bool)
    ensures
        r == truthy(*v),
{
    match v {
        Value::Bool(b) => *b,
        Value::Number(n) => *n != 0,
        Value::Nil => false,
        Value::Undefined => false,
        _ => true,
    }
}

/// Unary negation: `-x` for a number, `0` for `Nil`, `Undefined` otherwise.
pub open spec fn neg_val(v: Value) -> Value {
    match v {
        Value::Number(n) => Value::Number(i64_specs::wrapping_sub(0, n)),
        Value::Nil => Value::Number(0),
        _ => Value::Undefined,
    }
}

/// Executable counterpart of [`neg_val`].
pub fn eval_neg(v: &Value) -> (r: Value)
    ensures
        r == neg_val(*v),
{
    match v {
        Value::Number(n) => Value::Number(0i64.wrapping_sub(*n)),
        Value::Nil => Value::Number(0),
        _ => Value::Undefined,
    }
}

/// Logical/bitwise not: inverts a boolean, complements a number bitwise,
/// `Nil` and `Undefined` negate to `true`, everything else to `false`.
pub open spec fn not_val(v: Value) -> Value {
    match v {
        Value::Bool(b) => Value::Bool(!b),
        Value::Number(n) => Value::Number((-1 - n) as i64),
        Value::Nil => Value::Bool(true),
        Value::Undefined => Value::Bool(true),
        _ => Value::Bool(false),
    }
}

/// Executable counterpart of [`not_val`]: the bitwise complement of `n` is
/// `-1 - n`, which never overflows.
pub fn eval_not(v: &Value) -> (r: Value)
    ensures
        r == not_val(*v),
{
    match v {
        Value::Bool(b) => Value::Bool(!*b),
        Value::Number(n) => Value::Number((-1i64).wrapping_sub(*n)),
        Value::Nil => Value::Bool(true),
        Value::Undefined => Value::Bool(true),
        _ => Value::Bool(false),
    }
}

/// The shift amount encoded by the right operand: its low six bits.
pub open spec fn shift_amount(y: i64) -> u32 {
    (y & 63) as u32
}

/// The low six bits of a 64-bit word lie between 0 and 63.
proof fn lemma_mask63(y: i64)
    ensures
        0 <= (y & 63) < 64,
{
    assert(0 <= (y & 63) < 64) by (bit_vector);
}

/// A purely numeric binary operation, both operands already numbers.
pub open spec fn arith_binop(op: Opcode, x: i64, y: i64) -> Value {
    match op {
        Opcode::Add => Value::Number(i64_specs::wrapping_add(x, y)),
        Opcode::Sub => Value::Number(i64_specs::wrapping_sub(x, y)),
        Opcode::Mul => Value::Number(i64_specs::wrapping_mul(x, y)),
        Opcode::Div => match x.checked_div(y) {
            Some(q) => Value::Number(q),
            None => Value::Undefined,
        },
        Opcode::Rem => match x.checked_rem(y) {
            Some(q) => Value::Number(q),
            None => Value::Undefined,
        },
        Opcode::Shl => Value::Number(i64_specs::wrapping_shl(x, shift_amount(y))),
        Opcode::Shr => Value::Number(i64_specs::wrapping_shr(x, shift_amount(y))),
        Opcode::BitAnd => Value::Number(x & y),
        Opcode::BitOr => Value::Number(x | y),
        Opcode::BitXor => Value::Number(x ^ y),
        _ => Value::Undefined,
    }
}

/// What evaluating a binary operator yields.
pub enum BinRes {
    /// A plain value; the heap is untouched.
    Val(Value),
    /// A string with this text (`+` with a string operand).
    StrVal(Seq<char>),
    /// A fresh array with these elements (`+` on two arrays).
    NewArr(Seq<Value>),
    /// A structural walk (equality, ordering, display) ran out of fuel.
    Fault,
}

/// Evaluation of the binary operator `op` on `a OP b`.
///
/// `+` adds numbers, concatenates arrays into a fresh array, and
/// concatenates strings using the other operand's display text; the other
/// arithmetic and bitwise operators work on numbers only and yield
/// `Undefined` on any other pair. `&&`/`||` combine truthiness. The
/// comparisons order within one ordered type and are `false` across types;
/// `==`/`!=` are structural equality.
pub open spec fn binop_res(h: Heap, op: Opcode, a: Value, b: Value, fuel: nat) -> BinRes {
    match op {
        Opcode::Add => match (a, b) {
            (Value::Number(x), Value::Number(y)) => BinRes::Val(arith_binop(op, x, y)),
            (Value::Array(x), Value::Array(y)) => BinRes::NewArr(
                h.arrays@[x as int]@ + h.arrays@[y as int]@,
            ),
            (Value::Str(x), _) => match disp_val(h, b, fuel) {
                None => BinRes::Fault,
                Some(d) => BinRes::StrVal(x@ + d),
            },
            (_, Value::Str(y)) => match disp_val(h, a, fuel) {
                None => BinRes::Fault,
                Some(d) => BinRes::StrVal(d + y@),
            },
            _ => BinRes::Val(Value::Undefined),
        },
        Opcode::Sub | Opcode::Mul | Opcode::Div | Opcode::Rem | Opcode::Shl | Opcode::Shr
            | Opcode::BitAnd | Opcode::BitOr | Opcode::BitXor => match (a, b) {
            (Value::Number(x), Value::Number(y)) => BinRes::Val(arith_binop(op, x, y)),
            _ => BinRes::Val(Value::Undefined),
        },
        Opcode::And => BinRes::Val(Value::Bool(truthy(a) && truthy(b))),
        Opcode::Or => BinRes::Val(Value::Bool(truthy(a) || truthy(b))),
        Opcode::Gt | Opcode::Ge | Opcode::Lt | Opcode::Le => match cmp_val(h, a, b, fuel) {
            None => BinRes::Fault,
            Some(None) => BinRes::Val(Value::Bool(false)),
            Some(Some(o)) => BinRes::Val(Value::Bool(
                match op {
                    Opcode::Gt => o == Order::Greater,
                    Opcode::Ge => o == Order::Greater || o == Order::Equal,
                    Opcode::Lt => o == Order::Less,
                    _ => o == Order::Less || o == Order::Equal,
                },
            )),
        },
        Opcode::Eq => match eq_val(h, a, b, fuel) {
            None => BinRes::Fault,
            Some(e) => BinRes::Val(Value::Bool(e)),
        },
        Opcode::Ne => match eq_val(h, a, b, fuel) {
            None => BinRes::Fault,
            Some(e) => BinRes::Val(Value::Bool(!e)),
        },
        _ => BinRes::Val(Value::Undefined),
    }
}

/// Clones a vector of values, element for element.
pub fn clone_values(v: &Vec<Value>) -> (r: Vec<Value>)
    ensures
        r@ == v@,
{
    let r = v.clone();
    proof {
        assert forall|i: int| 0 <= i < v@.len() implies r@[i] == v@[i] by {
            assert(vstd::pervasive::cloned::<Value>(v@[i], r@[i]));
        }
        assert(r@ =~= v@);
    }
    r
}

/// Evaluates the purely numeric operators.
fn eval_arith(op: &Opcode, x: i64, y: i64) -> (r: Value)
    requires
        (match *op {
            Opcode::Add | Opcode::Sub | Opcode::Mul | Opcode::Div | Opcode::Rem | Opcode::Shl
                | Opcode::Shr | Opcode::BitAnd | Opcode::BitOr | Opcode::BitXor => true,
            _ => false,
        }),
    ensures
        r == arith_binop(*op, x, y),
{
    match op {
        Opcode::Add => Value::Number(x.wrapping_add(y)),
        Opcode::Sub => Value::Number(x.wrapping_sub(y)),
        Opcode::Mul => Value::Number(x.wrapping_mul(y)),
        Opcode::Div => match x.checked_div(y) {
            Some(q) => Value::Number(q),
            None => Value::Undefined,
        },
        Opcode::Rem => match x.checked_rem(y) {
            Some(q) => Value::Number(q),
            None => Value::Undefined,
        },
        Opcode::Shl => {
            proof {
                lemma_mask63(y);
            }
            Value::Number(x.wrapping_shl((y & 63) as u32))
        },
        Opcode::Shr => {
            proof {
                lemma_mask63(y);
            }
            Value::Number(x.wrapping_shr((y & 63) as u32))
        },
        Opcode::BitAnd => Value::Number(x & y),
        Opcode::BitOr => Value::Number(x | y),
        _ => Value::Number(x ^ y),
    }
}

/// Evaluates `a OP b` for a binary operator opcode. Only `+` on two arrays
/// touches the heap (it allocates the concatenation); an `Err` reports a
/// structural walk that ran out of fuel, with the heap untouched.
pub fn eval_binop(h: &mut Heap, op: &Opcode, a: &Value, b: &Value, fuel: u64) -> (r: Result<
    Value,
    (),
>)
    requires
        old(h).wf(),
        value_wf(*old(h), *a),
        value_wf(*old(h), *b),
    ensures
        final(h).wf(),
        match binop_res(*old(h), *op, *a, *b, fuel as nat) {
            BinRes::Val(v) => r == Result::<Value, ()>::Ok(v) && *final(h) == *old(h) && value_wf(
                *final(h),
                v,
            ),
            BinRes::StrVal(s) => (r matches Result::Ok(v) && is_str_val(v, s)) && *final(h) == *old(
                h,
            ),
            BinRes::NewArr(s) => {
                &&& r == Result::<Value, ()>::Ok(Value::Array(old(h).arrays@.len() as usize))
                &&& final(h).arrays@.len() == old(h).arrays@.len() + 1
                &&& final(h).arrays@[old(h).arrays@.len() as int]@ == s
                &&& forall|j: int|
                    0 <= j < old(h).arrays@.len() ==> final(h).arrays@[j] == old(h).arrays@[j]
                &&& final(h).objects@ == old(h).objects@
                &&& final(h).functions@ == old(h).functions@
                &&& final(h).iters@ == old(h).iters@
            },
            BinRes::Fault => r == Result::<Value, ()>::Err(()) && *final(h) == *old(h),
        },
{
    match op {
        Opcode::Add => match (a, b) {
            (Value::Number(x), Value::Number(y)) => Result::Ok(Value::Number(x.wrapping_add(*y))),
            (Value::Array(x), Value::Array(y)) => {
                proof {
                    assert(vals_wf(*h, h.arrays@[*x as int]@));
                    assert(vals_wf(*h, h.arrays@[*y as int]@));
                }
                let mut c = clone_values(&h.arrays[*x]);
                let mut d = clone_values(&h.arrays[*y]);
                c.append(&mut d);
                proof {
                    assert(vals_wf(*h, c@)) by {
                        assert(c@ =~= h.arrays@[*x as int]@ + h.arrays@[*y as int]@);
                    }
                }
                let i = h.alloc_array(c);
                Result::Ok(Value::Array(i))
            },
            (Value::Str(x), _) => match display_string(h, b, fuel) {
                None => Result::Err(()),
                Some(d) => Result::Ok(Value::Str(x.clone().concat(d.as_str()))),
            },
            (_, Value::Str(y)) => match display_string(h, a, fuel) {
                None => Result::Err(()),
                Some(d) => Result::Ok(Value::Str(d.concat(y.as_str()))),
            },
            _ => Result::Ok(Value::Undefined),
        },
        Opcode::Sub | Opcode::Mul | Opcode::Div | Opcode::Rem | Opcode::Shl | Opcode::Shr
            | Opcode::BitAnd | Opcode::BitOr | Opcode::BitXor => match (a, b) {
            (Value::Number(x), Value::Number(y)) => Result::Ok(eval_arith(op, *x, *y)),
            _ => Result::Ok(Value::Undefined),
        },
        Opcode::And => Result::Ok(Value::Bool(is_truthy(a) && is_truthy(b))),
        Opcode::Or => Result::Ok(Value::Bool(is_truthy(a) || is_truthy(b))),
        Opcode::Gt | Opcode::Ge | Opcode::Lt | Opcode::Le => {
            match cmp_value(h, a, b, fuel) {
                None => Result::Err(()),
                Some(None) => Result::Ok(Value::Bool(false)),
                Some(Some(o)) => Result::Ok(Value::Bool(
                    match op {
                        Opcode::Gt => matches!(o, Order::Greater),
                        Opcode::Ge => !matches!(o, Order::Less),
                        Opcode::Lt => matches!(o, Order::Less),
                        _ => !matches!(o, Order::Greater),
                    },
                )),
            }
        },
        Opcode::Eq => match eq_value(h, a, b, fuel) {
            None => Result::Err(()),
            Some(e) => Result::Ok(Value::Bool(e)),
        },
        Opcode::Ne => match eq_value(h, a, b, fuel) {
            None => Result::Err(()),
            Some(e) => Result::Ok(Value::Bool(!e)),
        },
        _ => Result::Ok(Value::Undefined),
    }
}

/// Reference identity: two values are the same reference cell exactly when
/// they are the same kind of shared value and carry the same handle; plain
/// values (numbers, strings, booleans, `Nil`, `Undefined`) are copied on
/// every use and are never the same cell.
pub open spec fn ref_eq(a: Value, b: Value) -> bool {
    match (a, b) {
        (Value::Object(x), Value::Object(y)) => x == y,
        (Value::Array(x), Value::Array(y)) => x == y,
        (Value::Function(x), Value::Function(y)) => x == y,
        (Value::Iter(x), Value::Iter(y)) => x == y,
        _ => false,
    }
}

/// Executable counterpart of [`ref_eq`].
pub fn ref_equal(a: &Value, b: &Value) -> (r: bool)
    ensures
        r == ref_eq(*a, *b),
{
    match (a, b) {
        (Value::Object(x), Value::Object(y)) => *x == *y,
        (Value::Array(x), Value::Array(y)) => *x == *y,
        (Value::Function(x), Value::Function(y)) => *x == *y,
        (Value::Iter(x), Value::Iter(y)) => *x == *y,
        _ => false,
    }
}

} // verus!
