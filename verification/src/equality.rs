//! Structural equality and ordering over values.
//!
//! Both relations recurse through shared arrays and objects, and the value
//! graph may contain cycles, so every recursive walk carries a fuel bound.
//! Running out of fuel is reported (`None`) and surfaces as a catchable
//! runtime error; it never silently yields a wrong answer. Comparisons that
//! stay among plain values never consume fuel and never fail.

use vstd::prelude::*;
use crate::value::{Heap, Value, value_wf, object_wf, heap_wf};

verus! {

/// Fuel given to every structural walk started by the interpreter: the
/// maximum nesting depth of objects and arrays such a walk follows. The
/// bound exists because self-referential values make the walks partial;
/// it is set so high that every finite structure is within it, and only a
/// cyclic value could run it out.
pub const STRUCT_FUEL: u64 = 0xffff_ffff_ffff_ffff;

/// Result of an ordering comparison.
#[derive(Copy, Clone, Debug, PartialEq, Eq, Structural)]
pub enum Order {
    Less,
    Equal,
    Greater,
}

/// Structural equality of two values: `None` means the walk ran out of fuel.
///
/// Numbers, strings, booleans, `Nil` and `Undefined` compare by content;
/// arrays and objects compare their ordered contents recursively (objects
/// also their prototype chains); functions, iterators and mixed-type pairs
/// are never equal.
pub open spec fn eq_val(h: Heap, a: Value, b: Value, fuel: nat) -> Option<bool>
    decreases fuel, 0int, 0int,
{
    match (a, b) {
        (Value::Number(x), Value::Number(y)) => Some(x == y),
        (Value::Nil, Value::Nil) => Some(true),
        (Value::Undefined, Value::Undefined) => Some(true),
        (Value::Str(x), Value::Str(y)) => Some(x@ == y@),
        (Value::Bool(x), Value::Bool(y)) => Some(x == y),
        (Value::Object(x), Value::Object(y)) => if fuel == 0 {
            None
        } else {
            eq_obj(h, x as int, y as int, (fuel - 1) as nat)
        },
        (Value::Array(x), Value::Array(y)) => if fuel == 0 {
            None
        } else {
            eq_elems(h, h.arrays@[x as int]@, h.arrays@[y as int]@, 0, (fuel - 1) as nat)
        },
        _ => Some(false),
    }
}

/// Pointwise equality of two element sequences from index `i` on.
pub open spec fn eq_elems(h: Heap, s1: Seq<Value>, s2: Seq<Value>, i: int, fuel: nat) -> Option<
    bool,
>
    decreases fuel, 1int, s1.len() - i,
{
    if s1.len() != s2.len() {
        Some(false)
    } else if i < 0 || i >= s1.len() {
        Some(true)
    } else {
        match eq_val(h, s1[i], s2[i], fuel) {
            None => None,
            Some(false) => Some(false),
            Some(true) => eq_elems(h, s1, s2, i + 1, fuel),
        }
    }
}

/// Pointwise equality of two tables from entry `i` on: keys, then slots, in
/// insertion order.
pub open spec fn eq_entries(
    h: Heap,
    t1: Seq<(Value, Value)>,
    t2: Seq<(Value, Value)>,
    i: int,
    fuel: nat,
) -> Option<bool>
    decreases fuel, 1int, t1.len() - i,
{
    if t1.len() != t2.len() {
        Some(false)
    } else if i < 0 || i >= t1.len() {
        Some(true)
    } else {
        match eq_val(h, t1[i].0, t2[i].0, fuel) {
            None => None,
            Some(false) => Some(false),
            Some(true) => match eq_val(h, t1[i].1, t2[i].1, fuel) {
                None => None,
                Some(false) => Some(false),
                Some(true) => eq_entries(h, t1, t2, i + 1, fuel),
            },
        }
    }
}

/// Structural equality of the objects at `x` and `y`: their ordered tables,
/// then their prototype chains.
pub open spec fn eq_obj(h: Heap, x: int, y: int, fuel: nat) -> Option<bool>
    decreases fuel, 2int, 0int,
{
    match eq_entries(h, h.objects@[x].table@, h.objects@[y].table@, 0, fuel) {
        None => None,
        Some(false) => Some(false),
        Some(true) => match (h.objects@[x].proto, h.objects@[y].proto) {
            (Some(p), Some(q)) => if fuel == 0 {
                None
            } else {
                eq_obj(h, p as int, q as int, (fuel - 1) as nat)
            },
            (None, None) => Some(true),
            _ => Some(false),
        },
    }
}

/// Executable counterpart of [`eq_val`].
pub fn eq_value(h: &Heap, a: &Value, b: &Value, fuel: u64) -> (r: Option<bool>)
    requires
        heap_wf(*h),
        value_wf(*h, *a),
        value_wf(*h, *b),
    ensures
        r == eq_val(*h, *a, *b, fuel as nat),
    decreases fuel, 0int, 0int,
{
    match (a, b) {
        (Value::Number(x), Value::Number(y)) => Some(*x == *y),
        (Value::Nil, Value::Nil) => Some(true),
        (Value::Undefined, Value::Undefined) => Some(true),
        (Value::Str(x), Value::Str(y)) => Some(x.eq(y)),
        (Value::Bool(x), Value::Bool(y)) => Some(*x == *y),
        (Value::Object(x), Value::Object(y)) => {
            if fuel == 0 {
                None
            } else {
                eq_object(h, *x, *y, fuel - 1)
            }
        },
        (Value::Array(x), Value::Array(y)) => {
            if fuel == 0 {
                None
            } else {
                eq_array(h, *x, *y, fuel - 1)
            }
        },
        _ => Some(false),
    }
}

/// Executable pointwise equality of the arrays at `x` and `y`.
fn eq_array(h: &Heap, x: usize, y: usize, fuel: u64) -> (r: Option<bool>)
    requires
        heap_wf(*h),
        x < h.arrays.len(),
        y < h.arrays.len(),
    ensures
        r == eq_elems(*h, h.arrays@[x as int]@, h.arrays@[y as int]@, 0, fuel as nat),
    decreases fuel, 1int, 0int,
{
    let n = h.arrays[x].len();
    if n != h.arrays[y].len() {
        return Some(false);
    }
    let mut i: usize = 0;
    while i < n
        invariant
            heap_wf(*h),
            x < h.arrays.len(),
            y < h.arrays.len(),
            i <= n,
            n == h.arrays@[x as int]@.len(),
            n == h.arrays@[y as int]@.len(),
            eq_elems(*h, h.arrays@[x as int]@, h.arrays@[y as int]@, 0, fuel as nat) == eq_elems(
                *h,
                h.arrays@[x as int]@,
                h.arrays@[y as int]@,
                i as int,
                fuel as nat,
            ),
        decreases n - i,
    {
        assert(vals_wf_at(*h, x as int, i as int)) by {
            assert(crate::value::vals_wf(*h, h.arrays@[x as int]@));
        }
        assert(vals_wf_at(*h, y as int, i as int)) by {
            assert(crate::value::vals_wf(*h, h.arrays@[y as int]@));
        }
        let c = eq_value(h, &h.arrays[x][i], &h.arrays[y][i], fuel);
        match c {
            None => {
                return None;
            },
            Some(false) => {
                return Some(false);
            },
            Some(true) => {
                i = i + 1;
            },
        }
    }
    Some(true)
}

/// The element `i` of the array at `a` is well formed.
pub open spec fn vals_wf_at(h: Heap, a: int, i: int) -> bool {
    value_wf(h, h.arrays@[a]@[i])
}

/// Executable pointwise equality of the tables of the objects at `x` and `y`.
fn eq_table(h: &Heap, x: usize, y: usize, fuel: u64) -> (r: Option<bool>)
    requires
        heap_wf(*h),
        x < h.objects.len(),
        y < h.objects.len(),
    ensures
        r == eq_entries(*h, h.objects@[x as int].table@, h.objects@[y as int].table@, 0, fuel as nat),
    decreases fuel, 1int, 0int,
{
    let n = h.objects[x].table.len();
    if n != h.objects[y].table.len() {
        return Some(false);
    }
    let mut i: usize = 0;
    while i < n
        invariant
            heap_wf(*h),
            x < h.objects.len(),
            y < h.objects.len(),
            i <= n,
            n == h.objects@[x as int].table@.len(),
            n == h.objects@[y as int].table@.len(),
            eq_entries(*h, h.objects@[x as int].table@, h.objects@[y as int].table@, 0, fuel as nat)
                == eq_entries(
                *h,
                h.objects@[x as int].table@,
                h.objects@[y as int].table@,
                i as int,
                fuel as nat,
            ),
        decreases n - i,
    {
        proof {
            assert(object_wf(*h, x as int));
            assert(object_wf(*h, y as int));
            assert(crate::value::table_wf(*h, h.objects@[x as int].table@));
            assert(crate::value::table_wf(*h, h.objects@[y as int].table@));
        }
        let k = eq_value(h, &h.objects[x].table[i].0, &h.objects[y].table[i].0, fuel);
        match k {
            None => {
                return None;
            },
            Some(false) => {
                return Some(false);
            },
            Some(true) => {
                let v = eq_value(h, &h.objects[x].table[i].1, &h.objects[y].table[i].1, fuel);
                match v {
                    None => {
                        return None;
                    },
                    Some(false) => {
                        return Some(false);
                    },
                    Some(true) => {
                        i = i + 1;
                    },
                }
            },
        }
    }
    Some(true)
}

/// Executable counterpart of [`eq_obj`].
fn eq_object(h: &Heap, x: usize, y: usize, fuel: u64) -> (r: Option<bool>)
    requires
        heap_wf(*h),
        x < h.objects.len(),
        y < h.objects.len(),
    ensures
        r == eq_obj(*h, x as int, y as int, fuel as nat),
    decreases fuel, 2int, 0int,
{
    let t = eq_table(h, x, y, fuel);
    match t {
        None => None,
        Some(false) => Some(false),
        Some(true) => {
            proof {
                assert(object_wf(*h, x as int));
                assert(object_wf(*h, y as int));
            }
            match (h.objects[x].proto, h.objects[y].proto) {
                (Some(p), Some(q)) => {
                    if fuel == 0 {
                        None
                    } else {
                        eq_object(h, p, q, fuel - 1)
                    }
                },
                (None, None) => Some(true),
                _ => Some(false),
            }
        },
    }
}

/// Total order on numbers.
pub open spec fn cmp_i64(x: i64, y: i64) -> Order {
    if x < y {
        Order::Less
    } else if y < x {
        Order::Greater
    } else {
        Order::Equal
    }
}

/// Total order on mathematical integers (used for length ties).
pub open spec fn cmp_int(x: int, y: int) -> Order {
    if x < y {
        Order::Less
    } else if y < x {
        Order::Greater
    } else {
        Order::Equal
    }
}

/// `false` sorts before `true`.
pub open spec fn cmp_bool(x: bool, y: bool) -> Order {
    if x == y {
        Order::Equal
    } else if y {
        Order::Less
    } else {
        Order::Greater
    }
}

/// Lexicographic order on character sequences from index `i` on.
pub open spec fn cmp_chars(s1: Seq<char>, s2: Seq<char>, i: int) -> Order
    decreases s1.len() - i,
{
    if i < 0 {
        Order::Equal
    } else if i >= s1.len() || i >= s2.len() {
        cmp_int(s1.len() as int, s2.len() as int)
    } else if (s1[i] as u32) < (s2[i] as u32) {
        Order::Less
    } else if (s2[i] as u32) < (s1[i] as u32) {
        Order::Greater
    } else {
        cmp_chars(s1, s2, i + 1)
    }
}

/// Ordering of two values: the outer `None` means the walk ran out of fuel,
/// the inner `None` that the values do not belong to one ordered type.
///
/// Numbers, strings and booleans order within their type; arrays order
/// lexicographically by element, objects lexicographically by their ordered
/// tables; every mixed pair, and any pair involving `Nil`, `Undefined`, a
/// function or an iterator, is unordered.
pub open spec fn cmp_val(h: Heap, a: Value, b: Value, fuel: nat) -> Option<Option<Order>>
    decreases fuel, 0int, 0int,
{
    match (a, b) {
        (Value::Number(x), Value::Number(y)) => Some(Some(cmp_i64(x, y))),
        (Value::Str(x), Value::Str(y)) => Some(Some(cmp_chars(x@, y@, 0))),
        (Value::Bool(x), Value::Bool(y)) => Some(Some(cmp_bool(x, y))),
        (Value::Array(x), Value::Array(y)) => if fuel == 0 {
            None
        } else {
            cmp_elems(h, h.arrays@[x as int]@, h.arrays@[y as int]@, 0, (fuel - 1) as nat)
        },
        (Value::Object(x), Value::Object(y)) => if fuel == 0 {
            None
        } else {
            cmp_entries(
                h,
                h.objects@[x as int].table@,
                h.objects@[y as int].table@,
                0,
                (fuel - 1) as nat,
            )
        },
        _ => Some(None),
    }
}

/// Lexicographic ordering of two element sequences from index `i` on: the
/// first unequal pair decides, a tie is decided by length.
pub open spec fn cmp_elems(h: Heap, s1: Seq<Value>, s2: Seq<Value>, i: int, fuel: nat) -> Option<
    Option<Order>,
>
    decreases fuel, 1int, s1.len() - i,
{
    if i < 0 {
        Some(None)
    } else if i >= s1.len() || i >= s2.len() {
        Some(Some(cmp_int(s1.len() as int, s2.len() as int)))
    } else {
        match cmp_val(h, s1[i], s2[i], fuel) {
            None => None,
            Some(None) => Some(None),
            Some(Some(Order::Equal)) => cmp_elems(h, s1, s2, i + 1, fuel),
            Some(Some(o)) => Some(Some(o)),
        }
    }
}

/// Lexicographic ordering of two tables from entry `i` on: each entry
/// compares its key first, then its slot.
pub open spec fn cmp_entries(
    h: Heap,
    t1: Seq<(Value, Value)>,
    t2: Seq<(Value, Value)>,
    i: int,
    fuel: nat,
) -> Option<Option<Order>>
    decreases fuel, 1int, t1.len() - i,
{
    if i < 0 {
        Some(None)
    } else if i >= t1.len() || i >= t2.len() {
        Some(Some(cmp_int(t1.len() as int, t2.len() as int)))
    } else {
        match cmp_val(h, t1[i].0, t2[i].0, fuel) {
            None => None,
            Some(None) => Some(None),
            Some(Some(Order::Equal)) => match cmp_val(h, t1[i].1, t2[i].1, fuel) {
                None => None,
                Some(None) => Some(None),
                Some(Some(Order::Equal)) => cmp_entries(h, t1, t2, i + 1, fuel),
                Some(Some(o)) => Some(Some(o)),
            },
            Some(Some(o)) => Some(Some(o)),
        }
    }
}

/// Executable lexicographic comparison of two strings.
pub fn str_cmp(a: &String, b: &String) -> (r: Order)
    ensures
        r == cmp_chars(a@, b@, 0),
{
    let n1 = a.as_str().unicode_len();
    let n2 = b.as_str().unicode_len();
    let mut i: usize = 0;
    while i < n1 && i < n2
        invariant
            n1 == a@.len(),
            n2 == b@.len(),
            i <= n1,
            i <= n2,
            cmp_chars(a@, b@, 0) == cmp_chars(a@, b@, i as int),
        decreases n1 - i,
    {
        let c1 = a.as_str().get_char(i);
        let c2 = b.as_str().get_char(i);
        if (c1 as u32) < (c2 as u32) {
            return Order::Less;
        } else if (c2 as u32) < (c1 as u32) {
            return Order::Greater;
        }
        i = i + 1;
    }
    if n1 < n2 {
        Order::Less
    } else if n2 < n1 {
        Order::Greater
    } else {
        Order::Equal
    }
}

/// Executable counterpart of [`cmp_val`].
pub fn cmp_value(h: &Heap, a: &Value, b: &Value, fuel: u64) -> (r: Option<Option<Order>>)
    requires
        heap_wf(*h),
        value_wf(*h, *a),
        value_wf(*h, *b),
    ensures
        r == cmp_val(*h, *a, *b, fuel as nat),
    decreases fuel, 0int, 0int,
{
    match (a, b) {
        (Value::Number(x), Value::Number(y)) => Some(Some(
            if *x < *y {
                Order::Less
            } else if *y < *x {
                Order::Greater
            } else {
                Order::Equal
            },
        )),
        (Value::Str(x), Value::Str(y)) => Some(Some(str_cmp(x, y))),
        (Value::Bool(x), Value::Bool(y)) => Some(Some(
            if *x == *y {
                Order::Equal
            } else if *y {
                Order::Less
            } else {
                Order::Greater
            },
        )),
        (Value::Array(x), Value::Array(y)) => {
            if fuel == 0 {
                None
            } else {
                cmp_array(h, *x, *y, fuel - 1)
            }
        },
        (Value::Object(x), Value::Object(y)) => {
            if fuel == 0 {
                None
            } else {
                cmp_table(h, *x, *y, fuel - 1)
            }
        },
        _ => Some(None),
    }
}

/// Executable lexicographic comparison of the arrays at `x` and `y`.
fn cmp_array(h: &Heap, x: usize, y: usize, fuel: u64) -> (r: Option<Option<Order>>)
    requires
        heap_wf(*h),
        x < h.arrays.len(),
        y < h.arrays.len(),
    ensures
        r == cmp_elems(*h, h.arrays@[x as int]@, h.arrays@[y as int]@, 0, fuel as nat),
    decreases fuel, 1int, 0int,
{
    let n1 = h.arrays[x].len();
    let n2 = h.arrays[y].len();
    let mut i: usize = 0;
    while i < n1 && i < n2
        invariant
            heap_wf(*h),
            x < h.arrays.len(),
            y < h.arrays.len(),
            i <= n1,
            i <= n2,
            n1 == h.arrays@[x as int]@.len(),
            n2 == h.arrays@[y as int]@.len(),
            cmp_elems(*h, h.arrays@[x as int]@, h.arrays@[y as int]@, 0, fuel as nat) == cmp_elems(
                *h,
                h.arrays@[x as int]@,
                h.arrays@[y as int]@,
                i as int,
                fuel as nat,
            ),
        decreases n1 - i,
    {
        assert(vals_wf_at(*h, x as int, i as int)) by {
            assert(crate::value::vals_wf(*h, h.arrays@[x as int]@));
        }
        assert(vals_wf_at(*h, y as int, i as int)) by {
            assert(crate::value::vals_wf(*h, h.arrays@[y as int]@));
        }
        let c = cmp_value(h, &h.arrays[x][i], &h.arrays[y][i], fuel);
        match c {
            None => {
                return None;
            },
            Some(None) => {
                return Some(None);
            },
            Some(Some(Order::Equal)) => {
                i = i + 1;
            },
            Some(Some(o)) => {
                return Some(Some(o));
            },
        }
    }
    if n1 < n2 {
        Some(Some(Order::Less))
    } else if n2 < n1 {
        Some(Some(Order::Greater))
    } else {
        Some(Some(Order::Equal))
    }
}

/// Executable lexicographic comparison of the tables of the objects at `x`
/// and `y`.
fn cmp_table(h: &Heap, x: usize, y: usize, fuel: u64) -> (r: Option<Option<Order>>)
    requires
        heap_wf(*h),
        x < h.objects.len(),
        y < h.objects.len(),
    ensures
        r == cmp_entries(*h, h.objects@[x as int].table@, h.objects@[y as int].table@, 0, fuel as nat),
    decreases fuel, 1int, 0int,
{
    let n1 = h.objects[x].table.len();
    let n2 = h.objects[y].table.len();
    let mut i: usize = 0;
    while i < n1 && i < n2
        invariant
            heap_wf(*h),
            x < h.objects.len(),
            y < h.objects.len(),
            i <= n1,
            i <= n2,
            n1 == h.objects@[x as int].table@.len(),
            n2 == h.objects@[y as int].table@.len(),
            cmp_entries(*h, h.objects@[x as int].table@, h.objects@[y as int].table@, 0, fuel as nat)
                == cmp_entries(
                *h,
                h.objects@[x as int].table@,
                h.objects@[y as int].table@,
                i as int,
                fuel as nat,
            ),
        decreases n1 - i,
    {
        proof {
            assert(object_wf(*h, x as int));
            assert(object_wf(*h, y as int));
            assert(crate::value::table_wf(*h, h.objects@[x as int].table@));
            assert(crate::value::table_wf(*h, h.objects@[y as int].table@));
        }
        let k = cmp_value(h, &h.objects[x].table[i].0, &h.objects[y].table[i].0, fuel);
        match k {
            None => {
                return None;
            },
            Some(None) => {
                return Some(None);
            },
            Some(Some(Order::Equal)) => {
                let v = cmp_value(h, &h.objects[x].table[i].1, &h.objects[y].table[i].1, fuel);
                match v {
                    None => {
                        return None;
                    },
                    Some(None) => {
                        return Some(None);
                    },
                    Some(Some(Order::Equal)) => {
                        i = i + 1;
                    },
                    Some(Some(o)) => {
                        return Some(Some(o));
                    },
                }
            },
            Some(Some(o)) => {
                return Some(Some(o));
            },
        }
    }
    if n1 < n2 {
        Some(Some(Order::Less))
    } else if n2 < n1 {
        Some(Some(Order::Greater))
    } else {
        Some(Some(Order::Equal))
    }
}

} // verus!
