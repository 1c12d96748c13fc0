//! Structural hashing of values.
//!
//! The hash folds a value's structure into a 64-bit state word by word:
//! a number contributes its bit representation, `Nil` and `Undefined` the
//! zero word, a boolean one bit, a string its characters and length, an
//! array each element then its length, an object each key and slot then its
//! length then its prototype; functions and iterators contribute a fixed
//! marker. Like every structural walk, hashing carries a fuel bound and
//! reports exhaustion instead of answering wrongly.

use vstd::prelude::*;
use vstd::string::StrSliceExecFns;
use vstd::wrapping::u64_specs;
use crate::value::{Heap, Value, value_wf, object_wf, heap_wf};

verus! {

/// The starting state of a hash.
pub const HASH_BASIS: u64 = 14695981039346656037;

/// The multiplier folding one word into the state.
pub const HASH_PRIME: u64 = 1099511628211;

/// Folds one word into the state.
pub open spec fn mix(state: u64, w: u64) -> u64 {
    u64_specs::wrapping_mul(state ^ w, HASH_PRIME)
}

/// Folds the characters of `s` from index `i` on into the state.
pub open spec fn hash_chars(state: u64, s: Seq<char>, i: int) -> u64
    decreases s.len() - i,
{
    if i < 0 || i >= s.len() {
        mix(state, s.len() as u64)
    } else {
        hash_chars(mix(state, s[i] as u64), s, i + 1)
    }
}

/// Folds a value into the state; `None` reports exhausted fuel.
pub open spec fn hash_val(h: Heap, state: u64, v: Value, fuel: nat) -> Option<u64>
    decreases fuel, 0int, 0int,
{
    match v {
        Value::Number(n) => Some(mix(state, n as u64)),
        Value::Nil => Some(mix(state, 0)),
        Value::Undefined => Some(mix(state, 0)),
        Value::Bool(b) => Some(mix(state, if b {
            1
        } else {
            0
        })),
        Value::Str(s) => Some(hash_chars(state, s@, 0)),
        Value::Array(x) => if fuel == 0 {
            None
        } else {
            match hash_elems(h, state, h.arrays@[x as int]@, 0, (fuel - 1) as nat) {
                None => None,
                Some(st) => Some(mix(st, h.arrays@[x as int]@.len() as u64)),
            }
        },
        Value::Object(x) => if fuel == 0 {
            None
        } else {
            hash_obj(h, state, x as int, (fuel - 1) as nat)
        },
        _ => Some(mix(state, u64::MAX)),
    }
}

/// Folds the elements of `s` from index `i` on into the state.
pub open spec fn hash_elems(h: Heap, state: u64, s: Seq<Value>, i: int, fuel: nat) -> Option<u64>
    decreases fuel, 1int, s.len() - i,
{
    if i < 0 || i >= s.len() {
        Some(state)
    } else {
        match hash_val(h, state, s[i], fuel) {
            None => None,
            Some(st) => hash_elems(h, st, s, i + 1, fuel),
        }
    }
}

/// Folds the entries of `t` from index `i` on into the state: each key,
/// then its slot.
pub open spec fn hash_entries(h: Heap, state: u64, t: Seq<(Value, Value)>, i: int, fuel: nat) -> Option<
    u64,
>
    decreases fuel, 1int, t.len() - i,
{
    if i < 0 || i >= t.len() {
        Some(state)
    } else {
        match hash_val(h, state, t[i].0, fuel) {
            None => None,
            Some(st) => match hash_val(h, st, t[i].1, fuel) {
                None => None,
                Some(st2) => hash_entries(h, st2, t, i + 1, fuel),
            },
        }
    }
}

/// Folds the object at `x` into the state: its entries, its length, then
/// its prototype chain.
pub open spec fn hash_obj(h: Heap, state: u64, x: int, fuel: nat) -> Option<u64>
    decreases fuel, 2int, 0int,
{
    match hash_entries(h, state, h.objects@[x].table@, 0, fuel) {
        None => None,
        Some(st) => {
            let st2 = mix(st, h.objects@[x].table@.len() as u64);
            match h.objects@[x].proto {
                Some(p) => if fuel == 0 {
                    None
                } else {
                    hash_obj(h, st2, p as int, (fuel - 1) as nat)
                },
                None => Some(st2),
            }
        },
    }
}

/// The hash of a value, or `None` when the walk ran out of fuel.
pub fn hash_value(h: &Heap, v: &Value, fuel: u64) -> (r: Option<u64>)
    requires
        heap_wf(*h),
        value_wf(*h, *v),
    ensures
        r == hash_val(*h, HASH_BASIS, *v, fuel as nat),
{
    hash_into(h, HASH_BASIS, v, fuel)
}

/// Executable counterpart of [`hash_val`].
fn hash_into(h: &Heap, state: u64, v: &Value, fuel: u64) -> (r: Option<u64>)
    requires
        heap_wf(*h),
        value_wf(*h, *v),
    ensures
        r == hash_val(*h, state, *v, fuel as nat),
    decreases fuel, 0int, 0int,
{
    match v {
        Value::Number(n) => Some(mix_word(state, *n as u64)),
        Value::Nil => Some(mix_word(state, 0)),
        Value::Undefined => Some(mix_word(state, 0)),
        Value::Bool(b) => Some(mix_word(state, if *b { 1 } else { 0 })),
        Value::Str(s) => Some(hash_str(state, s)),
        Value::Array(x) => {
            if fuel == 0 {
                None
            } else {
                match hash_array(h, state, *x, fuel - 1) {
                    None => None,
                    Some(st) => {
                        let n = h.arrays[*x].len();
                        Some(mix_word(st, n as u64))
                    },
                }
            }
        },
        Value::Object(x) => {
            if fuel == 0 {
                None
            } else {
                hash_object(h, state, *x, fuel - 1)
            }
        },
        _ => Some(mix_word(state, u64::MAX)),
    }
}

/// Executable counterpart of [`mix`].
fn mix_word(state: u64, w: u64) -> (r: u64)
    ensures
        r == mix(state, w),
{
    (state ^ w).wrapping_mul(HASH_PRIME)
}

/// Executable counterpart of [`hash_chars`].
fn hash_str(state: u64, s: &String) -> (r: u64)
    ensures
        r == hash_chars(state, s@, 0),
{
    let n = s.as_str().unicode_len();
    let mut st = state;
    let mut i: usize = 0;
    while i < n
        invariant
            n == s@.len(),
            i <= n,
            hash_chars(state, s@, 0) == hash_chars(st, s@, i as int),
        decreases n - i,
    {
        let c = s.as_str().get_char(i);
        st = mix_word(st, c as u64);
        i = i + 1;
    }
    mix_word(st, n as u64)
}

/// Executable counterpart of [`hash_elems`], over the array at `x`.
fn hash_array(h: &Heap, state: u64, x: usize, fuel: u64) -> (r: Option<u64>)
    requires
        heap_wf(*h),
        x < h.arrays.len(),
    ensures
        r == hash_elems(*h, state, h.arrays@[x as int]@, 0, fuel as nat),
    decreases fuel, 1int, 0int,
{
    let n = h.arrays[x].len();
    let mut st = state;
    let mut i: usize = 0;
    while i < n
        invariant
            heap_wf(*h),
            x < h.arrays.len(),
            i <= n,
            n == h.arrays@[x as int]@.len(),
            hash_elems(*h, state, h.arrays@[x as int]@, 0, fuel as nat) == hash_elems(
                *h,
                st,
                h.arrays@[x as int]@,
                i as int,
                fuel as nat,
            ),
        decreases n - i,
    {
        assert(crate::equality::vals_wf_at(*h, x as int, i as int)) by {
            assert(crate::value::vals_wf(*h, h.arrays@[x as int]@));
        }
        match hash_into(h, st, &h.arrays[x][i], fuel) {
            None => {
                return None;
            },
            Some(st2) => {
                st = st2;
            },
        }
        i = i + 1;
    }
    Some(st)
}

/// Executable counterpart of [`hash_obj`].
fn hash_object(h: &Heap, state: u64, x: usize, fuel: u64) -> (r: Option<u64>)
    requires
        heap_wf(*h),
        x < h.objects.len(),
    ensures
        r == hash_obj(*h, state, x as int, fuel as nat),
    decreases fuel, 2int, 0int,
{
    let n = h.objects[x].table.len();
    let mut st = state;
    let mut i: usize = 0;
    while i < n
        invariant
            heap_wf(*h),
            x < h.objects.len(),
            i <= n,
            n == h.objects@[x as int].table@.len(),
            hash_entries(*h, state, h.objects@[x as int].table@, 0, fuel as nat) == hash_entries(
                *h,
                st,
                h.objects@[x as int].table@,
                i as int,
                fuel as nat,
            ),
        decreases n - i,
    {
        proof {
            assert(object_wf(*h, x as int));
            assert(crate::value::table_wf(*h, h.objects@[x as int].table@));
        }
        match hash_into(h, st, &h.objects[x].table[i].0, fuel) {
            None => {
                return None;
            },
            Some(st2) => {
                st = st2;
            },
        }
        match hash_into(h, st, &h.objects[x].table[i].1, fuel) {
            None => {
                return None;
            },
            Some(st2) => {
                st = st2;
            },
        }
        i = i + 1;
    }
    let st2 = mix_word(st, n as u64);
    proof {
        assert(object_wf(*h, x as int));
    }
    match h.objects[x].proto {
        Some(p) => {
            if fuel == 0 {
                None
            } else {
                hash_object(h, st2, p, fuel - 1)
            }
        },
        None => Some(st2),
    }
}

} // verus!
