//! Laws of the value algebra and the scope model.
//!
//! The save/restore balance, the operand popping order, generator
//! resumption, iterator order, exception transfer and the `Label` no-op are
//! stated as postconditions of the functions they speak about (`execute`,
//! `op_binary` and its kin, `call_regular`, `op_new_iter`,
//! `transfer_to_handler`, `step`). The two laws that relate several
//! functions at once live here as proof functions.

use vstd::prelude::*;
use crate::value::{Heap, Value, heap_wf, object_wf};
use crate::equality::{eq_val, eq_elems, eq_entries, eq_obj};
use crate::scope::str_chain_get;

verus! {

/// The value contains no function and no iterator anywhere an equality
/// walk with this much fuel can reach. Functions and iterators are never
/// structurally equal, not even to themselves, so they are the one family
/// of values on which self-comparison answers `false`.
pub open spec fn callable_free(h: Heap, v: Value, fuel: nat) -> bool
    decreases fuel, 0int, 0int,
{
    match v {
        Value::Function(_) => false,
        Value::Iter(_) => false,
        Value::Object(x) => fuel == 0 || callable_free_obj(h, x as int, (fuel - 1) as nat),
        Value::Array(x) => fuel == 0 || callable_free_elems(
            h,
            h.arrays@[x as int]@,
            0,
            (fuel - 1) as nat,
        ),
        _ => true,
    }
}

/// As [`callable_free`], over the elements of a sequence from `i` on.
pub open spec fn callable_free_elems(h: Heap, s: Seq<Value>, i: int, fuel: nat) -> bool
    decreases fuel, 1int, s.len() - i,
{
    if i < 0 || i >= s.len() {
        true
    } else {
        callable_free(h, s[i], fuel) && callable_free_elems(h, s, i + 1, fuel)
    }
}

/// As [`callable_free`], over the entries of a table from `i` on.
pub open spec fn callable_free_entries(h: Heap, t: Seq<(Value, Value)>, i: int, fuel: nat) -> bool
    decreases fuel, 1int, t.len() - i,
{
    if i < 0 || i >= t.len() {
        true
    } else {
        callable_free(h, t[i].0, fuel) && callable_free(h, t[i].1, fuel) && callable_free_entries(
            h,
            t,
            i + 1,
            fuel,
        )
    }
}

/// As [`callable_free`], for an object: its table and its prototype chain.
pub open spec fn callable_free_obj(h: Heap, x: int, fuel: nat) -> bool
    decreases fuel, 2int, 0int,
{
    callable_free_entries(h, h.objects@[x].table@, 0, fuel) && match h.objects@[x].proto {
        Some(p) => fuel == 0 || callable_free_obj(h, p as int, (fuel - 1) as nat),
        None => true,
    }
}

/// Structural equality is reflexive: comparing a function-free value with
/// itself never answers `false` — at worst the walk runs out of fuel on a
/// self-referential structure. Two separately built values with the same
/// contents therefore compare equal exactly like one value compared with
/// itself: equality looks only at contents, never at reference identity.
/// (A function or iterator value is the one exception: such values are
/// never equal, not even to themselves.)
pub proof fn lemma_eq_val_reflexive(h: Heap, v: Value, fuel: nat)
    requires
        callable_free(h, v, fuel),
    ensures
        eq_val(h, v, v, fuel) != Some(false),
    decreases fuel, 0int, 0int,
{
    match v {
        Value::Object(x) => {
            if fuel > 0 {
                lemma_eq_obj_reflexive(h, x as int, (fuel - 1) as nat);
            }
        },
        Value::Array(x) => {
            if fuel > 0 {
                lemma_eq_elems_reflexive(h, h.arrays@[x as int]@, 0, (fuel - 1) as nat);
            }
        },
        _ => {},
    }
}

/// Pointwise self-comparison of a function-free element sequence never
/// answers `false`.
pub proof fn lemma_eq_elems_reflexive(h: Heap, s: Seq<Value>, i: int, fuel: nat)
    requires
        callable_free_elems(h, s, i, fuel),
    ensures
        eq_elems(h, s, s, i, fuel) != Some(false),
    decreases fuel, 1int, s.len() - i,
{
    if 0 <= i < s.len() {
        lemma_eq_val_reflexive(h, s[i], fuel);
        match eq_val(h, s[i], s[i], fuel) {
            Some(true) => {
                lemma_eq_elems_reflexive(h, s, i + 1, fuel);
            },
            _ => {},
        }
    }
}

/// Pointwise self-comparison of a function-free table never answers
/// `false`.
pub proof fn lemma_eq_entries_reflexive(h: Heap, t: Seq<(Value, Value)>, i: int, fuel: nat)
    requires
        callable_free_entries(h, t, i, fuel),
    ensures
        eq_entries(h, t, t, i, fuel) != Some(false),
    decreases fuel, 1int, t.len() - i,
{
    if 0 <= i < t.len() {
        lemma_eq_val_reflexive(h, t[i].0, fuel);
        lemma_eq_val_reflexive(h, t[i].1, fuel);
        match (eq_val(h, t[i].0, t[i].0, fuel), eq_val(h, t[i].1, t[i].1, fuel)) {
            (Some(true), Some(true)) => {
                lemma_eq_entries_reflexive(h, t, i + 1, fuel);
            },
            _ => {},
        }
    }
}

/// Self-comparison of a function-free object never answers `false`.
pub proof fn lemma_eq_obj_reflexive(h: Heap, x: int, fuel: nat)
    requires
        callable_free_obj(h, x, fuel),
    ensures
        eq_obj(h, x, x, fuel) != Some(false),
    decreases fuel, 2int, 0int,
{
    lemma_eq_entries_reflexive(h, h.objects@[x].table@, 0, fuel);
    match eq_entries(h, h.objects@[x].table@, h.objects@[x].table@, 0, fuel) {
        Some(true) => {
            match h.objects@[x].proto {
                Some(p) => {
                    if fuel > 0 {
                        lemma_eq_obj_reflexive(h, p as int, (fuel - 1) as nat);
                    }
                },
                None => {},
            }
        },
        _ => {},
    }
}

/// Scope shadowing: mutations confined to a scope object that sits above
/// the outer scope in the arena (as the fresh scope a `PushEnv` creates
/// always does) change no lookup that starts from the outer scope. After
/// `PushEnv; DeclVar x; PopEnv`, the current environment is the outer
/// scope again, and every name — `x` included — resolves there exactly as
/// it did before.
pub proof fn lemma_scope_shadowing(h1: Heap, h2: Heap, e: int, c: int, name: Seq<char>)
    requires
        heap_wf(h1),
        0 <= e < h1.objects@.len(),
        e < c,
        forall|j: int| 0 <= j < h1.objects@.len() && j != c ==> h2.objects@[j] == h1.objects@[j],
    ensures
        str_chain_get(h2, e, name) == str_chain_get(h1, e, name),
    decreases e,
{
    assert(h2.objects@[e] == h1.objects@[e]);
    match crate::scope::str_key_find(h1.objects@[e].table@, name, 0) {
        Some(_) => {},
        None => {
            match h1.objects@[e].proto {
                Some(p) => {
                    assert(object_wf(h1, e));
                    if 0 <= p < e {
                        lemma_scope_shadowing(h1, h2, p as int, c, name);
                    }
                },
                None => {},
            }
        },
    }
}

} // verus!
