//! Object tables, the lexical environment chain, property access, and the
//! construction of runtime error values.
//!
//! A table is an insertion-ordered list of key/value entries; lookup finds
//! the first entry whose key is structurally equal to the one sought, so a
//! table written only through [`obj_set`] and [`declare_var`] is unique by
//! key. Environments are objects; declaration works on the innermost scope,
//! lookup and assignment walk the prototype chain.

use vstd::prelude::*;
use vstd::string::StringExecFns;
use crate::value::{
    Heap, Object, Value, Function, value_wf, object_wf, heap_wf, table_wf, vals_wf, heap_le,
    same_except_objects, objects_extended, objects_same_except, lemma_wf_grow,
    lemma_table_wf_mono, lemma_vals_wf_mono, lemma_fun_wf_mono, lemma_iter_wf_mono,
};
use crate::equality::{eq_val, eq_value, eq_obj};

verus! {

/// How an operation on a scope or table failed.
#[derive(Copy, Clone, Debug, PartialEq, Eq, Structural)]
pub enum ScopeErr {
    /// The variable is not declared anywhere in the visible chain.
    Undeclared,
    /// The variable is already declared in the innermost scope.
    Duplicate,
    /// A structural key comparison ran out of fuel.
    Fault,
}

/// How a property access failed.
#[derive(Copy, Clone, Debug, PartialEq, Eq, Structural)]
pub enum PropErr {
    /// An array was indexed below zero or at/past its length.
    OutOfRange,
    /// A structural key comparison ran out of fuel.
    Fault,
}

/// `v` is the string `s`.
pub open spec fn is_str_val(v: Value, s: Seq<char>) -> bool {
    match v {
        Value::Str(x) => x@ == s,
        _ => false,
    }
}

/// Whether `v` is the string literal `lit`.
pub fn is_key_str(v: &Value, lit: &str) -> (r: bool)
    ensures
        r == is_str_val(*v, lit@),
{
    match v {
        Value::Str(x) => {
            let l = String::from_str(lit);
            x.eq(&l)
        },
        _ => false,
    }
}

/// The first index at or after `i` whose key equals `key`; the outer `None`
/// reports a comparison that ran out of fuel.
pub open spec fn tbl_find(h: Heap, t: Seq<(Value, Value)>, key: Value, i: int, fuel: nat) -> Option<
    Option<int>,
>
    decreases t.len() - i,
{
    if i < 0 || i >= t.len() {
        Some(None)
    } else {
        match eq_val(h, t[i].0, key, fuel) {
            None => None,
            Some(true) => Some(Some(i)),
            Some(false) => tbl_find(h, t, key, i + 1, fuel),
        }
    }
}

/// The table with `key` bound to `val`: an existing binding keeps its
/// position, a new one is appended; `None` reports exhausted fuel.
pub open spec fn tbl_set(h: Heap, t: Seq<(Value, Value)>, key: Value, val: Value, fuel: nat) -> Option<
    Seq<(Value, Value)>,
> {
    match tbl_find(h, t, key, 0, fuel) {
        None => None,
        Some(Some(i)) => Some(t.update(i, (t[i].0, val))),
        Some(None) => Some(t.push((key, val))),
    }
}

/// Executable search of the table of the object at `x` for `key`.
pub fn table_find(h: &Heap, x: usize, key: &Value, fuel: u64) -> (r: Result<Option<usize>, ScopeErr>)
    requires
        heap_wf(*h),
        x < h.objects.len(),
        value_wf(*h, *key),
    ensures
        match r {
            Result::Ok(Some(i)) => tbl_find(*h, h.objects@[x as int].table@, *key, 0, fuel as nat)
                == Some(Some(i as int)) && i < h.objects@[x as int].table@.len(),
            Result::Ok(None) => tbl_find(*h, h.objects@[x as int].table@, *key, 0, fuel as nat)
                == Some(None::<int>),
            Result::Err(e) => e == ScopeErr::Fault && tbl_find(
                *h,
                h.objects@[x as int].table@,
                *key,
                0,
                fuel as nat,
            ) == None::<Option<int>>,
        },
{
    let ghost t = h.objects@[x as int].table@;
    let n = h.objects[x].table.len();
    let mut i: usize = 0;
    while i < n
        invariant
            heap_wf(*h),
            x < h.objects.len(),
            value_wf(*h, *key),
            t == h.objects@[x as int].table@,
            i <= n,
            n == t.len(),
            tbl_find(*h, t, *key, 0, fuel as nat) == tbl_find(*h, t, *key, i as int, fuel as nat),
        decreases n - i,
    {
        proof {
            assert(object_wf(*h, x as int));
            assert(table_wf(*h, h.objects@[x as int].table@));
        }
        let c = eq_value(h, &h.objects[x].table[i].0, key, fuel);
        match c {
            None => {
                return Result::Err(ScopeErr::Fault);
            },
            Some(true) => {
                return Result::Ok(Some(i));
            },
            Some(false) => {
                i = i + 1;
            },
        }
    }
    Result::Ok(None)
}

/// Re-establishes the heap invariant after replacing the table of the
/// object at `x` with one that is well formed; nothing else changed.
proof fn lemma_wf_table_update(h1: Heap, h2: Heap, x: int)
    requires
        heap_wf(h1),
        0 <= x < h1.objects@.len(),
        h2.objects@.len() == h1.objects@.len(),
        objects_same_except(h1, h2, x),
        same_except_objects(h1, h2),
        h2.objects@[x].proto == h1.objects@[x].proto,
        table_wf(h1, h2.objects@[x].table@),
    ensures
        heap_wf(h2),
{
    assert forall|i: int| 0 <= i < h2.objects.len() implies #[trigger] object_wf(h2, i) by {
        assert(object_wf(h1, i));
        if i != x {
            assert(h2.objects@[i] == h1.objects@[i]);
        }
        lemma_table_wf_mono(h1, h2, h2.objects@[i].table@);
    }
    assert forall|i: int| 0 <= i < h2.arrays.len() implies vals_wf(h2, #[trigger] h2.arrays@[i]@) by {
        assert(vals_wf(h1, h1.arrays@[i]@));
        lemma_vals_wf_mono(h1, h2, h2.arrays@[i]@);
    }
    assert forall|i: int| 0 <= i < h2.functions.len() implies crate::value::fun_wf(
        h2,
        #[trigger] h2.functions@[i],
    ) by {
        assert(crate::value::fun_wf(h1, h1.functions@[i]));
        lemma_fun_wf_mono(h1, h2, h2.functions@[i]);
    }
    assert forall|i: int| 0 <= i < h2.iters.len() implies crate::value::iter_wf(
        h2,
        #[trigger] h2.iters@[i],
    ) by {
        assert(crate::value::iter_wf(h1, h1.iters@[i]));
        lemma_iter_wf_mono(h1, h2, h2.iters@[i]);
    }
}

/// Binds `key` to `val` in the own table of the object at `x`: overwrites an
/// existing binding in place, else appends, preserving insertion order.
pub fn obj_set(h: &mut Heap, x: usize, key: Value, val: Value, fuel: u64) -> (r: Result<
    (),
    ScopeErr,
>)
    requires
        old(h).wf(),
        x < old(h).objects.len(),
        value_wf(*old(h), key),
        value_wf(*old(h), val),
    ensures
        final(h).wf(),
        match r {
            Result::Ok(()) => {
                &&& tbl_set(*old(h), old(h).objects@[x as int].table@, key, val, fuel as nat)
                    == Some(final(h).objects@[x as int].table@)
                &&& objects_same_except(*old(h), *final(h), x as int)
                &&& final(h).objects@[x as int].proto == old(h).objects@[x as int].proto
                &&& same_except_objects(*old(h), *final(h))
            },
            Result::Err(e) => e == ScopeErr::Fault && *final(h) == *old(h) && tbl_set(
                *old(h),
                old(h).objects@[x as int].table@,
                key,
                val,
                fuel as nat,
            ) == None::<Seq<(Value, Value)>>,
        },
{
    let found = table_find(h, x, &key, fuel);
    match found {
        Result::Err(_) => Result::Err(ScopeErr::Fault),
        Result::Ok(Some(i)) => {
            let k = h.objects[x].table[i].0.clone();
            h.objects[x].table[i] = (k, val);
            proof {
                assert(h.objects@[x as int].table@ =~= tbl_set(
                    *old(h),
                    old(h).objects@[x as int].table@,
                    key,
                    val,
                    fuel as nat,
                ).unwrap());
                assert(table_wf(*old(h), h.objects@[x as int].table@)) by {
                    assert(object_wf(*old(h), x as int));
                }
                lemma_wf_table_update(*old(h), *h, x as int);
            }
            Result::Ok(())
        },
        Result::Ok(None) => {
            h.objects[x].table.push((key, val));
            proof {
                assert(table_wf(*old(h), h.objects@[x as int].table@)) by {
                    assert(object_wf(*old(h), x as int));
                }
                lemma_wf_table_update(*old(h), *h, x as int);
            }
            Result::Ok(())
        },
    }
}

/// Walks the prototype chain from the object at `x` looking `key` up: the
/// first own binding wins; `Some(None)` means no link of the chain binds it.
pub open spec fn chain_get(h: Heap, x: int, key: Value, fuel: nat) -> Option<Option<Value>>
    decreases x,
{
    match tbl_find(h, h.objects@[x].table@, key, 0, fuel) {
        None => None,
        Some(Some(i)) => Some(Some(h.objects@[x].table@[i].1)),
        Some(None) => match h.objects@[x].proto {
            Some(p) => if 0 <= p < x {
                chain_get(h, p as int, key, fuel)
            } else {
                Some(None)
            },
            None => Some(None),
        },
    }
}

/// Which object of the chain from `x` owns a binding of `key`, and at which
/// entry; `Some(None)` means the chain does not bind it.
pub open spec fn chain_owner(h: Heap, x: int, key: Value, fuel: nat) -> Option<Option<(int, int)>>
    decreases x,
{
    match tbl_find(h, h.objects@[x].table@, key, 0, fuel) {
        None => None,
        Some(Some(i)) => Some(Some((x, i))),
        Some(None) => match h.objects@[x].proto {
            Some(p) => if 0 <= p < x {
                chain_owner(h, p as int, key, fuel)
            } else {
                Some(None)
            },
            None => Some(None),
        },
    }
}

/// Looks a variable up through the scope chain.
pub fn get_variable(h: &Heap, scope: usize, key: &Value, fuel: u64) -> (r: Result<
    Option<Value>,
    ScopeErr,
>)
    requires
        heap_wf(*h),
        scope < h.objects.len(),
        value_wf(*h, *key),
    ensures
        match r {
            Result::Ok(Some(v)) => chain_get(*h, scope as int, *key, fuel as nat) == Some(Some(v))
                && value_wf(*h, v),
            Result::Ok(None) => chain_get(*h, scope as int, *key, fuel as nat) == Some(
                None::<Value>,
            ),
            Result::Err(e) => e == ScopeErr::Fault && chain_get(*h, scope as int, *key, fuel as nat)
                == None::<Option<Value>>,
        },
    decreases scope,
{
    let found = table_find(h, scope, key, fuel);
    match found {
        Result::Err(_) => Result::Err(ScopeErr::Fault),
        Result::Ok(Some(i)) => {
            proof {
                assert(object_wf(*h, scope as int));
                assert(table_wf(*h, h.objects@[scope as int].table@));
            }
            Result::Ok(Some(h.objects[scope].table[i].1.clone()))
        },
        Result::Ok(None) => {
            proof {
                assert(object_wf(*h, scope as int));
            }
            match h.objects[scope].proto {
                Some(p) => get_variable(h, p, key, fuel),
                None => Result::Ok(None),
            }
        },
    }
}

/// Whether the innermost scope itself declares `key`.
pub fn var_declared(h: &Heap, scope: usize, key: &Value, fuel: u64) -> (r: Result<bool, ScopeErr>)
    requires
        heap_wf(*h),
        scope < h.objects.len(),
        value_wf(*h, *key),
    ensures
        match r {
            Result::Ok(b) => (tbl_find(*h, h.objects@[scope as int].table@, *key, 0, fuel as nat)
                matches Some(f) && b == (f is Some)),
            Result::Err(e) => e == ScopeErr::Fault && tbl_find(
                *h,
                h.objects@[scope as int].table@,
                *key,
                0,
                fuel as nat,
            ) == None::<Option<int>>,
        },
{
    match table_find(h, scope, key, fuel) {
        Result::Err(_) => Result::Err(ScopeErr::Fault),
        Result::Ok(Some(_)) => Result::Ok(true),
        Result::Ok(None) => Result::Ok(false),
    }
}

/// Declares `key` in the innermost scope; fails if that scope already
/// declares it.
pub fn declare_var(h: &mut Heap, scope: usize, key: Value, val: Value, fuel: u64) -> (r: Result<
    (),
    ScopeErr,
>)
    requires
        old(h).wf(),
        scope < old(h).objects.len(),
        value_wf(*old(h), key),
        value_wf(*old(h), val),
    ensures
        final(h).wf(),
        match r {
            Result::Ok(()) => {
                &&& tbl_find(*old(h), old(h).objects@[scope as int].table@, key, 0, fuel as nat)
                    == Some(None::<int>)
                &&& final(h).objects@[scope as int].table@ == old(h).objects@[scope as int].table@.push(
                    (key, val),
                )
                &&& objects_same_except(*old(h), *final(h), scope as int)
                &&& final(h).objects@[scope as int].proto == old(h).objects@[scope as int].proto
                &&& same_except_objects(*old(h), *final(h))
            },
            Result::Err(ScopeErr::Duplicate) => *final(h) == *old(h) && (tbl_find(
                *old(h),
                old(h).objects@[scope as int].table@,
                key,
                0,
                fuel as nat,
            ) matches Some(Some(_))),
            Result::Err(ScopeErr::Fault) => *final(h) == *old(h) && tbl_find(
                *old(h),
                old(h).objects@[scope as int].table@,
                key,
                0,
                fuel as nat,
            ) == None::<Option<int>>,
            Result::Err(ScopeErr::Undeclared) => false,
        },
{
    let found = table_find(h, scope, &key, fuel);
    match found {
        Result::Err(_) => Result::Err(ScopeErr::Fault),
        Result::Ok(Some(_)) => Result::Err(ScopeErr::Duplicate),
        Result::Ok(None) => {
            h.objects[scope].table.push((key, val));
            proof {
                assert(table_wf(*old(h), h.objects@[scope as int].table@)) by {
                    assert(object_wf(*old(h), scope as int));
                }
                lemma_wf_table_update(*old(h), *h, scope as int);
            }
            Result::Ok(())
        },
    }
}

/// Assigns `val` to the nearest binding of `key` in the scope chain; fails
/// if no link of the chain binds it.
pub fn set_variable_in_scope(h: &mut Heap, scope: usize, key: &Value, val: Value, fuel: u64) -> (r:
    Result<(), ScopeErr>)
    requires
        old(h).wf(),
        scope < old(h).objects.len(),
        value_wf(*old(h), *key),
        value_wf(*old(h), val),
    ensures
        final(h).wf(),
        match r {
            Result::Ok(()) => (chain_owner(*old(h), scope as int, *key, fuel as nat) matches Some(
                Some((o, i)),
            ) && {
                &&& 0 <= o < old(h).objects@.len()
                &&& 0 <= i < old(h).objects@[o].table@.len()
                &&& final(h).objects@[o].table@ == old(h).objects@[o].table@.update(
                    i,
                    (old(h).objects@[o].table@[i].0, val),
                )
                &&& objects_same_except(*old(h), *final(h), o)
                &&& final(h).objects@[o].proto == old(h).objects@[o].proto
                &&& same_except_objects(*old(h), *final(h))
            }),
            Result::Err(ScopeErr::Undeclared) => *final(h) == *old(h) && chain_owner(
                *old(h),
                scope as int,
                *key,
                fuel as nat,
            ) == Some(None::<(int, int)>),
            Result::Err(ScopeErr::Fault) => *final(h) == *old(h) && chain_owner(
                *old(h),
                scope as int,
                *key,
                fuel as nat,
            ) == None::<Option<(int, int)>>,
            Result::Err(ScopeErr::Duplicate) => false,
        },
    decreases scope,
{
    let found = table_find(h, scope, key, fuel);
    match found {
        Result::Err(_) => Result::Err(ScopeErr::Fault),
        Result::Ok(Some(i)) => {
            let k = h.objects[scope].table[i].0.clone();
            h.objects[scope].table[i] = (k, val);
            proof {
                assert(table_wf(*old(h), h.objects@[scope as int].table@)) by {
                    assert(object_wf(*old(h), scope as int));
                }
                lemma_wf_table_update(*old(h), *h, scope as int);
            }
            Result::Ok(())
        },
        Result::Ok(None) => {
            proof {
                assert(object_wf(*old(h), scope as int));
            }
            match h.objects[scope].proto {
                Some(p) => set_variable_in_scope(h, p, key, val, fuel),
                None => Result::Err(ScopeErr::Undeclared),
            }
        },
    }
}

/// The shape of a runtime error value: an object with `line`, `file` and
/// `error` slots, in that order, whose prototype carries
/// `__name__ == "JLRuntimeError"`.
pub open spec fn error_obj_shape(
    h: Heap,
    e: Value,
    line: int,
    file: Option<Seq<char>>,
    msg: Seq<char>,
) -> bool {
    match e {
        Value::Object(i) => i < h.objects.len() && {
            let t = h.objects@[i as int].table@;
            &&& t.len() == 3
            &&& is_str_val(t[0].0, "line"@) && t[0].1 == Value::Number(line as i64)
            &&& is_str_val(t[1].0, "file"@) && match file {
                Some(f) => is_str_val(t[1].1, f),
                None => t[1].1 == Value::Nil,
            }
            &&& is_str_val(t[2].0, "error"@) && is_str_val(t[2].1, msg)
            &&& match h.objects@[i as int].proto {
                Some(p) => p < i && {
                    let pt = h.objects@[p as int].table@;
                    &&& pt.len() == 1
                    &&& is_str_val(pt[0].0, "__name__"@)
                    &&& is_str_val(pt[0].1, "JLRuntimeError"@)
                },
                None => false,
            }
        },
        _ => false,
    }
}

/// Allocates a fresh runtime error value carrying the given position and
/// message.
pub fn new_error(h: &mut Heap, line: i64, file: Option<&str>, err: &str) -> (e: Value)
    requires
        old(h).wf(),
    ensures
        final(h).wf(),
        heap_le(*old(h), *final(h)),
        objects_extended(*old(h), *final(h)),
        same_except_objects(*old(h), *final(h)),
        final(h).objects@.len() == old(h).objects@.len() + 2,
        error_obj_shape(
            *final(h),
            e,
            line as int,
            match file {
                Some(f) => Some(f@),
                None => None,
            },
            err@,
        ),
        e == Value::Object((old(h).objects@.len() + 1) as usize),
        value_wf(*final(h), e),
{
    let mut pt: Vec<(Value, Value)> = Vec::new();
    pt.push((Value::Str(String::from_str("__name__")), Value::Str(String::from_str("JLRuntimeError"))));
    let p = h.objects.len();
    h.objects.push(Object { proto: None, table: pt });
    let mut t: Vec<(Value, Value)> = Vec::new();
    t.push((Value::Str(String::from_str("line")), Value::Number(line)));
    let fv = match file {
        Some(f) => Value::Str(String::from_str(f)),
        None => Value::Nil,
    };
    t.push((Value::Str(String::from_str("file")), fv));
    t.push((Value::Str(String::from_str("error")), Value::Str(String::from_str(err))));
    let i = h.objects.len();
    h.objects.push(Object { proto: Some(p), table: t });
    proof {
        lemma_wf_grow(*old(h), *h);
    }
    Value::Object(i)
}

/// Whether the object at `obj` is a direct instance of the object at `of`:
/// its immediate prototype compares structurally equal to `of`.
pub fn instanceof(h: &Heap, obj: usize, of: usize, fuel: u64) -> (r: Result<bool, ScopeErr>)
    requires
        heap_wf(*h),
        obj < h.objects.len(),
        of < h.objects.len(),
        fuel < u64::MAX,
    ensures
        match r {
            Result::Ok(b) => match h.objects@[obj as int].proto {
                None => b == false,
                Some(p) => eq_obj(*h, p as int, of as int, fuel as nat) == Some(b),
            },
            Result::Err(e) => e == ScopeErr::Fault && (h.objects@[obj as int].proto matches Some(p)
                && eq_obj(*h, p as int, of as int, fuel as nat) == None::<bool>),
        },
{
    proof {
        assert(object_wf(*h, obj as int));
    }
    match h.objects[obj].proto {
        None => Result::Ok(false),
        Some(p) => {
            let e = eq_value(h, &Value::Object(p), &Value::Object(of), fuel + 1);
            match e {
                Some(b) => Result::Ok(b),
                None => Result::Err(ScopeErr::Fault),
            }
        },
    }
}


/// Result of a property read.
pub enum GetRes {
    /// The value read (a miss on an object reads `Undefined`).
    Hit(Value),
    /// An array was indexed below zero or at/past its length.
    OutOfRange,
    /// A structural key comparison ran out of fuel.
    Fault,
}

/// The integer coercion used for array indexing: numbers index as
/// themselves, `Nil` and `Undefined` as zero, anything else is driven out of
/// range.
pub open spec fn index_of_key(key: Value) -> int {
    match key {
        Value::Number(x) => x as int,
        Value::Nil => 0,
        Value::Undefined => 0,
        _ => i64::MAX as int,
    }
}

/// The array length as a number value (clamped to the number range).
pub open spec fn len_number(n: int) -> Value {
    if n <= i64::MAX {
        Value::Number(n as i64)
    } else {
        Value::Number(i64::MAX)
    }
}

/// A property read on the object at `x`: the key `__proto__` reads the
/// prototype, any other key walks the prototype chain, and a miss reads
/// `Undefined`.
pub open spec fn obj_prop_get(h: Heap, x: int, key: Value, fuel: nat) -> GetRes {
    if is_str_val(key, "__proto__"@) {
        GetRes::Hit(
            match h.objects@[x].proto {
                Some(p) => Value::Object(p),
                None => Value::Undefined,
            },
        )
    } else {
        match chain_get(h, x, key, fuel) {
            None => GetRes::Fault,
            Some(Some(v)) => GetRes::Hit(v),
            Some(None) => GetRes::Hit(Value::Undefined),
        }
    }
}

/// A property read on any value (`Load`): objects read through their
/// prototype chain, functions through their captured environment, arrays by
/// index (`"length"` reads the length), anything else reads `Undefined`.
pub open spec fn prop_get(h: Heap, target: Value, key: Value, fuel: nat) -> GetRes {
    match target {
        Value::Object(x) => obj_prop_get(h, x as int, key, fuel),
        Value::Function(f) => match h.functions@[f as int] {
            Function::Native(_) => GetRes::Hit(Value::Undefined),
            Function::Regular(d) => obj_prop_get(h, d.environment as int, key, fuel),
        },
        Value::Array(a) => if is_str_val(key, "length"@) {
            GetRes::Hit(len_number(h.arrays@[a as int]@.len() as int))
        } else {
            let ix = index_of_key(key);
            if 0 <= ix < h.arrays@[a as int]@.len() {
                GetRes::Hit(h.arrays@[a as int]@[ix])
            } else {
                GetRes::OutOfRange
            }
        },
        _ => GetRes::Hit(Value::Undefined),
    }
}

/// Executable property read on the object at `x`.
fn obj_get(h: &Heap, x: usize, key: &Value, fuel: u64) -> (r: Result<Value, PropErr>)
    requires
        heap_wf(*h),
        x < h.objects.len(),
        value_wf(*h, *key),
    ensures
        match r {
            Result::Ok(v) => obj_prop_get(*h, x as int, *key, fuel as nat) == GetRes::Hit(v)
                && value_wf(*h, v),
            Result::Err(e) => e == PropErr::Fault && obj_prop_get(*h, x as int, *key, fuel as nat)
                == GetRes::Fault,
        },
{
    if is_key_str(key, "__proto__") {
        proof {
            assert(object_wf(*h, x as int));
        }
        match h.objects[x].proto {
            Some(p) => Result::Ok(Value::Object(p)),
            None => Result::Ok(Value::Undefined),
        }
    } else {
        proof {
            lemma_chain_get_wf(*h, x as int, *key, fuel as nat);
        }
        match get_variable(h, x, key, fuel) {
            Result::Err(_) => Result::Err(PropErr::Fault),
            Result::Ok(Some(v)) => Result::Ok(v),
            Result::Ok(None) => Result::Ok(Value::Undefined),
        }
    }
}

/// A hit through the chain is a value stored in some table, hence well
/// formed.
proof fn lemma_chain_get_wf(h: Heap, x: int, key: Value, fuel: nat)
    requires
        heap_wf(h),
        0 <= x < h.objects.len(),
    ensures
        forall|v: Value| chain_get(h, x, key, fuel) == Some(Some(v)) ==> value_wf(h, v),
    decreases x,
{
    assert(object_wf(h, x));
    match tbl_find(h, h.objects@[x].table@, key, 0, fuel) {
        None => {},
        Some(Some(i)) => {
            lemma_tbl_find_in_range(h, h.objects@[x].table@, key, 0, fuel);
            assert(table_wf(h, h.objects@[x].table@));
        },
        Some(None) => {
            match h.objects@[x].proto {
                Some(p) => {
                    if 0 <= p < x {
                        lemma_chain_get_wf(h, p as int, key, fuel);
                    }
                },
                None => {},
            }
        },
    }
}

/// A found index is within the table.
proof fn lemma_tbl_find_in_range(h: Heap, t: Seq<(Value, Value)>, key: Value, i: int, fuel: nat)
    ensures
        forall|j: int| tbl_find(h, t, key, i, fuel) == Some(Some(j)) ==> 0 <= j < t.len(),
    decreases t.len() - i,
{
    if 0 <= i < t.len() {
        lemma_tbl_find_in_range(h, t, key, i + 1, fuel);
    }
}

/// Executable property read on any value.
pub fn value_get(h: &Heap, target: &Value, key: &Value, fuel: u64) -> (r: Result<Value, PropErr>)
    requires
        heap_wf(*h),
        value_wf(*h, *target),
        value_wf(*h, *key),
    ensures
        match r {
            Result::Ok(v) => prop_get(*h, *target, *key, fuel as nat) == GetRes::Hit(v) && value_wf(
                *h,
                v,
            ),
            Result::Err(PropErr::Fault) => prop_get(*h, *target, *key, fuel as nat)
                == GetRes::Fault,
            Result::Err(PropErr::OutOfRange) => prop_get(*h, *target, *key, fuel as nat)
                == GetRes::OutOfRange,
        },
{
    match target {
        Value::Object(x) => obj_get(h, *x, key, fuel),
        Value::Function(f) => {
            proof {
                assert(crate::value::fun_wf(*h, h.functions@[*f as int]));
            }
            match &h.functions[*f] {
                Function::Native(_) => Result::Ok(Value::Undefined),
                Function::Regular(d) => obj_get(h, d.environment, key, fuel),
            }
        },
        Value::Array(a) => {
            if is_key_str(key, "length") {
                let n = h.arrays[*a].len();
                if n as u64 <= i64::MAX as u64 {
                    Result::Ok(Value::Number(n as i64))
                } else {
                    Result::Ok(Value::Number(i64::MAX))
                }
            } else {
                let ix: i64 = match key {
                    Value::Number(x) => *x,
                    Value::Nil => 0,
                    Value::Undefined => 0,
                    _ => i64::MAX,
                };
                if ix >= 0 && (ix as u64) < (h.arrays[*a].len() as u64) {
                    proof {
                        assert(vals_wf(*h, h.arrays@[*a as int]@));
                    }
                    Result::Ok(h.arrays[*a][ix as usize].clone())
                } else {
                    Result::Err(PropErr::OutOfRange)
                }
            }
        },
        _ => Result::Ok(Value::Undefined),
    }
}

/// What a property write will do.
pub enum SetPlan {
    /// Replace the table of the object at `x` with `t2`.
    Obj { x: int, t2: Seq<(Value, Value)> },
    /// Write the element `ix` of the array at `a`.
    Arr { a: int, ix: int },
    /// An array was indexed below zero or at/past its length.
    OutOfRange,
    /// A structural key comparison ran out of fuel.
    Fault,
    /// The target carries no properties; the write is silently dropped.
    Noop,
}

/// A property write (`Store`): objects bind in their own table, functions in
/// their captured environment's own table, arrays by index; other targets
/// drop the write.
pub open spec fn prop_set_plan(h: Heap, target: Value, key: Value, val: Value, fuel: nat) -> SetPlan {
    match target {
        Value::Object(x) => match tbl_set(h, h.objects@[x as int].table@, key, val, fuel) {
            None => SetPlan::Fault,
            Some(t2) => SetPlan::Obj { x: x as int, t2 },
        },
        Value::Function(f) => match h.functions@[f as int] {
            Function::Native(_) => SetPlan::Noop,
            Function::Regular(d) => match tbl_set(
                h,
                h.objects@[d.environment as int].table@,
                key,
                val,
                fuel,
            ) {
                None => SetPlan::Fault,
                Some(t2) => SetPlan::Obj { x: d.environment as int, t2 },
            },
        },
        Value::Array(a) => {
            let ix = index_of_key(key);
            if 0 <= ix < h.arrays@[a as int]@.len() {
                SetPlan::Arr { a: a as int, ix }
            } else {
                SetPlan::OutOfRange
            }
        },
        _ => SetPlan::Noop,
    }
}

/// Re-establishes the heap invariant after replacing one array element with
/// a well-formed value; nothing else changed.
proof fn lemma_wf_array_update(h1: Heap, h2: Heap, a: int)
    requires
        heap_wf(h1),
        0 <= a < h1.arrays@.len(),
        h2.objects@ == h1.objects@,
        h2.functions@ == h1.functions@,
        h2.iters@ == h1.iters@,
        h2.arrays@.len() == h1.arrays@.len(),
        forall|j: int| 0 <= j < h1.arrays@.len() && j != a ==> h2.arrays@[j] == h1.arrays@[j],
        vals_wf(h1, h2.arrays@[a]@),
    ensures
        heap_wf(h2),
{
    assert forall|i: int| 0 <= i < h2.objects.len() implies #[trigger] object_wf(h2, i) by {
        assert(object_wf(h1, i));
        lemma_table_wf_mono(h1, h2, h2.objects@[i].table@);
    }
    assert forall|i: int| 0 <= i < h2.arrays.len() implies vals_wf(h2, #[trigger] h2.arrays@[i]@) by {
        if i != a {
            assert(vals_wf(h1, h1.arrays@[i]@));
        }
        lemma_vals_wf_mono(h1, h2, h2.arrays@[i]@);
    }
    assert forall|i: int| 0 <= i < h2.functions.len() implies crate::value::fun_wf(
        h2,
        #[trigger] h2.functions@[i],
    ) by {
        assert(crate::value::fun_wf(h1, h1.functions@[i]));
        lemma_fun_wf_mono(h1, h2, h2.functions@[i]);
    }
    assert forall|i: int| 0 <= i < h2.iters.len() implies crate::value::iter_wf(
        h2,
        #[trigger] h2.iters@[i],
    ) by {
        assert(crate::value::iter_wf(h1, h1.iters@[i]));
        lemma_iter_wf_mono(h1, h2, h2.iters@[i]);
    }
}

/// Executable property write on any value.
pub fn value_set(h: &mut Heap, target: &Value, key: Value, val: Value, fuel: u64) -> (r: Result<
    (),
    PropErr,
>)
    requires
        old(h).wf(),
        value_wf(*old(h), *target),
        value_wf(*old(h), key),
        value_wf(*old(h), val),
    ensures
        final(h).wf(),
        match prop_set_plan(*old(h), *target, key, val, fuel as nat) {
            SetPlan::Obj { x, t2 } => {
                &&& r == Result::<(), PropErr>::Ok(())
                &&& final(h).objects@[x].table@ == t2
                &&& final(h).objects@[x].proto == old(h).objects@[x].proto
                &&& objects_same_except(*old(h), *final(h), x)
                &&& same_except_objects(*old(h), *final(h))
            },
            SetPlan::Arr { a, ix } => {
                &&& r == Result::<(), PropErr>::Ok(())
                &&& final(h).arrays@[a]@ == old(h).arrays@[a]@.update(ix, val)
                &&& final(h).arrays@.len() == old(h).arrays@.len()
                &&& forall|j: int|
                    0 <= j < old(h).arrays@.len() && j != a ==> final(h).arrays@[j]
                        == old(h).arrays@[j]
                &&& final(h).objects@ == old(h).objects@
                &&& final(h).functions@ == old(h).functions@
                &&& final(h).iters@ == old(h).iters@
            },
            SetPlan::OutOfRange => r == Result::<(), PropErr>::Err(PropErr::OutOfRange) && *final(h)
                == *old(h),
            SetPlan::Fault => r == Result::<(), PropErr>::Err(PropErr::Fault) && *final(h) == *old(
                h,
            ),
            SetPlan::Noop => r == Result::<(), PropErr>::Ok(()) && *final(h) == *old(h),
        },
{
    match target {
        Value::Object(x) => {
            match obj_set(h, *x, key, val, fuel) {
                Result::Ok(()) => Result::Ok(()),
                Result::Err(_) => Result::Err(PropErr::Fault),
            }
        },
        Value::Function(f) => {
            proof {
                assert(crate::value::fun_wf(*old(h), old(h).functions@[*f as int]));
            }
            let env = match &h.functions[*f] {
                Function::Native(_) => {
                    return Result::Ok(());
                },
                Function::Regular(d) => d.environment,
            };
            match obj_set(h, env, key, val, fuel) {
                Result::Ok(()) => Result::Ok(()),
                Result::Err(_) => Result::Err(PropErr::Fault),
            }
        },
        Value::Array(a) => {
            let ix: i64 = match &key {
                Value::Number(x) => *x,
                Value::Nil => 0,
                Value::Undefined => 0,
                _ => i64::MAX,
            };
            if ix >= 0 && (ix as u64) < (h.arrays[*a].len() as u64) {
                h.arrays[*a][ix as usize] = val;
                proof {
                    assert(vals_wf(*old(h), h.arrays@[*a as int]@)) by {
                        assert(vals_wf(*old(h), old(h).arrays@[*a as int]@));
                        assert(h.arrays@[*a as int]@ =~= old(h).arrays@[*a as int]@.update(
                            ix as int,
                            val,
                        ));
                    }
                    lemma_wf_array_update(*old(h), *h, *a as int);
                }
                Result::Ok(())
            } else {
                Result::Err(PropErr::OutOfRange)
            }
        },
        _ => Result::Ok(()),
    }
}


/// The first entry at or after `i` whose key is the string `name`. String
/// keys compare without fuel: a comparison of a string against any value
/// never recurses.
pub open spec fn str_key_find(t: Seq<(Value, Value)>, name: Seq<char>, i: int) -> Option<int>
    decreases t.len() - i,
{
    if i < 0 || i >= t.len() {
        None
    } else if is_str_val(t[i].0, name) {
        Some(i)
    } else {
        str_key_find(t, name, i + 1)
    }
}

/// Looking a string key up never runs out of fuel and finds exactly the
/// first entry whose key is that string.
pub proof fn lemma_tbl_find_str(
    h: Heap,
    t: Seq<(Value, Value)>,
    name: Seq<char>,
    key: Value,
    i: int,
    fuel: nat,
)
    requires
        is_str_val(key, name),
    ensures
        tbl_find(h, t, key, i, fuel) == match str_key_find(t, name, i) {
            None => Some(None::<int>),
            Some(j) => Some(Some(j)),
        },
    decreases t.len() - i,
{
    if 0 <= i < t.len() {
        assert(eq_val(h, t[i].0, key, fuel) == Some(is_str_val(t[i].0, name)));
        lemma_tbl_find_str(h, t, name, key, i + 1, fuel);
    }
}

/// Scope-chain lookup of a string-named variable.
pub open spec fn str_chain_get(h: Heap, x: int, name: Seq<char>) -> Option<Value>
    decreases x,
{
    match str_key_find(h.objects@[x].table@, name, 0) {
        Some(i) => Some(h.objects@[x].table@[i].1),
        None => match h.objects@[x].proto {
            Some(p) => if 0 <= p < x {
                str_chain_get(h, p as int, name)
            } else {
                None
            },
            None => None,
        },
    }
}

/// Which object of the chain owns a binding of the string `name`, and at
/// which entry.
pub open spec fn str_chain_owner(h: Heap, x: int, name: Seq<char>) -> Option<(int, int)>
    decreases x,
{
    match str_key_find(h.objects@[x].table@, name, 0) {
        Some(i) => Some((x, i)),
        None => match h.objects@[x].proto {
            Some(p) => if 0 <= p < x {
                str_chain_owner(h, p as int, name)
            } else {
                None
            },
            None => None,
        },
    }
}

/// Chain lookup of a string key never faults and agrees with
/// [`str_chain_get`].
pub proof fn lemma_chain_get_str(h: Heap, x: int, name: Seq<char>, key: Value, fuel: nat)
    requires
        is_str_val(key, name),
        0 <= x,
    ensures
        chain_get(h, x, key, fuel) == match str_chain_get(h, x, name) {
            None => Some(None::<Value>),
            Some(v) => Some(Some(v)),
        },
    decreases x,
{
    lemma_tbl_find_str(h, h.objects@[x].table@, name, key, 0, fuel);
    match h.objects@[x].proto {
        Some(p) => {
            if 0 <= p < x {
                lemma_chain_get_str(h, p as int, name, key, fuel);
            }
        },
        None => {},
    }
}

/// Chain assignment of a string key never faults and agrees with
/// [`str_chain_owner`].
pub proof fn lemma_chain_owner_str(h: Heap, x: int, name: Seq<char>, key: Value, fuel: nat)
    requires
        is_str_val(key, name),
        0 <= x,
    ensures
        chain_owner(h, x, key, fuel) == match str_chain_owner(h, x, name) {
            None => Some(None::<(int, int)>),
            Some(oi) => Some(Some(oi)),
        },
    decreases x,
{
    lemma_tbl_find_str(h, h.objects@[x].table@, name, key, 0, fuel);
    match h.objects@[x].proto {
        Some(p) => {
            if 0 <= p < x {
                lemma_chain_owner_str(h, p as int, name, key, fuel);
            }
        },
        None => {},
    }
}

} // verus!
