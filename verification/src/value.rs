//! The value universe of the machine and the heap that shared values live in.
//!
//! Objects, arrays, functions and iterators are reference-shared: a `Value`
//! holds an index into the [`Heap`], so every alias of a value observes its
//! mutations, and reference identity is index identity. Numbers, strings,
//! booleans, `Nil` and `Undefined` are plain copied values.

use vstd::prelude::*;
use crate::opcodes::Opcode;

verus! {

/// A runtime value.
pub enum Value {
    Nil,
    Undefined,
    Bool(bool),
    /// A number. The engine computes on 64-bit signed integers.
    Number(i64),
    /// A string, copied by value.
    Str(String),
    /// A shared object: index into [`Heap::objects`].
    Object(usize),
    /// A shared array: index into [`Heap::arrays`].
    Array(usize),
    /// A shared function: index into [`Heap::functions`].
    Function(usize),
    /// A shared iterator: index into [`Heap::iters`].
    Iter(usize),
}

impl Clone for Value {
    fn clone(&self) -> (res: Self)
        ensures
            res == *self,
    {
        match self {
            Value::Nil => Value::Nil,
            Value::Undefined => Value::Undefined,
            Value::Bool(b) => Value::Bool(*b),
            Value::Number(n) => Value::Number(*n),
            Value::Str(s) => Value::Str(s.clone()),
            Value::Object(i) => Value::Object(*i),
            Value::Array(i) => Value::Array(*i),
            Value::Function(i) => Value::Function(*i),
            Value::Iter(i) => Value::Iter(*i),
        }
    }
}

/// An object: an insertion-ordered table of key/value slots, unique by key,
/// and an optional prototype link. Objects double as lexical scopes; the
/// prototype chain of a scope is the visible scope chain.
pub struct Object {
    pub proto: Option<usize>,
    pub table: Vec<(Value, Value)>,
}

/// The data of a regular (bytecode) function.
pub struct FunData {
    /// The captured lexical environment, installed by `InitEnv`.
    pub environment: usize,
    /// The bytecode of the module the function was compiled in.
    pub code: Vec<Opcode>,
    /// Entry address within `code`.
    pub addr: usize,
    /// Where a suspended generator resumes, or `None` when the function
    /// starts from its entry address.
    pub yield_pos: Option<usize>,
    /// The environment a suspended generator resumes with; meaningful only
    /// while `yield_pos` is set.
    pub yield_env: usize,
    /// Formal parameter names, in order.
    pub args: Vec<String>,
    /// The constant pool captured by `InitEnv`.
    pub constants: Vec<Value>,
}

/// A callable: host-provided (identified by a number the host interprets) or
/// a regular bytecode function.
pub enum Function {
    Native(usize),
    Regular(FunData),
}

/// A finite, non-restartable sequence of values snapshotted by `NewIter`.
pub struct ValueIter {
    pub values: Vec<Value>,
    pub pos: usize,
}

/// The arena all shared values live in. Entries are never removed, so an
/// index, once handed out, stays valid.
pub struct Heap {
    pub objects: Vec<Object>,
    pub arrays: Vec<Vec<Value>>,
    pub functions: Vec<Function>,
    pub iters: Vec<ValueIter>,
}

/// The value's handle, if any, points into the heap.
pub open spec fn value_wf(h: Heap, v: Value) -> bool {
    match v {
        Value::Object(i) => i < h.objects.len(),
        Value::Array(i) => i < h.arrays.len(),
        Value::Function(i) => i < h.functions.len(),
        Value::Iter(i) => i < h.iters.len(),
        _ => true,
    }
}

/// Every element of the sequence is well formed.
pub open spec fn vals_wf(h: Heap, s: Seq<Value>) -> bool {
    forall|k: int| 0 <= k < s.len() ==> value_wf(h, #[trigger] s[k])
}

/// Every key and every slot of the table is well formed.
pub open spec fn table_wf(h: Heap, t: Seq<(Value, Value)>) -> bool {
    forall|k: int| 0 <= k < t.len() ==> value_wf(h, (#[trigger] t[k]).0) && value_wf(h, t[k].1)
}

/// The object at index `i`: its prototype points strictly downwards (so
/// prototype chains cannot cycle), and its table is well formed.
pub open spec fn object_wf(h: Heap, i: int) -> bool {
    &&& match h.objects@[i].proto {
        Some(p) => p < i,
        None => true,
    }
    &&& table_wf(h, h.objects@[i].table@)
}

/// A function's captured handles point into the heap.
pub open spec fn fun_wf(h: Heap, f: Function) -> bool {
    match f {
        Function::Native(_) => true,
        Function::Regular(d) => {
            &&& d.environment < h.objects.len()
            &&& d.yield_env < h.objects.len()
            &&& vals_wf(h, d.constants@)
        },
    }
}

/// An iterator's snapshot is well formed and its cursor is within bounds.
pub open spec fn iter_wf(h: Heap, it: ValueIter) -> bool {
    &&& vals_wf(h, it.values@)
    &&& it.pos <= it.values@.len()
}

/// The heap invariant: every stored structure is well formed.
pub open spec fn heap_wf(h: Heap) -> bool {
    &&& forall|i: int| 0 <= i < h.objects.len() ==> #[trigger] object_wf(h, i)
    &&& forall|i: int| 0 <= i < h.arrays.len() ==> vals_wf(h, #[trigger] h.arrays@[i]@)
    &&& forall|i: int| 0 <= i < h.functions.len() ==> fun_wf(h, #[trigger] h.functions@[i])
    &&& forall|i: int| 0 <= i < h.iters.len() ==> iter_wf(h, #[trigger] h.iters@[i])
}

/// `h2` has at least as many entries of each kind as `h1`.
pub open spec fn heap_le(h1: Heap, h2: Heap) -> bool {
    &&& h1.objects.len() <= h2.objects.len()
    &&& h1.arrays.len() <= h2.arrays.len()
    &&& h1.functions.len() <= h2.functions.len()
    &&& h1.iters.len() <= h2.iters.len()
}

/// The non-object parts of `h1` and `h2` agree.
pub open spec fn same_except_objects(h1: Heap, h2: Heap) -> bool {
    &&& h1.arrays@ == h2.arrays@
    &&& h1.functions@ == h2.functions@
    &&& h1.iters@ == h2.iters@
}

/// `h2`'s objects extend `h1`'s: every existing entry is unchanged.
pub open spec fn objects_extended(h1: Heap, h2: Heap) -> bool {
    &&& h2.objects@.len() >= h1.objects@.len()
    &&& forall|j: int| 0 <= j < h1.objects@.len() ==> h2.objects@[j] == h1.objects@[j]
}

/// The objects of `h1` and `h2` agree except possibly at index `i`.
pub open spec fn objects_same_except(h1: Heap, h2: Heap, i: int) -> bool {
    &&& h2.objects@.len() == h1.objects@.len()
    &&& forall|j: int| 0 <= j < h1.objects@.len() && j != i ==> h2.objects@[j] == h1.objects@[j]
}

pub proof fn lemma_value_wf_mono(h1: Heap, h2: Heap, v: Value)
    requires
        heap_le(h1, h2),
        value_wf(h1, v),
    ensures
        value_wf(h2, v),
{
}

pub proof fn lemma_vals_wf_mono(h1: Heap, h2: Heap, s: Seq<Value>)
    requires
        heap_le(h1, h2),
        vals_wf(h1, s),
    ensures
        vals_wf(h2, s),
{
    assert forall|k: int| 0 <= k < s.len() implies value_wf(h2, #[trigger] s[k]) by {
        lemma_value_wf_mono(h1, h2, s[k]);
    }
}

pub proof fn lemma_table_wf_mono(h1: Heap, h2: Heap, t: Seq<(Value, Value)>)
    requires
        heap_le(h1, h2),
        table_wf(h1, t),
    ensures
        table_wf(h2, t),
{
    assert forall|k: int| 0 <= k < t.len() implies value_wf(h2, (#[trigger] t[k]).0) && value_wf(
        h2,
        t[k].1,
    ) by {
        lemma_value_wf_mono(h1, h2, t[k].0);
        lemma_value_wf_mono(h1, h2, t[k].1);
    }
}

pub proof fn lemma_fun_wf_mono(h1: Heap, h2: Heap, f: Function)
    requires
        heap_le(h1, h2),
        fun_wf(h1, f),
    ensures
        fun_wf(h2, f),
{
    match f {
        Function::Regular(d) => lemma_vals_wf_mono(h1, h2, d.constants@),
        Function::Native(_) => (),
    }
}

pub proof fn lemma_iter_wf_mono(h1: Heap, h2: Heap, it: ValueIter)
    requires
        heap_le(h1, h2),
        iter_wf(h1, it),
    ensures
        iter_wf(h2, it),
{
    lemma_vals_wf_mono(h1, h2, it.values@);
}

/// Re-establishes the heap invariant after steps that leave every existing
/// entry unchanged and only append entries that are well formed with respect
/// to the old heap.
pub proof fn lemma_wf_grow(h1: Heap, h2: Heap)
    requires
        heap_wf(h1),
        heap_le(h1, h2),
        forall|j: int| 0 <= j < h1.objects@.len() ==> h2.objects@[j] == h1.objects@[j],
        forall|j: int|
            h1.objects@.len() <= j < h2.objects@.len() ==> {
                &&& match (#[trigger] h2.objects@[j]).proto {
                    Some(p) => p < j,
                    None => true,
                }
                &&& table_wf(h1, h2.objects@[j].table@)
            },
        forall|j: int| 0 <= j < h1.arrays@.len() ==> h2.arrays@[j] == h1.arrays@[j],
        forall|j: int|
            h1.arrays@.len() <= j < h2.arrays@.len() ==> vals_wf(h1, (#[trigger] h2.arrays@[j])@),
        forall|j: int| 0 <= j < h1.functions@.len() ==> h2.functions@[j] == h1.functions@[j],
        forall|j: int|
            h1.functions@.len() <= j < h2.functions@.len() ==> fun_wf(
                h1,
                #[trigger] h2.functions@[j],
            ),
        forall|j: int| 0 <= j < h1.iters@.len() ==> h2.iters@[j] == h1.iters@[j],
        forall|j: int| h1.iters@.len() <= j < h2.iters@.len() ==> iter_wf(h1, #[trigger] h2.iters@[j]),
    ensures
        heap_wf(h2),
{
    assert forall|i: int| 0 <= i < h2.objects.len() implies #[trigger] object_wf(h2, i) by {
        if i < h1.objects@.len() {
            assert(object_wf(h1, i));
            assert(h2.objects@[i] == h1.objects@[i]);
        }
        lemma_table_wf_mono(h1, h2, h2.objects@[i].table@);
    }
    assert forall|i: int| 0 <= i < h2.arrays.len() implies vals_wf(h2, #[trigger] h2.arrays@[i]@) by {
        if i < h1.arrays@.len() {
            assert(vals_wf(h1, h1.arrays@[i]@));
            assert(h2.arrays@[i] == h1.arrays@[i]);
        }
        lemma_vals_wf_mono(h1, h2, h2.arrays@[i]@);
    }
    assert forall|i: int| 0 <= i < h2.functions.len() implies fun_wf(
        h2,
        #[trigger] h2.functions@[i],
    ) by {
        if i < h1.functions@.len() {
            assert(fun_wf(h1, h1.functions@[i]));
            assert(h2.functions@[i] == h1.functions@[i]);
        }
        lemma_fun_wf_mono(h1, h2, h2.functions@[i]);
    }
    assert forall|i: int| 0 <= i < h2.iters.len() implies iter_wf(h2, #[trigger] h2.iters@[i]) by {
        if i < h1.iters@.len() {
            assert(iter_wf(h1, h1.iters@[i]));
            assert(h2.iters@[i] == h1.iters@[i]);
        }
        lemma_iter_wf_mono(h1, h2, h2.iters@[i]);
    }
}

/// Re-establishes the heap invariant after replacing one function with one
/// whose handles are valid; nothing else changed.
pub proof fn lemma_wf_fun_update(h1: Heap, h2: Heap, f: int)
    requires
        heap_wf(h1),
        0 <= f < h1.functions@.len(),
        h2.objects@ == h1.objects@,
        h2.arrays@ == h1.arrays@,
        h2.iters@ == h1.iters@,
        h2.functions@.len() == h1.functions@.len(),
        forall|j: int| 0 <= j < h1.functions@.len() && j != f ==> h2.functions@[j] == h1.functions@[j],
        fun_wf(h1, h2.functions@[f]),
    ensures
        heap_wf(h2),
{
    assert forall|i: int| 0 <= i < h2.objects.len() implies #[trigger] object_wf(h2, i) by {
        assert(object_wf(h1, i));
        lemma_table_wf_mono(h1, h2, h2.objects@[i].table@);
    }
    assert forall|i: int| 0 <= i < h2.arrays.len() implies vals_wf(h2, #[trigger] h2.arrays@[i]@) by {
        assert(vals_wf(h1, h1.arrays@[i]@));
        lemma_vals_wf_mono(h1, h2, h2.arrays@[i]@);
    }
    assert forall|i: int| 0 <= i < h2.functions.len() implies fun_wf(
        h2,
        #[trigger] h2.functions@[i],
    ) by {
        if i != f {
            assert(fun_wf(h1, h1.functions@[i]));
        }
        lemma_fun_wf_mono(h1, h2, h2.functions@[i]);
    }
    assert forall|i: int| 0 <= i < h2.iters.len() implies iter_wf(h2, #[trigger] h2.iters@[i]) by {
        assert(iter_wf(h1, h1.iters@[i]));
        lemma_iter_wf_mono(h1, h2, h2.iters@[i]);
    }
}

/// Re-establishes the heap invariant after replacing one iterator with a
/// well-formed one; nothing else changed.
pub proof fn lemma_wf_iter_update(h1: Heap, h2: Heap, it: int)
    requires
        heap_wf(h1),
        0 <= it < h1.iters@.len(),
        h2.objects@ == h1.objects@,
        h2.arrays@ == h1.arrays@,
        h2.functions@ == h1.functions@,
        h2.iters@.len() == h1.iters@.len(),
        forall|j: int| 0 <= j < h1.iters@.len() && j != it ==> h2.iters@[j] == h1.iters@[j],
        iter_wf(h1, h2.iters@[it]),
    ensures
        heap_wf(h2),
{
    assert forall|i: int| 0 <= i < h2.objects.len() implies #[trigger] object_wf(h2, i) by {
        assert(object_wf(h1, i));
        lemma_table_wf_mono(h1, h2, h2.objects@[i].table@);
    }
    assert forall|i: int| 0 <= i < h2.arrays.len() implies vals_wf(h2, #[trigger] h2.arrays@[i]@) by {
        assert(vals_wf(h1, h1.arrays@[i]@));
        lemma_vals_wf_mono(h1, h2, h2.arrays@[i]@);
    }
    assert forall|i: int| 0 <= i < h2.functions.len() implies fun_wf(
        h2,
        #[trigger] h2.functions@[i],
    ) by {
        assert(fun_wf(h1, h1.functions@[i]));
        lemma_fun_wf_mono(h1, h2, h2.functions@[i]);
    }
    assert forall|i: int| 0 <= i < h2.iters.len() implies iter_wf(h2, #[trigger] h2.iters@[i]) by {
        if i != it {
            assert(iter_wf(h1, h1.iters@[i]));
        }
        lemma_iter_wf_mono(h1, h2, h2.iters@[i]);
    }
}

impl Heap {
    pub open spec fn wf(self) -> bool {
        heap_wf(self)
    }

    pub fn new() -> (h: Heap)
        ensures
            h.objects@.len() == 0,
            h.arrays@.len() == 0,
            h.functions@.len() == 0,
            h.iters@.len() == 0,
            h.wf(),
    {
        let h = Heap { objects: Vec::new(), arrays: Vec::new(), functions: Vec::new(), iters: Vec::new() };
        proof {
            lemma_wf_grow(h, h);
        }
        h
    }

    /// Allocates a fresh object with the given prototype and an empty table.
    pub fn alloc_object(&mut self, proto: Option<usize>) -> (i: usize)
        requires
            old(self).wf(),
            match proto {
                Some(p) => p < old(self).objects.len(),
                None => true,
            },
        ensures
            final(self).wf(),
            i == old(self).objects.len(),
            final(self).objects@.len() == old(self).objects@.len() + 1,
            objects_extended(*old(self), *final(self)),
            final(self).objects@[i as int].proto == proto,
            final(self).objects@[i as int].table@.len() == 0,
            same_except_objects(*old(self), *final(self)),
    {
        let i = self.objects.len();
        let table: Vec<(Value, Value)> = Vec::new();
        self.objects.push(Object { proto, table });
        proof {
            lemma_wf_grow(*old(self), *self);
        }
        i
    }

    /// Allocates a fresh array holding the given elements.
    pub fn alloc_array(&mut self, elems: Vec<Value>) -> (i: usize)
        requires
            old(self).wf(),
            vals_wf(*old(self), elems@),
        ensures
            final(self).wf(),
            i == old(self).arrays.len(),
            final(self).arrays@ == old(self).arrays@.push(elems),
            final(self).arrays@[i as int]@ == elems@,
            final(self).objects@ == old(self).objects@,
            final(self).functions@ == old(self).functions@,
            final(self).iters@ == old(self).iters@,
    {
        let i = self.arrays.len();
        self.arrays.push(elems);
        proof {
            lemma_wf_grow(*old(self), *self);
        }
        i
    }

    /// Allocates a fresh function.
    pub fn alloc_function(&mut self, f: Function) -> (i: usize)
        requires
            old(self).wf(),
            fun_wf(*old(self), f),
        ensures
            final(self).wf(),
            i == old(self).functions.len(),
            final(self).functions@ == old(self).functions@.push(f),
            final(self).objects@ == old(self).objects@,
            final(self).arrays@ == old(self).arrays@,
            final(self).iters@ == old(self).iters@,
    {
        let i = self.functions.len();
        self.functions.push(f);
        proof {
            lemma_wf_grow(*old(self), *self);
        }
        i
    }

    /// Allocates a fresh iterator over the given snapshot.
    pub fn alloc_iter(&mut self, values: Vec<Value>) -> (i: usize)
        requires
            old(self).wf(),
            vals_wf(*old(self), values@),
        ensures
            final(self).wf(),
            i == old(self).iters.len(),
            final(self).iters@.len() == old(self).iters@.len() + 1,
            final(self).iters@[i as int].values@ == values@,
            final(self).iters@[i as int].pos == 0,
            final(self).objects@ == old(self).objects@,
            final(self).arrays@ == old(self).arrays@,
            final(self).functions@ == old(self).functions@,
    {
        let i = self.iters.len();
        self.iters.push(ValueIter { values, pos: 0 });
        proof {
            lemma_wf_grow(*old(self), *self);
        }
        i
    }
}

/// Allocates a fresh empty object with no prototype, as object literals do.
pub fn new_object(h: &mut Heap) -> (i: usize)
    requires
        old(h).wf(),
    ensures
        final(h).wf(),
        i == old(h).objects.len(),
        final(h).objects@.len() == old(h).objects@.len() + 1,
        objects_extended(*old(h), *final(h)),
        final(h).objects@[i as int].proto == None::<usize>,
        final(h).objects@[i as int].table@.len() == 0,
        same_except_objects(*old(h), *final(h)),
{
    h.alloc_object(None)
}

/// The nil value.
pub fn nil() -> (v: Value)
    ensures
        v == Value::Nil,
{
    Value::Nil
}

} // verus!
