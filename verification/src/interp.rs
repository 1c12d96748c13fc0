//! The execution unit: the machine's constant pool and position table, the
//! frame with its operand stack, save-stack and exception-handler stack, and
//! the fetch/dispatch loop.
//!
//! Nested calls and generator resumptions run inside one frame: `Call`
//! saves the whole execution state on the save-stack, `Return` and `Yield`
//! restore it. A `Return` with an empty save-stack halts the program.

use vstd::prelude::*;
use vstd::string::StringExecFns;
use crate::opcodes::{Opcode, mnemonic};
use crate::token::Position;
use crate::value::{
    Heap, Object, Value, Function, FunData, value_wf, object_wf, heap_wf, vals_wf,
    heap_le, same_except_objects, objects_extended, objects_same_except, lemma_wf_grow,
    lemma_wf_fun_update, lemma_wf_iter_update, lemma_vals_wf_mono,
};
use crate::scope::{
    ScopeErr, PropErr, error_obj_shape, new_error,
};

verus! {

/// The machine: the constant pool the running code currently sees, and a
/// side table mapping bytecode indices to source positions.
pub struct Machine {
    pub constants: Vec<Value>,
    pub line_no: Vec<(usize, Position)>,
}

impl Machine {
    pub fn new() -> (m: Machine)
        ensures
            m.constants@.len() == 0,
            m.line_no@.len() == 0,
    {
        Machine { constants: Vec::new(), line_no: Vec::new() }
    }
}

/// One suspended execution state on the save-stack.
pub struct Saved {
    pub stack: Vec<Value>,
    pub code: Vec<Opcode>,
    pub env: usize,
    pub pc: usize,
    pub constants: Vec<Value>,
}

/// A saved state's handles point into the heap.
pub open spec fn saved_wf(h: Heap, s: Saved) -> bool {
    &&& s.env < h.objects.len()
    &&& vals_wf(h, s.stack@)
    &&& vals_wf(h, s.constants@)
}

/// The frame: the whole execution state of one program.
pub struct Frame {
    /// Constant pool and position table.
    pub m: Machine,
    /// The arena of shared values.
    pub heap: Heap,
    /// The bytecode currently executing.
    pub code: Vec<Opcode>,
    /// The operand stack.
    pub stack: Vec<Value>,
    /// The program counter.
    pub pc: usize,
    /// The current environment (an object handle).
    pub env: usize,
    /// The stack of active function handles, for yield and return.
    pub funs: Vec<usize>,
    /// The save-stack of suspended execution states.
    pub exec_stack: Vec<Saved>,
    /// The exception-handler stack of absolute handler addresses.
    pub exception_stack: Vec<usize>,
    /// The opcode currently dispatched, for error attribution.
    pub cur_ins: Opcode,
}

/// A value with no handle into any heap: a number, string, boolean, `Nil`
/// or `Undefined`.
pub open spec fn is_plain(v: Value) -> bool {
    match v {
        Value::Object(_) => false,
        Value::Array(_) => false,
        Value::Function(_) => false,
        Value::Iter(_) => false,
        _ => true,
    }
}

impl Frame {
    /// The frame invariant: the heap is well formed and every handle held
    /// by the frame points into it.
    pub open spec fn wf(self) -> bool {
        &&& heap_wf(self.heap)
        &&& self.env < self.heap.objects.len()
        &&& vals_wf(self.heap, self.stack@)
        &&& vals_wf(self.heap, self.m.constants@)
        &&& forall|i: int|
            0 <= i < self.funs@.len() ==> (#[trigger] self.funs@[i]) < self.heap.functions.len()
        &&& forall|i: int|
            0 <= i < self.exec_stack@.len() ==> saved_wf(self.heap, #[trigger] self.exec_stack@[i])
    }

    /// The call protocol keeps one active function per saved state.
    pub open spec fn balanced(self) -> bool {
        self.funs@.len() == self.exec_stack@.len()
    }

    /// A fresh frame over the given machine: empty stacks, a single empty
    /// global environment, and no code yet.
    pub fn new(m: Machine) -> (f: Frame)
        requires
            forall|i: int| 0 <= i < m.constants@.len() ==> is_plain(#[trigger] m.constants@[i]),
        ensures
            f.wf(),
            f.balanced(),
            f.stack@.len() == 0,
            f.funs@.len() == 0,
            f.exec_stack@.len() == 0,
            f.exception_stack@.len() == 0,
            f.pc == 0,
            f.code@.len() == 0,
            f.m.constants@ == m.constants@,
            f.heap.objects@.len() == 1,
            f.heap.objects@[0].table@.len() == 0,
            f.heap.objects@[0].proto is None,
            f.env == 0,
    {
        let mut heap = Heap::new();
        let env = heap.alloc_object(None);
        let f = Frame {
            m,
            heap,
            code: Vec::new(),
            stack: Vec::new(),
            pc: 0,
            env,
            funs: Vec::new(),
            exec_stack: Vec::new(),
            exception_stack: Vec::new(),
            cur_ins: Opcode::Label,
        };
        f
    }

    /// Installs the program to run: its code, from address zero.
    pub fn load_program(&mut self, code: Vec<Opcode>)
        requires
            old(self).wf(),
        ensures
            final(self).wf(),
            *final(self) == (Frame { code, pc: 0usize, ..*old(self) }),
    {
        self.code = code;
        self.pc = 0;
    }

    /// Appends a constant to the pool; handles must point into this frame's
    /// heap.
    pub fn add_constant(&mut self, v: Value)
        requires
            old(self).wf(),
            value_wf(old(self).heap, v),
        ensures
            final(self).wf(),
            final(self).m.constants@ == old(self).m.constants@.push(v),
            *final(self) == (Frame {
                m: Machine {
                    constants: final(self).m.constants,
                    ..old(self).m
                },
                ..*old(self)
            }),
    {
        self.m.constants.push(v);
    }

    /// Creates a regular function value: entry address, formal parameter
    /// names, and the bytecode of its module. Its captured environment and
    /// constant pool are installed later by `InitEnv`.
    pub fn new_function(&mut self, addr: usize, params: Vec<String>, code: Vec<Opcode>) -> (v:
        Value)
        requires
            old(self).wf(),
        ensures
            final(self).wf(),
            value_wf(final(self).heap, v),
            v == Value::Function((final(self).heap.functions@.len() - 1) as usize),
            final(self).heap.functions@.len() == old(self).heap.functions@.len() + 1,
            final(self).heap.objects@.len() == old(self).heap.objects@.len() + 1,
            objects_extended(old(self).heap, final(self).heap),
            final(self).heap.arrays@ == old(self).heap.arrays@,
            final(self).heap.iters@ == old(self).heap.iters@,
            forall|j: int|
                0 <= j < old(self).heap.functions@.len() ==> final(self).heap.functions@[j]
                    == old(self).heap.functions@[j],
            (final(self).heap.functions@.last() matches Function::Regular(d) && {
                &&& d.addr == addr
                &&& d.yield_pos is None
                &&& d.code@ == code@
                &&& d.args@ == params@
                &&& d.constants@.len() == 0
            }),
            final(self).stack@ == old(self).stack@,
            final(self).funs@ == old(self).funs@,
            final(self).exec_stack@ == old(self).exec_stack@,
            final(self).exception_stack@ == old(self).exception_stack@,
            final(self).pc == old(self).pc,
            final(self).env == old(self).env,
            final(self).code@ == old(self).code@,
            final(self).m.constants@ == old(self).m.constants@,
    {
        let env = self.heap.alloc_object(None);
        let d = FunData {
            environment: env,
            code,
            addr,
            yield_pos: None,
            yield_env: env,
            args: params,
            constants: Vec::new(),
        };
        let i = self.heap.alloc_function(Function::Regular(d));
        proof {
            lemma_frame_wf_heap_grow(*old(self), *self);
        }
        Value::Function(i)
    }

    /// Pushes a value onto the operand stack.
    pub fn push(&mut self, val: Value)
        requires
            old(self).wf(),
            value_wf(old(self).heap, val),
        ensures
            final(self).wf(),
            *final(self) == (Frame { stack: final(self).stack, ..*old(self) }),
            final(self).stack@ == old(self).stack@.push(val),
    {
        self.stack.push(val);
    }

    /// Pushes a value onto the operand stack (alias kept for the shape of
    /// the host interface).
    pub fn push_ref(&mut self, val: Value)
        requires
            old(self).wf(),
            value_wf(old(self).heap, val),
        ensures
            final(self).wf(),
            *final(self) == (Frame { stack: final(self).stack, ..*old(self) }),
            final(self).stack@ == old(self).stack@.push(val),
    {
        self.stack.push(val);
    }

    /// Pops the top of the operand stack; an empty stack is a catchable
    /// runtime error naming the current instruction.
    pub fn pop(&mut self) -> (r: Result<Value, Value>)
        requires
            old(self).wf(),
        ensures
            final(self).wf(),
            match r {
                Result::Ok(v) => {
                    &&& old(self).stack@.len() > 0
                    &&& v == old(self).stack@.last()
                    &&& value_wf(final(self).heap, v)
                    &&& final(self).stack@ == old(self).stack@.drop_last()
                    &&& *final(self) == (Frame { stack: final(self).stack, ..*old(self) })
                },
                Result::Err(e) => {
                    &&& old(self).stack@.len() == 0
                    &&& error_obj_shape(
                        final(self).heap,
                        e,
                        -1,
                        None,
                        "Stack empty. Current instruction: "@ + mnemonic(old(self).cur_ins),
                    )
                    &&& value_wf(final(self).heap, e)
                    &&& frame_same_but_heap_grown(*old(self), *final(self))
                },
            },
    {
        match self.stack.pop() {
            Some(v) => Result::Ok(v),
            None => {
                let msg = String::from_str("Stack empty. Current instruction: ").concat(
                    self.cur_ins.name(),
                );
                let e = new_error(&mut self.heap, -1, None, msg.as_str());
                proof {
                    lemma_frame_wf_heap_grow(*old(self), *self);
                }
                Result::Err(e)
            },
        }
    }

    /// Creates a fresh scope whose prototype is the current environment and
    /// enters it.
    pub fn push_env(&mut self)
        requires
            old(self).wf(),
        ensures
            final(self).wf(),
            final(self).env == old(self).heap.objects@.len(),
            final(self).heap.objects@.len() == old(self).heap.objects@.len() + 1,
            objects_extended(old(self).heap, final(self).heap),
            final(self).heap.objects@.last().proto == Some(old(self).env),
            final(self).heap.objects@.last().table@.len() == 0,
            same_except_objects(old(self).heap, final(self).heap),
            final(self).stack@ == old(self).stack@,
            final(self).pc == old(self).pc,
            final(self).code@ == old(self).code@,
            final(self).funs@ == old(self).funs@,
            final(self).exec_stack@ == old(self).exec_stack@,
            final(self).exception_stack@ == old(self).exception_stack@,
            final(self).m.constants@ == old(self).m.constants@,
            final(self).cur_ins == old(self).cur_ins,
            final(self).m.line_no@ == old(self).m.line_no@,
    {
        let e = self.heap.alloc_object(Some(self.env));
        self.env = e;
        proof {
            lemma_frame_wf_heap_grow_fields(*old(self), *self);
        }
    }

    /// Leaves the current scope, restoring its parent. A scope without a
    /// parent cannot be left: that is a fatal condition the dispatcher
    /// reports, never a catchable exception.
    pub fn pop_env(&mut self) -> (r: Result<(), ()>)
        requires
            old(self).wf(),
        ensures
            final(self).wf(),
            match r {
                Result::Ok(()) => {
                    &&& old(self).heap.objects@[old(self).env as int].proto matches Some(p)
                        && final(self).env == p
                    &&& *final(self) == (Frame { env: final(self).env, ..*old(self) })
                },
                Result::Err(()) => {
                    &&& old(self).heap.objects@[old(self).env as int].proto is None
                    &&& *final(self) == *old(self)
                },
            },
    {
        proof {
            assert(object_wf(self.heap, self.env as int));
        }
        match self.heap.objects[self.env].proto {
            None => Result::Err(()),
            Some(p) => {
                self.env = p;
                Result::Ok(())
            },
        }
    }

    /// Saves the entire execution state (operand stack, bytecode,
    /// environment, program counter, constant pool) onto the save-stack.
    pub fn save_state(&mut self)
        requires
            old(self).wf(),
        ensures
            final(self).wf(),
            final(self).exec_stack@.len() == old(self).exec_stack@.len() + 1,
            forall|i: int|
                0 <= i < old(self).exec_stack@.len() ==> final(self).exec_stack@[i]
                    == old(self).exec_stack@[i],
            ({
                let s = final(self).exec_stack@.last();
                &&& s.stack@ == old(self).stack@
                &&& s.code@ == old(self).code@
                &&& s.env == old(self).env
                &&& s.pc == old(self).pc
                &&& s.constants@ == old(self).m.constants@
            }),
            *final(self) == (Frame { exec_stack: final(self).exec_stack, ..*old(self) }),
    {
        let stack = crate::algebra::clone_values(&self.stack);
        let code = clone_code(&self.code);
        let constants = crate::algebra::clone_values(&self.m.constants);
        let s = Saved { stack, code, env: self.env, pc: self.pc, constants };
        self.exec_stack.push(s);
    }

    /// Restores the most recently saved execution state, popping it.
    pub fn restore_state(&mut self)
        requires
            old(self).wf(),
            old(self).exec_stack@.len() > 0,
        ensures
            final(self).wf(),
            ({
                let s = old(self).exec_stack@.last();
                &&& final(self).stack@ == s.stack@
                &&& final(self).code@ == s.code@
                &&& final(self).env == s.env
                &&& final(self).pc == s.pc
                &&& final(self).m.constants@ == s.constants@
            }),
            final(self).exec_stack@ == old(self).exec_stack@.drop_last(),
            final(self).heap == old(self).heap,
            final(self).funs@ == old(self).funs@,
            final(self).exception_stack@ == old(self).exception_stack@,
            final(self).cur_ins == old(self).cur_ins,
            final(self).m.line_no@ == old(self).m.line_no@,
    {
        let s = self.exec_stack.pop().unwrap();
        self.m.constants = s.constants;
        self.pc = s.pc;
        self.env = s.env;
        self.code = s.code;
        self.stack = s.stack;
        proof {
            assert(saved_wf(self.heap, old(self).exec_stack@.last()));
        }
    }

    /// Transfers control to the innermost exception handler: the handler
    /// address is popped into the program counter and the error value is
    /// pushed onto the operand stack. Returns false, changing nothing, when
    /// no handler is registered.
    pub fn transfer_to_handler(&mut self, err: Value) -> (caught: bool)
        requires
            old(self).wf(),
            value_wf(old(self).heap, err),
        ensures
            final(self).wf(),
            if old(self).exception_stack@.len() > 0 {
                &&& caught
                &&& final(self).pc == old(self).exception_stack@.last()
                &&& final(self).exception_stack@ == old(self).exception_stack@.drop_last()
                &&& final(self).stack@ == old(self).stack@.push(err)
                &&& *final(self) == (Frame {
                    pc: final(self).pc,
                    exception_stack: final(self).exception_stack,
                    stack: final(self).stack,
                    ..*old(self)
                })
            } else {
                &&& !caught
                &&& final(self).stack@ == old(self).stack@
                &&& final(self).pc == old(self).pc
                &&& final(self).env == old(self).env
                &&& final(self).code@ == old(self).code@
                &&& final(self).heap == old(self).heap
                &&& final(self).funs@ == old(self).funs@
                &&& final(self).exec_stack@ == old(self).exec_stack@
                &&& final(self).exception_stack@ == old(self).exception_stack@
                &&& final(self).m.constants@ == old(self).m.constants@
                &&& final(self).m.line_no@ == old(self).m.line_no@
                &&& final(self).cur_ins == old(self).cur_ins
            },
    {
        match self.exception_stack.pop() {
            Some(addr) => {
                self.pc = addr;
                self.stack.push(err);
                true
            },
            None => false,
        }
    }

    /// Looks the source position of the previously fetched instruction up:
    /// the first table entry for the bytecode index just dispatched, or
    /// `None` exactly when the table holds no entry for it.
    pub fn get_pos(&self) -> (r: Option<Position>)
        requires
            self.wf(),
        ensures
            match r {
                Some(p) => exists|i: int|
                    0 <= i < self.m.line_no@.len() && (#[trigger] self.m.line_no@[i]).0 + 1
                        == self.pc && self.m.line_no@[i].1 == p,
                None => forall|i: int|
                    0 <= i < self.m.line_no@.len() ==> (#[trigger] self.m.line_no@[i]).0 + 1
                        != self.pc,
            },
    {
        let n = self.m.line_no.len();
        let mut i: usize = 0;
        while i < n
            invariant
                n == self.m.line_no@.len(),
                i <= n,
                forall|j: int|
                    0 <= j < i ==> (#[trigger] self.m.line_no@[j]).0 + 1 != self.pc,
            decreases n - i,
        {
            if self.pc > 0 && self.m.line_no[i].0 == self.pc - 1 {
                let q = &self.m.line_no[i].1;
                let p = Position { file: q.file.clone(), line: q.line, column: q.column };
                proof {
                    assert(self.m.line_no@[i as int].0 + 1 == self.pc && self.m.line_no@[i as int].1
                        == p);
                }
                return Some(p);
            }
            i = i + 1;
        }
        None
    }
}

/// Clones a code vector, opcode for opcode.
pub fn clone_code(v: &Vec<Opcode>) -> (r: Vec<Opcode>)
    ensures
        r@ == v@,
{
    let r = v.clone();
    proof {
        assert forall|i: int| 0 <= i < v@.len() implies r@[i] == v@[i] by {
            assert(vstd::pervasive::cloned::<Opcode>(v@[i], r@[i]));
        }
        assert(r@ =~= v@);
    }
    r
}

/// `f2` is `f1` with a grown heap: every control field unchanged.
pub open spec fn frame_same_but_heap_grown(f1: Frame, f2: Frame) -> bool {
    &&& heap_le(f1.heap, f2.heap)
    &&& objects_extended(f1.heap, f2.heap)
    &&& f2.stack@ == f1.stack@
    &&& f2.pc == f1.pc
    &&& f2.env == f1.env
    &&& f2.code@ == f1.code@
    &&& f2.funs@ == f1.funs@
    &&& f2.exec_stack@ == f1.exec_stack@
    &&& f2.exception_stack@ == f1.exception_stack@
    &&& f2.m.constants@ == f1.m.constants@
    &&& f2.m.line_no@ == f1.m.line_no@
    &&& f2.cur_ins == f1.cur_ins
}

/// Carries the frame invariant across a step that only grew the heap.
pub proof fn lemma_frame_wf_heap_grow(f1: Frame, f2: Frame)
    requires
        f1.wf(),
        heap_wf(f2.heap),
        heap_le(f1.heap, f2.heap),
        f2.env == f1.env,
        f2.stack@ == f1.stack@,
        f2.m.constants@ == f1.m.constants@,
        f2.funs@ == f1.funs@,
        f2.exec_stack@ == f1.exec_stack@,
    ensures
        f2.wf(),
{
    lemma_vals_wf_mono(f1.heap, f2.heap, f2.stack@);
    lemma_vals_wf_mono(f1.heap, f2.heap, f2.m.constants@);
    assert forall|i: int| 0 <= i < f2.exec_stack@.len() implies saved_wf(
        f2.heap,
        #[trigger] f2.exec_stack@[i],
    ) by {
        assert(saved_wf(f1.heap, f1.exec_stack@[i]));
        lemma_vals_wf_mono(f1.heap, f2.heap, f2.exec_stack@[i].stack@);
        lemma_vals_wf_mono(f1.heap, f2.heap, f2.exec_stack@[i].constants@);
    }
}

/// As [`lemma_frame_wf_heap_grow`], allowing the environment to move to any
/// valid object.
pub proof fn lemma_frame_wf_heap_grow_fields(f1: Frame, f2: Frame)
    requires
        f1.wf(),
        heap_wf(f2.heap),
        heap_le(f1.heap, f2.heap),
        f2.env < f2.heap.objects.len(),
        f2.stack@ == f1.stack@,
        f2.m.constants@ == f1.m.constants@,
        f2.funs@ == f1.funs@,
        f2.exec_stack@ == f1.exec_stack@,
    ensures
        f2.wf(),
{
    lemma_vals_wf_mono(f1.heap, f2.heap, f2.stack@);
    lemma_vals_wf_mono(f1.heap, f2.heap, f2.m.constants@);
    assert forall|i: int| 0 <= i < f2.exec_stack@.len() implies saved_wf(
        f2.heap,
        #[trigger] f2.exec_stack@[i],
    ) by {
        assert(saved_wf(f1.heap, f1.exec_stack@[i]));
        lemma_vals_wf_mono(f1.heap, f2.heap, f2.exec_stack@[i].stack@);
        lemma_vals_wf_mono(f1.heap, f2.heap, f2.exec_stack@[i].constants@);
    }
}


/// What one dispatch step, or a whole run, ends with.
pub enum Step {
    /// Keep going.
    Next,
    /// The program halted normally (`Return` with an empty save-stack, or
    /// the program counter ran past the end of the code).
    Done,
    /// An operation raised a runtime error and no handler was registered;
    /// the host should report it and exit with code 1.
    Failed(Value),
    /// An explicit `Throw` found no handler; the host should report it and
    /// exit with code -1.
    Thrown(Value),
    /// `PopEnv` on a scope without a parent: fatal, never catchable.
    EnvFault,
    /// A native function must run: the host calls it with `this` and the
    /// arguments and hands its result back through [`Frame::native_return`].
    NativeCall { fun: usize, this: Value, args: Vec<Value> },
}

/// The routing every failing operation performs, starting from operand
/// stack `stack0` (the stack after the faulting opcode's pops): with a
/// handler registered, control enters it exactly and a fresh error object
/// carrying `line` and `msg` sits on top of the stack; without one, the run
/// fails with that error object. Only error objects are added to the heap.
pub open spec fn raised_with(
    f1: Frame,
    f2: Frame,
    r: Step,
    stack0: Seq<Value>,
    line: int,
    msg: Seq<char>,
) -> bool {
    &&& objects_extended(f1.heap, f2.heap)
    &&& same_except_objects(f1.heap, f2.heap)
    &&& if f1.exception_stack@.len() > 0 {
        &&& r is Next
        &&& f2.pc == f1.exception_stack@.last()
        &&& f2.exception_stack@ == f1.exception_stack@.drop_last()
        &&& f2.stack@.len() == stack0.len() + 1
        &&& f2.stack@.drop_last() == stack0
        &&& error_obj_shape(f2.heap, f2.stack@.last(), line, None, msg)
    } else {
        &&& (r matches Step::Failed(e) && error_obj_shape(f2.heap, e, line, None, msg))
        &&& f2.stack@ == stack0
        &&& f2.pc == f1.pc
    }
}

impl Frame {
    /// Routes an error value: control transfers to the innermost handler,
    /// or the run fails with the error.
    fn raise(&mut self, e: Value) -> (r: Step)
        requires
            old(self).wf(),
            value_wf(old(self).heap, e),
        ensures
            final(self).wf(),
            final(self).balanced() == old(self).balanced(),
            final(self).heap == old(self).heap,
            final(self).funs@ == old(self).funs@,
            final(self).exec_stack@ == old(self).exec_stack@,
            final(self).code@ == old(self).code@,
            final(self).m.constants@ == old(self).m.constants@,
            final(self).m.line_no@ == old(self).m.line_no@,
            final(self).env == old(self).env,
            if old(self).exception_stack@.len() > 0 {
                &&& r is Next
                &&& final(self).pc == old(self).exception_stack@.last()
                &&& final(self).exception_stack@ == old(self).exception_stack@.drop_last()
                &&& final(self).stack@ == old(self).stack@.push(e)
            } else {
                &&& r == Step::Failed(e)
                &&& final(self).stack@ == old(self).stack@
                &&& final(self).pc == old(self).pc
                &&& final(self).exception_stack@ == old(self).exception_stack@
            },
    {
        if self.transfer_to_handler(e.clone()) {
            Step::Next
        } else {
            Step::Failed(e)
        }
    }

    /// Raises a freshly built runtime error with the given message.
    fn raise_msg(&mut self, line: i64, msg: &str) -> (r: Step)
        requires
            old(self).wf(),
        ensures
            final(self).wf(),
            final(self).balanced() == old(self).balanced(),
            final(self).funs@ == old(self).funs@,
            final(self).exec_stack@ == old(self).exec_stack@,
            final(self).code@ == old(self).code@,
            final(self).m.constants@ == old(self).m.constants@,
            final(self).m.line_no@ == old(self).m.line_no@,
            final(self).env == old(self).env,
            heap_le(old(self).heap, final(self).heap),
            objects_extended(old(self).heap, final(self).heap),
            same_except_objects(old(self).heap, final(self).heap),
            r is Next || r matches Step::Failed(_),
            old(self).exception_stack@.len() > 0 ==> {
                &&& r is Next
                &&& final(self).pc == old(self).exception_stack@.last()
                &&& final(self).exception_stack@ == old(self).exception_stack@.drop_last()
                &&& final(self).stack@.len() == old(self).stack@.len() + 1
                &&& final(self).stack@.drop_last() == old(self).stack@
                &&& error_obj_shape(final(self).heap, final(self).stack@.last(), line as int, None, msg@)
            },
            old(self).exception_stack@.len() == 0 ==> {
                &&& (r matches Step::Failed(e) && error_obj_shape(
                    final(self).heap,
                    e,
                    line as int,
                    None,
                    msg@,
                ))
                &&& final(self).stack@ == old(self).stack@
                &&& final(self).pc == old(self).pc
            },
    {
        let e = new_error(&mut self.heap, line, None, msg);
        proof {
            lemma_frame_wf_heap_grow(*old(self), *self);
        }
        self.raise(e)
    }

    /// A structural walk ran out of fuel: raise the depth error.
    fn raise_depth(&mut self) -> (r: Step)
        requires
            old(self).wf(),
        ensures
            final(self).wf(),
            final(self).balanced() == old(self).balanced(),
            final(self).funs@ == old(self).funs@,
            final(self).exec_stack@ == old(self).exec_stack@,
            final(self).env == old(self).env,
            final(self).code@ == old(self).code@,
            final(self).m.constants@ == old(self).m.constants@,
            final(self).m.line_no@ == old(self).m.line_no@,
            heap_le(old(self).heap, final(self).heap),
            objects_extended(old(self).heap, final(self).heap),
            same_except_objects(old(self).heap, final(self).heap),
            r is Next || r matches Step::Failed(_),
            old(self).exception_stack@.len() == 0 ==> r matches Step::Failed(_),
            raised_with(
                *old(self),
                *final(self),
                r,
                old(self).stack@,
                -1,
                "Runtime exception: value nesting too deep"@,
            ),
    {
        self.raise_msg(-1, "Runtime exception: value nesting too deep")
    }

    /// Dispatches one binary operator: with `a` pushed first and `b`
    /// second, pops `b` then `a` and pushes `a OP b`.
    pub fn op_binary(&mut self, op: &Opcode) -> (r: Step)
        requires
            old(self).wf(),
            (match *op {
                Opcode::Add | Opcode::Sub | Opcode::Mul | Opcode::Div | Opcode::Rem | Opcode::Shl
                    | Opcode::Shr | Opcode::BitAnd | Opcode::BitOr | Opcode::BitXor | Opcode::And
                    | Opcode::Or | Opcode::Gt | Opcode::Ge | Opcode::Lt | Opcode::Le | Opcode::Eq
                    | Opcode::Ne => true,
                _ => false,
            }),
        ensures
            final(self).wf(),
            final(self).balanced() == old(self).balanced(),
            final(self).funs@ == old(self).funs@,
            final(self).exec_stack@ == old(self).exec_stack@,
            final(self).env == old(self).env,
            final(self).code@ == old(self).code@,
            final(self).m.constants@ == old(self).m.constants@,
            final(self).m.line_no@ == old(self).m.line_no@,
            r is Next || r matches Step::Failed(_),
            old(self).stack@.len() >= 2 ==> {
                let a = old(self).stack@[old(self).stack@.len() - 2];
                let b = old(self).stack@.last();
                let rest = old(self).stack@.drop_last().drop_last();
                match crate::algebra::binop_res(
                    old(self).heap,
                    *op,
                    a,
                    b,
                    crate::equality::STRUCT_FUEL as nat,
                ) {
                    crate::algebra::BinRes::Val(v) => {
                        &&& r is Next
                        &&& final(self).stack@ == rest.push(v)
                        &&& final(self).heap == old(self).heap
                        &&& final(self).pc == old(self).pc
                        &&& final(self).exception_stack@ == old(self).exception_stack@
                    },
                    crate::algebra::BinRes::StrVal(t) => {
                        &&& r is Next
                        &&& final(self).stack@.len() == rest.len() + 1
                        &&& final(self).stack@.drop_last() == rest
                        &&& crate::scope::is_str_val(final(self).stack@.last(), t)
                        &&& final(self).heap == old(self).heap
                        &&& final(self).pc == old(self).pc
                    },
                    crate::algebra::BinRes::NewArr(elems) => {
                        &&& r is Next
                        &&& final(self).stack@ == rest.push(
                            Value::Array(old(self).heap.arrays@.len() as usize),
                        )
                        &&& final(self).heap.arrays@.len() == old(self).heap.arrays@.len() + 1
                        &&& final(self).heap.arrays@[old(self).heap.arrays@.len() as int]@ == elems
                        &&& final(self).heap.objects@ == old(self).heap.objects@
                        &&& final(self).pc == old(self).pc
                    },
                    crate::algebra::BinRes::Fault => true,
                }
            },
    {
        let b = match self.pop() {
            Result::Ok(v) => v,
            Result::Err(e) => {
                return self.raise(e);
            },
        };
        let a = match self.pop() {
            Result::Ok(v) => v,
            Result::Err(e) => {
                return self.raise(e);
            },
        };
        let res = crate::algebra::eval_binop(
            &mut self.heap,
            op,
            &a,
            &b,
            crate::equality::STRUCT_FUEL,
        );
        proof {
            lemma_frame_wf_heap_grow(
                Frame { heap: old(self).heap, stack: self.stack, ..*old(self) },
                Frame { heap: self.heap, stack: self.stack, ..*old(self) },
            );
        }
        match res {
            Result::Ok(v) => {
                self.stack.push(v);
                proof {
                    if old(self).stack@.len() >= 2 {
                        assert(old(self).stack@.drop_last().drop_last().push(
                            old(self).stack@[old(self).stack@.len() - 2],
                        ).push(old(self).stack@.last()) =~= old(self).stack@);
                    }
                }
                Step::Next
            },
            Result::Err(()) => self.raise_depth(),
        }
    }

    /// Logical/bitwise not of the top of the stack.
    pub fn op_not(&mut self) -> (r: Step)
        requires
            old(self).wf(),
        ensures
            final(self).wf(),
            final(self).balanced() == old(self).balanced(),
            final(self).funs@ == old(self).funs@,
            final(self).exec_stack@ == old(self).exec_stack@,
            final(self).env == old(self).env,
            final(self).code@ == old(self).code@,
            final(self).m.constants@ == old(self).m.constants@,
            final(self).m.line_no@ == old(self).m.line_no@,
            r is Next || r matches Step::Failed(_),
            old(self).stack@.len() >= 1 ==> {
                &&& r is Next
                &&& final(self).stack@ == old(self).stack@.drop_last().push(
                    crate::algebra::not_val(old(self).stack@.last()),
                )
                &&& final(self).heap == old(self).heap
                &&& final(self).pc == old(self).pc
                &&& final(self).exception_stack@ == old(self).exception_stack@
            },
    {
        let v = match self.pop() {
            Result::Ok(v) => v,
            Result::Err(e) => {
                return self.raise(e);
            },
        };
        let out = crate::algebra::eval_not(&v);
        self.stack.push(out);
        Step::Next
    }

    /// Unary negation of the top of the stack.
    pub fn op_neg(&mut self) -> (r: Step)
        requires
            old(self).wf(),
        ensures
            final(self).wf(),
            final(self).balanced() == old(self).balanced(),
            final(self).funs@ == old(self).funs@,
            final(self).exec_stack@ == old(self).exec_stack@,
            final(self).env == old(self).env,
            final(self).code@ == old(self).code@,
            final(self).m.constants@ == old(self).m.constants@,
            final(self).m.line_no@ == old(self).m.line_no@,
            r is Next || r matches Step::Failed(_),
            old(self).stack@.len() >= 1 ==> {
                &&& r is Next
                &&& final(self).stack@ == old(self).stack@.drop_last().push(
                    crate::algebra::neg_val(old(self).stack@.last()),
                )
                &&& final(self).heap == old(self).heap
                &&& final(self).pc == old(self).pc
                &&& final(self).exception_stack@ == old(self).exception_stack@
            },
    {
        let v = match self.pop() {
            Result::Ok(v) => v,
            Result::Err(e) => {
                return self.raise(e);
            },
        };
        let out = crate::algebra::eval_neg(&v);
        self.stack.push(out);
        Step::Next
    }

    /// Reference identity of the two topmost values.
    pub fn op_ref_cmp(&mut self, negate: bool) -> (r: Step)
        requires
            old(self).wf(),
        ensures
            final(self).wf(),
            final(self).balanced() == old(self).balanced(),
            final(self).funs@ == old(self).funs@,
            final(self).exec_stack@ == old(self).exec_stack@,
            final(self).env == old(self).env,
            final(self).code@ == old(self).code@,
            final(self).m.constants@ == old(self).m.constants@,
            final(self).m.line_no@ == old(self).m.line_no@,
            r is Next || r matches Step::Failed(_),
            old(self).stack@.len() >= 2 ==> {
                let x = old(self).stack@.last();
                let y = old(self).stack@[old(self).stack@.len() - 2];
                &&& r is Next
                &&& final(self).stack@ == old(self).stack@.drop_last().drop_last().push(
                    Value::Bool(crate::algebra::ref_eq(x, y) != negate),
                )
                &&& final(self).heap == old(self).heap
                &&& final(self).pc == old(self).pc
                &&& final(self).exception_stack@ == old(self).exception_stack@
            },
    {
        let x = match self.pop() {
            Result::Ok(v) => v,
            Result::Err(e) => {
                return self.raise(e);
            },
        };
        let y = match self.pop() {
            Result::Ok(v) => v,
            Result::Err(e) => {
                return self.raise(e);
            },
        };
        let same = crate::algebra::ref_equal(&x, &y);
        self.stack.push(Value::Bool(same != negate));
        Step::Next
    }
}


/// The iterator entries a `NewIter` over an object builds: one fresh
/// single-level object per table entry, with `key` and `value` slots, in
/// insertion order.
pub open spec fn iter_entry_shape(h: Heap, v: Value, kv: (Value, Value)) -> bool {
    match v {
        Value::Object(i) => i < h.objects.len() && {
            let t = h.objects@[i as int].table@;
            &&& h.objects@[i as int].proto is None
            &&& t.len() == 2
            &&& crate::scope::is_str_val(t[0].0, "key"@) && t[0].1 == kv.0
            &&& crate::scope::is_str_val(t[1].0, "value"@) && t[1].1 == kv.1
        },
        _ => false,
    }
}

impl Frame {
    /// `NewIter`: snapshots the popped value into a fresh iterator. An
    /// array snapshots its element references; an object snapshots one
    /// `{key, value}` entry object per table entry, in insertion order; an
    /// iterator passes through unchanged; anything else is a runtime error.
    pub fn op_new_iter(&mut self) -> (r: Step)
        requires
            old(self).wf(),
        ensures
            final(self).wf(),
            final(self).balanced() == old(self).balanced(),
            final(self).funs@ == old(self).funs@,
            final(self).exec_stack@ == old(self).exec_stack@,
            final(self).env == old(self).env,
            final(self).code@ == old(self).code@,
            final(self).m.constants@ == old(self).m.constants@,
            final(self).m.line_no@ == old(self).m.line_no@,
            r is Next || r matches Step::Failed(_),
            old(self).stack@.len() >= 1 ==> {
                let v = old(self).stack@.last();
                let rest = old(self).stack@.drop_last();
                match v {
                    Value::Array(a) => {
                        &&& r is Next
                        &&& final(self).stack@ == rest.push(
                            Value::Iter(old(self).heap.iters@.len() as usize),
                        )
                        &&& final(self).heap.iters@.len() == old(self).heap.iters@.len() + 1
                        &&& final(self).heap.iters@.last().values@ == old(self).heap.arrays@[a as int]@
                        &&& final(self).heap.iters@.last().pos == 0
                        &&& final(self).pc == old(self).pc
                        &&& final(self).exception_stack@ == old(self).exception_stack@
                    },
                    Value::Object(x) => {
                        let t = old(self).heap.objects@[x as int].table@;
                        &&& r is Next
                        &&& final(self).stack@ == rest.push(
                            Value::Iter(old(self).heap.iters@.len() as usize),
                        )
                        &&& final(self).heap.iters@.len() == old(self).heap.iters@.len() + 1
                        &&& final(self).heap.iters@.last().values@.len() == t.len()
                        &&& forall|j: int|
                            0 <= j < t.len() ==> iter_entry_shape(
                                final(self).heap,
                                #[trigger] final(self).heap.iters@.last().values@[j],
                                t[j],
                            )
                        &&& final(self).heap.iters@.last().pos == 0
                        &&& final(self).pc == old(self).pc
                        &&& final(self).exception_stack@ == old(self).exception_stack@
                    },
                    Value::Iter(_) => {
                        &&& r is Next
                        &&& final(self).stack@ == old(self).stack@
                        &&& final(self).heap == old(self).heap
                        &&& final(self).pc == old(self).pc
                        &&& final(self).exception_stack@ == old(self).exception_stack@
                    },
                    _ => raised_with(
                        *old(self),
                        *final(self),
                        r,
                        rest,
                        -1,
                        "Runtime exception: Array or object expected in iterator instance"@,
                    ),
                }
            },
    {
        let v = match self.pop() {
            Result::Ok(v) => v,
            Result::Err(e) => {
                return self.raise(e);
            },
        };
        match v {
            Value::Array(a) => {
                proof {
                    assert(vals_wf(self.heap, self.heap.arrays@[a as int]@));
                }
                let values = crate::algebra::clone_values(&self.heap.arrays[a]);
                let it = self.heap.alloc_iter(values);
                proof {
                    lemma_frame_wf_heap_grow(
                        Frame { stack: self.stack, ..*old(self) },
                        Frame { heap: self.heap, stack: self.stack, ..*old(self) },
                    );
                }
                self.stack.push(Value::Iter(it));
                Step::Next
            },
            Value::Object(x) => {
                let ghost t0 = self.heap.objects@[x as int].table@;
                let ghost h0 = self.heap;
                let n = self.heap.objects[x].table.len();
                let mut values: Vec<Value> = Vec::new();
                let mut j: usize = 0;
                while j < n
                    invariant
                        heap_wf(self.heap),
                        x < self.heap.objects.len(),
                        heap_le(h0, self.heap),
                        objects_extended(h0, self.heap),
                        h0.arrays@ == self.heap.arrays@,
                        h0.functions@ == self.heap.functions@,
                        h0.iters@ == self.heap.iters@,
                        old(self).stack@.len() >= 1,
                        h0 == old(self).heap,
                        self.stack@ == old(self).stack@.drop_last(),
                        vals_wf(h0, self.stack@),
                        self.funs@ == old(self).funs@,
                        self.exec_stack@ == old(self).exec_stack@,
                        self.exception_stack@ == old(self).exception_stack@,
                        self.env == old(self).env,
                        self.pc == old(self).pc,
                        self.code@ == old(self).code@,
                        self.m.constants@ == old(self).m.constants@,
                        self.m.line_no@ == old(self).m.line_no@,
                        self.cur_ins == old(self).cur_ins,
                        vals_wf(h0, self.m.constants@),
                        forall|i: int|
                            0 <= i < self.exec_stack@.len() ==> saved_wf(
                                h0,
                                #[trigger] self.exec_stack@[i],
                            ),
                        t0 == self.heap.objects@[x as int].table@,
                        n == t0.len(),
                        j <= n,
                        values@.len() == j,
                        vals_wf(self.heap, values@),
                        forall|k: int|
                            0 <= k < j ==> iter_entry_shape(
                                self.heap,
                                #[trigger] values@[k],
                                t0[k],
                            ),
                    decreases n - j,
                {
                    proof {
                        assert(object_wf(self.heap, x as int));
                        assert(crate::value::table_wf(self.heap, self.heap.objects@[x as int].table@));
                    }
                    let ghost h_pre = self.heap;
                    let k = self.heap.objects[x].table[j].0.clone();
                    let v2 = self.heap.objects[x].table[j].1.clone();
                    let mut et: Vec<(Value, Value)> = Vec::new();
                    et.push((Value::Str(String::from_str("key")), k));
                    et.push((Value::Str(String::from_str("value")), v2));
                    let ei = self.heap.objects.len();
                    self.heap.objects.push(Object { proto: None, table: et });
                    proof {
                        lemma_wf_grow(h_pre, self.heap);
                        lemma_vals_wf_mono(h_pre, self.heap, values@);
                        assert forall|k2: int| 0 <= k2 < j implies iter_entry_shape(
                            self.heap,
                            #[trigger] values@[k2],
                            t0[k2],
                        ) by {
                            assert(iter_entry_shape(h_pre, values@[k2], t0[k2]));
                        }
                    }
                    values.push(Value::Object(ei));
                    j = j + 1;
                }
                let it = self.heap.alloc_iter(values);
                proof {
                    assert forall|k2: int| 0 <= k2 < t0.len() implies iter_entry_shape(
                        self.heap,
                        #[trigger] self.heap.iters@.last().values@[k2],
                        t0[k2],
                    ) by {
                        assert(self.heap.iters@.last().values@[k2] == values@[k2]);
                    }
                    lemma_frame_wf_heap_grow(
                        Frame { stack: self.stack, ..*old(self) },
                        Frame { heap: self.heap, stack: self.stack, ..*old(self) },
                    );
                }
                self.stack.push(Value::Iter(it));
                Step::Next
            },
            Value::Iter(i) => {
                self.stack.push(Value::Iter(i));
                Step::Next
            },
            _ => self.raise_msg(
                -1,
                "Runtime exception: Array or object expected in iterator instance",
            ),
        }
    }

    /// `IterHasNext`: pops an iterator reference and pushes whether any
    /// element remains.
    pub fn op_iter_has_next(&mut self) -> (r: Step)
        requires
            old(self).wf(),
        ensures
            final(self).wf(),
            final(self).balanced() == old(self).balanced(),
            final(self).funs@ == old(self).funs@,
            final(self).exec_stack@ == old(self).exec_stack@,
            final(self).env == old(self).env,
            final(self).code@ == old(self).code@,
            final(self).m.constants@ == old(self).m.constants@,
            final(self).m.line_no@ == old(self).m.line_no@,
            r is Next || r matches Step::Failed(_),
            old(self).stack@.len() >= 1 ==> match old(self).stack@.last() {
                Value::Iter(it) => {
                    let d = old(self).heap.iters@[it as int];
                    &&& r is Next
                    &&& final(self).stack@ == old(self).stack@.drop_last().push(
                        Value::Bool(d.pos < d.values@.len()),
                    )
                    &&& final(self).heap == old(self).heap
                    &&& final(self).pc == old(self).pc
                    &&& final(self).exception_stack@ == old(self).exception_stack@
                },
                _ => raised_with(
                    *old(self),
                    *final(self),
                    r,
                    old(self).stack@.drop_last(),
                    -1,
                    "Runtime exception: iterator expected"@,
                ),
            },
    {
        let v = match self.pop() {
            Result::Ok(v) => v,
            Result::Err(e) => {
                return self.raise(e);
            },
        };
        match v {
            Value::Iter(it) => {
                let d = &self.heap.iters[it];
                let has = d.pos < d.values.len();
                self.stack.push(Value::Bool(has));
                Step::Next
            },
            _ => self.raise_msg(-1, "Runtime exception: iterator expected"),
        }
    }

    /// `IterNext`: pops an iterator reference, advances it, and pushes the
    /// next element (`Undefined` when exhausted).
    pub fn op_iter_next(&mut self) -> (r: Step)
        requires
            old(self).wf(),
        ensures
            final(self).wf(),
            final(self).balanced() == old(self).balanced(),
            final(self).funs@ == old(self).funs@,
            final(self).exec_stack@ == old(self).exec_stack@,
            final(self).env == old(self).env,
            final(self).code@ == old(self).code@,
            final(self).m.constants@ == old(self).m.constants@,
            final(self).m.line_no@ == old(self).m.line_no@,
            r is Next || r matches Step::Failed(_),
            old(self).stack@.len() >= 1 ==> match old(self).stack@.last() {
                Value::Iter(it) => {
                    let d = old(self).heap.iters@[it as int];
                    &&& r is Next
                    &&& final(self).pc == old(self).pc
                    &&& final(self).exception_stack@ == old(self).exception_stack@
                    &&& if d.pos < d.values@.len() {
                        &&& final(self).stack@ == old(self).stack@.drop_last().push(
                            d.values@[d.pos as int],
                        )
                        &&& final(self).heap.iters@[it as int].pos == d.pos + 1
                        &&& final(self).heap.iters@[it as int].values@ == d.values@
                        &&& final(self).heap.iters@.len() == old(self).heap.iters@.len()
                        &&& forall|j: int|
                            0 <= j < old(self).heap.iters@.len() && j != it ==> final(self).heap.iters@[j] == old(self).heap.iters@[j]
                        &&& final(self).heap.objects@ == old(self).heap.objects@
                        &&& final(self).heap.arrays@ == old(self).heap.arrays@
                        &&& final(self).heap.functions@ == old(self).heap.functions@
                    } else {
                        &&& final(self).stack@ == old(self).stack@.drop_last().push(
                            Value::Undefined,
                        )
                        &&& final(self).heap == old(self).heap
                    }
                },
                _ => raised_with(
                    *old(self),
                    *final(self),
                    r,
                    old(self).stack@.drop_last(),
                    -1,
                    "Runtime exception: iterator expected"@,
                ),
            },
    {
        let v = match self.pop() {
            Result::Ok(v) => v,
            Result::Err(e) => {
                return self.raise(e);
            },
        };
        match v {
            Value::Iter(it) => {
                proof {
                    assert(crate::value::iter_wf(self.heap, self.heap.iters@[it as int]));
                }
                let pos = self.heap.iters[it].pos;
                if pos < self.heap.iters[it].values.len() {
                    let out = self.heap.iters[it].values[pos].clone();
                    self.heap.iters[it].pos = pos + 1;
                    proof {
                        lemma_wf_iter_update(old(self).heap, self.heap, it as int);
                        lemma_frame_wf_heap_grow(
                            Frame { stack: self.stack, ..*old(self) },
                            Frame { heap: self.heap, stack: self.stack, ..*old(self) },
                        );
                    }
                    self.stack.push(out);
                    Step::Next
                } else {
                    self.stack.push(Value::Undefined);
                    Step::Next
                }
            },
            _ => self.raise_msg(-1, "Runtime exception: iterator expected"),
        }
    }

    /// `Load`: pops the key, then the target, and pushes the property read
    /// from the target.
    pub fn op_load(&mut self) -> (r: Step)
        requires
            old(self).wf(),
        ensures
            final(self).wf(),
            final(self).balanced() == old(self).balanced(),
            final(self).funs@ == old(self).funs@,
            final(self).exec_stack@ == old(self).exec_stack@,
            final(self).env == old(self).env,
            final(self).code@ == old(self).code@,
            final(self).m.constants@ == old(self).m.constants@,
            final(self).m.line_no@ == old(self).m.line_no@,
            r is Next || r matches Step::Failed(_),
            old(self).stack@.len() >= 2 ==> {
                let key = old(self).stack@.last();
                let target = old(self).stack@[old(self).stack@.len() - 2];
                let rest = old(self).stack@.drop_last().drop_last();
                match crate::scope::prop_get(
                    old(self).heap,
                    target,
                    key,
                    crate::equality::STRUCT_FUEL as nat,
                ) {
                    crate::scope::GetRes::Hit(v) => {
                        &&& r is Next
                        &&& final(self).stack@ == rest.push(v)
                        &&& final(self).heap == old(self).heap
                        &&& final(self).pc == old(self).pc
                        &&& final(self).exception_stack@ == old(self).exception_stack@
                    },
                    crate::scope::GetRes::OutOfRange => raised_with(
                        *old(self),
                        *final(self),
                        r,
                        rest,
                        -1,
                        "Runtime exception: array index out of range"@,
                    ),
                    crate::scope::GetRes::Fault => raised_with(
                        *old(self),
                        *final(self),
                        r,
                        rest,
                        -1,
                        "Runtime exception: value nesting too deep"@,
                    ),
                }
            },
    {
        let key = match self.pop() {
            Result::Ok(v) => v,
            Result::Err(e) => {
                return self.raise(e);
            },
        };
        let target = match self.pop() {
            Result::Ok(v) => v,
            Result::Err(e) => {
                return self.raise(e);
            },
        };
        match crate::scope::value_get(&self.heap, &target, &key, crate::equality::STRUCT_FUEL) {
            Result::Ok(v) => {
                self.stack.push(v);
                Step::Next
            },
            Result::Err(PropErr::OutOfRange) => self.raise_msg(
                -1,
                "Runtime exception: array index out of range",
            ),
            Result::Err(PropErr::Fault) => self.raise_depth(),
        }
    }

    /// `Store`: pops the value, then the key, then the target, and writes
    /// the property on the target.
    pub fn op_store(&mut self) -> (r: Step)
        requires
            old(self).wf(),
        ensures
            final(self).wf(),
            final(self).balanced() == old(self).balanced(),
            final(self).funs@ == old(self).funs@,
            final(self).exec_stack@ == old(self).exec_stack@,
            final(self).env == old(self).env,
            final(self).code@ == old(self).code@,
            final(self).m.constants@ == old(self).m.constants@,
            final(self).m.line_no@ == old(self).m.line_no@,
            r is Next || r matches Step::Failed(_),
            old(self).stack@.len() >= 3 ==> {
                let val = old(self).stack@.last();
                let key = old(self).stack@[old(self).stack@.len() - 2];
                let target = old(self).stack@[old(self).stack@.len() - 3];
                let rest = old(self).stack@.drop_last().drop_last().drop_last();
                match crate::scope::prop_set_plan(
                    old(self).heap,
                    target,
                    key,
                    val,
                    crate::equality::STRUCT_FUEL as nat,
                ) {
                    crate::scope::SetPlan::Obj { x, t2 } => {
                        &&& r is Next
                        &&& final(self).stack@ == rest
                        &&& final(self).heap.objects@[x].table@ == t2
                        &&& final(self).heap.objects@[x].proto == old(self).heap.objects@[x].proto
                        &&& objects_same_except(old(self).heap, final(self).heap, x)
                        &&& same_except_objects(old(self).heap, final(self).heap)
                        &&& final(self).pc == old(self).pc
                        &&& final(self).exception_stack@ == old(self).exception_stack@
                    },
                    crate::scope::SetPlan::Arr { a, ix } => {
                        &&& r is Next
                        &&& final(self).stack@ == rest
                        &&& final(self).heap.arrays@[a]@ == old(self).heap.arrays@[a]@.update(
                            ix,
                            val,
                        )
                        &&& final(self).heap.arrays@.len() == old(self).heap.arrays@.len()
                        &&& final(self).heap.objects@ == old(self).heap.objects@
                        &&& final(self).heap.functions@ == old(self).heap.functions@
                        &&& final(self).heap.iters@ == old(self).heap.iters@
                        &&& final(self).pc == old(self).pc
                        &&& final(self).exception_stack@ == old(self).exception_stack@
                    },
                    crate::scope::SetPlan::Noop => {
                        &&& r is Next
                        &&& final(self).stack@ == rest
                        &&& final(self).heap == old(self).heap
                        &&& final(self).pc == old(self).pc
                        &&& final(self).exception_stack@ == old(self).exception_stack@
                    },
                    crate::scope::SetPlan::OutOfRange => raised_with(
                        *old(self),
                        *final(self),
                        r,
                        rest,
                        -1,
                        "Runtime exception: array index out of range"@,
                    ),
                    crate::scope::SetPlan::Fault => raised_with(
                        *old(self),
                        *final(self),
                        r,
                        rest,
                        -1,
                        "Runtime exception: value nesting too deep"@,
                    ),
                }
            },
    {
        let val = match self.pop() {
            Result::Ok(v) => v,
            Result::Err(e) => {
                return self.raise(e);
            },
        };
        let key = match self.pop() {
            Result::Ok(v) => v,
            Result::Err(e) => {
                return self.raise(e);
            },
        };
        let target = match self.pop() {
            Result::Ok(v) => v,
            Result::Err(e) => {
                return self.raise(e);
            },
        };
        let res = crate::scope::value_set(
            &mut self.heap,
            &target,
            key,
            val,
            crate::equality::STRUCT_FUEL,
        );
        proof {
            lemma_frame_wf_heap_grow(
                Frame { heap: old(self).heap, stack: self.stack, ..*old(self) },
                Frame { heap: self.heap, stack: self.stack, ..*old(self) },
            );
        }
        match res {
            Result::Ok(()) => Step::Next,
            Result::Err(PropErr::OutOfRange) => self.raise_msg(
                -1,
                "Runtime exception: array index out of range",
            ),
            Result::Err(PropErr::Fault) => self.raise_depth(),
        }
    }
}


impl Frame {
    /// `LoadVar`: pushes the value of the named variable, looked up through
    /// the scope chain; an undeclared name is a runtime error.
    pub fn op_load_var(&mut self, name: &String) -> (r: Step)
        requires
            old(self).wf(),
        ensures
            final(self).wf(),
            final(self).balanced() == old(self).balanced(),
            final(self).funs@ == old(self).funs@,
            final(self).exec_stack@ == old(self).exec_stack@,
            final(self).env == old(self).env,
            final(self).code@ == old(self).code@,
            final(self).m.constants@ == old(self).m.constants@,
            final(self).m.line_no@ == old(self).m.line_no@,
            r is Next || r matches Step::Failed(_),
            match crate::scope::str_chain_get(old(self).heap, old(self).env as int, name@) {
                Some(v) => {
                    &&& r is Next
                    &&& final(self).stack@ == old(self).stack@.push(v)
                    &&& final(self).heap == old(self).heap
                    &&& final(self).pc == old(self).pc
                    &&& final(self).exception_stack@ == old(self).exception_stack@
                },
                None => raised_with(
                    *old(self),
                    *final(self),
                    r,
                    old(self).stack@,
                    0,
                    "Variable '"@ + name@ + "' not declared"@,
                ),
            },
    {
        let key = Value::Str(name.clone());
        proof {
            crate::scope::lemma_chain_get_str(
                self.heap,
                self.env as int,
                name@,
                key,
                crate::equality::STRUCT_FUEL as nat,
            );
        }
        match crate::scope::get_variable(&self.heap, self.env, &key, crate::equality::STRUCT_FUEL) {
            Result::Ok(Some(v)) => {
                self.stack.push(v);
                Step::Next
            },
            Result::Ok(None) => {
                let msg = String::from_str("Variable '").concat(name.as_str()).concat(
                    "' not declared",
                );
                self.raise_msg(0, msg.as_str())
            },
            Result::Err(_) => self.raise_depth(),
        }
    }

    /// `StoreVar`: pops a value and assigns it to the nearest binding of
    /// the named variable in the scope chain; an undeclared name is a
    /// runtime error.
    pub fn op_store_var(&mut self, name: &String) -> (r: Step)
        requires
            old(self).wf(),
        ensures
            final(self).wf(),
            final(self).balanced() == old(self).balanced(),
            final(self).funs@ == old(self).funs@,
            final(self).exec_stack@ == old(self).exec_stack@,
            final(self).env == old(self).env,
            final(self).code@ == old(self).code@,
            final(self).m.constants@ == old(self).m.constants@,
            final(self).m.line_no@ == old(self).m.line_no@,
            r is Next || r matches Step::Failed(_),
            old(self).stack@.len() >= 1 ==> {
                let val = old(self).stack@.last();
                match crate::scope::str_chain_owner(old(self).heap, old(self).env as int, name@) {
                    Some((o, i)) => {
                        &&& r is Next
                        &&& final(self).stack@ == old(self).stack@.drop_last()
                        &&& 0 <= o < old(self).heap.objects@.len()
                        &&& 0 <= i < old(self).heap.objects@[o].table@.len()
                        &&& final(self).heap.objects@[o].table@ == old(self).heap.objects@[o].table@.update(i, (old(self).heap.objects@[o].table@[i].0, val))
                        &&& final(self).heap.objects@[o].proto == old(self).heap.objects@[o].proto
                        &&& objects_same_except(old(self).heap, final(self).heap, o)
                        &&& same_except_objects(old(self).heap, final(self).heap)
                        &&& final(self).pc == old(self).pc
                        &&& final(self).exception_stack@ == old(self).exception_stack@
                    },
                    None => raised_with(
                        *old(self),
                        *final(self),
                        r,
                        old(self).stack@.drop_last(),
                        0,
                        "Variable '"@ + name@ + "' not declared"@,
                    ),
                }
            },
    {
        let val = match self.pop() {
            Result::Ok(v) => v,
            Result::Err(e) => {
                return self.raise(e);
            },
        };
        let key = Value::Str(name.clone());
        proof {
            crate::scope::lemma_chain_owner_str(
                self.heap,
                self.env as int,
                name@,
                key,
                crate::equality::STRUCT_FUEL as nat,
            );
        }
        let res = crate::scope::set_variable_in_scope(
            &mut self.heap,
            self.env,
            &key,
            val,
            crate::equality::STRUCT_FUEL,
        );
        proof {
            lemma_frame_wf_heap_grow(
                Frame { heap: old(self).heap, stack: self.stack, ..*old(self) },
                Frame { heap: self.heap, stack: self.stack, ..*old(self) },
            );
        }
        match res {
            Result::Ok(()) => Step::Next,
            Result::Err(ScopeErr::Undeclared) => {
                let msg = String::from_str("Variable '").concat(name.as_str()).concat(
                    "' not declared",
                );
                self.raise_msg(0, msg.as_str())
            },
            Result::Err(_) => self.raise_depth(),
        }
    }

    /// `DeclVar`: pops a value and binds the name in the innermost scope:
    /// a binding already present there is overwritten in place, otherwise
    /// the binding is appended.
    pub fn op_decl_var(&mut self, name: &String) -> (r: Step)
        requires
            old(self).wf(),
        ensures
            final(self).wf(),
            final(self).balanced() == old(self).balanced(),
            final(self).funs@ == old(self).funs@,
            final(self).exec_stack@ == old(self).exec_stack@,
            final(self).env == old(self).env,
            final(self).code@ == old(self).code@,
            final(self).m.constants@ == old(self).m.constants@,
            final(self).m.line_no@ == old(self).m.line_no@,
            r is Next || r matches Step::Failed(_),
            old(self).stack@.len() >= 1 ==> {
                let val = old(self).stack@.last();
                let e = old(self).env as int;
                let t = old(self).heap.objects@[e].table@;
                &&& r is Next
                &&& final(self).stack@ == old(self).stack@.drop_last()
                &&& final(self).pc == old(self).pc
                &&& final(self).exception_stack@ == old(self).exception_stack@
                &&& objects_same_except(old(self).heap, final(self).heap, e)
                &&& same_except_objects(old(self).heap, final(self).heap)
                &&& final(self).heap.objects@[e].proto == old(self).heap.objects@[e].proto
                &&& match crate::scope::str_key_find(t, name@, 0) {
                    Some(i) => final(self).heap.objects@[e].table@ == t.update(i, (t[i].0, val)),
                    None => {
                        &&& final(self).heap.objects@[e].table@.len() == t.len() + 1
                        &&& final(self).heap.objects@[e].table@.drop_last() == t
                        &&& crate::scope::is_str_val(
                            final(self).heap.objects@[e].table@.last().0,
                            name@,
                        )
                        &&& final(self).heap.objects@[e].table@.last().1 == val
                    },
                }
            },
    {
        let val = match self.pop() {
            Result::Ok(v) => v,
            Result::Err(e) => {
                return self.raise(e);
            },
        };
        let key = Value::Str(name.clone());
        proof {
            crate::scope::lemma_tbl_find_str(
                self.heap,
                self.heap.objects@[self.env as int].table@,
                name@,
                key,
                0,
                crate::equality::STRUCT_FUEL as nat,
            );
            crate::scope::lemma_chain_owner_str(
                self.heap,
                self.env as int,
                name@,
                key,
                crate::equality::STRUCT_FUEL as nat,
            );
        }
        let declared = match crate::scope::var_declared(
            &self.heap,
            self.env,
            &key,
            crate::equality::STRUCT_FUEL,
        ) {
            Result::Ok(b) => b,
            Result::Err(_) => {
                return self.raise_depth();
            },
        };
        let res = if declared {
            crate::scope::set_variable_in_scope(
                &mut self.heap,
                self.env,
                &key,
                val,
                crate::equality::STRUCT_FUEL,
            )
        } else {
            crate::scope::declare_var(
                &mut self.heap,
                self.env,
                key,
                val,
                crate::equality::STRUCT_FUEL,
            )
        };
        proof {
            lemma_frame_wf_heap_grow(
                Frame { heap: old(self).heap, stack: self.stack, ..*old(self) },
                Frame { heap: self.heap, stack: self.stack, ..*old(self) },
            );
        }
        match res {
            Result::Ok(()) => Step::Next,
            Result::Err(ScopeErr::Duplicate) => {
                let msg = String::from_str("Variable '").concat(name.as_str()).concat(
                    "' already declared",
                );
                self.raise_msg(0, msg.as_str())
            },
            Result::Err(ScopeErr::Undeclared) => {
                let msg = String::from_str("Variable '").concat(name.as_str()).concat(
                    "' not declared",
                );
                self.raise_msg(0, msg.as_str())
            },
            Result::Err(ScopeErr::Fault) => self.raise_depth(),
        }
    }

    /// `InitEnv`: pops a function value, gives it a fresh captured
    /// environment whose prototype is the current environment, snapshots
    /// the current constant pool into it, and pushes it back. A non-function
    /// is a runtime error.
    pub fn op_init_env(&mut self) -> (r: Step)
        requires
            old(self).wf(),
        ensures
            final(self).wf(),
            final(self).balanced() == old(self).balanced(),
            final(self).funs@ == old(self).funs@,
            final(self).exec_stack@ == old(self).exec_stack@,
            final(self).env == old(self).env,
            final(self).code@ == old(self).code@,
            final(self).m.constants@ == old(self).m.constants@,
            final(self).m.line_no@ == old(self).m.line_no@,
            r is Next || r matches Step::Failed(_),
            old(self).stack@.len() >= 1 ==> match old(self).stack@.last() {
                Value::Function(f) => match old(self).heap.functions@[f as int] {
                    Function::Regular(d) => {
                        &&& r is Next
                        &&& final(self).stack@ == old(self).stack@.drop_last().push(
                            Value::Function(f),
                        )
                        &&& final(self).pc == old(self).pc
                        &&& final(self).exception_stack@ == old(self).exception_stack@
                        &&& final(self).heap.objects@.len() == old(self).heap.objects@.len() + 1
                        &&& objects_extended(old(self).heap, final(self).heap)
                        &&& final(self).heap.objects@.last().proto == Some(old(self).env)
                        &&& final(self).heap.objects@.last().table@.len() == 0
                        &&& final(self).heap.arrays@ == old(self).heap.arrays@
                        &&& final(self).heap.iters@ == old(self).heap.iters@
                        &&& final(self).heap.functions@.len() == old(self).heap.functions@.len()
                        &&& forall|j: int|
                            0 <= j < old(self).heap.functions@.len() && j != f ==> final(self).heap.functions@[j] == old(self).heap.functions@[j]
                        &&& (final(self).heap.functions@[f as int] matches Function::Regular(d2)
                            && {
                            &&& d2.environment == old(self).heap.objects@.len()
                            &&& d2.constants@ == old(self).m.constants@
                            &&& d2.code@ == d.code@
                            &&& d2.addr == d.addr
                            &&& d2.yield_pos == d.yield_pos
                            &&& d2.yield_env == d.yield_env
                            &&& d2.args@ == d.args@
                        })
                    },
                    Function::Native(_) => {
                        &&& r is Next
                        &&& final(self).stack@ == old(self).stack@.drop_last().push(
                            Value::Function(f),
                        )
                        &&& final(self).heap == old(self).heap
                        &&& final(self).pc == old(self).pc
                        &&& final(self).exception_stack@ == old(self).exception_stack@
                    },
                },
                _ => raised_with(
                    *old(self),
                    *final(self),
                    r,
                    old(self).stack@.drop_last(),
                    -1,
                    "Runtime exception: function expected"@,
                ),
            },
    {
        let v = match self.pop() {
            Result::Ok(v) => v,
            Result::Err(e) => {
                return self.raise(e);
            },
        };
        match v {
            Value::Function(f) => {
                proof {
                    assert(crate::value::fun_wf(self.heap, self.heap.functions@[f as int]));
                }
                let is_reg = match &self.heap.functions[f] {
                    Function::Regular(_) => true,
                    Function::Native(_) => false,
                };
                if is_reg {
                    let ne = self.heap.alloc_object(Some(self.env));
                    let consts = crate::algebra::clone_values(&self.m.constants);
                    let ghost h_mid = self.heap;
                    match &mut self.heap.functions[f] {
                        Function::Regular(d) => {
                            d.environment = ne;
                            d.constants = consts;
                        },
                        Function::Native(_) => {},
                    }
                    proof {
                        assert(crate::value::fun_wf(h_mid, self.heap.functions@[f as int])) by {
                            assert(crate::value::fun_wf(old(self).heap, old(self).heap.functions@[f as int]));
                            crate::value::lemma_vals_wf_mono(
                                old(self).heap,
                                h_mid,
                                old(self).m.constants@,
                            );
                        }
                        lemma_wf_fun_update(h_mid, self.heap, f as int);
                        lemma_frame_wf_heap_grow(
                            Frame { stack: self.stack, ..*old(self) },
                            Frame { heap: self.heap, stack: self.stack, ..*old(self) },
                        );
                    }
                }
                self.stack.push(Value::Function(f));
                Step::Next
            },
            _ => self.raise_msg(-1, "Runtime exception: function expected"),
        }
    }

    /// `Return`: pops the return value (`Undefined` if the stack is
    /// empty); with an empty save-stack the program halts. Otherwise the
    /// saved state is restored, the returning function's resumption state
    /// is cleared (so a later call starts it from scratch), it is popped
    /// from the active-function stack, and the return value is pushed.
    pub fn op_return(&mut self) -> (r: Step)
        requires
            old(self).wf(),
            old(self).balanced(),
        ensures
            final(self).wf(),
            final(self).balanced(),
            r is Next || r is Done,
            old(self).exec_stack@.len() == 0 ==> {
                &&& r is Done
                &&& final(self).exec_stack@.len() == 0
                &&& final(self).funs@.len() == 0
                &&& final(self).stack@ == (if old(self).stack@.len() > 0 {
                    old(self).stack@.drop_last()
                } else {
                    old(self).stack@
                })
                &&& final(self).heap == old(self).heap
                &&& final(self).env == old(self).env
                &&& final(self).code@ == old(self).code@
                &&& final(self).pc == old(self).pc
                &&& final(self).m.constants@ == old(self).m.constants@
                &&& final(self).m.line_no@ == old(self).m.line_no@
                &&& final(self).exception_stack@ == old(self).exception_stack@
            },
            old(self).exec_stack@.len() > 0 ==> {
                let s = old(self).exec_stack@.last();
                let ret = if old(self).stack@.len() > 0 {
                    old(self).stack@.last()
                } else {
                    Value::Undefined
                };
                let f = old(self).funs@.last() as int;
                &&& r is Next
                &&& final(self).stack@ == s.stack@.push(ret)
                &&& final(self).code@ == s.code@
                &&& final(self).env == s.env
                &&& final(self).pc == s.pc
                &&& final(self).m.constants@ == s.constants@
                &&& final(self).m.line_no@ == old(self).m.line_no@
                &&& final(self).exception_stack@ == old(self).exception_stack@
                &&& final(self).exec_stack@ == old(self).exec_stack@.drop_last()
                &&& final(self).funs@ == old(self).funs@.drop_last()
                &&& final(self).heap.objects@ == old(self).heap.objects@
                &&& final(self).heap.arrays@ == old(self).heap.arrays@
                &&& final(self).heap.iters@ == old(self).heap.iters@
                &&& final(self).heap.functions@.len() == old(self).heap.functions@.len()
                &&& forall|j: int|
                    0 <= j < old(self).heap.functions@.len() && j != f ==> final(self).heap.functions@[j] == old(self).heap.functions@[j]
                &&& match old(self).heap.functions@[f] {
                    Function::Regular(d) => (final(self).heap.functions@[f]
                        matches Function::Regular(d2) && {
                        &&& d2.yield_pos is None
                        &&& d2.environment == d.environment
                        &&& d2.yield_env == d.yield_env
                        &&& d2.code@ == d.code@
                        &&& d2.addr == d.addr
                        &&& d2.args@ == d.args@
                        &&& d2.constants@ == d.constants@
                    }),
                    Function::Native(_) => final(self).heap.functions@[f] == old(self).heap.functions@[f],
                }
            },
    {
        let ret = match self.stack.pop() {
            Some(v) => v,
            None => Value::Undefined,
        };
        if self.exec_stack.len() == 0 {
            return Step::Done;
        }
        self.restore_state();
        let f = self.funs[self.funs.len() - 1];
        proof {
            assert(crate::value::fun_wf(self.heap, self.heap.functions@[f as int]));
        }
        let ghost h_mid = self.heap;
        match &mut self.heap.functions[f] {
            Function::Regular(d) => {
                d.yield_pos = None;
            },
            Function::Native(_) => {},
        }
        proof {
            assert(crate::value::fun_wf(h_mid, self.heap.functions@[f as int]));
            lemma_wf_fun_update(h_mid, self.heap, f as int);
            lemma_frame_wf_heap_grow(
                Frame { heap: h_mid, stack: self.stack, funs: self.funs, exec_stack: self.exec_stack, m: self.m, code: self.code, env: self.env, pc: self.pc, exception_stack: self.exception_stack, cur_ins: self.cur_ins },
                Frame { heap: self.heap, stack: self.stack, funs: self.funs, exec_stack: self.exec_stack, m: self.m, code: self.code, env: self.env, pc: self.pc, exception_stack: self.exception_stack, cur_ins: self.cur_ins },
            );
        }
        self.funs.pop();
        self.stack.push(ret);
        Step::Next
    }

    /// `Yield`: pops the yielded value, records the current program counter
    /// and environment into the active function (so a later call resumes
    /// it there), restores the saved state exactly as `Return` does, pops
    /// the active function, and pushes the yielded value. Without an
    /// active function, yielding is a runtime error.
    pub fn op_yield(&mut self) -> (r: Step)
        requires
            old(self).wf(),
            old(self).balanced(),
        ensures
            final(self).wf(),
            final(self).balanced(),
            r is Next || r matches Step::Failed(_),
            (old(self).stack@.len() >= 1 && !(old(self).funs@.len() > 0 && old(self).heap.functions@[old(self).funs@.last() as int] is Regular)) ==> raised_with(
                *old(self),
                *final(self),
                r,
                old(self).stack@.drop_last(),
                -1,
                "Runtime exception: can not find function state"@,
            ),
            (old(self).stack@.len() >= 1 && old(self).funs@.len() > 0 && old(self).heap.functions@[old(self).funs@.last() as int] is Regular) ==> {
                let s = old(self).exec_stack@.last();
                let ret = old(self).stack@.last();
                let f = old(self).funs@.last() as int;
                &&& r is Next
                &&& final(self).stack@ == s.stack@.push(ret)
                &&& final(self).code@ == s.code@
                &&& final(self).env == s.env
                &&& final(self).pc == s.pc
                &&& final(self).m.constants@ == s.constants@
                &&& final(self).m.line_no@ == old(self).m.line_no@
                &&& final(self).exception_stack@ == old(self).exception_stack@
                &&& final(self).exec_stack@ == old(self).exec_stack@.drop_last()
                &&& final(self).funs@ == old(self).funs@.drop_last()
                &&& final(self).heap.objects@ == old(self).heap.objects@
                &&& final(self).heap.arrays@ == old(self).heap.arrays@
                &&& final(self).heap.iters@ == old(self).heap.iters@
                &&& final(self).heap.functions@.len() == old(self).heap.functions@.len()
                &&& forall|j: int|
                    0 <= j < old(self).heap.functions@.len() && j != f ==> final(self).heap.functions@[j] == old(self).heap.functions@[j]
                &&& (final(self).heap.functions@[f] matches Function::Regular(d2)
                    && old(self).heap.functions@[f] matches Function::Regular(d) && {
                    &&& d2.yield_pos == Some(old(self).pc)
                    &&& d2.yield_env == old(self).env
                    &&& d2.environment == d.environment
                    &&& d2.code@ == d.code@
                    &&& d2.addr == d.addr
                    &&& d2.args@ == d.args@
                    &&& d2.constants@ == d.constants@
                })
            },
    {
        let ret = match self.pop() {
            Result::Ok(v) => v,
            Result::Err(e) => {
                return self.raise(e);
            },
        };
        if self.funs.len() == 0 {
            return self.raise_msg(-1, "Runtime exception: can not find function state");
        }
        let f = self.funs[self.funs.len() - 1];
        proof {
            assert(crate::value::fun_wf(self.heap, self.heap.functions@[f as int]));
        }
        let is_reg = match &self.heap.functions[f] {
            Function::Regular(_) => true,
            Function::Native(_) => false,
        };
        if !is_reg {
            return self.raise_msg(-1, "Runtime exception: can not find function state");
        }
        let pc_now = self.pc;
        let env_now = self.env;
        let ghost h_mid = self.heap;
        match &mut self.heap.functions[f] {
            Function::Regular(d) => {
                d.yield_pos = Some(pc_now);
                d.yield_env = env_now;
            },
            Function::Native(_) => {},
        }
        proof {
            assert(crate::value::fun_wf(h_mid, self.heap.functions@[f as int]));
            lemma_wf_fun_update(h_mid, self.heap, f as int);
            lemma_frame_wf_heap_grow(
                Frame { heap: h_mid, stack: self.stack, ..*old(self) },
                Frame { heap: self.heap, stack: self.stack, ..*old(self) },
            );
        }
        self.restore_state();
        self.funs.pop();
        self.stack.push(ret);
        Step::Next
    }
}


/// Clones a vector of strings.
pub fn clone_strings(v: &Vec<String>) -> (r: Vec<String>)
    ensures
        r@ == v@,
{
    let r = v.clone();
    proof {
        assert forall|i: int| 0 <= i < v@.len() implies r@[i] == v@[i] by {
            assert(vstd::pervasive::cloned::<String>(v@[i], r@[i]));
        }
        assert(r@ =~= v@);
    }
    r
}

impl Frame {
    /// Enters a regular function: pushes it onto the active-function
    /// stack, saves the entire execution state, resumes at the recorded
    /// yield position with the recorded environment if the function is a
    /// suspended generator, else starts at its entry address with its
    /// captured environment; installs its code and constants, and binds the
    /// formal parameters, `_args` and `this` in the captured environment
    /// (overwriting existing bindings, declaring new ones).
    pub fn call_regular(&mut self, fh: usize, this: Value, args: Vec<Value>) -> (r: Step)
        requires
            old(self).wf(),
            old(self).balanced(),
            fh < old(self).heap.functions.len(),
            old(self).heap.functions@[fh as int] is Regular,
            value_wf(old(self).heap, this),
            vals_wf(old(self).heap, args@),
        ensures
            final(self).wf(),
            final(self).balanced(),
            r is Next,
            final(self).funs@ == old(self).funs@.push(fh),
            final(self).exec_stack@.len() == old(self).exec_stack@.len() + 1,
            forall|i: int|
                0 <= i < old(self).exec_stack@.len() ==> final(self).exec_stack@[i] == old(self).exec_stack@[i],
            ({
                let s = final(self).exec_stack@.last();
                &&& s.stack@ == old(self).stack@
                &&& s.code@ == old(self).code@
                &&& s.env == old(self).env
                &&& s.pc == old(self).pc
                &&& s.constants@ == old(self).m.constants@
            }),
            ({
                let d = old(self).heap.functions@[fh as int]->Regular_0;
                &&& final(self).code@ == d.code@
                &&& final(self).m.constants@ == d.constants@
                &&& final(self).env == (match d.yield_pos {
                    Some(_) => d.yield_env,
                    None => d.environment,
                })
                &&& final(self).pc == (match d.yield_pos {
                    Some(pos) => pos,
                    None => d.addr,
                })
            }),
            final(self).stack@ == old(self).stack@,
            final(self).exception_stack@ == old(self).exception_stack@,
            final(self).m.line_no@ == old(self).m.line_no@,
            final(self).heap.functions@ == old(self).heap.functions@,
            final(self).heap.iters@ == old(self).heap.iters@,
            final(self).heap.objects@.len() >= old(self).heap.objects@.len(),
    {
        self.funs.push(fh);
        self.save_state();
        proof {
            assert(crate::value::fun_wf(self.heap, self.heap.functions@[fh as int]));
        }
        let (d_env, d_addr, d_ypos, d_yenv) = match &self.heap.functions[fh] {
            Function::Regular(d) => (d.environment, d.addr, d.yield_pos, d.yield_env),
            Function::Native(_) => (0, 0, None, 0),
        };
        let d_code = match &self.heap.functions[fh] {
            Function::Regular(d) => clone_code(&d.code),
            Function::Native(_) => Vec::new(),
        };
        let d_consts = match &self.heap.functions[fh] {
            Function::Regular(d) => crate::algebra::clone_values(&d.constants),
            Function::Native(_) => Vec::new(),
        };
        let names = match &self.heap.functions[fh] {
            Function::Regular(d) => clone_strings(&d.args),
            Function::Native(_) => Vec::new(),
        };
        match d_ypos {
            Some(pos) => {
                self.pc = pos;
                self.env = d_yenv;
            },
            None => {
                self.pc = d_addr;
                self.env = d_env;
            },
        }
        self.code = d_code;
        self.m.constants = d_consts;
        let n = names.len();
        let mut i: usize = 0;
        while i < n
            invariant
                self.wf(),
                n == names@.len(),
                i <= n,
                fh < old(self).heap.functions.len(),
                old(self).heap.functions@[fh as int] is Regular,
                d_env == old(self).heap.functions@[fh as int]->Regular_0.environment,
                d_env < self.heap.objects.len(),
                value_wf(self.heap, this),
                vals_wf(self.heap, args@),
                self.heap.objects@.len() == old(self).heap.objects@.len(),
                self.heap.arrays@ == old(self).heap.arrays@,
                self.heap.functions@ == old(self).heap.functions@,
                self.heap.iters@ == old(self).heap.iters@,
                self.funs@ == old(self).funs@.push(fh),
                old(self).balanced(),
                self.exec_stack@.len() == old(self).exec_stack@.len() + 1,
                forall|j: int|
                    0 <= j < old(self).exec_stack@.len() ==> self.exec_stack@[j] == old(self).exec_stack@[j],
                ({
                    let s = self.exec_stack@.last();
                    &&& s.stack@ == old(self).stack@
                    &&& s.code@ == old(self).code@
                    &&& s.env == old(self).env
                    &&& s.pc == old(self).pc
                    &&& s.constants@ == old(self).m.constants@
                }),
                self.stack@ == old(self).stack@,
                self.exception_stack@ == old(self).exception_stack@,
                self.m.line_no@ == old(self).m.line_no@,
                ({
                    let d = old(self).heap.functions@[fh as int]->Regular_0;
                    &&& self.code@ == d.code@
                    &&& self.m.constants@ == d.constants@
                    &&& self.env == (match d.yield_pos {
                        Some(_) => d.yield_env,
                        None => d.environment,
                    })
                    &&& self.pc == (match d.yield_pos {
                        Some(pos) => pos,
                        None => d.addr,
                    })
                }),
            decreases n - i,
        {
            let key = Value::Str(names[i].clone());
            let val = if i < args.len() {
                args[i].clone()
            } else {
                Value::Undefined
            };
            let ghost h_pre = self.heap;
            proof {
                crate::scope::lemma_tbl_find_str(
                    self.heap,
                    self.heap.objects@[d_env as int].table@,
                    names@[i as int]@,
                    key,
                    0,
                    crate::equality::STRUCT_FUEL as nat,
                );
                crate::scope::lemma_chain_owner_str(
                    self.heap,
                    d_env as int,
                    names@[i as int]@,
                    key,
                    crate::equality::STRUCT_FUEL as nat,
                );
            }
            let declared = match crate::scope::var_declared(
                &self.heap,
                d_env,
                &key,
                crate::equality::STRUCT_FUEL,
            ) {
                Result::Ok(b) => b,
                Result::Err(_) => {
                    proof {
                        assert(false);
                    }
                    return self.raise_depth();
                },
            };
            let res = if declared {
                crate::scope::set_variable_in_scope(
                    &mut self.heap,
                    d_env,
                    &key,
                    val,
                    crate::equality::STRUCT_FUEL,
                )
            } else {
                crate::scope::declare_var(
                    &mut self.heap,
                    d_env,
                    key,
                    val,
                    crate::equality::STRUCT_FUEL,
                )
            };
            proof {
                lemma_vals_wf_mono(h_pre, self.heap, args@);
                crate::value::lemma_value_wf_mono(h_pre, self.heap, this);
                lemma_frame_wf_heap_grow_fields(
                    Frame {
                        heap: h_pre,
                        stack: self.stack,
                        funs: self.funs,
                        exec_stack: self.exec_stack,
                        m: self.m,
                        code: self.code,
                        env: self.env,
                        pc: self.pc,
                        exception_stack: self.exception_stack,
                        cur_ins: self.cur_ins,
                    },
                    *self,
                );
            }
            match res {
                Result::Ok(()) => {},
                Result::Err(_) => {
                    proof {
                        assert(false);
                    }
                    return self.raise_depth();
                },
            }
            i = i + 1;
        }
        // _args: an array of all passed arguments
        let ghost h_pre2 = self.heap;
        let ai = self.heap.alloc_array(args);
        proof {
            crate::value::lemma_value_wf_mono(h_pre2, self.heap, this);
            lemma_frame_wf_heap_grow_fields(
                Frame {
                    heap: h_pre2,
                    stack: self.stack,
                    funs: self.funs,
                    exec_stack: self.exec_stack,
                    m: self.m,
                    code: self.code,
                    env: self.env,
                    pc: self.pc,
                    exception_stack: self.exception_stack,
                    cur_ins: self.cur_ins,
                },
                *self,
            );
        }
        let extras: [(&str, Value); 2] = [("_args", Value::Array(ai)), ("this", this)];
        let mut k: usize = 0;
        while k < 2
            invariant
                self.wf(),
                k <= 2,
                fh < old(self).heap.functions.len(),
                old(self).heap.functions@[fh as int] is Regular,
                d_env == old(self).heap.functions@[fh as int]->Regular_0.environment,
                d_env < self.heap.objects.len(),
                value_wf(self.heap, extras@[0].1),
                value_wf(self.heap, extras@[1].1),
                self.heap.functions@ == old(self).heap.functions@,
                self.heap.iters@ == old(self).heap.iters@,
                self.heap.objects@.len() >= old(self).heap.objects@.len(),
                self.funs@ == old(self).funs@.push(fh),
                old(self).balanced(),
                self.exec_stack@.len() == old(self).exec_stack@.len() + 1,
                forall|j: int|
                    0 <= j < old(self).exec_stack@.len() ==> self.exec_stack@[j] == old(self).exec_stack@[j],
                ({
                    let s = self.exec_stack@.last();
                    &&& s.stack@ == old(self).stack@
                    &&& s.code@ == old(self).code@
                    &&& s.env == old(self).env
                    &&& s.pc == old(self).pc
                    &&& s.constants@ == old(self).m.constants@
                }),
                self.stack@ == old(self).stack@,
                self.exception_stack@ == old(self).exception_stack@,
                self.m.line_no@ == old(self).m.line_no@,
                ({
                    let d = old(self).heap.functions@[fh as int]->Regular_0;
                    &&& self.code@ == d.code@
                    &&& self.m.constants@ == d.constants@
                    &&& self.env == (match d.yield_pos {
                        Some(_) => d.yield_env,
                        None => d.environment,
                    })
                    &&& self.pc == (match d.yield_pos {
                        Some(pos) => pos,
                        None => d.addr,
                    })
                }),
            decreases 2 - k,
        {
            let key = Value::Str(String::from_str(extras[k].0));
            let val = extras[k].1.clone();
            let ghost h_pre = self.heap;
            proof {
                crate::scope::lemma_tbl_find_str(
                    self.heap,
                    self.heap.objects@[d_env as int].table@,
                    extras@[k as int].0@,
                    key,
                    0,
                    crate::equality::STRUCT_FUEL as nat,
                );
                crate::scope::lemma_chain_owner_str(
                    self.heap,
                    d_env as int,
                    extras@[k as int].0@,
                    key,
                    crate::equality::STRUCT_FUEL as nat,
                );
            }
            let declared = match crate::scope::var_declared(
                &self.heap,
                d_env,
                &key,
                crate::equality::STRUCT_FUEL,
            ) {
                Result::Ok(b) => b,
                Result::Err(_) => {
                    proof {
                        assert(false);
                    }
                    return self.raise_depth();
                },
            };
            let res = if declared {
                crate::scope::set_variable_in_scope(
                    &mut self.heap,
                    d_env,
                    &key,
                    val,
                    crate::equality::STRUCT_FUEL,
                )
            } else {
                crate::scope::declare_var(
                    &mut self.heap,
                    d_env,
                    key,
                    val,
                    crate::equality::STRUCT_FUEL,
                )
            };
            proof {
                crate::value::lemma_value_wf_mono(h_pre, self.heap, extras@[0].1);
                crate::value::lemma_value_wf_mono(h_pre, self.heap, extras@[1].1);
                lemma_frame_wf_heap_grow_fields(
                    Frame {
                        heap: h_pre,
                        stack: self.stack,
                        funs: self.funs,
                        exec_stack: self.exec_stack,
                        m: self.m,
                        code: self.code,
                        env: self.env,
                        pc: self.pc,
                        exception_stack: self.exception_stack,
                        cur_ins: self.cur_ins,
                    },
                    *self,
                );
            }
            match res {
                Result::Ok(()) => {},
                Result::Err(_) => {
                    proof {
                        assert(false);
                    }
                    return self.raise_depth();
                },
            }
            k = k + 1;
        }
        Step::Next
    }

    /// `Call(argc)`: pops the callee, then `this`, then `argc` arguments.
    /// A native callee is handed to the host; a regular callee is entered
    /// through the save/restore protocol; a non-function is a runtime
    /// error.
    pub fn op_call(&mut self, argc: usize) -> (r: Step)
        requires
            old(self).wf(),
            old(self).balanced(),
        ensures
            final(self).wf(),
            final(self).balanced(),
            !(r is Done) && !(r is EnvFault) && !(r is Thrown),
            final(self).m.line_no@ == old(self).m.line_no@,
            old(self).stack@.len() >= argc + 2 ==> {
                let n = old(self).stack@.len() as int;
                let callee = old(self).stack@[n - 1];
                let this = old(self).stack@[n - 2];
                match callee {
                    Value::Function(f) => match old(self).heap.functions@[f as int] {
                        Function::Native(id) => (r matches Step::NativeCall {
                            fun,
                            this: t2,
                            args,
                        } && {
                            &&& fun == id
                            &&& t2 == this
                            &&& args@.len() == argc
                            &&& forall|j: int| 0 <= j < argc ==> args@[j] == old(self).stack@[n - 3 - j]
                            &&& final(self).stack@ == old(self).stack@.subrange(0, n - 2 - argc)
                            &&& final(self).heap == old(self).heap
                            &&& final(self).funs@ == old(self).funs@
                            &&& final(self).exec_stack@ == old(self).exec_stack@
                            &&& final(self).exception_stack@ == old(self).exception_stack@
                            &&& final(self).env == old(self).env
                            &&& final(self).code@ == old(self).code@
                            &&& final(self).m.constants@ == old(self).m.constants@
                            &&& final(self).pc == old(self).pc
                        }),
                        Function::Regular(d) => {
                            &&& r is Next
                            &&& final(self).funs@ == old(self).funs@.push(f as usize)
                            &&& final(self).exec_stack@.len() == old(self).exec_stack@.len() + 1
                            &&& ({
                                let s = final(self).exec_stack@.last();
                                &&& s.stack@ == old(self).stack@.subrange(0, n - 2 - argc)
                                &&& s.code@ == old(self).code@
                                &&& s.env == old(self).env
                                &&& s.pc == old(self).pc
                                &&& s.constants@ == old(self).m.constants@
                            })
                            &&& final(self).code@ == d.code@
                            &&& final(self).m.constants@ == d.constants@
                            &&& final(self).env == (match d.yield_pos {
                                Some(_) => d.yield_env,
                                None => d.environment,
                            })
                            &&& final(self).pc == (match d.yield_pos {
                                Some(pos) => pos,
                                None => d.addr,
                            })
                            &&& final(self).stack@ == old(self).stack@.subrange(0, n - 2 - argc)
                            &&& final(self).exception_stack@ == old(self).exception_stack@
                            &&& final(self).heap.functions@ == old(self).heap.functions@
                        },
                    },
                    _ => raised_with(
                        *old(self),
                        *final(self),
                        r,
                        old(self).stack@.subrange(0, n - 2 - argc),
                        -1,
                        "Runtime exception: function expected"@,
                    ),
                }
            },
    {
        let function = match self.pop() {
            Result::Ok(v) => v,
            Result::Err(e) => {
                return self.raise(e);
            },
        };
        let this = match self.pop() {
            Result::Ok(v) => v,
            Result::Err(e) => {
                return self.raise(e);
            },
        };
        let mut args: Vec<Value> = Vec::new();
        let mut k: usize = 0;
        while k < argc
            invariant
                self.wf(),
                self.balanced(),
                k <= argc,
                args@.len() == k,
                value_wf(self.heap, this),
                vals_wf(self.heap, args@),
                old(self).stack@.len() >= argc + 2 ==> {
                    &&& self.heap == old(self).heap
                    &&& self.stack@ == old(self).stack@.subrange(
                        0,
                        old(self).stack@.len() - 2 - k,
                    )
                    &&& forall|j: int|
                        0 <= j < k ==> args@[j] == old(self).stack@[old(self).stack@.len() - 3 - j]
                    &&& this == old(self).stack@[old(self).stack@.len() - 2]
                },
                self.funs@ == old(self).funs@,
                self.exec_stack@ == old(self).exec_stack@,
                self.exception_stack@ == old(self).exception_stack@,
                self.code@ == old(self).code@,
                self.m.constants@ == old(self).m.constants@,
                self.m.line_no@ == old(self).m.line_no@,
                self.env == old(self).env,
                self.pc == old(self).pc,
                self.heap.functions@ == old(self).heap.functions@,
            decreases argc - k,
        {
            let a = match self.pop() {
                Result::Ok(v) => v,
                Result::Err(e) => {
                    return self.raise(e);
                },
            };
            args.push(a);
            proof {
                if old(self).stack@.len() >= argc + 2 {
                    assert(self.stack@ =~= old(self).stack@.subrange(
                        0,
                        old(self).stack@.len() - 2 - (k + 1),
                    ));
                }
            }
            k = k + 1;
        }
        match function {
            Value::Function(f) => {
                proof {
                    assert(crate::value::fun_wf(self.heap, self.heap.functions@[f as int]));
                }
                let is_native = match &self.heap.functions[f] {
                    Function::Native(id) => Some(*id),
                    Function::Regular(_) => None,
                };
                match is_native {
                    Some(id) => Step::NativeCall { fun: id, this, args },
                    None => self.call_regular(f, this, args),
                }
            },
            _ => self.raise_msg(-1, "Runtime exception: function expected"),
        }
    }

    /// `Apply`: pops the callee, then an array holding all arguments, and
    /// calls the callee with `this` bound to `Nil`.
    pub fn op_apply(&mut self) -> (r: Step)
        requires
            old(self).wf(),
            old(self).balanced(),
        ensures
            final(self).wf(),
            final(self).balanced(),
            !(r is Done) && !(r is EnvFault) && !(r is Thrown),
            final(self).m.line_no@ == old(self).m.line_no@,
            old(self).stack@.len() >= 2 ==> {
                let n = old(self).stack@.len() as int;
                let callee = old(self).stack@[n - 1];
                let av = old(self).stack@[n - 2];
                let rest = old(self).stack@.drop_last().drop_last();
                match av {
                    Value::Array(a) => {
                        let args_seq = old(self).heap.arrays@[a as int]@;
                        match callee {
                            Value::Function(f) => match old(self).heap.functions@[f as int] {
                                Function::Native(id) => (r matches Step::NativeCall {
                                    fun,
                                    this,
                                    args,
                                } && {
                                    &&& fun == id
                                    &&& this == Value::Nil
                                    &&& args@ == args_seq
                                    &&& final(self).stack@ == rest
                                    &&& final(self).heap == old(self).heap
                                }),
                                Function::Regular(d) => {
                                    &&& r is Next
                                    &&& final(self).funs@ == old(self).funs@.push(f as usize)
                                    &&& final(self).exec_stack@.len() == old(
                                        self,
                                    ).exec_stack@.len() + 1
                                    &&& ({
                                        let s = final(self).exec_stack@.last();
                                        &&& s.stack@ == rest
                                        &&& s.code@ == old(self).code@
                                        &&& s.env == old(self).env
                                        &&& s.pc == old(self).pc
                                        &&& s.constants@ == old(self).m.constants@
                                    })
                                    &&& final(self).code@ == d.code@
                                    &&& final(self).m.constants@ == d.constants@
                                    &&& final(self).env == (match d.yield_pos {
                                        Some(_) => d.yield_env,
                                        None => d.environment,
                                    })
                                    &&& final(self).pc == (match d.yield_pos {
                                        Some(pos) => pos,
                                        None => d.addr,
                                    })
                                    &&& final(self).stack@ == rest
                                    &&& final(self).exception_stack@ == old(self).exception_stack@
                                    &&& final(self).heap.functions@ == old(self).heap.functions@
                                },
                            },
                            _ => raised_with(
                                *old(self),
                                *final(self),
                                r,
                                rest,
                                -1,
                                "Runtime exception: function expected"@,
                            ),
                        }
                    },
                    _ => raised_with(
                        *old(self),
                        *final(self),
                        r,
                        rest,
                        -1,
                        "Runtime exception: Array expected in apply"@,
                    ),
                }
            },
    {
        let function = match self.pop() {
            Result::Ok(v) => v,
            Result::Err(e) => {
                return self.raise(e);
            },
        };
        let args_val = match self.pop() {
            Result::Ok(v) => v,
            Result::Err(e) => {
                return self.raise(e);
            },
        };
        let args = match args_val {
            Value::Array(a) => {
                proof {
                    assert(vals_wf(self.heap, self.heap.arrays@[a as int]@));
                }
                crate::algebra::clone_values(&self.heap.arrays[a])
            },
            _ => {
                return self.raise_msg(-1, "Runtime exception: Array expected in apply");
            },
        };
        match function {
            Value::Function(f) => {
                proof {
                    assert(crate::value::fun_wf(self.heap, self.heap.functions@[f as int]));
                }
                let is_native = match &self.heap.functions[f] {
                    Function::Native(id) => Some(*id),
                    Function::Regular(_) => None,
                };
                match is_native {
                    Some(id) => Step::NativeCall { fun: id, this: Value::Nil, args },
                    None => self.call_regular(f, Value::Nil, args),
                }
            },
            _ => self.raise_msg(-1, "Runtime exception: function expected"),
        }
    }
}


/// `f2` is `f1` after one dispatch that changed only the program counter
/// and the operand stack (and the remembered current instruction).
pub open spec fn frame_stepped(f1: Frame, f2: Frame, newpc: int, newstack: Seq<Value>) -> bool {
    &&& f2.pc == newpc
    &&& f2.stack@ == newstack
    &&& f2.heap == f1.heap
    &&& f2.env == f1.env
    &&& f2.code@ == f1.code@
    &&& f2.funs@ == f1.funs@
    &&& f2.exec_stack@ == f1.exec_stack@
    &&& f2.exception_stack@ == f1.exception_stack@
    &&& f2.m.constants@ == f1.m.constants@
    &&& f2.m.line_no@ == f1.m.line_no@
}

/// The full effect of one dispatch of the instruction at `f1.pc`: what the
/// dispatcher guarantees of the state `f2` and result `r` of [`Frame::step`]
/// on `f1`. A normal halt leaves the save-stack and the active-function
/// stack empty; `Label` changes nothing but the advancing program counter;
/// each opcode's arm pins its whole transition (the stack and jump
/// primitives and operators directly, the protocol opcodes in the same
/// terms as their handlers). Marked opaque so that chains of steps can be
/// reasoned about without unfolding every arm; `reveal(step_ok)` opens it.
#[verifier::opaque]
pub open spec fn step_ok(f1: Frame, f2: Frame, r: Step) -> bool {
    &&& r is Done ==> f2.exec_stack@.len() == 0 && f2.funs@.len() == 0
    &&& f1.code@[f1.pc as int] is Label ==> r is Next && frame_stepped(
                f1,
                f2,
                f1.pc + 1,
                f1.stack@,
            )
    &&& ({
                let op = f1.code@[f1.pc as int];
                let pc1 = f1.pc + 1;
                let s0 = f1.stack@;
                match op {
                    Opcode::LoadInt(v) => r is Next && frame_stepped(
                        f1,
                        f2,
                        pc1,
                        s0.push(Value::Number(v)),
                    ),
                    Opcode::LoadTrue => r is Next && frame_stepped(
                        f1,
                        f2,
                        pc1,
                        s0.push(Value::Bool(true)),
                    ),
                    Opcode::LoadFalse => r is Next && frame_stepped(
                        f1,
                        f2,
                        pc1,
                        s0.push(Value::Bool(false)),
                    ),
                    Opcode::LoadNil => r is Next && frame_stepped(
                        f1,
                        f2,
                        pc1,
                        s0.push(Value::Nil),
                    ),
                    Opcode::LoadUndef => r is Next && frame_stepped(
                        f1,
                        f2,
                        pc1,
                        s0.push(Value::Undefined),
                    ),
                    Opcode::LoadConst(i) => i < f1.m.constants@.len() ==> r is Next
                        && frame_stepped(
                        f1,
                        f2,
                        pc1,
                        s0.push(f1.m.constants@[i as int]),
                    ),
                    Opcode::Dup => r is Next && frame_stepped(
                        f1,
                        f2,
                        pc1,
                        if s0.len() > 0 {
                            s0.push(s0.last())
                        } else {
                            s0.push(Value::Undefined).push(Value::Undefined)
                        },
                    ),
                    Opcode::Jump(t) => r is Next && frame_stepped(
                        f1,
                        f2,
                        t as int,
                        s0,
                    ),
                    Opcode::JumpIf(t) => s0.len() > 0 ==> r is Next && frame_stepped(
                        f1,
                        f2,
                        if crate::algebra::truthy(s0.last()) {
                            t as int
                        } else {
                            pc1
                        },
                        s0.drop_last(),
                    ),
                    Opcode::JumpIfFalse(t) => s0.len() > 0 ==> r is Next && frame_stepped(
                        f1,
                        f2,
                        if crate::algebra::truthy(s0.last()) {
                            pc1
                        } else {
                            t as int
                        },
                        s0.drop_last(),
                    ),
                    Opcode::PushCatch(addr) => {
                        &&& r is Next
                        &&& f2.exception_stack@ == f1.exception_stack@.push(addr)
                        &&& f2.pc == pc1
                        &&& f2.stack@ == s0
                        &&& f2.heap == f1.heap
                        &&& f2.env == f1.env
                        &&& f2.exec_stack@ == f1.exec_stack@
                        &&& f2.funs@ == f1.funs@
                        &&& f2.code@ == f1.code@
                        &&& f2.m.constants@ == f1.m.constants@
                        &&& f2.m.line_no@ == f1.m.line_no@
                    },
                    Opcode::PopCatch => {
                        &&& r is Next
                        &&& f2.exception_stack@ == (if f1.exception_stack@.len() > 0 {
                            f1.exception_stack@.drop_last()
                        } else {
                            f1.exception_stack@
                        })
                        &&& f2.pc == pc1
                        &&& f2.stack@ == s0
                        &&& f2.heap == f1.heap
                        &&& f2.env == f1.env
                        &&& f2.exec_stack@ == f1.exec_stack@
                        &&& f2.funs@ == f1.funs@
                        &&& f2.code@ == f1.code@
                        &&& f2.m.constants@ == f1.m.constants@
                        &&& f2.m.line_no@ == f1.m.line_no@
                    },
                    Opcode::Throw => {
                        let payload = if s0.len() > 0 {
                            s0.last()
                        } else {
                            Value::Undefined
                        };
                        let rest = if s0.len() > 0 {
                            s0.drop_last()
                        } else {
                            s0
                        };
                        if f1.exception_stack@.len() > 0 {
                            &&& r is Next
                            &&& f2.pc == f1.exception_stack@.last()
                            &&& f2.exception_stack@ == f1.exception_stack@.drop_last()
                            &&& f2.stack@ == rest.push(payload)
                            &&& f2.heap == f1.heap
                            &&& f2.env == f1.env
                        } else {
                            &&& r == Step::Thrown(payload)
                            &&& f2.stack@ == rest
                            &&& f2.heap == f1.heap
                        }
                    },
                    Opcode::PushEnv => {
                        &&& r is Next
                        &&& f2.pc == pc1
                        &&& f2.stack@ == s0
                        &&& f2.env == f1.heap.objects@.len()
                        &&& f2.heap.objects@.len() == f1.heap.objects@.len() + 1
                        &&& objects_extended(f1.heap, f2.heap)
                        &&& f2.heap.objects@.last().proto == Some(f1.env)
                        &&& f2.heap.objects@.last().table@.len() == 0
                        &&& same_except_objects(f1.heap, f2.heap)
                    },
                    Opcode::PopEnv => match f1.heap.objects@[f1.env as int].proto {
                        Some(p) => {
                            &&& r is Next
                            &&& f2.env == p
                            &&& f2.pc == pc1
                            &&& f2.stack@ == s0
                            &&& f2.heap == f1.heap
                        },
                        None => r is EnvFault,
                    },
                    Opcode::Add | Opcode::Sub | Opcode::Mul | Opcode::Div | Opcode::Rem
                        | Opcode::Shl | Opcode::Shr | Opcode::BitAnd | Opcode::BitOr
                        | Opcode::BitXor | Opcode::And | Opcode::Or | Opcode::Gt | Opcode::Ge
                        | Opcode::Lt | Opcode::Le | Opcode::Eq | Opcode::Ne => s0.len() >= 2
                        ==> {
                        let a = s0[s0.len() - 2];
                        let b = s0.last();
                        let rest = s0.drop_last().drop_last();
                        match crate::algebra::binop_res(
                            f1.heap,
                            op,
                            a,
                            b,
                            crate::equality::STRUCT_FUEL as nat,
                        ) {
                            crate::algebra::BinRes::Val(v) => r is Next && frame_stepped(
                                f1,
                                f2,
                                pc1,
                                rest.push(v),
                            ),
                            crate::algebra::BinRes::StrVal(t) => {
                                &&& r is Next
                                &&& f2.pc == pc1
                                &&& f2.stack@.len() == rest.len() + 1
                                &&& f2.stack@.drop_last() == rest
                                &&& crate::scope::is_str_val(f2.stack@.last(), t)
                                &&& f2.heap == f1.heap
                            },
                            crate::algebra::BinRes::NewArr(elems) => {
                                &&& r is Next
                                &&& f2.pc == pc1
                                &&& f2.stack@ == rest.push(
                                    Value::Array(f1.heap.arrays@.len() as usize),
                                )
                                &&& f2.heap.arrays@.len() == f1.heap.arrays@.len() + 1
                                &&& f2.heap.arrays@[f1.heap.arrays@.len() as int]@
                                    == elems
                                &&& f2.heap.objects@ == f1.heap.objects@
                            },
                            crate::algebra::BinRes::Fault => true,
                        }
                    },
                    Opcode::Not => s0.len() >= 1 ==> r is Next && frame_stepped(
                        f1,
                        f2,
                        pc1,
                        s0.drop_last().push(crate::algebra::not_val(s0.last())),
                    ),
                    Opcode::Neg => s0.len() >= 1 ==> r is Next && frame_stepped(
                        f1,
                        f2,
                        pc1,
                        s0.drop_last().push(crate::algebra::neg_val(s0.last())),
                    ),
                    Opcode::RefEq => s0.len() >= 2 ==> r is Next && frame_stepped(
                        f1,
                        f2,
                        pc1,
                        s0.drop_last().drop_last().push(
                            Value::Bool(crate::algebra::ref_eq(s0.last(), s0[s0.len() - 2])),
                        ),
                    ),
                    Opcode::RefNeq => s0.len() >= 2 ==> r is Next && frame_stepped(
                        f1,
                        f2,
                        pc1,
                        s0.drop_last().drop_last().push(
                            Value::Bool(!crate::algebra::ref_eq(s0.last(), s0[s0.len() - 2])),
                        ),
                    ),
                    Opcode::LoadVar(name) => match crate::scope::str_chain_get(
                        f1.heap,
                        f1.env as int,
                        name@,
                    ) {
                        Some(v) => r is Next && frame_stepped(
                            f1,
                            f2,
                            pc1,
                            s0.push(v),
                        ),
                        None => true,
                    },
                    Opcode::NewObj => {
                        &&& r is Next
                        &&& f2.pc == pc1
                        &&& f2.stack@ == s0.push(
                            Value::Object(f1.heap.objects@.len() as usize),
                        )
                        &&& f2.heap.objects@.len() == f1.heap.objects@.len() + 1
                        &&& objects_extended(f1.heap, f2.heap)
                        &&& f2.heap.objects@.last().proto is None
                        &&& f2.heap.objects@.last().table@.len() == 0
                        &&& same_except_objects(f1.heap, f2.heap)
                        &&& f2.env == f1.env
                        &&& f2.funs@ == f1.funs@
                        &&& f2.exec_stack@ == f1.exec_stack@
                        &&& f2.exception_stack@ == f1.exception_stack@
                        &&& f2.code@ == f1.code@
                        &&& f2.m.constants@ == f1.m.constants@
                        &&& f2.m.line_no@ == f1.m.line_no@
                    },
                    Opcode::ConstructArray(count) => s0.len() >= count ==> {
                        &&& r is Next
                        &&& f2.pc == pc1
                        &&& f2.stack@ == s0.subrange(0, s0.len() - count).push(
                            Value::Array(f1.heap.arrays@.len() as usize),
                        )
                        &&& f2.heap.arrays@.len() == f1.heap.arrays@.len() + 1
                        &&& f2.heap.arrays@.last()@.len() == count
                        &&& forall|j: int|
                            0 <= j < count ==> f2.heap.arrays@.last()@[j] == s0[s0.len()
                                - 1 - j]
                        &&& f2.heap.objects@ == f1.heap.objects@
                        &&& f2.heap.functions@ == f1.heap.functions@
                        &&& f2.heap.iters@ == f1.heap.iters@
                        &&& f2.env == f1.env
                        &&& f2.funs@ == f1.funs@
                        &&& f2.exec_stack@ == f1.exec_stack@
                        &&& f2.exception_stack@ == f1.exception_stack@
                        &&& f2.code@ == f1.code@
                        &&& f2.m.constants@ == f1.m.constants@
                        &&& f2.m.line_no@ == f1.m.line_no@
                    },
                    Opcode::DeclVar(name) => s0.len() >= 1 ==> {
                        let val = s0.last();
                        let e = f1.env as int;
                        let t = f1.heap.objects@[e].table@;
                        &&& r is Next
                        &&& f2.stack@ == s0.drop_last()
                        &&& f2.pc == pc1
                        &&& f2.env == f1.env
                        &&& f2.exception_stack@ == f1.exception_stack@
                        &&& f2.funs@ == f1.funs@
                        &&& f2.exec_stack@ == f1.exec_stack@
                        &&& f2.code@ == f1.code@
                        &&& f2.m.constants@ == f1.m.constants@
                        &&& f2.m.line_no@ == f1.m.line_no@
                        &&& objects_same_except(f1.heap, f2.heap, e)
                        &&& same_except_objects(f1.heap, f2.heap)
                        &&& f2.heap.objects@[e].proto == f1.heap.objects@[e].proto
                        &&& match crate::scope::str_key_find(t, name@, 0) {
                            Some(i) => f2.heap.objects@[e].table@ == t.update(i, (t[i].0, val)),
                            None => {
                                &&& f2.heap.objects@[e].table@.len() == t.len() + 1
                                &&& f2.heap.objects@[e].table@.drop_last() == t
                                &&& crate::scope::is_str_val(
                                    f2.heap.objects@[e].table@.last().0,
                                    name@,
                                )
                                &&& f2.heap.objects@[e].table@.last().1 == val
                            },
                        }
                    },
                    Opcode::StoreVar(name) => s0.len() >= 1 ==> {
                        let val = s0.last();
                        &&& f2.funs@ == f1.funs@
                        &&& f2.exec_stack@ == f1.exec_stack@
                        &&& f2.env == f1.env
                        &&& f2.code@ == f1.code@
                        &&& f2.m.constants@ == f1.m.constants@
                        &&& f2.m.line_no@ == f1.m.line_no@
                        &&& match crate::scope::str_chain_owner(f1.heap, f1.env as int, name@) {
                            Some((o, i)) => {
                                &&& r is Next
                                &&& f2.stack@ == s0.drop_last()
                                &&& 0 <= o < f1.heap.objects@.len()
                                &&& 0 <= i < f1.heap.objects@[o].table@.len()
                                &&& f2.heap.objects@[o].table@ == f1.heap.objects@[o].table@.update(
                                    i,
                                    (f1.heap.objects@[o].table@[i].0, val),
                                )
                                &&& f2.heap.objects@[o].proto == f1.heap.objects@[o].proto
                                &&& objects_same_except(f1.heap, f2.heap, o)
                                &&& same_except_objects(f1.heap, f2.heap)
                                &&& f2.pc == pc1
                                &&& f2.exception_stack@ == f1.exception_stack@
                            },
                            None => raised_with(
                                (Frame { pc: (f1.pc + 1) as usize, ..f1 }),
                                f2,
                                r,
                                s0.drop_last(),
                                0,
                                "Variable '"@ + name@ + "' not declared"@,
                            ),
                        }
                    },
                    Opcode::Load => s0.len() >= 2 ==> {
                        let key = s0.last();
                        let target = s0[s0.len() - 2];
                        let rest = s0.drop_last().drop_last();
                        &&& f2.funs@ == f1.funs@
                        &&& f2.exec_stack@ == f1.exec_stack@
                        &&& f2.env == f1.env
                        &&& f2.code@ == f1.code@
                        &&& f2.m.constants@ == f1.m.constants@
                        &&& f2.m.line_no@ == f1.m.line_no@
                        &&& match crate::scope::prop_get(
                            f1.heap,
                            target,
                            key,
                            crate::equality::STRUCT_FUEL as nat,
                        ) {
                            crate::scope::GetRes::Hit(v) => {
                                &&& r is Next
                                &&& f2.stack@ == rest.push(v)
                                &&& f2.heap == f1.heap
                                &&& f2.pc == pc1
                                &&& f2.exception_stack@ == f1.exception_stack@
                            },
                            crate::scope::GetRes::OutOfRange => raised_with(
                                (Frame { pc: (f1.pc + 1) as usize, ..f1 }),
                                f2,
                                r,
                                rest,
                                -1,
                                "Runtime exception: array index out of range"@,
                            ),
                            crate::scope::GetRes::Fault => raised_with(
                                (Frame { pc: (f1.pc + 1) as usize, ..f1 }),
                                f2,
                                r,
                                rest,
                                -1,
                                "Runtime exception: value nesting too deep"@,
                            ),
                        }
                    },
                    Opcode::Store => s0.len() >= 3 ==> {
                        let val = s0.last();
                        let key = s0[s0.len() - 2];
                        let target = s0[s0.len() - 3];
                        let rest = s0.drop_last().drop_last().drop_last();
                        &&& f2.funs@ == f1.funs@
                        &&& f2.exec_stack@ == f1.exec_stack@
                        &&& f2.env == f1.env
                        &&& f2.code@ == f1.code@
                        &&& f2.m.constants@ == f1.m.constants@
                        &&& f2.m.line_no@ == f1.m.line_no@
                        &&& match crate::scope::prop_set_plan(
                            f1.heap,
                            target,
                            key,
                            val,
                            crate::equality::STRUCT_FUEL as nat,
                        ) {
                            crate::scope::SetPlan::Obj { x, t2 } => {
                                &&& r is Next
                                &&& f2.stack@ == rest
                                &&& f2.heap.objects@[x].table@ == t2
                                &&& f2.heap.objects@[x].proto == f1.heap.objects@[x].proto
                                &&& objects_same_except(f1.heap, f2.heap, x)
                                &&& same_except_objects(f1.heap, f2.heap)
                                &&& f2.pc == pc1
                                &&& f2.exception_stack@ == f1.exception_stack@
                            },
                            crate::scope::SetPlan::Arr { a, ix } => {
                                &&& r is Next
                                &&& f2.stack@ == rest
                                &&& f2.heap.arrays@[a]@ == f1.heap.arrays@[a]@.update(ix, val)
                                &&& f2.heap.arrays@.len() == f1.heap.arrays@.len()
                                &&& f2.heap.objects@ == f1.heap.objects@
                                &&& f2.heap.functions@ == f1.heap.functions@
                                &&& f2.heap.iters@ == f1.heap.iters@
                                &&& f2.pc == pc1
                                &&& f2.exception_stack@ == f1.exception_stack@
                            },
                            crate::scope::SetPlan::Noop => {
                                &&& r is Next
                                &&& f2.stack@ == rest
                                &&& f2.heap == f1.heap
                                &&& f2.pc == pc1
                                &&& f2.exception_stack@ == f1.exception_stack@
                            },
                            crate::scope::SetPlan::OutOfRange => raised_with(
                                (Frame { pc: (f1.pc + 1) as usize, ..f1 }),
                                f2,
                                r,
                                rest,
                                -1,
                                "Runtime exception: array index out of range"@,
                            ),
                            crate::scope::SetPlan::Fault => raised_with(
                                (Frame { pc: (f1.pc + 1) as usize, ..f1 }),
                                f2,
                                r,
                                rest,
                                -1,
                                "Runtime exception: value nesting too deep"@,
                            ),
                        }
                    },
                    Opcode::InitEnv => s0.len() >= 1 ==> {
                        &&& f2.funs@ == f1.funs@
                        &&& f2.exec_stack@ == f1.exec_stack@
                        &&& f2.env == f1.env
                        &&& f2.code@ == f1.code@
                        &&& f2.m.constants@ == f1.m.constants@
                        &&& f2.m.line_no@ == f1.m.line_no@
                        &&& match s0.last() {
                            Value::Function(f) => match f1.heap.functions@[f as int] {
                                Function::Regular(d) => {
                                    &&& r is Next
                                    &&& f2.stack@ == s0.drop_last().push(Value::Function(f))
                                    &&& f2.pc == pc1
                                    &&& f2.exception_stack@ == f1.exception_stack@
                                    &&& f2.heap.objects@.len() == f1.heap.objects@.len() + 1
                                    &&& objects_extended(f1.heap, f2.heap)
                                    &&& f2.heap.objects@.last().proto == Some(f1.env)
                                    &&& f2.heap.objects@.last().table@.len() == 0
                                    &&& f2.heap.arrays@ == f1.heap.arrays@
                                    &&& f2.heap.iters@ == f1.heap.iters@
                                    &&& f2.heap.functions@.len() == f1.heap.functions@.len()
                                    &&& forall|j: int|
                                        0 <= j < f1.heap.functions@.len() && j != f ==> f2.heap.functions@[j] == f1.heap.functions@[j]
                                    &&& (f2.heap.functions@[f as int] matches Function::Regular(d2)
                                        && {
                                        &&& d2.environment == f1.heap.objects@.len()
                                        &&& d2.constants@ == f1.m.constants@
                                        &&& d2.code@ == d.code@
                                        &&& d2.addr == d.addr
                                        &&& d2.yield_pos == d.yield_pos
                                        &&& d2.yield_env == d.yield_env
                                        &&& d2.args@ == d.args@
                                    })
                                },
                                Function::Native(_) => {
                                    &&& r is Next
                                    &&& f2.stack@ == s0.drop_last().push(Value::Function(f))
                                    &&& f2.heap == f1.heap
                                    &&& f2.pc == pc1
                                    &&& f2.exception_stack@ == f1.exception_stack@
                                },
                            },
                            _ => raised_with(
                                (Frame { pc: (f1.pc + 1) as usize, ..f1 }),
                                f2,
                                r,
                                s0.drop_last(),
                                -1,
                                "Runtime exception: function expected"@,
                            ),
                        }
                    },
                    Opcode::Call(argc) => s0.len() >= argc + 2 ==> {
                        let n = s0.len() as int;
                        let callee = s0[n - 1];
                        let this = s0[n - 2];
                        &&& f2.m.line_no@ == f1.m.line_no@
                        &&& match callee {
                            Value::Function(f) => match f1.heap.functions@[f as int] {
                                Function::Native(id) => (r matches Step::NativeCall {
                                    fun,
                                    this: t2,
                                    args,
                                } && {
                                    &&& fun == id
                                    &&& t2 == this
                                    &&& args@.len() == argc
                                    &&& forall|j: int| 0 <= j < argc ==> args@[j] == s0[n - 3 - j]
                                    &&& f2.stack@ == s0.subrange(0, n - 2 - argc)
                                    &&& f2.heap == f1.heap
                                    &&& f2.funs@ == f1.funs@
                                    &&& f2.exec_stack@ == f1.exec_stack@
                                    &&& f2.exception_stack@ == f1.exception_stack@
                                    &&& f2.env == f1.env
                                    &&& f2.code@ == f1.code@
                                    &&& f2.m.constants@ == f1.m.constants@
                                    &&& f2.pc == pc1
                                }),
                                Function::Regular(d) => {
                                    &&& r is Next
                                    &&& f2.funs@ == f1.funs@.push(f as usize)
                                    &&& f2.exec_stack@.len() == f1.exec_stack@.len() + 1
                                    &&& ({
                                        let sv = f2.exec_stack@.last();
                                        &&& sv.stack@ == s0.subrange(0, n - 2 - argc)
                                        &&& sv.code@ == f1.code@
                                        &&& sv.env == f1.env
                                        &&& sv.pc == pc1
                                        &&& sv.constants@ == f1.m.constants@
                                    })
                                    &&& f2.code@ == d.code@
                                    &&& f2.m.constants@ == d.constants@
                                    &&& f2.env == (match d.yield_pos {
                                        Some(_) => d.yield_env,
                                        None => d.environment,
                                    })
                                    &&& f2.pc == (match d.yield_pos {
                                        Some(pos) => pos,
                                        None => d.addr,
                                    })
                                    &&& f2.stack@ == s0.subrange(0, n - 2 - argc)
                                    &&& f2.exception_stack@ == f1.exception_stack@
                                    &&& f2.heap.functions@ == f1.heap.functions@
                                },
                            },
                            _ => raised_with(
                                (Frame { pc: (f1.pc + 1) as usize, ..f1 }),
                                f2,
                                r,
                                s0.subrange(0, n - 2 - argc),
                                -1,
                                "Runtime exception: function expected"@,
                            ),
                        }
                    },
                    Opcode::Apply => s0.len() >= 2 ==> {
                        let n = s0.len() as int;
                        let callee = s0[n - 1];
                        let av = s0[n - 2];
                        let rest = s0.drop_last().drop_last();
                        &&& f2.m.line_no@ == f1.m.line_no@
                        &&& match av {
                            Value::Array(a) => {
                                let args_seq = f1.heap.arrays@[a as int]@;
                                match callee {
                                    Value::Function(f) => match f1.heap.functions@[f as int] {
                                        Function::Native(id) => (r matches Step::NativeCall {
                                            fun,
                                            this,
                                            args,
                                        } && {
                                            &&& fun == id
                                            &&& this == Value::Nil
                                            &&& args@ == args_seq
                                            &&& f2.stack@ == rest
                                            &&& f2.heap == f1.heap
                                        }),
                                        Function::Regular(d) => {
                                            &&& r is Next
                                            &&& f2.funs@ == f1.funs@.push(f as usize)
                                            &&& f2.exec_stack@.len() == f1.exec_stack@.len() + 1
                                            &&& ({
                                                let sv = f2.exec_stack@.last();
                                                &&& sv.stack@ == rest
                                                &&& sv.code@ == f1.code@
                                                &&& sv.env == f1.env
                                                &&& sv.pc == pc1
                                                &&& sv.constants@ == f1.m.constants@
                                            })
                                            &&& f2.code@ == d.code@
                                            &&& f2.m.constants@ == d.constants@
                                            &&& f2.env == (match d.yield_pos {
                                                Some(_) => d.yield_env,
                                                None => d.environment,
                                            })
                                            &&& f2.pc == (match d.yield_pos {
                                                Some(pos) => pos,
                                                None => d.addr,
                                            })
                                            &&& f2.stack@ == rest
                                            &&& f2.exception_stack@ == f1.exception_stack@
                                            &&& f2.heap.functions@ == f1.heap.functions@
                                        },
                                    },
                                    _ => raised_with(
                                        (Frame { pc: (f1.pc + 1) as usize, ..f1 }),
                                        f2,
                                        r,
                                        rest,
                                        -1,
                                        "Runtime exception: function expected"@,
                                    ),
                                }
                            },
                            _ => raised_with(
                                (Frame { pc: (f1.pc + 1) as usize, ..f1 }),
                                f2,
                                r,
                                rest,
                                -1,
                                "Runtime exception: Array expected in apply"@,
                            ),
                        }
                    },
                    Opcode::Return => {
                        if f1.exec_stack@.len() == 0 {
                            &&& r is Done
                            &&& f2.exec_stack@.len() == 0
                            &&& f2.funs@.len() == 0 || !f1.balanced()
                            &&& f2.stack@ == (if s0.len() > 0 {
                                s0.drop_last()
                            } else {
                                s0
                            })
                            &&& f2.heap == f1.heap
                            &&& f2.env == f1.env
                            &&& f2.code@ == f1.code@
                            &&& f2.pc == pc1
                            &&& f2.m.constants@ == f1.m.constants@
                            &&& f2.m.line_no@ == f1.m.line_no@
                            &&& f2.exception_stack@ == f1.exception_stack@
                        } else {
                            let sv = f1.exec_stack@.last();
                            let ret = if s0.len() > 0 {
                                s0.last()
                            } else {
                                Value::Undefined
                            };
                            let fi = f1.funs@.last() as int;
                            &&& r is Next
                            &&& f2.stack@ == sv.stack@.push(ret)
                            &&& f2.code@ == sv.code@
                            &&& f2.env == sv.env
                            &&& f2.pc == sv.pc
                            &&& f2.m.constants@ == sv.constants@
                            &&& f2.m.line_no@ == f1.m.line_no@
                            &&& f2.exception_stack@ == f1.exception_stack@
                            &&& f2.exec_stack@ == f1.exec_stack@.drop_last()
                            &&& f2.funs@ == f1.funs@.drop_last()
                            &&& f2.heap.objects@ == f1.heap.objects@
                            &&& f2.heap.arrays@ == f1.heap.arrays@
                            &&& f2.heap.iters@ == f1.heap.iters@
                            &&& f2.heap.functions@.len() == f1.heap.functions@.len()
                            &&& forall|j: int|
                                0 <= j < f1.heap.functions@.len() && j != fi ==> f2.heap.functions@[j] == f1.heap.functions@[j]
                            &&& match f1.heap.functions@[fi] {
                                Function::Regular(d) => (f2.heap.functions@[fi]
                                    matches Function::Regular(d2) && {
                                    &&& d2.yield_pos is None
                                    &&& d2.environment == d.environment
                                    &&& d2.yield_env == d.yield_env
                                    &&& d2.code@ == d.code@
                                    &&& d2.addr == d.addr
                                    &&& d2.args@ == d.args@
                                    &&& d2.constants@ == d.constants@
                                }),
                                Function::Native(_) => f2.heap.functions@[fi] == f1.heap.functions@[fi],
                            }
                        }
                    },
                    Opcode::Yield => {
                        &&& (s0.len() >= 1 && !(f1.funs@.len() > 0 && f1.heap.functions@[f1.funs@.last() as int] is Regular)) ==> raised_with(
                            (Frame { pc: (f1.pc + 1) as usize, ..f1 }),
                            f2,
                            r,
                            s0.drop_last(),
                            -1,
                            "Runtime exception: can not find function state"@,
                        )
                        &&& (s0.len() >= 1 && f1.funs@.len() > 0 && f1.heap.functions@[f1.funs@.last() as int] is Regular) ==> {
                            let sv = f1.exec_stack@.last();
                            let ret = s0.last();
                            let fi = f1.funs@.last() as int;
                            &&& r is Next
                            &&& f2.stack@ == sv.stack@.push(ret)
                            &&& f2.code@ == sv.code@
                            &&& f2.env == sv.env
                            &&& f2.pc == sv.pc
                            &&& f2.m.constants@ == sv.constants@
                            &&& f2.m.line_no@ == f1.m.line_no@
                            &&& f2.exception_stack@ == f1.exception_stack@
                            &&& f2.exec_stack@ == f1.exec_stack@.drop_last()
                            &&& f2.funs@ == f1.funs@.drop_last()
                            &&& f2.heap.objects@ == f1.heap.objects@
                            &&& f2.heap.arrays@ == f1.heap.arrays@
                            &&& f2.heap.iters@ == f1.heap.iters@
                            &&& f2.heap.functions@.len() == f1.heap.functions@.len()
                            &&& forall|j: int|
                                0 <= j < f1.heap.functions@.len() && j != fi ==> f2.heap.functions@[j] == f1.heap.functions@[j]
                            &&& (f2.heap.functions@[fi] matches Function::Regular(d2)
                                && f1.heap.functions@[fi] matches Function::Regular(d) && {
                                &&& d2.yield_pos == Some((f1.pc + 1) as usize)
                                &&& d2.yield_env == f1.env
                                &&& d2.environment == d.environment
                                &&& d2.code@ == d.code@
                                &&& d2.addr == d.addr
                                &&& d2.args@ == d.args@
                                &&& d2.constants@ == d.constants@
                            })
                        }
                    },
                    Opcode::NewIter => s0.len() >= 1 ==> {
                        let v = s0.last();
                        let rest = s0.drop_last();
                        &&& f2.funs@ == f1.funs@
                        &&& f2.exec_stack@ == f1.exec_stack@
                        &&& f2.env == f1.env
                        &&& f2.code@ == f1.code@
                        &&& f2.m.constants@ == f1.m.constants@
                        &&& f2.m.line_no@ == f1.m.line_no@
                        &&& match v {
                            Value::Array(a) => {
                                &&& r is Next
                                &&& f2.stack@ == rest.push(Value::Iter(f1.heap.iters@.len() as usize))
                                &&& f2.heap.iters@.len() == f1.heap.iters@.len() + 1
                                &&& f2.heap.iters@.last().values@ == f1.heap.arrays@[a as int]@
                                &&& f2.heap.iters@.last().pos == 0
                                &&& f2.pc == pc1
                                &&& f2.exception_stack@ == f1.exception_stack@
                            },
                            Value::Object(x) => {
                                let t = f1.heap.objects@[x as int].table@;
                                &&& r is Next
                                &&& f2.stack@ == rest.push(Value::Iter(f1.heap.iters@.len() as usize))
                                &&& f2.heap.iters@.len() == f1.heap.iters@.len() + 1
                                &&& f2.heap.iters@.last().values@.len() == t.len()
                                &&& forall|j: int|
                                    0 <= j < t.len() ==> iter_entry_shape(
                                        f2.heap,
                                        #[trigger] f2.heap.iters@.last().values@[j],
                                        t[j],
                                    )
                                &&& f2.heap.iters@.last().pos == 0
                                &&& f2.pc == pc1
                                &&& f2.exception_stack@ == f1.exception_stack@
                            },
                            Value::Iter(_) => {
                                &&& r is Next
                                &&& f2.stack@ == s0
                                &&& f2.heap == f1.heap
                                &&& f2.pc == pc1
                                &&& f2.exception_stack@ == f1.exception_stack@
                            },
                            _ => raised_with(
                                (Frame { pc: (f1.pc + 1) as usize, ..f1 }),
                                f2,
                                r,
                                rest,
                                -1,
                                "Runtime exception: Array or object expected in iterator instance"@,
                            ),
                        }
                    },
                    Opcode::IterHasNext => s0.len() >= 1 ==> {
                        &&& f2.funs@ == f1.funs@
                        &&& f2.exec_stack@ == f1.exec_stack@
                        &&& f2.env == f1.env
                        &&& f2.code@ == f1.code@
                        &&& f2.m.constants@ == f1.m.constants@
                        &&& f2.m.line_no@ == f1.m.line_no@
                        &&& match s0.last() {
                            Value::Iter(it) => {
                                let d = f1.heap.iters@[it as int];
                                &&& r is Next
                                &&& f2.stack@ == s0.drop_last().push(
                                    Value::Bool(d.pos < d.values@.len()),
                                )
                                &&& f2.heap == f1.heap
                                &&& f2.pc == pc1
                                &&& f2.exception_stack@ == f1.exception_stack@
                            },
                            _ => raised_with(
                                (Frame { pc: (f1.pc + 1) as usize, ..f1 }),
                                f2,
                                r,
                                s0.drop_last(),
                                -1,
                                "Runtime exception: iterator expected"@,
                            ),
                        }
                    },
                    Opcode::IterNext => s0.len() >= 1 ==> {
                        &&& f2.funs@ == f1.funs@
                        &&& f2.exec_stack@ == f1.exec_stack@
                        &&& f2.env == f1.env
                        &&& f2.code@ == f1.code@
                        &&& f2.m.constants@ == f1.m.constants@
                        &&& f2.m.line_no@ == f1.m.line_no@
                        &&& match s0.last() {
                            Value::Iter(it) => {
                                let d = f1.heap.iters@[it as int];
                                &&& r is Next
                                &&& f2.pc == pc1
                                &&& f2.exception_stack@ == f1.exception_stack@
                                &&& if d.pos < d.values@.len() {
                                    &&& f2.stack@ == s0.drop_last().push(d.values@[d.pos as int])
                                    &&& f2.heap.iters@[it as int].pos == d.pos + 1
                                    &&& f2.heap.iters@[it as int].values@ == d.values@
                                    &&& f2.heap.iters@.len() == f1.heap.iters@.len()
                                    &&& forall|j: int|
                                        0 <= j < f1.heap.iters@.len() && j != it ==> f2.heap.iters@[j] == f1.heap.iters@[j]
                                    &&& f2.heap.objects@ == f1.heap.objects@
                                    &&& f2.heap.arrays@ == f1.heap.arrays@
                                    &&& f2.heap.functions@ == f1.heap.functions@
                                } else {
                                    &&& f2.stack@ == s0.drop_last().push(Value::Undefined)
                                    &&& f2.heap == f1.heap
                                }
                            },
                            _ => raised_with(
                                (Frame { pc: (f1.pc + 1) as usize, ..f1 }),
                                f2,
                                r,
                                s0.drop_last(),
                                -1,
                                "Runtime exception: iterator expected"@,
                            ),
                        }
                    },
                    // covered by the dedicated clause above
                    Opcode::Label => true,
                }
            })
}

/// Every adjacent pair of the sequence is one dispatch step that asked to
/// keep going.
pub open spec fn is_run(tr: Seq<Frame>) -> bool {
    forall|i: int| 0 <= i < tr.len() - 1 ==> step_ok(#[trigger] tr[i], tr[i + 1], Step::Next)
}

/// `f2` is reached from `f1` by exactly `n` dispatch steps, each of which
/// asked to keep going: some state sequence starts at `f1`, ends at `f2`,
/// and advances by one dispatch at a time.
pub open spec fn steps_to(f1: Frame, f2: Frame, n: nat) -> bool {
    exists|tr: Seq<Frame>|
        {
            &&& tr.len() == n + 1
            &&& tr[0] == f1
            &&& tr.last() == f2
            &&& #[trigger] is_run(tr)
        }
}

impl Frame {
    /// Fetches the opcode at the program counter, advances it, and
    /// dispatches: the whole transition is pinned by [`step_ok`], opcode by
    /// opcode. In particular, `Label` does nothing at all; inserting one
    /// between any two instructions leaves every part of the state
    /// unchanged but the advancing program counter.
    pub fn step(&mut self) -> (r: Step)
        requires
            old(self).wf(),
            old(self).balanced(),
            old(self).pc < old(self).code@.len(),
        ensures
            final(self).wf(),
            final(self).balanced(),
            step_ok(*old(self), *final(self), r),
    {
        proof {
            reveal(step_ok);
        }
        let n = self.code.len();
        let op = self.code[self.pc].clone();
        self.cur_ins = op.clone();
        self.pc = self.pc + 1;
        match op {
            Opcode::LoadConst(i) => {
                if i < self.m.constants.len() {
                    let v = self.m.constants[i].clone();
                    self.stack.push(v);
                    Step::Next
                } else {
                    self.raise_msg(-1, "Runtime exception: constant index out of range")
                }
            },
            Opcode::LoadInt(v) => {
                self.stack.push(Value::Number(v));
                Step::Next
            },
            Opcode::LoadTrue => {
                self.stack.push(Value::Bool(true));
                Step::Next
            },
            Opcode::LoadFalse => {
                self.stack.push(Value::Bool(false));
                Step::Next
            },
            Opcode::LoadNil => {
                self.stack.push(Value::Nil);
                Step::Next
            },
            Opcode::LoadUndef => {
                self.stack.push(Value::Undefined);
                Step::Next
            },
            Opcode::Dup => {
                let v = match self.stack.pop() {
                    Some(v) => v,
                    None => Value::Undefined,
                };
                self.stack.push(v.clone());
                self.stack.push(v);
                proof {
                    if old(self).stack@.len() > 0 {
                        assert(self.stack@ =~= old(self).stack@.push(old(self).stack@.last()));
                    }
                }
                Step::Next
            },
            Opcode::LoadVar(name) => self.op_load_var(&name),
            Opcode::DeclVar(name) => self.op_decl_var(&name),
            Opcode::StoreVar(name) => self.op_store_var(&name),
            Opcode::PushEnv => {
                self.push_env();
                Step::Next
            },
            Opcode::PopEnv => match self.pop_env() {
                Result::Ok(()) => Step::Next,
                Result::Err(()) => Step::EnvFault,
            },
            Opcode::NewObj => {
                let o = crate::value::new_object(&mut self.heap);
                proof {
                    lemma_frame_wf_heap_grow(
                        Frame { cur_ins: self.cur_ins, pc: self.pc, ..*old(self) },
                        Frame {
                            heap: self.heap,
                            cur_ins: self.cur_ins,
                            pc: self.pc,
                            ..*old(self)
                        },
                    );
                }
                self.stack.push(Value::Object(o));
                Step::Next
            },
            Opcode::ConstructArray(count) => {
                let mut elems: Vec<Value> = Vec::new();
                let mut k: usize = 0;
                while k < count
                    invariant
                        self.wf(),
                        self.balanced(),
                        k <= count,
                        vals_wf(self.heap, elems@),
                        old(self).code@[old(self).pc as int] == Opcode::ConstructArray(count),
                        old(self).stack@.len() >= count ==> {
                            &&& self.heap == old(self).heap
                            &&& self.stack@ == old(self).stack@.subrange(
                                0,
                                old(self).stack@.len() - k,
                            )
                            &&& elems@.len() == k
                            &&& forall|j: int|
                                0 <= j < k ==> elems@[j] == old(self).stack@[old(self).stack@.len() - 1 - j]
                        },
                        self.funs@ == old(self).funs@,
                        self.exec_stack@ == old(self).exec_stack@,
                        self.exception_stack@ == old(self).exception_stack@,
                        self.env == old(self).env,
                        self.pc == old(self).pc + 1,
                        self.code@ == old(self).code@,
                        self.m.constants@ == old(self).m.constants@,
                        self.m.line_no@ == old(self).m.line_no@,
                    decreases count - k,
                {
                    proof {
                        reveal(step_ok);
                    }
                    let v = match self.pop() {
                        Result::Ok(v) => v,
                        Result::Err(e) => {
                            return self.raise(e);
                        },
                    };
                    elems.push(v);
                    proof {
                        if old(self).stack@.len() >= count {
                            assert(self.stack@ =~= old(self).stack@.subrange(
                                0,
                                old(self).stack@.len() - (k + 1),
                            ));
                        }
                    }
                    k = k + 1;
                }
                let ghost pre = *self;
                let ai = self.heap.alloc_array(elems);
                proof {
                    lemma_frame_wf_heap_grow(pre, *self);
                }
                self.stack.push(Value::Array(ai));
                Step::Next
            },
            Opcode::Load => self.op_load(),
            Opcode::Store => self.op_store(),
            Opcode::Jump(t) => {
                self.pc = t;
                Step::Next
            },
            Opcode::JumpIf(t) => {
                let v = match self.pop() {
                    Result::Ok(v) => v,
                    Result::Err(e) => {
                        return self.raise(e);
                    },
                };
                if crate::algebra::is_truthy(&v) {
                    self.pc = t;
                }
                Step::Next
            },
            Opcode::JumpIfFalse(t) => {
                let v = match self.pop() {
                    Result::Ok(v) => v,
                    Result::Err(e) => {
                        return self.raise(e);
                    },
                };
                if !crate::algebra::is_truthy(&v) {
                    self.pc = t;
                }
                Step::Next
            },
            Opcode::Label => Step::Next,
            Opcode::Add | Opcode::Sub | Opcode::Mul | Opcode::Div | Opcode::Rem | Opcode::Shl
                | Opcode::Shr | Opcode::BitAnd | Opcode::BitOr | Opcode::BitXor | Opcode::And
                | Opcode::Or | Opcode::Gt | Opcode::Ge | Opcode::Lt | Opcode::Le | Opcode::Eq
                | Opcode::Ne => self.op_binary(&self.cur_ins.clone()),
            Opcode::Not => self.op_not(),
            Opcode::Neg => self.op_neg(),
            Opcode::RefEq => self.op_ref_cmp(false),
            Opcode::RefNeq => self.op_ref_cmp(true),
            Opcode::InitEnv => self.op_init_env(),
            Opcode::Call(argc) => self.op_call(argc),
            Opcode::Apply => self.op_apply(),
            Opcode::Return => self.op_return(),
            Opcode::Yield => self.op_yield(),
            Opcode::PushCatch(addr) => {
                self.exception_stack.push(addr);
                Step::Next
            },
            Opcode::PopCatch => {
                let _popped = self.exception_stack.pop();
                Step::Next
            },
            Opcode::Throw => {
                let e = match self.stack.pop() {
                    Some(v) => v,
                    None => Value::Undefined,
                };
                proof {
                    if old(self).stack@.len() > 0 {
                        assert(value_wf(self.heap, e)) by {
                            assert(vals_wf(self.heap, old(self).stack@));
                        }
                    }
                }
                if self.transfer_to_handler(e.clone()) {
                    Step::Next
                } else {
                    Step::Thrown(e)
                }
            },
            Opcode::NewIter => self.op_new_iter(),
            Opcode::IterHasNext => self.op_iter_has_next(),
            Opcode::IterNext => self.op_iter_next(),
        }
    }

    /// Runs the program until it halts, fails, needs the host, or has
    /// dispatched `max_steps` instructions: the final state is what a chain
    /// of [`Frame::step`] dispatches reaches ([`steps_to`]), ended by the
    /// step that produced the result. On a normal halt through a top-level
    /// `Return`, the save-stack and the active-function stack are both
    /// empty; only a program that runs off the end of its code can halt
    /// otherwise. A result of `Next` means only that the budget ran out
    /// after exactly `max_steps` dispatches; calling again continues the
    /// run where it stopped.
    pub fn execute(&mut self, max_steps: u64) -> (r: Step)
        requires
            old(self).wf(),
            old(self).balanced(),
        ensures
            final(self).wf(),
            final(self).balanced(),
            match r {
                Step::Next => steps_to(*old(self), *final(self), max_steps as nat) && final(self).pc
                    < final(self).code@.len(),
                Step::Done => exists|n: nat, mid: Frame|
                    n <= max_steps && #[trigger] steps_to(*old(self), mid, n) && if mid.pc
                        >= mid.code@.len() {
                        mid == *final(self)
                    } else {
                        n < max_steps && step_ok(mid, *final(self), Step::Done)
                    },
                _ => exists|n: nat, mid: Frame|
                    n < max_steps && #[trigger] steps_to(*old(self), mid, n) && mid.pc
                        < mid.code@.len() && step_ok(mid, *final(self), r),
            },
            r is Done ==> (final(self).exec_stack@.len() == 0 && final(self).funs@.len() == 0)
                || final(self).pc >= final(self).code@.len(),
    {
        let mut left = max_steps;
        let ghost mut n: int = 0;
        let ghost mut tr: Seq<Frame> = seq![*old(self)];
        proof {
            assert(is_run(tr));
            assert(steps_to(*old(self), *self, 0));
        }
        while self.pc < self.code.len() && left > 0
            invariant
                self.wf(),
                self.balanced(),
                left <= max_steps,
                n == max_steps - left,
                tr.len() == n + 1,
                tr[0] == *old(self),
                tr.last() == *self,
                is_run(tr),
            decreases left,
        {
            left = left - 1;
            let ghost mid = *self;
            let ghost n0 = n;
            let ghost tr0 = tr;
            let s = self.step();
            proof {
                n = n0 + 1;
                tr = tr0.push(*self);
            }
            match s {
                Step::Next => {
                    proof {
                        assert(is_run(tr)) by {
                            assert forall|i: int| 0 <= i < tr.len() - 1 implies step_ok(
                                #[trigger] tr[i],
                                tr[i + 1],
                                Step::Next,
                            ) by {
                                if i < tr0.len() - 1 {
                                    assert(tr[i] == tr0[i] && tr[i + 1] == tr0[i + 1]);
                                    assert(step_ok(tr0[i], tr0[i + 1], Step::Next));
                                } else {
                                    assert(tr[i] == mid && tr[i + 1] == *self);
                                }
                            }
                        }
                    }
                },
                Step::Done => {
                    proof {
                        assert(steps_to(*old(self), mid, n0 as nat)) by {
                            assert(tr0.len() == n0 + 1 && tr0[0] == *old(self) && tr0.last() == mid
                                && is_run(tr0));
                        }
                        assert(n0 < max_steps && mid.pc < mid.code@.len() && step_ok(
                            mid,
                            *self,
                            Step::Done,
                        ));
                        reveal(step_ok);
                        assert(self.exec_stack@.len() == 0 && self.funs@.len() == 0);
                    }
                    return Step::Done;
                },
                Step::Failed(e) => {
                    proof {
                        assert(steps_to(*old(self), mid, n0 as nat)) by {
                            assert(tr0.len() == n0 + 1 && tr0[0] == *old(self) && tr0.last() == mid
                                && is_run(tr0));
                        }
                        assert(n0 < max_steps && mid.pc < mid.code@.len() && step_ok(
                            mid,
                            *self,
                            Step::Failed(e),
                        ));
                    }
                    return Step::Failed(e);
                },
                Step::Thrown(e) => {
                    proof {
                        assert(steps_to(*old(self), mid, n0 as nat)) by {
                            assert(tr0.len() == n0 + 1 && tr0[0] == *old(self) && tr0.last() == mid
                                && is_run(tr0));
                        }
                        assert(n0 < max_steps && mid.pc < mid.code@.len() && step_ok(
                            mid,
                            *self,
                            Step::Thrown(e),
                        ));
                    }
                    return Step::Thrown(e);
                },
                Step::EnvFault => {
                    proof {
                        assert(steps_to(*old(self), mid, n0 as nat)) by {
                            assert(tr0.len() == n0 + 1 && tr0[0] == *old(self) && tr0.last() == mid
                                && is_run(tr0));
                        }
                        assert(n0 < max_steps && mid.pc < mid.code@.len() && step_ok(
                            mid,
                            *self,
                            Step::EnvFault,
                        ));
                    }
                    return Step::EnvFault;
                },
                Step::NativeCall { fun, this, args } => {
                    proof {
                        assert(steps_to(*old(self), mid, n0 as nat)) by {
                            assert(tr0.len() == n0 + 1 && tr0[0] == *old(self) && tr0.last() == mid
                                && is_run(tr0));
                        }
                        assert(n0 < max_steps && mid.pc < mid.code@.len() && step_ok(
                            mid,
                            *self,
                            Step::NativeCall { fun, this, args },
                        ));
                    }
                    return Step::NativeCall { fun, this, args };
                },
            }
        }
        proof {
            assert(steps_to(*old(self), *self, n as nat)) by {
                assert(tr.len() == n + 1 && tr[0] == *old(self) && tr.last() == *self && is_run(
                    tr,
                ));
            }
        }
        if self.pc < self.code.len() {
            Step::Next
        } else {
            Step::Done
        }
    }

    /// Hands the result of a native call back to the engine: a value is
    /// pushed onto the operand stack; an error is routed through the
    /// exception machinery as if `Throw` had executed at the call site.
    /// The run continues with a further call of [`Frame::execute`] when the
    /// result is `Next`.
    pub fn native_return(&mut self, res: Result<Value, Value>) -> (r: Step)
        requires
            old(self).wf(),
            old(self).balanced(),
            match res {
                Result::Ok(v) => value_wf(old(self).heap, v),
                Result::Err(e) => value_wf(old(self).heap, e),
            },
        ensures
            final(self).wf(),
            final(self).balanced(),
            match res {
                Result::Ok(v) => r is Next && final(self).stack@ == old(self).stack@.push(v)
                    && final(self).heap == old(self).heap && final(self).pc == old(self).pc,
                Result::Err(e) => if old(self).exception_stack@.len() > 0 {
                    &&& r is Next
                    &&& final(self).pc == old(self).exception_stack@.last()
                    &&& final(self).exception_stack@ == old(self).exception_stack@.drop_last()
                    &&& final(self).stack@ == old(self).stack@.push(e)
                } else {
                    r == Step::Failed(e)
                },
            },
    {
        match res {
            Result::Ok(v) => {
                self.stack.push(v);
                Step::Next
            },
            Result::Err(e) => self.raise(e),
        }
    }
}

} // verus!
