//! End-to-end programs run on the virtual machine.

use jazz_vm::interp::{Frame, Machine, Step};
use jazz_vm::opcodes::Opcode;
use jazz_vm::value::{Function, Value};

fn frame_with(code: Vec<Opcode>) -> Frame {
    let mut f = Frame::new(Machine::new());
    f.load_program(code);
    f
}

fn run(f: &mut Frame) -> Step {
    f.execute(1_000_000)
}

fn var(name: &str) -> String {
    String::from(name)
}

#[test]
fn s1_arithmetic_add() {
    let mut f = frame_with(vec![Opcode::LoadInt(2), Opcode::LoadInt(3), Opcode::Add]);
    assert!(matches!(run(&mut f), Step::Done));
    assert_eq!(f.stack.len(), 1);
    assert!(matches!(f.stack[0], Value::Number(5)));
}

#[test]
fn s1_arithmetic_sub_lhs_pushed_first() {
    let mut f = frame_with(vec![Opcode::LoadInt(10), Opcode::LoadInt(3), Opcode::Sub]);
    assert!(matches!(run(&mut f), Step::Done));
    assert!(matches!(f.stack[0], Value::Number(7)));
}

#[test]
fn operand_order_noncommutative() {
    // push(a); push(b); OP computes a OP b for every binary operator.
    let cases: Vec<(Opcode, i64)> = vec![
        (Opcode::Sub, 8),
        (Opcode::Div, 5),
        (Opcode::Rem, 0),
        (Opcode::Shl, 40),
        (Opcode::Shr, 2),
    ];
    for (op, expect) in cases {
        let mut f = frame_with(vec![Opcode::LoadInt(10), Opcode::LoadInt(2), op]);
        assert!(matches!(run(&mut f), Step::Done));
        match f.stack[0] {
            Value::Number(n) => assert_eq!(n, expect),
            _ => panic!("number expected"),
        }
    }
}

#[test]
fn s2_scope_shadowing() {
    let mut f = frame_with(vec![
        Opcode::PushEnv,
        Opcode::LoadInt(1),
        Opcode::DeclVar(var("x")),
        Opcode::LoadVar(var("x")),
        Opcode::PopEnv,
    ]);
    assert!(matches!(run(&mut f), Step::Done));
    assert_eq!(f.stack.len(), 1);
    assert!(matches!(f.stack[0], Value::Number(1)));
}

#[test]
fn s2_scope_var_does_not_outlive_popenv() {
    let mut f = frame_with(vec![
        Opcode::PushEnv,
        Opcode::LoadInt(1),
        Opcode::DeclVar(var("x")),
        Opcode::LoadVar(var("x")),
        Opcode::PopEnv,
        Opcode::LoadVar(var("x")),
    ]);
    let r = run(&mut f);
    match r {
        Step::Failed(Value::Object(e)) => {
            let table = &f.heap.objects[e].table;
            match &table[2].1 {
                Value::Str(msg) => assert_eq!(msg, "Variable 'x' not declared"),
                _ => panic!("error slot expected"),
            }
        }
        _ => panic!("undeclared-variable failure expected"),
    }
}

#[test]
fn p4_outer_declaration_unaffected() {
    // An inner DeclVar of the same name shadows; after PopEnv the outer
    // binding is intact.
    let mut f = frame_with(vec![
        Opcode::LoadInt(5),
        Opcode::DeclVar(var("x")),
        Opcode::PushEnv,
        Opcode::LoadInt(9),
        Opcode::DeclVar(var("x")),
        Opcode::PopEnv,
        Opcode::LoadVar(var("x")),
    ]);
    assert!(matches!(run(&mut f), Step::Done));
    assert!(matches!(f.stack[0], Value::Number(5)));
}

#[test]
fn s3_closure_counts() {
    let code = vec![
        Opcode::LoadInt(0),
        Opcode::DeclVar(var("c")),
        Opcode::LoadConst(0),
        Opcode::InitEnv,
        Opcode::DeclVar(var("g")),
        Opcode::LoadNil,
        Opcode::LoadVar(var("g")),
        Opcode::Call(0),
        Opcode::LoadNil,
        Opcode::LoadVar(var("g")),
        Opcode::Call(0),
        Opcode::LoadNil,
        Opcode::LoadVar(var("g")),
        Opcode::Call(0),
        Opcode::Jump(999),
        // g, entry address 15: c = c + 1; return c
        Opcode::LoadVar(var("c")),
        Opcode::LoadInt(1),
        Opcode::Add,
        Opcode::StoreVar(var("c")),
        Opcode::LoadVar(var("c")),
        Opcode::Return,
    ];
    let mut f = Frame::new(Machine::new());
    let g = f.new_function(15, Vec::new(), code.clone());
    f.add_constant(g);
    f.load_program(code);
    assert!(matches!(run(&mut f), Step::Done));
    assert_eq!(f.stack.len(), 3);
    assert!(matches!(f.stack[0], Value::Number(1)));
    assert!(matches!(f.stack[1], Value::Number(2)));
    assert!(matches!(f.stack[2], Value::Number(3)));
}

fn generator_frame() -> Frame {
    let code = vec![
        Opcode::LoadConst(0),
        Opcode::InitEnv,
        Opcode::DeclVar(var("g")),
        Opcode::LoadNil,
        Opcode::LoadVar(var("g")),
        Opcode::Call(0),
        Opcode::LoadNil,
        Opcode::LoadVar(var("g")),
        Opcode::Call(0),
        Opcode::LoadNil,
        Opcode::LoadVar(var("g")),
        Opcode::Call(0),
        Opcode::LoadNil,
        Opcode::LoadVar(var("g")),
        Opcode::Call(0),
        Opcode::Jump(999),
        // g, entry address 16: yield 10; yield 20; return 30
        Opcode::LoadInt(10),
        Opcode::Yield,
        Opcode::LoadInt(20),
        Opcode::Yield,
        Opcode::LoadInt(30),
        Opcode::Return,
    ];
    let mut f = Frame::new(Machine::new());
    let g = f.new_function(16, Vec::new(), code.clone());
    f.add_constant(g);
    f.load_program(code);
    f
}

#[test]
fn s4_generator_resumes_then_restarts() {
    let mut f = generator_frame();
    assert!(matches!(run(&mut f), Step::Done));
    assert_eq!(f.stack.len(), 4);
    assert!(matches!(f.stack[0], Value::Number(10)));
    assert!(matches!(f.stack[1], Value::Number(20)));
    assert!(matches!(f.stack[2], Value::Number(30)));
    assert!(matches!(f.stack[3], Value::Number(10)));
}

#[test]
fn p1_save_stack_balanced_after_termination() {
    let mut f = generator_frame();
    assert!(matches!(run(&mut f), Step::Done));
    assert!(f.exec_stack.is_empty());
    assert!(f.funs.is_empty());
}

#[test]
fn p3_yield_pos_cleared_by_return() {
    let mut f = generator_frame();
    assert!(matches!(run(&mut f), Step::Done));
    // The generator ran 10, 20, 30, then restarted and is suspended after
    // its first yield again.
    match &f.heap.functions[0] {
        Function::Regular(d) => assert_eq!(d.yield_pos, Some(18)),
        _ => panic!("regular function expected"),
    }
}

#[test]
fn s5_throw_transfers_to_handler() {
    let mut f = Frame::new(Machine::new());
    f.add_constant(Value::Str(String::from("oops")));
    f.load_program(vec![
        Opcode::PushCatch(5),
        Opcode::LoadConst(0),
        Opcode::Throw,
        Opcode::LoadInt(99),
        Opcode::Jump(999),
        Opcode::Label,
    ]);
    assert!(matches!(run(&mut f), Step::Done));
    assert_eq!(f.stack.len(), 1);
    match &f.stack[0] {
        Value::Str(s) => assert_eq!(s, "oops"),
        _ => panic!("thrown payload expected on the stack"),
    }
    assert!(f.exception_stack.is_empty());
}

#[test]
fn s5_uncaught_throw() {
    let mut f = Frame::new(Machine::new());
    f.add_constant(Value::Str(String::from("oops")));
    f.load_program(vec![Opcode::LoadConst(0), Opcode::Throw]);
    match run(&mut f) {
        Step::Thrown(Value::Str(s)) => assert_eq!(s, "oops"),
        _ => panic!("uncaught throw expected"),
    }
}

#[test]
fn p7_exception_transfer_restores_pc_and_pushes_error() {
    // The faulting instruction is arbitrary (an undeclared variable); the
    // handler address is entered exactly and the error value is on top.
    let mut f = frame_with(vec![
        Opcode::PushCatch(3),
        Opcode::LoadVar(var("nope")),
        Opcode::Jump(999),
        Opcode::Label,
        Opcode::Label,
    ]);
    assert!(matches!(run(&mut f), Step::Done));
    assert_eq!(f.stack.len(), 1);
    match f.stack[0] {
        Value::Object(e) => {
            let table = &f.heap.objects[e].table;
            match &table[2].1 {
                Value::Str(msg) => assert_eq!(msg, "Variable 'nope' not declared"),
                _ => panic!("error text expected"),
            }
            // the error object's prototype names the error kind
            let proto = f.heap.objects[e].proto.expect("error prototype");
            match &f.heap.objects[proto].table[0].1 {
                Value::Str(name) => assert_eq!(name, "JLRuntimeError"),
                _ => panic!("prototype name expected"),
            }
        }
        _ => panic!("error object expected"),
    }
}

#[test]
fn s6_iteration_in_order() {
    let code = vec![
        Opcode::LoadInt(0),
        Opcode::DeclVar(var("s")),
        Opcode::LoadInt(9),
        Opcode::LoadInt(8),
        Opcode::LoadInt(7),
        Opcode::ConstructArray(3),
        Opcode::NewIter,
        // loop head at 7
        Opcode::Dup,
        Opcode::IterHasNext,
        Opcode::JumpIfFalse(18),
        Opcode::Dup,
        Opcode::IterNext,
        Opcode::LoadVar(var("s")),
        Opcode::LoadInt(10),
        Opcode::Mul,
        Opcode::Add,
        Opcode::StoreVar(var("s")),
        Opcode::Jump(7),
        // end at 18
        Opcode::LoadVar(var("s")),
    ];
    let mut f = frame_with(code);
    assert!(matches!(run(&mut f), Step::Done));
    // s accumulated digit by digit: iteration saw 7, then 8, then 9.
    match f.stack.last().expect("result") {
        Value::Number(n) => assert_eq!(*n, 789),
        _ => panic!("number expected"),
    }
}

#[test]
fn p6_object_iteration_insertion_order() {
    let mut g = Frame::new(Machine::new());
    g.add_constant(Value::Str(String::from("a")));
    g.add_constant(Value::Str(String::from("b")));
    g.load_program(vec![
        Opcode::NewObj,
        Opcode::DeclVar(var("o")),
        Opcode::LoadVar(var("o")),
        Opcode::LoadConst(0),
        Opcode::LoadInt(1),
        Opcode::Store,
        Opcode::LoadVar(var("o")),
        Opcode::LoadConst(1),
        Opcode::LoadInt(2),
        Opcode::Store,
        Opcode::LoadVar(var("o")),
        Opcode::NewIter,
    ]);
    assert!(matches!(run(&mut g), Step::Done));
    let it = match g.stack.last().expect("iterator") {
        Value::Iter(i) => *i,
        _ => panic!("iterator expected"),
    };
    let entries = &g.heap.iters[it].values;
    assert_eq!(entries.len(), 2);
    for (k, (key_text, val)) in entries.iter().zip([("a", 1i64), ("b", 2i64)]) {
        let eo = match k {
            Value::Object(i) => *i,
            _ => panic!("entry object expected"),
        };
        let t = &g.heap.objects[eo].table;
        match &t[0].1 {
            Value::Str(s) => assert_eq!(s, key_text),
            _ => panic!("string key expected"),
        }
        match t[1].1 {
            Value::Number(n) => assert_eq!(n, val),
            _ => panic!("number value expected"),
        }
    }
}

#[test]
fn p5_structural_equality_not_reference_sensitive() {
    let mut f = frame_with(vec![
        Opcode::LoadInt(2),
        Opcode::LoadInt(1),
        Opcode::ConstructArray(2),
        Opcode::LoadInt(2),
        Opcode::LoadInt(1),
        Opcode::ConstructArray(2),
        Opcode::Eq,
    ]);
    assert!(matches!(run(&mut f), Step::Done));
    assert!(matches!(f.stack[0], Value::Bool(true)));

    let mut g = frame_with(vec![
        Opcode::LoadInt(2),
        Opcode::LoadInt(1),
        Opcode::ConstructArray(2),
        Opcode::LoadInt(2),
        Opcode::LoadInt(1),
        Opcode::ConstructArray(2),
        Opcode::RefEq,
    ]);
    assert!(matches!(run(&mut g), Step::Done));
    assert!(matches!(g.stack[0], Value::Bool(false)));

    let mut h = frame_with(vec![
        Opcode::LoadInt(1),
        Opcode::ConstructArray(1),
        Opcode::Dup,
        Opcode::RefEq,
    ]);
    assert!(matches!(run(&mut h), Step::Done));
    assert!(matches!(h.stack[0], Value::Bool(true)));
}

#[test]
fn p8_labels_are_noops() {
    let plain = vec![Opcode::LoadInt(2), Opcode::LoadInt(3), Opcode::Add];
    let with_labels = vec![
        Opcode::Label,
        Opcode::LoadInt(2),
        Opcode::Label,
        Opcode::Label,
        Opcode::LoadInt(3),
        Opcode::Label,
        Opcode::Add,
        Opcode::Label,
    ];
    let mut f = frame_with(plain);
    let mut g = frame_with(with_labels);
    assert!(matches!(run(&mut f), Step::Done));
    assert!(matches!(run(&mut g), Step::Done));
    assert_eq!(f.stack.len(), g.stack.len());
    assert!(matches!(f.stack[0], Value::Number(5)));
    assert!(matches!(g.stack[0], Value::Number(5)));
}

#[test]
fn apply_calls_with_array_and_nil_this() {
    let code = vec![
        Opcode::LoadInt(3),
        Opcode::ConstructArray(1),
        Opcode::LoadConst(0),
        Opcode::InitEnv,
        Opcode::Apply,
        Opcode::Jump(999),
        // callee, entry address 6: return its first parameter
        Opcode::LoadVar(var("a")),
        Opcode::Return,
    ];
    let mut f = Frame::new(Machine::new());
    let g = f.new_function(6, vec![String::from("a")], code.clone());
    f.add_constant(g);
    f.load_program(code);
    assert!(matches!(run(&mut f), Step::Done));
    assert!(matches!(f.stack[0], Value::Number(3)));
}

#[test]
fn apply_this_is_nil() {
    let code = vec![
        Opcode::ConstructArray(0),
        Opcode::LoadConst(0),
        Opcode::InitEnv,
        Opcode::Apply,
        Opcode::Jump(999),
        // callee, entry address 5: return this
        Opcode::LoadVar(var("this")),
        Opcode::Return,
    ];
    let mut f = Frame::new(Machine::new());
    let g = f.new_function(5, Vec::new(), code.clone());
    f.add_constant(g);
    f.load_program(code);
    assert!(matches!(run(&mut f), Step::Done));
    assert!(matches!(f.stack[0], Value::Nil));
}

#[test]
fn native_call_round_trip() {
    let mut f = Frame::new(Machine::new());
    let nid = f.heap.alloc_function(Function::Native(7));
    f.add_constant(Value::Function(nid));
    f.load_program(vec![
        Opcode::LoadInt(1),
        Opcode::LoadNil,
        Opcode::LoadConst(0),
        Opcode::Call(1),
    ]);
    match run(&mut f) {
        Step::NativeCall { fun, this, args } => {
            assert_eq!(fun, 7);
            assert!(matches!(this, Value::Nil));
            assert_eq!(args.len(), 1);
            assert!(matches!(args[0], Value::Number(1)));
        }
        _ => panic!("native call expected"),
    }
    assert!(matches!(f.native_return(Ok(Value::Number(42))), Step::Next));
    assert!(matches!(run(&mut f), Step::Done));
    assert!(matches!(f.stack[0], Value::Number(42)));
}

#[test]
fn calling_a_non_function_is_an_error() {
    let mut f = frame_with(vec![Opcode::LoadInt(0), Opcode::LoadNil, Opcode::LoadInt(1), Opcode::Call(1)]);
    match run(&mut f) {
        Step::Failed(Value::Object(e)) => {
            match &f.heap.objects[e].table[2].1 {
                Value::Str(msg) => assert_eq!(msg, "Runtime exception: function expected"),
                _ => panic!("error text expected"),
            }
        }
        _ => panic!("failure expected"),
    }
}

#[test]
fn popenv_without_parent_is_fatal() {
    let mut f = frame_with(vec![Opcode::PopEnv]);
    assert!(matches!(run(&mut f), Step::EnvFault));
}

#[test]
fn stack_underflow_names_the_instruction() {
    let mut f = frame_with(vec![Opcode::Add]);
    match run(&mut f) {
        Step::Failed(Value::Object(e)) => match &f.heap.objects[e].table[2].1 {
            Value::Str(msg) => assert_eq!(msg, "Stack empty. Current instruction: Add"),
            _ => panic!("error text expected"),
        },
        _ => panic!("failure expected"),
    }
}
