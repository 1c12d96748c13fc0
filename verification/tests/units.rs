//! Unit tests of the value algebra, display, tables, scopes and tokens.

use jazz_vm::display::display_i64;
use jazz_vm::equality::{str_cmp, Order};
use jazz_vm::hashing::hash_value;
use jazz_vm::interp::{Frame, Machine, Step};
use jazz_vm::opcodes::Opcode;
use jazz_vm::scope::{declare_var, get_variable, instanceof, new_error, var_declared, ScopeErr};
use jazz_vm::token::{IntBase, IntSuffix, Position, Token, TokenKind};
use jazz_vm::value::{new_object, Heap, Value};

fn frame_with(code: Vec<Opcode>) -> Frame {
    let mut f = Frame::new(Machine::new());
    f.load_program(code);
    f
}

fn run(f: &mut Frame) -> Step {
    f.execute(1_000_000)
}

fn top_number(f: &Frame) -> i64 {
    match f.stack.last().expect("result") {
        Value::Number(n) => *n,
        _ => panic!("number expected"),
    }
}

#[test]
fn arithmetic_formulas() {
    let cases: Vec<(i64, i64, Opcode, i64)> = vec![
        (2, 3, Opcode::Add, 5),
        (10, 3, Opcode::Sub, 7),
        (6, 7, Opcode::Mul, 42),
        (17, 5, Opcode::Div, 3),
        (17, 5, Opcode::Rem, 2),
        (1, 3, Opcode::Shl, 8),
        (16, 2, Opcode::Shr, 4),
        (6, 3, Opcode::BitAnd, 2),
        (6, 3, Opcode::BitOr, 7),
        (6, 3, Opcode::BitXor, 5),
    ];
    for (a, b, op, expect) in cases {
        let mut f = frame_with(vec![Opcode::LoadInt(a), Opcode::LoadInt(b), op]);
        assert!(matches!(run(&mut f), Step::Done));
        assert_eq!(top_number(&f), expect);
    }
}

#[test]
fn division_by_zero_is_undefined() {
    let mut f = frame_with(vec![Opcode::LoadInt(1), Opcode::LoadInt(0), Opcode::Div]);
    assert!(matches!(run(&mut f), Step::Done));
    assert!(matches!(f.stack[0], Value::Undefined));
}

#[test]
fn arithmetic_type_mismatch_is_undefined() {
    let mut f = frame_with(vec![Opcode::LoadNil, Opcode::LoadInt(1), Opcode::Sub]);
    assert!(matches!(run(&mut f), Step::Done));
    assert!(matches!(f.stack[0], Value::Undefined));
}

#[test]
fn string_concatenation_uses_display_form() {
    let mut f = Frame::new(Machine::new());
    f.add_constant(Value::Str(String::from("n=")));
    f.load_program(vec![Opcode::LoadConst(0), Opcode::LoadInt(-5), Opcode::Add]);
    assert!(matches!(run(&mut f), Step::Done));
    match &f.stack[0] {
        Value::Str(s) => assert_eq!(s, "n=-5"),
        _ => panic!("string expected"),
    }

    let mut g = Frame::new(Machine::new());
    g.add_constant(Value::Str(String::from("!")));
    g.load_program(vec![Opcode::LoadNil, Opcode::LoadConst(0), Opcode::Add]);
    assert!(matches!(run(&mut g), Step::Done));
    match &g.stack[0] {
        Value::Str(s) => assert_eq!(s, "nil!"),
        _ => panic!("string expected"),
    }
}

#[test]
fn array_concatenation_allocates_fresh_array() {
    let mut f = frame_with(vec![
        Opcode::LoadInt(2),
        Opcode::ConstructArray(1),
        Opcode::LoadInt(3),
        Opcode::ConstructArray(1),
        Opcode::Add,
    ]);
    assert!(matches!(run(&mut f), Step::Done));
    let a = match f.stack[0] {
        Value::Array(a) => a,
        _ => panic!("array expected"),
    };
    assert_eq!(a, 2, "concatenation is a third, fresh array");
    let elems = &f.heap.arrays[a];
    assert_eq!(elems.len(), 2);
    assert!(matches!(elems[0], Value::Number(2)));
    assert!(matches!(elems[1], Value::Number(3)));
}

#[test]
fn logical_operators_use_truthiness() {
    // Numbers are true iff non-zero; strings and objects are true.
    let mut f = frame_with(vec![Opcode::LoadInt(0), Opcode::LoadInt(5), Opcode::And]);
    assert!(matches!(run(&mut f), Step::Done));
    assert!(matches!(f.stack[0], Value::Bool(false)));

    let mut g = frame_with(vec![Opcode::LoadInt(0), Opcode::LoadInt(5), Opcode::Or]);
    assert!(matches!(run(&mut g), Step::Done));
    assert!(matches!(g.stack[0], Value::Bool(true)));

    let mut h = frame_with(vec![Opcode::NewObj, Opcode::LoadTrue, Opcode::And]);
    assert!(matches!(run(&mut h), Step::Done));
    assert!(matches!(h.stack[0], Value::Bool(true)));
}

#[test]
fn comparisons_within_and_across_types() {
    let mut f = frame_with(vec![Opcode::LoadInt(2), Opcode::LoadInt(3), Opcode::Lt]);
    assert!(matches!(run(&mut f), Step::Done));
    assert!(matches!(f.stack[0], Value::Bool(true)));

    // mixed types are unordered: every comparison is false
    let mut g = Frame::new(Machine::new());
    g.add_constant(Value::Str(String::from("a")));
    g.load_program(vec![Opcode::LoadInt(1), Opcode::LoadConst(0), Opcode::Lt]);
    assert!(matches!(run(&mut g), Step::Done));
    assert!(matches!(g.stack[0], Value::Bool(false)));

    let mut h = Frame::new(Machine::new());
    h.add_constant(Value::Str(String::from("abc")));
    h.add_constant(Value::Str(String::from("abd")));
    h.load_program(vec![Opcode::LoadConst(0), Opcode::LoadConst(1), Opcode::Le]);
    assert!(matches!(run(&mut h), Step::Done));
    assert!(matches!(h.stack[0], Value::Bool(true)));
}

#[test]
fn not_and_neg() {
    let mut f = frame_with(vec![Opcode::LoadInt(0), Opcode::Not]);
    assert!(matches!(run(&mut f), Step::Done));
    assert_eq!(top_number(&f), -1);

    let mut g = frame_with(vec![Opcode::LoadTrue, Opcode::Not]);
    assert!(matches!(run(&mut g), Step::Done));
    assert!(matches!(g.stack[0], Value::Bool(false)));

    let mut h = frame_with(vec![Opcode::LoadNil, Opcode::Neg]);
    assert!(matches!(run(&mut h), Step::Done));
    assert_eq!(top_number(&h), 0);

    let mut k = frame_with(vec![Opcode::LoadInt(9), Opcode::Neg]);
    assert!(matches!(run(&mut k), Step::Done));
    assert_eq!(top_number(&k), -9);
}

#[test]
fn dup_on_empty_stack_duplicates_undefined() {
    let mut f = frame_with(vec![Opcode::Dup]);
    assert!(matches!(run(&mut f), Step::Done));
    assert_eq!(f.stack.len(), 2);
    assert!(matches!(f.stack[0], Value::Undefined));
    assert!(matches!(f.stack[1], Value::Undefined));
}

#[test]
fn array_length_and_indexing() {
    let mut f = Frame::new(Machine::new());
    f.add_constant(Value::Str(String::from("length")));
    f.load_program(vec![
        Opcode::LoadInt(9),
        Opcode::LoadInt(7),
        Opcode::ConstructArray(2),
        Opcode::LoadConst(0),
        Opcode::Load,
    ]);
    assert!(matches!(run(&mut f), Step::Done));
    assert_eq!(top_number(&f), 2);

    let mut g = frame_with(vec![
        Opcode::LoadInt(9),
        Opcode::LoadInt(7),
        Opcode::ConstructArray(2),
        Opcode::LoadInt(1),
        Opcode::Load,
    ]);
    assert!(matches!(run(&mut g), Step::Done));
    assert_eq!(top_number(&g), 9);
}

#[test]
fn array_out_of_range_read_is_catchable() {
    let mut f = frame_with(vec![
        Opcode::PushCatch(6),
        Opcode::LoadInt(7),
        Opcode::ConstructArray(1),
        Opcode::LoadInt(5),
        Opcode::Load,
        Opcode::Jump(999),
        Opcode::Label,
    ]);
    assert!(matches!(run(&mut f), Step::Done));
    match f.stack.last().expect("error") {
        Value::Object(e) => match &f.heap.objects[*e].table[2].1 {
            Value::Str(msg) => assert_eq!(msg, "Runtime exception: array index out of range"),
            _ => panic!("error text expected"),
        },
        _ => panic!("error object expected"),
    }
}

#[test]
fn array_element_write() {
    let mut f = frame_with(vec![
        Opcode::LoadInt(1),
        Opcode::ConstructArray(1),
        Opcode::DeclVar(String::from("a")),
        Opcode::LoadVar(String::from("a")),
        Opcode::LoadInt(0),
        Opcode::LoadInt(42),
        Opcode::Store,
        Opcode::LoadVar(String::from("a")),
        Opcode::LoadInt(0),
        Opcode::Load,
    ]);
    assert!(matches!(run(&mut f), Step::Done));
    assert_eq!(top_number(&f), 42);
}

#[test]
fn object_store_load_and_proto_read() {
    let mut f = Frame::new(Machine::new());
    f.add_constant(Value::Str(String::from("k")));
    f.add_constant(Value::Str(String::from("__proto__")));
    f.load_program(vec![
        Opcode::NewObj,
        Opcode::DeclVar(String::from("o")),
        Opcode::LoadVar(String::from("o")),
        Opcode::LoadConst(0),
        Opcode::LoadInt(3),
        Opcode::Store,
        Opcode::LoadVar(String::from("o")),
        Opcode::LoadConst(0),
        Opcode::Load,
        Opcode::LoadVar(String::from("o")),
        Opcode::LoadConst(1),
        Opcode::Load,
    ]);
    assert!(matches!(run(&mut f), Step::Done));
    assert_eq!(f.stack.len(), 2);
    assert!(matches!(f.stack[0], Value::Number(3)));
    // an object literal has no prototype
    assert!(matches!(f.stack[1], Value::Undefined));
}

#[test]
fn missing_property_reads_undefined() {
    let mut f = Frame::new(Machine::new());
    f.add_constant(Value::Str(String::from("missing")));
    f.load_program(vec![Opcode::NewObj, Opcode::LoadConst(0), Opcode::Load]);
    assert!(matches!(run(&mut f), Step::Done));
    assert!(matches!(f.stack[0], Value::Undefined));
}

#[test]
fn display_of_numbers() {
    assert_eq!(display_i64(0), "0");
    assert_eq!(display_i64(7), "7");
    assert_eq!(display_i64(-5), "-5");
    assert_eq!(display_i64(1234567890), "1234567890");
    assert_eq!(display_i64(i64::MIN), "-9223372036854775808");
}

#[test]
fn display_of_aggregates() {
    // build [7,8] and {a: 1} and concatenate each with "" to observe the
    // display form
    let mut f = Frame::new(Machine::new());
    f.add_constant(Value::Str(String::new()));
    f.load_program(vec![
        Opcode::LoadConst(0),
        Opcode::LoadInt(8),
        Opcode::LoadInt(7),
        Opcode::ConstructArray(2),
        Opcode::Add,
    ]);
    assert!(matches!(run(&mut f), Step::Done));
    match &f.stack[0] {
        Value::Str(s) => assert_eq!(s, "[7,8]"),
        _ => panic!("string expected"),
    }

    let mut g = Frame::new(Machine::new());
    g.add_constant(Value::Str(String::new()));
    g.add_constant(Value::Str(String::from("a")));
    g.load_program(vec![
        Opcode::NewObj,
        Opcode::DeclVar(String::from("o")),
        Opcode::LoadVar(String::from("o")),
        Opcode::LoadConst(1),
        Opcode::LoadInt(1),
        Opcode::Store,
        Opcode::LoadConst(0),
        Opcode::LoadVar(String::from("o")),
        Opcode::Add,
    ]);
    assert!(matches!(run(&mut g), Step::Done));
    match &g.stack[0] {
        Value::Str(s) => assert_eq!(s, "{a: 1}"),
        _ => panic!("string expected"),
    }
}

#[test]
fn string_ordering_is_lexicographic() {
    assert!(matches!(
        str_cmp(&String::from("abc"), &String::from("abd")),
        Order::Less
    ));
    assert!(matches!(
        str_cmp(&String::from("ab"), &String::from("ab")),
        Order::Equal
    ));
    assert!(matches!(
        str_cmp(&String::from("abc"), &String::from("ab")),
        Order::Greater
    ));
}

#[test]
fn declare_twice_is_a_duplicate() {
    let mut h = Heap::new();
    let scope = new_object(&mut h);
    let k = Value::Str(String::from("x"));
    assert!(declare_var(&mut h, scope, k, Value::Number(1), 64).is_ok());
    let k2 = Value::Str(String::from("x"));
    match declare_var(&mut h, scope, k2, Value::Number(2), 64) {
        Err(ScopeErr::Duplicate) => {}
        _ => panic!("duplicate declaration expected"),
    }
    let k3 = Value::Str(String::from("x"));
    assert_eq!(var_declared(&h, scope, &k3, 64), Ok(true));
    match get_variable(&h, scope, &k3, 64) {
        Ok(Some(Value::Number(1))) => {}
        _ => panic!("first declaration still bound"),
    }
}

#[test]
fn error_objects_carry_line_file_and_message() {
    let mut h = Heap::new();
    let e = new_error(&mut h, 12, Some("main.jazz"), "boom");
    let i = match e {
        Value::Object(i) => i,
        _ => panic!("object expected"),
    };
    let t = &h.objects[i].table;
    assert_eq!(t.len(), 3);
    assert!(matches!(t[0].1, Value::Number(12)));
    match &t[1].1 {
        Value::Str(s) => assert_eq!(s, "main.jazz"),
        _ => panic!("file expected"),
    }
    match &t[2].1 {
        Value::Str(s) => assert_eq!(s, "boom"),
        _ => panic!("message expected"),
    }
    let p = h.objects[i].proto.expect("prototype");
    match &h.objects[p].table[0].1 {
        Value::Str(s) => assert_eq!(s, "JLRuntimeError"),
        _ => panic!("error kind expected"),
    }
}

#[test]
fn instanceof_compares_the_prototype() {
    let mut h = Heap::new();
    let e = new_error(&mut h, 1, None, "x");
    let i = match e {
        Value::Object(i) => i,
        _ => panic!("object expected"),
    };
    let p = h.objects[i].proto.expect("prototype");
    assert_eq!(instanceof(&h, i, p, 64), Ok(true));
    let other = new_object(&mut h);
    assert_eq!(instanceof(&h, i, other, 64), Ok(false));
    // an object without a prototype is an instance of nothing
    assert_eq!(instanceof(&h, other, p, 64), Ok(false));
}

#[test]
fn yield_outside_a_call_is_a_runtime_error() {
    let mut f = frame_with(vec![Opcode::LoadInt(1), Opcode::Yield]);
    match run(&mut f) {
        Step::Failed(Value::Object(e)) => match &f.heap.objects[e].table[2].1 {
            Value::Str(msg) => assert_eq!(msg, "Runtime exception: can not find function state"),
            _ => panic!("error text expected"),
        },
        _ => panic!("failure expected"),
    }
}

#[test]
fn new_iter_rejects_plain_values() {
    let mut f = frame_with(vec![Opcode::LoadInt(1), Opcode::NewIter]);
    match run(&mut f) {
        Step::Failed(Value::Object(e)) => match &f.heap.objects[e].table[2].1 {
            Value::Str(msg) => assert_eq!(
                msg,
                "Runtime exception: Array or object expected in iterator instance"
            ),
            _ => panic!("error text expected"),
        },
        _ => panic!("failure expected"),
    }
}

#[test]
fn iterators_pass_through_new_iter() {
    let mut f = frame_with(vec![
        Opcode::LoadInt(7),
        Opcode::ConstructArray(1),
        Opcode::NewIter,
        Opcode::NewIter,
    ]);
    assert!(matches!(run(&mut f), Step::Done));
    assert_eq!(f.heap.iters.len(), 1, "the iterator passed through unchanged");
    assert!(matches!(f.stack[0], Value::Iter(0)));
}

#[test]
fn exhausted_iterator_reports_no_next() {
    let mut f = frame_with(vec![
        Opcode::ConstructArray(0),
        Opcode::NewIter,
        Opcode::Dup,
        Opcode::IterHasNext,
    ]);
    assert!(matches!(run(&mut f), Step::Done));
    assert!(matches!(f.stack.last(), Some(Value::Bool(false))));
}

#[test]
fn get_pos_finds_the_recorded_position() {
    let mut f = frame_with(vec![Opcode::Label]);
    f.m
        .line_no
        .push((0, Position::new(String::from("main.jazz"), 3, 4)));
    assert!(matches!(run(&mut f), Step::Done));
    let p = f.get_pos().expect("position");
    assert_eq!(p.file, "main.jazz");
    assert_eq!(p.line, 3);
    assert_eq!(p.column, 4);
}

#[test]
fn token_kind_names() {
    assert_eq!(TokenKind::Yield.name(), "yield");
    assert_eq!(TokenKind::Arrow.name(), "->");
    assert_eq!(TokenKind::GtGtGt.name(), ">>>");
    assert_eq!(
        TokenKind::LitInt(String::from("1"), IntBase::Dec, IntSuffix::Byte).name(),
        "byte number"
    );
    assert_eq!(TokenKind::Identifier(String::from("x")).name(), "identifier");
}

#[test]
fn token_display_names() {
    let pos = Position::new(String::from("f"), 1, 1);
    let t = Token::new(
        TokenKind::LitInt(String::from("17"), IntBase::Dec, IntSuffix::Long),
        pos,
    );
    assert_eq!(t.name(), "17L");
    let pos2 = Position::new(String::from("f"), 1, 2);
    let s = Token::new(TokenKind::String(String::from("hi")), pos2);
    assert_eq!(s.name(), "\"hi\"");
    let pos3 = Position::new(String::from("f"), 1, 3);
    let w = Token::new(TokenKind::While, pos3);
    assert_eq!(w.name(), "while");
}

#[test]
fn token_predicates() {
    let pos = Position::new(String::from("f"), 1, 1);
    let t = Token::new(TokenKind::End, pos);
    assert!(t.is_eof());
    assert!(t.is(TokenKind::End));
    assert!(!t.is(TokenKind::While));
    let pos2 = Position::new(String::from("f"), 2, 1);
    let id = Token::new(TokenKind::Identifier(String::from("x")), pos2);
    assert!(!id.is_eof());
    assert!(id.is(TokenKind::Identifier(String::from("x"))));
    assert!(!id.is(TokenKind::Identifier(String::from("y"))));
}

#[test]
fn int_base_radix() {
    assert_eq!(IntBase::Bin.num(), 2);
    assert_eq!(IntBase::Dec.num(), 10);
    assert_eq!(IntBase::Hex.num(), 16);
}

#[test]
fn wrapping_arithmetic_at_the_edges() {
    let mut f = frame_with(vec![
        Opcode::LoadInt(i64::MAX),
        Opcode::LoadInt(1),
        Opcode::Add,
    ]);
    assert!(matches!(run(&mut f), Step::Done));
    assert_eq!(top_number(&f), i64::MIN);

    let mut g = frame_with(vec![Opcode::LoadInt(i64::MIN), Opcode::Neg]);
    assert!(matches!(run(&mut g), Step::Done));
    assert_eq!(top_number(&g), i64::MIN);
}

#[test]
fn execute_budget_suspends_and_resumes() {
    let mut f = frame_with(vec![
        Opcode::LoadInt(1),
        Opcode::LoadInt(2),
        Opcode::Add,
    ]);
    assert!(matches!(f.execute(1), Step::Next));
    assert!(matches!(f.execute(1_000), Step::Done));
    assert_eq!(top_number(&f), 3);
}

#[test]
fn equal_structures_hash_alike() {
    let mut f = frame_with(vec![
        Opcode::LoadInt(2),
        Opcode::LoadInt(1),
        Opcode::ConstructArray(2),
        Opcode::LoadInt(2),
        Opcode::LoadInt(1),
        Opcode::ConstructArray(2),
        Opcode::LoadInt(1),
        Opcode::LoadInt(2),
        Opcode::ConstructArray(2),
    ]);
    assert!(matches!(run(&mut f), Step::Done));
    let h12a = hash_value(&f.heap, &f.stack[0], 64).expect("hash");
    let h12b = hash_value(&f.heap, &f.stack[1], 64).expect("hash");
    let h21 = hash_value(&f.heap, &f.stack[2], 64).expect("hash");
    assert_eq!(h12a, h12b, "separately built equal arrays hash alike");
    assert_ne!(h12a, h21, "order matters to the hash");
}

#[test]
fn plain_value_hashes() {
    let h = Heap::new();
    // Nil and Undefined hash the zero word, so they hash alike.
    let hn = hash_value(&h, &Value::Nil, 64).expect("hash");
    let hu = hash_value(&h, &Value::Undefined, 64).expect("hash");
    assert_eq!(hn, hu);
    let h0 = hash_value(&h, &Value::Number(0), 64).expect("hash");
    assert_eq!(hn, h0, "zero hashes as the zero word too");
    let h1 = hash_value(&h, &Value::Number(1), 64).expect("hash");
    assert_ne!(h0, h1);
    let hs = hash_value(&h, &Value::Str(String::from("ab")), 64).expect("hash");
    let hs2 = hash_value(&h, &Value::Str(String::from("ab")), 64).expect("hash");
    assert_eq!(hs, hs2);
}

#[test]
fn apply_requires_an_array() {
    let mut f = frame_with(vec![Opcode::LoadInt(5), Opcode::LoadInt(1), Opcode::Apply]);
    match run(&mut f) {
        Step::Failed(Value::Object(e)) => match &f.heap.objects[e].table[2].1 {
            Value::Str(msg) => assert_eq!(msg, "Runtime exception: Array expected in apply"),
            _ => panic!("error text expected"),
        },
        _ => panic!("failure expected"),
    }
}

#[test]
fn iterator_opcodes_require_an_iterator() {
    let mut f = frame_with(vec![Opcode::LoadInt(1), Opcode::IterHasNext]);
    match run(&mut f) {
        Step::Failed(Value::Object(e)) => match &f.heap.objects[e].table[2].1 {
            Value::Str(msg) => assert_eq!(msg, "Runtime exception: iterator expected"),
            _ => panic!("error text expected"),
        },
        _ => panic!("failure expected"),
    }
}

#[test]
fn init_env_requires_a_function() {
    let mut f = frame_with(vec![Opcode::LoadInt(1), Opcode::InitEnv]);
    match run(&mut f) {
        Step::Failed(Value::Object(e)) => match &f.heap.objects[e].table[2].1 {
            Value::Str(msg) => assert_eq!(msg, "Runtime exception: function expected"),
            _ => panic!("error text expected"),
        },
        _ => panic!("failure expected"),
    }
}
