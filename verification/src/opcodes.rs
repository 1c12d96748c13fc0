//! The instruction set of the virtual machine.

use vstd::prelude::*;

verus! {

/// One instruction. Payloads are constant-pool indices, small integers,
/// argument counts, absolute bytecode addresses, or variable names.
#[derive(Debug)]
pub enum Opcode {
    // Stack primitives
    LoadConst(usize),
    LoadInt(i64),
    LoadTrue,
    LoadFalse,
    LoadNil,
    LoadUndef,
    Dup,
    // Environment
    LoadVar(String),
    DeclVar(String),
    StoreVar(String),
    PushEnv,
    PopEnv,
    // Aggregates
    NewObj,
    ConstructArray(usize),
    Load,
    Store,
    // Control
    Jump(usize),
    JumpIf(usize),
    JumpIfFalse(usize),
    Label,
    // Arithmetic / logical
    Add,
    Sub,
    Mul,
    Div,
    Rem,
    Shl,
    Shr,
    BitAnd,
    BitOr,
    BitXor,
    And,
    Or,
    Gt,
    Ge,
    Lt,
    Le,
    Eq,
    Ne,
    Not,
    Neg,
    RefEq,
    RefNeq,
    // Call protocol
    InitEnv,
    Call(usize),
    Apply,
    Return,
    Yield,
    // Exceptions
    PushCatch(usize),
    PopCatch,
    Throw,
    // Iteration
    NewIter,
    IterHasNext,
    IterNext,
}

/// The fixed mnemonic of an opcode, used in diagnostics.
pub open spec fn mnemonic(op: Opcode) -> Seq<char> {
    match op {
        Opcode::LoadConst(_) => "LoadConst"@,
        Opcode::LoadInt(_) => "LoadInt"@,
        Opcode::LoadTrue => "LoadTrue"@,
        Opcode::LoadFalse => "LoadFalse"@,
        Opcode::LoadNil => "LoadNil"@,
        Opcode::LoadUndef => "LoadUndef"@,
        Opcode::Dup => "Dup"@,
        Opcode::LoadVar(_) => "LoadVar"@,
        Opcode::DeclVar(_) => "DeclVar"@,
        Opcode::StoreVar(_) => "StoreVar"@,
        Opcode::PushEnv => "PushEnv"@,
        Opcode::PopEnv => "PopEnv"@,
        Opcode::NewObj => "NewObj"@,
        Opcode::ConstructArray(_) => "ConstructArray"@,
        Opcode::Load => "Load"@,
        Opcode::Store => "Store"@,
        Opcode::Jump(_) => "Jump"@,
        Opcode::JumpIf(_) => "JumpIf"@,
        Opcode::JumpIfFalse(_) => "JumpIfFalse"@,
        Opcode::Label => "Label"@,
        Opcode::Add => "Add"@,
        Opcode::Sub => "Sub"@,
        Opcode::Mul => "Mul"@,
        Opcode::Div => "Div"@,
        Opcode::Rem => "Rem"@,
        Opcode::Shl => "Shl"@,
        Opcode::Shr => "Shr"@,
        Opcode::BitAnd => "BitAnd"@,
        Opcode::BitOr => "BitOr"@,
        Opcode::BitXor => "BitXor"@,
        Opcode::And => "And"@,
        Opcode::Or => "Or"@,
        Opcode::Gt => "Gt"@,
        Opcode::Ge => "Ge"@,
        Opcode::Lt => "Lt"@,
        Opcode::Le => "Le"@,
        Opcode::Eq => "Eq"@,
        Opcode::Ne => "Ne"@,
        Opcode::Not => "Not"@,
        Opcode::Neg => "Neg"@,
        Opcode::RefEq => "RefEq"@,
        Opcode::RefNeq => "RefNeq"@,
        Opcode::InitEnv => "InitEnv"@,
        Opcode::Call(_) => "Call"@,
        Opcode::Apply => "Apply"@,
        Opcode::Return => "Return"@,
        Opcode::Yield => "Yield"@,
        Opcode::PushCatch(_) => "PushCatch"@,
        Opcode::PopCatch => "PopCatch"@,
        Opcode::Throw => "Throw"@,
        Opcode::NewIter => "NewIter"@,
        Opcode::IterHasNext => "IterHasNext"@,
        Opcode::IterNext => "IterNext"@,
    }
}

impl Opcode {
    /// Executable counterpart of [`mnemonic`].
    pub fn name(&self) -> (r: &'static str)
        ensures
            r@ == mnemonic(*self),
    {
        match self {
            Opcode::LoadConst(_) => "LoadConst",
            Opcode::LoadInt(_) => "LoadInt",
            Opcode::LoadTrue => "LoadTrue",
            Opcode::LoadFalse => "LoadFalse",
            Opcode::LoadNil => "LoadNil",
            Opcode::LoadUndef => "LoadUndef",
            Opcode::Dup => "Dup",
            Opcode::LoadVar(_) => "LoadVar",
            Opcode::DeclVar(_) => "DeclVar",
            Opcode::StoreVar(_) => "StoreVar",
            Opcode::PushEnv => "PushEnv",
            Opcode::PopEnv => "PopEnv",
            Opcode::NewObj => "NewObj",
            Opcode::ConstructArray(_) => "ConstructArray",
            Opcode::Load => "Load",
            Opcode::Store => "Store",
            Opcode::Jump(_) => "Jump",
            Opcode::JumpIf(_) => "JumpIf",
            Opcode::JumpIfFalse(_) => "JumpIfFalse",
            Opcode::Label => "Label",
            Opcode::Add => "Add",
            Opcode::Sub => "Sub",
            Opcode::Mul => "Mul",
            Opcode::Div => "Div",
            Opcode::Rem => "Rem",
            Opcode::Shl => "Shl",
            Opcode::Shr => "Shr",
            Opcode::BitAnd => "BitAnd",
            Opcode::BitOr => "BitOr",
            Opcode::BitXor => "BitXor",
            Opcode::And => "And",
            Opcode::Or => "Or",
            Opcode::Gt => "Gt",
            Opcode::Ge => "Ge",
            Opcode::Lt => "Lt",
            Opcode::Le => "Le",
            Opcode::Eq => "Eq",
            Opcode::Ne => "Ne",
            Opcode::Not => "Not",
            Opcode::Neg => "Neg",
            Opcode::RefEq => "RefEq",
            Opcode::RefNeq => "RefNeq",
            Opcode::InitEnv => "InitEnv",
            Opcode::Call(_) => "Call",
            Opcode::Apply => "Apply",
            Opcode::Return => "Return",
            Opcode::Yield => "Yield",
            Opcode::PushCatch(_) => "PushCatch",
            Opcode::PopCatch => "PopCatch",
            Opcode::Throw => "Throw",
            Opcode::NewIter => "NewIter",
            Opcode::IterHasNext => "IterHasNext",
            Opcode::IterNext => "IterNext",
        }
    }
}

impl Clone for Opcode {
    fn clone(&self) -> (res: Self)
        ensures
            res == *self,
    {
        match self {
            Opcode::LoadConst(i) => Opcode::LoadConst(*i),
            Opcode::LoadInt(i) => Opcode::LoadInt(*i),
            Opcode::LoadTrue => Opcode::LoadTrue,
            Opcode::LoadFalse => Opcode::LoadFalse,
            Opcode::LoadNil => Opcode::LoadNil,
            Opcode::LoadUndef => Opcode::LoadUndef,
            Opcode::Dup => Opcode::Dup,
            Opcode::LoadVar(s) => Opcode::LoadVar(s.clone()),
            Opcode::DeclVar(s) => Opcode::DeclVar(s.clone()),
            Opcode::StoreVar(s) => Opcode::StoreVar(s.clone()),
            Opcode::PushEnv => Opcode::PushEnv,
            Opcode::PopEnv => Opcode::PopEnv,
            Opcode::NewObj => Opcode::NewObj,
            Opcode::ConstructArray(n) => Opcode::ConstructArray(*n),
            Opcode::Load => Opcode::Load,
            Opcode::Store => Opcode::Store,
            Opcode::Jump(t) => Opcode::Jump(*t),
            Opcode::JumpIf(t) => Opcode::JumpIf(*t),
            Opcode::JumpIfFalse(t) => Opcode::JumpIfFalse(*t),
            Opcode::Label => Opcode::Label,
            Opcode::Add => Opcode::Add,
            Opcode::Sub => Opcode::Sub,
            Opcode::Mul => Opcode::Mul,
            Opcode::Div => Opcode::Div,
            Opcode::Rem => Opcode::Rem,
            Opcode::Shl => Opcode::Shl,
            Opcode::Shr => Opcode::Shr,
            Opcode::BitAnd => Opcode::BitAnd,
            Opcode::BitOr => Opcode::BitOr,
            Opcode::BitXor => Opcode::BitXor,
            Opcode::And => Opcode::And,
            Opcode::Or => Opcode::Or,
            Opcode::Gt => Opcode::Gt,
            Opcode::Ge => Opcode::Ge,
            Opcode::Lt => Opcode::Lt,
            Opcode::Le => Opcode::Le,
            Opcode::Eq => Opcode::Eq,
            Opcode::Ne => Opcode::Ne,
            Opcode::Not => Opcode::Not,
            Opcode::Neg => Opcode::Neg,
            Opcode::RefEq => Opcode::RefEq,
            Opcode::RefNeq => Opcode::RefNeq,
            Opcode::InitEnv => Opcode::InitEnv,
            Opcode::Call(n) => Opcode::Call(*n),
            Opcode::Apply => Opcode::Apply,
            Opcode::Return => Opcode::Return,
            Opcode::Yield => Opcode::Yield,
            Opcode::PushCatch(a) => Opcode::PushCatch(*a),
            Opcode::PopCatch => Opcode::PopCatch,
            Opcode::Throw => Opcode::Throw,
            Opcode::NewIter => Opcode::NewIter,
            Opcode::IterHasNext => Opcode::IterHasNext,
            Opcode::IterNext => Opcode::IterNext,
        }
    }
}

} // verus!
