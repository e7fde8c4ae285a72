//! The source IR: Bril programs, functions and instructions.
use vstd::prelude::*;

verus! {

/// A Bril type.
#[derive(Debug, Clone, Copy, PartialEq, Eq, Structural)]
pub enum BrilType {
    Int,
    Bool,
    Float,
    Char,
    Pointer,
}

/// A constant literal.
#[derive(Debug, Clone, Copy, PartialEq, Eq, Structural)]
pub enum Literal {
    Int(i64),
    Bool(bool),
}

/// Operators of instructions that produce a value.
#[derive(Debug, Clone, Copy, PartialEq, Eq, Structural)]
pub enum ValueOps {
    Add,
    Sub,
    Mul,
    Div,
    Eq,
    Lt,
    Gt,
    Le,
    Ge,
    Not,
    And,
    Or,
    Id,
    Call,
    Fadd,
    Fsub,
    Fmul,
    Fdiv,
    Alloc,
    Load,
    PtrAdd,
    Phi,
}

/// Operators of instructions run for their effect.
#[derive(Debug, Clone, Copy, PartialEq, Eq, Structural)]
pub enum EffectOps {
    Jump,
    Branch,
    Call,
    Return,
    Print,
    Nop,
    Store,
    Free,
    Speculate,
    Commit,
    Guard,
}

/// One instruction of a function body.
#[derive(Debug, Clone)]
pub enum Instruction {
    Constant { dest: String, const_type: BrilType, value: Literal },
    Value {
        args: Vec<String>,
        dest: String,
        funcs: Vec<String>,
        labels: Vec<String>,
        op: ValueOps,
        op_type: BrilType,
    },
    Effect { args: Vec<String>, funcs: Vec<String>, labels: Vec<String>, op: EffectOps },
}

/// An element of a function body: a label or an instruction.
#[derive(Debug, Clone)]
pub enum Code {
    Label { label: String },
    Instruction(Instruction),
}

/// A typed formal argument.
#[derive(Debug, Clone)]
pub struct Argument {
    pub name: String,
    pub arg_type: BrilType,
}

/// A Bril function.
#[derive(Debug, Clone)]
pub struct BrilFunction {
    pub name: String,
    pub args: Vec<Argument>,
    pub return_type: Option<BrilType>,
    pub instrs: Vec<Code>,
}

/// A whole Bril program: its functions in order.
#[derive(Debug, Clone)]
pub struct Program {
    pub functions: Vec<BrilFunction>,
}

/// The destination and declared type that a code element defines, if any.
pub open spec fn def_of(c: Code) -> Option<(Seq<char>, BrilType)> {
    match c {
        Code::Instruction(Instruction::Constant { dest, const_type, .. }) => Some((dest@, const_type)),
        Code::Instruction(Instruction::Value { dest, op_type, .. }) => Some((dest@, op_type)),
        _ => None,
    }
}

} // verus!
