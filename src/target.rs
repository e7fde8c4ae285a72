//! The target IR: machine-typed virtual registers, blocks of instructions,
//! and functions with a calling-convention signature.
use vstd::prelude::*;

verus! {

/// A machine type of the backend.
#[derive(Debug, Clone, Copy, PartialEq, Eq, Structural)]
pub enum MachType {
    /// 64-bit integer.
    I64,
    /// Boolean, held in the backend's narrowest integer type.
    I8,
}

/// A calling-convention signature: parameter and return types in order.
#[derive(Debug, Clone)]
pub struct CallSig {
    pub params: Vec<MachType>,
    pub results: Vec<MachType>,
}

/// A virtual register: the source name it holds, and its machine type.
/// Its index is its position in the function's register list.
#[derive(Debug, Clone)]
pub struct Reg {
    pub name: String,
    pub ty: MachType,
}

/// A register list as names paired with machine types.
pub open spec fn regs_view(v: Seq<Reg>) -> Seq<(Seq<char>, MachType)> {
    v.map_values(|r: Reg| (r.name@, r.ty))
}

/// Where an instruction reads a value: a virtual register, or a parameter
/// of the entry block (an argument of the function).
#[derive(Debug, Clone, Copy, PartialEq, Eq, Structural)]
pub enum Operand {
    Reg(usize),
    Param(usize),
}

/// Two-operand integer operations.
#[derive(Debug, Clone, Copy, PartialEq, Eq, Structural)]
pub enum BinOp {
    Iadd,
    Isub,
    Imul,
    Sdiv,
    Band,
    Bor,
}

/// Signed integer comparisons.
#[derive(Debug, Clone, Copy, PartialEq, Eq, Structural)]
pub enum IntCC {
    Equal,
    SignedLessThan,
    SignedGreaterThan,
    SignedLessThanOrEqual,
    SignedGreaterThanOrEqual,
}

/// Routines of the runtime support library.
#[derive(Debug, Clone, Copy, PartialEq, Eq, Structural)]
pub enum Runtime {
    PrintInt,
    PrintBool,
}

/// A target instruction. Registers and blocks are named by index.
#[derive(Debug, Clone)]
pub enum Inst {
    Iconst { dst: usize, ty: MachType, imm: i64 },
    Binary { op: BinOp, dst: usize, lhs: Operand, rhs: Operand },
    Icmp { cond: IntCC, dst: usize, lhs: Operand, rhs: Operand },
    Bnot { dst: usize, arg: Operand },
    Copy { dst: usize, src: Operand },
    Call { callee: usize, args: Vec<Operand>, dst: Option<usize> },
    CallRuntime { routine: Runtime, arg: Operand },
    Jump { target: usize },
    Brif { cond: Operand, then_block: usize, else_block: usize },
    Return { value: Option<Operand> },
}

/// The mathematical value of an [`Inst`].
pub enum InstV {
    Iconst { dst: usize, ty: MachType, imm: i64 },
    Binary { op: BinOp, dst: usize, lhs: Operand, rhs: Operand },
    Icmp { cond: IntCC, dst: usize, lhs: Operand, rhs: Operand },
    Bnot { dst: usize, arg: Operand },
    Copy { dst: usize, src: Operand },
    Call { callee: usize, args: Seq<Operand>, dst: Option<usize> },
    CallRuntime { routine: Runtime, arg: Operand },
    Jump { target: usize },
    Brif { cond: Operand, then_block: usize, else_block: usize },
    Return { value: Option<Operand> },
}

impl View for Inst {
    type V = InstV;

    open spec fn view(&self) -> InstV {
        match *self {
            Inst::Iconst { dst, ty, imm } => InstV::Iconst { dst, ty, imm },
            Inst::Binary { op, dst, lhs, rhs } => InstV::Binary { op, dst, lhs, rhs },
            Inst::Icmp { cond, dst, lhs, rhs } => InstV::Icmp { cond, dst, lhs, rhs },
            Inst::Bnot { dst, arg } => InstV::Bnot { dst, arg },
            Inst::Copy { dst, src } => InstV::Copy { dst, src },
            Inst::Call { callee, args, dst } => InstV::Call { callee, args: args@, dst },
            Inst::CallRuntime { routine, arg } => InstV::CallRuntime { routine, arg },
            Inst::Jump { target } => InstV::Jump { target },
            Inst::Brif { cond, then_block, else_block } => InstV::Brif { cond, then_block, else_block },
            Inst::Return { value } => InstV::Return { value },
        }
    }
}

/// Whether an instruction ends a block.
pub open spec fn is_terminator(i: InstV) -> bool {
    i is Jump || i is Brif || i is Return
}

/// A sequence of instructions as values.
pub open spec fn insts_view(s: Seq<Inst>) -> Seq<InstV> {
    s.map_values(|i: Inst| i@)
}

/// A basic block: its instructions, the last of them its terminator.
#[derive(Debug, Clone)]
pub struct BasicBlock {
    pub insts: Vec<Inst>,
}

/// The blocks of a function as values.
pub open spec fn blocks_view(s: Seq<BasicBlock>) -> Seq<Seq<InstV>> {
    s.map_values(|b: BasicBlock| insts_view(b.insts@))
}

/// A lowered function. BasicBlock 0 is the entry block; its parameters are the
/// function's arguments.
#[derive(Debug, Clone)]
pub struct TargetFunction {
    pub name: String,
    pub sig: CallSig,
    pub regs: Vec<Reg>,
    pub blocks: Vec<BasicBlock>,
}

/// The mathematical value of a [`TargetFunction`].
pub struct TargetFunctionV {
    pub name: Seq<char>,
    pub params: Seq<MachType>,
    pub results: Seq<MachType>,
    pub regs: Seq<(Seq<char>, MachType)>,
    pub blocks: Seq<Seq<InstV>>,
}

impl View for TargetFunction {
    type V = TargetFunctionV;

    open spec fn view(&self) -> TargetFunctionV {
        TargetFunctionV {
            name: self.name@,
            params: self.sig.params@,
            results: self.sig.results@,
            regs: regs_view(self.regs@),
            blocks: blocks_view(self.blocks@),
        }
    }
}

} // verus!
