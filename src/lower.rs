//! The instruction lowerer: one source instruction to target instructions.
use vstd::prelude::*;
use crate::error::LowerError;
use crate::regalloc::{find_reg, first_index, lemma_first_index, lemma_no_index, names_of};
use crate::source::{EffectOps, Instruction, Literal, ValueOps};
use crate::target::{
    BinOp, Inst, InstV, IntCC, MachType, Operand, Reg, Runtime, insts_view, regs_view,
};
use crate::types::{map_type, tr_type};

verus! {

/// What a call site needs to know of a function of the program.
#[derive(Debug, Clone)]
pub struct Callee {
    pub name: String,
    pub params: usize,
    pub has_result: bool,
}

/// Everything an instruction of one function is lowered against.
pub struct Env {
    /// The function's registers (see `all_vars`).
    pub regs: Vec<Reg>,
    /// The function's arguments with their machine types.
    pub params: Vec<Reg>,
    /// The function's labels; label `i` starts block `i + 1`.
    pub labels: Vec<String>,
    /// The functions of the program, in order.
    pub callees: Vec<Callee>,
    /// Whether the function returns a value.
    pub returns_value: bool,
}

/// The mathematical value of an [`Env`].
pub struct EnvV {
    pub regs: Seq<(Seq<char>, MachType)>,
    pub params: Seq<(Seq<char>, MachType)>,
    pub labels: Seq<Seq<char>>,
    pub callees: Seq<(Seq<char>, nat, bool)>,
    pub returns_value: bool,
}

pub open spec fn callees_view(s: Seq<Callee>) -> Seq<(Seq<char>, nat, bool)> {
    s.map_values(|c: Callee| (c.name@, c.params as nat, c.has_result))
}

pub open spec fn strings_view(s: Seq<String>) -> Seq<Seq<char>> {
    s.map_values(|x: String| x@)
}

impl View for Env {
    type V = EnvV;

    open spec fn view(&self) -> EnvV {
        EnvV {
            regs: regs_view(self.regs@),
            params: regs_view(self.params@),
            labels: strings_view(self.labels@),
            callees: callees_view(self.callees@),
            returns_value: self.returns_value,
        }
    }
}

/// The value a name denotes: its register, else the argument of that name.
pub open spec fn resolve(env: EnvV, x: Seq<char>) -> Option<Operand> {
    match first_index(names_of(env.regs), x) {
        Some(j) => Some(Operand::Reg(j as usize)),
        None => match first_index(names_of(env.params), x) {
            Some(i) => Some(Operand::Param(i as usize)),
            None => None,
        },
    }
}

/// The values that a list of names denotes, if each denotes one.
pub open spec fn resolve_all(env: EnvV, xs: Seq<String>) -> Option<Seq<Operand>> {
    if forall|i: int| 0 <= i < xs.len() ==> (#[trigger] resolve(env, xs[i]@)) is Some {
        Some(xs.map_values(|x: String| resolve(env, x@)->Some_0))
    } else {
        None
    }
}

/// The machine type of an operand.
pub open spec fn operand_type(env: EnvV, o: Operand) -> MachType {
    match o {
        Operand::Reg(j) => env.regs[j as int].1,
        Operand::Param(i) => env.params[i as int].1,
    }
}

/// The print routine for values of a machine type.
pub open spec fn print_routine(t: MachType) -> Runtime {
    match t {
        MachType::I64 => Runtime::PrintInt,
        MachType::I8 => Runtime::PrintBool,
    }
}

/// The block that a label starts.
pub open spec fn label_block(env: EnvV, l: Seq<char>) -> Option<usize> {
    match first_index(env.labels, l) {
        Some(i) => Some((i + 1) as usize),
        None => None,
    }
}

/// The function that a call names, where it takes `n` arguments and, if
/// `needs_result`, returns a value.
pub open spec fn call_target(env: EnvV, funcs: Seq<String>, n: nat, needs_result: bool) -> Option<usize> {
    if funcs.len() != 1 {
        None
    } else {
        match first_index(env.callees.map_values(|c: (Seq<char>, nat, bool)| c.0), funcs[0]@) {
            Some(c) => if env.callees[c].1 == n && (needs_result ==> env.callees[c].2) {
                Some(c as usize)
            } else {
                None
            },
            None => None,
        }
    }
}

/// The two-operand operation of a value operator.
pub open spec fn binop_of(op: ValueOps) -> Option<BinOp> {
    match op {
        ValueOps::Add => Some(BinOp::Iadd),
        ValueOps::Sub => Some(BinOp::Isub),
        ValueOps::Mul => Some(BinOp::Imul),
        ValueOps::Div => Some(BinOp::Sdiv),
        ValueOps::And => Some(BinOp::Band),
        ValueOps::Or => Some(BinOp::Bor),
        _ => None,
    }
}

/// The comparison of a value operator.
pub open spec fn cmp_of(op: ValueOps) -> Option<IntCC> {
    match op {
        ValueOps::Eq => Some(IntCC::Equal),
        ValueOps::Lt => Some(IntCC::SignedLessThan),
        ValueOps::Gt => Some(IntCC::SignedGreaterThan),
        ValueOps::Le => Some(IntCC::SignedLessThanOrEqual),
        ValueOps::Ge => Some(IntCC::SignedGreaterThanOrEqual),
        _ => None,
    }
}

/// Whether a value operator is lowered at all.
pub open spec fn value_supported(op: ValueOps) -> bool {
    binop_of(op) is Some || cmp_of(op) is Some || op == ValueOps::Not || op == ValueOps::Id
        || op == ValueOps::Call
}

/// The target instruction of a value instruction.
pub open spec fn lower_value(
    env: EnvV,
    dest: Seq<char>,
    op: ValueOps,
    args: Seq<String>,
    funcs: Seq<String>,
) -> Result<InstV, LowerError> {
    if !value_supported(op) {
        Err(LowerError::UnsupportedOperator)
    } else {
        match first_index(names_of(env.regs), dest) {
            None => Err(LowerError::Malformed),
            Some(d) => match resolve_all(env, args) {
                None => Err(LowerError::Malformed),
                Some(a) => if op == ValueOps::Call {
                    match call_target(env, funcs, a.len(), true) {
                        Some(c) => Ok(InstV::Call { callee: c, args: a, dst: Some(d as usize) }),
                        None => Err(LowerError::Malformed),
                    }
                } else if op == ValueOps::Not || op == ValueOps::Id {
                    if a.len() != 1 {
                        Err(LowerError::Malformed)
                    } else if op == ValueOps::Not {
                        Ok(InstV::Bnot { dst: d as usize, arg: a[0] })
                    } else {
                        Ok(InstV::Copy { dst: d as usize, src: a[0] })
                    }
                } else if a.len() != 2 {
                    Err(LowerError::Malformed)
                } else {
                    match binop_of(op) {
                        Some(b) => Ok(InstV::Binary { op: b, dst: d as usize, lhs: a[0], rhs: a[1] }),
                        None => Ok(
                            InstV::Icmp { cond: cmp_of(op)->Some_0, dst: d as usize, lhs: a[0], rhs: a[1] },
                        ),
                    }
                },
            },
        }
    }
}

/// The target instructions of an effect instruction, and whether they end
/// the block.
pub open spec fn lower_effect(
    env: EnvV,
    op: EffectOps,
    args: Seq<String>,
    funcs: Seq<String>,
    labels: Seq<String>,
) -> Result<(Seq<InstV>, bool), LowerError> {
    match op {
        EffectOps::Jump => if labels.len() == 1 {
            match label_block(env, labels[0]@) {
                Some(b) => Ok((seq![InstV::Jump { target: b }], true)),
                None => Err(LowerError::Malformed),
            }
        } else {
            Err(LowerError::Malformed)
        },
        EffectOps::Branch => if args.len() == 1 && labels.len() == 2 {
            match (resolve(env, args[0]@), label_block(env, labels[0]@), label_block(env, labels[1]@)) {
                (Some(c), Some(t), Some(e)) => Ok(
                    (seq![InstV::Brif { cond: c, then_block: t, else_block: e }], true),
                ),
                _ => Err(LowerError::Malformed),
            }
        } else {
            Err(LowerError::Malformed)
        },
        EffectOps::Return => match resolve_all(env, args) {
            None => Err(LowerError::Malformed),
            Some(a) => if a.len() == 0 && !env.returns_value {
                Ok((seq![InstV::Return { value: None }], true))
            } else if a.len() == 1 && env.returns_value {
                Ok((seq![InstV::Return { value: Some(a[0]) }], true))
            } else {
                Err(LowerError::Malformed)
            },
        },
        EffectOps::Call => match resolve_all(env, args) {
            None => Err(LowerError::Malformed),
            Some(a) => match call_target(env, funcs, a.len(), false) {
                Some(c) => Ok((seq![InstV::Call { callee: c, args: a, dst: None }], false)),
                None => Err(LowerError::Malformed),
            },
        },
        EffectOps::Print => match resolve_all(env, args) {
            None => Err(LowerError::Malformed),
            Some(a) => Ok(
                (
                    a.map_values(
                        |o: Operand|
                            InstV::CallRuntime { routine: print_routine(operand_type(env, o)), arg: o },
                    ),
                    false,
                ),
            ),
        },
        EffectOps::Nop => Ok((seq![], false)),
        _ => Err(LowerError::UnsupportedOperator),
    }
}

/// The target instructions of one source instruction, and whether they end
/// the block.
pub open spec fn lower_instr(env: EnvV, ins: Instruction) -> Result<(Seq<InstV>, bool), LowerError> {
    match ins {
        Instruction::Constant { dest, const_type, value } => match map_type(const_type) {
            None => Err(LowerError::UnsupportedType),
            Some(m) => match first_index(names_of(env.regs), dest@) {
                None => Err(LowerError::Malformed),
                Some(d) => match value {
                    Literal::Int(n) => if m == MachType::I64 {
                        Ok((seq![InstV::Iconst { dst: d as usize, ty: m, imm: n }], false))
                    } else {
                        Err(LowerError::Malformed)
                    },
                    Literal::Bool(b) => if m == MachType::I8 {
                        Ok((seq![InstV::Iconst { dst: d as usize, ty: m, imm: if b { 1 } else { 0 } }], false))
                    } else {
                        Err(LowerError::Malformed)
                    },
                },
            },
        },
        Instruction::Value { args, dest, funcs, op, .. } => match lower_value(env, dest@, op, args@, funcs@) {
            Ok(i) => Ok((seq![i], false)),
            Err(e) => Err(e),
        },
        Instruction::Effect { args, funcs, labels, op } => lower_effect(env, op, args@, funcs@, labels@),
    }
}

/// The first position of `name` in a list of strings.
pub fn find_name(names: &Vec<String>, name: &String) -> (r: Option<usize>)
    ensures
        r matches Some(j) ==> first_index(strings_view(names@), name@) == Some(j as int),
        r is None ==> first_index(strings_view(names@), name@) is None,
{
    let ghost ns = strings_view(names@);
    let mut i: usize = 0;
    while i < names.len()
        invariant
            i <= names@.len(),
            ns == strings_view(names@),
            forall|k: int| 0 <= k < i ==> ns[k] != name@,
        decreases names@.len() - i,
    {
        if names[i] == *name {
            proof { lemma_first_index(ns, name@, i as int); }
            return Some(i);
        }
        i = i + 1;
    }
    proof { lemma_no_index(ns, name@); }
    None
}

/// The first position of the function named `name` among the callees.
fn find_callee(callees: &Vec<Callee>, name: &String) -> (r: Option<usize>)
    ensures
        ({
            let ns = callees_view(callees@).map_values(|c: (Seq<char>, nat, bool)| c.0);
            &&& r matches Some(j) ==> first_index(ns, name@) == Some(j as int)
            &&& r is None ==> first_index(ns, name@) is None
        }),
{
    let ghost ns = callees_view(callees@).map_values(|c: (Seq<char>, nat, bool)| c.0);
    let mut i: usize = 0;
    while i < callees.len()
        invariant
            i <= callees@.len(),
            ns == callees_view(callees@).map_values(|c: (Seq<char>, nat, bool)| c.0),
            forall|k: int| 0 <= k < i ==> ns[k] != name@,
        decreases callees@.len() - i,
    {
        if callees[i].name == *name {
            proof { lemma_first_index(ns, name@, i as int); }
            return Some(i);
        }
        i = i + 1;
    }
    proof { lemma_no_index(ns, name@); }
    None
}

/// Resolves a name to its register, else to the argument of that name.
pub fn resolve_name(env: &Env, x: &String) -> (r: Result<Operand, LowerError>)
    ensures
        match resolve(env@, x@) {
            Some(o) => r == Ok::<Operand, LowerError>(o),
            None => r == Err::<Operand, LowerError>(LowerError::Malformed),
        },
{
    match find_reg(&env.regs, x) {
        Some(j) => Ok(Operand::Reg(j)),
        None => match find_reg(&env.params, x) {
            Some(i) => Ok(Operand::Param(i)),
            None => Err(LowerError::Malformed),
        },
    }
}

/// Resolves each name of a list, in order.
pub fn resolve_names(env: &Env, xs: &Vec<String>) -> (r: Result<Vec<Operand>, LowerError>)
    ensures
        match resolve_all(env@, xs@) {
            Some(a) => r is Ok && r->Ok_0@ == a,
            None => r == Err::<Vec<Operand>, LowerError>(LowerError::Malformed),
        },
{
    let mut out: Vec<Operand> = Vec::new();
    let mut i: usize = 0;
    while i < xs.len()
        invariant
            i <= xs@.len(),
            out@.len() == i,
            forall|k: int| 0 <= k < i ==> (#[trigger] resolve(env@, xs@[k]@)) == Some(out@[k]),
        decreases xs@.len() - i,
    {
        match resolve_name(env, &xs[i]) {
            Ok(o) => out.push(o),
            Err(e) => {
                assert(resolve(env@, xs@[i as int]@) is None);
                return Err(e);
            },
        }
        i = i + 1;
    }
    assert(out@ =~= xs@.map_values(|x: String| resolve(env@, x@)->Some_0));
    Ok(out)
}

/// The index of the function a call names, checked against the number of
/// arguments and, if `needs_result`, against a return value.
fn find_call_target(env: &Env, funcs: &Vec<String>, n: usize, needs_result: bool) -> (r: Result<usize, LowerError>)
    ensures
        match call_target(env@, funcs@, n as nat, needs_result) {
            Some(c) => r == Ok::<usize, LowerError>(c),
            None => r == Err::<usize, LowerError>(LowerError::Malformed),
        },
{
    if funcs.len() != 1 {
        return Err(LowerError::Malformed);
    }
    match find_callee(&env.callees, &funcs[0]) {
        Some(c) => {
            if env.callees[c].params == n && (!needs_result || env.callees[c].has_result) {
                Ok(c)
            } else {
                Err(LowerError::Malformed)
            }
        },
        None => Err(LowerError::Malformed),
    }
}

/// The block that a label starts.
fn find_label_block(env: &Env, l: &String) -> (r: Result<usize, LowerError>)
    requires
        env.labels@.len() < usize::MAX,
    ensures
        match label_block(env@, l@) {
            Some(b) => r == Ok::<usize, LowerError>(b),
            None => r == Err::<usize, LowerError>(LowerError::Malformed),
        },
{
    match find_name(&env.labels, l) {
        Some(i) => Ok(i + 1),
        None => Err(LowerError::Malformed),
    }
}

/// Lowers a value instruction: `op` applied to `args`, bound to `dest`.
/// Unsupported operators fail with `UnsupportedOperator`.
pub fn lower_value_inst(
    env: &Env,
    dest: &String,
    op: ValueOps,
    args: &Vec<String>,
    funcs: &Vec<String>,
) -> (r: Result<Inst, LowerError>)
    ensures
        match r {
            Ok(i) => lower_value(env@, dest@, op, args@, funcs@) == Ok::<InstV, LowerError>(i@),
            Err(e) => lower_value(env@, dest@, op, args@, funcs@) == Err::<InstV, LowerError>(e),
        },
{
    let supported = match op {
        ValueOps::Add | ValueOps::Sub | ValueOps::Mul | ValueOps::Div | ValueOps::And | ValueOps::Or
        | ValueOps::Eq | ValueOps::Lt | ValueOps::Gt | ValueOps::Le | ValueOps::Ge | ValueOps::Not
        | ValueOps::Id | ValueOps::Call => true,
        _ => false,
    };
    if !supported {
        return Err(LowerError::UnsupportedOperator);
    }
    let d = match find_reg(&env.regs, dest) {
        Some(d) => d,
        None => return Err(LowerError::Malformed),
    };
    let a = resolve_names(env, args)?;
    match op {
        ValueOps::Call => {
            let c = find_call_target(env, funcs, a.len(), true)?;
            Ok(Inst::Call { callee: c, args: a, dst: Some(d) })
        },
        ValueOps::Not | ValueOps::Id => {
            if a.len() != 1 {
                Err(LowerError::Malformed)
            } else if op == ValueOps::Not {
                Ok(Inst::Bnot { dst: d, arg: a[0] })
            } else {
                Ok(Inst::Copy { dst: d, src: a[0] })
            }
        },
        _ => {
            if a.len() != 2 {
                return Err(LowerError::Malformed);
            }
            let (lhs, rhs) = (a[0], a[1]);
            match op {
                ValueOps::Add => Ok(Inst::Binary { op: BinOp::Iadd, dst: d, lhs, rhs }),
                ValueOps::Sub => Ok(Inst::Binary { op: BinOp::Isub, dst: d, lhs, rhs }),
                ValueOps::Mul => Ok(Inst::Binary { op: BinOp::Imul, dst: d, lhs, rhs }),
                ValueOps::Div => Ok(Inst::Binary { op: BinOp::Sdiv, dst: d, lhs, rhs }),
                ValueOps::And => Ok(Inst::Binary { op: BinOp::Band, dst: d, lhs, rhs }),
                ValueOps::Or => Ok(Inst::Binary { op: BinOp::Bor, dst: d, lhs, rhs }),
                ValueOps::Eq => Ok(Inst::Icmp { cond: IntCC::Equal, dst: d, lhs, rhs }),
                ValueOps::Lt => Ok(Inst::Icmp { cond: IntCC::SignedLessThan, dst: d, lhs, rhs }),
                ValueOps::Gt => Ok(Inst::Icmp { cond: IntCC::SignedGreaterThan, dst: d, lhs, rhs }),
                ValueOps::Le => Ok(Inst::Icmp { cond: IntCC::SignedLessThanOrEqual, dst: d, lhs, rhs }),
                _ => Ok(Inst::Icmp { cond: IntCC::SignedGreaterThanOrEqual, dst: d, lhs, rhs }),
            }
        },
    }
}

/// The machine type of an operand.
fn operand_mach_type(env: &Env, o: Operand) -> (r: MachType)
    requires
        match o {
            Operand::Reg(j) => j < env.regs@.len(),
            Operand::Param(i) => i < env.params@.len(),
        },
    ensures
        r == operand_type(env@, o),
{
    match o {
        Operand::Reg(j) => env.regs[j].ty,
        Operand::Param(i) => env.params[i].ty,
    }
}

/// Lowers an effect instruction. Printing calls the runtime routine of each
/// argument's type, one call per argument in order; jumps, branches and
/// returns end the block.
pub fn lower_effect_inst(
    env: &Env,
    op: EffectOps,
    args: &Vec<String>,
    funcs: &Vec<String>,
    labels: &Vec<String>,
) -> (r: Result<(Vec<Inst>, bool), LowerError>)
    requires
        env.labels@.len() < usize::MAX,
    ensures
        match r {
            Ok((v, t)) => lower_effect(env@, op, args@, funcs@, labels@) == Ok::<
                (Seq<InstV>, bool),
                LowerError,
            >((insts_view(v@), t)),
            Err(e) => lower_effect(env@, op, args@, funcs@, labels@) == Err::<(Seq<InstV>, bool), LowerError>(e),
        },
{
    let mut out: Vec<Inst> = Vec::new();
    match op {
        EffectOps::Jump => {
            if labels.len() != 1 {
                return Err(LowerError::Malformed);
            }
            let b = find_label_block(env, &labels[0])?;
            out.push(Inst::Jump { target: b });
            assert(insts_view(out@) =~= seq![InstV::Jump { target: b }]);
            Ok((out, true))
        },
        EffectOps::Branch => {
            if args.len() != 1 || labels.len() != 2 {
                return Err(LowerError::Malformed);
            }
            let c = resolve_name(env, &args[0]);
            let t = find_label_block(env, &labels[0]);
            let e = find_label_block(env, &labels[1]);
            match (c, t, e) {
                (Ok(c), Ok(t), Ok(e)) => {
                    out.push(Inst::Brif { cond: c, then_block: t, else_block: e });
                    assert(insts_view(out@) =~= seq![InstV::Brif { cond: c, then_block: t, else_block: e }]);
                    Ok((out, true))
                },
                _ => Err(LowerError::Malformed),
            }
        },
        EffectOps::Return => {
            let a = resolve_names(env, args)?;
            if a.len() == 0 && !env.returns_value {
                out.push(Inst::Return { value: None });
                assert(insts_view(out@) =~= seq![InstV::Return { value: None }]);
                Ok((out, true))
            } else if a.len() == 1 && env.returns_value {
                out.push(Inst::Return { value: Some(a[0]) });
                assert(insts_view(out@) =~= seq![InstV::Return { value: Some(a@[0]) }]);
                Ok((out, true))
            } else {
                Err(LowerError::Malformed)
            }
        },
        EffectOps::Call => {
            let a = resolve_names(env, args)?;
            let c = find_call_target(env, funcs, a.len(), false)?;
            let ghost av = a@;
            out.push(Inst::Call { callee: c, args: a, dst: None });
            assert(insts_view(out@) =~= seq![InstV::Call { callee: c, args: av, dst: None }]);
            Ok((out, false))
        },
        EffectOps::Print => {
            let a = resolve_names(env, args)?;
            let ghost spec_out = a@.map_values(
                |o: Operand| InstV::CallRuntime { routine: print_routine(operand_type(env@, o)), arg: o },
            );
            let mut i: usize = 0;
            while i < a.len()
                invariant
                    i <= a@.len(),
                    resolve_all(env@, args@) == Some(a@),
                    insts_view(out@) == spec_out.take(i as int),
                    spec_out == a@.map_values(
                        |o: Operand| InstV::CallRuntime { routine: print_routine(operand_type(env@, o)), arg: o },
                    ),
                decreases a@.len() - i,
            {
                let o = a[i];
                proof {
                    let k = i as int;
                    assert(resolve(env@, args@[k]@) is Some);
                    assert(first_index(names_of(env@.regs), args@[k]@) matches Some(j) ==> 0 <= j < env@.regs.len());
                    assert(first_index(names_of(env@.params), args@[k]@) matches Some(j) ==> 0 <= j < env@.params.len());
                }
                let t = operand_mach_type(env, o);
                let routine = match t {
                    MachType::I64 => Runtime::PrintInt,
                    MachType::I8 => Runtime::PrintBool,
                };
                out.push(Inst::CallRuntime { routine, arg: o });
                assert(spec_out.take(i + 1) =~= spec_out.take(i as int).push(InstV::CallRuntime { routine, arg: o }));
                assert(insts_view(out@) =~= spec_out.take(i + 1));
                i = i + 1;
            }
            assert(spec_out.take(i as int) =~= spec_out);
            Ok((out, false))
        },
        EffectOps::Nop => {
            assert(insts_view(out@) =~= seq![]);
            Ok((out, false))
        },
        _ => Err(LowerError::UnsupportedOperator),
    }
}

/// Lowers one source instruction to the target instructions it becomes, and
/// says whether they end the block.
pub fn lower_instruction(env: &Env, ins: &Instruction) -> (r: Result<(Vec<Inst>, bool), LowerError>)
    requires
        env.labels@.len() < usize::MAX,
    ensures
        match r {
            Ok((v, t)) => lower_instr(env@, *ins) == Ok::<(Seq<InstV>, bool), LowerError>((insts_view(v@), t)),
            Err(e) => lower_instr(env@, *ins) == Err::<(Seq<InstV>, bool), LowerError>(e),
        },
{
    match ins {
        Instruction::Constant { dest, const_type, value } => {
            let m = tr_type(const_type)?;
            let d = match find_reg(&env.regs, dest) {
                Some(d) => d,
                None => return Err(LowerError::Malformed),
            };
            let inst = match value {
                Literal::Int(n) => {
                    if m != MachType::I64 {
                        return Err(LowerError::Malformed);
                    }
                    Inst::Iconst { dst: d, ty: m, imm: *n }
                },
                Literal::Bool(b) => {
                    if m != MachType::I8 {
                        return Err(LowerError::Malformed);
                    }
                    Inst::Iconst { dst: d, ty: m, imm: if *b { 1 } else { 0 } }
                },
            };
            let mut out: Vec<Inst> = Vec::new();
            out.push(inst);
            assert(insts_view(out@) =~= seq![inst@]);
            Ok((out, false))
        },
        Instruction::Value { args, dest, funcs, op, .. } => {
            let inst = lower_value_inst(env, dest, *op, args, funcs)?;
            let mut out: Vec<Inst> = Vec::new();
            out.push(inst);
            assert(insts_view(out@) =~= seq![inst@]);
            Ok((out, false))
        },
        Instruction::Effect { args, funcs, labels, op } => lower_effect_inst(env, *op, args, funcs, labels),
    }
}

} // verus!
