//! Lowering of whole programs: all functions or none.
use vstd::prelude::*;
use crate::cfg::{label_scan, lemma_run_err, lower_function, lower_function_spec, params_of, prologue, run};
use crate::lower::{EnvV, lower_instr, value_supported};
use crate::regalloc::allocation;
use crate::source::{Code, EffectOps, Instruction};
use crate::types::sig_mappable;
use crate::error::LowerError;
use crate::lower::{Callee, callees_view, find_name, strings_view};
use crate::source::{BrilFunction, Program};
use crate::target::{TargetFunction, TargetFunctionV};

verus! {

/// What call sites know of each function of a program, in order.
pub open spec fn callees_of(fs: Seq<BrilFunction>) -> Seq<(Seq<char>, nat, bool)> {
    fs.map_values(|f: BrilFunction| (f.name@, f.args@.len(), f.return_type is Some))
}

/// Whether two functions share a name.
pub open spec fn has_duplicate_names(fs: Seq<BrilFunction>) -> bool {
    exists|a: int, b: int| 0 <= a < b < fs.len() && (#[trigger] fs[a].name@) == (#[trigger] fs[b].name@)
}

/// The lowerings of the first `n` functions, stopping at the first error.
pub open spec fn lower_upto(fs: Seq<BrilFunction>, n: nat) -> Result<Seq<TargetFunctionV>, LowerError>
    decreases n,
{
    if n == 0 {
        Ok(seq![])
    } else {
        match lower_upto(fs, (n - 1) as nat) {
            Err(e) => Err(e),
            Ok(ts) => match lower_function_spec(fs[n - 1], callees_of(fs)) {
                Err(e) => Err(e),
                Ok(t) => Ok(ts.push(t)),
            },
        }
    }
}

/// The lowering of a program: `DuplicateFunction` where two functions share
/// a name, else the first function's error, else every function lowered.
pub open spec fn lower_program_spec(p: Program) -> Result<Seq<TargetFunctionV>, LowerError> {
    if has_duplicate_names(p.functions@) {
        Err(LowerError::DuplicateFunction)
    } else {
        lower_upto(p.functions@, p.functions@.len())
    }
}

/// The lengths of a program that fit the machine.
pub open spec fn program_fits(p: Program) -> bool {
    forall|i: int| 0 <= i < p.functions@.len() ==> (#[trigger] p.functions@[i]).instrs@.len() < usize::MAX
}

pub proof fn lemma_upto_err(fs: Seq<BrilFunction>, n: nat, m: nat)
    requires
        n <= m,
        lower_upto(fs, n) is Err,
    ensures
        lower_upto(fs, m) == lower_upto(fs, n),
    decreases m - n,
{
    if n < m {
        lemma_upto_err(fs, n, (m - 1) as nat);
    }
}

proof fn lemma_upto_shape(fs: Seq<BrilFunction>, n: nat)
    requires
        n <= fs.len(),
        lower_upto(fs, n) is Ok,
    ensures
        lower_upto(fs, n)->Ok_0.len() == n,
        forall|i: int|
            0 <= i < n ==> lower_function_spec(fs[i], callees_of(fs)) == Ok::<TargetFunctionV, LowerError>(
                #[trigger] lower_upto(fs, n)->Ok_0[i],
            ),
    decreases n,
{
    if n > 0 {
        let m = (n - 1) as nat;
        if lower_upto(fs, m) is Err {
            lemma_upto_err(fs, m, n);
        }
        lemma_upto_shape(fs, m);
        let prev = lower_upto(fs, m)->Ok_0;
        let cur = lower_upto(fs, n)->Ok_0;
        assert forall|i: int| 0 <= i < n implies lower_function_spec(fs[i], callees_of(fs)) == Ok::<
            TargetFunctionV,
            LowerError,
        >(#[trigger] cur[i]) by {
            if i < m {
                assert(cur[i] == prev[i]);
            }
        };
    }
}

/// A program that lowers at all lowers to exactly one target function per
/// source function, in order, each under its source function's name, with
/// its signature, and each the lowering of that function alone.
pub proof fn lemma_one_target_per_function(p: Program)
    requires
        lower_program_spec(p) is Ok,
    ensures
        lower_program_spec(p)->Ok_0.len() == p.functions@.len(),
        forall|i: int|
            0 <= i < p.functions@.len() ==> {
                let t = #[trigger] lower_program_spec(p)->Ok_0[i];
                &&& lower_function_spec(p.functions@[i], callees_of(p.functions@)) == Ok::<
                    TargetFunctionV,
                    LowerError,
                >(t)
                &&& t.name == p.functions@[i].name@
                &&& t.params == crate::types::sig_params(p.functions@[i])
                &&& t.results == crate::types::sig_returns(p.functions@[i])
            },
{
    lemma_upto_shape(p.functions@, p.functions@.len());
}

/// Lowering is a function of its input alone: two lowerings of one function
/// against one program give structurally identical target functions, with
/// the same signature, registers, block count and instructions.
pub proof fn lemma_lowering_deterministic(f: BrilFunction, callees: Seq<(Seq<char>, nat, bool)>, t1: TargetFunctionV, t2: TargetFunctionV)
    requires
        lower_function_spec(f, callees) == Ok::<TargetFunctionV, LowerError>(t1),
        lower_function_spec(f, callees) == Ok::<TargetFunctionV, LowerError>(t2),
    ensures
        t1 == t2,
        t1.blocks.len() == t2.blocks.len(),
        t1.regs.len() == t2.regs.len(),
{
}

/// Whether an instruction uses an operator that has no lowering.
pub open spec fn unsupported_operator(ins: Instruction) -> bool {
    match ins {
        Instruction::Value { op, .. } => !value_supported(op),
        Instruction::Effect { op, .. } => match op {
            EffectOps::Jump | EffectOps::Branch | EffectOps::Return | EffectOps::Call | EffectOps::Print
            | EffectOps::Nop => false,
            _ => true,
        },
        _ => false,
    }
}

proof fn lemma_function_fails(f: BrilFunction, callees: Seq<(Seq<char>, nat, bool)>, k: int)
    requires
        0 <= k < f.instrs@.len(),
        f.instrs@[k] matches Code::Instruction(ins) && unsupported_operator(ins),
    ensures
        lower_function_spec(f, callees) is Err,
{
    if sig_mappable(f) && allocation(f) is Ok && label_scan(f.instrs@, f.instrs@.len()) is Ok {
        let regs = allocation(f)->Ok_0;
        let env = EnvV {
            regs,
            params: params_of(f),
            labels: label_scan(f.instrs@, f.instrs@.len())->Ok_0,
            callees,
            returns_value: f.return_type is Some,
        };
        let init = prologue(regs, params_of(f), f.args@.len());
        let ins = f.instrs@[k]->Instruction_0;
        assert(lower_instr(env, ins) is Err);
        assert(run(env, init, f.instrs@, (k + 1) as nat) is Err);
        lemma_run_err(env, init, f.instrs@, (k + 1) as nat, f.instrs@.len());
    }
}

/// An instruction with an operator that has no lowering, in any function of
/// a program, makes the lowering of the whole program fail: no function of
/// it reaches the backend.
pub proof fn lemma_unsupported_operator_aborts(p: Program, i: int, k: int)
    requires
        0 <= i < p.functions@.len(),
        0 <= k < p.functions@[i].instrs@.len(),
        p.functions@[i].instrs@[k] matches Code::Instruction(ins) && unsupported_operator(ins),
    ensures
        lower_program_spec(p) is Err,
{
    if !has_duplicate_names(p.functions@) {
        let fs = p.functions@;
        lemma_function_fails(fs[i], callees_of(fs), k);
        assert(lower_upto(fs, (i + 1) as nat) is Err);
        lemma_upto_err(fs, (i + 1) as nat, fs.len());
    }
}

/// What call sites need to know of each function of `p`.
pub fn program_callees(p: &Program) -> (r: Vec<Callee>)
    ensures
        callees_view(r@) == callees_of(p.functions@),
{
    let mut out: Vec<Callee> = Vec::new();
    let mut i: usize = 0;
    while i < p.functions.len()
        invariant
            i <= p.functions@.len(),
            callees_view(out@) == callees_of(p.functions@).take(i as int),
        decreases p.functions@.len() - i,
    {
        let f = &p.functions[i];
        let ghost before = callees_view(out@);
        out.push(Callee { name: f.name.clone(), params: f.args.len(), has_result: f.return_type.is_some() });
        assert(callees_view(out@) =~= before.push(callees_of(p.functions@)[i as int]));
        assert(callees_of(p.functions@).take(i + 1) =~= callees_of(p.functions@).take(i as int).push(
            callees_of(p.functions@)[i as int],
        ));
        i = i + 1;
    }
    assert(callees_of(p.functions@).take(i as int) =~= callees_of(p.functions@));
    out
}

/// Whether two functions of `p` share a name.
pub fn duplicate_names(p: &Program) -> (r: bool)
    ensures
        r == has_duplicate_names(p.functions@),
{
    let ghost fs = p.functions@;
    let mut names: Vec<String> = Vec::new();
    let mut i: usize = 0;
    while i < p.functions.len()
        invariant
            i <= fs.len(),
            fs == p.functions@,
            names@.len() == i,
            forall|k: int| 0 <= k < i ==> (#[trigger] names@[k])@ == fs[k].name@,
            forall|a: int, b: int| 0 <= a < b < i ==> (#[trigger] fs[a].name@) != (#[trigger] fs[b].name@),
        decreases fs.len() - i,
    {
        let name = &p.functions[i].name;
        match find_name(&names, name) {
            Some(j) => {
                assert(strings_view(names@)[j as int] == names@[j as int]@);
                assert(fs[j as int].name@ == fs[i as int].name@);
                return true;
            },
            None => {
                assert forall|a: int| 0 <= a < i implies fs[a].name@ != fs[i as int].name@ by {
                    assert(strings_view(names@)[a] == names@[a]@);
                    assert(crate::regalloc::first_index(strings_view(names@), name@) is None);
                    if fs[a].name@ == fs[i as int].name@ {
                        assert(crate::regalloc::is_first(strings_view(names@), name@, a)
                            || exists|c: int| 0 <= c < a && strings_view(names@)[c] == name@);
                    }
                };
            },
        }
        names.push(name.clone());
        i = i + 1;
    }
    false
}

/// Lowers every function of `p`, in order. Two functions that share a name
/// fail with `DuplicateFunction`; any other error of any function fails the
/// whole program, so that nothing is handed on unless everything lowered.
pub fn lower_program(p: &Program) -> (r: Result<Vec<TargetFunction>, LowerError>)
    requires
        program_fits(*p),
    ensures
        match r {
            Ok(v) => lower_program_spec(*p) == Ok::<Seq<TargetFunctionV>, LowerError>(
                v@.map_values(|t: TargetFunction| t@),
            ),
            Err(e) => lower_program_spec(*p) == Err::<Seq<TargetFunctionV>, LowerError>(e),
        },
{
    if duplicate_names(p) {
        return Err(LowerError::DuplicateFunction);
    }
    let callees = program_callees(p);
    let mut out: Vec<TargetFunction> = Vec::new();
    let mut i: usize = 0;
    assert(out@.map_values(|t: TargetFunction| t@) =~= seq![]);
    while i < p.functions.len()
        invariant
            i <= p.functions@.len(),
            program_fits(*p),
            !has_duplicate_names(p.functions@),
            callees_view(callees@) == callees_of(p.functions@),
            lower_upto(p.functions@, i as nat) == Ok::<Seq<TargetFunctionV>, LowerError>(
                out@.map_values(|t: TargetFunction| t@),
            ),
        decreases p.functions@.len() - i,
    {
        assert(p.functions@[i as int].instrs@.len() < usize::MAX);
        match lower_function(&p.functions[i], &callees) {
            Err(e) => {
                proof { lemma_upto_err(p.functions@, (i + 1) as nat, p.functions@.len()); }
                return Err(e);
            },
            Ok(t) => {
                let ghost before = out@.map_values(|t: TargetFunction| t@);
                let ghost tv = t@;
                out.push(t);
                assert(out@.map_values(|t: TargetFunction| t@) =~= before.push(tv));
            },
        }
        i = i + 1;
    }
    Ok(out)
}

} // verus!
