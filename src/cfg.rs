//! The block builder: lowers a whole function into blocks, one entry block
//! and one block per label, each ended by exactly one terminator.
use vstd::prelude::*;
use crate::error::LowerError;
use crate::lower::{Callee, Env, EnvV, find_name, lower_instr, lower_instruction, strings_view, callees_view};
use crate::regalloc::{all_vars, allocation, find_reg, first_index, names_of};
use crate::source::{Argument, Code, BrilFunction, Instruction};
use crate::target::{
    BasicBlock, Inst, InstV, MachType, Operand, Reg, TargetFunction, TargetFunctionV, blocks_view,
    insts_view, is_terminator, regs_view,
};
use crate::types::{map_type, sig_mappable, sig_params, sig_returns, tr_sig};

verus! {

/// Where the block builder stands: the finished blocks, the instructions of
/// the active block, and whether the active block is already terminated.
pub struct BuildState {
    pub done: Seq<Seq<InstV>>,
    pub cur: Seq<InstV>,
    pub term: bool,
}

/// One code element applied to the builder. A label ends the active block
/// (with a jump to the label's block where it has no terminator yet) and
/// starts the label's block. Instructions after a terminator and before the
/// next label are unreachable: they are checked, and not emitted.
pub open spec fn step(env: EnvV, st: BuildState, c: Code) -> Result<BuildState, LowerError> {
    match c {
        Code::Label { .. } => Ok(
            BuildState {
                done: st.done.push(
                    if st.term {
                        st.cur
                    } else {
                        st.cur.push(InstV::Jump { target: (st.done.len() + 1) as usize })
                    },
                ),
                cur: seq![],
                term: false,
            },
        ),
        Code::Instruction(ins) => match lower_instr(env, ins) {
            Err(e) => Err(e),
            Ok((out, t)) => if st.term {
                Ok(st)
            } else {
                Ok(BuildState { done: st.done, cur: st.cur + out, term: t })
            },
        },
    }
}

/// The builder after the first `n` code elements, starting from an entry
/// block that holds `init`.
pub open spec fn run(env: EnvV, init: Seq<InstV>, codes: Seq<Code>, n: nat) -> Result<BuildState, LowerError>
    decreases n,
{
    if n == 0 {
        Ok(BuildState { done: seq![], cur: init, term: false })
    } else {
        match run(env, init, codes, (n - 1) as nat) {
            Err(e) => Err(e),
            Ok(st) => step(env, st, codes[n - 1]),
        }
    }
}

/// The blocks once the code is done: an active block without terminator
/// returns, which only a function without a return value may do.
pub open spec fn finish(env: EnvV, st: BuildState) -> Result<Seq<Seq<InstV>>, LowerError> {
    if st.term {
        Ok(st.done.push(st.cur))
    } else if env.returns_value {
        Err(LowerError::Malformed)
    } else {
        Ok(st.done.push(st.cur.push(InstV::Return { value: None })))
    }
}

/// The labels of the first `n` code elements, in order; a repeated label is
/// `Malformed`.
pub open spec fn label_scan(codes: Seq<Code>, n: nat) -> Result<Seq<Seq<char>>, LowerError>
    decreases n,
{
    if n == 0 {
        Ok(seq![])
    } else {
        match label_scan(codes, (n - 1) as nat) {
            Err(e) => Err(e),
            Ok(ls) => match codes[n - 1] {
                Code::Label { label } => if first_index(ls, label@) is Some {
                    Err(LowerError::Malformed)
                } else {
                    Ok(ls.push(label@))
                },
                _ => Ok(ls),
            },
        }
    }
}

/// The arguments of `f` with their machine types.
pub open spec fn params_of(f: BrilFunction) -> Seq<(Seq<char>, MachType)> {
    f.args@.map_values(|a: Argument| (a.name@, map_type(a.arg_type)->Some_0))
}

/// The first instructions of the entry block, for the first `n` arguments:
/// an argument whose name is also a destination is copied into its register.
pub open spec fn prologue(regs: Seq<(Seq<char>, MachType)>, params: Seq<(Seq<char>, MachType)>, n: nat) -> Seq<InstV>
    decreases n,
{
    if n == 0 {
        seq![]
    } else {
        let p = prologue(regs, params, (n - 1) as nat);
        match first_index(names_of(regs), params[n - 1].0) {
            Some(j) => p.push(InstV::Copy { dst: j as usize, src: Operand::Param((n - 1) as usize) }),
            None => p,
        }
    }
}

/// The lowering of `f` against the functions `callees` of its program.
pub open spec fn lower_function_spec(f: BrilFunction, callees: Seq<(Seq<char>, nat, bool)>) -> Result<
    TargetFunctionV,
    LowerError,
> {
    if !sig_mappable(f) {
        Err(LowerError::UnsupportedType)
    } else {
        match allocation(f) {
            Err(e) => Err(e),
            Ok(regs) => match label_scan(f.instrs@, f.instrs@.len()) {
                Err(e) => Err(e),
                Ok(labels) => {
                    let env = EnvV {
                        regs,
                        params: params_of(f),
                        labels,
                        callees,
                        returns_value: f.return_type is Some,
                    };
                    let init = prologue(regs, params_of(f), f.args@.len());
                    match run(env, init, f.instrs@, f.instrs@.len()) {
                        Err(e) => Err(e),
                        Ok(st) => match finish(env, st) {
                            Err(e) => Err(e),
                            Ok(blocks) => Ok(
                                TargetFunctionV {
                                    name: f.name@,
                                    params: sig_params(f),
                                    results: sig_returns(f),
                                    regs,
                                    blocks,
                                },
                            ),
                        },
                    }
                },
            },
        }
    }
}

pub proof fn lemma_run_err(env: EnvV, init: Seq<InstV>, codes: Seq<Code>, n: nat, m: nat)
    requires
        n <= m,
        run(env, init, codes, n) is Err,
    ensures
        run(env, init, codes, m) == run(env, init, codes, n),
    decreases m - n,
{
    if n < m {
        lemma_run_err(env, init, codes, n, (m - 1) as nat);
    }
}

pub proof fn lemma_label_err(codes: Seq<Code>, n: nat, m: nat)
    requires
        n <= m,
        label_scan(codes, n) is Err,
    ensures
        label_scan(codes, m) == label_scan(codes, n),
    decreases m - n,
{
    if n < m {
        lemma_label_err(codes, n, (m - 1) as nat);
    }
}

/// The number of labels among the first `n` code elements.
pub open spec fn label_count(codes: Seq<Code>, n: nat) -> nat
    decreases n,
{
    if n == 0 {
        0
    } else {
        label_count(codes, (n - 1) as nat) + if codes[n - 1] is Label { 1nat } else { 0nat }
    }
}

pub proof fn lemma_label_len(codes: Seq<Code>, n: nat)
    requires
        label_scan(codes, n) is Ok,
    ensures
        label_scan(codes, n)->Ok_0.len() <= n,
        label_scan(codes, n)->Ok_0.len() == label_count(codes, n),
    decreases n,
{
    if n > 0 {
        if label_scan(codes, (n - 1) as nat) is Err {
            lemma_label_err(codes, (n - 1) as nat, n);
        }
        lemma_label_len(codes, (n - 1) as nat);
    }
}

/// Collects the labels of `f` in order; a repeated label is `Malformed`.
fn collect_labels(f: &BrilFunction) -> (r: Result<Vec<String>, LowerError>)
    ensures
        match r {
            Ok(v) => label_scan(f.instrs@, f.instrs@.len()) == Ok::<Seq<Seq<char>>, LowerError>(strings_view(v@)),
            Err(e) => label_scan(f.instrs@, f.instrs@.len()) == Err::<Seq<Seq<char>>, LowerError>(e),
        },
{
    let mut labels: Vec<String> = Vec::new();
    let mut i: usize = 0;
    assert(strings_view(labels@) =~= seq![]);
    while i < f.instrs.len()
        invariant
            i <= f.instrs@.len(),
            label_scan(f.instrs@, i as nat) == Ok::<Seq<Seq<char>>, LowerError>(strings_view(labels@)),
        decreases f.instrs@.len() - i,
    {
        if let Code::Label { label } = &f.instrs[i] {
            if find_name(&labels, label).is_some() {
                proof { lemma_label_err(f.instrs@, (i + 1) as nat, f.instrs@.len()); }
                return Err(LowerError::Malformed);
            }
            let ghost before = strings_view(labels@);
            labels.push(label.clone());
            assert(strings_view(labels@) =~= before.push(label@));
        }
        i = i + 1;
    }
    Ok(labels)
}

/// The arguments of `f` as named, typed entries.
fn collect_params(f: &BrilFunction) -> (r: Vec<Reg>)
    requires
        sig_mappable(*f),
    ensures
        regs_view(r@) == params_of(*f),
{
    let mut params: Vec<Reg> = Vec::new();
    let mut i: usize = 0;
    while i < f.args.len()
        invariant
            i <= f.args@.len(),
            sig_mappable(*f),
            regs_view(params@) == params_of(*f).take(i as int),
        decreases f.args@.len() - i,
    {
        let a = &f.args[i];
        assert(map_type(f.args@[i as int].arg_type) is Some);
        let ty = match a.arg_type {
            crate::source::BrilType::Int => MachType::I64,
            _ => MachType::I8,
        };
        assert(ty == map_type(f.args@[i as int].arg_type)->Some_0);
        let ghost before = regs_view(params@);
        params.push(Reg { name: a.name.clone(), ty });
        assert(params_of(*f).take(i + 1) =~= params_of(*f).take(i as int).push(params_of(*f)[i as int]));
        assert(regs_view(params@) =~= before.push((a.name@, ty)));
        i = i + 1;
    }
    assert(params_of(*f).take(i as int) =~= params_of(*f));
    params
}

/// The entry block's copies of arguments into registers of the same name.
fn build_prologue(regs: &Vec<Reg>, params: &Vec<Reg>) -> (r: Vec<Inst>)
    ensures
        insts_view(r@) == prologue(regs_view(regs@), regs_view(params@), params@.len() as nat),
{
    let mut out: Vec<Inst> = Vec::new();
    let mut i: usize = 0;
    assert(insts_view(out@) =~= seq![]);
    while i < params.len()
        invariant
            i <= params@.len(),
            insts_view(out@) == prologue(regs_view(regs@), regs_view(params@), i as nat),
        decreases params@.len() - i,
    {
        let ghost before = insts_view(out@);
        match find_reg(regs, &params[i].name) {
            Some(j) => {
                out.push(Inst::Copy { dst: j, src: Operand::Param(i) });
                assert(insts_view(out@) =~= before.push(InstV::Copy { dst: j, src: Operand::Param(i) }));
            },
            None => {},
        }
        i = i + 1;
    }
    out
}

/// A copy of a callee list.
fn copy_callees(callees: &Vec<Callee>) -> (r: Vec<Callee>)
    ensures
        callees_view(r@) == callees_view(callees@),
{
    let mut out: Vec<Callee> = Vec::new();
    let mut i: usize = 0;
    while i < callees.len()
        invariant
            i <= callees@.len(),
            callees_view(out@) == callees_view(callees@).take(i as int),
        decreases callees@.len() - i,
    {
        let c = &callees[i];
        let ghost before = callees_view(out@);
        out.push(Callee { name: c.name.clone(), params: c.params, has_result: c.has_result });
        assert(callees_view(out@) =~= before.push(callees_view(callees@)[i as int]));
        assert(callees_view(callees@).take(i + 1) =~= callees_view(callees@).take(i as int).push(
            callees_view(callees@)[i as int],
        ));
        i = i + 1;
    }
    assert(callees_view(callees@).take(i as int) =~= callees_view(callees@));
    out
}

/// Lowers `f` against the functions `callees` of its program: builds its
/// signature, allocates its registers, makes one block per label, lowers each
/// instruction into the active block, and ends every block with exactly one
/// terminator.
pub fn lower_function(f: &BrilFunction, callees: &Vec<Callee>) -> (r: Result<TargetFunction, LowerError>)
    requires
        f.instrs@.len() < usize::MAX,
    ensures
        match r {
            Ok(t) => lower_function_spec(*f, callees_view(callees@)) == Ok::<TargetFunctionV, LowerError>(t@),
            Err(e) => lower_function_spec(*f, callees_view(callees@)) == Err::<TargetFunctionV, LowerError>(e),
        },
{
    let sig = tr_sig(f)?;
    let regs = all_vars(f)?;
    let labels = collect_labels(f)?;
    proof { lemma_label_len(f.instrs@, f.instrs@.len()); }
    let params = collect_params(f);
    let init = build_prologue(&regs, &params);
    let env = Env {
        regs,
        params,
        labels,
        callees: copy_callees(callees),
        returns_value: f.return_type.is_some(),
    };
    assert(callees_view(env.callees@) =~= callees_view(callees@));
    let ghost envv = env@;
    let ghost initv = insts_view(init@);
    assert(regs_view(env.params@).len() == env.params@.len());
    assert(initv == prologue(envv.regs, params_of(*f), f.args@.len()));
    assert(envv == EnvV {
        regs: envv.regs,
        params: params_of(*f),
        labels: envv.labels,
        callees: callees_view(callees@),
        returns_value: f.return_type is Some,
    });
    let mut done: Vec<BasicBlock> = Vec::new();
    let mut cur: Vec<Inst> = init;
    let mut term = false;
    let mut i: usize = 0;
    assert(blocks_view(done@) =~= seq![]);
    while i < f.instrs.len()
        invariant
            i <= f.instrs@.len(),
            f.instrs@.len() < usize::MAX,
            envv == env@,
            env.labels@.len() <= f.instrs@.len(),
            sig_mappable(*f),
            sig.params@ == sig_params(*f),
            sig.results@ == sig_returns(*f),
            allocation(*f) == Ok::<Seq<(Seq<char>, MachType)>, LowerError>(envv.regs),
            label_scan(f.instrs@, f.instrs@.len()) == Ok::<Seq<Seq<char>>, LowerError>(envv.labels),
            initv == prologue(envv.regs, params_of(*f), f.args@.len()),
            envv == (EnvV {
                regs: envv.regs,
                params: params_of(*f),
                labels: envv.labels,
                callees: callees_view(callees@),
                returns_value: f.return_type is Some,
            }),
            done@.len() <= i,
            run(envv, initv, f.instrs@, i as nat) == Ok::<BuildState, LowerError>(
                BuildState { done: blocks_view(done@), cur: insts_view(cur@), term },
            ),
        decreases f.instrs@.len() - i,
    {
        let ghost bv = blocks_view(done@);
        let ghost cv = insts_view(cur@);
        match &f.instrs[i] {
            Code::Label { .. } => {
                if !term {
                    cur.push(Inst::Jump { target: done.len() + 1 });
                    assert(insts_view(cur@) =~= cv.push(InstV::Jump { target: (bv.len() + 1) as usize }));
                }
                let ghost closed = insts_view(cur@);
                done.push(BasicBlock { insts: cur });
                assert(blocks_view(done@) =~= bv.push(closed));
                cur = Vec::new();
                assert(insts_view(cur@) =~= seq![]);
                term = false;
            },
            Code::Instruction(ins) => {
                match lower_instruction(&env, ins) {
                    Err(e) => {
                        proof {
                            lemma_run_err(envv, initv, f.instrs@, (i + 1) as nat, f.instrs@.len());
                        }
                        return Err(e);
                    },
                    Ok((out, t)) => {
                        if !term {
                            let ghost ov = insts_view(out@);
                            let mut out = out;
                            cur.append(&mut out);
                            assert(insts_view(cur@) =~= cv + ov);
                            term = t;
                        }
                    },
                }
            },
        }
        i = i + 1;
    }
    if !term {
        if env.returns_value {
            return Err(LowerError::Malformed);
        }
        let ghost cv = insts_view(cur@);
        cur.push(Inst::Return { value: None });
        assert(insts_view(cur@) =~= cv.push(InstV::Return { value: None }));
    }
    let ghost bv = blocks_view(done@);
    let ghost closed = insts_view(cur@);
    done.push(BasicBlock { insts: cur });
    assert(blocks_view(done@) =~= bv.push(closed));
    Ok(TargetFunction { name: f.name.clone(), sig, regs: env.regs, blocks: done })
}

/// Whether a block ends with its one terminator.
pub open spec fn block_ok(b: Seq<InstV>) -> bool {
    &&& b.len() > 0
    &&& is_terminator(b.last())
    &&& forall|j: int| 0 <= j < b.len() - 1 ==> !is_terminator(#[trigger] b[j])
}

/// Whether no instruction of `s` is a terminator.
pub open spec fn no_terminator(s: Seq<InstV>) -> bool {
    forall|j: int| 0 <= j < s.len() ==> !is_terminator(#[trigger] s[j])
}

/// What the builder keeps true: finished blocks end with their one
/// terminator, and the active block holds one only as its last instruction,
/// once it is terminated.
pub open spec fn state_ok(st: BuildState) -> bool {
    &&& forall|k: int| 0 <= k < st.done.len() ==> block_ok(#[trigger] st.done[k])
    &&& if st.term { block_ok(st.cur) } else { no_terminator(st.cur) }
}

proof fn lemma_prologue_plain(regs: Seq<(Seq<char>, MachType)>, params: Seq<(Seq<char>, MachType)>, n: nat)
    ensures
        no_terminator(prologue(regs, params, n)),
    decreases n,
{
    if n > 0 {
        lemma_prologue_plain(regs, params, (n - 1) as nat);
    }
}

proof fn lemma_instr_shape(env: EnvV, ins: Instruction)
    requires
        lower_instr(env, ins) is Ok,
    ensures
        ({
            let (out, t) = lower_instr(env, ins)->Ok_0;
            if t { out.len() == 1 && is_terminator(out[0]) } else { no_terminator(out) }
        }),
{
}

proof fn lemma_run_ok(env: EnvV, init: Seq<InstV>, codes: Seq<Code>, n: nat)
    requires
        no_terminator(init),
        run(env, init, codes, n) is Ok,
    ensures
        state_ok(run(env, init, codes, n)->Ok_0),
        run(env, init, codes, n)->Ok_0.done.len() == label_count(codes, n),
    decreases n,
{
    if n > 0 {
        let m = (n - 1) as nat;
        if run(env, init, codes, m) is Err {
            lemma_run_err(env, init, codes, m, n);
        }
        lemma_run_ok(env, init, codes, m);
        let st = run(env, init, codes, m)->Ok_0;
        let st2 = run(env, init, codes, n)->Ok_0;
        match codes[m as int] {
            Code::Label { .. } => {
                let closed = if st.term {
                    st.cur
                } else {
                    st.cur.push(InstV::Jump { target: (st.done.len() + 1) as usize })
                };
                assert(block_ok(closed));
                assert(st2.done == st.done.push(closed));
                assert forall|k: int| 0 <= k < st2.done.len() implies block_ok(#[trigger] st2.done[k]) by {
                    if k < st.done.len() {
                        assert(st2.done[k] == st.done[k]);
                    }
                };
                assert(no_terminator(st2.cur));
            },
            Code::Instruction(ins) => {
                lemma_instr_shape(env, ins);
                let (out, t) = lower_instr(env, ins)->Ok_0;
                if !st.term {
                    assert(st2.cur == st.cur + out);
                    if t {
                        assert(st2.cur.last() == out[0]);
                        assert(block_ok(st2.cur));
                    } else {
                        assert(no_terminator(st2.cur)) by {
                            assert forall|j: int| 0 <= j < st2.cur.len() implies !is_terminator(#[trigger] st2.cur[j]) by {
                                if j >= st.cur.len() {
                                    assert(st2.cur[j] == out[j - st.cur.len()]);
                                }
                            };
                        };
                    }
                }
            },
        }
    }
}

/// Every lowered function has one entry block and one block per label, and
/// every block of it ends with exactly one terminator: the shape the backend
/// accepts.
pub proof fn lemma_lowered_blocks_terminated(f: BrilFunction, callees: Seq<(Seq<char>, nat, bool)>)
    requires
        lower_function_spec(f, callees) is Ok,
    ensures
        ({
            let t = lower_function_spec(f, callees)->Ok_0;
            &&& t.blocks.len() == label_scan(f.instrs@, f.instrs@.len())->Ok_0.len() + 1
            &&& forall|k: int| 0 <= k < t.blocks.len() ==> block_ok(#[trigger] t.blocks[k])
        }),
{
    lemma_label_len(f.instrs@, f.instrs@.len());
    let regs = allocation(f)->Ok_0;
    let labels = label_scan(f.instrs@, f.instrs@.len())->Ok_0;
    let env = EnvV { regs, params: params_of(f), labels, callees, returns_value: f.return_type is Some };
    let init = prologue(regs, params_of(f), f.args@.len());
    lemma_prologue_plain(regs, params_of(f), f.args@.len());
    lemma_run_ok(env, init, f.instrs@, f.instrs@.len());
    let st = run(env, init, f.instrs@, f.instrs@.len())->Ok_0;
    let blocks = lower_function_spec(f, callees)->Ok_0.blocks;
    let last = if st.term { st.cur } else { st.cur.push(InstV::Return { value: None }) };
    assert(block_ok(last));
    assert(blocks == st.done.push(last));
    assert forall|k: int| 0 <= k < blocks.len() implies block_ok(#[trigger] blocks[k]) by {
        if k < st.done.len() {
            assert(blocks[k] == st.done[k]);
        }
    };
}

} // verus!
