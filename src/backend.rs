//! The module emitter: hands lowered functions to the Cranelift backend,
//! which verifies each one and registers it in an object module.
use vstd::prelude::*;
use cranelift::codegen::ir;
use cranelift::frontend::{FunctionBuilder, FunctionBuilderContext, Variable};
use cranelift::codegen::ir::InstBuilder;
use cranelift_module::{FuncId, Module};
use cranelift_object::ObjectModule;
use crate::error::LowerError;
use crate::program::{lower_program, lower_program_spec, program_fits};
use crate::source::Program;
use crate::target::{BinOp, CallSig, Inst, IntCC, MachType, Operand, Runtime, TargetFunction, is_terminator};
use crate::lower::find_name;

verus! {

#[verifier::external_type_specification]
#[verifier::external_body]
pub struct ExObjectModule(ObjectModule);

#[verifier::external_type_specification]
#[verifier::external_body]
pub struct ExFuncId(FuncId);

#[verifier::external_type_specification]
#[verifier::external_body]
pub struct ExClFunction(ir::Function);

#[verifier::external_type_specification]
#[verifier::external_body]
pub struct ExClSignature(ir::Signature);

#[verifier::external_type_specification]
#[verifier::external_body]
pub struct ExBuilderContext(FunctionBuilderContext);

#[verifier::external_type_specification]
#[verifier::external_body]
pub struct ExBuilder<'a>(FunctionBuilder<'a>);

#[verifier::external_type_specification]
#[verifier::external_body]
pub struct ExClBlock(ir::Block);

#[verifier::external_type_specification]
#[verifier::external_body]
pub struct ExClValue(ir::Value);

#[verifier::external_type_specification]
#[verifier::external_body]
pub struct ExVariable(Variable);

#[verifier::external_type_specification]
#[verifier::external_body]
pub struct ExFuncRef(ir::FuncRef);

#[verifier::external_type_specification]
#[verifier::external_body]
pub struct ExClType(ir::Type);

/// Whether a target instruction ends a block.
pub fn ends_block(i: &Inst) -> (r: bool)
    ensures
        r == crate::target::is_terminator(i@),
{
    match i {
        Inst::Jump { .. } | Inst::Brif { .. } | Inst::Return { .. } => true,
        _ => false,
    }
}

/// Whether every block of `t` ends with its one terminator.
pub open spec fn well_terminated(t: crate::target::TargetFunctionV) -> bool {
    forall|k: int| 0 <= k < t.blocks.len() ==> crate::cfg::block_ok(#[trigger] t.blocks[k])
}

/// Checks that every block of `t` ends with its one terminator.
pub fn check_blocks(t: &TargetFunction) -> (r: bool)
    ensures
        r == (t@.blocks.len() > 0 && well_terminated(t@)),
{
    if t.blocks.len() == 0 {
        return false;
    }
    let mut k: usize = 0;
    while k < t.blocks.len()
        invariant
            k <= t.blocks@.len(),
            forall|q: int|
                0 <= q < k ==> {
                    let b = #[trigger] t@.blocks[q];
                    &&& b.len() > 0
                    &&& crate::target::is_terminator(b.last())
                    &&& forall|j: int| 0 <= j < b.len() - 1 ==> !crate::target::is_terminator(#[trigger] b[j])
                },
        decreases t.blocks@.len() - k,
    {
        let insts = &t.blocks[k].insts;
        let ghost bv = t@.blocks[k as int];
        assert(bv == crate::target::insts_view(insts@));
        if insts.len() == 0 || !ends_block(&insts[insts.len() - 1]) {
            return false;
        }
        let mut j: usize = 0;
        while j < insts.len() - 1
            invariant
                j < insts@.len(),
                insts@.len() > 0,
                k < t.blocks@.len(),
                insts@ == t.blocks@[k as int].insts@,
                bv == crate::target::insts_view(insts@),
                bv == t@.blocks[k as int],
                forall|q: int| 0 <= q < j ==> !crate::target::is_terminator(#[trigger] bv[q]),
            decreases insts@.len() - j,
        {
            if ends_block(&insts[j]) {
                assert(crate::target::is_terminator(t@.blocks[k as int][j as int]));
                return false;
            }
            j = j + 1;
        }
        k = k + 1;
    }
    true
}

/// A fresh builder context, used by one function builder only.
struct FreshContext {
    ctx: FunctionBuilderContext,
    fresh: Ghost<bool>,
}

/// Relies on `FunctionBuilderContext::new`: an empty context.
#[verifier::external_body]
fn new_context_inner() -> FunctionBuilderContext {
    FunctionBuilderContext::new()
}

fn new_context() -> (r: FreshContext)
    ensures
        r.fresh@,
{
    FreshContext { ctx: new_context_inner(), fresh: Ghost(true) }
}

/// Relies on `FunctionBuilder::new`, which asks for an empty context.
#[verifier::external_body]
fn new_builder<'a>(f: &'a mut ir::Function, c: &'a mut FreshContext) -> FunctionBuilder<'a>
    requires
        old(c).fresh@,
{
    FunctionBuilder::new(f, &mut c.ctx)
}

/// A function builder, with every backend handle it gives out kept inside
/// and named by index: variables, blocks, values and imported functions.
/// The ghost fields follow the builder's own state: the active block, the
/// blocks that hold their terminator, whether anything was emitted yet, and
/// whether all blocks are sealed.
struct Emitter<'a> {
    fb: FunctionBuilder<'a>,
    vars: Vec<Variable>,
    blocks: Vec<ir::Block>,
    vals: Vec<ir::Value>,
    refs: Vec<ir::FuncRef>,
    ref_results: Ghost<Seq<nat>>,
    active: Ghost<Option<nat>>,
    filled: Ghost<Set<nat>>,
    pristine: Ghost<bool>,
    sealed: Ghost<bool>,
}

impl<'a> Emitter<'a> {
    /// The builder state is consistent: filled and active blocks exist.
    spec fn wf(&self) -> bool {
        &&& self.ref_results@.len() == self.refs@.len()
        &&& forall|k: nat| self.filled@.contains(k) ==> k < self.blocks@.len()
        &&& (self.active@ matches Some(k) ==> k < self.blocks@.len())
    }

    /// An instruction can be appended: a block is active and not yet filled.
    spec fn open_block(&self) -> bool {
        self.active@ matches Some(k) && !self.filled@.contains(k)
    }

    /// Everything but the values is as in `o`.
    spec fn same_but_vals(&self, o: &Self) -> bool {
        &&& self.vars@.len() == o.vars@.len()
        &&& self.blocks@.len() == o.blocks@.len()
        &&& self.refs@.len() == o.refs@.len()
        &&& self.ref_results@ == o.ref_results@
        &&& self.active@ == o.active@
        &&& self.filled@ == o.filled@
        &&& self.pristine@ == o.pristine@
        &&& self.sealed@ == o.sealed@
    }

    /// `o` with one more value.
    spec fn one_more_val(&self, o: &Self, r: usize) -> bool {
        &&& self.same_but_vals(o)
        &&& self.vals@.len() == o.vals@.len() + 1
        &&& r == o.vals@.len()
    }

    /// `o` with its active block filled by a terminator.
    spec fn terminated(&self, o: &Self) -> bool {
        &&& self.vars@.len() == o.vars@.len()
        &&& self.blocks@.len() == o.blocks@.len()
        &&& self.vals@.len() == o.vals@.len()
        &&& self.refs@.len() == o.refs@.len()
        &&& self.ref_results@ == o.ref_results@
        &&& self.active@ == o.active@
        &&& self.filled@ == o.filled@.insert(o.active@->Some_0)
        &&& self.pristine@ == o.pristine@
        &&& self.sealed@ == o.sealed@
    }

    /// A builder for `f` with nothing declared or emitted.
    fn new(f: &'a mut ir::Function, c: &'a mut FreshContext) -> (r: Emitter<'a>)
        requires
            old(c).fresh@,
        ensures
            r.wf(),
            r.vars@.len() == 0 && r.blocks@.len() == 0 && r.vals@.len() == 0 && r.refs@.len() == 0,
            r.active@ is None && r.filled@ == Set::<nat>::empty() && r.pristine@ && !r.sealed@,
    {
        let fb = new_builder(f, c);
        Emitter {
            fb,
            vars: Vec::new(),
            blocks: Vec::new(),
            vals: Vec::new(),
            refs: Vec::new(),
            ref_results: Ghost(Seq::empty()),
            active: Ghost(None),
            filled: Ghost(Set::empty()),
            pristine: Ghost(true),
            sealed: Ghost(false),
        }
    }

    /// Relies on `Module::declare_func_in_func`, which indexes the module's
    /// declarations by the id: declaration `k` of `be`, whose id came from
    /// `be`'s own module. Its calls give one result per result of the
    /// declared signature.
    #[verifier::external_body]
    fn import(&mut self, be: &mut Backend, k: usize)
        requires
            old(be).wf(),
            k < old(be).decls@.len(),
        ensures
            final(be).ids@ == old(be).ids@,
            final(be).decls@ == old(be).decls@,
            final(be).defined@ == old(be).defined@,
            final(self).vals@.len() == old(self).vals@.len(),
            final(self).vars@.len() == old(self).vars@.len(),
            final(self).blocks@.len() == old(self).blocks@.len(),
            final(self).refs@.len() == old(self).refs@.len() + 1,
            final(self).ref_results@ == old(self).ref_results@.push(old(be).decls@[k as int].sig.results@.len()),
            final(self).active@ == old(self).active@,
            final(self).filled@ == old(self).filled@,
            final(self).pristine@ == old(self).pristine@,
            final(self).sealed@ == old(self).sealed@,
    {
        let r = be.module.declare_func_in_func(be.ids[k], self.fb.func);
        self.refs.push(r);
    }

    /// Relies on `FunctionBuilder::declare_var`.
    #[verifier::external_body]
    fn declare_var(&mut self, t: MachType)
        ensures
            final(self).vars@.len() == old(self).vars@.len() + 1,
            final(self).vals@.len() == old(self).vals@.len(),
            final(self).blocks@.len() == old(self).blocks@.len(),
            final(self).refs@.len() == old(self).refs@.len(),
            final(self).ref_results@ == old(self).ref_results@,
            final(self).active@ == old(self).active@,
            final(self).filled@ == old(self).filled@,
            final(self).pristine@ == old(self).pristine@,
            final(self).sealed@ == old(self).sealed@,
    {
        let v = self.fb.declare_var(cl_type(t));
        self.vars.push(v);
    }

    /// Relies on `FunctionBuilder::create_block`: a new, empty block.
    #[verifier::external_body]
    fn create_block(&mut self)
        requires
            !old(self).sealed@,
        ensures
            final(self).blocks@.len() == old(self).blocks@.len() + 1,
            final(self).vars@.len() == old(self).vars@.len(),
            final(self).vals@.len() == old(self).vals@.len(),
            final(self).refs@.len() == old(self).refs@.len(),
            final(self).ref_results@ == old(self).ref_results@,
            final(self).active@ == old(self).active@,
            final(self).filled@ == old(self).filled@,
            final(self).pristine@ == old(self).pristine@,
            final(self).sealed@ == old(self).sealed@,
    {
        let b = self.fb.create_block();
        self.blocks.push(b);
    }

    /// Relies on `FunctionBuilder::append_block_params_for_function_params`
    /// and `FunctionBuilder::block_params`: the entry block, still empty and
    /// without predecessors, gets one parameter per argument; their values
    /// are added in order, and their number returned.
    #[verifier::external_body]
    fn entry_params(&mut self) -> (r: usize)
        requires
            old(self).pristine@,
            old(self).blocks@.len() > 0,
        ensures
            final(self).same_but_vals(old(self)),
            final(self).vals@.len() == old(self).vals@.len() + r,
    {
        self.fb.append_block_params_for_function_params(self.blocks[0]);
        let ps = self.fb.block_params(self.blocks[0]).to_vec();
        self.vals.extend(ps.iter().copied());
        ps.len()
    }

    /// Relies on `FunctionBuilder::switch_to_block`, which asks that the
    /// block left be filled and the block entered be not.
    #[verifier::external_body]
    fn switch_to_block(&mut self, k: usize)
        requires
            k < old(self).blocks@.len(),
            !old(self).filled@.contains(k as nat),
            old(self).active@ matches Some(a) ==> old(self).filled@.contains(a),
        ensures
            final(self).vars@.len() == old(self).vars@.len(),
            final(self).blocks@.len() == old(self).blocks@.len(),
            final(self).vals@.len() == old(self).vals@.len(),
            final(self).refs@.len() == old(self).refs@.len(),
            final(self).ref_results@ == old(self).ref_results@,
            final(self).active@ == Some(k as nat),
            final(self).filled@ == old(self).filled@,
            !final(self).pristine@,
            final(self).sealed@ == old(self).sealed@,
    {
        self.fb.switch_to_block(self.blocks[k]);
    }

    /// Relies on `FunctionBuilder::seal_all_blocks`.
    #[verifier::external_body]
    fn seal_all_blocks(&mut self)
        ensures
            final(self).vars@.len() == old(self).vars@.len(),
            final(self).blocks@.len() == old(self).blocks@.len(),
            final(self).vals@.len() == old(self).vals@.len(),
            final(self).refs@.len() == old(self).refs@.len(),
            final(self).ref_results@ == old(self).ref_results@,
            final(self).active@ == old(self).active@,
            final(self).filled@ == old(self).filled@,
            final(self).pristine@ == old(self).pristine@,
            final(self).sealed@,
    {
        self.fb.seal_all_blocks();
    }

    /// Relies on `FunctionBuilder::finalize`, which asserts that every block
    /// is filled and sealed.
    #[verifier::external_body]
    fn finalize(self)
        requires
            self.sealed@,
            forall|k: nat| k < self.blocks@.len() ==> self.filled@.contains(k),
    {
        self.fb.finalize();
    }

    /// Relies on `FunctionBuilder::use_var`: the value of variable `j` at
    /// the end of the active block.
    #[verifier::external_body]
    fn use_var(&mut self, j: usize) -> (r: usize)
        requires
            old(self).open_block(),
            j < old(self).vars@.len(),
        ensures
            final(self).one_more_val(old(self), r),
    {
        let v = self.fb.use_var(self.vars[j]);
        let r = self.vals.len();
        self.vals.push(v);
        r
    }

    /// Relies on `FunctionBuilder::try_def_var`, which refuses a value whose
    /// type is not the variable's.
    #[verifier::external_body]
    fn def_var(&mut self, j: usize, x: usize) -> (r: Result<(), LowerError>)
        requires
            old(self).open_block(),
            j < old(self).vars@.len(),
            x < old(self).vals@.len(),
        ensures
            final(self).same_but_vals(old(self)),
            final(self).vals@.len() == old(self).vals@.len(),
            r matches Err(e) ==> e is VerificationFailure,
    {
        self.fb.try_def_var(self.vars[j], self.vals[x]).map_err(|e| LowerError::VerificationFailure(e.to_string()))
    }

    /// Relies on `InstBuilder::iconst`.
    #[verifier::external_body]
    fn iconst(&mut self, t: MachType, imm: i64) -> (r: usize)
        requires
            old(self).open_block(),
        ensures
            final(self).one_more_val(old(self), r),
    {
        let v = self.fb.ins().iconst(cl_type(t), imm);
        let r = self.vals.len();
        self.vals.push(v);
        r
    }

    /// Relies on `InstBuilder::iadd`, `isub`, `imul`, `sdiv`, `band` and
    /// `bor`, one for each operation.
    #[verifier::external_body]
    fn binary(&mut self, op: BinOp, x: usize, y: usize) -> (r: usize)
        requires
            old(self).open_block(),
            x < old(self).vals@.len(),
            y < old(self).vals@.len(),
        ensures
            final(self).one_more_val(old(self), r),
    {
        let (x, y) = (self.vals[x], self.vals[y]);
        let v = match op {
            BinOp::Iadd => self.fb.ins().iadd(x, y),
            BinOp::Isub => self.fb.ins().isub(x, y),
            BinOp::Imul => self.fb.ins().imul(x, y),
            BinOp::Sdiv => self.fb.ins().sdiv(x, y),
            BinOp::Band => self.fb.ins().band(x, y),
            BinOp::Bor => self.fb.ins().bor(x, y),
        };
        let r = self.vals.len();
        self.vals.push(v);
        r
    }

    /// Relies on `InstBuilder::icmp`.
    #[verifier::external_body]
    fn icmp(&mut self, cc: IntCC, x: usize, y: usize) -> (r: usize)
        requires
            old(self).open_block(),
            x < old(self).vals@.len(),
            y < old(self).vals@.len(),
        ensures
            final(self).one_more_val(old(self), r),
    {
        let cc = match cc {
            IntCC::Equal => ir::condcodes::IntCC::Equal,
            IntCC::SignedLessThan => ir::condcodes::IntCC::SignedLessThan,
            IntCC::SignedGreaterThan => ir::condcodes::IntCC::SignedGreaterThan,
            IntCC::SignedLessThanOrEqual => ir::condcodes::IntCC::SignedLessThanOrEqual,
            IntCC::SignedGreaterThanOrEqual => ir::condcodes::IntCC::SignedGreaterThanOrEqual,
        };
        let v = self.fb.ins().icmp(cc, self.vals[x], self.vals[y]);
        let r = self.vals.len();
        self.vals.push(v);
        r
    }

    /// Relies on `InstBuilder::call` and `FunctionBuilder::inst_results`:
    /// the call's first result, which exists exactly where the callee's
    /// signature has results.
    #[verifier::external_body]
    fn call(&mut self, f: usize, args: &Vec<usize>) -> (r: Option<usize>)
        requires
            old(self).open_block(),
            f < old(self).refs@.len(),
            forall|i: int| 0 <= i < args@.len() ==> args@[i] < old(self).vals@.len(),
        ensures
            final(self).same_but_vals(old(self)),
            r is Some <==> old(self).ref_results@[f as int] > 0,
            r matches Some(v) ==> final(self).one_more_val(old(self), v),
            r is None ==> final(self).vals@.len() == old(self).vals@.len(),
    {
        let vals: Vec<ir::Value> = args.iter().map(|a| self.vals[*a]).collect();
        let inst = self.fb.ins().call(self.refs[f], &vals);
        let first = self.fb.inst_results(inst).first().copied();
        first.map(|v| {
            let r = self.vals.len();
            self.vals.push(v);
            r
        })
    }

    /// Relies on `InstBuilder::jump`: fills the active block, and adds it to
    /// the predecessors of block `k`, which must not be sealed yet.
    #[verifier::external_body]
    fn jump(&mut self, k: usize)
        requires
            old(self).open_block(),
            !old(self).sealed@,
            k < old(self).blocks@.len(),
        ensures
            final(self).terminated(old(self)),
    {
        self.fb.ins().jump(self.blocks[k], &[]);
    }

    /// Relies on `InstBuilder::brif`: fills the active block, and adds it to
    /// the predecessors of blocks `t` and `e`, which must not be sealed yet.
    #[verifier::external_body]
    fn brif(&mut self, c: usize, t: usize, e: usize)
        requires
            old(self).open_block(),
            !old(self).sealed@,
            c < old(self).vals@.len(),
            t < old(self).blocks@.len(),
            e < old(self).blocks@.len(),
        ensures
            final(self).terminated(old(self)),
    {
        self.fb.ins().brif(self.vals[c], self.blocks[t], &[], self.blocks[e], &[]);
    }

    /// Relies on `InstBuilder::return_`: fills the active block.
    #[verifier::external_body]
    fn return_(&mut self, vs: &Vec<usize>)
        requires
            old(self).open_block(),
            forall|i: int| 0 <= i < vs@.len() ==> vs@[i] < old(self).vals@.len(),
        ensures
            final(self).terminated(old(self)),
    {
        let vals: Vec<ir::Value> = vs.iter().map(|a| self.vals[*a]).collect();
        self.fb.ins().return_(&vals);
    }
}

/// A backend signature, with the machine types of its parameters and of its
/// results, in order.
struct ClSig {
    sig: ir::Signature,
    params: Ghost<Seq<MachType>>,
    results: Ghost<Seq<MachType>>,
}

impl ClSig {
    /// Relies on `Vec::clear` on `ir::Signature::params` and `returns`: no
    /// parameters and no results, the calling convention kept.
    #[verifier::external_body]
    fn clear(&mut self)
        ensures
            final(self).params@ == Seq::<MachType>::empty(),
            final(self).results@ == Seq::<MachType>::empty(),
    {
        self.sig.params.clear();
        self.sig.returns.clear();
    }

    /// Relies on `Vec::push` on `ir::Signature::params`: one more parameter,
    /// of the backend type of `t`.
    #[verifier::external_body]
    fn add_param(&mut self, t: MachType)
        ensures
            final(self).params@ == old(self).params@.push(t),
            final(self).results@ == old(self).results@,
    {
        let ty = match t {
            MachType::I64 => ir::types::I64,
            MachType::I8 => ir::types::I8,
        };
        self.sig.params.push(ir::AbiParam::new(ty))
    }

    /// Relies on `Vec::push` on `ir::Signature::returns`: one more result,
    /// of the backend type of `t`.
    #[verifier::external_body]
    fn add_result(&mut self, t: MachType)
        ensures
            final(self).params@ == old(self).params@,
            final(self).results@ == old(self).results@.push(t),
    {
        let ty = match t {
            MachType::I64 => ir::types::I64,
            MachType::I8 => ir::types::I8,
        };
        self.sig.returns.push(ir::AbiParam::new(ty))
    }
}

/// A declaration of the module: name, export (else import) linkage,
/// signature.
pub struct Decl {
    pub name: String,
    pub export: bool,
    pub sig: CallSig,
}

/// The shared compilation unit: the object module, the declarations made in
/// it with the id of each, and which of them have a body. The runtime
/// routines are declared once, first, for every function to call.
pub struct Backend {
    module: ObjectModule,
    ids: Vec<FuncId>,
    decls: Vec<Decl>,
    defined: Vec<bool>,
}

/// A declaration as a value: name, export, parameter types, result types,
/// and whether it has a body.
pub type DeclV = (Seq<char>, bool, Seq<MachType>, Seq<MachType>, bool);

/// The signature of a runtime routine: its one argument, and no result.
pub open spec fn runtime_params(r: Runtime) -> Seq<MachType> {
    seq![if r == Runtime::PrintInt { MachType::I64 } else { MachType::I8 }]
}

/// The signature of a runtime routine.
pub fn runtime_sig(r: Runtime) -> (s: CallSig)
    ensures
        s.params@ == runtime_params(r),
        s.results@ == Seq::<MachType>::empty(),
{
    let mut params: Vec<MachType> = Vec::new();
    params.push(if r == Runtime::PrintInt { MachType::I64 } else { MachType::I8 });
    assert(params@ =~= runtime_params(r));
    let results: Vec<MachType> = Vec::new();
    assert(results@ =~= Seq::<MachType>::empty());
    CallSig { params, results }
}

/// A copy of a signature.
fn copy_sig(s: &CallSig) -> (r: CallSig)
    ensures
        r.params@ == s.params@,
        r.results@ == s.results@,
{
    let mut params: Vec<MachType> = Vec::new();
    let mut i: usize = 0;
    while i < s.params.len()
        invariant
            i <= s.params@.len(),
            params@ == s.params@.take(i as int),
        decreases s.params@.len() - i,
    {
        params.push(s.params[i]);
        assert(params@ =~= s.params@.take(i + 1));
        i = i + 1;
    }
    assert(s.params@.take(i as int) =~= s.params@);
    let mut results: Vec<MachType> = Vec::new();
    let mut i: usize = 0;
    while i < s.results.len()
        invariant
            i <= s.results@.len(),
            results@ == s.results@.take(i as int),
        decreases s.results@.len() - i,
    {
        results.push(s.results[i]);
        assert(results@ =~= s.results@.take(i + 1));
        i = i + 1;
    }
    assert(s.results@.take(i as int) =~= s.results@);
    CallSig { params, results }
}

impl Backend {
    /// The ids and body marks match the declarations one for one.
    pub closed spec fn wf(&self) -> bool {
        &&& self.ids@.len() == self.decls@.len()
        &&& self.defined@.len() == self.decls@.len()
    }

    /// The module's declarations, in order.
    pub closed spec fn table(&self) -> Seq<DeclV> {
        Seq::new(
            self.decls@.len(),
            |k: int|
                (
                    self.decls@[k].name@,
                    self.decls@[k].export,
                    self.decls@[k].sig.params@,
                    self.decls@[k].sig.results@,
                    self.defined@[k],
                ),
        )
    }

    /// The names declared so far.
    spec fn names(&self) -> Seq<Seq<char>> {
        self.decls@.map_values(|d: Decl| d.name@)
    }

    /// Declares `name` with `sig`, exported or imported. A name already
    /// declared is refused with `DuplicateFunction`.
    fn declare(&mut self, name: &String, export: bool, sig: CallSig) -> (r: Result<(), LowerError>)
        requires
            old(self).wf(),
        ensures
            final(self).wf(),
            r is Ok ==> final(self).table() == old(self).table().push(
                (name@, export, sig.params@, sig.results@, false),
            ),
            r is Err ==> final(self).table() == old(self).table(),
            r == Err::<(), LowerError>(LowerError::DuplicateFunction) <==> (exists|k: int|
                0 <= k < old(self).table().len() && (#[trigger] old(self).table()[k]).0 == name@),
            r matches Err(e) ==> e is DuplicateFunction || e is ModuleError,
    {
        let mut names: Vec<String> = Vec::new();
        let mut i: usize = 0;
        while i < self.decls.len()
            invariant
                i <= self.decls@.len(),
                names@.len() == i,
                forall|q: int| 0 <= q < i ==> (#[trigger] names@[q])@ == self.decls@[q].name@,
            decreases self.decls@.len() - i,
        {
            names.push(self.decls[i].name.clone());
            i = i + 1;
        }
        match find_name(&names, name) {
            Some(j) => {
                assert(crate::lower::strings_view(names@)[j as int] == names@[j as int]@);
                assert(self.table()[j as int].0 == name@);
                return Err(LowerError::DuplicateFunction);
            },
            None => {
                assert forall|k: int| 0 <= k < self.table().len() implies (#[trigger] self.table()[k]).0 != name@ by {
                    assert(crate::lower::strings_view(names@)[k] == names@[k]@);
                    if self.table()[k].0 == name@ {
                        crate::regalloc::lemma_some_first(crate::lower::strings_view(names@), name@, k);
                    }
                };
            },
        }
        let cl = self.cl_signature(&sig);
        let id = declare_in_module(&mut self.module, name.as_str(), export, &cl.sig)?;
        let ghost before = self.table();
        self.ids.push(id);
        self.decls.push(Decl { name: name.clone(), export, sig });
        self.defined.push(false);
        assert(self.table() =~= before.push((name@, export, sig.params@, sig.results@, false)));
        Ok(())
    }

    /// The backend signature for `s`, in the host's native convention.
    fn cl_signature(&self, s: &CallSig) -> (r: ClSig)
        ensures
            r.params@ == s.params@,
            r.results@ == s.results@,
    {
        let mut cs = ClSig { sig: native_signature(&self.module), params: Ghost(Seq::empty()), results: Ghost(Seq::empty()) };
        cs.clear();
        assert(s.params@.take(0) =~= Seq::<MachType>::empty());
        let mut i: usize = 0;
        while i < s.params.len()
            invariant
                i <= s.params@.len(),
                cs.params@ == s.params@.take(i as int),
                cs.results@ == Seq::<MachType>::empty(),
            decreases s.params@.len() - i,
        {
            cs.add_param(s.params[i]);
            assert(s.params@.take(i + 1) =~= s.params@.take(i as int).push(s.params@[i as int]));
            i = i + 1;
        }
        assert(s.params@.take(i as int) =~= s.params@);
        assert(s.results@.take(0) =~= Seq::<MachType>::empty());
        let mut i: usize = 0;
        while i < s.results.len()
            invariant
                i <= s.results@.len(),
                cs.params@ == s.params@,
                cs.results@ == s.results@.take(i as int),
            decreases s.results@.len() - i,
        {
            cs.add_result(s.results[i]);
            assert(s.results@.take(i + 1) =~= s.results@.take(i as int).push(s.results@[i as int]));
            i = i + 1;
        }
        assert(s.results@.take(i as int) =~= s.results@);
        cs
    }

    /// Relies on `Module::define_function`: compiles `f` as the body of
    /// declaration `k`, whose id came from this module. The module keeps
    /// nothing of a failed definition.
    #[verifier::external_body]
    fn define_in_module(&mut self, k: usize, f: ir::Function) -> (r: Result<(), LowerError>)
        requires
            old(self).wf(),
            k < old(self).ids@.len(),
        ensures
            final(self).ids@ == old(self).ids@,
            final(self).decls@ == old(self).decls@,
            final(self).defined@ == old(self).defined@,
            r matches Err(e) ==> e is VerificationFailure,
    {
        let mut ctx = cranelift::codegen::Context::for_function(f);
        self.module.define_function(self.ids[k], &mut ctx).map_err(|e| LowerError::VerificationFailure(e.to_string()))
    }

    /// Gives declaration `k`, exported and without a body yet, the body `f`.
    fn define(&mut self, k: usize, f: ir::Function) -> (r: Result<(), LowerError>)
        requires
            old(self).wf(),
            k < old(self).decls@.len(),
        ensures
            final(self).wf(),
            r is Ok ==> final(self).table() == old(self).table().update(
                k as int,
                (old(self).table()[k as int].0, old(self).table()[k as int].1, old(self).table()[k as int].2,
                old(self).table()[k as int].3, true),
            ),
            r is Err ==> final(self).table() == old(self).table(),
            final(self).decls@.len() == old(self).decls@.len(),
            r matches Err(e) ==> e is VerificationFailure,
    {
        self.define_in_module(k, f)?;
        let ghost before = self.table();
        self.defined.set(k, true);
        assert(self.table() =~= before.update(k as int, (before[k as int].0, before[k as int].1, before[k as int].2, before[k as int].3, true)));
        Ok(())
    }

    /// An object module for the host, with the runtime routines declared as
    /// imports: `print_int` taking a 64-bit integer, `print_bool` taking a
    /// boolean, neither returning a value. Nothing is defined yet.
    pub fn new() -> (r: Result<Backend, LowerError>)
        ensures
            r matches Ok(b) ==> b.wf() && b.table() == seq![
                ("print_int"@, false, runtime_params(Runtime::PrintInt), Seq::<MachType>::empty(), false),
                ("print_bool"@, false, runtime_params(Runtime::PrintBool), Seq::<MachType>::empty(), false),
            ],
            r matches Err(e) ==> e is BackendUnavailable || e is ModuleError,
    {
        let module = host_object_module()?;
        let mut be = Backend { module, ids: Vec::new(), decls: Vec::new(), defined: Vec::new() };
        assert(be.table() =~= seq![]);
        let s1 = runtime_sig(Runtime::PrintInt);
        let n1 = "print_int".to_owned();
        assert(n1@ == "print_int"@);
        let ghost p1 = s1.params@;
        be.declare(&n1, false, s1)?;
        assert(be.table() =~= seq![
            ("print_int"@, false, runtime_params(Runtime::PrintInt), Seq::<MachType>::empty(), false),
        ]);
        let s2 = runtime_sig(Runtime::PrintBool);
        let n2 = "print_bool".to_owned();
        assert(n2@ == "print_bool"@);
        proof {
            reveal_strlit("print_int");
            reveal_strlit("print_bool");
            assert(n1@.len() != n2@.len());
        }
        be.declare(&n2, false, s2)?;
        assert(be.table() =~= seq![
            ("print_int"@, false, runtime_params(Runtime::PrintInt), Seq::<MachType>::empty(), false),
            ("print_bool"@, false, runtime_params(Runtime::PrintBool), Seq::<MachType>::empty(), false),
        ]);
        Ok(be)
    }
}

/// The value index of an operand: a variable read in the active block, or
/// one of the `np` entry parameters, which are the first values.
fn operand_value(em: &mut Emitter, np: usize, o: Operand) -> (r: Result<usize, LowerError>)
    requires
        old(em).wf(),
        old(em).open_block(),
        np <= old(em).vals@.len(),
    ensures
        final(em).wf(),
        final(em).same_but_vals(old(em)),
        final(em).vals@.len() >= old(em).vals@.len(),
        r matches Ok(v) ==> v < final(em).vals@.len(),
        r matches Err(e) ==> e is Malformed,
        r is Err <==> match o {
            Operand::Reg(j) => j >= old(em).vars@.len(),
            Operand::Param(i) => i >= np,
        },
{
    match o {
        Operand::Reg(j) => {
            if j < em.vars.len() {
                Ok(em.use_var(j))
            } else {
                Err(LowerError::Malformed)
            }
        },
        Operand::Param(i) => {
            if i < np {
                Ok(i)
            } else {
                Err(LowerError::Malformed)
            }
        },
    }
}

/// The values of a list of operands, in order.
fn operand_values(em: &mut Emitter, np: usize, os: &Vec<Operand>) -> (r: Result<Vec<usize>, LowerError>)
    requires
        old(em).wf(),
        old(em).open_block(),
        np <= old(em).vals@.len(),
    ensures
        final(em).wf(),
        final(em).same_but_vals(old(em)),
        final(em).vals@.len() >= old(em).vals@.len(),
        r matches Ok(v) ==> forall|i: int| 0 <= i < v@.len() ==> v@[i] < final(em).vals@.len(),
        r matches Err(e) ==> e is Malformed,
{
    let mut out: Vec<usize> = Vec::new();
    let mut i: usize = 0;
    while i < os.len()
        invariant
            em.wf(),
            em.same_but_vals(old(em)),
            em.open_block(),
            em.vals@.len() >= old(em).vals@.len(),
            np <= old(em).vals@.len(),
            forall|k: int| 0 <= k < out@.len() ==> out@[k] < em.vals@.len(),
        decreases os@.len() - i,
    {
        let v = operand_value(em, np, os[i])?;
        out.push(v);
        i = i + 1;
    }
    Ok(out)
}

/// Binds value `x` to register `dst`.
fn define(em: &mut Emitter, dst: usize, x: usize) -> (r: Result<(), LowerError>)
    requires
        old(em).wf(),
        old(em).open_block(),
        x < old(em).vals@.len(),
    ensures
        final(em).wf(),
        final(em).same_but_vals(old(em)),
        final(em).vals@.len() == old(em).vals@.len(),
        r matches Err(e) ==> e is Malformed || e is VerificationFailure,
        dst >= old(em).vars@.len() ==> r == Err::<(), LowerError>(LowerError::Malformed),
{
    if dst < em.vars.len() {
        em.def_var(dst, x)
    } else {
        Err(LowerError::Malformed)
    }
}

/// Emits one target instruction into the active block. Registers name
/// variables, `Param(i)` the entry parameter `i` of `np`, blocks their
/// index (never the entry block), callees the imported function `base + c`;
/// the two runtime routines are imported functions `rt_int` and `rt_bool`.
/// A terminator fills the active block; nothing else does.
fn emit_inst(
    em: &mut Emitter,
    inst: &Inst,
    np: usize,
    base: usize,
    rt_int: usize,
    rt_bool: usize,
) -> (r: Result<(), LowerError>)
    requires
        old(em).wf(),
        old(em).open_block(),
        !old(em).sealed@,
        np <= old(em).vals@.len(),
    ensures
        final(em).wf(),
        final(em).vals@.len() >= old(em).vals@.len(),
        final(em).vars@.len() == old(em).vars@.len(),
        final(em).blocks@.len() == old(em).blocks@.len(),
        final(em).refs@.len() == old(em).refs@.len(),
        final(em).ref_results@ == old(em).ref_results@,
        final(em).active@ == old(em).active@,
        final(em).pristine@ == old(em).pristine@,
        final(em).sealed@ == old(em).sealed@,
        r is Ok ==> if is_terminator(inst@) {
            final(em).filled@ == old(em).filled@.insert(old(em).active@->Some_0)
        } else {
            final(em).filled@ == old(em).filled@
        },
        r matches Err(e) ==> e is Malformed || e is VerificationFailure,
{
    match inst {
        Inst::Iconst { dst, ty, imm } => {
            if *ty == MachType::I8 && (*imm < -128 || *imm > 255) {
                return Err(LowerError::Malformed);
            }
            let x = em.iconst(*ty, *imm);
            define(em, *dst, x)
        },
        Inst::Binary { op, dst, lhs, rhs } => {
            let x = operand_value(em, np, *lhs)?;
            let y = operand_value(em, np, *rhs)?;
            let v = em.binary(*op, x, y);
            define(em, *dst, v)
        },
        Inst::Icmp { cond, dst, lhs, rhs } => {
            let x = operand_value(em, np, *lhs)?;
            let y = operand_value(em, np, *rhs)?;
            let v = em.icmp(*cond, x, y);
            define(em, *dst, v)
        },
        Inst::Bnot { dst, arg } => {
            let x = operand_value(em, np, *arg)?;
            let z = em.iconst(MachType::I8, 0);
            let v = em.icmp(IntCC::Equal, x, z);
            define(em, *dst, v)
        },
        Inst::Copy { dst, src } => {
            let x = operand_value(em, np, *src)?;
            define(em, *dst, x)
        },
        Inst::Call { callee, args, dst } => {
            if *callee >= em.refs.len() || base > em.refs.len() - *callee - 1 {
                return Err(LowerError::Malformed);
            }
            let f = base + *callee;
            let vals = operand_values(em, np, args)?;
            let result = em.call(f, &vals);
            match (dst, result) {
                (Some(d), Some(v)) => define(em, *d, v),
                (Some(_), None) => Err(LowerError::Malformed),
                (None, _) => Ok(()),
            }
        },
        Inst::CallRuntime { routine, arg } => {
            let f = match routine {
                Runtime::PrintInt => rt_int,
                Runtime::PrintBool => rt_bool,
            };
            if f >= em.refs.len() {
                return Err(LowerError::Malformed);
            }
            let x = operand_value(em, np, *arg)?;
            let mut vals: Vec<usize> = Vec::new();
            vals.push(x);
            let _ = em.call(f, &vals);
            Ok(())
        },
        Inst::Jump { target } => {
            if *target == 0 || *target >= em.blocks.len() {
                return Err(LowerError::Malformed);
            }
            em.jump(*target);
            Ok(())
        },
        Inst::Brif { cond, then_block, else_block } => {
            if *then_block == 0 || *then_block >= em.blocks.len() || *else_block == 0 || *else_block
                >= em.blocks.len() {
                return Err(LowerError::Malformed);
            }
            let c = operand_value(em, np, *cond)?;
            em.brif(c, *then_block, *else_block);
            Ok(())
        },
        Inst::Return { value } => {
            let mut vals: Vec<usize> = Vec::new();
            if let Some(o) = value {
                let x = operand_value(em, np, *o)?;
                vals.push(x);
            }
            em.return_(&vals);
            Ok(())
        },
    }
}

/// Builds the body of `t`: one variable per register, one block per target
/// block, the entry block's parameters standing for the arguments, every
/// declaration of `be` imported (the callees from `base` on). On success all
/// blocks are filled and sealed.
fn build_body(em: &mut Emitter, be: &mut Backend, t: &TargetFunction, base: usize, rt_int: usize, rt_bool: usize) -> (r: Result<(), LowerError>)
    requires
        old(em).wf(),
        old(em).vars@.len() == 0 && old(em).blocks@.len() == 0 && old(em).vals@.len() == 0,
        old(em).refs@.len() == 0,
        old(em).active@ is None && old(em).filled@ == Set::<nat>::empty() && old(em).pristine@,
        !old(em).sealed@,
        old(be).wf(),
        t@.blocks.len() > 0,
        well_terminated(t@),
    ensures
        final(be).wf(),
        final(be).table() == old(be).table(),
        r is Ok ==> final(em).sealed@ && forall|k: nat| k < final(em).blocks@.len() ==> final(em).filled@.contains(k),
        r matches Err(e) ==> e is Malformed || e is VerificationFailure,
{
    let mut i: usize = 0;
    while i < be.decls.len()
        invariant
            em.wf(),
            be.wf(),
            be.table() == old(be).table(),
            em.vars@.len() == 0 && em.blocks@.len() == 0 && em.vals@.len() == 0,
            em.active@ is None && em.filled@ == Set::<nat>::empty() && em.pristine@,
            !em.sealed@,
        decreases be.decls@.len() - i,
    {
        em.import(be, i);
        i = i + 1;
    }
    let mut i: usize = 0;
    while i < t.regs.len()
        invariant
            em.wf(),
            em.blocks@.len() == 0 && em.vals@.len() == 0,
            em.active@ is None && em.filled@ == Set::<nat>::empty() && em.pristine@,
            !em.sealed@,
            be.wf(),
            be.table() == old(be).table(),
        decreases t.regs@.len() - i,
    {
        em.declare_var(t.regs[i].ty);
        i = i + 1;
    }
    let mut k: usize = 0;
    while k < t.blocks.len()
        invariant
            em.wf(),
            k <= t.blocks@.len(),
            em.blocks@.len() == k,
            em.vals@.len() == 0,
            em.active@ is None && em.filled@ == Set::<nat>::empty() && em.pristine@,
            !em.sealed@,
            be.wf(),
            be.table() == old(be).table(),
        decreases t.blocks@.len() - k,
    {
        em.create_block();
        k = k + 1;
    }
    let np = em.entry_params();
    let mut k: usize = 0;
    while k < t.blocks.len()
        invariant
            em.wf(),
            k <= t.blocks@.len(),
            em.blocks@.len() == t.blocks@.len(),
            np <= em.vals@.len(),
            !em.sealed@,
            well_terminated(t@),
            be.wf(),
            be.table() == old(be).table(),
            k == 0 ==> em.active@ is None,
            k > 0 ==> em.active@ == Some((k - 1) as nat),
            forall|q: nat| em.filled@.contains(q) <==> q < k,
        decreases t.blocks@.len() - k,
    {
        em.switch_to_block(k);
        let insts = &t.blocks[k].insts;
        let ghost bv = t@.blocks[k as int];
        assert(bv == crate::target::insts_view(insts@));
        assert(crate::cfg::block_ok(bv));
        let mut j: usize = 0;
        while j < insts.len()
            invariant
                em.wf(),
                bv == crate::target::insts_view(insts@),
                crate::cfg::block_ok(bv),
                em.blocks@.len() == t.blocks@.len(),
                k < t.blocks@.len(),
                np <= em.vals@.len(),
                !em.sealed@,
                em.active@ == Some(k as nat),
                be.wf(),
                be.table() == old(be).table(),
                j <= insts@.len(),
                forall|q: nat| em.filled@.contains(q) <==> (q < k || (q == k && j == insts@.len())),
            decreases insts@.len() - j,
        {
            assert(bv[j as int] == insts@[j as int]@);
            if j + 1 < insts.len() {
                assert(!is_terminator(bv[j as int]));
            } else {
                assert(bv.last() == bv[j as int]);
            }
            let ghost before = em.filled@;
            emit_inst(em, &insts[j], np, base, rt_int, rt_bool)?;
            j = j + 1;
            assert forall|q: nat| em.filled@.contains(q) <==> (q < k || (q == k && j == insts@.len())) by {
                if j == insts@.len() {
                    assert(em.filled@ == before.insert(k as nat));
                }
            };
        }
        k = k + 1;
    }
    em.seal_all_blocks();
    Ok(())
}

/// Relies on `ir::Function::with_name_signature`: a function without blocks.
#[verifier::external_body]
fn new_function(sig: ir::Signature, index: u32) -> ir::Function {
    ir::Function::with_name_signature(ir::UserFuncName::user(0, index), sig)
}

/// Relies on `verifier::verify_function`: the backend's consistency checks,
/// with its diagnostic where they fail.
#[verifier::external_body]
fn verify(f: &ir::Function) -> (r: Result<(), LowerError>)
    ensures
        r matches Err(e) ==> e is VerificationFailure,
{
    let flags = cranelift::codegen::settings::Flags::new(cranelift::codegen::settings::builder());
    cranelift::codegen::verify_function(f, &flags).map_err(|e| LowerError::VerificationFailure(e.to_string()))
}

/// The table after a failed emission: what was there stays, and where
/// anything was added, some added export has no body, so that `finish`
/// refuses to give an object.
pub open spec fn failed_emission(before: Seq<DeclV>, after: Seq<DeclV>) -> bool {
    &&& before.len() <= after.len()
    &&& after.subrange(0, before.len() as int) == before
    &&& (after.len() > before.len() ==> exists|k: int|
        before.len() <= k < after.len() && (#[trigger] after[k]).1 && !after[k].4)
}

/// The table entries of lowered functions once emitted: exported, under their
/// names and signatures, with their bodies.
pub open spec fn emitted(funcs: Seq<TargetFunction>) -> Seq<DeclV> {
    funcs.map_values(|t: TargetFunction| (t.name@, true, t.sig.params@, t.sig.results@, true))
}

impl Backend {
    /// Declares every function of `funcs` under its name with export
    /// visibility (so that calls may go forward), then builds, verifies and
    /// defines each in turn. Any failure ends the emission; `finish` then
    /// refuses to give an object, as some export has no body.
    pub fn emit_functions(&mut self, funcs: &Vec<TargetFunction>) -> (r: Result<(), LowerError>)
        requires
            old(self).wf(),
        ensures
            final(self).wf(),
            funcs@.len() == 0 ==> r is Ok && final(self).table() == old(self).table(),
            r is Ok ==> final(self).table() == old(self).table() + emitted(funcs@),
            (exists|k: int| 0 <= k < funcs@.len() && !(#[trigger] funcs@[k]@.blocks.len() > 0
                && well_terminated(funcs@[k]@))) ==> r == Err::<(), LowerError>(LowerError::Malformed),
            r matches Err(e) ==> e is Malformed || e is VerificationFailure || e is DuplicateFunction
                || e is ModuleError,
            r is Err ==> failed_emission(old(self).table(), final(self).table()),
    {
        if funcs.len() > u32::MAX as usize {
            assert(self.table().subrange(0, self.table().len() as int) =~= self.table());
            return Err(LowerError::Malformed);
        }
        let mut k: usize = 0;
        while k < funcs.len()
            invariant
                self.wf(),
                self.table() == old(self).table(),
                forall|q: int| 0 <= q < k ==> (#[trigger] funcs@[q]@.blocks.len() > 0 && well_terminated(funcs@[q]@)),
            decreases funcs@.len() - k,
        {
            if !check_blocks(&funcs[k]) {
                assert(self.table().subrange(0, self.table().len() as int) =~= self.table());
                return Err(LowerError::Malformed);
            }
            k = k + 1;
        }
        let base = self.decls.len();
        let ghost start = self.table();
        let mut k: usize = 0;
        while k < funcs.len()
            invariant
                self.wf(),
                k <= funcs@.len(),
                base == start.len(),
                start == old(self).table(),
                forall|q: int| 0 <= q < funcs@.len() ==> (#[trigger] funcs@[q]@.blocks.len() > 0 && well_terminated(funcs@[q]@)),
                self.table() == start + emitted(funcs@.take(k as int)).map_values(
                    |d: DeclV| (d.0, d.1, d.2, d.3, false),
                ),
            decreases funcs@.len() - k,
        {
            let t = &funcs[k];
            let sig = copy_sig(&t.sig);
            let ghost before = self.table();
            match self.declare(&t.name, true, sig) {
                Ok(()) => {},
                Err(e) => {
                    proof {
                        assert(self.table().subrange(0, start.len() as int) =~= start);
                        if self.table().len() > start.len() {
                            assert(self.table()[start.len() as int].1 && !self.table()[start.len() as int].4);
                        }
                    }
                    return Err(e);
                },
            }
            assert(emitted(funcs@.take(k + 1)).map_values(|d: DeclV| (d.0, d.1, d.2, d.3, false))
                =~= emitted(funcs@.take(k as int)).map_values(|d: DeclV| (d.0, d.1, d.2, d.3, false)).push(
                (t.name@, true, t.sig.params@, t.sig.results@, false),
            ));
            assert(self.table() =~= start + emitted(funcs@.take(k + 1)).map_values(
                |d: DeclV| (d.0, d.1, d.2, d.3, false),
            ));
            k = k + 1;
        }
        assert(funcs@.take(k as int) =~= funcs@);
        assert(self.table().len() == self.decls@.len());
        assert forall|q: int| 0 <= q < funcs@.len() implies {
            let d = #[trigger] self.table()[base + q];
            &&& d.0 == emitted(funcs@)[q].0
            &&& d.1 && d.2 == emitted(funcs@)[q].2 && d.3 == emitted(funcs@)[q].3
            &&& d.4 == (q < 0)
        } by {
            assert(self.table()[base + q] == emitted(funcs@).map_values(|d: DeclV| (d.0, d.1, d.2, d.3, false))[q]);
        };
        let mut k: usize = 0;
        while k < funcs.len()
            invariant
                self.wf(),
                k <= funcs@.len(),
                funcs@.len() <= u32::MAX,
                base == start.len(),
                start == old(self).table(),
                self.decls@.len() == base + funcs@.len(),
                self.table().len() == start.len() + funcs@.len(),
                forall|q: int| 0 <= q < base ==> self.table()[q] == start[q],
                forall|q: int| 0 <= q < funcs@.len() ==> {
                    let d = #[trigger] self.table()[base + q];
                    &&& d.0 == emitted(funcs@)[q].0
                    &&& d.1 && d.2 == emitted(funcs@)[q].2 && d.3 == emitted(funcs@)[q].3
                    &&& d.4 == (q < k)
                },
                forall|q: int| 0 <= q < funcs@.len() ==> (#[trigger] funcs@[q]@.blocks.len() > 0 && well_terminated(funcs@[q]@)),
            decreases funcs@.len() - k,
        {
            let t = &funcs[k];
            assert(funcs@[k as int]@.blocks.len() > 0 && well_terminated(funcs@[k as int]@));
            let sig = self.cl_signature(&t.sig);
            let mut f = new_function(sig.sig, k as u32);
            let mut ctx = new_context();
            let mut em = Emitter::new(&mut f, &mut ctx);
            let built = build_body(&mut em, self, t, base, 0, 1);
            proof {
                assert(self.table().subrange(0, start.len() as int) =~= start);
                let d = self.table()[base + k as int];
                assert(d.1 && !d.4);
            }
            if built.is_err() {
                return built;
            }
            em.finalize();
            verify(&f)?;
            let ghost before = self.table();
            let n = self.decls.len();
            assert(base + k < n);
            self.define(base + k, f)?;
            assert forall|q: int| 0 <= q < funcs@.len() implies {
                let d = #[trigger] self.table()[base + q];
                &&& d.0 == emitted(funcs@)[q].0
                &&& d.1 && d.2 == emitted(funcs@)[q].2 && d.3 == emitted(funcs@)[q].3
                &&& d.4 == (q < k + 1)
            } by {
                assert(before[base + q] == self.table()[base + q] || q == k);
            };
            k = k + 1;
        }
        assert forall|q: int| 0 <= q < self.table().len() implies self.table()[q] == (start + emitted(funcs@))[q] by {
            if q >= base {
                let d = self.table()[base + (q - base)];
                assert(d.4);
            }
        };
        assert(self.table() =~= start + emitted(funcs@));
        Ok(())
    }

    /// Relies on `ObjectModule::finish` and `ObjectProduct::emit`: the bytes
    /// of the object file. `finish` asserts that every export has a body.
    #[verifier::external_body]
    fn finish_object(self) -> (r: Result<Vec<u8>, LowerError>)
        requires
            self.wf(),
            forall|k: int| 0 <= k < self.table().len() && (#[trigger] self.table()[k]).1 ==> self.table()[k].4,
        ensures
            r matches Err(e) ==> e is VerificationFailure,
    {
        self.module.finish().emit().map_err(|e| LowerError::VerificationFailure(e.to_string()))
    }

    /// The bytes of the finished object file. Refused with `Malformed` while
    /// some exported function has no body.
    pub fn finish(self) -> (r: Result<Vec<u8>, LowerError>)
        requires
            self.wf(),
        ensures
            (exists|k: int| 0 <= k < self.table().len() && (#[trigger] self.table()[k]).1 && !self.table()[k].4)
                <==> r == Err::<Vec<u8>, LowerError>(LowerError::Malformed),
            r matches Err(e) ==> e is Malformed || e is VerificationFailure,
    {
        let mut k: usize = 0;
        while k < self.decls.len()
            invariant
                self.wf(),
                forall|q: int| 0 <= q < k ==> (#[trigger] self.table()[q]).1 ==> self.table()[q].4,
            decreases self.decls@.len() - k,
        {
            if self.decls[k].export && !self.defined[k] {
                assert(self.table()[k as int].1 && !self.table()[k as int].4);
                return Err(LowerError::Malformed);
            }
            k = k + 1;
        }
        self.finish_object()
    }
}

/// Compiles a whole program to an object file. Every function is lowered
/// before the backend sees any of them: where lowering fails, its error is
/// the result and no object is made. Then each function is verified by the
/// backend and defined with export visibility; a failure there fails the
/// whole compilation, and no object is made either.
pub fn compile_program(p: &Program) -> (r: Result<Vec<u8>, LowerError>)
    requires
        program_fits(*p),
    ensures
        lower_program_spec(*p) matches Err(e) ==> r == Err::<Vec<u8>, LowerError>(e),
        r is Ok ==> lower_program_spec(*p) is Ok,
        lower_program_spec(*p) is Ok && r is Err ==> r->Err_0 is VerificationFailure || r->Err_0 is BackendUnavailable
            || r->Err_0 is Malformed || r->Err_0 is ModuleError || r->Err_0 is DuplicateFunction,
{
    let funcs = lower_program(p)?;
    let mut backend = Backend::new()?;
    backend.emit_functions(&funcs)?;
    backend.finish()
}

/// Relies on `cranelift_native::builder`, `isa::Builder::finish` and
/// `ObjectBuilder::new`: an object module for the host, or the reason there
/// is none. The steps hand an `Arc<dyn TargetIsa>` on, which has no
/// declaration of its own.
#[verifier::external_body]
fn host_object_module() -> (r: Result<ObjectModule, LowerError>)
    ensures
        r matches Err(e) ==> e is BackendUnavailable,
{
    let isa = cranelift_native::builder()
        .map_err(|e| LowerError::BackendUnavailable(e.to_string()))?
        .finish(cranelift::codegen::settings::Flags::new(cranelift::codegen::settings::builder()))
        .map_err(|e| LowerError::BackendUnavailable(e.to_string()))?;
    let b = cranelift_object::ObjectBuilder::new(isa, "brilift", cranelift_module::default_libcall_names())
        .map_err(|e| LowerError::BackendUnavailable(e.to_string()))?;
    Ok(ObjectModule::new(b))
}

/// Relies on `Module::make_signature`: an empty signature in the host's
/// native calling convention.
#[verifier::external_body]
fn native_signature(m: &ObjectModule) -> ir::Signature {
    m.make_signature()
}



/// Relies on `Module::declare_function`: declares `name`, exported or
/// imported, with `sig`.
#[verifier::external_body]
fn declare_in_module(m: &mut ObjectModule, name: &str, export: bool, sig: &ir::Signature) -> (r: Result<
    FuncId,
    LowerError,
>)
    ensures
        r matches Err(e) ==> e is ModuleError,
{
    let linkage = if export {
        cranelift_module::Linkage::Export
    } else {
        cranelift_module::Linkage::Import
    };
    m.declare_function(name, linkage, sig).map_err(|e| LowerError::ModuleError(e.to_string()))
}

/// Relies on the constants `ir::types::I64` and `ir::types::I8`.
#[verifier::external_body]
fn cl_type(t: MachType) -> ir::Type {
    match t {
        MachType::I64 => ir::types::I64,
        MachType::I8 => ir::types::I8,
    }
}

} // verus!
