use brilift::backend::compile_program;
use brilift::cfg::lower_function;
use brilift::error::LowerError;
use brilift::lower::Callee;
use brilift::program::lower_program;
use brilift::regalloc::all_vars;
use brilift::source::{Argument, BrilFunction, BrilType, Code, EffectOps, Instruction, Literal, Program, ValueOps};
use brilift::target::{BinOp, Inst, IntCC, MachType, Operand, Runtime, TargetFunction};
use brilift::types::{tr_sig, tr_type};

fn s(x: &str) -> String {
    x.to_string()
}

fn strs(xs: &[&str]) -> Vec<String> {
    xs.iter().map(|x| s(x)).collect()
}

fn konst(dest: &str, ty: BrilType, value: Literal) -> Code {
    Code::Instruction(Instruction::Constant { dest: s(dest), const_type: ty, value })
}

fn value(dest: &str, ty: BrilType, op: ValueOps, args: &[&str]) -> Code {
    Code::Instruction(Instruction::Value {
        args: strs(args),
        dest: s(dest),
        funcs: vec![],
        labels: vec![],
        op,
        op_type: ty,
    })
}

fn call_value(dest: &str, ty: BrilType, callee: &str, args: &[&str]) -> Code {
    Code::Instruction(Instruction::Value {
        args: strs(args),
        dest: s(dest),
        funcs: strs(&[callee]),
        labels: vec![],
        op: ValueOps::Call,
        op_type: ty,
    })
}

fn effect(op: EffectOps, args: &[&str], labels: &[&str]) -> Code {
    Code::Instruction(Instruction::Effect { args: strs(args), funcs: vec![], labels: strs(labels), op })
}

fn label(l: &str) -> Code {
    Code::Label { label: s(l) }
}

fn func(name: &str, args: &[(&str, BrilType)], ret: Option<BrilType>, instrs: Vec<Code>) -> BrilFunction {
    BrilFunction {
        name: s(name),
        args: args.iter().map(|(n, t)| Argument { name: s(n), arg_type: *t }).collect(),
        return_type: ret,
        instrs,
    }
}

fn only(p: &Program) -> TargetFunction {
    let mut v = lower_program(p).expect("program lowers");
    assert_eq!(v.len(), 1);
    v.remove(0)
}

fn insts(t: &TargetFunction, k: usize) -> String {
    format!("{:?}", t.blocks[k].insts)
}

fn scenario_a() -> Program {
    Program {
        functions: vec![func(
            "main",
            &[],
            None,
            vec![konst("a", BrilType::Int, Literal::Int(5)), effect(EffectOps::Print, &["a"], &[])],
        )],
    }
}

#[test]
fn print_constant_lowers_to_one_block() {
    let t = only(&scenario_a());
    assert_eq!(t.name, "main");
    assert!(t.sig.params.is_empty());
    assert!(t.sig.results.is_empty());
    assert_eq!(t.blocks.len(), 1);
    let expected = vec![
        Inst::Iconst { dst: 0, ty: MachType::I64, imm: 5 },
        Inst::CallRuntime { routine: Runtime::PrintInt, arg: Operand::Reg(0) },
        Inst::Return { value: None },
    ];
    assert_eq!(insts(&t, 0), format!("{:?}", expected));
}

#[test]
fn identity_returns_its_argument() {
    let p = Program {
        functions: vec![func("id", &[("x", BrilType::Int)], Some(BrilType::Int), vec![effect(
            EffectOps::Return,
            &["x"],
            &[],
        )])],
    };
    let t = only(&p);
    assert_eq!(t.sig.params, vec![MachType::I64]);
    assert_eq!(t.sig.results, vec![MachType::I64]);
    assert!(t.regs.is_empty());
    assert_eq!(t.blocks.len(), 1);
    assert_eq!(insts(&t, 0), format!("{:?}", vec![Inst::Return { value: Some(Operand::Param(0)) }]));
}

#[test]
fn unsupported_operator_aborts_everything() {
    let p = Program {
        functions: vec![
            scenario_a().functions.remove(0),
            func("f", &[("x", BrilType::Int)], None, vec![value("y", BrilType::Int, ValueOps::Fadd, &["x", "x"])]),
        ],
    };
    assert_eq!(lower_program(&p).unwrap_err(), LowerError::UnsupportedOperator);
    assert_eq!(compile_program(&p).unwrap_err(), LowerError::UnsupportedOperator);
}

#[test]
fn unsupported_effect_aborts() {
    let p = Program { functions: vec![func("f", &[], None, vec![effect(EffectOps::Store, &[], &[])])] };
    assert_eq!(lower_program(&p).unwrap_err(), LowerError::UnsupportedOperator);
}

#[test]
fn duplicate_function_names_are_rejected() {
    let a = scenario_a().functions.remove(0);
    let p = Program { functions: vec![a.clone(), a] };
    assert_eq!(lower_program(&p).unwrap_err(), LowerError::DuplicateFunction);
    assert_eq!(compile_program(&p).unwrap_err(), LowerError::DuplicateFunction);
}

#[test]
fn type_mapper_maps_int_and_bool_only() {
    assert_eq!(tr_type(&BrilType::Int), Ok(MachType::I64));
    assert_eq!(tr_type(&BrilType::Bool), Ok(MachType::I8));
    assert_eq!(tr_type(&BrilType::Float), Err(LowerError::UnsupportedType));
    assert_eq!(tr_type(&BrilType::Char), Err(LowerError::UnsupportedType));
    assert_eq!(tr_type(&BrilType::Pointer), Err(LowerError::UnsupportedType));
}

#[test]
fn signature_follows_declaration_order() {
    let f = func("f", &[("a", BrilType::Bool), ("b", BrilType::Int)], Some(BrilType::Bool), vec![]);
    let sig = tr_sig(&f).unwrap();
    assert_eq!(sig.params, vec![MachType::I8, MachType::I64]);
    assert_eq!(sig.results, vec![MachType::I8]);
    let g = func("g", &[("a", BrilType::Float)], None, vec![]);
    assert_eq!(tr_sig(&g).unwrap_err(), LowerError::UnsupportedType);
}

#[test]
fn unsupported_argument_type_fails() {
    let p = Program { functions: vec![func("f", &[("x", BrilType::Float)], None, vec![])] };
    assert_eq!(lower_program(&p).unwrap_err(), LowerError::UnsupportedType);
}

#[test]
fn one_register_per_distinct_destination() {
    let f = func("f", &[], None, vec![
        konst("a", BrilType::Int, Literal::Int(1)),
        konst("b", BrilType::Bool, Literal::Bool(true)),
        value("a", BrilType::Int, ValueOps::Add, &["a", "a"]),
        effect(EffectOps::Print, &["a"], &[]),
    ]);
    let regs = all_vars(&f).unwrap();
    assert_eq!(regs.len(), 2);
    assert_eq!(regs[0].name, "a");
    assert_eq!(regs[0].ty, MachType::I64);
    assert_eq!(regs[1].name, "b");
    assert_eq!(regs[1].ty, MachType::I8);
}

#[test]
fn conflicting_destination_types_are_rejected() {
    let f = func("f", &[], None, vec![
        konst("a", BrilType::Int, Literal::Int(1)),
        konst("a", BrilType::Bool, Literal::Bool(false)),
    ]);
    assert_eq!(all_vars(&f).unwrap_err(), LowerError::TypeConflict);
}

#[test]
fn lowering_twice_gives_the_same_result() {
    let p = branching_program();
    let a = lower_program(&p).unwrap();
    let b = lower_program(&p).unwrap();
    assert_eq!(format!("{:?}", a), format!("{:?}", b));
    let callees = vec![Callee { name: s("main"), params: 1, has_result: false }];
    let c = lower_function(&p.functions[0], &callees).unwrap();
    let d = lower_function(&p.functions[0], &callees).unwrap();
    assert_eq!(format!("{:?}", c), format!("{:?}", d));
    assert_eq!(format!("{:?}", c), format!("{:?}", a[0]));
}

fn branching_program() -> Program {
    Program {
        functions: vec![func("main", &[("n", BrilType::Int)], None, vec![
            konst("zero", BrilType::Int, Literal::Int(0)),
            value("c", BrilType::Bool, ValueOps::Lt, &["n", "zero"]),
            effect(EffectOps::Branch, &["c"], &["neg", "pos"]),
            label("neg"),
            konst("b", BrilType::Bool, Literal::Bool(true)),
            effect(EffectOps::Print, &["b"], &[]),
            effect(EffectOps::Jump, &[], &["end"]),
            label("pos"),
            value("m", BrilType::Int, ValueOps::Mul, &["n", "n"]),
            effect(EffectOps::Print, &["m", "c"], &[]),
            label("end"),
        ])],
    }
}

#[test]
fn labels_become_blocks() {
    let t = only(&branching_program());
    assert_eq!(t.blocks.len(), 4);
    let zero = 0;
    let c = 1;
    let b = 2;
    let m = 3;
    assert_eq!(insts(&t, 0), format!("{:?}", vec![
        Inst::Iconst { dst: zero, ty: MachType::I64, imm: 0 },
        Inst::Icmp { cond: IntCC::SignedLessThan, dst: c, lhs: Operand::Param(0), rhs: Operand::Reg(zero) },
        Inst::Brif { cond: Operand::Reg(c), then_block: 1, else_block: 2 },
    ]));
    assert_eq!(insts(&t, 1), format!("{:?}", vec![
        Inst::Iconst { dst: b, ty: MachType::I8, imm: 1 },
        Inst::CallRuntime { routine: Runtime::PrintBool, arg: Operand::Reg(b) },
        Inst::Jump { target: 3 },
    ]));
    assert_eq!(insts(&t, 2), format!("{:?}", vec![
        Inst::Binary { op: BinOp::Imul, dst: m, lhs: Operand::Param(0), rhs: Operand::Param(0) },
        Inst::CallRuntime { routine: Runtime::PrintInt, arg: Operand::Reg(m) },
        Inst::CallRuntime { routine: Runtime::PrintBool, arg: Operand::Reg(c) },
        Inst::Jump { target: 3 },
    ]));
    assert_eq!(insts(&t, 3), format!("{:?}", vec![Inst::Return { value: None }]));
}

#[test]
fn code_after_a_terminator_is_not_emitted() {
    let p = Program {
        functions: vec![func("f", &[], None, vec![
            effect(EffectOps::Return, &[], &[]),
            konst("a", BrilType::Int, Literal::Int(1)),
        ])],
    };
    let t = only(&p);
    assert_eq!(t.regs.len(), 1);
    assert_eq!(insts(&t, 0), format!("{:?}", vec![Inst::Return { value: None }]));
}

#[test]
fn argument_redefined_is_copied_first() {
    let p = Program {
        functions: vec![func("f", &[("x", BrilType::Int)], None, vec![
            value("x", BrilType::Int, ValueOps::Add, &["x", "x"]),
        ])],
    };
    let t = only(&p);
    assert_eq!(insts(&t, 0), format!("{:?}", vec![
        Inst::Copy { dst: 0, src: Operand::Param(0) },
        Inst::Binary { op: BinOp::Iadd, dst: 0, lhs: Operand::Reg(0), rhs: Operand::Reg(0) },
        Inst::Return { value: None },
    ]));
}

#[test]
fn calls_name_functions_by_position() {
    let p = Program {
        functions: vec![
            func("main", &[], None, vec![
                konst("a", BrilType::Int, Literal::Int(2)),
                call_value("b", BrilType::Int, "double", &["a"]),
                value("c", BrilType::Bool, ValueOps::Not, &["t"]),
                konst("t", BrilType::Bool, Literal::Bool(false)),
                effect(EffectOps::Print, &["b"], &[]),
            ]),
            func("double", &[("x", BrilType::Int)], Some(BrilType::Int), vec![
                value("y", BrilType::Int, ValueOps::Add, &["x", "x"]),
                effect(EffectOps::Return, &["y"], &[]),
            ]),
        ],
    };
    let v = lower_program(&p).unwrap();
    assert_eq!(v.len(), 2);
    assert_eq!(v[0].name, "main");
    assert_eq!(v[1].name, "double");
    assert_eq!(insts(&v[0], 0), format!("{:?}", vec![
        Inst::Iconst { dst: 0, ty: MachType::I64, imm: 2 },
        Inst::Call { callee: 1, args: vec![Operand::Reg(0)], dst: Some(1) },
        Inst::Bnot { dst: 2, arg: Operand::Reg(3) },
        Inst::Iconst { dst: 3, ty: MachType::I8, imm: 0 },
        Inst::CallRuntime { routine: Runtime::PrintInt, arg: Operand::Reg(1) },
        Inst::Return { value: None },
    ]));
    let bytes = compile_program(&p).unwrap();
    assert!(!bytes.is_empty());
}

#[test]
fn malformed_programs_are_rejected() {
    let undefined = func("f", &[], None, vec![effect(EffectOps::Print, &["nope"], &[])]);
    let twice = func("f", &[], None, vec![label("l"), label("l")]);
    let no_ret = func("f", &[], Some(BrilType::Int), vec![]);
    let bad_jump = func("f", &[], None, vec![effect(EffectOps::Jump, &[], &["nowhere"])]);
    let bad_arity = func("f", &[], None, vec![
        konst("a", BrilType::Int, Literal::Int(1)),
        value("b", BrilType::Int, ValueOps::Add, &["a"]),
    ]);
    let bad_literal = func("f", &[], None, vec![konst("a", BrilType::Bool, Literal::Int(1))]);
    for f in [undefined, twice, no_ret, bad_jump, bad_arity, bad_literal] {
        let p = Program { functions: vec![f] };
        assert_eq!(lower_program(&p).unwrap_err(), LowerError::Malformed);
    }
}

#[test]
fn compiles_print_constant_to_an_object() {
    let bytes = compile_program(&scenario_a()).unwrap();
    assert!(bytes.len() > 4);
}

#[test]
fn compiles_branches_to_an_object() {
    let bytes = compile_program(&branching_program()).unwrap();
    assert!(!bytes.is_empty());
}

#[test]
fn backend_rejects_ill_typed_function() {
    let p = Program {
        functions: vec![func("f", &[("x", BrilType::Int)], Some(BrilType::Bool), vec![effect(
            EffectOps::Return,
            &["x"],
            &[],
        )])],
    };
    assert!(lower_program(&p).is_ok());
    match compile_program(&p) {
        Err(LowerError::VerificationFailure(msg)) => assert!(!msg.is_empty()),
        other => panic!("expected a verification failure, got {:?}", other),
    }
}

#[test]
fn mistyped_definition_is_a_failure_not_a_panic() {
    let p = Program {
        functions: vec![func("f", &[("x", BrilType::Int)], None, vec![
            value("b", BrilType::Bool, ValueOps::Add, &["x", "x"]),
        ])],
    };
    assert!(matches!(compile_program(&p), Err(LowerError::VerificationFailure(_))));
}

#[test]
fn fresh_backend_finishes_with_no_exports() {
    let mut be = brilift::backend::Backend::new().unwrap();
    assert!(be.emit_functions(&vec![]).is_ok());
    let bytes = be.finish().unwrap();
    assert!(!bytes.is_empty());
}

#[test]
fn failed_emission_gives_no_object() {
    let p = Program {
        functions: vec![func("f", &[("x", BrilType::Int)], Some(BrilType::Bool), vec![effect(
            EffectOps::Return,
            &["x"],
            &[],
        )])],
    };
    let funcs = lower_program(&p).unwrap();
    let mut be = brilift::backend::Backend::new().unwrap();
    assert!(matches!(be.emit_functions(&funcs), Err(LowerError::VerificationFailure(_))));
    assert_eq!(be.finish().unwrap_err(), LowerError::Malformed);
}

#[test]
fn runtime_signatures_take_one_argument() {
    let s = brilift::backend::runtime_sig(Runtime::PrintInt);
    assert_eq!(s.params, vec![MachType::I64]);
    assert!(s.results.is_empty());
    let s = brilift::backend::runtime_sig(Runtime::PrintBool);
    assert_eq!(s.params, vec![MachType::I8]);
    assert!(s.results.is_empty());
}

#[test]
fn malformed_target_function_is_refused_by_the_emitter() {
    let mut t = only(&scenario_a());
    t.blocks[0].insts.pop();
    let mut be = brilift::backend::Backend::new().unwrap();
    assert_eq!(be.emit_functions(&vec![t]).unwrap_err(), LowerError::Malformed);
}

#[test]
fn function_named_like_a_runtime_routine_is_a_duplicate() {
    let p = Program {
        functions: vec![func("print_int", &[], None, vec![effect(EffectOps::Return, &[], &[])])],
    };
    assert!(lower_program(&p).is_ok());
    assert_eq!(compile_program(&p).unwrap_err(), LowerError::DuplicateFunction);
}

#[test]
fn emitting_two_functions_of_one_name_is_a_duplicate() {
    let t = only(&scenario_a());
    let mut be = brilift::backend::Backend::new().unwrap();
    assert_eq!(be.emit_functions(&vec![t.clone(), t]).unwrap_err(), LowerError::DuplicateFunction);
    assert_eq!(be.finish().unwrap_err(), LowerError::Malformed);
}
