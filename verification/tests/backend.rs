use rvv_codegen::codegen::{
    AsmStep, CodegenContext, LoweredKind, checked_sub_codegen, overflowing_rv_codegen,
    saturating_mul_codegen, simple_checked_codegen,
};
use rvv_codegen::expr::{
    BinOp, CodegenError, ExprKind, MethodOp, TypedExpr, UintTy, UserErrorKind, Variable,
};
use rvv_codegen::inst::{Ivi, Ivv, VInst};
use rvv_codegen::machine::{SimValue, evaluate};
use rvv_codegen::pool::{InternalError, RegisterPool};
use rvv_codegen::codegen::RegInfo;
use rvv_codegen::expr::FnArg;

fn var_expr(id: usize, ty: UintTy, var: usize) -> TypedExpr {
    TypedExpr { id, span: id as u64, ty, kind: ExprKind::Var { var } }
}

fn binary(id: usize, ty: UintTy, op: BinOp, left: TypedExpr, right: TypedExpr) -> TypedExpr {
    TypedExpr {
        id,
        span: id as u64,
        ty,
        kind: ExprKind::Binary { op, left: Box::new(left), right: Box::new(right) },
    }
}

fn method(id: usize, ty: UintTy, m: MethodOp, receiver: TypedExpr, arg: TypedExpr) -> TypedExpr {
    TypedExpr {
        id,
        span: id as u64,
        ty,
        kind: ExprKind::MethodCall {
            method: Some(m),
            receiver: Box::new(receiver),
            arg: Box::new(arg),
        },
    }
}

fn u256_var(ty: UintTy) -> Variable {
    Variable { ty, end_expr_id: 1000, used: true }
}

fn count_configs(steps: &[AsmStep]) -> usize {
    steps
        .iter()
        .filter(|s| matches!(s, AsmStep::Inst(VInst::VConfig { .. })))
        .count()
}

fn count_inst<F: Fn(&VInst) -> bool>(steps: &[AsmStep], f: F) -> usize {
    steps
        .iter()
        .filter(|s| match s {
            AsmStep::Inst(i) => f(i),
            _ => false,
        })
        .count()
}

#[test]
fn config_elision_over_width_sequence() {
    // widths [256, 256, 512, 512, 256]: exactly 3 configuration
    // instructions, at the positions where the width changes.
    let mut ctx = CodegenContext::new(Vec::new(), 0, false);
    let mut out: Vec<AsmStep> = Vec::new();
    for w in [256u16, 256, 512, 512, 256] {
        ctx.update_vconfig(&mut out, w);
    }
    assert_eq!(out.len(), 3);
    assert_eq!(count_configs(&out), 3);
    assert!(matches!(out[0], AsmStep::Inst(VInst::VConfig { width: 256 })));
    assert!(matches!(out[1], AsmStep::Inst(VInst::VConfig { width: 512 })));
    assert!(matches!(out[2], AsmStep::Inst(VInst::VConfig { width: 256 })));
}

#[test]
fn config_elision_through_lowering() {
    // five lowered operations with widths [256, 256, 512, 512, 256] emit
    // exactly three configuration instructions.
    let widths = [UintTy::U256, UintTy::U256, UintTy::U512, UintTy::U512, UintTy::U256];
    let vars: Vec<Variable> = widths.iter().map(|t| u256_var(*t)).collect();
    let mut ctx = CodegenContext::new(vars, 100, false);
    let mut out: Vec<AsmStep> = Vec::new();
    for (k, t) in widths.iter().enumerate() {
        let e = method(
            k * 3 + 2,
            *t,
            MethodOp::WrappingAdd,
            var_expr(k * 3, *t, k),
            var_expr(k * 3 + 1, *t, k),
        );
        let r = ctx.lower_expression(&mut out, &e);
        assert!(r.is_ok());
    }
    assert_eq!(count_configs(&out), 3);
}

#[test]
fn width_mismatch_is_rejected_with_no_output() {
    // a + b with a: U256 and b: U512 fails with the width-mismatch error
    // and emits zero instructions.
    let vars = vec![u256_var(UintTy::U256), u256_var(UintTy::U512)];
    let mut ctx = CodegenContext::new(vars, 10, false);
    let mut out: Vec<AsmStep> = Vec::new();
    let e = binary(
        2,
        UintTy::U256,
        BinOp::Add,
        var_expr(0, UintTy::U256, 0),
        var_expr(1, UintTy::U512, 1),
    );
    let r = ctx.lower_expression(&mut out, &e);
    match r {
        Err(CodegenError::User(u)) => assert_eq!(u.kind, UserErrorKind::WidthMismatch),
        _ => panic!("expected a width-mismatch error"),
    }
    assert_eq!(out.len(), 0);
}

#[test]
fn unsupported_types_pass_through() {
    let vars = vec![u256_var(UintTy::Other), u256_var(UintTy::Other)];
    let mut ctx = CodegenContext::new(vars, 10, false);
    let mut out: Vec<AsmStep> = Vec::new();
    let e = binary(
        2,
        UintTy::Other,
        BinOp::Add,
        var_expr(0, UintTy::Other, 0),
        var_expr(1, UintTy::Other, 1),
    );
    let r = ctx.lower_expression(&mut out, &e);
    assert!(matches!(r, Ok(LoweredKind::Passthrough)));
    assert_eq!(out.len(), 0);
}

#[test]
fn nested_compound_assignment_is_rejected() {
    let vars = vec![u256_var(UintTy::U256), u256_var(UintTy::U256), u256_var(UintTy::U256)];
    let mut ctx = CodegenContext::new(vars, 10, false);
    let mut out: Vec<AsmStep> = Vec::new();
    let inner = TypedExpr {
        id: 2,
        span: 2,
        ty: UintTy::U256,
        kind: ExprKind::AssignOp {
            op: BinOp::Add,
            left: Box::new(var_expr(0, UintTy::U256, 0)),
            right: Box::new(var_expr(1, UintTy::U256, 1)),
        },
    };
    let e = binary(4, UintTy::U256, BinOp::Add, inner, var_expr(3, UintTy::U256, 2));
    let r = ctx.lower_expression(&mut out, &e);
    match r {
        Err(CodegenError::User(u)) => {
            assert_eq!(u.kind, UserErrorKind::NestedAssignOp);
            assert_eq!(u.span, 2);
        }
        _ => panic!("expected the nested-assignment error"),
    }
}

#[test]
fn opaque_expression_is_rejected() {
    let mut ctx = CodegenContext::new(Vec::new(), 4, false);
    let mut out: Vec<AsmStep> = Vec::new();
    let e = TypedExpr { id: 0, span: 7, ty: UintTy::Other, kind: ExprKind::Opaque };
    let r = ctx.lower_expression(&mut out, &e);
    match r {
        Err(CodegenError::User(u)) => {
            assert_eq!(u.kind, UserErrorKind::InvalidExpression);
            assert_eq!(u.span, 7);
        }
        _ => panic!("expected the invalid-expression error"),
    }
}

#[test]
fn wrapping_add_end_to_end() {
    // x.wrapping_add(y) at top level: one configuration, one add, one
    // store, and the pool drains back to empty.
    let vars = vec![
        Variable { ty: UintTy::U256, end_expr_id: 2, used: true },
        Variable { ty: UintTy::U256, end_expr_id: 2, used: true },
    ];
    let mut ctx = CodegenContext::new(vars, 10, false);
    let mut out: Vec<AsmStep> = Vec::new();
    let e = method(
        2,
        UintTy::U256,
        MethodOp::WrappingAdd,
        var_expr(0, UintTy::U256, 0),
        var_expr(1, UintTy::U256, 1),
    );
    let r = ctx.lower_expression(&mut out, &e);
    assert!(matches!(r, Ok(LoweredKind::Code)));
    assert_eq!(count_configs(&out), 1);
    assert_eq!(count_inst(&out, |i| matches!(i, VInst::VaddVv(_))), 1);
    let stores = out
        .iter()
        .filter(|s| matches!(s, AsmStep::StoreBuf { .. }))
        .count();
    assert_eq!(stores, 1);
    let loads = out
        .iter()
        .filter(|s| matches!(s, AsmStep::LoadVar { .. }))
        .count();
    assert_eq!(loads, 2);
    for i in 1..32usize {
        assert!(!ctx.v_registers.used[i]);
    }
}

#[test]
fn checked_sub_lowering_shape() {
    // x.checked_sub(y): one less-than compare, one first-set scan, and a
    // store that runs only in the no-underflow branch.
    let vars = vec![
        Variable { ty: UintTy::U256, end_expr_id: 2, used: true },
        Variable { ty: UintTy::U256, end_expr_id: 2, used: true },
    ];
    let mut ctx = CodegenContext::new(vars, 10, false);
    let mut out: Vec<AsmStep> = Vec::new();
    let e = method(
        2,
        UintTy::U256,
        MethodOp::CheckedSub,
        var_expr(0, UintTy::U256, 0),
        var_expr(1, UintTy::U256, 1),
    );
    let r = ctx.lower_expression(&mut out, &e);
    assert!(matches!(r, Ok(LoweredKind::Code)));
    assert_eq!(count_inst(&out, |i| matches!(i, VInst::VmsltuVv(_))), 1);
    assert_eq!(count_inst(&out, |i| matches!(i, VInst::VfirstM { .. })), 1);
    let if_pos = out.iter().position(|s| matches!(s, AsmStep::IfFlag)).unwrap();
    let store_pos = out.iter().position(|s| matches!(s, AsmStep::StoreBuf { .. })).unwrap();
    assert!(store_pos > if_pos);
}

#[test]
fn checked_sub_toy_evaluation_underflows_to_no_value() {
    // the checked-sub recipe at the 8-bit toy width with x = 5, y = 10:
    // the evaluated result is no value.
    let mut steps: Vec<AsmStep> = Vec::new();
    steps.push(AsmStep::Inst(VInst::VConfig { width: 8 }));
    steps.push(AsmStep::LoadVar {
        inst: VInst::VleV { width: 8, vd: 1, vm: false },
        var: 0,
    });
    steps.push(AsmStep::LoadVar {
        inst: VInst::VleV { width: 8, vd: 2, vm: false },
        var: 1,
    });
    let ivv = Ivv { vd: 3, vs2: 1, vs1: 2, vm: false };
    checked_sub_codegen(
        &mut steps,
        VInst::VsubVv(ivv),
        Ivv { vd: 4, vs2: 1, vs1: 2, vm: false },
        3,
        8,
        false,
    );
    let mem = vec![5u128, 10u128];
    assert!(matches!(evaluate(&steps, &mem), SimValue::NoValue));
    // and with x = 10, y = 5 the value is produced
    let mem2 = vec![10u128, 5u128];
    match evaluate(&steps, &mem2) {
        SimValue::Word(v) => assert_eq!(v, 5),
        _ => panic!("expected a value"),
    }
}

#[test]
fn overflowing_add_toy_evaluation() {
    // overflowing_add at 8 bits: 200 + 100 wraps to 44 with the flag set,
    // 5 + 10 gives 15 with the flag clear.
    for (a, b, value, flag) in [(200u128, 100u128, 44u128, true), (5, 10, 15, false)] {
        let mut steps: Vec<AsmStep> = Vec::new();
        steps.push(AsmStep::Inst(VInst::VConfig { width: 8 }));
        steps.push(AsmStep::LoadVar {
            inst: VInst::VleV { width: 8, vd: 1, vm: false },
            var: 0,
        });
        steps.push(AsmStep::LoadVar {
            inst: VInst::VleV { width: 8, vd: 2, vm: false },
            var: 1,
        });
        let ivv = Ivv { vd: 3, vs2: 1, vs1: 2, vm: false };
        overflowing_rv_codegen(
            &mut steps,
            VInst::VaddVv(ivv),
            Ivv { vd: 4, vs2: 3, vs1: 1, vm: false },
            3,
            8,
            false,
        );
        match evaluate(&steps, &vec![a, b]) {
            SimValue::Pair(v, f) => {
                assert_eq!(v, value);
                assert_eq!(f, flag);
            }
            _ => panic!("expected a pair"),
        }
    }
}

#[test]
fn checked_div_toy_evaluation() {
    // checked_div at 8 bits: a zero divisor yields no value, otherwise the
    // exact quotient.
    for (a, b, want) in [(10u128, 0u128, None), (10, 3, Some(3u128))] {
        let mut steps: Vec<AsmStep> = Vec::new();
        steps.push(AsmStep::Inst(VInst::VConfig { width: 8 }));
        steps.push(AsmStep::LoadVar {
            inst: VInst::VleV { width: 8, vd: 1, vm: false },
            var: 0,
        });
        steps.push(AsmStep::LoadVar {
            inst: VInst::VleV { width: 8, vd: 2, vm: false },
            var: 1,
        });
        let ivv = Ivv { vd: 3, vs2: 1, vs1: 2, vm: false };
        simple_checked_codegen(
            &mut steps,
            VInst::VdivuVv(ivv),
            Ivi { vd: 4, vs2: 2, imm: 0, vm: false },
            3,
            8,
            false,
        );
        match (evaluate(&steps, &vec![a, b]), want) {
            (SimValue::NoValue, None) => {}
            (SimValue::Word(v), Some(w)) => assert_eq!(v, w),
            _ => panic!("unexpected evaluation result"),
        }
    }
}

#[test]
fn saturating_mul_toy_evaluation() {
    // saturating_mul at 8 bits: 20 * 20 saturates to 255, 5 * 6 is exact,
    // and a zero factor gives zero.
    for (a, b, want) in [(20u128, 20u128, 255u128), (5, 6, 30), (9, 0, 0)] {
        let mut steps: Vec<AsmStep> = Vec::new();
        steps.push(AsmStep::Inst(VInst::VConfig { width: 8 }));
        steps.push(AsmStep::LoadVar {
            inst: VInst::VleV { width: 8, vd: 1, vm: false },
            var: 0,
        });
        steps.push(AsmStep::LoadVar {
            inst: VInst::VleV { width: 8, vd: 2, vm: false },
            var: 1,
        });
        let ivv = Ivv { vd: 3, vs2: 1, vs1: 2, vm: false };
        saturating_mul_codegen(&mut steps, ivv, 4, 8, false);
        match evaluate(&steps, &vec![a, b]) {
            SimValue::Word(v) => assert_eq!(v, want),
            _ => panic!("expected a value"),
        }
    }
}

#[test]
fn relowering_is_byte_identical() {
    // lowering the same tree twice with fresh engines gives identical
    // encoded bytes.
    fn lower_once() -> Vec<[u8; 4]> {
        let vars = vec![
            Variable { ty: UintTy::U256, end_expr_id: 4, used: true },
            Variable { ty: UintTy::U256, end_expr_id: 4, used: true },
        ];
        let mut ctx = CodegenContext::new(vars, 10, true);
        let mut out: Vec<AsmStep> = Vec::new();
        let inner = binary(
            2,
            UintTy::U256,
            BinOp::Mul,
            var_expr(0, UintTy::U256, 0),
            var_expr(1, UintTy::U256, 1),
        );
        let e = method(4, UintTy::U256, MethodOp::CheckedAdd, inner, var_expr(3, UintTy::U256, 0));
        let r = ctx.lower_expression(&mut out, &e);
        assert!(r.is_ok());
        out.iter()
            .filter_map(|s| match s {
                AsmStep::Inst(i) => Some(i.encode_bytes()),
                AsmStep::LoadVar { inst, .. } => Some(inst.encode_bytes()),
                AsmStep::StoreBuf { inst, .. } => Some(inst.encode_bytes()),
                _ => None,
            })
            .collect()
    }
    let first = lower_once();
    let second = lower_once();
    assert!(!first.is_empty());
    assert_eq!(first, second);
}

#[test]
fn encoding_is_fixed_and_deterministic() {
    // vadd.vv v1, v2, v3 (unmasked) has a fixed four-byte little-endian
    // encoding, and equal instructions encode equally.
    let i = VInst::VaddVv(Ivv { vd: 1, vs2: 2, vs1: 3, vm: false });
    assert_eq!(i.encode_u32(), 0x0221_80d7);
    assert_eq!(i.encode_bytes(), [0xd7, 0x80, 0x21, 0x02]);
    let j = VInst::VaddVv(Ivv { vd: 1, vs2: 2, vs1: 3, vm: false });
    assert_eq!(i.encode_bytes(), j.encode_bytes());
    // the configuration word for e256
    let c = VInst::VConfig { width: 256 };
    assert_eq!(c.encode_u32(), 0x0e82_f057);
}

#[test]
fn pool_hands_out_distinct_slots_and_reports_exhaustion() {
    let mut pool = RegisterPool::new();
    let mut seen = Vec::new();
    for _ in 0..31 {
        let v = pool.allocate().expect("a slot should be free");
        assert!(!seen.contains(&v));
        assert!(v >= 1 && v < 32);
        seen.push(v);
    }
    assert_eq!(pool.allocate(), None);
    assert_eq!(pool.free(seen[5]), Ok(()));
    assert_eq!(pool.allocate(), Some(seen[5]));
    // a slot that is not in use is never silently freed
    assert!(matches!(pool.free(0), Err(InternalError::FreeUnused { .. })));
    let mut pool2 = RegisterPool::new();
    assert!(matches!(pool2.free(3), Err(InternalError::FreeUnused { reg: 3 })));
}

#[test]
fn double_free_of_a_binding_is_always_caught() {
    let vars = vec![u256_var(UintTy::U256)];
    let mut ctx = CodegenContext::new(vars, 4, false);
    // bind expression 0 to a register and retire it once
    let reg_a = ctx.v_registers.allocate().unwrap();
    let reg_b = ctx.v_registers.allocate().unwrap();
    ctx.expr_regs[0] = Some(RegInfo { number: reg_a, bit_length: 256, is_freed: false, var: None });
    ctx.expr_regs[2] = Some(RegInfo { number: reg_b, bit_length: 256, is_freed: false, var: None });
    ctx.expr_regs[1] = Some(RegInfo { number: reg_a, bit_length: 256, is_freed: true, var: None });
    assert!(ctx.free_sub_exprs(3, 0, 2).is_ok());
    // freeing the already-freed binding must report the double free
    match ctx.free_sub_exprs(3, 1, 1) {
        Err(CodegenError::Internal(InternalError::DoubleFree { expr_id })) => {
            assert_eq!(expr_id, 1)
        }
        _ => panic!("a double free must be reported"),
    }
}

#[test]
fn assignment_to_bound_variable_reuses_its_register() {
    let vars = vec![
        Variable { ty: UintTy::U256, end_expr_id: 100, used: true },
        Variable { ty: UintTy::U256, end_expr_id: 100, used: true },
    ];
    let mut ctx = CodegenContext::new(vars, 20, false);
    let mut out: Vec<AsmStep> = Vec::new();
    // first use loads both variables
    let e1 = binary(
        2,
        UintTy::U256,
        BinOp::Add,
        var_expr(0, UintTy::U256, 0),
        var_expr(1, UintTy::U256, 1),
    );
    assert!(ctx.lower_expression(&mut out, &e1).is_ok());
    // an assignment to the bound variable lowers the right side in place
    let assign = TypedExpr {
        id: 6,
        span: 6,
        ty: UintTy::U256,
        kind: ExprKind::Assign {
            left: Box::new(var_expr(3, UintTy::U256, 0)),
            right: Box::new(binary(
                5,
                UintTy::U256,
                BinOp::Mul,
                var_expr(4, UintTy::U256, 0),
                var_expr(7, UintTy::U256, 1),
            )),
        },
    };
    let n_before = out.len();
    let r = ctx.lower_expression(&mut out, &assign);
    assert!(matches!(r, Ok(LoweredKind::Code)));
    // the in-place multiply emits no fresh store
    let stores_after = out[n_before..]
        .iter()
        .filter(|s| matches!(s, AsmStep::StoreBuf { .. }))
        .count();
    assert_eq!(stores_after, 0);
}

#[test]
fn inputs_preload_in_width_order() {
    let vars = vec![
        Variable { ty: UintTy::U512, end_expr_id: 100, used: true },
        Variable { ty: UintTy::U256, end_expr_id: 100, used: true },
        Variable { ty: UintTy::U256, end_expr_id: 100, used: false },
    ];
    let mut ctx = CodegenContext::new(vars, 10, false);
    let mut out: Vec<AsmStep> = Vec::new();
    let args = vec![
        FnArg { var: 0, span: 0 },
        FnArg { var: 1, span: 1 },
        FnArg { var: 2, span: 2 },
    ];
    assert!(ctx.gen_inputs_tokens(&mut out, &args).is_ok());
    // the unused argument is skipped; the narrower width loads first
    let loads: Vec<usize> = out
        .iter()
        .filter_map(|s| match s {
            AsmStep::LoadVar { var, .. } => Some(*var),
            _ => None,
        })
        .collect();
    assert_eq!(loads, vec![1, 0]);
    assert_eq!(count_configs(&out), 2);
}
