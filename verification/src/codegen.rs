//! The expression-lowering engine.
//!
//! `CodegenContext` walks a typed expression tree and emits an ordered
//! sequence of [`AsmStep`]s: encoded vector instructions, loads and stores
//! through the shared scratch address register, and the host-level glue that
//! turns a mask scan into a boolean or an optional value.  The engine's whole
//! behaviour is pinned by the specification function [`sp_lower`]: the
//! emitted steps and the final allocator, configuration and binding state are
//! a function of the expression tree, the variable table and the engine's
//! starting state alone, so lowering the same tree twice from fresh engines
//! yields byte-identical output.

use vstd::prelude::*;
use crate::inst::{Ivv, Ivi, VInst};
use crate::pool::{RegisterPool, InternalError, spec_first_free};
use crate::expr::{
    BinOp, MethodOp, UintTy, ExprKind, TypedExpr, Variable, FnArg, UserErrorKind, UserError,
    CodegenError, expr_bounded,
};

verus! {

broadcast use vstd::array::group_array_axioms;

/// One element of the lowered output: an instruction to execute (wrapped in
/// scratch-register save/restore glue), or a host-level action around the
/// instructions.
#[derive(Clone, Copy, Debug, PartialEq, Eq, Structural)]
pub enum AsmStep {
    /// A human-readable annotation of the next instruction; emitted only
    /// when the engine was asked to show its instructions.
    Comment(VInst),
    /// Execute one instruction.
    Inst(VInst),
    /// Execute a load whose scratch register carries the address of the
    /// named variable's backing memory.
    LoadVar { inst: VInst, var: usize },
    /// Execute a store into a fresh stack buffer of `width` bits; the buffer
    /// is then reinterpreted as the result integer.
    StoreBuf { inst: VInst, width: u16 },
    /// The host captures the scalar produced by the last mask scan; the flag
    /// is set exactly when that scalar is zero (a set mask bit was found).
    CaptureFlag,
    /// The steps up to the matching `ElseFlag`/`EndIf` run only when the
    /// captured flag is set.
    IfFlag,
    /// The alternative branch of the innermost open `IfFlag`.
    ElseFlag,
    /// Close the innermost `IfFlag`.
    EndIf,
    /// The block's value is the stored buffer.
    YieldStored,
    /// The block's value is "no value".
    YieldNone,
    /// The block's value is the stored buffer paired with the captured flag.
    YieldPairStored,
    /// The block's value is the captured flag itself.
    YieldBool,
    /// The block's value is the largest `width`-bit integer.
    YieldMax { width: u16 },
}

/// A register binding: which vector register an expression's value lives in.
#[derive(Clone, Copy, Debug)]
pub struct RegInfo {
    pub number: u8,
    pub bit_length: u16,
    /// Set once the register has been returned to the pool; a binding is
    /// freed at most once.
    pub is_freed: bool,
    /// The variable this binding belongs to, if it holds one rather than an
    /// anonymous sub-expression result.
    pub var: Option<usize>,
}

/// What lowering produced for one expression.
#[derive(Clone, Copy, Debug, PartialEq, Eq, Structural)]
pub enum LoweredKind {
    /// The expression is not this backend's concern; the host keeps it
    /// unchanged.
    Passthrough,
    /// Instruction steps were emitted.
    Code,
}

/// The mathematical state of an engine: the pool bitset, the cached
/// configuration, the variable and expression register tables, the variable
/// table and the annotation flag.
#[verifier::ext_equal]
pub ghost struct CtxView {
    pub pool: Seq<bool>,
    pub config: Option<u16>,
    pub var_regs: Seq<Option<u8>>,
    pub expr_regs: Seq<Option<RegInfo>>,
    pub vars: Seq<Variable>,
    pub show: bool,
}

/// Result of a specification-level lowering step.
pub ghost struct LowerOut {
    pub ctx: CtxView,
    pub res: Result<LoweredKind, CodegenError>,
    pub steps: Seq<AsmStep>,
}

/// Result of a specification-level helper that produces no value.
pub ghost struct StepsOut {
    pub ctx: CtxView,
    pub res: Result<(), CodegenError>,
    pub steps: Seq<AsmStep>,
}

/// A well-formed engine state: the pool has its fixed size, the variable
/// register table matches the variable table, and every binding's variable
/// index is in range.
pub open spec fn ctx_wf(v: CtxView) -> bool {
    &&& v.pool.len() == 32
    &&& v.var_regs.len() == v.vars.len()
    &&& forall|j: int|
        0 <= j < v.expr_regs.len() ==> match #[trigger] v.expr_regs[j] {
            Some(info) => match info.var {
                Some(vi) => vi < v.vars.len(),
                None => true,
            },
            None => true,
        }
}

/// The lowest free allocatable slot of a pool bitset at or above `i`.
pub open spec fn seq_first_free(p: Seq<bool>, i: int) -> Option<u8>
    decreases 32 - i,
{
    if i < 1 || i >= 32 {
        None
    } else if !p[i] {
        Some(i as u8)
    } else {
        seq_first_free(p, i + 1)
    }
}

/// The array-level and sequence-level searches agree.
pub proof fn lemma_first_free_view(used: [bool; 32], i: int)
    ensures
        spec_first_free(used, i) == seq_first_free(used@, i),
    decreases 32 - i,
{
    if 1 <= i < 32 && used[i] {
        lemma_first_free_view(used, i + 1);
    }
}

/// Allocation at the specification level: the lowest free slot is marked
/// used.
pub open spec fn sp_allocate(p: Seq<bool>) -> (Option<u8>, Seq<bool>) {
    match seq_first_free(p, 1) {
        Some(v) => (Some(v), p.update(v as int, true)),
        None => (None, p),
    }
}

/// Release at the specification level; a slot that is not in use is an
/// internal-consistency error.
pub open spec fn sp_release(p: Seq<bool>, reg: u8) -> Result<Seq<bool>, InternalError> {
    if 1 <= reg < 32 && p[reg as int] {
        Ok(p.update(reg as int, false))
    } else {
        Err(InternalError::FreeUnused { reg })
    }
}

/// An instruction step, preceded by its annotation when requested.
pub open spec fn sp_inst_steps(i: VInst, show: bool) -> Seq<AsmStep> {
    if show {
        seq![AsmStep::Comment(i), AsmStep::Inst(i)]
    } else {
        seq![AsmStep::Inst(i)]
    }
}

/// The store of a register into a fresh result buffer, with the host reading
/// the buffer back as the block's value.
pub open spec fn sp_vstore_steps(vreg: u8, width: u16, show: bool) -> Seq<AsmStep> {
    let se = VInst::VseV { width, vs3: vreg, vm: false };
    (if show {
        seq![AsmStep::Comment(se)]
    } else {
        Seq::<AsmStep>::empty()
    }) + seq![AsmStep::StoreBuf { inst: se, width }, AsmStep::YieldStored]
}

/// The configuration update: nothing if the cached width already matches,
/// else exactly one configuration instruction and a cache update.
pub open spec fn sp_update_vconfig(v: CtxView, width: u16) -> (CtxView, Seq<AsmStep>) {
    if v.config == Some(width) {
        (v, Seq::<AsmStep>::empty())
    } else {
        (
            CtxView { config: Some(width), ..v },
            sp_inst_steps(VInst::VConfig { width }, v.show),
        )
    }
}

impl CodegenContext {
    /// The engine's mathematical state.
    pub open spec fn vw(&self) -> CtxView {
        CtxView {
            pool: self.v_registers.used@,
            config: self.v_config,
            var_regs: self.var_regs@,
            expr_regs: self.expr_regs@,
            vars: self.variables@,
            show: self.show_asm,
        }
    }
}

/// The lowering engine: one instance per expression tree, holding the
/// register pool, the configuration cache and the binding tables.
#[derive(Debug)]
pub struct CodegenContext {
    pub v_registers: RegisterPool,
    pub v_config: Option<u16>,
    pub var_regs: Vec<Option<u8>>,
    pub expr_regs: Vec<Option<RegInfo>>,
    pub variables: Vec<Variable>,
    pub show_asm: bool,
}

impl CodegenContext {
    /// A fresh engine for one lowering pass: empty pool, unset configuration,
    /// no bindings.
    pub fn new(variables: Vec<Variable>, num_exprs: usize, show_asm: bool) -> (r: CodegenContext)
        ensures
            r.vw() == (CtxView {
                pool: Seq::new(32, |i: int| i == 0),
                config: None::<u16>,
                var_regs: Seq::new(variables@.len(), |i: int| None::<u8>),
                expr_regs: Seq::new(num_exprs as nat, |i: int| None::<RegInfo>),
                vars: variables@,
                show: show_asm,
            }),
            ctx_wf(r.vw()),
    {
        let pool = RegisterPool::new();
        let mut var_regs: Vec<Option<u8>> = Vec::new();
        let mut i: usize = 0;
        let n_vars = variables.len();
        while i < n_vars
            invariant
                i <= n_vars,
                n_vars == variables@.len(),
                var_regs@ =~= Seq::new(i as nat, |k: int| None::<u8>),
            decreases n_vars - i,
        {
            var_regs.push(None);
            proof {
                assert(var_regs@ =~= Seq::new((i + 1) as nat, |k: int| None::<u8>));
            }
            i += 1;
        }
        let mut expr_regs: Vec<Option<RegInfo>> = Vec::new();
        let mut j: usize = 0;
        while j < num_exprs
            invariant
                j <= num_exprs,
                expr_regs@ =~= Seq::new(j as nat, |k: int| None::<RegInfo>),
            decreases num_exprs - j,
        {
            expr_regs.push(None);
            proof {
                assert(expr_regs@ =~= Seq::new((j + 1) as nat, |k: int| None::<RegInfo>));
            }
            j += 1;
        }
        let r = CodegenContext {
            v_registers: pool,
            v_config: None,
            var_regs,
            expr_regs,
            variables,
            show_asm,
        };
        proof {
            assert(r.v_registers.used@.len() == 32);
            assert forall|i: int| 0 <= i < 32 implies r.v_registers.used@[i] == (i == 0) by {
                if i == 0 {
                    assert(r.v_registers.is_used(0));
                } else {
                    assert(!r.v_registers.is_used(i));
                }
            }
            assert(r.vw().pool =~= Seq::new(32, |i: int| i == 0));
            assert(r.vw() =~= (CtxView {
                pool: Seq::new(32, |i: int| i == 0),
                config: None::<u16>,
                var_regs: Seq::new(r.variables@.len(), |i: int| None::<u8>),
                expr_regs: Seq::new(num_exprs as nat, |i: int| None::<RegInfo>),
                vars: r.variables@,
                show: show_asm,
            }));
        }
        r
    }

    /// Emit a configuration instruction if and only if the cached width
    /// differs from the requested one (the only optimization this backend
    /// performs).
    pub fn update_vconfig(&mut self, out: &mut Vec<AsmStep>, bit_length: u16)
        ensures
            final(self).vw() == sp_update_vconfig(old(self).vw(), bit_length).0,
            final(out)@ == old(out)@ + sp_update_vconfig(old(self).vw(), bit_length).1,
    {
        let already = match self.v_config {
            Some(w) => w == bit_length,
            None => false,
        };
        if already {
            proof {
                assert(final(out)@ =~= old(out)@ + sp_update_vconfig(old(self).vw(),
                    bit_length).1);
            }
        } else {
            self.v_config = Some(bit_length);
            let inst = VInst::VConfig { width: bit_length };
            if self.show_asm {
                out.push(AsmStep::Comment(inst));
            }
            out.push(AsmStep::Inst(inst));
            proof {
                assert(final(self).vw() =~= sp_update_vconfig(old(self).vw(), bit_length).0);
                assert(final(out)@ =~= old(out)@ + sp_update_vconfig(old(self).vw(),
                    bit_length).1);
            }
        }
    }
}

/// Append one instruction step (with its annotation when requested).
pub fn inst_codegen(out: &mut Vec<AsmStep>, inst: VInst, show_asm: bool)
    ensures
        final(out)@ == old(out)@ + sp_inst_steps(inst, show_asm),
{
    if show_asm {
        out.push(AsmStep::Comment(inst));
    }
    out.push(AsmStep::Inst(inst));
    proof {
        assert(final(out)@ =~= old(out)@ + sp_inst_steps(inst, show_asm));
    }
}

/// Append the store of `vreg` into a fresh result buffer.
pub fn vstore_codegen(out: &mut Vec<AsmStep>, vreg: u8, bit_length: u16, show_asm: bool)
    ensures
        final(out)@ == old(out)@ + sp_vstore_steps(vreg, bit_length, show_asm),
{
    let se = VInst::VseV { width: bit_length, vs3: vreg, vm: false };
    if show_asm {
        out.push(AsmStep::Comment(se));
    }
    out.push(AsmStep::StoreBuf { inst: se, width: bit_length });
    out.push(AsmStep::YieldStored);
    proof {
        assert(final(out)@ =~= old(out)@ + sp_vstore_steps(vreg, bit_length, show_asm));
    }
}


/// Release the binding of one sub-expression if its liveness has ended:
/// always for an anonymous result, and for a variable once no reads remain
/// past `current`.  A binding that is already freed is a double free and is
/// always reported, never ignored.
pub open spec fn sp_free_binding(v: CtxView, sub_id: int, current: int) -> (CtxView, Result<
    (),
    CodegenError,
>) {
    if sub_id < 0 || sub_id >= v.expr_regs.len() {
        (v, Err(CodegenError::Internal(InternalError::MissingBinding { expr_id: sub_id as usize })))
    } else {
        match v.expr_regs[sub_id] {
            None => (
                v,
                Err(
                    CodegenError::Internal(
                        InternalError::MissingBinding { expr_id: sub_id as usize },
                    ),
                ),
            ),
            Some(info) => {
                let should_free = match info.var {
                    Some(vi) => v.vars[vi as int].end_expr_id <= current,
                    None => true,
                };
                if should_free {
                    if info.is_freed {
                        (
                            v,
                            Err(
                                CodegenError::Internal(
                                    InternalError::DoubleFree { expr_id: sub_id as usize },
                                ),
                            ),
                        )
                    } else {
                        match sp_release(v.pool, info.number) {
                            Err(e) => (v, Err(CodegenError::Internal(e))),
                            Ok(pool2) => (
                                CtxView {
                                    pool: pool2,
                                    expr_regs: v.expr_regs.update(
                                        sub_id,
                                        Some(RegInfo { is_freed: true, ..info }),
                                    ),
                                    ..v
                                },
                                Ok(()),
                            ),
                        }
                    }
                } else {
                    (v, Ok(()))
                }
            },
        }
    }
}

/// Release both operand bindings of the expression `current`, left first.
pub open spec fn sp_free_subs(v: CtxView, current: int, left_id: int, right_id: int) -> (
    CtxView,
    Result<(), CodegenError>,
) {
    let (v1, r1) = sp_free_binding(v, left_id, current);
    if r1 is Err {
        (v1, r1)
    } else {
        sp_free_binding(v1, right_id, current)
    }
}

/// Release the expression's own result register unconditionally (after its
/// value has been stored or reduced), returning its number.
pub open spec fn sp_free_own(v: CtxView, id: int) -> (CtxView, Result<u8, CodegenError>) {
    if id < 0 || id >= v.expr_regs.len() {
        (v, Err(CodegenError::Internal(InternalError::MissingBinding { expr_id: id as usize })))
    } else {
        match v.expr_regs[id] {
            None => (
                v,
                Err(CodegenError::Internal(InternalError::MissingBinding { expr_id: id as usize })),
            ),
            Some(info) => match sp_release(v.pool, info.number) {
                Err(e) => (v, Err(CodegenError::Internal(e))),
                Ok(pool2) => (
                    CtxView {
                        pool: pool2,
                        expr_regs: v.expr_regs.update(id, Some(RegInfo { is_freed: true, ..info })),
                        ..v
                    },
                    Ok(info.number),
                ),
            },
        }
    }
}

/// The first binding whose register number is `vreg`, scanning upward from
/// index `j`.
pub open spec fn sp_find_reg(expr_regs: Seq<Option<RegInfo>>, vreg: u8, j: int) -> Option<RegInfo>
    decreases expr_regs.len() - j,
{
    if j < 0 || j >= expr_regs.len() {
        None
    } else {
        match expr_regs[j] {
            Some(info) => if info.number == vreg {
                Some(info)
            } else {
                sp_find_reg(expr_regs, vreg, j + 1)
            },
            None => sp_find_reg(expr_regs, vreg, j + 1),
        }
    }
}

impl CodegenContext {
    /// Release one operand binding as `sp_free_binding` describes.
    fn free_one_sub(&mut self, current_expr_id: usize, sub_id: usize) -> (r: Result<
        (),
        CodegenError,
    >)
        requires
            ctx_wf(old(self).vw()),
        ensures
            (final(self).vw(), r) == sp_free_binding(
                old(self).vw(),
                sub_id as int,
                current_expr_id as int,
            ),
            ctx_wf(final(self).vw()),
    {
        if sub_id >= self.expr_regs.len() {
            return Err(
                CodegenError::Internal(InternalError::MissingBinding { expr_id: sub_id }),
            );
        }
        let info_opt = self.expr_regs[sub_id];
        match info_opt {
            None => Err(CodegenError::Internal(InternalError::MissingBinding { expr_id: sub_id })),
            Some(info) => {
                let should_free = match info.var {
                    Some(vi) => self.variables[vi].end_expr_id <= current_expr_id,
                    None => true,
                };
                if should_free {
                    if info.is_freed {
                        Err(CodegenError::Internal(InternalError::DoubleFree { expr_id: sub_id }))
                    } else {
                        let ghost pool0 = self.v_registers.used@;
                        match self.v_registers.free(info.number) {
                            Err(e) => {
                                proof {
                                    assert(final(self).vw() =~= old(self).vw());
                                }
                                Err(CodegenError::Internal(e))
                            },
                            Ok(()) => {
                                proof {
                                    assert forall|i: int| 0 <= i < 32 implies
                                        self.v_registers.used@[i] == pool0.update(
                                        info.number as int, false)[i] by {
                                        if i != info.number as int {
                                            assert(self.v_registers.is_used(i) == old(
                                                self).v_registers.is_used(i));
                                        } else {
                                            assert(!self.v_registers.is_used(i));
                                        }
                                    }
                                    assert(self.v_registers.used@ =~= pool0.update(
                                        info.number as int,
                                        false,
                                    ));
                                }
                                self.expr_regs[sub_id] = Some(
                                    RegInfo { is_freed: true, ..info },
                                );
                                proof {
                                    assert(final(self).vw() =~= sp_free_binding(
                                        old(self).vw(),
                                        sub_id as int,
                                        current_expr_id as int,
                                    ).0);
                                }
                                Ok(())
                            },
                        }
                    }
                } else {
                    Ok(())
                }
            },
        }
    }

    /// After an operation is emitted, retire the registers of its two
    /// operands: an anonymous sub-expression result is always reclaimed, a
    /// variable's register once its last reading expression is behind
    /// `current_expr_id`.  A double free is always caught and stops the pass.
    pub fn free_sub_exprs(&mut self, current_expr_id: usize, left_expr_id: usize,
        right_expr_id: usize) -> (r: Result<(), CodegenError>)
        requires
            ctx_wf(old(self).vw()),
        ensures
            (final(self).vw(), r) == sp_free_subs(
                old(self).vw(),
                current_expr_id as int,
                left_expr_id as int,
                right_expr_id as int,
            ),
            ctx_wf(final(self).vw()),
    {
        let r1 = self.free_one_sub(current_expr_id, left_expr_id);
        if r1.is_err() {
            return r1;
        }
        self.free_one_sub(current_expr_id, right_expr_id)
    }

    /// Release this expression's own result register, as `sp_free_own`.
    fn free_own(&mut self, id: usize) -> (r: Result<u8, CodegenError>)
        requires
            ctx_wf(old(self).vw()),
        ensures
            (final(self).vw(), r) == sp_free_own(old(self).vw(), id as int),
            ctx_wf(final(self).vw()),
    {
        if id >= self.expr_regs.len() {
            return Err(CodegenError::Internal(InternalError::MissingBinding { expr_id: id }));
        }
        let info_opt = self.expr_regs[id];
        match info_opt {
            None => Err(CodegenError::Internal(InternalError::MissingBinding { expr_id: id })),
            Some(info) => {
                let ghost pool0 = self.v_registers.used@;
                match self.v_registers.free(info.number) {
                    Err(e) => {
                        proof {
                            assert(final(self).vw() =~= old(self).vw());
                        }
                        Err(CodegenError::Internal(e))
                    },
                    Ok(()) => {
                        proof {
                            assert forall|i: int| 0 <= i < 32 implies self.v_registers.used@[i]
                                == pool0.update(info.number as int, false)[i] by {
                                if i != info.number as int {
                                    assert(self.v_registers.is_used(i) == old(
                                        self).v_registers.is_used(i));
                                } else {
                                    assert(!self.v_registers.is_used(i));
                                }
                            }
                            assert(self.v_registers.used@ =~= pool0.update(
                                info.number as int,
                                false,
                            ));
                        }
                        self.expr_regs[id] = Some(RegInfo { is_freed: true, ..info });
                        proof {
                            assert(final(self).vw() =~= sp_free_own(old(self).vw(), id as int).0);
                        }
                        Ok(info.number)
                    },
                }
            },
        }
    }

    /// Allocate a register, mirroring `sp_allocate` on the view.
    fn allocate_reg(&mut self) -> (r: Option<u8>)
        requires
            ctx_wf(old(self).vw()),
        ensures
            r == sp_allocate(old(self).vw().pool).0,
            final(self).vw() == (CtxView { pool: sp_allocate(old(self).vw().pool).1, ..old(
                self,
            ).vw() }),
            ctx_wf(final(self).vw()),
    {
        let ghost pool0 = self.v_registers.used@;
        let r = self.v_registers.allocate();
        proof {
            lemma_first_free_view(old(self).v_registers.used, 1);
            match r {
                Some(v) => {
                    assert forall|i: int| 0 <= i < 32 implies self.v_registers.used@[i]
                        == pool0.update(v as int, true)[i] by {
                        if i != v as int {
                            assert(self.v_registers.is_used(i) == old(self).v_registers.is_used(
                                i));
                        } else {
                            assert(self.v_registers.is_used(i));
                        }
                    }
                    assert(self.v_registers.used@ =~= pool0.update(v as int, true));
                },
                None => {
                    assert(self.v_registers.used@ =~= pool0);
                },
            }
            assert(final(self).vw() =~= (CtxView { pool: sp_allocate(old(self).vw().pool).1, ..old(
                self,
            ).vw() }));
        }
        r
    }
}


/// `vfirst.m` into the scratch scalar register.
pub open spec fn sp_vfirst(mask: u8) -> VInst {
    VInst::VfirstM { rd: 5, vs2: mask, vm: false }
}

/// The store of a result register into a fresh buffer, without a yield.
pub open spec fn sp_store_steps(vreg: u8, width: u16, show: bool) -> Seq<AsmStep> {
    let se = VInst::VseV { width, vs3: vreg, vm: false };
    (if show {
        seq![AsmStep::Comment(se)]
    } else {
        Seq::<AsmStep>::empty()
    }) + seq![AsmStep::StoreBuf { inst: se, width }]
}

/// The overflowing add/sub recipe: the operation, a less-than compare, a mask
/// scan, and an unconditional store; the block yields the stored value paired
/// with the overflow flag.
pub open spec fn sp_overflowing_steps(op_inst: VInst, cmp: Ivv, result_vd: u8, width: u16,
    show: bool) -> Seq<AsmStep> {
    sp_inst_steps(op_inst, show) + sp_inst_steps(VInst::VmsltuVv(cmp), show) + sp_inst_steps(
        sp_vfirst(cmp.vd),
        show,
    ) + seq![AsmStep::CaptureFlag] + sp_store_steps(result_vd, width, show) + seq![
        AsmStep::YieldPairStored,
    ]
}

/// The checked add recipe: as the overflowing one, but a detected overflow
/// yields no value.
pub open spec fn sp_checked_rv_steps(op_inst: VInst, cmp: Ivv, result_vd: u8, width: u16,
    show: bool) -> Seq<AsmStep> {
    sp_inst_steps(op_inst, show) + sp_inst_steps(VInst::VmsltuVv(cmp), show) + sp_inst_steps(
        sp_vfirst(cmp.vd),
        show,
    ) + seq![AsmStep::CaptureFlag, AsmStep::IfFlag, AsmStep::YieldNone, AsmStep::ElseFlag]
        + sp_store_steps(result_vd, width, show) + seq![AsmStep::YieldStored, AsmStep::EndIf]
}

/// The checked sub recipe: compare the original operands before subtracting;
/// the subtraction and store run only when no underflow was found.
pub open spec fn sp_checked_sub_steps(sub_inst: VInst, cmp: Ivv, result_vd: u8, width: u16,
    show: bool) -> Seq<AsmStep> {
    sp_inst_steps(VInst::VmsltuVv(cmp), show) + sp_inst_steps(sp_vfirst(cmp.vd), show) + seq![
        AsmStep::CaptureFlag,
        AsmStep::IfFlag,
        AsmStep::YieldNone,
        AsmStep::ElseFlag,
    ] + sp_inst_steps(sub_inst, show) + sp_store_steps(result_vd, width, show) + seq![
        AsmStep::YieldStored,
        AsmStep::EndIf,
    ]
}

/// The checked div/rem recipe: an immediate compare of the divisor against
/// zero guards the operation, which is never issued on a zero divisor.
pub open spec fn sp_simple_checked_steps(op_inst: VInst, eq: Ivi, result_vd: u8, width: u16,
    show: bool) -> Seq<AsmStep> {
    sp_inst_steps(VInst::VmseqVi(eq), show) + sp_inst_steps(sp_vfirst(eq.vd), show) + seq![
        AsmStep::CaptureFlag,
        AsmStep::IfFlag,
        AsmStep::YieldNone,
        AsmStep::ElseFlag,
    ] + sp_inst_steps(op_inst, show) + sp_store_steps(result_vd, width, show) + seq![
        AsmStep::YieldStored,
        AsmStep::EndIf,
    ]
}

/// The divisor-and-quotient check shared by the multiplying recipes: divide
/// the product by the right operand and compare the quotient against the
/// left one.
pub open spec fn sp_mul_check_steps(ivv: Ivv, scratch: u8, show: bool) -> Seq<AsmStep> {
    sp_inst_steps(
        VInst::VdivuVv(Ivv { vd: scratch, vs2: ivv.vd, vs1: ivv.vs1, vm: false }),
        show,
    ) + sp_inst_steps(
        VInst::VmsneVv(Ivv { vd: scratch, vs2: scratch, vs1: ivv.vs2, vm: false }),
        show,
    ) + sp_inst_steps(sp_vfirst(scratch), show) + seq![AsmStep::CaptureFlag]
}

/// The shared head of the multiplying recipes: multiply, test the right
/// operand against zero, scan the mask, and store the product.
pub open spec fn sp_mul_head_steps(ivv: Ivv, scratch: u8, width: u16, show: bool) -> Seq<AsmStep> {
    sp_inst_steps(VInst::VmulVv(ivv), show) + sp_inst_steps(
        VInst::VmsneVi(Ivi { vd: scratch, vs2: ivv.vs1, imm: 0, vm: false }),
        show,
    ) + sp_inst_steps(sp_vfirst(scratch), show) + seq![AsmStep::CaptureFlag] + sp_store_steps(
        ivv.vd,
        width,
        show,
    )
}

/// The overflowing/checked mul recipe: when the right operand is non-zero,
/// a mismatching quotient signals overflow; `checked` maps the overflow to
/// no value instead of a flag.
pub open spec fn sp_overflowing_mul_steps(ivv: Ivv, scratch: u8, width: u16, show: bool,
    checked: bool) -> Seq<AsmStep> {
    sp_mul_head_steps(ivv, scratch, width, show) + seq![AsmStep::IfFlag] + sp_mul_check_steps(
        ivv,
        scratch,
        show,
    ) + (if checked {
        seq![
            AsmStep::IfFlag,
            AsmStep::YieldNone,
            AsmStep::ElseFlag,
            AsmStep::YieldStored,
            AsmStep::EndIf,
            AsmStep::ElseFlag,
            AsmStep::YieldStored,
            AsmStep::EndIf,
        ]
    } else {
        seq![
            AsmStep::YieldPairStored,
            AsmStep::ElseFlag,
            AsmStep::YieldPairStored,
            AsmStep::EndIf,
        ]
    })
}

/// The saturating mul recipe: a detected overflow substitutes the width's
/// largest value for the product.
pub open spec fn sp_saturating_mul_steps(ivv: Ivv, scratch: u8, width: u16, show: bool) -> Seq<
    AsmStep,
> {
    sp_inst_steps(VInst::VmulVv(ivv), show) + sp_inst_steps(
        VInst::VmsneVi(Ivi { vd: scratch, vs2: ivv.vs1, imm: 0, vm: false }),
        show,
    ) + sp_inst_steps(sp_vfirst(scratch), show) + seq![AsmStep::CaptureFlag, AsmStep::IfFlag]
        + sp_mul_check_steps(ivv, scratch, show) + seq![AsmStep::EndIf, AsmStep::IfFlag,
        AsmStep::YieldMax { width },
        AsmStep::ElseFlag,
    ] + sp_store_steps(ivv.vd, width, show) + seq![AsmStep::YieldStored, AsmStep::EndIf]
}

/// Append a store without a yield.
fn store_codegen(out: &mut Vec<AsmStep>, vreg: u8, width: u16, show: bool)
    ensures
        final(out)@ == old(out)@ + sp_store_steps(vreg, width, show),
{
    let se = VInst::VseV { width, vs3: vreg, vm: false };
    if show {
        out.push(AsmStep::Comment(se));
    }
    out.push(AsmStep::StoreBuf { inst: se, width });
    proof {
        assert(final(out)@ =~= old(out)@ + sp_store_steps(vreg, width, show));
    }
}

/// Append the overflowing add/sub recipe.
pub fn overflowing_rv_codegen(out: &mut Vec<AsmStep>, op_inst: VInst, cmp: Ivv, result_vd: u8,
    width: u16, show: bool)
    ensures
        final(out)@ == old(out)@ + sp_overflowing_steps(op_inst, cmp, result_vd, width, show),
{
    inst_codegen(out, op_inst, show);
    inst_codegen(out, VInst::VmsltuVv(cmp), show);
    inst_codegen(out, VInst::VfirstM { rd: 5, vs2: cmp.vd, vm: false }, show);
    out.push(AsmStep::CaptureFlag);
    store_codegen(out, result_vd, width, show);
    out.push(AsmStep::YieldPairStored);
    proof {
        assert(final(out)@ =~= old(out)@ + sp_overflowing_steps(op_inst, cmp, result_vd, width,
            show));
    }
}

/// Append the checked add recipe.
pub fn checked_rv_codegen(out: &mut Vec<AsmStep>, op_inst: VInst, cmp: Ivv, result_vd: u8, width: u16,
    show: bool)
    ensures
        final(out)@ == old(out)@ + sp_checked_rv_steps(op_inst, cmp, result_vd, width, show),
{
    inst_codegen(out, op_inst, show);
    inst_codegen(out, VInst::VmsltuVv(cmp), show);
    inst_codegen(out, VInst::VfirstM { rd: 5, vs2: cmp.vd, vm: false }, show);
    out.push(AsmStep::CaptureFlag);
    out.push(AsmStep::IfFlag);
    out.push(AsmStep::YieldNone);
    out.push(AsmStep::ElseFlag);
    store_codegen(out, result_vd, width, show);
    out.push(AsmStep::YieldStored);
    out.push(AsmStep::EndIf);
    proof {
        assert(final(out)@ =~= old(out)@ + sp_checked_rv_steps(op_inst, cmp, result_vd, width,
            show));
    }
}

/// Append the checked sub recipe.
pub fn checked_sub_codegen(out: &mut Vec<AsmStep>, sub_inst: VInst, cmp: Ivv, result_vd: u8,
    width: u16, show: bool)
    ensures
        final(out)@ == old(out)@ + sp_checked_sub_steps(sub_inst, cmp, result_vd, width, show),
{
    inst_codegen(out, VInst::VmsltuVv(cmp), show);
    inst_codegen(out, VInst::VfirstM { rd: 5, vs2: cmp.vd, vm: false }, show);
    out.push(AsmStep::CaptureFlag);
    out.push(AsmStep::IfFlag);
    out.push(AsmStep::YieldNone);
    out.push(AsmStep::ElseFlag);
    inst_codegen(out, sub_inst, show);
    store_codegen(out, result_vd, width, show);
    out.push(AsmStep::YieldStored);
    out.push(AsmStep::EndIf);
    proof {
        assert(final(out)@ =~= old(out)@ + sp_checked_sub_steps(sub_inst, cmp, result_vd, width,
            show));
    }
}

/// Append the checked div/rem recipe.
pub fn simple_checked_codegen(out: &mut Vec<AsmStep>, op_inst: VInst, eq: Ivi, result_vd: u8,
    width: u16, show: bool)
    ensures
        final(out)@ == old(out)@ + sp_simple_checked_steps(op_inst, eq, result_vd, width, show),
{
    inst_codegen(out, VInst::VmseqVi(eq), show);
    inst_codegen(out, VInst::VfirstM { rd: 5, vs2: eq.vd, vm: false }, show);
    out.push(AsmStep::CaptureFlag);
    out.push(AsmStep::IfFlag);
    out.push(AsmStep::YieldNone);
    out.push(AsmStep::ElseFlag);
    inst_codegen(out, op_inst, show);
    store_codegen(out, result_vd, width, show);
    out.push(AsmStep::YieldStored);
    out.push(AsmStep::EndIf);
    proof {
        assert(final(out)@ =~= old(out)@ + sp_simple_checked_steps(op_inst, eq, result_vd, width,
            show));
    }
}

/// Append the divisor-and-quotient check of the multiplying recipes.
fn mul_check_codegen(out: &mut Vec<AsmStep>, ivv: Ivv, scratch: u8, show: bool)
    ensures
        final(out)@ == old(out)@ + sp_mul_check_steps(ivv, scratch, show),
{
    inst_codegen(out, VInst::VdivuVv(Ivv { vd: scratch, vs2: ivv.vd, vs1: ivv.vs1, vm: false }),
        show);
    inst_codegen(out, VInst::VmsneVv(Ivv { vd: scratch, vs2: scratch, vs1: ivv.vs2, vm: false }),
        show);
    inst_codegen(out, VInst::VfirstM { rd: 5, vs2: scratch, vm: false }, show);
    out.push(AsmStep::CaptureFlag);
    proof {
        assert(final(out)@ =~= old(out)@ + sp_mul_check_steps(ivv, scratch, show));
    }
}

/// Append the overflowing or checked mul recipe.
pub fn overflowing_mul_codegen(out: &mut Vec<AsmStep>, ivv: Ivv, scratch: u8, width: u16, show: bool,
    checked: bool)
    ensures
        final(out)@ == old(out)@ + sp_overflowing_mul_steps(ivv, scratch, width, show, checked),
{
    inst_codegen(out, VInst::VmulVv(ivv), show);
    inst_codegen(out, VInst::VmsneVi(Ivi { vd: scratch, vs2: ivv.vs1, imm: 0, vm: false }), show);
    inst_codegen(out, VInst::VfirstM { rd: 5, vs2: scratch, vm: false }, show);
    out.push(AsmStep::CaptureFlag);
    store_codegen(out, ivv.vd, width, show);
    out.push(AsmStep::IfFlag);
    mul_check_codegen(out, ivv, scratch, show);
    if checked {
        out.push(AsmStep::IfFlag);
        out.push(AsmStep::YieldNone);
        out.push(AsmStep::ElseFlag);
        out.push(AsmStep::YieldStored);
        out.push(AsmStep::EndIf);
        out.push(AsmStep::ElseFlag);
        out.push(AsmStep::YieldStored);
        out.push(AsmStep::EndIf);
    } else {
        out.push(AsmStep::YieldPairStored);
        out.push(AsmStep::ElseFlag);
        out.push(AsmStep::YieldPairStored);
        out.push(AsmStep::EndIf);
    }
    proof {
        assert(final(out)@ =~= old(out)@ + sp_overflowing_mul_steps(ivv, scratch, width, show,
            checked));
    }
}

/// Append the saturating mul recipe.
pub fn saturating_mul_codegen(out: &mut Vec<AsmStep>, ivv: Ivv, scratch: u8, width: u16, show: bool)
    ensures
        final(out)@ == old(out)@ + sp_saturating_mul_steps(ivv, scratch, width, show),
{
    inst_codegen(out, VInst::VmulVv(ivv), show);
    inst_codegen(out, VInst::VmsneVi(Ivi { vd: scratch, vs2: ivv.vs1, imm: 0, vm: false }), show);
    inst_codegen(out, VInst::VfirstM { rd: 5, vs2: scratch, vm: false }, show);
    out.push(AsmStep::CaptureFlag);
    out.push(AsmStep::IfFlag);
    mul_check_codegen(out, ivv, scratch, show);
    out.push(AsmStep::EndIf);
    out.push(AsmStep::IfFlag);
    out.push(AsmStep::YieldMax { width });
    out.push(AsmStep::ElseFlag);
    store_codegen(out, ivv.vd, width, show);
    out.push(AsmStep::YieldStored);
    out.push(AsmStep::EndIf);
    proof {
        assert(final(out)@ =~= old(out)@ + sp_saturating_mul_steps(ivv, scratch, width, show));
    }
}


/// The number of nodes of an expression tree, the measure of the lowering
/// recursion.
pub open spec fn esize(e: TypedExpr) -> nat
    decreases e,
{
    match e.kind {
        ExprKind::Assign { left, right } => 1 + esize(*left) + esize(*right),
        ExprKind::AssignOp { op, left, right } => 1 + esize(*left) + esize(*right),
        ExprKind::Binary { op, left, right } => 1 + esize(*left) + esize(*right),
        ExprKind::MethodCall { method, receiver, arg } => 1 + esize(*receiver) + esize(*arg),
        ExprKind::Paren { inner } => 1 + esize(*inner),
        ExprKind::Var { var } => 1,
        ExprKind::Opaque => 1,
    }
}

/// The instruction a binary operator lowers to.
pub open spec fn sp_binop_inst(op: BinOp, ivv: Ivv) -> VInst {
    match op {
        BinOp::Add => VInst::VaddVv(ivv),
        BinOp::Sub => VInst::VsubVv(ivv),
        BinOp::Mul => VInst::VmulVv(ivv),
        BinOp::Div => VInst::VdivuVv(ivv),
        BinOp::Rem => VInst::VremuVv(ivv),
        BinOp::Xor => VInst::VxorVv(ivv),
        BinOp::And => VInst::VandVv(ivv),
        BinOp::Or => VInst::VorVv(ivv),
        BinOp::Shl => VInst::VsllVv(ivv),
        BinOp::Shr => VInst::VsrlVv(ivv),
        BinOp::Eq => VInst::VmseqVv(ivv),
        BinOp::Lt => VInst::VmsltuVv(ivv),
        BinOp::Le => VInst::VmsleuVv(ivv),
        BinOp::Ne => VInst::VmsneVv(ivv),
        BinOp::Ge => VInst::VmsgeuVv(ivv),
        BinOp::Gt => VInst::VmsgtuVv(ivv),
    }
}

/// The single instruction of a wrapping or saturating add/sub method, if the
/// method needs no multi-instruction recipe.
pub open spec fn sp_method_simple_inst(m: MethodOp, ivv: Ivv) -> Option<VInst> {
    match m {
        MethodOp::WrappingAdd => Some(VInst::VaddVv(ivv)),
        MethodOp::WrappingSub => Some(VInst::VsubVv(ivv)),
        MethodOp::WrappingMul => Some(VInst::VmulVv(ivv)),
        MethodOp::WrappingDiv => Some(VInst::VdivuVv(ivv)),
        MethodOp::WrappingRem => Some(VInst::VremuVv(ivv)),
        MethodOp::SaturatingAdd => Some(VInst::VsadduVv(ivv)),
        MethodOp::SaturatingSub => Some(VInst::VssubuVv(ivv)),
        _ => None,
    }
}

/// The recipe of one big-integer method on already-lowered operands: the
/// simple methods are one instruction; every other recipe draws a scratch
/// mask register from the pool and returns it before finishing.
pub open spec fn sp_method_dispatch(v: CtxView, m: MethodOp, ivv: Ivv, width: u16, span: u64)
    -> StepsOut {
    match sp_method_simple_inst(m, ivv) {
        Some(i) => StepsOut { ctx: v, res: Ok(()), steps: sp_inst_steps(i, v.show) },
        None => {
            let (sc, pool2) = sp_allocate(v.pool);
            match sc {
                None => StepsOut {
                    ctx: v,
                    res: Err(
                        CodegenError::User(
                            UserError { span, kind: UserErrorKind::OutOfRegisters },
                        ),
                    ),
                    steps: Seq::<AsmStep>::empty(),
                },
                Some(lt) => {
                    let v2 = CtxView { pool: pool2, ..v };
                    let steps = match m {
                        MethodOp::OverflowingAdd => sp_overflowing_steps(
                            VInst::VaddVv(ivv),
                            Ivv { vd: lt, vs2: ivv.vd, vs1: ivv.vs2, vm: false },
                            ivv.vd,
                            width,
                            v.show,
                        ),
                        MethodOp::OverflowingSub => sp_overflowing_steps(
                            VInst::VsubVv(ivv),
                            Ivv { vd: lt, vs2: ivv.vs2, vs1: ivv.vs1, vm: false },
                            ivv.vd,
                            width,
                            v.show,
                        ),
                        MethodOp::CheckedAdd => sp_checked_rv_steps(
                            VInst::VaddVv(ivv),
                            Ivv { vd: lt, vs2: ivv.vd, vs1: ivv.vs2, vm: false },
                            ivv.vd,
                            width,
                            v.show,
                        ),
                        MethodOp::CheckedSub => sp_checked_sub_steps(
                            VInst::VsubVv(ivv),
                            Ivv { vd: lt, vs2: ivv.vs2, vs1: ivv.vs1, vm: false },
                            ivv.vd,
                            width,
                            v.show,
                        ),
                        MethodOp::CheckedDiv => sp_simple_checked_steps(
                            VInst::VdivuVv(ivv),
                            Ivi { vd: lt, vs2: ivv.vs1, imm: 0, vm: false },
                            ivv.vd,
                            width,
                            v.show,
                        ),
                        MethodOp::CheckedRem => sp_simple_checked_steps(
                            VInst::VremuVv(ivv),
                            Ivi { vd: lt, vs2: ivv.vs1, imm: 0, vm: false },
                            ivv.vd,
                            width,
                            v.show,
                        ),
                        MethodOp::OverflowingMul => sp_overflowing_mul_steps(
                            ivv,
                            lt,
                            width,
                            v.show,
                            false,
                        ),
                        MethodOp::CheckedMul => sp_overflowing_mul_steps(
                            ivv,
                            lt,
                            width,
                            v.show,
                            true,
                        ),
                        MethodOp::SaturatingMul => sp_saturating_mul_steps(ivv, lt, width, v.show),
                        _ => Seq::<AsmStep>::empty(),
                    };
                    match sp_release(v2.pool, lt) {
                        Err(e) => StepsOut { ctx: v2, res: Err(CodegenError::Internal(e)), steps },
                        Ok(p3) => StepsOut { ctx: CtxView { pool: p3, ..v2 }, res: Ok(()), steps },
                    }
                },
            }
        },
    }
}

/// Materialize one operand: a bound variable reuses its register, an unbound
/// one is loaded into a fresh register and bound, and anything else is
/// lowered recursively as a pure sub-expression.
pub open spec fn sp_operand(v: CtxView, x: TypedExpr, bl: u16) -> StepsOut
    decreases esize(x), 9int,
{
    match x.kind {
        ExprKind::Var { var } => match v.var_regs[var as int] {
            Some(vreg) => StepsOut {
                ctx: CtxView {
                    expr_regs: v.expr_regs.update(
                        x.id as int,
                        Some(
                            RegInfo {
                                number: vreg,
                                bit_length: bl,
                                is_freed: false,
                                var: Some(var),
                            },
                        ),
                    ),
                    ..v
                },
                res: Ok(()),
                steps: Seq::<AsmStep>::empty(),
            },
            None => {
                let (alloc_r, pool2) = sp_allocate(v.pool);
                match alloc_r {
                    None => StepsOut {
                        ctx: v,
                        res: Err(
                            CodegenError::User(
                                UserError { span: x.span, kind: UserErrorKind::OutOfRegisters },
                            ),
                        ),
                        steps: Seq::<AsmStep>::empty(),
                    },
                    Some(vreg) => {
                        let vle = VInst::VleV { width: bl, vd: vreg, vm: false };
                        StepsOut {
                            ctx: CtxView {
                                pool: pool2,
                                var_regs: v.var_regs.update(var as int, Some(vreg)),
                                expr_regs: v.expr_regs.update(
                                    x.id as int,
                                    Some(
                                        RegInfo {
                                            number: vreg,
                                            bit_length: bl,
                                            is_freed: false,
                                            var: Some(var),
                                        },
                                    ),
                                ),
                                ..v
                            },
                            res: Ok(()),
                            steps: (if v.show {
                                seq![AsmStep::Comment(vle)]
                            } else {
                                Seq::<AsmStep>::empty()
                            }) + seq![AsmStep::LoadVar { inst: vle, var }],
                        }
                    },
                }
            },
        },
        _ => {
            let o = sp_lower(v, x, false, None, None, bl);
            StepsOut {
                ctx: o.ctx,
                res: match o.res {
                    Ok(k) => Ok(()),
                    Err(e) => Err(e),
                },
                steps: o.steps,
            }
        },
    }
}

/// Lower a binary operation or compound assignment: width inference at the
/// top level, configuration, operand materialization, operation dispatch,
/// liveness retirement, and the top-level result or boolean reduction.
pub open spec fn sp_binary(v: CtxView, e: TypedExpr, top: bool, extra: Option<usize>,
    exists_vd: Option<u8>, bl: u16) -> LowerOut
    decreases esize(e), 3int,
{
    match e.kind {
        ExprKind::AssignOp { op, left, right } => sp_binary_inner(
            v,
            e.id,
            e.span,
            op,
            *left,
            *right,
            true,
            top,
            extra,
            exists_vd,
            bl,
        ),
        ExprKind::Binary { op, left, right } => sp_binary_inner(
            v,
            e.id,
            e.span,
            op,
            *left,
            *right,
            false,
            top,
            extra,
            exists_vd,
            bl,
        ),
        _ => LowerOut {
            ctx: v,
            res: Err(
                CodegenError::User(
                    UserError { span: e.span, kind: UserErrorKind::InvalidExpression },
                ),
            ),
            steps: Seq::<AsmStep>::empty(),
        },
    }
}

/// Configuration and operand materialization shared by the binary forms.
pub open spec fn sp_binary_operands(v: CtxView, l: TypedExpr, r: TypedExpr, blx: u16) -> StepsOut
    decreases esize(l) + esize(r), 8int,
{
    let vc = sp_update_vconfig(v, blx);
    let o2 = sp_operand(vc.0, l, blx);
    match o2.res {
        Err(e2) => StepsOut { ctx: o2.ctx, res: Err(e2), steps: vc.1 + o2.steps },
        Ok(u2) => {
            let o3 = sp_operand(o2.ctx, r, blx);
            StepsOut { ctx: o3.ctx, res: o3.res, steps: vc.1 + o2.steps + o3.steps }
        },
    }
}

/// The body shared by `sp_binary`'s two forms.
pub open spec fn sp_binary_inner(v: CtxView, eid: usize, espan: u64, op: BinOp, l: TypedExpr,
    r: TypedExpr, is_assign: bool, top: bool, extra: Option<usize>, exists_vd: Option<u8>,
    bl: u16) -> LowerOut
    decreases esize(l) + esize(r), 9int,
{
    if !top && is_assign {
        LowerOut {
            ctx: v,
            res: Err(
                CodegenError::User(UserError { span: espan, kind: UserErrorKind::NestedAssignOp }),
            ),
            steps: Seq::<AsmStep>::empty(),
        }
    } else {
        let wl = l.ty.spec_width();
        let wr = r.ty.spec_width();
        if top && (wl == 0 || wr == 0) {
            LowerOut { ctx: v, res: Ok(LoweredKind::Passthrough), steps: Seq::<AsmStep>::empty() }
        } else if top && wl != wr {
            LowerOut {
                ctx: v,
                res: Err(
                    CodegenError::User(
                        UserError { span: espan, kind: UserErrorKind::WidthMismatch },
                    ),
                ),
                steps: Seq::<AsmStep>::empty(),
            }
        } else {
            let blx = if top {
                wl
            } else {
                bl
            };
            let ops = sp_binary_operands(v, l, r, blx);
            match ops.res {
                Err(e2) => LowerOut { ctx: ops.ctx, res: Err(e2), steps: ops.steps },
                Ok(u2) => {
                    let t = sp_binary_tail(ops.ctx, eid, espan, op, l.id, r.id, is_assign, top,
                        extra, exists_vd, blx);
                    LowerOut { ctx: t.ctx, res: t.res, steps: ops.steps + t.steps }
                },
            }
        }
    }
}

/// Operation dispatch and retirement once both operands are in registers.
pub open spec fn sp_binary_tail(v: CtxView, eid: usize, espan: u64, op: BinOp, lid: usize,
    rid: usize, is_assign: bool, top: bool, extra: Option<usize>, exists_vd: Option<u8>,
    blx: u16) -> LowerOut {
    match (v.expr_regs[lid as int], v.expr_regs[rid as int]) {
        (Some(bi_l), Some(bi_r)) => {
            if bi_l.bit_length != bi_r.bit_length {
                LowerOut {
                    ctx: v,
                    res: Err(
                        CodegenError::Internal(InternalError::BindingWidth { expr_id: eid }),
                    ),
                    steps: Seq::<AsmStep>::empty(),
                }
            } else {
                let vs2 = bi_l.number;
                let vs1 = bi_r.number;
                let is_cmp = op.spec_is_compare();
                let picked: (CtxView, Result<u8, CodegenError>) = match exists_vd {
                    Some(vd) => (v, Ok(vd)),
                    None => {
                        if is_assign {
                            (v, Ok(vs2))
                        } else {
                            let (alloc_r, pool2) = sp_allocate(v.pool);
                            match alloc_r {
                                None => (
                                    v,
                                    Err(
                                        CodegenError::User(
                                            UserError {
                                                span: espan,
                                                kind: UserErrorKind::OutOfRegisters,
                                            },
                                        ),
                                    ),
                                ),
                                Some(vd) => (
                                    CtxView {
                                        pool: pool2,
                                        expr_regs: v.expr_regs.update(
                                            eid as int,
                                            Some(
                                                RegInfo {
                                                    number: vd,
                                                    bit_length: bi_l.bit_length,
                                                    is_freed: false,
                                                    var: None,
                                                },
                                            ),
                                        ),
                                        ..v
                                    },
                                    Ok(vd),
                                ),
                            }
                        }
                    },
                };
                match picked.1 {
                    Err(e4) => LowerOut { ctx: picked.0, res: Err(e4), steps: Seq::<
                        AsmStep,
                    >::empty() },
                    Ok(vd) => {
                        let v4 = picked.0;
                        let ivv = Ivv { vd, vs2, vs1, vm: false };
                        let inst = sp_binop_inst(op, ivv);
                        let s4 = sp_inst_steps(inst, v4.show);
                        let v5 = match extra {
                            Some(xid) => match v4.expr_regs[eid as int] {
                                Some(info) => CtxView {
                                    expr_regs: v4.expr_regs.update(xid as int, Some(info)),
                                    ..v4
                                },
                                None => v4,
                            },
                            None => v4,
                        };
                        let freed = sp_free_subs(v5, eid as int, lid as int, rid as int);
                        match freed.1 {
                            Err(e5) => LowerOut { ctx: freed.0, res: Err(e5), steps: s4 },
                            Ok(u5) => {
                                let v6 = freed.0;
                                if is_cmp {
                                    let owned = sp_free_own(v6, eid as int);
                                    match owned.1 {
                                        Err(e6) => LowerOut {
                                            ctx: owned.0,
                                            res: Err(e6),
                                            steps: s4,
                                        },
                                        Ok(vreg) => LowerOut {
                                            ctx: owned.0,
                                            res: Ok(LoweredKind::Code),
                                            steps: s4 + sp_inst_steps(sp_vfirst(vreg), v6.show)
                                                + seq![AsmStep::CaptureFlag, AsmStep::YieldBool],
                                        },
                                    }
                                } else if top && exists_vd is None && !is_assign {
                                    let owned = sp_free_own(v6, eid as int);
                                    match owned.1 {
                                        Err(e6) => LowerOut {
                                            ctx: owned.0,
                                            res: Err(e6),
                                            steps: s4,
                                        },
                                        Ok(vreg) => LowerOut {
                                            ctx: owned.0,
                                            res: Ok(LoweredKind::Code),
                                            steps: s4 + sp_vstore_steps(vreg, blx, v6.show),
                                        },
                                    }
                                } else {
                                    LowerOut { ctx: v6, res: Ok(LoweredKind::Code), steps: s4 }
                                }
                            },
                        }
                    },
                }
            }
        },
        _ => LowerOut {
            ctx: v,
            res: Err(
                CodegenError::Internal(
                    InternalError::MissingBinding { expr_id: eid },
                ),
            ),
            steps: Seq::<AsmStep>::empty(),
        },
    }
}

/// Lower a big-integer method call: width from the receiver's type, operand
/// materialization, recipe dispatch, retirement, and the top-level store for
/// the single-instruction methods.
pub open spec fn sp_method(v: CtxView, e: TypedExpr, top: bool, extra: Option<usize>, bl: u16)
    -> LowerOut
    decreases esize(e), 3int,
{
    match e.kind {
        ExprKind::MethodCall { method, receiver, arg } => {
            let rcv = *receiver;
            let a = *arg;
            let rbl0 = rcv.ty.spec_width();
            let rbl = if rbl0 != 0 {
                rbl0
            } else {
                match v.expr_regs[e.id as int] {
                    Some(info) => info.bit_length,
                    None => 0,
                }
            };
            let blx = if top {
                rbl
            } else {
                bl
            };
            if blx == 0 {
                LowerOut {
                    ctx: v,
                    res: Ok(LoweredKind::Passthrough),
                    steps: Seq::<AsmStep>::empty(),
                }
            } else {
                match method {
                    None => LowerOut {
                        ctx: v,
                        res: Ok(LoweredKind::Passthrough),
                        steps: Seq::<AsmStep>::empty(),
                    },
                    Some(m) => {
                        let vc = sp_update_vconfig(v, blx);
                        let o2 = sp_operand(vc.0, rcv, blx);
                        let s2 = vc.1 + o2.steps;
                        match o2.res {
                            Err(e2) => LowerOut { ctx: o2.ctx, res: Err(e2), steps: s2 },
                            Ok(u2) => {
                                let o3 = sp_operand(o2.ctx, a, blx);
                                let s3 = s2 + o3.steps;
                                match o3.res {
                                    Err(e3) => LowerOut { ctx: o3.ctx, res: Err(e3), steps: s3 },
                                    Ok(u3) => {
                                        let t = sp_method_tail(o3.ctx, e.id, e.span, m, rcv.id,
                                            a.id, top, extra, blx);
                                        LowerOut { ctx: t.ctx, res: t.res, steps: s3 + t.steps }
                                    },
                                }
                            },
                        }
                    },
                }
            }
        },
        _ => LowerOut {
            ctx: v,
            res: Err(
                CodegenError::User(
                    UserError { span: e.span, kind: UserErrorKind::InvalidExpression },
                ),
            ),
            steps: Seq::<AsmStep>::empty(),
        },
    }
}

/// Recipe dispatch and retirement for a method call with materialized
/// operands.
pub open spec fn sp_method_tail(v: CtxView, eid: usize, espan: u64, m: MethodOp, rid: usize,
    aid: usize, top: bool, extra: Option<usize>, blx: u16) -> LowerOut {
    match (v.expr_regs[rid as int], v.expr_regs[aid as int]) {
        (Some(bi_r), Some(bi_a)) => {
            if bi_r.bit_length != bi_a.bit_length {
                LowerOut {
                    ctx: v,
                    res: Err(
                        CodegenError::Internal(InternalError::BindingWidth { expr_id: eid }),
                    ),
                    steps: Seq::<AsmStep>::empty(),
                }
            } else {
                let vs2 = bi_r.number;
                let vs1 = bi_a.number;
                let (alloc_r, pool2) = sp_allocate(v.pool);
                match alloc_r {
                    None => LowerOut {
                        ctx: v,
                        res: Err(
                            CodegenError::User(
                                UserError { span: espan, kind: UserErrorKind::OutOfRegisters },
                            ),
                        ),
                        steps: Seq::<AsmStep>::empty(),
                    },
                    Some(vd) => {
                        let v4 = CtxView {
                            pool: pool2,
                            expr_regs: v.expr_regs.update(
                                eid as int,
                                Some(
                                    RegInfo {
                                        number: vd,
                                        bit_length: bi_r.bit_length,
                                        is_freed: false,
                                        var: None,
                                    },
                                ),
                            ),
                            ..v
                        };
                        let v5 = match extra {
                            Some(xid) => match v4.expr_regs[eid as int] {
                                Some(info) => CtxView {
                                    expr_regs: v4.expr_regs.update(xid as int, Some(info)),
                                    ..v4
                                },
                                None => v4,
                            },
                            None => v4,
                        };
                        let ivv = Ivv { vd, vs2, vs1, vm: false };
                        let disp = sp_method_dispatch(v5, m, ivv, blx, espan);
                        let s4 = disp.steps;
                        match disp.res {
                            Err(e4) => LowerOut { ctx: disp.ctx, res: Err(e4), steps: s4 },
                            Ok(u4) => {
                                let freed = sp_free_subs(disp.ctx, eid as int, rid as int,
                                    aid as int);
                                match freed.1 {
                                    Err(e5) => LowerOut { ctx: freed.0, res: Err(e5), steps: s4 },
                                    Ok(u5) => {
                                        let v6 = freed.0;
                                        let simple = sp_method_simple_inst(m, ivv) is Some;
                                        if top && simple {
                                            let owned = sp_free_own(v6, eid as int);
                                            match owned.1 {
                                                Err(e6) => LowerOut {
                                                    ctx: owned.0,
                                                    res: Err(e6),
                                                    steps: s4,
                                                },
                                                Ok(vreg) => LowerOut {
                                                    ctx: owned.0,
                                                    res: Ok(LoweredKind::Code),
                                                    steps: s4 + sp_vstore_steps(vreg, blx,
                                                        v6.show),
                                                },
                                            }
                                        } else {
                                            LowerOut {
                                                ctx: v6,
                                                res: Ok(LoweredKind::Code),
                                                steps: s4,
                                            }
                                        }
                                    },
                                }
                            },
                        }
                    },
                }
            }
        },
        _ => LowerOut {
            ctx: v,
            res: Err(
                CodegenError::Internal(
                    InternalError::MissingBinding { expr_id: eid },
                ),
            ),
            steps: Seq::<AsmStep>::empty(),
        },
    }
}

/// The whole lowering of one expression, as a function of the engine state
/// and the expression alone.
pub open spec fn sp_lower(v: CtxView, e: TypedExpr, top: bool, extra: Option<usize>,
    exists_vd: Option<u8>, bl: u16) -> LowerOut
    decreases esize(e), 4int,
{
    match e.kind {
        ExprKind::Assign { left, right } => match left.kind {
            ExprKind::Var { var } => match v.var_regs[var as int] {
                Some(vd) => sp_lower(v, *right, true, None, Some(vd), bl),
                None => LowerOut {
                    ctx: v,
                    res: Ok(LoweredKind::Passthrough),
                    steps: Seq::<AsmStep>::empty(),
                },
            },
            _ => LowerOut {
                ctx: v,
                res: Ok(LoweredKind::Passthrough),
                steps: Seq::<AsmStep>::empty(),
            },
        },
        ExprKind::AssignOp { op, left, right } => sp_binary(v, e, top, extra, exists_vd, bl),
        ExprKind::Binary { op, left, right } => sp_binary(v, e, top, extra, exists_vd, bl),
        ExprKind::MethodCall { method, receiver, arg } => sp_method(v, e, top, extra, bl),
        ExprKind::Paren { inner } => sp_lower(v, *inner, top, Some(e.id), exists_vd, bl),
        ExprKind::Var { var } => {
            if top {
                match v.var_regs[var as int] {
                    Some(vreg) => match sp_find_reg(v.expr_regs, vreg, 0) {
                        Some(info) => LowerOut {
                            ctx: v,
                            res: Ok(LoweredKind::Code),
                            steps: sp_vstore_steps(vreg, info.bit_length, v.show),
                        },
                        None => LowerOut {
                            ctx: v,
                            res: Ok(LoweredKind::Passthrough),
                            steps: Seq::<AsmStep>::empty(),
                        },
                    },
                    None => LowerOut {
                        ctx: v,
                        res: Ok(LoweredKind::Passthrough),
                        steps: Seq::<AsmStep>::empty(),
                    },
                }
            } else {
                LowerOut {
                    ctx: v,
                    res: Ok(LoweredKind::Passthrough),
                    steps: Seq::<AsmStep>::empty(),
                }
            }
        },
        ExprKind::Opaque => LowerOut {
            ctx: v,
            res: Err(
                CodegenError::User(
                    UserError { span: e.span, kind: UserErrorKind::InvalidExpression },
                ),
            ),
            steps: Seq::<AsmStep>::empty(),
        },
    }
}


impl CodegenContext {
    /// Return a register to the pool, mirroring `sp_release` on the view.
    fn release_reg(&mut self, reg: u8) -> (r: Result<(), InternalError>)
        ensures
            match sp_release(old(self).vw().pool, reg) {
                Ok(p2) => r is Ok && final(self).vw() == (CtxView { pool: p2, ..old(self).vw() }),
                Err(e) => r == Err::<(), InternalError>(e) && *final(self) == *old(self),
            },
            ctx_wf(old(self).vw()) ==> ctx_wf(final(self).vw()),
    {
        let ghost pool0 = self.v_registers.used@;
        let r = self.v_registers.free(reg);
        proof {
            match r {
                Ok(()) => {
                    assert forall|i: int| 0 <= i < 32 implies self.v_registers.used@[i]
                        == pool0.update(reg as int, false)[i] by {
                        if i != reg as int {
                            assert(self.v_registers.is_used(i) == old(self).v_registers.is_used(
                                i));
                        } else {
                            assert(!self.v_registers.is_used(i));
                        }
                    }
                    assert(self.v_registers.used@ =~= pool0.update(reg as int, false));
                    assert(final(self).vw() =~= (CtxView { pool: pool0.update(reg as int, false),
                        ..old(self).vw() }));
                },
                Err(e) => {},
            }
        }
        r
    }
}

/// Executable form of `sp_binop_inst`.
fn binop_inst(op: BinOp, ivv: Ivv) -> (r: VInst)
    ensures
        r == sp_binop_inst(op, ivv),
{
    match op {
        BinOp::Add => VInst::VaddVv(ivv),
        BinOp::Sub => VInst::VsubVv(ivv),
        BinOp::Mul => VInst::VmulVv(ivv),
        BinOp::Div => VInst::VdivuVv(ivv),
        BinOp::Rem => VInst::VremuVv(ivv),
        BinOp::Xor => VInst::VxorVv(ivv),
        BinOp::And => VInst::VandVv(ivv),
        BinOp::Or => VInst::VorVv(ivv),
        BinOp::Shl => VInst::VsllVv(ivv),
        BinOp::Shr => VInst::VsrlVv(ivv),
        BinOp::Eq => VInst::VmseqVv(ivv),
        BinOp::Lt => VInst::VmsltuVv(ivv),
        BinOp::Le => VInst::VmsleuVv(ivv),
        BinOp::Ne => VInst::VmsneVv(ivv),
        BinOp::Ge => VInst::VmsgeuVv(ivv),
        BinOp::Gt => VInst::VmsgtuVv(ivv),
    }
}

/// Executable form of `sp_method_simple_inst`.
fn method_simple_inst(m: MethodOp, ivv: Ivv) -> (r: Option<VInst>)
    ensures
        r == sp_method_simple_inst(m, ivv),
{
    match m {
        MethodOp::WrappingAdd => Some(VInst::VaddVv(ivv)),
        MethodOp::WrappingSub => Some(VInst::VsubVv(ivv)),
        MethodOp::WrappingMul => Some(VInst::VmulVv(ivv)),
        MethodOp::WrappingDiv => Some(VInst::VdivuVv(ivv)),
        MethodOp::WrappingRem => Some(VInst::VremuVv(ivv)),
        MethodOp::SaturatingAdd => Some(VInst::VsadduVv(ivv)),
        MethodOp::SaturatingSub => Some(VInst::VssubuVv(ivv)),
        _ => None,
    }
}

impl CodegenContext {
    /// The first binding holding the given register number.
    fn find_reg_binding(&self, vreg: u8) -> (r: Option<RegInfo>)
        ensures
            r == sp_find_reg(self.expr_regs@, vreg, 0),
    {
        let n = self.expr_regs.len();
        let mut j: usize = 0;
        while j < n
            invariant
                j <= n,
                n == self.expr_regs@.len(),
                sp_find_reg(self.expr_regs@, vreg, 0) == sp_find_reg(self.expr_regs@, vreg,
                    j as int),
            decreases n - j,
        {
            match self.expr_regs[j] {
                Some(info) => {
                    if info.number == vreg {
                        return Some(info);
                    }
                },
                None => {},
            }
            j += 1;
        }
        None
    }

    /// Emit one method recipe, drawing and returning any scratch register.
    #[verifier::rlimit(50)]
    fn method_dispatch(&mut self, out: &mut Vec<AsmStep>, m: MethodOp, ivv: Ivv, width: u16,
        span: u64) -> (r: Result<(), CodegenError>)
        requires
            ctx_wf(old(self).vw()),
        ensures
            ({
                let t = sp_method_dispatch(old(self).vw(), m, ivv, width, span);
                &&& final(self).vw() == t.ctx
                &&& r == t.res
                &&& final(out)@ == old(out)@ + t.steps
            }),
            ctx_wf(final(self).vw()),
            final(self).expr_regs@.len() == old(self).expr_regs@.len(),
            final(self).var_regs@.len() == old(self).var_regs@.len(),
            final(self).variables@ == old(self).variables@,
            final(self).show_asm == old(self).show_asm,
    {
        let ghost t = sp_method_dispatch(old(self).vw(), m, ivv, width, span);
        let show = self.show_asm;
        match method_simple_inst(m, ivv) {
            Some(i) => {
                inst_codegen(out, i, show);
                proof {
                    assert(final(out)@ =~= old(out)@ + t.steps);
                }
                Ok(())
            },
            None => {
                match self.allocate_reg() {
                    None => {
                        proof {
                            assert(final(out)@ =~= old(out)@ + t.steps);
                        }
                        Err(
                            CodegenError::User(
                                UserError { span, kind: UserErrorKind::OutOfRegisters },
                            ),
                        )
                    },
                    Some(lt) => {
                        match m {
                            MethodOp::OverflowingAdd => overflowing_rv_codegen(
                                out,
                                VInst::VaddVv(ivv),
                                Ivv { vd: lt, vs2: ivv.vd, vs1: ivv.vs2, vm: false },
                                ivv.vd,
                                width,
                                show,
                            ),
                            MethodOp::OverflowingSub => overflowing_rv_codegen(
                                out,
                                VInst::VsubVv(ivv),
                                Ivv { vd: lt, vs2: ivv.vs2, vs1: ivv.vs1, vm: false },
                                ivv.vd,
                                width,
                                show,
                            ),
                            MethodOp::CheckedAdd => checked_rv_codegen(
                                out,
                                VInst::VaddVv(ivv),
                                Ivv { vd: lt, vs2: ivv.vd, vs1: ivv.vs2, vm: false },
                                ivv.vd,
                                width,
                                show,
                            ),
                            MethodOp::CheckedSub => checked_sub_codegen(
                                out,
                                VInst::VsubVv(ivv),
                                Ivv { vd: lt, vs2: ivv.vs2, vs1: ivv.vs1, vm: false },
                                ivv.vd,
                                width,
                                show,
                            ),
                            MethodOp::CheckedDiv => simple_checked_codegen(
                                out,
                                VInst::VdivuVv(ivv),
                                Ivi { vd: lt, vs2: ivv.vs1, imm: 0, vm: false },
                                ivv.vd,
                                width,
                                show,
                            ),
                            MethodOp::CheckedRem => simple_checked_codegen(
                                out,
                                VInst::VremuVv(ivv),
                                Ivi { vd: lt, vs2: ivv.vs1, imm: 0, vm: false },
                                ivv.vd,
                                width,
                                show,
                            ),
                            MethodOp::OverflowingMul => overflowing_mul_codegen(
                                out,
                                ivv,
                                lt,
                                width,
                                show,
                                false,
                            ),
                            MethodOp::CheckedMul => overflowing_mul_codegen(
                                out,
                                ivv,
                                lt,
                                width,
                                show,
                                true,
                            ),
                            MethodOp::SaturatingMul => saturating_mul_codegen(
                                out,
                                ivv,
                                lt,
                                width,
                                show,
                            ),
                            _ => {},
                        }
                        let rel = self.release_reg(lt);
                        match rel {
                            Err(e) => {
                                proof {
                                    assert(final(out)@ =~= old(out)@ + t.steps);
                                }
                                Err(CodegenError::Internal(e))
                            },
                            Ok(()) => {
                                proof {
                                    assert(final(self).vw() =~= t.ctx);
                                    assert(final(out)@ =~= old(out)@ + t.steps);
                                }
                                Ok(())
                            },
                        }
                    },
                }
            },
        }
    }

    /// Materialize one operand into a register (see `sp_operand`).
    #[verifier::rlimit(50)]
    fn gen_operand(&mut self, out: &mut Vec<AsmStep>, x: &TypedExpr, bit_length: u16) -> (r:
        Result<(), CodegenError>)
        requires
            ctx_wf(old(self).vw()),
            expr_bounded(*x, old(self).expr_regs@.len() as int, old(self).variables@.len() as int),
        ensures
            ({
                let t = sp_operand(old(self).vw(), *x, bit_length);
                &&& final(self).vw() == t.ctx
                &&& r == t.res
                &&& final(out)@ == old(out)@ + t.steps
            }),
            ctx_wf(final(self).vw()),
            final(self).expr_regs@.len() == old(self).expr_regs@.len(),
            final(self).var_regs@.len() == old(self).var_regs@.len(),
            final(self).variables@ == old(self).variables@,
            final(self).show_asm == old(self).show_asm,
        decreases esize(*x), 9int,
    {
        let ghost t = sp_operand(old(self).vw(), *x, bit_length);
        match &x.kind {
            ExprKind::Var { var } => {
                let v = *var;
                match self.var_regs[v] {
                    Some(vreg) => {
                        self.expr_regs[x.id] = Some(
                            RegInfo {
                                number: vreg,
                                bit_length,
                                is_freed: false,
                                var: Some(v),
                            },
                        );
                        proof {
                            assert(final(self).vw() =~= t.ctx);
                            assert(final(out)@ =~= old(out)@ + t.steps);
                        }
                        Ok(())
                    },
                    None => {
                        match self.allocate_reg() {
                            None => {
                                proof {
                                    assert(final(out)@ =~= old(out)@ + t.steps);
                                }
                                Err(
                                    CodegenError::User(
                                        UserError {
                                            span: x.span,
                                            kind: UserErrorKind::OutOfRegisters,
                                        },
                                    ),
                                )
                            },
                            Some(vreg) => {
                                let vle = VInst::VleV {
                                    width: bit_length,
                                    vd: vreg,
                                    vm: false,
                                };
                                if self.show_asm {
                                    out.push(AsmStep::Comment(vle));
                                }
                                out.push(AsmStep::LoadVar { inst: vle, var: v });
                                self.var_regs[v] = Some(vreg);
                                self.expr_regs[x.id] = Some(
                                    RegInfo {
                                        number: vreg,
                                        bit_length,
                                        is_freed: false,
                                        var: Some(v),
                                    },
                                );
                                proof {
                                    assert(final(self).vw() =~= t.ctx);
                                    assert(final(out)@ =~= old(out)@ + t.steps);
                                }
                                Ok(())
                            },
                        }
                    },
                }
            },
            _ => {
                let r0 = self.gen_tokens(out, x, false, None, None, bit_length);
                match r0 {
                    Ok(k) => Ok(()),
                    Err(e) => Err(e),
                }
            },
        }
    }
}


impl CodegenContext {
    /// Operation dispatch and retirement for a binary form whose operands
    /// are in registers (see `sp_binary_tail`).
    #[verifier::rlimit(100)]
    #[verifier::spinoff_prover]
    fn gen_binary_tail(&mut self, out: &mut Vec<AsmStep>, eid: usize, espan: u64, op: BinOp,
        lid: usize, rid: usize, is_assign: bool, top: bool, extra: Option<usize>,
        exists_vd: Option<u8>, blx: u16) -> (r: Result<LoweredKind, CodegenError>)
        requires
            ctx_wf(old(self).vw()),
            eid < old(self).expr_regs@.len(),
            lid < old(self).expr_regs@.len(),
            rid < old(self).expr_regs@.len(),
            match extra {
                Some(x) => x < old(self).expr_regs@.len(),
                None => true,
            },
        ensures
            ({
                let t = sp_binary_tail(old(self).vw(), eid, espan, op, lid, rid, is_assign, top,
                    extra, exists_vd, blx);
                &&& final(self).vw() == t.ctx
                &&& r == t.res
                &&& final(out)@ == old(out)@ + t.steps
            }),
            ctx_wf(final(self).vw()),
            final(self).expr_regs@.len() == old(self).expr_regs@.len(),
            final(self).var_regs@.len() == old(self).var_regs@.len(),
            final(self).variables@ == old(self).variables@,
            final(self).show_asm == old(self).show_asm,
    {
        let ghost t = sp_binary_tail(old(self).vw(), eid, espan, op, lid, rid, is_assign, top,
            extra, exists_vd, blx);
        let bi_l = self.expr_regs[lid];
        let bi_r = self.expr_regs[rid];
        let (bl_info, br_info) = match (bi_l, bi_r) {
            (Some(a), Some(b)) => (a, b),
            _ => {
                proof {
                    assert(final(out)@ =~= old(out)@ + t.steps);
                }
                return Err(
                    CodegenError::Internal(InternalError::MissingBinding { expr_id: eid }),
                );
            },
        };
        if bl_info.bit_length != br_info.bit_length {
            proof {
                assert(final(out)@ =~= old(out)@ + t.steps);
            }
            return Err(CodegenError::Internal(InternalError::BindingWidth { expr_id: eid }));
        }
        let vs2 = bl_info.number;
        let vs1 = br_info.number;
        let is_cmp = op.is_compare();
        let vd: u8 = match exists_vd {
            Some(vd0) => vd0,
            None => {
                if is_assign {
                    vs2
                } else {
                    match self.allocate_reg() {
                        None => {
                            proof {
                                assert(final(out)@ =~= old(out)@ + t.steps);
                            }
                            return Err(
                                CodegenError::User(
                                    UserError { span: espan, kind: UserErrorKind::OutOfRegisters },
                                ),
                            );
                        },
                        Some(vd0) => {
                            self.expr_regs[eid] = Some(
                                RegInfo {
                                    number: vd0,
                                    bit_length: bl_info.bit_length,
                                    is_freed: false,
                                    var: None,
                                },
                            );
                            vd0
                        },
                    }
                }
            },
        };
        let ivv = Ivv { vd, vs2, vs1, vm: false };
        let inst = binop_inst(op, ivv);
        inst_codegen(out, inst, self.show_asm);
        match extra {
            Some(xid) => {
                let cur = self.expr_regs[eid];
                match cur {
                    Some(info) => {
                        self.expr_regs[xid] = Some(info);
                    },
                    None => {},
                }
            },
            None => {},
        }
        let fr = self.free_sub_exprs(eid, lid, rid);
        match fr {
            Err(e5) => {
                proof {
                    assert(final(out)@ =~= old(out)@ + t.steps);
                }
                return Err(e5);
            },
            Ok(()) => {},
        }
        if is_cmp {
            match self.free_own(eid) {
                Err(e6) => {
                    proof {
                        assert(final(out)@ =~= old(out)@ + t.steps);
                    }
                    Err(e6)
                },
                Ok(vreg) => {
                    inst_codegen(out, VInst::VfirstM { rd: 5, vs2: vreg, vm: false },
                        self.show_asm);
                    out.push(AsmStep::CaptureFlag);
                    out.push(AsmStep::YieldBool);
                    proof {
                        assert(final(out)@ =~= old(out)@ + t.steps);
                    }
                    Ok(LoweredKind::Code)
                },
            }
        } else if top && exists_vd.is_none() && !is_assign {
            match self.free_own(eid) {
                Err(e6) => {
                    proof {
                        assert(final(out)@ =~= old(out)@ + t.steps);
                    }
                    Err(e6)
                },
                Ok(vreg) => {
                    vstore_codegen(out, vreg, blx, self.show_asm);
                    proof {
                        assert(final(out)@ =~= old(out)@ + t.steps);
                    }
                    Ok(LoweredKind::Code)
                },
            }
        } else {
            proof {
                assert(final(out)@ =~= old(out)@ + t.steps);
            }
            Ok(LoweredKind::Code)
        }
    }

    /// The shared lowering of binary operations and compound assignments
    /// (see `sp_binary_inner`).
    #[verifier::rlimit(100)]
    #[verifier::spinoff_prover]
    fn gen_binary_inner(&mut self, out: &mut Vec<AsmStep>, eid: usize, espan: u64, op: BinOp,
        left: &TypedExpr, right: &TypedExpr, is_assign: bool, top: bool, extra: Option<usize>,
        exists_vd: Option<u8>, bit_length: u16) -> (r: Result<LoweredKind, CodegenError>)
        requires
            ctx_wf(old(self).vw()),
            eid < old(self).expr_regs@.len(),
            expr_bounded(
                *left,
                old(self).expr_regs@.len() as int,
                old(self).variables@.len() as int,
            ),
            expr_bounded(
                *right,
                old(self).expr_regs@.len() as int,
                old(self).variables@.len() as int,
            ),
            match extra {
                Some(x) => x < old(self).expr_regs@.len(),
                None => true,
            },
        ensures
            ({
                let t = sp_binary_inner(old(self).vw(), eid, espan, op, *left, *right, is_assign,
                    top, extra, exists_vd, bit_length);
                &&& final(self).vw() == t.ctx
                &&& r == t.res
                &&& final(out)@ == old(out)@ + t.steps
            }),
            ctx_wf(final(self).vw()),
            final(self).expr_regs@.len() == old(self).expr_regs@.len(),
            final(self).var_regs@.len() == old(self).var_regs@.len(),
            final(self).variables@ == old(self).variables@,
            final(self).show_asm == old(self).show_asm,
        decreases esize(*left) + esize(*right), 9int,
    {
        let ghost t = sp_binary_inner(old(self).vw(), eid, espan, op, *left, *right, is_assign,
            top, extra, exists_vd, bit_length);
        if !top && is_assign {
            proof {
                assert(final(out)@ =~= old(out)@ + t.steps);
            }
            return Err(
                CodegenError::User(UserError { span: espan, kind: UserErrorKind::NestedAssignOp }),
            );
        }
        let wl = left.ty.width();
        let wr = right.ty.width();
        if top && (wl == 0 || wr == 0) {
            proof {
                assert(final(out)@ =~= old(out)@ + t.steps);
            }
            return Ok(LoweredKind::Passthrough);
        }
        if top && wl != wr {
            proof {
                assert(final(out)@ =~= old(out)@ + t.steps);
            }
            return Err(
                CodegenError::User(UserError { span: espan, kind: UserErrorKind::WidthMismatch }),
            );
        }
        let blx = if top {
            wl
        } else {
            bit_length
        };
        let ghost ops = sp_binary_operands(old(self).vw(), *left, *right, blx);
        let r23 = self.gen_binary_operands(out, left, right, blx);
        proof {
            assert(self.vw() == ops.ctx);
            assert(r23 == ops.res);
            assert(out@ == old(out)@ + ops.steps);
        }
        match r23 {
            Err(e2) => {
                proof {
                    assert(final(out)@ =~= old(out)@ + t.steps);
                }
                return Err(e2);
            },
            Ok(()) => {},
        }
        let ghost tl = sp_binary_tail(ops.ctx, eid, espan, op, left.id, right.id, is_assign, top,
            extra, exists_vd, blx);
        let r4 = self.gen_binary_tail(out, eid, espan, op, left.id, right.id, is_assign, top,
            extra, exists_vd, blx);
        proof {
            assert(self.vw() == tl.ctx);
            assert(t.ctx == tl.ctx);
            assert(t.res == tl.res);
            assert(t.steps == ops.steps + tl.steps);
            assert(final(out)@ =~= old(out)@ + t.steps);
        }
        r4
    }

    /// Configuration update and materialization of both operands of a
    /// binary form.
    #[verifier::rlimit(100)]
    #[verifier::spinoff_prover]
    fn gen_binary_operands(&mut self, out: &mut Vec<AsmStep>, left: &TypedExpr,
        right: &TypedExpr, blx: u16) -> (r: Result<(), CodegenError>)
        requires
            ctx_wf(old(self).vw()),
            expr_bounded(
                *left,
                old(self).expr_regs@.len() as int,
                old(self).variables@.len() as int,
            ),
            expr_bounded(
                *right,
                old(self).expr_regs@.len() as int,
                old(self).variables@.len() as int,
            ),
        ensures
            ({
                let ops = sp_binary_operands(old(self).vw(), *left, *right, blx);
                &&& final(self).vw() == ops.ctx
                &&& r == ops.res
                &&& final(out)@ == old(out)@ + ops.steps
            }),
            ctx_wf(final(self).vw()),
            final(self).expr_regs@.len() == old(self).expr_regs@.len(),
            final(self).var_regs@.len() == old(self).var_regs@.len(),
            final(self).variables@ == old(self).variables@,
            final(self).show_asm == old(self).show_asm,
        decreases esize(*left) + esize(*right), 8int,
    {
        let ghost vc = sp_update_vconfig(old(self).vw(), blx);
        self.update_vconfig(out, blx);
        proof {
            assert(self.vw() == vc.0);
            assert(out@ == old(out)@ + vc.1);
        }
        let ghost o2 = sp_operand(vc.0, *left, blx);
        let r2 = self.gen_operand(out, left, blx);
        proof {
            assert(self.vw() == o2.ctx);
            assert(out@ =~= old(out)@ + (vc.1 + o2.steps));
        }
        match r2 {
            Err(e2) => {
                return Err(e2);
            },
            Ok(()) => {},
        }
        let ghost o3 = sp_operand(o2.ctx, *right, blx);
        let r3 = self.gen_operand(out, right, blx);
        proof {
            assert(self.vw() == o3.ctx);
            assert(out@ =~= old(out)@ + (vc.1 + o2.steps + o3.steps));
        }
        r3
    }

    /// Lower a big-integer method call (see `sp_method`).
    #[verifier::rlimit(100)]
    #[verifier::spinoff_prover]
    fn gen_method_call_tokens(&mut self, out: &mut Vec<AsmStep>, expr: &TypedExpr, top: bool,
        extra: Option<usize>, bit_length: u16) -> (r: Result<LoweredKind, CodegenError>)
        requires
            ctx_wf(old(self).vw()),
            expr_bounded(
                *expr,
                old(self).expr_regs@.len() as int,
                old(self).variables@.len() as int,
            ),
            expr.kind is MethodCall,
            match extra {
                Some(x) => x < old(self).expr_regs@.len(),
                None => true,
            },
        ensures
            ({
                let t = sp_method(old(self).vw(), *expr, top, extra, bit_length);
                &&& final(self).vw() == t.ctx
                &&& r == t.res
                &&& final(out)@ == old(out)@ + t.steps
            }),
            ctx_wf(final(self).vw()),
            final(self).expr_regs@.len() == old(self).expr_regs@.len(),
            final(self).var_regs@.len() == old(self).var_regs@.len(),
            final(self).variables@ == old(self).variables@,
            final(self).show_asm == old(self).show_asm,
        decreases esize(*expr), 3int,
    {
        let ghost t = sp_method(old(self).vw(), *expr, top, extra, bit_length);
        match &expr.kind {
            ExprKind::MethodCall { method, receiver, arg } => {
                let rbl0 = receiver.ty.width();
                let rbl: u16 = if rbl0 != 0 {
                    rbl0
                } else {
                    match self.expr_regs[expr.id] {
                        Some(info) => info.bit_length,
                        None => 0,
                    }
                };
                let blx = if top {
                    rbl
                } else {
                    bit_length
                };
                if blx == 0 {
                    proof {
                        assert(final(out)@ =~= old(out)@ + t.steps);
                    }
                    return Ok(LoweredKind::Passthrough);
                }
                let m = match method {
                    None => {
                        proof {
                            assert(final(out)@ =~= old(out)@ + t.steps);
                        }
                        return Ok(LoweredKind::Passthrough);
                    },
                    Some(m0) => *m0,
                };
                proof {
                    assert(expr_bounded(
                        **receiver,
                        old(self).expr_regs@.len() as int,
                        old(self).variables@.len() as int,
                    ));
                    assert(expr_bounded(
                        **arg,
                        old(self).expr_regs@.len() as int,
                        old(self).variables@.len() as int,
                    ));
                }
                let ghost vc = sp_update_vconfig(old(self).vw(), blx);
                self.update_vconfig(out, blx);
                proof {
                    assert(self.vw() == vc.0);
                    assert(out@ == old(out)@ + vc.1);
                }
                let ghost o2 = sp_operand(vc.0, **receiver, blx);
                let r2 = self.gen_operand(out, receiver, blx);
                proof {
                    assert(self.vw() == o2.ctx);
                    assert(out@ =~= old(out)@ + (vc.1 + o2.steps));
                }
                match r2 {
                    Err(e2) => {
                        proof {
                            assert(final(out)@ =~= old(out)@ + t.steps);
                        }
                        return Err(e2);
                    },
                    Ok(()) => {},
                }
                let ghost o3 = sp_operand(o2.ctx, **arg, blx);
                let r3 = self.gen_operand(out, arg, blx);
                proof {
                    assert(self.vw() == o3.ctx);
                    assert(out@ =~= old(out)@ + (vc.1 + o2.steps + o3.steps));
                }
                match r3 {
                    Err(e3) => {
                        proof {
                            assert(final(out)@ =~= old(out)@ + t.steps);
                        }
                        return Err(e3);
                    },
                    Ok(()) => {},
                }
                let ghost tl = sp_method_tail(o3.ctx, expr.id, expr.span, m, receiver.id, arg.id,
                    top, extra, blx);
                let r4 = self.gen_method_tail(out, expr.id, expr.span, m, receiver.id, arg.id,
                    top, extra, blx);
                proof {
                    assert(self.vw() == tl.ctx);
                    assert(t.ctx == tl.ctx);
                    assert(t.res == tl.res);
                    assert(t.steps == (vc.1 + o2.steps + o3.steps) + tl.steps);
                    assert(final(out)@ =~= old(out)@ + t.steps);
                }
                r4
            },
            _ => {
                proof {
                    assert(final(out)@ =~= old(out)@ + t.steps);
                }
                Err(
                    CodegenError::User(
                        UserError { span: expr.span, kind: UserErrorKind::InvalidExpression },
                    ),
                )
            },
        }
    }

    /// Recipe dispatch and retirement for a method call (see
    /// `sp_method_tail`).
    #[verifier::rlimit(100)]
    #[verifier::spinoff_prover]
    fn gen_method_tail(&mut self, out: &mut Vec<AsmStep>, eid: usize, espan: u64, m: MethodOp,
        rid: usize, aid: usize, top: bool, extra: Option<usize>, blx: u16) -> (r: Result<
        LoweredKind,
        CodegenError,
    >)
        requires
            ctx_wf(old(self).vw()),
            eid < old(self).expr_regs@.len(),
            rid < old(self).expr_regs@.len(),
            aid < old(self).expr_regs@.len(),
            match extra {
                Some(x) => x < old(self).expr_regs@.len(),
                None => true,
            },
        ensures
            ({
                let t = sp_method_tail(old(self).vw(), eid, espan, m, rid, aid, top, extra, blx);
                &&& final(self).vw() == t.ctx
                &&& r == t.res
                &&& final(out)@ == old(out)@ + t.steps
            }),
            ctx_wf(final(self).vw()),
            final(self).expr_regs@.len() == old(self).expr_regs@.len(),
            final(self).var_regs@.len() == old(self).var_regs@.len(),
            final(self).variables@ == old(self).variables@,
            final(self).show_asm == old(self).show_asm,
    {
        let ghost t = sp_method_tail(old(self).vw(), eid, espan, m, rid, aid, top, extra, blx);
        let bi_r = self.expr_regs[rid];
        let bi_a = self.expr_regs[aid];
        let (bri, bai) = match (bi_r, bi_a) {
            (Some(a), Some(b)) => (a, b),
            _ => {
                proof {
                    assert(final(out)@ =~= old(out)@ + t.steps);
                }
                return Err(
                    CodegenError::Internal(InternalError::MissingBinding { expr_id: eid }),
                );
            },
        };
        if bri.bit_length != bai.bit_length {
            proof {
                assert(final(out)@ =~= old(out)@ + t.steps);
            }
            return Err(CodegenError::Internal(InternalError::BindingWidth { expr_id: eid }));
        }
        let vs2 = bri.number;
        let vs1 = bai.number;
        let vd = match self.allocate_reg() {
            None => {
                proof {
                    assert(final(out)@ =~= old(out)@ + t.steps);
                }
                return Err(
                    CodegenError::User(
                        UserError { span: espan, kind: UserErrorKind::OutOfRegisters },
                    ),
                );
            },
            Some(vd0) => vd0,
        };
        self.expr_regs[eid] = Some(
            RegInfo { number: vd, bit_length: bri.bit_length, is_freed: false, var: None },
        );
        match extra {
            Some(xid) => {
                let cur = self.expr_regs[eid];
                match cur {
                    Some(info) => {
                        self.expr_regs[xid] = Some(info);
                    },
                    None => {},
                }
            },
            None => {},
        }
        let ivv = Ivv { vd, vs2, vs1, vm: false };
        let r4 = self.method_dispatch(out, m, ivv, blx, espan);
        match r4 {
            Err(e4) => {
                proof {
                    assert(final(out)@ =~= old(out)@ + t.steps);
                }
                return Err(e4);
            },
            Ok(()) => {},
        }
        let fr = self.free_sub_exprs(eid, rid, aid);
        match fr {
            Err(e5) => {
                proof {
                    assert(final(out)@ =~= old(out)@ + t.steps);
                }
                return Err(e5);
            },
            Ok(()) => {},
        }
        let simple = method_simple_inst(m, ivv).is_some();
        if top && simple {
            match self.free_own(eid) {
                Err(e6) => {
                    proof {
                        assert(final(out)@ =~= old(out)@ + t.steps);
                    }
                    Err(e6)
                },
                Ok(vreg) => {
                    vstore_codegen(out, vreg, blx, self.show_asm);
                    proof {
                        assert(final(out)@ =~= old(out)@ + t.steps);
                    }
                    Ok(LoweredKind::Code)
                },
            }
        } else {
            proof {
                assert(final(out)@ =~= old(out)@ + t.steps);
            }
            Ok(LoweredKind::Code)
        }
    }

    /// Lower one expression, appending the emitted steps to `out`.  The
    /// result, the steps and the engine's new state are exactly
    /// `sp_lower` of the starting state and the expression.
    #[verifier::rlimit(100)]
    #[verifier::spinoff_prover]
    pub fn gen_tokens(&mut self, out: &mut Vec<AsmStep>, expr: &TypedExpr, top_level: bool,
        extra_bind_id: Option<usize>, exists_vd: Option<u8>, bit_length: u16) -> (r: Result<
        LoweredKind,
        CodegenError,
    >)
        requires
            ctx_wf(old(self).vw()),
            expr_bounded(
                *expr,
                old(self).expr_regs@.len() as int,
                old(self).variables@.len() as int,
            ),
            match extra_bind_id {
                Some(x) => x < old(self).expr_regs@.len(),
                None => true,
            },
        ensures
            ({
                let t = sp_lower(old(self).vw(), *expr, top_level, extra_bind_id, exists_vd,
                    bit_length);
                &&& final(self).vw() == t.ctx
                &&& r == t.res
                &&& final(out)@ == old(out)@ + t.steps
            }),
            ctx_wf(final(self).vw()),
            final(self).expr_regs@.len() == old(self).expr_regs@.len(),
            final(self).var_regs@.len() == old(self).var_regs@.len(),
            final(self).variables@ == old(self).variables@,
            final(self).show_asm == old(self).show_asm,
        decreases esize(*expr), 4int,
    {
        let ghost t = sp_lower(old(self).vw(), *expr, top_level, extra_bind_id, exists_vd,
            bit_length);
        match &expr.kind {
            ExprKind::Assign { left, right } => {
                proof {
                    assert(expr_bounded(
                        **left,
                        old(self).expr_regs@.len() as int,
                        old(self).variables@.len() as int,
                    ));
                    assert(expr_bounded(
                        **right,
                        old(self).expr_regs@.len() as int,
                        old(self).variables@.len() as int,
                    ));
                }
                match &left.kind {
                    ExprKind::Var { var } => {
                        let v = *var;
                        match self.var_regs[v] {
                            Some(vd) => {
                                proof {
                                    assert(esize(*expr) == 1 + esize(**left) + esize(**right));
                                }
                                let r0 = self.gen_tokens(out, right, true, None, Some(vd),
                                    bit_length);
                                proof {
                                    assert(self.vw() == t.ctx);
                                }
                                r0
                            },
                            None => {
                                proof {
                                    assert(final(out)@ =~= old(out)@ + t.steps);
                                }
                                Ok(LoweredKind::Passthrough)
                            },
                        }
                    },
                    _ => {
                        proof {
                            assert(final(out)@ =~= old(out)@ + t.steps);
                        }
                        Ok(LoweredKind::Passthrough)
                    },
                }
            },
            ExprKind::AssignOp { op, left, right } => {
                proof {
                    assert(esize(*expr) == 1 + esize(**left) + esize(**right));
                    assert(expr_bounded(
                        **left,
                        old(self).expr_regs@.len() as int,
                        old(self).variables@.len() as int,
                    ));
                    assert(expr_bounded(
                        **right,
                        old(self).expr_regs@.len() as int,
                        old(self).variables@.len() as int,
                    ));
                }
                let rb = self.gen_binary_inner(out, expr.id, expr.span, *op, left, right, true,
                    top_level, extra_bind_id, exists_vd, bit_length);
                proof {
                    assert(t == sp_binary(old(self).vw(), *expr, top_level, extra_bind_id,
                        exists_vd, bit_length));
                    assert(sp_binary(old(self).vw(), *expr, top_level, extra_bind_id, exists_vd,
                        bit_length) == sp_binary_inner(old(self).vw(), expr.id, expr.span, *op,
                        **left, **right, true, top_level, extra_bind_id, exists_vd, bit_length));
                    assert(self.vw() == t.ctx);
                }
                rb
            },
            ExprKind::Binary { op, left, right } => {
                proof {
                    assert(esize(*expr) == 1 + esize(**left) + esize(**right));
                    assert(expr_bounded(
                        **left,
                        old(self).expr_regs@.len() as int,
                        old(self).variables@.len() as int,
                    ));
                    assert(expr_bounded(
                        **right,
                        old(self).expr_regs@.len() as int,
                        old(self).variables@.len() as int,
                    ));
                }
                let rb = self.gen_binary_inner(out, expr.id, expr.span, *op, left, right, false,
                    top_level, extra_bind_id, exists_vd, bit_length);
                proof {
                    assert(t == sp_binary(old(self).vw(), *expr, top_level, extra_bind_id,
                        exists_vd, bit_length));
                    assert(sp_binary(old(self).vw(), *expr, top_level, extra_bind_id, exists_vd,
                        bit_length) == sp_binary_inner(old(self).vw(), expr.id, expr.span, *op,
                        **left, **right, false, top_level, extra_bind_id, exists_vd, bit_length));
                    assert(self.vw() == t.ctx);
                }
                rb
            },
            ExprKind::MethodCall { method, receiver, arg } => {
                let rm = self.gen_method_call_tokens(out, expr, top_level, extra_bind_id,
                    bit_length);
                proof {
                    assert(self.vw() == t.ctx);
                }
                rm
            },
            ExprKind::Paren { inner } => {
                proof {
                    assert(esize(*expr) == 1 + esize(**inner));
                    assert(expr_bounded(
                        **inner,
                        old(self).expr_regs@.len() as int,
                        old(self).variables@.len() as int,
                    ));
                }
                let rp = self.gen_tokens(out, inner, top_level, Some(expr.id), exists_vd,
                    bit_length);
                proof {
                    assert(self.vw() == t.ctx);
                }
                rp
            },
            ExprKind::Var { var } => {
                let v = *var;
                if top_level {
                    match self.var_regs[v] {
                        Some(vreg) => {
                            match self.find_reg_binding(vreg) {
                                Some(info) => {
                                    vstore_codegen(out, vreg, info.bit_length, self.show_asm);
                                    proof {
                                        assert(final(out)@ =~= old(out)@ + t.steps);
                                    }
                                    Ok(LoweredKind::Code)
                                },
                                None => {
                                    proof {
                                        assert(final(out)@ =~= old(out)@ + t.steps);
                                    }
                                    Ok(LoweredKind::Passthrough)
                                },
                            }
                        },
                        None => {
                            proof {
                                assert(final(out)@ =~= old(out)@ + t.steps);
                            }
                            Ok(LoweredKind::Passthrough)
                        },
                    }
                } else {
                    proof {
                        assert(final(out)@ =~= old(out)@ + t.steps);
                    }
                    Ok(LoweredKind::Passthrough)
                }
            },
            ExprKind::Opaque => {
                proof {
                    assert(final(out)@ =~= old(out)@ + t.steps);
                }
                Err(
                    CodegenError::User(
                        UserError { span: expr.span, kind: UserErrorKind::InvalidExpression },
                    ),
                )
            },
        }
    }
}


/// The preloading of the used big-integer function arguments, narrowest
/// width first: for each, one configuration update if needed, a fresh
/// register, and a load through the scratch address register.
pub open spec fn sp_inputs(v: CtxView, args: Seq<FnArg>, width: u16, i: int) -> StepsOut
    decreases args.len() - i,
{
    if i < 0 || i >= args.len() {
        StepsOut { ctx: v, res: Ok(()), steps: Seq::<AsmStep>::empty() }
    } else {
        let a = args[i];
        let take = a.var < v.vars.len() && v.vars[a.var as int].used && v.vars[
            a.var as int].ty.spec_width() == width;
        if !take {
            sp_inputs(v, args, width, i + 1)
        } else {
            let vc = sp_update_vconfig(v, width);
            let (alloc_r, pool2) = sp_allocate(vc.0.pool);
            match alloc_r {
                None => StepsOut {
                    ctx: vc.0,
                    res: Err(
                        CodegenError::User(
                            UserError { span: a.span, kind: UserErrorKind::OutOfRegisters },
                        ),
                    ),
                    steps: vc.1,
                },
                Some(vreg) => {
                    let vle = VInst::VleV { width, vd: vreg, vm: false };
                    let v2 = CtxView {
                        pool: pool2,
                        var_regs: vc.0.var_regs.update(a.var as int, Some(vreg)),
                        ..vc.0
                    };
                    let steps = vc.1 + (if v.show {
                        seq![AsmStep::Comment(vle)]
                    } else {
                        Seq::<AsmStep>::empty()
                    }) + seq![AsmStep::LoadVar { inst: vle, var: a.var }];
                    let rest = sp_inputs(v2, args, width, i + 1);
                    StepsOut { ctx: rest.ctx, res: rest.res, steps: steps + rest.steps }
                },
            }
        }
    }
}

impl CodegenContext {
    /// One width pass of the argument preloading.
    #[verifier::rlimit(50)]
    fn gen_inputs_pass(&mut self, out: &mut Vec<AsmStep>, args: &Vec<FnArg>, width: u16) -> (r:
        Result<(), CodegenError>)
        requires
            ctx_wf(old(self).vw()),
        ensures
            ({
                let t = sp_inputs(old(self).vw(), args@, width, 0);
                &&& final(self).vw() == t.ctx
                &&& r == t.res
                &&& final(out)@ == old(out)@ + t.steps
            }),
            ctx_wf(final(self).vw()),
            final(self).expr_regs@.len() == old(self).expr_regs@.len(),
            final(self).variables@ == old(self).variables@,
    {
        let n = args.len();
        let mut i: usize = 0;
        let ghost t = sp_inputs(old(self).vw(), args@, width, 0);
        while i < n
            invariant
                i <= n,
                n == args@.len(),
                ctx_wf(self.vw()),
                self.expr_regs@.len() == old(self).expr_regs@.len(),
                self.variables@ == old(self).variables@,
                t == sp_inputs(old(self).vw(), args@, width, 0),
                ({
                    let rest = sp_inputs(self.vw(), args@, width, i as int);
                    &&& t.ctx == rest.ctx
                    &&& t.res == rest.res
                    &&& out@ + rest.steps == old(out)@ + t.steps
                }),
            decreases n - i,
        {
            let a = args[i];
            let take = a.var < self.variables.len() && self.variables[a.var].used
                && self.variables[a.var].ty.width() == width;
            if take {
                let ghost v0 = self.vw();
                self.update_vconfig(out, width);
                match self.allocate_reg() {
                    None => {
                        proof {
                            assert(final(out)@ =~= old(out)@ + t.steps);
                        }
                        return Err(
                            CodegenError::User(
                                UserError { span: a.span, kind: UserErrorKind::OutOfRegisters },
                            ),
                        );
                    },
                    Some(vreg) => {
                        let vle = VInst::VleV { width, vd: vreg, vm: false };
                        if self.show_asm {
                            out.push(AsmStep::Comment(vle));
                        }
                        out.push(AsmStep::LoadVar { inst: vle, var: a.var });
                        self.var_regs[a.var] = Some(vreg);
                        proof {
                            let rest0 = sp_inputs(v0, args@, width, i as int);
                            let rest1 = sp_inputs(self.vw(), args@, width, i + 1);
                            assert(rest0.ctx == rest1.ctx && rest0.res == rest1.res);
                            assert(out@ + rest1.steps =~= old(out)@ + t.steps);
                        }
                    },
                }
            } else {
                proof {
                    assert(sp_inputs(self.vw(), args@, width, i as int) == sp_inputs(self.vw(),
                        args@, width, i + 1));
                }
            }
            i += 1;
        }
        proof {
            assert(final(out)@ =~= old(out)@ + t.steps);
        }
        Ok(())
    }

    /// Preload the used big-integer function arguments into registers,
    /// narrowest width first, emitting a configuration update and one load
    /// for each.
    pub fn gen_inputs_tokens(&mut self, out: &mut Vec<AsmStep>, args: &Vec<FnArg>) -> (r: Result<
        (),
        CodegenError,
    >)
        requires
            ctx_wf(old(self).vw()),
        ensures
            ctx_wf(final(self).vw()),
            final(self).expr_regs@.len() == old(self).expr_regs@.len(),
            final(self).variables@ == old(self).variables@,
            ({
                let t1 = sp_inputs(old(self).vw(), args@, 256, 0);
                match t1.res {
                    Err(e) => final(self).vw() == t1.ctx && r == Err::<(), CodegenError>(e)
                        && final(out)@ == old(out)@ + t1.steps,
                    Ok(u) => {
                        let t2 = sp_inputs(t1.ctx, args@, 512, 0);
                        match t2.res {
                            Err(e) => final(self).vw() == t2.ctx && r == Err::<(), CodegenError>(e)
                                && final(out)@ == old(out)@ + t1.steps + t2.steps,
                            Ok(u2) => {
                                let t3 = sp_inputs(t2.ctx, args@, 1024, 0);
                                final(self).vw() == t3.ctx && r == t3.res && final(out)@ == old(
                                    out,
                                )@ + t1.steps + t2.steps + t3.steps
                            },
                        }
                    },
                }
            }),
    {
        let r1 = self.gen_inputs_pass(out, args, 256);
        match r1 {
            Err(e) => {
                return Err(e);
            },
            Ok(()) => {},
        }
        let r2 = self.gen_inputs_pass(out, args, 512);
        match r2 {
            Err(e) => {
                return Err(e);
            },
            Ok(()) => {},
        }
        self.gen_inputs_pass(out, args, 1024)
    }

    /// Lower one top-level expression into `out`.
    pub fn lower_expression(&mut self, out: &mut Vec<AsmStep>, expr: &TypedExpr) -> (r: Result<
        LoweredKind,
        CodegenError,
    >)
        requires
            ctx_wf(old(self).vw()),
            expr_bounded(
                *expr,
                old(self).expr_regs@.len() as int,
                old(self).variables@.len() as int,
            ),
        ensures
            ({
                let t = sp_lower(old(self).vw(), *expr, true, None, None, 0);
                &&& final(self).vw() == t.ctx
                &&& r == t.res
                &&& final(out)@ == old(out)@ + t.steps
            }),
            ctx_wf(final(self).vw()),
    {
        self.gen_tokens(out, expr, true, None, None, 0)
    }
}

/// The initial engine state for a given variable table and tree size.
pub open spec fn sp_fresh_ctx(vars: Seq<Variable>, num_exprs: nat, show: bool) -> CtxView {
    CtxView {
        pool: Seq::new(32, |i: int| i == 0),
        config: None,
        var_regs: Seq::new(vars.len(), |i: int| None),
        expr_regs: Seq::new(num_exprs, |i: int| None),
        vars: vars,
        show: show,
    }
}

/// Re-lowering is idempotent: the steps a fresh engine emits for an
/// expression tree are a function of the tree, the variable table, the tree
/// size and the annotation flag alone, so two runs from fresh engines give
/// the same steps, and therefore byte-identical encodings.
pub proof fn lemma_relowering_identical(vars: Seq<Variable>, num_exprs: nat, show: bool,
    e: TypedExpr, steps1: Seq<AsmStep>, steps2: Seq<AsmStep>)
    requires
        steps1 == sp_lower(sp_fresh_ctx(vars, num_exprs, show), e, true, None, None, 0).steps,
        steps2 == sp_lower(sp_fresh_ctx(vars, num_exprs, show), e, true, None, None, 0).steps,
    ensures
        steps1 == steps2,
        forall|i: int|
            0 <= i < steps1.len() ==> #[trigger] steps1[i] == steps2[i],
{
}

} // verus!
