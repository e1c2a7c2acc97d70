//! Instruction semantics: the meaning of the emitted steps over
//! arbitrary-precision values, the correctness of the arithmetic idioms, and
//! a small reference evaluator for exercising lowered output.
//!
//! The idiom lemmas state, over mathematical integers, that the
//! multi-instruction recipes compute the checked/overflowing/saturating
//! semantics they stand for, for every pair of in-range operands of any
//! element width.  The evaluator executes a step sequence over one lane of
//! machine words, for the toy element widths (up to 64 bits) used to
//! illustrate the recipes; the mask-scan convention is that a found first
//! set bit yields scalar zero and sets the host flag.

use vstd::prelude::*;
use vstd::arithmetic::div_mod::{
    lemma_small_mod, lemma_fundamental_div_mod_converse, lemma_fundamental_div_mod_converse_mod,
    lemma_div_is_ordered, lemma_div_multiples_vanish, lemma_mod_bound,
};
use crate::codegen::AsmStep;
use crate::inst::VInst;

verus! {

/// The recipe flag of the overflowing/checked add: the wrapped sum is below
/// the left operand exactly when the true sum overflows, and the wrapped sum
/// is the true sum less the modulus in that case.
pub proof fn lemma_overflowing_add_idiom(m: int, a: int, b: int)
    requires
        0 < m,
        0 <= a < m,
        0 <= b < m,
    ensures
        ((a + b) % m < a) <==> (a + b >= m),
        (a + b) % m == (if a + b < m {
            a + b
        } else {
            a + b - m
        }),
{
    if a + b < m {
        lemma_small_mod((a + b) as nat, m as nat);
    } else {
        lemma_fundamental_div_mod_converse_mod(a + b, m, 1, a + b - m);
    }
}

/// The recipe flag of the overflowing/checked sub: comparing the original
/// operands detects underflow, and the wrapped difference adds back the
/// modulus exactly then.
pub proof fn lemma_overflowing_sub_idiom(m: int, a: int, b: int)
    requires
        0 < m,
        0 <= a < m,
        0 <= b < m,
    ensures
        (a - b) % m == (if a >= b {
            a - b
        } else {
            a - b + m
        }),
{
    if a >= b {
        lemma_small_mod((a - b) as nat, m as nat);
    } else {
        lemma_fundamental_div_mod_converse_mod(a - b, m, -1, a - b + m);
    }
}

/// The divisor-and-quotient test of the multiplying recipes: with a non-zero
/// right operand, dividing the wrapped product by it recovers the left
/// operand exactly when the true product did not overflow.
pub proof fn lemma_mul_check_idiom(m: int, a: int, b: int)
    requires
        0 < m,
        0 <= a < m,
        0 <= b < m,
        b != 0,
    ensures
        (((a * b) % m) / b == a) <==> (a * b < m),
{
    let p = (a * b) % m;
    if a * b < m {
        lemma_small_mod((a * b) as nat, m as nat);
        lemma_div_multiples_vanish(a, b);
        assert(b * a == a * b) by (nonlinear_arith);
    } else {
        lemma_mod_bound(a * b, m);
        assert(p <= a * b - 1);
        assert(a * b - 1 == b * (a - 1) + (b - 1)) by (nonlinear_arith);
        lemma_fundamental_div_mod_converse(a * b - 1, b, a - 1, b - 1);
        lemma_div_is_ordered(p, a * b - 1, b);
        assert(p / b <= a - 1);
    }
}

/// Saturating multiplication: the recipe yields the wrapped product when no
/// overflow happened and the largest representable value otherwise, which is
/// the smaller of the true product and the width's maximum.
pub proof fn lemma_saturating_mul_idiom(m: int, a: int, b: int)
    requires
        0 < m,
        0 <= a < m,
        0 <= b < m,
    ensures
        (if b == 0 || ((a * b) % m) / b == a {
            (a * b) % m
        } else {
            m - 1
        }) == (if a * b < m {
            a * b
        } else {
            m - 1
        }),
{
    if b == 0 {
        assert(a * b == 0) by (nonlinear_arith)
            requires
                b == 0,
        ;
        lemma_small_mod(0nat, m as nat);
    } else {
        lemma_mul_check_idiom(m, a, b);
        if a * b < m {
            lemma_small_mod((a * b) as nat, m as nat);
        }
    }
}

/// The checked div/rem guard: the divisor's zero test gates the operation,
/// and a non-zero divisor gives the exact quotient, which is in range.
pub proof fn lemma_checked_div_idiom(m: int, a: int, b: int)
    requires
        0 < m,
        0 <= a < m,
        0 <= b < m,
        b != 0,
    ensures
        0 <= a / b < m,
        a % b < m,
{
    lemma_div_is_ordered(a, a, b);
    assert(a / b <= a) by {
        vstd::arithmetic::div_mod::lemma_div_nonincreasing(a, b);
    }
    assert(a / b >= 0) by {
        vstd::arithmetic::div_mod::lemma_div_pos_is_pos(a, b);
    }
    lemma_mod_bound(a, b);
}

/// The value the evaluator holds in each lane: all arithmetic is reduced to
/// the configured element width.
pub enum SimValue {
    /// No top-level value was produced.
    Unit,
    /// A stored integer result.
    Word(u128),
    /// A checked recipe declined to produce a value.
    NoValue,
    /// An overflowing recipe's value and flag.
    Pair(u128, bool),
    /// A comparison's boolean.
    Flag(bool),
}

/// The lane modulus of a configured width: `2^width` for the widths the
/// evaluator covers, and 1 (a single zero lane) outside its range.
fn lane_mod(width: u16) -> (r: u128)
    ensures
        1 <= r <= 0x10000000000000000u128,
{
    if width == 0 || width > 64 {
        1
    } else {
        let w: u32 = width as u32;
        let r = 1u128 << w;
        proof {
            assert(1 <= w <= 64 ==> 1u128 <= (1u128 << w) <= 0x10000000000000000u128)
                by (bit_vector);
        }
        r
    }
}

/// Execute a lowered step sequence over one lane.  `var_mem` holds the value
/// of each variable's backing memory, indexed by variable number; a load
/// reads it, a store fills the result buffer.  The scan of a mask yields
/// scalar zero when the mask bit is set, and the host flag captures that.
/// The last yield the control flow reaches is the block's value.
#[verifier::loop_isolation(false)]
pub fn evaluate(steps: &Vec<AsmStep>, var_mem: &Vec<u128>) -> SimValue {
    let mut width: u16 = 0;
    let mut regs: [u128; 32] = [0; 32];
    let mut scan_zero: bool = false;
    let mut flag: bool = false;
    let mut stored: u128 = 0;
    let mut result: SimValue = SimValue::Unit;
    let mut branch_stack: Vec<(bool, bool)> = Vec::new();
    let mut active: bool = true;
    let n = steps.len();
    let mut i: usize = 0;
    while i < n
        decreases n - i,
    {
        let step = steps[i];
        match step {
            AsmStep::IfFlag => {
                branch_stack.push((active, flag));
                active = active && flag;
            },
            AsmStep::ElseFlag => {
                let ln = branch_stack.len();
                if ln > 0 {
                    let (parent, taken) = branch_stack[ln - 1];
                    active = parent && !taken;
                }
            },
            AsmStep::EndIf => {
                match branch_stack.pop() {
                    Some((parent, _)) => {
                        active = parent;
                    },
                    None => {},
                }
            },
            _ => {
                if active {
                    match step {
                        AsmStep::Comment(_) => {},
                        AsmStep::Inst(inst) => {
                            let r = exec_inst(&inst, &regs, width, 0);
                            width = r.0;
                            regs = r.1;
                            scan_zero = r.3;
                        },
                        AsmStep::LoadVar { inst, var } => {
                            let value: u128 = if var < var_mem.len() {
                                var_mem[var]
                            } else {
                                0
                            };
                            let r = exec_inst(&inst, &regs, width, value);
                            width = r.0;
                            regs = r.1;
                            scan_zero = r.3;
                        },
                        AsmStep::StoreBuf { inst, width: w } => {
                            match inst {
                                VInst::VseV { width: _, vs3, vm: _ } => {
                                    stored = regs[(vs3 % 32) as usize] % lane_mod(w);
                                },
                                _ => {},
                            }
                        },
                        AsmStep::CaptureFlag => {
                            flag = scan_zero;
                        },
                        AsmStep::YieldStored => {
                            result = SimValue::Word(stored);
                        },
                        AsmStep::YieldNone => {
                            result = SimValue::NoValue;
                        },
                        AsmStep::YieldPairStored => {
                            result = SimValue::Pair(stored, flag);
                        },
                        AsmStep::YieldBool => {
                            result = SimValue::Flag(flag);
                        },
                        AsmStep::YieldMax { width: w } => {
                            result = SimValue::Word(lane_mod(w) - 1);
                        },
                        _ => {},
                    }
                }
            },
        }
        i += 1;
    }
    result
}

/// One instruction's effect: the new configuration, register file and scan
/// state.  `mem_in` is the value behind the scratch address register for a
/// load.
fn exec_inst(inst: &VInst, regs: &[u128; 32], width: u16, mem_in: u128) -> (r: (
    u16,
    [u128; 32],
    u128,
    bool,
)) {
    let md = lane_mod(width);
    let mut new_regs: [u128; 32] = *regs;
    let mut new_width: u16 = width;
    let mut scan_zero: bool = false;
    match *inst {
        VInst::VConfig { width: w } => {
            new_width = w;
        },
        VInst::VaddVv(o) => {
            let a = regs[(o.vs2 % 32) as usize] % md;
            let b = regs[(o.vs1 % 32) as usize] % md;
            new_regs[(o.vd % 32) as usize] = (a + b) % md;
        },
        VInst::VsubVv(o) => {
            let a = regs[(o.vs2 % 32) as usize] % md;
            let b = regs[(o.vs1 % 32) as usize] % md;
            new_regs[(o.vd % 32) as usize] = if a >= b {
                a - b
            } else {
                a + (md - b)
            };
        },
        VInst::VmulVv(o) => {
            let a = regs[(o.vs2 % 32) as usize] % md;
            let b = regs[(o.vs1 % 32) as usize] % md;
            proof {
                assert(a * b < 0x100000000000000000000000000000000int) by (nonlinear_arith)
                    requires
                        0 <= a < 0x10000000000000000int,
                        0 <= b < 0x10000000000000000int,
                ;
            }
            new_regs[(o.vd % 32) as usize] = (a * b) % md;
        },
        VInst::VdivuVv(o) => {
            let a = regs[(o.vs2 % 32) as usize] % md;
            let b = regs[(o.vs1 % 32) as usize] % md;
            new_regs[(o.vd % 32) as usize] = if b == 0 {
                md - 1
            } else {
                a / b
            };
        },
        VInst::VremuVv(o) => {
            let a = regs[(o.vs2 % 32) as usize] % md;
            let b = regs[(o.vs1 % 32) as usize] % md;
            new_regs[(o.vd % 32) as usize] = if b == 0 {
                a
            } else {
                a % b
            };
        },
        VInst::VxorVv(o) => {
            let a = regs[(o.vs2 % 32) as usize] % md;
            let b = regs[(o.vs1 % 32) as usize] % md;
            new_regs[(o.vd % 32) as usize] = (a ^ b) % md;
        },
        VInst::VandVv(o) => {
            let a = regs[(o.vs2 % 32) as usize] % md;
            let b = regs[(o.vs1 % 32) as usize] % md;
            new_regs[(o.vd % 32) as usize] = (a & b) % md;
        },
        VInst::VorVv(o) => {
            let a = regs[(o.vs2 % 32) as usize] % md;
            let b = regs[(o.vs1 % 32) as usize] % md;
            new_regs[(o.vd % 32) as usize] = (a | b) % md;
        },
        VInst::VsllVv(o) => {
            let a = regs[(o.vs2 % 32) as usize] % md;
            let b = regs[(o.vs1 % 32) as usize] % md;
            new_regs[(o.vd % 32) as usize] = if b >= 128 {
                0
            } else {
                (a << (b as u32)) % md
            };
        },
        VInst::VsrlVv(o) => {
            let a = regs[(o.vs2 % 32) as usize] % md;
            let b = regs[(o.vs1 % 32) as usize] % md;
            new_regs[(o.vd % 32) as usize] = if b >= 128 {
                0
            } else {
                (a >> (b as u32)) % md
            };
        },
        VInst::VsadduVv(o) => {
            let a = regs[(o.vs2 % 32) as usize] % md;
            let b = regs[(o.vs1 % 32) as usize] % md;
            let sum = a + b;
            new_regs[(o.vd % 32) as usize] = if sum >= md {
                md - 1
            } else {
                sum
            };
        },
        VInst::VssubuVv(o) => {
            let a = regs[(o.vs2 % 32) as usize] % md;
            let b = regs[(o.vs1 % 32) as usize] % md;
            new_regs[(o.vd % 32) as usize] = if a >= b {
                a - b
            } else {
                0
            };
        },
        VInst::VmseqVv(o) => {
            let c = (regs[(o.vs2 % 32) as usize] % md) == (regs[(o.vs1 % 32) as usize] % md);
            new_regs[(o.vd % 32) as usize] = if c {
                1
            } else {
                0
            };
        },
        VInst::VmsneVv(o) => {
            let c = (regs[(o.vs2 % 32) as usize] % md) != (regs[(o.vs1 % 32) as usize] % md);
            new_regs[(o.vd % 32) as usize] = if c {
                1
            } else {
                0
            };
        },
        VInst::VmsltuVv(o) => {
            let c = (regs[(o.vs2 % 32) as usize] % md) < (regs[(o.vs1 % 32) as usize] % md);
            new_regs[(o.vd % 32) as usize] = if c {
                1
            } else {
                0
            };
        },
        VInst::VmsleuVv(o) => {
            let c = (regs[(o.vs2 % 32) as usize] % md) <= (regs[(o.vs1 % 32) as usize] % md);
            new_regs[(o.vd % 32) as usize] = if c {
                1
            } else {
                0
            };
        },
        VInst::VmsgeuVv(o) => {
            let c = (regs[(o.vs2 % 32) as usize] % md) >= (regs[(o.vs1 % 32) as usize] % md);
            new_regs[(o.vd % 32) as usize] = if c {
                1
            } else {
                0
            };
        },
        VInst::VmsgtuVv(o) => {
            let c = (regs[(o.vs2 % 32) as usize] % md) > (regs[(o.vs1 % 32) as usize] % md);
            new_regs[(o.vd % 32) as usize] = if c {
                1
            } else {
                0
            };
        },
        VInst::VmseqVi(o) => {
            let c = (regs[(o.vs2 % 32) as usize] % md) == (o.imm as u128) % md;
            new_regs[(o.vd % 32) as usize] = if c {
                1
            } else {
                0
            };
        },
        VInst::VmsneVi(o) => {
            let c = (regs[(o.vs2 % 32) as usize] % md) != (o.imm as u128) % md;
            new_regs[(o.vd % 32) as usize] = if c {
                1
            } else {
                0
            };
        },
        VInst::VfirstM { rd: _, vs2, vm: _ } => {
            scan_zero = regs[(vs2 % 32) as usize] % 2 == 1;
        },
        VInst::VleV { width: _, vd, vm: _ } => {
            new_regs[(vd % 32) as usize] = mem_in % md;
        },
        VInst::VseV { .. } => {},
    }
    (new_width, new_regs, 0, scan_zero)
}

} // verus!
