//! The instruction model: every vector instruction the backend can emit, and
//! its fixed 4-byte encoding.
//!
//! The binary layout follows the base vector instruction formats.  An
//! arithmetic or compare instruction is one 32-bit word:
//!
//! ```text
//! | 31..26 | 25 | 24..20 | 19..15 | 14..12 | 11..7 | 6..0   |
//! | funct6 | vm | vs2    | vs1    | funct3 | vd    | opcode |
//! ```
//!
//! with opcode `0x57`, funct3 selecting the integer vector-vector (0),
//! mask/scalar (2) or vector-immediate (3) form, and bit 25 set when the
//! instruction runs unmasked, which is when the model's masking flag `vm`
//! is clear.  Configuration uses the same opcode with funct3 7 and the type
//! word in bits 30..20; loads and stores use opcodes `0x07`/`0x27` with the
//! element width spread over bits 28 (`mew`) and 14..12, and the shared
//! scratch address register `t0` (`x5`) in bits 19..15.  Every register index
//! is reduced to its five low bits, so encoding is total, and every variant is
//! encoded by arithmetic on its fields alone, so the same instruction always
//! yields the same word.

use vstd::prelude::*;

verus! {

/// Operand registers of a vector-vector instruction; `vm` is the masking
/// flag, clear for an unmasked instruction.
#[derive(Clone, Copy, Debug, PartialEq, Eq, Structural)]
pub struct Ivv {
    pub vd: u8,
    pub vs2: u8,
    pub vs1: u8,
    pub vm: bool,
}

/// Operands of a vector-immediate compare.
#[derive(Clone, Copy, Debug, PartialEq, Eq, Structural)]
pub struct Ivi {
    pub vd: u8,
    pub vs2: u8,
    pub imm: u8,
    pub vm: bool,
}

/// One vector instruction occurrence.
#[derive(Clone, Copy, Debug, PartialEq, Eq, Structural)]
pub enum VInst {
    /// `vsetvli x0, t0, e{width}, m1, ta, ma`: configure the element width.
    VConfig { width: u16 },
    /// `vadd.vv`
    VaddVv(Ivv),
    /// `vsub.vv`
    VsubVv(Ivv),
    /// `vmul.vv`
    VmulVv(Ivv),
    /// `vdivu.vv`
    VdivuVv(Ivv),
    /// `vremu.vv`
    VremuVv(Ivv),
    /// `vxor.vv`
    VxorVv(Ivv),
    /// `vand.vv`
    VandVv(Ivv),
    /// `vor.vv`
    VorVv(Ivv),
    /// `vsll.vv`
    VsllVv(Ivv),
    /// `vsrl.vv`
    VsrlVv(Ivv),
    /// `vsaddu.vv`: saturating unsigned add.
    VsadduVv(Ivv),
    /// `vssubu.vv`: saturating unsigned subtract.
    VssubuVv(Ivv),
    /// `vmseq.vv`: mask of equal lanes.
    VmseqVv(Ivv),
    /// `vmsne.vv`
    VmsneVv(Ivv),
    /// `vmsltu.vv`
    VmsltuVv(Ivv),
    /// `vmsleu.vv`
    VmsleuVv(Ivv),
    /// `vmsgeu.vv`
    VmsgeuVv(Ivv),
    /// `vmsgtu.vv`
    VmsgtuVv(Ivv),
    /// `vmseq.vi`: mask of lanes equal to the immediate.
    VmseqVi(Ivi),
    /// `vmsne.vi`
    VmsneVi(Ivi),
    /// `vfirst.m rd, vs2`: index of the first set mask bit, `-1` if none.
    VfirstM { rd: u8, vs2: u8, vm: bool },
    /// `vle{width}.v vd, (t0)`: load one element from the address in the
    /// scratch register.
    VleV { width: u16, vd: u8, vm: bool },
    /// `vse{width}.v vs3, (t0)`: store one element to the address in the
    /// scratch register.
    VseV { width: u16, vs3: u8, vm: bool },
}

/// The scratch address register `t0` is `x5`.
pub open spec fn scratch_reg() -> int {
    5
}

/// The three-bit element-width selector: `log2(width) - 3`.
pub open spec fn spec_sew_bits(width: u16) -> int {
    if width == 8 {
        0
    } else if width == 16 {
        1
    } else if width == 32 {
        2
    } else if width == 64 {
        3
    } else if width == 128 {
        4
    } else if width == 256 {
        5
    } else if width == 512 {
        6
    } else if width == 1024 {
        7
    } else {
        0
    }
}

/// An arithmetic or compare word from its fields (each register reduced to
/// five bits).
pub open spec fn spec_op_word(funct6: u32, vm: bool, vs2: u8, vs1: u8, funct3: u32, vd: u8) -> int {
    (funct6 % 64) * 0x4000000 + (if vm {
        0u32
    } else {
        0x2000000u32
    }) + ((vs2 as u32) % 32) * 0x100000 + ((vs1 as u32) % 32) * 0x8000 + (funct3 % 8) * 0x1000 + ((
    vd as u32) % 32) * 0x80 + 0x57
}

/// A unit-stride memory word: `mew` in bit 28, width selector in bits 14..12,
/// the scratch register as the address base.
pub open spec fn spec_mem_word(opcode: u32, width: u16, vm: bool, vreg: u8) -> int {
    (if width > 128 {
        0x10000000u32
    } else {
        0u32
    }) + (if vm {
        0u32
    } else {
        0x2000000u32
    }) + scratch_reg() * 0x8000 + (spec_sew_bits(width) % 8) * 0x1000 + ((vreg as u32) % 32) * 0x80
        + opcode
}

/// The `vsetvli` word: type bits 30..20 hold `ta`, `ma` and the width
/// selector; `rd` is `x0` and `rs1` the scratch register.
pub open spec fn spec_config_word(width: u16) -> int {
    (0xc0 + spec_sew_bits(width) * 8) * 0x100000 + scratch_reg() * 0x8000 + 7 * 0x1000 + 0x57
}

/// The encoded 32-bit word of any instruction.
pub open spec fn spec_encode(i: VInst) -> int {
    match i {
        VInst::VConfig { width } => spec_config_word(width),
        VInst::VaddVv(o) => spec_op_word(0x00, o.vm, o.vs2, o.vs1, 0, o.vd),
        VInst::VsubVv(o) => spec_op_word(0x02, o.vm, o.vs2, o.vs1, 0, o.vd),
        VInst::VmulVv(o) => spec_op_word(0x25, o.vm, o.vs2, o.vs1, 2, o.vd),
        VInst::VdivuVv(o) => spec_op_word(0x20, o.vm, o.vs2, o.vs1, 2, o.vd),
        VInst::VremuVv(o) => spec_op_word(0x22, o.vm, o.vs2, o.vs1, 2, o.vd),
        VInst::VxorVv(o) => spec_op_word(0x0b, o.vm, o.vs2, o.vs1, 0, o.vd),
        VInst::VandVv(o) => spec_op_word(0x09, o.vm, o.vs2, o.vs1, 0, o.vd),
        VInst::VorVv(o) => spec_op_word(0x0a, o.vm, o.vs2, o.vs1, 0, o.vd),
        VInst::VsllVv(o) => spec_op_word(0x25, o.vm, o.vs2, o.vs1, 0, o.vd),
        VInst::VsrlVv(o) => spec_op_word(0x28, o.vm, o.vs2, o.vs1, 0, o.vd),
        VInst::VsadduVv(o) => spec_op_word(0x20, o.vm, o.vs2, o.vs1, 0, o.vd),
        VInst::VssubuVv(o) => spec_op_word(0x22, o.vm, o.vs2, o.vs1, 0, o.vd),
        VInst::VmseqVv(o) => spec_op_word(0x18, o.vm, o.vs2, o.vs1, 0, o.vd),
        VInst::VmsneVv(o) => spec_op_word(0x19, o.vm, o.vs2, o.vs1, 0, o.vd),
        VInst::VmsltuVv(o) => spec_op_word(0x1a, o.vm, o.vs2, o.vs1, 0, o.vd),
        VInst::VmsleuVv(o) => spec_op_word(0x1c, o.vm, o.vs2, o.vs1, 0, o.vd),
        VInst::VmsgeuVv(o) => spec_op_word(0x1f, o.vm, o.vs2, o.vs1, 0, o.vd),
        VInst::VmsgtuVv(o) => spec_op_word(0x1e, o.vm, o.vs2, o.vs1, 0, o.vd),
        VInst::VmseqVi(o) => spec_op_word(0x18, o.vm, o.vs2, o.imm, 3, o.vd),
        VInst::VmsneVi(o) => spec_op_word(0x19, o.vm, o.vs2, o.imm, 3, o.vd),
        VInst::VfirstM { rd, vs2, vm } => spec_op_word(0x10, vm, vs2, 0x11, 2, rd),
        VInst::VleV { width, vd, vm } => spec_mem_word(0x07, width, vm, vd),
        VInst::VseV { width, vs3, vm } => spec_mem_word(0x27, width, vm, vs3),
    }
}

/// The four little-endian bytes of an encoded word.
pub open spec fn spec_le_bytes(w: int) -> Seq<u8> {
    seq![(w % 256) as u8, ((w / 256) % 256) as u8, ((w / 65536) % 256) as u8, ((w
        / 16777216) % 256) as u8]
}

/// The element-width selector, executable form.
pub fn sew_bits(width: u16) -> (r: u32)
    ensures
        r == spec_sew_bits(width),
{
    if width == 8 {
        0
    } else if width == 16 {
        1
    } else if width == 32 {
        2
    } else if width == 64 {
        3
    } else if width == 128 {
        4
    } else if width == 256 {
        5
    } else if width == 512 {
        6
    } else if width == 1024 {
        7
    } else {
        0
    }
}

fn op_word(funct6: u32, vm: bool, vs2: u8, vs1: u8, funct3: u32, vd: u8) -> (r: u32)
    ensures
        r == spec_op_word(funct6, vm, vs2, vs1, funct3, vd),
{
    (funct6 % 64) * 0x4000000 + (if vm {
        0u32
    } else {
        0x2000000u32
    }) + ((vs2 as u32) % 32) * 0x100000 + ((vs1 as u32) % 32) * 0x8000 + (funct3 % 8) * 0x1000 + ((
    vd as u32) % 32) * 0x80 + 0x57
}

fn mem_word(opcode: u32, width: u16, vm: bool, vreg: u8) -> (r: u32)
    requires
        opcode <= 0x7f,
    ensures
        r == spec_mem_word(opcode, width, vm, vreg),
{
    (if width > 128 {
        0x10000000u32
    } else {
        0u32
    }) + (if vm {
        0u32
    } else {
        0x2000000u32
    }) + 5 * 0x8000 + (sew_bits(width) % 8) * 0x1000 + ((vreg as u32) % 32) * 0x80 + opcode
}

fn config_word(width: u16) -> (r: u32)
    ensures
        r == spec_config_word(width),
{
    (0xc0 + sew_bits(width) * 8) * 0x100000 + 5 * 0x8000 + 7 * 0x1000 + 0x57
}

impl VInst {
    /// The encoded 32-bit word; equal words come from equal instructions of
    /// this model's fields, and every variant encodes.
    pub fn encode_u32(&self) -> (r: u32)
        ensures
            r == spec_encode(*self),
    {
        match *self {
            VInst::VConfig { width } => config_word(width),
            VInst::VaddVv(o) => op_word(0x00, o.vm, o.vs2, o.vs1, 0, o.vd),
            VInst::VsubVv(o) => op_word(0x02, o.vm, o.vs2, o.vs1, 0, o.vd),
            VInst::VmulVv(o) => op_word(0x25, o.vm, o.vs2, o.vs1, 2, o.vd),
            VInst::VdivuVv(o) => op_word(0x20, o.vm, o.vs2, o.vs1, 2, o.vd),
            VInst::VremuVv(o) => op_word(0x22, o.vm, o.vs2, o.vs1, 2, o.vd),
            VInst::VxorVv(o) => op_word(0x0b, o.vm, o.vs2, o.vs1, 0, o.vd),
            VInst::VandVv(o) => op_word(0x09, o.vm, o.vs2, o.vs1, 0, o.vd),
            VInst::VorVv(o) => op_word(0x0a, o.vm, o.vs2, o.vs1, 0, o.vd),
            VInst::VsllVv(o) => op_word(0x25, o.vm, o.vs2, o.vs1, 0, o.vd),
            VInst::VsrlVv(o) => op_word(0x28, o.vm, o.vs2, o.vs1, 0, o.vd),
            VInst::VsadduVv(o) => op_word(0x20, o.vm, o.vs2, o.vs1, 0, o.vd),
            VInst::VssubuVv(o) => op_word(0x22, o.vm, o.vs2, o.vs1, 0, o.vd),
            VInst::VmseqVv(o) => op_word(0x18, o.vm, o.vs2, o.vs1, 0, o.vd),
            VInst::VmsneVv(o) => op_word(0x19, o.vm, o.vs2, o.vs1, 0, o.vd),
            VInst::VmsltuVv(o) => op_word(0x1a, o.vm, o.vs2, o.vs1, 0, o.vd),
            VInst::VmsleuVv(o) => op_word(0x1c, o.vm, o.vs2, o.vs1, 0, o.vd),
            VInst::VmsgeuVv(o) => op_word(0x1f, o.vm, o.vs2, o.vs1, 0, o.vd),
            VInst::VmsgtuVv(o) => op_word(0x1e, o.vm, o.vs2, o.vs1, 0, o.vd),
            VInst::VmseqVi(o) => op_word(0x18, o.vm, o.vs2, o.imm, 3, o.vd),
            VInst::VmsneVi(o) => op_word(0x19, o.vm, o.vs2, o.imm, 3, o.vd),
            VInst::VfirstM { rd, vs2, vm } => op_word(0x10, vm, vs2, 0x11, 2, rd),
            VInst::VleV { width, vd, vm } => mem_word(0x07, width, vm, vd),
            VInst::VseV { width, vs3, vm } => mem_word(0x27, width, vm, vs3),
        }
    }

    /// The four little-endian bytes of the encoding.
    pub fn encode_bytes(&self) -> (r: [u8; 4])
        ensures
            r@ == spec_le_bytes(spec_encode(*self)),
    {
        let w = self.encode_u32();
        let r: [u8; 4] = [
            (w % 256) as u8,
            ((w / 256) % 256) as u8,
            ((w / 65536) % 256) as u8,
            ((w / 16777216) % 256) as u8,
        ];
        proof {
            assert(r@ =~= spec_le_bytes(spec_encode(*self)));
        }
        r
    }
}

} // verus!
