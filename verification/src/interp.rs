//! The decode/execute engine: fetch the word at the program counter, decode
//! its fields, perform the semantic action, and advance or redirect the
//! program counter. Decode faults and memory-bounds violations are returned
//! as values; the machine state is left untouched by a faulting step.
//!
//! Floating-point arithmetic is not performed here: a floating compute
//! instruction decodes to a [`FloatOp`] that the driver evaluates on the raw
//! bit patterns, handing the result back through [`apply_float_result`].
//! Bit-level floating instructions (register moves and classification) are
//! executed in place.

use vstd::prelude::*;
use vstd::wrapping::u32_specs;

use crate::cpu::{CPUState, Cpu, GPIOState, MEM_SIZE_BYTES, NUM_GPIOS, spec_read_word,
    spec_write_word};

verus! {

/// Execution faults, surfaced as values rather than process aborts.
#[derive(Structural, PartialEq, Eq, Clone, Copy, Debug)]
pub enum Fault {
    /// An opcode outside the defined set, or an unmatched funct or operand
    /// combination within a matched opcode.
    IllegalInstruction,
    /// An address outside the fixed memory or GPIO array.
    MemoryBounds,
    /// A division or remainder with a zero divisor.
    DivideByZero,
}

/// The floating compute operations whose arithmetic the driver supplies.
#[derive(Structural, PartialEq, Eq, Clone, Copy, Debug)]
pub enum FloatOpKind {
    Add,
    Sub,
    Mul,
    Div,
    Sqrt,
    SgnJ,
    SgnJN,
    SgnJX,
    Min,
    Max,
    CvtWS,
    CvtWUS,
    CvtSW,
    CvtSWU,
    Feq,
    Flt,
    Fle,
}

/// A decoded floating compute instruction awaiting its arithmetic result.
#[derive(Structural, PartialEq, Eq, Clone, Copy, Debug)]
pub struct FloatOp {
    pub kind: FloatOpKind,
    pub rd: usize,
    pub rs1: usize,
    pub rs2: usize,
}

/// What one executed step did.
#[derive(Structural, PartialEq, Eq, Clone, Copy, Debug)]
pub enum StepOutcome {
    /// An ordinary instruction completed.
    Next,
    /// An `ecall` was reached; the program counter stays on it.
    Ecall,
    /// A floating compute instruction decoded; the state is unchanged until
    /// the driver applies the result.
    Float(FloatOp),
    /// The step faulted; the state is unchanged.
    Fault(Fault),
}

/// Why a run loop stopped.
#[derive(Structural, PartialEq, Eq, Clone, Copy, Debug)]
pub enum RunOutcome {
    /// An `ecall` with the exit code in the syscall-number register.
    Halted,
    /// The caller-supplied step budget ran out.
    OutOfSteps,
    /// A floating compute instruction needs the driver's arithmetic.
    NeedsFloat(FloatOp),
    /// The machine faulted.
    Faulted(Fault),
}

// ------------------------------------------------------------------
// Field extraction and small arithmetic helpers
// ------------------------------------------------------------------

pub open spec fn f_opcode(w: u32) -> u32 {
    w & 0b1111111
}

pub open spec fn f_rd(w: u32) -> u32 {
    (w >> 7) & 0b11111
}

pub open spec fn f_rs1(w: u32) -> u32 {
    (w >> 15) & 0b11111
}

pub open spec fn f_rs2(w: u32) -> u32 {
    (w >> 20) & 0b11111
}

pub open spec fn f_funct3(w: u32) -> u32 {
    (w >> 12) & 0b111
}

pub open spec fn f_funct7(w: u32) -> u32 {
    (w >> 25) & 0b1111111
}

/// The raw I-format immediate, zero-extended as the integer ALU uses it.
pub open spec fn f_imm_i(w: u32) -> u32 {
    w >> 20
}

/// The S-format immediate assembled from its two fields, before extension.
pub open spec fn f_imm_s(w: u32) -> u32 {
    ((w >> 25) & 0b1111111) << 5 | ((w >> 7) & 0b11111)
}

/// The B-format byte displacement, bit 0 implicitly zero, not sign-extended.
pub open spec fn f_imm_b(w: u32) -> u32 {
    ((w >> 31) & 0b1) << 12 | ((w >> 25) & 0b111111) << 5 | ((w >> 8) & 0b1111) << 1 | ((w >> 7)
        & 0b1) << 11
}

/// The J-format byte displacement, bit 0 implicitly zero, not sign-extended.
pub open spec fn f_imm_j(w: u32) -> u32 {
    ((w >> 31) & 0b1) << 20 | ((w >> 21) & 0b1111111111) << 1 | ((w >> 20) & 0b1) << 11 | ((w
        >> 12) & 0b11111111) << 12
}

/// The U-format immediate: the word arithmetically shifted right by twelve.
pub open spec fn f_imm_u(w: u32) -> i32 {
    (w as i32) >> 12
}

/// Sign extension of a 12-bit immediate to 32 bits.
pub open spec fn sext12(x: u32) -> u32 {
    if x & 0x800 != 0 {
        (x & 0xFFF) | 0xFFFFF000
    } else {
        x & 0xFFF
    }
}

pub open spec fn wadd(a: u32, b: u32) -> u32 {
    u32_specs::wrapping_add(a, b)
}

pub open spec fn wsub(a: u32, b: u32) -> u32 {
    u32_specs::wrapping_sub(a, b)
}

pub open spec fn wmul(a: u32, b: u32) -> u32 {
    u32_specs::wrapping_mul(a, b)
}

/// Two's-complement magnitude of a 32-bit value read as signed.
pub open spec fn mag(a: u32) -> u32 {
    if a >= 0x80000000 {
        (0x100000000 - a) as u32
    } else {
        a
    }
}

/// Two's-complement negation.
pub open spec fn neg32(x: u32) -> u32 {
    ((0x100000000 - x) % 0x100000000) as u32
}

/// Signed division truncating toward zero, as the hardware divider does;
/// the most negative value divided by minus one wraps to itself.
pub open spec fn sdiv(a: u32, b: u32) -> u32
    recommends
        b != 0,
{
    let q = mag(a) / mag(b);
    if (a >= 0x80000000) != (b >= 0x80000000) {
        neg32(q)
    } else {
        q
    }
}

/// Signed remainder with the dividend's sign.
pub open spec fn srem(a: u32, b: u32) -> u32
    recommends
        b != 0,
{
    let r = mag(a) % mag(b);
    if a >= 0x80000000 {
        neg32(r)
    } else {
        r
    }
}

/// The upper half of the signed 64-bit product.
pub open spec fn mulh(a: u32, b: u32) -> u32 {
    ((((a as i32) as i64 * (b as i32) as i64) as i64) >> 32) as u32
}

/// The upper half of the signed-by-unsigned 64-bit product.
pub open spec fn mulhsu(a: u32, b: u32) -> u32 {
    ((((a as i32) as i64 * b as i64) as i64) >> 32) as u32
}

/// The upper half of the unsigned 64-bit product.
pub open spec fn mulhu(a: u32, b: u32) -> u32 {
    (((a as u64 * b as u64) as u64) >> 32) as u32
}

// ------------------------------------------------------------------
// State construction helpers
// ------------------------------------------------------------------

/// The state with `v` written to integer register `rd`; register zero is
/// hard-wired to zero, so a write there changes nothing.
pub open spec fn wreg(c: Cpu, rd: int, v: u32) -> Cpu {
    if rd == 0 {
        c
    } else {
        Cpu { regs: c.regs.update(rd, v), fregs: c.fregs, mem: c.mem, pc: c.pc, gpios: c.gpios }
    }
}

/// The state with `v` written to floating-point register `rd`.
pub open spec fn fwreg(c: Cpu, rd: int, v: u32) -> Cpu {
    Cpu { regs: c.regs, fregs: c.fregs.update(rd, v), mem: c.mem, pc: c.pc, gpios: c.gpios }
}

pub open spec fn with_mem(c: Cpu, m: Seq<u8>) -> Cpu {
    Cpu { regs: c.regs, fregs: c.fregs, mem: m, pc: c.pc, gpios: c.gpios }
}

pub open spec fn with_pc(c: Cpu, pc: u32) -> Cpu {
    Cpu { regs: c.regs, fregs: c.fregs, mem: c.mem, pc, gpios: c.gpios }
}

pub open spec fn with_gpio(c: Cpu, i: int, g: GPIOState) -> Cpu {
    Cpu { regs: c.regs, fregs: c.fregs, mem: c.mem, pc: c.pc, gpios: c.gpios.update(i, g) }
}

/// The state after the default sequential program-counter step.
pub open spec fn advance(c: Cpu) -> Cpu {
    with_pc(c, wadd(c.pc, 4))
}

// ------------------------------------------------------------------
// The step relation, by opcode group
// ------------------------------------------------------------------

/// Register-register ALU and multiply/divide instructions.
pub open spec fn step_op(c: Cpu, w: u32) -> (Cpu, StepOutcome) {
    let rd = f_rd(w) as int;
    let a = c.regs[f_rs1(w) as int];
    let b = c.regs[f_rs2(w) as int];
    let f3 = f_funct3(w);
    let f7 = f_funct7(w);
    if f7 == 0b0000000 {
        let v = if f3 == 0b111 {
            a & b
        } else if f3 == 0b110 {
            a | b
        } else if f3 == 0b100 {
            a ^ b
        } else if f3 == 0b011 {
            if a < b {
                1u32
            } else {
                0u32
            }
        } else if f3 == 0b010 {
            if (a as i32) < (b as i32) {
                1u32
            } else {
                0u32
            }
        } else if f3 == 0b001 {
            a << (b & 0b11111)
        } else if f3 == 0b101 {
            a >> (b & 0b11111)
        } else {
            wadd(a, b)
        };
        (advance(wreg(c, rd, v)), StepOutcome::Next)
    } else if f7 == 0b0100000 {
        if f3 == 0b000 {
            (advance(wreg(c, rd, wsub(a, b))), StepOutcome::Next)
        } else if f3 == 0b101 {
            (advance(wreg(c, rd, a >> (b & 0b11111))), StepOutcome::Next)
        } else {
            (c, StepOutcome::Fault(Fault::IllegalInstruction))
        }
    } else if f7 == 0b0000001 {
        if f3 == 0b000 {
            (advance(wreg(c, rd, wmul(a, b))), StepOutcome::Next)
        } else if f3 == 0b001 {
            (advance(wreg(c, rd, mulh(a, b))), StepOutcome::Next)
        } else if f3 == 0b010 {
            (advance(wreg(c, rd, mulhsu(a, b))), StepOutcome::Next)
        } else if f3 == 0b011 {
            (advance(wreg(c, rd, mulhu(a, b))), StepOutcome::Next)
        } else if b == 0 {
            (c, StepOutcome::Fault(Fault::DivideByZero))
        } else if f3 == 0b100 {
            (advance(wreg(c, rd, sdiv(a, b))), StepOutcome::Next)
        } else if f3 == 0b101 {
            (advance(wreg(c, rd, a / b)), StepOutcome::Next)
        } else if f3 == 0b110 {
            (advance(wreg(c, rd, srem(a, b))), StepOutcome::Next)
        } else {
            (advance(wreg(c, rd, a % b)), StepOutcome::Next)
        }
    } else {
        (c, StepOutcome::Fault(Fault::IllegalInstruction))
    }
}

/// Immediate ALU instructions; the immediate is used zero-extended, and the
/// shift amount is the five-bit rs2 field.
pub open spec fn step_op_imm(c: Cpu, w: u32) -> (Cpu, StepOutcome) {
    let rd = f_rd(w) as int;
    let a = c.regs[f_rs1(w) as int];
    let imm = f_imm_i(w);
    let sh = f_rs2(w);
    let f3 = f_funct3(w);
    let f7 = f_funct7(w);
    if f3 == 0b000 {
        (advance(wreg(c, rd, wadd(a, imm))), StepOutcome::Next)
    } else if f3 == 0b010 {
        let v = if (a as i32) < (imm as i32) {
            1u32
        } else {
            0u32
        };
        (advance(wreg(c, rd, v)), StepOutcome::Next)
    } else if f3 == 0b011 {
        let v = if a < imm {
            1u32
        } else {
            0u32
        };
        (advance(wreg(c, rd, v)), StepOutcome::Next)
    } else if f3 == 0b100 {
        (advance(wreg(c, rd, a ^ imm)), StepOutcome::Next)
    } else if f3 == 0b110 {
        (advance(wreg(c, rd, a | imm)), StepOutcome::Next)
    } else if f3 == 0b111 {
        (advance(wreg(c, rd, a & imm)), StepOutcome::Next)
    } else if f3 == 0b001 {
        (advance(wreg(c, rd, a << sh)), StepOutcome::Next)
    } else {
        if f7 == 0b0000000 {
            (advance(wreg(c, rd, a >> sh)), StepOutcome::Next)
        } else if f7 == 0b0100000 {
            (advance(wreg(c, rd, ((a as i32) >> sh) as u32)), StepOutcome::Next)
        } else {
            (c, StepOutcome::Fault(Fault::IllegalInstruction))
        }
    }
}

/// Store instructions; the effective address is `rs1` plus the sign-extended
/// S-format immediate, and the data comes from the register the `rd` field
/// position names.
pub open spec fn step_store(c: Cpu, w: u32) -> (Cpu, StepOutcome) {
    let addr = wadd(c.regs[f_rs1(w) as int], sext12(f_imm_s(w)));
    let v = c.regs[f_rd(w) as int];
    let f3 = f_funct3(w);
    if f3 == 0b010 {
        if addr <= MEM_SIZE_BYTES - 4 {
            (advance(with_mem(c, spec_write_word(c.mem, addr as int, v))), StepOutcome::Next)
        } else {
            (c, StepOutcome::Fault(Fault::MemoryBounds))
        }
    } else if f3 == 0b001 {
        if addr <= MEM_SIZE_BYTES - 2 {
            let m = c.mem.update(addr as int, (v & 0xFF) as u8).update(
                addr + 1,
                ((v >> 8) & 0xFF) as u8,
            );
            (advance(with_mem(c, m)), StepOutcome::Next)
        } else {
            (c, StepOutcome::Fault(Fault::MemoryBounds))
        }
    } else if f3 == 0b000 {
        if addr <= MEM_SIZE_BYTES - 1 {
            (advance(with_mem(c, c.mem.update(addr as int, (v & 0xFF) as u8))), StepOutcome::Next)
        } else {
            (c, StepOutcome::Fault(Fault::MemoryBounds))
        }
    } else {
        (c, StepOutcome::Fault(Fault::IllegalInstruction))
    }
}

/// Load instructions; the effective address is `rs1` plus the sign-extended
/// I-format immediate. Every variant reads a whole word and masks it, so the
/// word must lie in bounds; halves and bytes are taken from its low bits,
/// sign-extended for `lh`/`lb` and zero-extended for the unsigned variants.
pub open spec fn step_load(c: Cpu, w: u32) -> (Cpu, StepOutcome) {
    let rd = f_rd(w) as int;
    let addr = wadd(c.regs[f_rs1(w) as int], sext12(f_imm_i(w)));
    let f3 = f_funct3(w);
    if f3 == 0b010 || f3 == 0b001 || f3 == 0b000 || f3 == 0b101 || f3 == 0b100 {
        if addr <= MEM_SIZE_BYTES - 4 {
            let word = spec_read_word(c.mem, addr as int);
            let v = if f3 == 0b010 {
                word
            } else if f3 == 0b001 {
                let h = word & 0xFFFF;
                if h & 0x8000 != 0 {
                    h | 0xFFFF0000
                } else {
                    h
                }
            } else if f3 == 0b000 {
                let b = word & 0xFF;
                if b & 0x80 != 0 {
                    b | 0xFFFFFF00
                } else {
                    b
                }
            } else if f3 == 0b101 {
                word & 0xFFFF
            } else {
                word & 0xFF
            };
            (advance(wreg(c, rd, v)), StepOutcome::Next)
        } else {
            (c, StepOutcome::Fault(Fault::MemoryBounds))
        }
    } else {
        (c, StepOutcome::Fault(Fault::IllegalInstruction))
    }
}

/// Branch instructions: on a taken branch the program counter moves by the
/// B-format byte displacement instead of the default four.
pub open spec fn step_branch(c: Cpu, w: u32) -> (Cpu, StepOutcome) {
    let a = c.regs[f_rs1(w) as int];
    let b = c.regs[f_rs2(w) as int];
    let f3 = f_funct3(w);
    if f3 == 0b000 || f3 == 0b001 || f3 == 0b100 || f3 == 0b101 || f3 == 0b110 || f3 == 0b111 {
        let taken = if f3 == 0b000 {
            a == b
        } else if f3 == 0b001 {
            a != b
        } else if f3 == 0b100 {
            (a as i32) < (b as i32)
        } else if f3 == 0b101 {
            (a as i32) >= (b as i32)
        } else if f3 == 0b110 {
            a < b
        } else {
            a >= b
        };
        if taken {
            (with_pc(c, wadd(c.pc, f_imm_b(w))), StepOutcome::Next)
        } else {
            (advance(c), StepOutcome::Next)
        }
    } else {
        (c, StepOutcome::Fault(Fault::IllegalInstruction))
    }
}

/// `jalr`: the return address goes to `rd`, and the program counter becomes
/// `rs1` plus the zero-extended immediate with its lowest bit cleared.
pub open spec fn step_jalr(c: Cpu, w: u32) -> (Cpu, StepOutcome) {
    let target = wadd(c.regs[f_rs1(w) as int], f_imm_i(w)) & 0xFFFFFFFE;
    (with_pc(wreg(c, f_rd(w) as int, wadd(c.pc, 4)), target), StepOutcome::Next)
}

/// `jal`: the return address goes to `rd`, and the program counter moves by
/// the J-format byte displacement.
pub open spec fn step_jal(c: Cpu, w: u32) -> (Cpu, StepOutcome) {
    let c2 = wreg(c, f_rd(w) as int, wadd(c.pc, 4));
    (with_pc(c2, wadd(c.pc, f_imm_j(w))), StepOutcome::Next)
}

/// `lui` loads the sign-extended upper immediate value itself; `auipc` adds
/// the shifted immediate to the program counter.
pub open spec fn step_lui(c: Cpu, w: u32) -> (Cpu, StepOutcome) {
    (advance(wreg(c, f_rd(w) as int, f_imm_u(w) as u32)), StepOutcome::Next)
}

pub open spec fn step_auipc(c: Cpu, w: u32) -> (Cpu, StepOutcome) {
    (advance(wreg(c, f_rd(w) as int, wadd((f_imm_u(w) << 12) as u32, c.pc))), StepOutcome::Next)
}

/// The SYSTEM opcode: `ecall` reports without advancing, `ebreak` and the
/// CSR forms are no-ops, and unassigned combinations fault.
pub open spec fn step_system(c: Cpu, w: u32) -> (Cpu, StepOutcome) {
    let f3 = f_funct3(w);
    if f3 == 0b000 {
        if f_imm_i(w) == 0 {
            (c, StepOutcome::Ecall)
        } else if f_imm_i(w) == 1 {
            (advance(c), StepOutcome::Next)
        } else {
            (c, StepOutcome::Fault(Fault::IllegalInstruction))
        }
    } else if f3 == 0b001 || f3 == 0b010 || f3 == 0b011 || f3 == 0b101 || f3 == 0b110 || f3
        == 0b111 {
        (advance(c), StepOutcome::Next)
    } else {
        (c, StepOutcome::Fault(Fault::IllegalInstruction))
    }
}

/// `flw`: a raw 32-bit pattern moves from memory into the floating register
/// file, no numeric conversion.
pub open spec fn step_flw(c: Cpu, w: u32) -> (Cpu, StepOutcome) {
    let f3 = f_funct3(w);
    if f3 == 0b010 || f3 == 0b011 {
        let addr = wadd(c.regs[f_rs1(w) as int], sext12(f_imm_i(w)));
        if addr <= MEM_SIZE_BYTES - 4 {
            (advance(fwreg(c, f_rd(w) as int, spec_read_word(c.mem, addr as int))),
            StepOutcome::Next)
        } else {
            (c, StepOutcome::Fault(Fault::MemoryBounds))
        }
    } else {
        (c, StepOutcome::Fault(Fault::IllegalInstruction))
    }
}

/// `fsw`: the raw pattern of floating register `rs2` moves to memory.
pub open spec fn step_fsw(c: Cpu, w: u32) -> (Cpu, StepOutcome) {
    let addr = wadd(c.regs[f_rs1(w) as int], sext12(f_imm_s(w)));
    if addr <= MEM_SIZE_BYTES - 4 {
        let v = c.fregs[f_rs2(w) as int];
        (advance(with_mem(c, spec_write_word(c.mem, addr as int, v))), StepOutcome::Next)
    } else {
        (c, StepOutcome::Fault(Fault::MemoryBounds))
    }
}

/// The classification mask for an IEEE-754 single, from its bit pattern:
/// negative finite non-infinite values report the sign bit, everything else
/// that is classified reports zero, and the unclassified categories
/// (positive normal numbers and negative NaNs) have no mask.
pub open spec fn spec_mask_generate(bits: u32) -> Option<u32> {
    let sign = bits >> 31;
    let exp = (bits >> 23) & 0xFF;
    let frac = bits & 0x7FFFFF;
    if exp == 0xFF && frac == 0 {
        Some(0u32)
    } else if exp == 0xFF {
        if sign == 0 {
            Some(0u32)
        } else {
            None
        }
    } else if sign == 1 {
        Some(0x80000000u32)
    } else if exp == 0 {
        Some(0u32)
    } else {
        None
    }
}

/// Which floating compute results land in the integer register file.
pub open spec fn float_writes_int(k: FloatOpKind) -> bool {
    k == FloatOpKind::CvtWS || k == FloatOpKind::CvtWUS || k == FloatOpKind::CvtSW || k
        == FloatOpKind::CvtSWU || k == FloatOpKind::Feq || k == FloatOpKind::Flt || k
        == FloatOpKind::Fle
}

pub open spec fn float_op(kind: FloatOpKind, w: u32) -> FloatOp {
    FloatOp { kind, rd: f_rd(w) as usize, rs1: f_rs1(w) as usize, rs2: f_rs2(w) as usize }
}

/// The floating compute opcode: bit moves and classification execute here;
/// arithmetic, comparisons and conversions decode to a [`FloatOp`] for the
/// driver, leaving the state untouched until the result is applied.
pub open spec fn step_float(c: Cpu, w: u32) -> (Cpu, StepOutcome) {
    let f3 = f_funct3(w);
    let f7 = f_funct7(w);
    let rs2 = f_rs2(w);
    if f7 == 0b0000000 {
        (c, StepOutcome::Float(float_op(FloatOpKind::Add, w)))
    } else if f7 == 0b0000100 {
        (c, StepOutcome::Float(float_op(FloatOpKind::Sub, w)))
    } else if f7 == 0b0001000 {
        (c, StepOutcome::Float(float_op(FloatOpKind::Mul, w)))
    } else if f7 == 0b0001100 {
        (c, StepOutcome::Float(float_op(FloatOpKind::Div, w)))
    } else if f7 == 0b0101100 {
        (c, StepOutcome::Float(float_op(FloatOpKind::Sqrt, w)))
    } else if f7 == 0b0010000 {
        if f3 == 0b000 {
            (c, StepOutcome::Float(float_op(FloatOpKind::SgnJ, w)))
        } else if f3 == 0b001 {
            (c, StepOutcome::Float(float_op(FloatOpKind::SgnJN, w)))
        } else if f3 == 0b010 {
            (c, StepOutcome::Float(float_op(FloatOpKind::SgnJX, w)))
        } else {
            (c, StepOutcome::Fault(Fault::IllegalInstruction))
        }
    } else if f7 == 0b0010100 {
        if f3 == 0b000 {
            (c, StepOutcome::Float(float_op(FloatOpKind::Min, w)))
        } else if f3 == 0b001 {
            (c, StepOutcome::Float(float_op(FloatOpKind::Max, w)))
        } else {
            (c, StepOutcome::Fault(Fault::IllegalInstruction))
        }
    } else if f7 == 0b1100000 {
        if rs2 == 0b00000 {
            (c, StepOutcome::Float(float_op(FloatOpKind::CvtWS, w)))
        } else if rs2 == 0b00001 {
            (c, StepOutcome::Float(float_op(FloatOpKind::CvtWUS, w)))
        } else {
            (c, StepOutcome::Fault(Fault::IllegalInstruction))
        }
    } else if f7 == 0b1110000 {
        if f3 == 0b000 {
            (advance(wreg(c, f_rd(w) as int, c.fregs[f_rs1(w) as int])), StepOutcome::Next)
        } else if f3 == 0b001 {
            match spec_mask_generate(c.fregs[f_rs1(w) as int]) {
                Some(m) => (advance(wreg(c, f_rd(w) as int, m)), StepOutcome::Next),
                None => (c, StepOutcome::Fault(Fault::IllegalInstruction)),
            }
        } else {
            (c, StepOutcome::Fault(Fault::IllegalInstruction))
        }
    } else if f7 == 0b1010000 {
        if f3 == 0b000 {
            (c, StepOutcome::Float(float_op(FloatOpKind::Fle, w)))
        } else if f3 == 0b001 {
            (c, StepOutcome::Float(float_op(FloatOpKind::Flt, w)))
        } else if f3 == 0b010 {
            (c, StepOutcome::Float(float_op(FloatOpKind::Feq, w)))
        } else {
            (c, StepOutcome::Fault(Fault::IllegalInstruction))
        }
    } else if f7 == 0b1101000 {
        if rs2 == 0b00000 {
            (c, StepOutcome::Float(float_op(FloatOpKind::CvtSW, w)))
        } else if rs2 == 0b00001 {
            (c, StepOutcome::Float(float_op(FloatOpKind::CvtSWU, w)))
        } else {
            (c, StepOutcome::Fault(Fault::IllegalInstruction))
        }
    } else if f7 == 0b1111000 {
        if f3 == 0b000 {
            (advance(fwreg(c, f_rd(w) as int, c.regs[f_rs1(w) as int])), StepOutcome::Next)
        } else {
            (c, StepOutcome::Fault(Fault::IllegalInstruction))
        }
    } else {
        (c, StepOutcome::Fault(Fault::IllegalInstruction))
    }
}

/// The custom GPIO opcode. "Set config" reads a second word at `pc + 4` as a
/// memory address and deserializes the two bytes there into the GPIO slot
/// the immediate selects; "reset config" restores the slot's default. The
/// program counter then skips the extra word for the former.
pub open spec fn step_gpio(c: Cpu, w: u32) -> (Cpu, StepOutcome) {
    let f3 = f_funct3(w);
    let slot = f_imm_i(w);
    if f3 == 0b000 {
        if c.pc > MEM_SIZE_BYTES - 8 {
            (c, StepOutcome::Fault(Fault::MemoryBounds))
        } else if slot >= NUM_GPIOS {
            (c, StepOutcome::Fault(Fault::MemoryBounds))
        } else {
            let ca = spec_read_word(c.mem, c.pc + 4);
            if ca <= MEM_SIZE_BYTES - 2 {
                let g = GPIOState { pull_up: c.mem[ca as int] != 0, value: c.mem[ca + 1] };
                (with_pc(with_gpio(c, slot as int, g), wadd(c.pc, 8)), StepOutcome::Next)
            } else {
                (c, StepOutcome::Fault(Fault::MemoryBounds))
            }
        }
    } else if f3 == 0b001 {
        if slot >= NUM_GPIOS {
            (c, StepOutcome::Fault(Fault::MemoryBounds))
        } else {
            let g = GPIOState { pull_up: false, value: 0u8 };
            (advance(with_gpio(c, slot as int, g)), StepOutcome::Next)
        }
    } else {
        (c, StepOutcome::Fault(Fault::IllegalInstruction))
    }
}

/// The opcodes the engine defines.
pub open spec fn is_defined_opcode(op: u32) -> bool {
    op == 0b0110011 || op == 0b0010011 || op == 0b0100011 || op == 0b0000011 || op == 0b1100011
        || op == 0b1100111 || op == 0b1101111 || op == 0b0110111 || op == 0b0010111 || op
        == 0b0001111 || op == 0b1110011 || op == 0b0000111 || op == 0b0100111 || op == 0b1010011
        || op == 0b1111000
}

/// One fetch/decode/execute step. A program counter too close to the end of
/// memory to fetch from faults; an undefined opcode faults with the state
/// untouched; otherwise the opcode's group decides.
pub open spec fn spec_step(c: Cpu) -> (Cpu, StepOutcome) {
    if c.pc > MEM_SIZE_BYTES - 4 {
        (c, StepOutcome::Fault(Fault::MemoryBounds))
    } else {
        let w = spec_read_word(c.mem, c.pc as int);
        let op = f_opcode(w);
        if op == 0b0110011 {
            step_op(c, w)
        } else if op == 0b0010011 {
            step_op_imm(c, w)
        } else if op == 0b0100011 {
            step_store(c, w)
        } else if op == 0b0000011 {
            step_load(c, w)
        } else if op == 0b1100011 {
            step_branch(c, w)
        } else if op == 0b1100111 {
            step_jalr(c, w)
        } else if op == 0b1101111 {
            step_jal(c, w)
        } else if op == 0b0110111 {
            step_lui(c, w)
        } else if op == 0b0010111 {
            step_auipc(c, w)
        } else if op == 0b0001111 {
            (advance(c), StepOutcome::Next)
        } else if op == 0b1110011 {
            step_system(c, w)
        } else if op == 0b0000111 {
            step_flw(c, w)
        } else if op == 0b0100111 {
            step_fsw(c, w)
        } else if op == 0b1010011 {
            step_float(c, w)
        } else if op == 0b1111000 {
            step_gpio(c, w)
        } else {
            (c, StepOutcome::Fault(Fault::IllegalInstruction))
        }
    }
}

// ------------------------------------------------------------------
// Executable helpers
// ------------------------------------------------------------------

fn x_rd(w: u32) -> (r: usize)
    ensures
        r == f_rd(w) as usize,
        r < 32,
{
    let v = (w >> 7) & 0b11111;
    proof {
        assert((w >> 7) & 0b11111 < 32) by (bit_vector);
    }
    v as usize
}

fn x_rs1(w: u32) -> (r: usize)
    ensures
        r == f_rs1(w) as usize,
        r < 32,
{
    let v = (w >> 15) & 0b11111;
    proof {
        assert((w >> 15) & 0b11111 < 32) by (bit_vector);
    }
    v as usize
}

fn x_rs2(w: u32) -> (r: usize)
    ensures
        r == f_rs2(w) as usize,
        r < 32,
{
    let v = (w >> 20) & 0b11111;
    proof {
        assert((w >> 20) & 0b11111 < 32) by (bit_vector);
    }
    v as usize
}

fn sext12_exec(x: u32) -> (r: u32)
    ensures
        r == sext12(x),
{
    if x & 0x800 != 0 {
        (x & 0xFFF) | 0xFFFFF000
    } else {
        x & 0xFFF
    }
}

fn read_reg(state: &CPUState, i: usize) -> (r: u32)
    requires
        state@.wf(),
        i < 32,
    ensures
        r == state@.regs[i as int],
{
    state.registers[i]
}

fn read_freg(state: &CPUState, i: usize) -> (r: u32)
    requires
        state@.wf(),
        i < 32,
    ensures
        r == state@.fregs[i as int],
{
    state.floating_point_registers[i]
}

/// Writes an integer register; register zero stays hard-wired to zero.
fn write_register(state: &mut CPUState, rd: usize, v: u32)
    requires
        old(state)@.wf(),
        rd < 32,
    ensures
        final(state)@ == wreg(old(state)@, rd as int, v),
        final(state)@.wf(),
{
    if rd != 0 {
        state.registers[rd] = v;
    }
}

fn write_fregister(state: &mut CPUState, rd: usize, v: u32)
    requires
        old(state)@.wf(),
        rd < 32,
    ensures
        final(state)@ == fwreg(old(state)@, rd as int, v),
        final(state)@.wf(),
{
    state.floating_point_registers[rd] = v;
}

fn advance_pc(state: &mut CPUState)
    requires
        old(state)@.wf(),
    ensures
        final(state)@ == advance(old(state)@),
        final(state)@.wf(),
{
    state.pc = state.pc.wrapping_add(4);
}

fn mag_exec(a: u32) -> (r: u32)
    ensures
        r == mag(a),
{
    if a >= 0x80000000 {
        0u32.wrapping_sub(a)
    } else {
        a
    }
}

fn neg32_exec(x: u32) -> (r: u32)
    ensures
        r == neg32(x),
{
    let r = 0u32.wrapping_sub(x);
    proof {
        if x == 0 {
            assert(0x100000000int % 0x100000000int == 0);
        }
    }
    r
}

// ------------------------------------------------------------------
// Executable step, by opcode group
// ------------------------------------------------------------------

fn exec_op(state: &mut CPUState, w: u32) -> (r: StepOutcome)
    requires
        old(state)@.wf(),
    ensures
        final(state)@ == step_op(old(state)@, w).0,
        r == step_op(old(state)@, w).1,
        final(state)@.wf(),
{
    let rd = x_rd(w);
    let a = read_reg(state, x_rs1(w));
    let b = read_reg(state, x_rs2(w));
    let f3 = (w >> 12) & 0b111;
    let f7 = (w >> 25) & 0b1111111;
    proof {
        assert(b & 0b11111 < 32) by (bit_vector);
    }
    if f7 == 0b0000000 {
        let v: u32 = if f3 == 0b111 {
            a & b
        } else if f3 == 0b110 {
            a | b
        } else if f3 == 0b100 {
            a ^ b
        } else if f3 == 0b011 {
            if a < b {
                1
            } else {
                0
            }
        } else if f3 == 0b010 {
            if (a as i32) < (b as i32) {
                1
            } else {
                0
            }
        } else if f3 == 0b001 {
            a << (b & 0b11111)
        } else if f3 == 0b101 {
            a >> (b & 0b11111)
        } else {
            a.wrapping_add(b)
        };
        write_register(state, rd, v);
        advance_pc(state);
        StepOutcome::Next
    } else if f7 == 0b0100000 {
        if f3 == 0b000 {
            write_register(state, rd, a.wrapping_sub(b));
            advance_pc(state);
            StepOutcome::Next
        } else if f3 == 0b101 {
            write_register(state, rd, a >> (b & 0b11111));
            advance_pc(state);
            StepOutcome::Next
        } else {
            StepOutcome::Fault(Fault::IllegalInstruction)
        }
    } else if f7 == 0b0000001 {
        if f3 == 0b000 {
            write_register(state, rd, a.wrapping_mul(b));
            advance_pc(state);
            StepOutcome::Next
        } else if f3 == 0b001 {
            let x = (a as i32) as i64;
            let y = (b as i32) as i64;
            proof {
                assert(-0x4000000000000000 <= x * y <= 0x4000000000000000) by (nonlinear_arith)
                    requires
                        -0x80000000 <= x <= 0x7FFFFFFF,
                        -0x80000000 <= y <= 0x7FFFFFFF,
                ;
            }
            let p: i64 = x * y;
            write_register(state, rd, (p >> 32) as u32);
            advance_pc(state);
            StepOutcome::Next
        } else if f3 == 0b010 {
            let x = (a as i32) as i64;
            let y = b as i64;
            proof {
                assert(-0x8000000000000000 <= x * y < 0x8000000000000000) by (nonlinear_arith)
                    requires
                        -0x80000000 <= x <= 0x7FFFFFFF,
                        0 <= y <= 0xFFFFFFFF,
                ;
            }
            let p: i64 = x * y;
            write_register(state, rd, (p >> 32) as u32);
            advance_pc(state);
            StepOutcome::Next
        } else if f3 == 0b011 {
            let x = a as u64;
            let y = b as u64;
            proof {
                assert(x * y <= 0xFFFFFFFFFFFFFFFF) by (nonlinear_arith)
                    requires
                        x <= 0xFFFFFFFF,
                        y <= 0xFFFFFFFF,
                ;
            }
            let p: u64 = x * y;
            write_register(state, rd, (p >> 32) as u32);
            advance_pc(state);
            StepOutcome::Next
        } else if b == 0 {
            StepOutcome::Fault(Fault::DivideByZero)
        } else if f3 == 0b100 {
            let ma = mag_exec(a);
            let mb = mag_exec(b);
            let q = ma / mb;
            let v = if (a >= 0x80000000) != (b >= 0x80000000) {
                neg32_exec(q)
            } else {
                q
            };
            write_register(state, rd, v);
            advance_pc(state);
            StepOutcome::Next
        } else if f3 == 0b101 {
            write_register(state, rd, a / b);
            advance_pc(state);
            StepOutcome::Next
        } else if f3 == 0b110 {
            let ma = mag_exec(a);
            let mb = mag_exec(b);
            let m = ma % mb;
            let v = if a >= 0x80000000 {
                neg32_exec(m)
            } else {
                m
            };
            write_register(state, rd, v);
            advance_pc(state);
            StepOutcome::Next
        } else {
            write_register(state, rd, a % b);
            advance_pc(state);
            StepOutcome::Next
        }
    } else {
        StepOutcome::Fault(Fault::IllegalInstruction)
    }
}

fn exec_op_imm(state: &mut CPUState, w: u32) -> (r: StepOutcome)
    requires
        old(state)@.wf(),
    ensures
        final(state)@ == step_op_imm(old(state)@, w).0,
        r == step_op_imm(old(state)@, w).1,
        final(state)@.wf(),
{
    let rd = x_rd(w);
    let a = read_reg(state, x_rs1(w));
    let imm = w >> 20;
    let sh = x_rs2(w) as u32;
    let f3 = (w >> 12) & 0b111;
    let f7 = (w >> 25) & 0b1111111;
    if f3 == 0b000 {
        write_register(state, rd, a.wrapping_add(imm));
    } else if f3 == 0b010 {
        write_register(state, rd, if (a as i32) < (imm as i32) { 1 } else { 0 });
    } else if f3 == 0b011 {
        write_register(state, rd, if a < imm { 1 } else { 0 });
    } else if f3 == 0b100 {
        write_register(state, rd, a ^ imm);
    } else if f3 == 0b110 {
        write_register(state, rd, a | imm);
    } else if f3 == 0b111 {
        write_register(state, rd, a & imm);
    } else if f3 == 0b001 {
        write_register(state, rd, a << sh);
    } else {
        if f7 == 0b0000000 {
            write_register(state, rd, a >> sh);
        } else if f7 == 0b0100000 {
            write_register(state, rd, ((a as i32) >> sh) as u32);
        } else {
            return StepOutcome::Fault(Fault::IllegalInstruction);
        }
    }
    advance_pc(state);
    StepOutcome::Next
}

fn exec_store(state: &mut CPUState, w: u32) -> (r: StepOutcome)
    requires
        old(state)@.wf(),
    ensures
        final(state)@ == step_store(old(state)@, w).0,
        r == step_store(old(state)@, w).1,
        final(state)@.wf(),
{
    let addr = read_reg(state, x_rs1(w)).wrapping_add(sext12_exec(f_imm_s_exec(w)));
    let v = read_reg(state, x_rd(w));
    let f3 = (w >> 12) & 0b111;
    if f3 == 0b010 {
        if addr <= 4092 {
            state.set_mem(addr as usize, v);
            advance_pc(state);
            StepOutcome::Next
        } else {
            StepOutcome::Fault(Fault::MemoryBounds)
        }
    } else if f3 == 0b001 {
        if addr <= 4094 {
            state.memory_bytes[addr as usize] = (v & 0xFF) as u8;
            state.memory_bytes[addr as usize + 1] = ((v >> 8) & 0xFF) as u8;
            advance_pc(state);
            StepOutcome::Next
        } else {
            StepOutcome::Fault(Fault::MemoryBounds)
        }
    } else if f3 == 0b000 {
        if addr <= 4095 {
            state.memory_bytes[addr as usize] = (v & 0xFF) as u8;
            advance_pc(state);
            StepOutcome::Next
        } else {
            StepOutcome::Fault(Fault::MemoryBounds)
        }
    } else {
        StepOutcome::Fault(Fault::IllegalInstruction)
    }
}

fn f_imm_s_exec(w: u32) -> (r: u32)
    ensures
        r == f_imm_s(w),
{
    ((w >> 25) & 0b1111111) << 5 | ((w >> 7) & 0b11111)
}

fn exec_load(state: &mut CPUState, w: u32) -> (r: StepOutcome)
    requires
        old(state)@.wf(),
    ensures
        final(state)@ == step_load(old(state)@, w).0,
        r == step_load(old(state)@, w).1,
        final(state)@.wf(),
{
    let rd = x_rd(w);
    let addr = read_reg(state, x_rs1(w)).wrapping_add(sext12_exec(w >> 20));
    let f3 = (w >> 12) & 0b111;
    if f3 == 0b010 || f3 == 0b001 || f3 == 0b000 || f3 == 0b101 || f3 == 0b100 {
        if addr <= 4092 {
            let word = state.read_mem(addr as usize);
            let v: u32 = if f3 == 0b010 {
                word
            } else if f3 == 0b001 {
                let h = word & 0xFFFF;
                if h & 0x8000 != 0 {
                    h | 0xFFFF0000
                } else {
                    h
                }
            } else if f3 == 0b000 {
                let b = word & 0xFF;
                if b & 0x80 != 0 {
                    b | 0xFFFFFF00
                } else {
                    b
                }
            } else if f3 == 0b101 {
                word & 0xFFFF
            } else {
                word & 0xFF
            };
            write_register(state, rd, v);
            advance_pc(state);
            StepOutcome::Next
        } else {
            StepOutcome::Fault(Fault::MemoryBounds)
        }
    } else {
        StepOutcome::Fault(Fault::IllegalInstruction)
    }
}

fn exec_branch(state: &mut CPUState, w: u32) -> (r: StepOutcome)
    requires
        old(state)@.wf(),
    ensures
        final(state)@ == step_branch(old(state)@, w).0,
        r == step_branch(old(state)@, w).1,
        final(state)@.wf(),
{
    let a = read_reg(state, x_rs1(w));
    let b = read_reg(state, x_rs2(w));
    let f3 = (w >> 12) & 0b111;
    if f3 == 0b000 || f3 == 0b001 || f3 == 0b100 || f3 == 0b101 || f3 == 0b110 || f3 == 0b111 {
        let taken = if f3 == 0b000 {
            a == b
        } else if f3 == 0b001 {
            a != b
        } else if f3 == 0b100 {
            (a as i32) < (b as i32)
        } else if f3 == 0b101 {
            (a as i32) >= (b as i32)
        } else if f3 == 0b110 {
            a < b
        } else {
            a >= b
        };
        if taken {
            let imm_b = ((w >> 31) & 0b1) << 12 | ((w >> 25) & 0b111111) << 5 | ((w >> 8)
                & 0b1111) << 1 | ((w >> 7) & 0b1) << 11;
            state.pc = state.pc.wrapping_add(imm_b);
        } else {
            advance_pc(state);
        }
        StepOutcome::Next
    } else {
        StepOutcome::Fault(Fault::IllegalInstruction)
    }
}

fn exec_jalr(state: &mut CPUState, w: u32) -> (r: StepOutcome)
    requires
        old(state)@.wf(),
    ensures
        final(state)@ == step_jalr(old(state)@, w).0,
        r == step_jalr(old(state)@, w).1,
        final(state)@.wf(),
{
    let target = read_reg(state, x_rs1(w)).wrapping_add(w >> 20) & 0xFFFFFFFE;
    let ret = state.pc.wrapping_add(4);
    write_register(state, x_rd(w), ret);
    state.pc = target;
    StepOutcome::Next
}

fn exec_jal(state: &mut CPUState, w: u32) -> (r: StepOutcome)
    requires
        old(state)@.wf(),
    ensures
        final(state)@ == step_jal(old(state)@, w).0,
        r == step_jal(old(state)@, w).1,
        final(state)@.wf(),
{
    let imm_j = ((w >> 31) & 0b1) << 20 | ((w >> 21) & 0b1111111111) << 1 | ((w >> 20) & 0b1)
        << 11 | ((w >> 12) & 0b11111111) << 12;
    let ret = state.pc.wrapping_add(4);
    let target = state.pc.wrapping_add(imm_j);
    write_register(state, x_rd(w), ret);
    state.pc = target;
    StepOutcome::Next
}

fn exec_lui(state: &mut CPUState, w: u32) -> (r: StepOutcome)
    requires
        old(state)@.wf(),
    ensures
        final(state)@ == step_lui(old(state)@, w).0,
        r == step_lui(old(state)@, w).1,
        final(state)@.wf(),
{
    let imm_u = (w as i32) >> 12;
    write_register(state, x_rd(w), imm_u as u32);
    advance_pc(state);
    StepOutcome::Next
}

fn exec_auipc(state: &mut CPUState, w: u32) -> (r: StepOutcome)
    requires
        old(state)@.wf(),
    ensures
        final(state)@ == step_auipc(old(state)@, w).0,
        r == step_auipc(old(state)@, w).1,
        final(state)@.wf(),
{
    let imm_u = (w as i32) >> 12;
    let v = ((imm_u << 12) as u32).wrapping_add(state.pc);
    write_register(state, x_rd(w), v);
    advance_pc(state);
    StepOutcome::Next
}

fn exec_system(state: &mut CPUState, w: u32) -> (r: StepOutcome)
    requires
        old(state)@.wf(),
    ensures
        final(state)@ == step_system(old(state)@, w).0,
        r == step_system(old(state)@, w).1,
        final(state)@.wf(),
{
    let f3 = (w >> 12) & 0b111;
    proof {
        assert(((w >> 12) & 0b111) <= 7) by (bit_vector);
    }
    if f3 == 0b000 {
        let imm = w >> 20;
        if imm == 0 {
            StepOutcome::Ecall
        } else if imm == 1 {
            advance_pc(state);
            StepOutcome::Next
        } else {
            StepOutcome::Fault(Fault::IllegalInstruction)
        }
    } else if f3 == 0b100 {
        StepOutcome::Fault(Fault::IllegalInstruction)
    } else {
        advance_pc(state);
        StepOutcome::Next
    }
}

fn exec_flw(state: &mut CPUState, w: u32) -> (r: StepOutcome)
    requires
        old(state)@.wf(),
    ensures
        final(state)@ == step_flw(old(state)@, w).0,
        r == step_flw(old(state)@, w).1,
        final(state)@.wf(),
{
    let f3 = (w >> 12) & 0b111;
    if f3 == 0b010 || f3 == 0b011 {
        let addr = read_reg(state, x_rs1(w)).wrapping_add(sext12_exec(w >> 20));
        if addr <= 4092 {
            let word = state.read_mem(addr as usize);
            write_fregister(state, x_rd(w), word);
            advance_pc(state);
            StepOutcome::Next
        } else {
            StepOutcome::Fault(Fault::MemoryBounds)
        }
    } else {
        StepOutcome::Fault(Fault::IllegalInstruction)
    }
}

fn exec_fsw(state: &mut CPUState, w: u32) -> (r: StepOutcome)
    requires
        old(state)@.wf(),
    ensures
        final(state)@ == step_fsw(old(state)@, w).0,
        r == step_fsw(old(state)@, w).1,
        final(state)@.wf(),
{
    let addr = read_reg(state, x_rs1(w)).wrapping_add(sext12_exec(f_imm_s_exec(w)));
    if addr <= 4092 {
        let v = read_freg(state, x_rs2(w));
        state.set_mem(addr as usize, v);
        advance_pc(state);
        StepOutcome::Next
    } else {
        StepOutcome::Fault(Fault::MemoryBounds)
    }
}

/// The classification mask for an IEEE-754 single, from its raw bits; `None`
/// for the categories the classifier leaves unassigned.
pub fn mask_generate(bits: u32) -> (r: Option<u32>)
    ensures
        r == spec_mask_generate(bits),
{
    let sign = bits >> 31;
    let exp = (bits >> 23) & 0xFF;
    let frac = bits & 0x7FFFFF;
    if exp == 0xFF && frac == 0 {
        Some(0)
    } else if exp == 0xFF {
        if sign == 0 {
            Some(0)
        } else {
            None
        }
    } else if sign == 1 {
        Some(0x80000000)
    } else if exp == 0 {
        Some(0)
    } else {
        None
    }
}

fn exec_float(state: &mut CPUState, w: u32) -> (r: StepOutcome)
    requires
        old(state)@.wf(),
    ensures
        final(state)@ == step_float(old(state)@, w).0,
        r == step_float(old(state)@, w).1,
        final(state)@.wf(),
{
    let f3 = (w >> 12) & 0b111;
    let f7 = (w >> 25) & 0b1111111;
    let rs2 = x_rs2(w) as u32;
    let op = FloatOp { kind: FloatOpKind::Add, rd: x_rd(w), rs1: x_rs1(w), rs2: x_rs2(w) };
    if f7 == 0b0000000 {
        StepOutcome::Float(FloatOp { kind: FloatOpKind::Add, ..op })
    } else if f7 == 0b0000100 {
        StepOutcome::Float(FloatOp { kind: FloatOpKind::Sub, ..op })
    } else if f7 == 0b0001000 {
        StepOutcome::Float(FloatOp { kind: FloatOpKind::Mul, ..op })
    } else if f7 == 0b0001100 {
        StepOutcome::Float(FloatOp { kind: FloatOpKind::Div, ..op })
    } else if f7 == 0b0101100 {
        StepOutcome::Float(FloatOp { kind: FloatOpKind::Sqrt, ..op })
    } else if f7 == 0b0010000 {
        if f3 == 0b000 {
            StepOutcome::Float(FloatOp { kind: FloatOpKind::SgnJ, ..op })
        } else if f3 == 0b001 {
            StepOutcome::Float(FloatOp { kind: FloatOpKind::SgnJN, ..op })
        } else if f3 == 0b010 {
            StepOutcome::Float(FloatOp { kind: FloatOpKind::SgnJX, ..op })
        } else {
            StepOutcome::Fault(Fault::IllegalInstruction)
        }
    } else if f7 == 0b0010100 {
        if f3 == 0b000 {
            StepOutcome::Float(FloatOp { kind: FloatOpKind::Min, ..op })
        } else if f3 == 0b001 {
            StepOutcome::Float(FloatOp { kind: FloatOpKind::Max, ..op })
        } else {
            StepOutcome::Fault(Fault::IllegalInstruction)
        }
    } else if f7 == 0b1100000 {
        if rs2 == 0b00000 {
            StepOutcome::Float(FloatOp { kind: FloatOpKind::CvtWS, ..op })
        } else if rs2 == 0b00001 {
            StepOutcome::Float(FloatOp { kind: FloatOpKind::CvtWUS, ..op })
        } else {
            StepOutcome::Fault(Fault::IllegalInstruction)
        }
    } else if f7 == 0b1110000 {
        if f3 == 0b000 {
            let v = read_freg(state, x_rs1(w));
            write_register(state, x_rd(w), v);
            advance_pc(state);
            StepOutcome::Next
        } else if f3 == 0b001 {
            let bits = read_freg(state, x_rs1(w));
            match mask_generate(bits) {
                Some(m) => {
                    write_register(state, x_rd(w), m);
                    advance_pc(state);
                    StepOutcome::Next
                },
                None => StepOutcome::Fault(Fault::IllegalInstruction),
            }
        } else {
            StepOutcome::Fault(Fault::IllegalInstruction)
        }
    } else if f7 == 0b1010000 {
        if f3 == 0b000 {
            StepOutcome::Float(FloatOp { kind: FloatOpKind::Fle, ..op })
        } else if f3 == 0b001 {
            StepOutcome::Float(FloatOp { kind: FloatOpKind::Flt, ..op })
        } else if f3 == 0b010 {
            StepOutcome::Float(FloatOp { kind: FloatOpKind::Feq, ..op })
        } else {
            StepOutcome::Fault(Fault::IllegalInstruction)
        }
    } else if f7 == 0b1101000 {
        if rs2 == 0b00000 {
            StepOutcome::Float(FloatOp { kind: FloatOpKind::CvtSW, ..op })
        } else if rs2 == 0b00001 {
            StepOutcome::Float(FloatOp { kind: FloatOpKind::CvtSWU, ..op })
        } else {
            StepOutcome::Fault(Fault::IllegalInstruction)
        }
    } else if f7 == 0b1111000 {
        if f3 == 0b000 {
            let v = read_reg(state, x_rs1(w));
            write_fregister(state, x_rd(w), v);
            advance_pc(state);
            StepOutcome::Next
        } else {
            StepOutcome::Fault(Fault::IllegalInstruction)
        }
    } else {
        StepOutcome::Fault(Fault::IllegalInstruction)
    }
}

fn exec_gpio(state: &mut CPUState, w: u32) -> (r: StepOutcome)
    requires
        old(state)@.wf(),
    ensures
        final(state)@ == step_gpio(old(state)@, w).0,
        r == step_gpio(old(state)@, w).1,
        final(state)@.wf(),
{
    let f3 = (w >> 12) & 0b111;
    let slot = (w >> 20) as usize;
    if f3 == 0b000 {
        if state.pc > 4088 {
            return StepOutcome::Fault(Fault::MemoryBounds);
        }
        if slot >= NUM_GPIOS {
            return StepOutcome::Fault(Fault::MemoryBounds);
        }
        let ca = state.read_mem(state.pc as usize + 4);
        if ca <= 4094 {
            let pull_up = state.memory_bytes[ca as usize] != 0;
            let value = state.memory_bytes[ca as usize + 1];
            state.gpio_states[slot] = GPIOState { pull_up, value };
            state.pc = state.pc.wrapping_add(8);
            StepOutcome::Next
        } else {
            StepOutcome::Fault(Fault::MemoryBounds)
        }
    } else if f3 == 0b001 {
        if slot >= NUM_GPIOS {
            return StepOutcome::Fault(Fault::MemoryBounds);
        }
        state.gpio_states[slot] = GPIOState::new();
        advance_pc(state);
        StepOutcome::Next
    } else {
        StepOutcome::Fault(Fault::IllegalInstruction)
    }
}

/// One fetch/decode/execute step over the machine state. Register zero
/// reads as zero after every step, faults leave the state untouched, and a
/// floating compute instruction is handed back undone as a [`FloatOp`].
pub fn decode_instruction(cpu_state: &mut CPUState) -> (r: StepOutcome)
    requires
        old(cpu_state)@.wf(),
    ensures
        final(cpu_state)@ == spec_step(old(cpu_state)@).0,
        r == spec_step(old(cpu_state)@).1,
        final(cpu_state)@.wf(),
        final(cpu_state)@.regs[0] == 0,
{
    if cpu_state.pc > 4092 {
        return StepOutcome::Fault(Fault::MemoryBounds);
    }
    let pc = cpu_state.pc;
    let instruction = cpu_state.read_mem(pc as usize);
    let opcode = instruction & 0b1111111;
    if opcode == 0b0110011 {
        exec_op(cpu_state, instruction)
    } else if opcode == 0b0010011 {
        exec_op_imm(cpu_state, instruction)
    } else if opcode == 0b0100011 {
        exec_store(cpu_state, instruction)
    } else if opcode == 0b0000011 {
        exec_load(cpu_state, instruction)
    } else if opcode == 0b1100011 {
        exec_branch(cpu_state, instruction)
    } else if opcode == 0b1100111 {
        exec_jalr(cpu_state, instruction)
    } else if opcode == 0b1101111 {
        exec_jal(cpu_state, instruction)
    } else if opcode == 0b0110111 {
        exec_lui(cpu_state, instruction)
    } else if opcode == 0b0010111 {
        exec_auipc(cpu_state, instruction)
    } else if opcode == 0b0001111 {
        advance_pc(cpu_state);
        StepOutcome::Next
    } else if opcode == 0b1110011 {
        exec_system(cpu_state, instruction)
    } else if opcode == 0b0000111 {
        exec_flw(cpu_state, instruction)
    } else if opcode == 0b0100111 {
        exec_fsw(cpu_state, instruction)
    } else if opcode == 0b1010011 {
        exec_float(cpu_state, instruction)
    } else if opcode == 0b1111000 {
        exec_gpio(cpu_state, instruction)
    } else {
        StepOutcome::Fault(Fault::IllegalInstruction)
    }
}

// ------------------------------------------------------------------
// Applying a floating result, the run loop, and image loading
// ------------------------------------------------------------------

/// The state after the driver hands back the bits a floating compute
/// instruction produced: the destination register file is the operation's,
/// and the program counter takes its deferred sequential step.
pub open spec fn spec_apply_float(c: Cpu, op: FloatOp, bits: u32) -> Cpu {
    if float_writes_int(op.kind) {
        advance(wreg(c, op.rd as int, bits))
    } else {
        advance(fwreg(c, op.rd as int, bits))
    }
}

fn is_int_destination(k: FloatOpKind) -> (b: bool)
    ensures
        b == float_writes_int(k),
{
    match k {
        FloatOpKind::CvtWS => true,
        FloatOpKind::CvtWUS => true,
        FloatOpKind::CvtSW => true,
        FloatOpKind::CvtSWU => true,
        FloatOpKind::Feq => true,
        FloatOpKind::Flt => true,
        FloatOpKind::Fle => true,
        _ => false,
    }
}

/// Writes the driver-computed result of a floating compute instruction back
/// into the machine and advances past the instruction.
pub fn apply_float_result(state: &mut CPUState, op: FloatOp, bits: u32)
    requires
        old(state)@.wf(),
        op.rd < 32,
    ensures
        final(state)@ == spec_apply_float(old(state)@, op, bits),
        final(state)@.wf(),
        final(state)@.regs[0] == 0,
{
    if is_int_destination(op.kind) {
        write_register(state, op.rd, bits);
    } else {
        write_fregister(state, op.rd, bits);
    }
    advance_pc(state);
}

/// Stepping until the exit convention, a fault, an exhausted budget, or a
/// floating compute instruction that needs the driver. An `ecall` halts the
/// run only when the syscall-number register (index 17) holds 10; any other
/// `ecall` leaves the program counter in place and is fetched again.
pub open spec fn spec_run(c: Cpu, fuel: u64) -> (Cpu, RunOutcome)
    decreases fuel,
{
    if fuel == 0 {
        (c, RunOutcome::OutOfSteps)
    } else {
        let s = spec_step(c);
        match s.1 {
            StepOutcome::Fault(f) => (s.0, RunOutcome::Faulted(f)),
            StepOutcome::Float(op) => (s.0, RunOutcome::NeedsFloat(op)),
            StepOutcome::Ecall => if s.0.regs[17] == 10 {
                (s.0, RunOutcome::Halted)
            } else {
                spec_run(s.0, (fuel - 1) as u64)
            },
            StepOutcome::Next => spec_run(s.0, (fuel - 1) as u64),
        }
    }
}

/// Runs the decode/execute loop for at most `max_steps` steps.
#[verifier::loop_isolation(false)]
pub fn run(state: &mut CPUState, max_steps: u64) -> (r: RunOutcome)
    requires
        old(state)@.wf(),
    ensures
        final(state)@ == spec_run(old(state)@, max_steps).0,
        r == spec_run(old(state)@, max_steps).1,
        final(state)@.wf(),
        final(state)@.regs[0] == 0,
{
    let ghost c0 = state@;
    let mut steps: u64 = 0;
    while steps < max_steps
        invariant
            0 <= steps <= max_steps,
            state@.wf(),
            spec_run(c0, max_steps) == spec_run(state@, (max_steps - steps) as u64),
        decreases max_steps - steps,
    {
        let ghost before = state@;
        let outcome = decode_instruction(state);
        match outcome {
            StepOutcome::Fault(f) => {
                return RunOutcome::Faulted(f);
            },
            StepOutcome::Float(op) => {
                return RunOutcome::NeedsFloat(op);
            },
            StepOutcome::Ecall => {
                if state.registers[17] == 10 {
                    return RunOutcome::Halted;
                }
            },
            StepOutcome::Next => {},
        }
        steps += 1;
    }
    RunOutcome::OutOfSteps
}

/// The byte index an image byte lands on: within each aligned group of four
/// the order is reversed, turning the image's big-endian words into the
/// little-endian layout the word helpers use.
pub open spec fn swizzle_idx(i: int) -> int {
    (i / 4) * 4 + 3 - (i % 4)
}

pub open spec fn spec_load_upto(m: Seq<u8>, img: Seq<u8>, n: int) -> Seq<u8>
    decreases n,
{
    if n <= 0 {
        m
    } else {
        spec_load_upto(m, img, n - 1).update(swizzle_idx(n - 1), img[n - 1])
    }
}

/// The memory after an image is loaded at address zero, byte-reversed
/// within each four-byte group.
pub open spec fn spec_load(m: Seq<u8>, img: Seq<u8>) -> Seq<u8> {
    spec_load_upto(m, img, img.len() as int)
}

/// Loads an assembled image (big-endian words) into memory starting at
/// address zero, reversing each four-byte group into the memory byte order.
#[verifier::loop_isolation(false)]
pub fn load_image(state: &mut CPUState, image: &Vec<u8>)
    requires
        old(state)@.wf(),
        image@.len() <= MEM_SIZE_BYTES,
    ensures
        final(state)@.mem == spec_load(old(state)@.mem, image@),
        final(state)@.regs == old(state)@.regs,
        final(state)@.fregs == old(state)@.fregs,
        final(state)@.pc == old(state)@.pc,
        final(state)@.gpios == old(state)@.gpios,
        final(state)@.wf(),
{
    let ghost m0 = state@.mem;
    let n = image.len();
    let mut i: usize = 0;
    while i < n
        invariant
            0 <= i <= n,
            state@.mem == spec_load_upto(m0, image@, i as int),
            state@.regs == old(state)@.regs,
            state@.fregs == old(state)@.fregs,
            state@.pc == old(state)@.pc,
            state@.gpios == old(state)@.gpios,
            state@.wf(),
        decreases n - i,
    {
        let index: usize = (i / 4) * 4 + 3 - (i % 4);
        proof {
            assert(index < MEM_SIZE_BYTES);
        }
        state.memory_bytes[index] = image[i];
        i += 1;
    }
}

/// Loading an image and running it, as one specification.
pub open spec fn spec_interpret(c: Cpu, img: Seq<u8>, fuel: u64) -> (Cpu, RunOutcome) {
    spec_run(with_mem(c, spec_load(c.mem, img)), fuel)
}

/// Loads an assembled program image into memory at address zero and runs
/// the decode/execute loop over it for at most `max_steps` steps.
pub fn interpret_bytes(program: &Vec<u8>, cpu_state: &mut CPUState, max_steps: u64) -> (r:
    RunOutcome)
    requires
        old(cpu_state)@.wf(),
        program@.len() <= MEM_SIZE_BYTES,
    ensures
        final(cpu_state)@ == spec_interpret(old(cpu_state)@, program@, max_steps).0,
        r == spec_interpret(old(cpu_state)@, program@, max_steps).1,
        final(cpu_state)@.wf(),
        final(cpu_state)@.regs[0] == 0,
{
    load_image(cpu_state, program);
    proof {
        assert(cpu_state@ == with_mem(old(cpu_state)@, spec_load(old(cpu_state)@.mem, program@)));
    }
    run(cpu_state, max_steps)
}

// ------------------------------------------------------------------
// Laws
// ------------------------------------------------------------------

/// Fault behavior: a word whose opcode lies outside the defined set decodes
/// to an illegal-instruction fault, and the machine state is untouched.
pub proof fn lemma_illegal_opcode_fault(c: Cpu)
    requires
        c.pc <= MEM_SIZE_BYTES - 4,
        !is_defined_opcode(f_opcode(spec_read_word(c.mem, c.pc as int))),
    ensures
        spec_step(c) == (c, StepOutcome::Fault(Fault::IllegalInstruction)),
{
}

/// Register zero invariant: whatever instruction a step executes, register
/// zero still reads as zero afterwards.
#[verifier::rlimit(60)]
pub proof fn lemma_register_zero_invariant(c: Cpu)
    requires
        c.wf(),
    ensures
        spec_step(c).0.regs[0] == 0,
{
    let w = spec_read_word(c.mem, c.pc as int);
    assert((w >> 7) & 0b11111 < 32) by (bit_vector);
    let rd = f_rd(w) as int;
    assert forall|v: u32| #[trigger] wreg(c, rd, v).regs[0] == 0 by {
        if rd != 0 {
            assert(c.regs.update(rd, v)[0] == c.regs[0]);
        }
    }
    let op = f_opcode(w);
    if c.pc <= MEM_SIZE_BYTES - 4 {
        if op == 0b0110011 {
            assert(step_op(c, w).0.regs[0] == 0);
        } else if op == 0b0010011 {
            assert(step_op_imm(c, w).0.regs[0] == 0);
        } else if op == 0b0100011 {
            assert(step_store(c, w).0.regs[0] == 0);
        } else if op == 0b0000011 {
            assert(step_load(c, w).0.regs[0] == 0);
        } else if op == 0b1100011 {
            assert(step_branch(c, w).0.regs[0] == 0);
        } else if op == 0b1010011 {
            assert(step_float(c, w).0.regs[0] == 0);
        } else if op == 0b1111000 {
            assert(step_gpio(c, w).0.regs[0] == 0);
        }
    }
}

} // verus!
