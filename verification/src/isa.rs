//! The instruction metadata table: for each mnemonic its format and its
//! opcode, funct3 and funct7 bit patterns, and the register-name-to-index
//! mapping. Built as explicit lookups, immutable by construction.

use vstd::prelude::*;

use crate::strutil::{all_digits, dec_val, digit_val, eq_str, is_digit, lemma_dec_val_canonical};
use vstd::string::StrSliceExecFns;

verus! {

/// The six machine-word bit-field layouts.
#[derive(Structural, PartialEq, Eq, Debug, Clone, Copy)]
pub enum Format {
    R,
    I,
    S,
    U,
    B,
    J,
}

/// One mnemonic's entry in the metadata table.
#[derive(Structural, PartialEq, Eq, Debug, Clone, Copy)]
pub struct MnemonicInfo {
    pub format: Format,
    pub opcode: i64,
    pub funct3: i64,
    pub funct7: i64,
}

/// The table entry for a (lowercase) mnemonic, if it names an instruction.
pub open spec fn spec_mnemonic(m: Seq<char>) -> Option<MnemonicInfo> {
    if m == "add"@ {
        Some(MnemonicInfo { format: Format::R, opcode: 0b0110011, funct3: 0b000, funct7: 0b0000000 })
    } else if m == "sub"@ {
        Some(MnemonicInfo { format: Format::R, opcode: 0b0110011, funct3: 0b000, funct7: 0b0100000 })
    } else if m == "sll"@ {
        Some(MnemonicInfo { format: Format::R, opcode: 0b0110011, funct3: 0b001, funct7: 0b0000000 })
    } else if m == "slt"@ {
        Some(MnemonicInfo { format: Format::R, opcode: 0b0110011, funct3: 0b010, funct7: 0b0000000 })
    } else if m == "sltu"@ {
        Some(MnemonicInfo { format: Format::R, opcode: 0b0110011, funct3: 0b011, funct7: 0b0000000 })
    } else if m == "xor"@ {
        Some(MnemonicInfo { format: Format::R, opcode: 0b0110011, funct3: 0b100, funct7: 0b0000000 })
    } else if m == "srl"@ {
        Some(MnemonicInfo { format: Format::R, opcode: 0b0110011, funct3: 0b101, funct7: 0b0000000 })
    } else if m == "sra"@ {
        Some(MnemonicInfo { format: Format::R, opcode: 0b0110011, funct3: 0b101, funct7: 0b0100000 })
    } else if m == "or"@ {
        Some(MnemonicInfo { format: Format::R, opcode: 0b0110011, funct3: 0b110, funct7: 0b0000000 })
    } else if m == "and"@ {
        Some(MnemonicInfo { format: Format::R, opcode: 0b0110011, funct3: 0b111, funct7: 0b0000000 })
    } else if m == "mul"@ {
        Some(MnemonicInfo { format: Format::R, opcode: 0b0110011, funct3: 0b000, funct7: 0b0000001 })
    } else if m == "mulh"@ {
        Some(MnemonicInfo { format: Format::R, opcode: 0b0110011, funct3: 0b001, funct7: 0b0000001 })
    } else if m == "mulhsu"@ {
        Some(MnemonicInfo { format: Format::R, opcode: 0b0110011, funct3: 0b010, funct7: 0b0000001 })
    } else if m == "mulhu"@ {
        Some(MnemonicInfo { format: Format::R, opcode: 0b0110011, funct3: 0b011, funct7: 0b0000001 })
    } else if m == "div"@ {
        Some(MnemonicInfo { format: Format::R, opcode: 0b0110011, funct3: 0b100, funct7: 0b0000001 })
    } else if m == "divu"@ {
        Some(MnemonicInfo { format: Format::R, opcode: 0b0110011, funct3: 0b101, funct7: 0b0000001 })
    } else if m == "rem"@ {
        Some(MnemonicInfo { format: Format::R, opcode: 0b0110011, funct3: 0b110, funct7: 0b0000001 })
    } else if m == "remu"@ {
        Some(MnemonicInfo { format: Format::R, opcode: 0b0110011, funct3: 0b111, funct7: 0b0000001 })
    } else if m == "addi"@ {
        Some(MnemonicInfo { format: Format::I, opcode: 0b0010011, funct3: 0b000, funct7: 0b0000000 })
    } else if m == "slti"@ {
        Some(MnemonicInfo { format: Format::I, opcode: 0b0010011, funct3: 0b010, funct7: 0b0000000 })
    } else if m == "sltiu"@ {
        Some(MnemonicInfo { format: Format::I, opcode: 0b0010011, funct3: 0b011, funct7: 0b0000000 })
    } else if m == "xori"@ {
        Some(MnemonicInfo { format: Format::I, opcode: 0b0010011, funct3: 0b100, funct7: 0b0000000 })
    } else if m == "ori"@ {
        Some(MnemonicInfo { format: Format::I, opcode: 0b0010011, funct3: 0b110, funct7: 0b0000000 })
    } else if m == "andi"@ {
        Some(MnemonicInfo { format: Format::I, opcode: 0b0010011, funct3: 0b111, funct7: 0b0000000 })
    } else if m == "slli"@ {
        Some(MnemonicInfo { format: Format::I, opcode: 0b0010011, funct3: 0b001, funct7: 0b0000000 })
    } else if m == "srli"@ {
        Some(MnemonicInfo { format: Format::I, opcode: 0b0010011, funct3: 0b101, funct7: 0b0000000 })
    } else if m == "srai"@ {
        Some(MnemonicInfo { format: Format::I, opcode: 0b0010011, funct3: 0b101, funct7: 0b0100000 })
    } else if m == "lb"@ {
        Some(MnemonicInfo { format: Format::I, opcode: 0b0000011, funct3: 0b000, funct7: 0b0000000 })
    } else if m == "lh"@ {
        Some(MnemonicInfo { format: Format::I, opcode: 0b0000011, funct3: 0b001, funct7: 0b0000000 })
    } else if m == "lw"@ {
        Some(MnemonicInfo { format: Format::I, opcode: 0b0000011, funct3: 0b010, funct7: 0b0000000 })
    } else if m == "lbu"@ {
        Some(MnemonicInfo { format: Format::I, opcode: 0b0000011, funct3: 0b100, funct7: 0b0000000 })
    } else if m == "lhu"@ {
        Some(MnemonicInfo { format: Format::I, opcode: 0b0000011, funct3: 0b101, funct7: 0b0000000 })
    } else if m == "flw"@ {
        Some(MnemonicInfo { format: Format::I, opcode: 0b0000111, funct3: 0b010, funct7: 0b0000000 })
    } else if m == "jalr"@ {
        Some(MnemonicInfo { format: Format::I, opcode: 0b1100111, funct3: 0b000, funct7: 0b0000000 })
    } else if m == "sb"@ {
        Some(MnemonicInfo { format: Format::S, opcode: 0b0100011, funct3: 0b000, funct7: 0b0000000 })
    } else if m == "sh"@ {
        Some(MnemonicInfo { format: Format::S, opcode: 0b0100011, funct3: 0b001, funct7: 0b0000000 })
    } else if m == "sw"@ {
        Some(MnemonicInfo { format: Format::S, opcode: 0b0100011, funct3: 0b010, funct7: 0b0000000 })
    } else if m == "fsw"@ {
        Some(MnemonicInfo { format: Format::S, opcode: 0b0100111, funct3: 0b010, funct7: 0b0000000 })
    } else if m == "lui"@ {
        Some(MnemonicInfo { format: Format::U, opcode: 0b0110111, funct3: 0b000, funct7: 0b0000000 })
    } else if m == "auipc"@ {
        Some(MnemonicInfo { format: Format::U, opcode: 0b0010111, funct3: 0b000, funct7: 0b0000000 })
    } else if m == "beq"@ {
        Some(MnemonicInfo { format: Format::B, opcode: 0b1100011, funct3: 0b000, funct7: 0b0000000 })
    } else if m == "bne"@ {
        Some(MnemonicInfo { format: Format::B, opcode: 0b1100011, funct3: 0b001, funct7: 0b0000000 })
    } else if m == "blt"@ {
        Some(MnemonicInfo { format: Format::B, opcode: 0b1100011, funct3: 0b100, funct7: 0b0000000 })
    } else if m == "bge"@ {
        Some(MnemonicInfo { format: Format::B, opcode: 0b1100011, funct3: 0b101, funct7: 0b0000000 })
    } else if m == "bltu"@ {
        Some(MnemonicInfo { format: Format::B, opcode: 0b1100011, funct3: 0b110, funct7: 0b0000000 })
    } else if m == "bgeu"@ {
        Some(MnemonicInfo { format: Format::B, opcode: 0b1100011, funct3: 0b111, funct7: 0b0000000 })
    } else if m == "jal"@ {
        Some(MnemonicInfo { format: Format::J, opcode: 0b1101111, funct3: 0b000, funct7: 0b0000000 })
    } else {
        None
    }
}

/// Mnemonics whose memory operand uses the `offset(base)` syntax.
pub open spec fn spec_is_bracket(m: Seq<char>) -> bool {
    m == "lw"@ || m == "lh"@ || m == "lb"@ || m == "lhu"@ || m == "lbu"@ || m == "flw"@
}

/// The register index for an ABI register name, if it is one.
pub open spec fn spec_abi_reg(t: Seq<char>) -> Option<i64> {
    if t == "t0"@ {
        Some(5)
    } else if t == "t1"@ {
        Some(6)
    } else if t == "t2"@ {
        Some(7)
    } else if t == "fp"@ {
        Some(8)
    } else if t == "s0"@ {
        Some(8)
    } else if t == "s1"@ {
        Some(9)
    } else if t == "a0"@ {
        Some(10)
    } else if t == "a1"@ {
        Some(11)
    } else if t == "a2"@ {
        Some(12)
    } else if t == "a3"@ {
        Some(13)
    } else if t == "a4"@ {
        Some(14)
    } else if t == "a5"@ {
        Some(15)
    } else if t == "a6"@ {
        Some(16)
    } else if t == "a7"@ {
        Some(17)
    } else if t == "s2"@ {
        Some(18)
    } else if t == "s3"@ {
        Some(19)
    } else if t == "s4"@ {
        Some(20)
    } else if t == "s5"@ {
        Some(21)
    } else if t == "s6"@ {
        Some(22)
    } else if t == "s7"@ {
        Some(23)
    } else if t == "s8"@ {
        Some(24)
    } else if t == "s9"@ {
        Some(35)
    } else if t == "s10"@ {
        Some(26)
    } else if t == "s11"@ {
        Some(27)
    } else {
        None
    }
}

/// The register index a token names: `x0`..`x31` written canonically, or an
/// ABI name.
pub open spec fn spec_reg_index(t: Seq<char>) -> Option<i64> {
    let ds = t.subrange(1, t.len() as int);
    if t.len() >= 2 && t[0] == 'x' && all_digits(ds) && (ds.len() == 1 || ds[0] != '0')
        && dec_val(ds) < 32 {
        Some(dec_val(ds) as i64)
    } else {
        spec_abi_reg(t)
    }
}

pub fn mnemonic_info(m: &str) -> (r: Option<MnemonicInfo>)
    ensures
        r == spec_mnemonic(m@),
{
    if eq_str(m, "add") {
        Some(MnemonicInfo { format: Format::R, opcode: 0b0110011, funct3: 0b000, funct7: 0b0000000 })
    } else if eq_str(m, "sub") {
        Some(MnemonicInfo { format: Format::R, opcode: 0b0110011, funct3: 0b000, funct7: 0b0100000 })
    } else if eq_str(m, "sll") {
        Some(MnemonicInfo { format: Format::R, opcode: 0b0110011, funct3: 0b001, funct7: 0b0000000 })
    } else if eq_str(m, "slt") {
        Some(MnemonicInfo { format: Format::R, opcode: 0b0110011, funct3: 0b010, funct7: 0b0000000 })
    } else if eq_str(m, "sltu") {
        Some(MnemonicInfo { format: Format::R, opcode: 0b0110011, funct3: 0b011, funct7: 0b0000000 })
    } else if eq_str(m, "xor") {
        Some(MnemonicInfo { format: Format::R, opcode: 0b0110011, funct3: 0b100, funct7: 0b0000000 })
    } else if eq_str(m, "srl") {
        Some(MnemonicInfo { format: Format::R, opcode: 0b0110011, funct3: 0b101, funct7: 0b0000000 })
    } else if eq_str(m, "sra") {
        Some(MnemonicInfo { format: Format::R, opcode: 0b0110011, funct3: 0b101, funct7: 0b0100000 })
    } else if eq_str(m, "or") {
        Some(MnemonicInfo { format: Format::R, opcode: 0b0110011, funct3: 0b110, funct7: 0b0000000 })
    } else if eq_str(m, "and") {
        Some(MnemonicInfo { format: Format::R, opcode: 0b0110011, funct3: 0b111, funct7: 0b0000000 })
    } else if eq_str(m, "mul") {
        Some(MnemonicInfo { format: Format::R, opcode: 0b0110011, funct3: 0b000, funct7: 0b0000001 })
    } else if eq_str(m, "mulh") {
        Some(MnemonicInfo { format: Format::R, opcode: 0b0110011, funct3: 0b001, funct7: 0b0000001 })
    } else if eq_str(m, "mulhsu") {
        Some(MnemonicInfo { format: Format::R, opcode: 0b0110011, funct3: 0b010, funct7: 0b0000001 })
    } else if eq_str(m, "mulhu") {
        Some(MnemonicInfo { format: Format::R, opcode: 0b0110011, funct3: 0b011, funct7: 0b0000001 })
    } else if eq_str(m, "div") {
        Some(MnemonicInfo { format: Format::R, opcode: 0b0110011, funct3: 0b100, funct7: 0b0000001 })
    } else if eq_str(m, "divu") {
        Some(MnemonicInfo { format: Format::R, opcode: 0b0110011, funct3: 0b101, funct7: 0b0000001 })
    } else if eq_str(m, "rem") {
        Some(MnemonicInfo { format: Format::R, opcode: 0b0110011, funct3: 0b110, funct7: 0b0000001 })
    } else if eq_str(m, "remu") {
        Some(MnemonicInfo { format: Format::R, opcode: 0b0110011, funct3: 0b111, funct7: 0b0000001 })
    } else if eq_str(m, "addi") {
        Some(MnemonicInfo { format: Format::I, opcode: 0b0010011, funct3: 0b000, funct7: 0b0000000 })
    } else if eq_str(m, "slti") {
        Some(MnemonicInfo { format: Format::I, opcode: 0b0010011, funct3: 0b010, funct7: 0b0000000 })
    } else if eq_str(m, "sltiu") {
        Some(MnemonicInfo { format: Format::I, opcode: 0b0010011, funct3: 0b011, funct7: 0b0000000 })
    } else if eq_str(m, "xori") {
        Some(MnemonicInfo { format: Format::I, opcode: 0b0010011, funct3: 0b100, funct7: 0b0000000 })
    } else if eq_str(m, "ori") {
        Some(MnemonicInfo { format: Format::I, opcode: 0b0010011, funct3: 0b110, funct7: 0b0000000 })
    } else if eq_str(m, "andi") {
        Some(MnemonicInfo { format: Format::I, opcode: 0b0010011, funct3: 0b111, funct7: 0b0000000 })
    } else if eq_str(m, "slli") {
        Some(MnemonicInfo { format: Format::I, opcode: 0b0010011, funct3: 0b001, funct7: 0b0000000 })
    } else if eq_str(m, "srli") {
        Some(MnemonicInfo { format: Format::I, opcode: 0b0010011, funct3: 0b101, funct7: 0b0000000 })
    } else if eq_str(m, "srai") {
        Some(MnemonicInfo { format: Format::I, opcode: 0b0010011, funct3: 0b101, funct7: 0b0100000 })
    } else if eq_str(m, "lb") {
        Some(MnemonicInfo { format: Format::I, opcode: 0b0000011, funct3: 0b000, funct7: 0b0000000 })
    } else if eq_str(m, "lh") {
        Some(MnemonicInfo { format: Format::I, opcode: 0b0000011, funct3: 0b001, funct7: 0b0000000 })
    } else if eq_str(m, "lw") {
        Some(MnemonicInfo { format: Format::I, opcode: 0b0000011, funct3: 0b010, funct7: 0b0000000 })
    } else if eq_str(m, "lbu") {
        Some(MnemonicInfo { format: Format::I, opcode: 0b0000011, funct3: 0b100, funct7: 0b0000000 })
    } else if eq_str(m, "lhu") {
        Some(MnemonicInfo { format: Format::I, opcode: 0b0000011, funct3: 0b101, funct7: 0b0000000 })
    } else if eq_str(m, "flw") {
        Some(MnemonicInfo { format: Format::I, opcode: 0b0000111, funct3: 0b010, funct7: 0b0000000 })
    } else if eq_str(m, "jalr") {
        Some(MnemonicInfo { format: Format::I, opcode: 0b1100111, funct3: 0b000, funct7: 0b0000000 })
    } else if eq_str(m, "sb") {
        Some(MnemonicInfo { format: Format::S, opcode: 0b0100011, funct3: 0b000, funct7: 0b0000000 })
    } else if eq_str(m, "sh") {
        Some(MnemonicInfo { format: Format::S, opcode: 0b0100011, funct3: 0b001, funct7: 0b0000000 })
    } else if eq_str(m, "sw") {
        Some(MnemonicInfo { format: Format::S, opcode: 0b0100011, funct3: 0b010, funct7: 0b0000000 })
    } else if eq_str(m, "fsw") {
        Some(MnemonicInfo { format: Format::S, opcode: 0b0100111, funct3: 0b010, funct7: 0b0000000 })
    } else if eq_str(m, "lui") {
        Some(MnemonicInfo { format: Format::U, opcode: 0b0110111, funct3: 0b000, funct7: 0b0000000 })
    } else if eq_str(m, "auipc") {
        Some(MnemonicInfo { format: Format::U, opcode: 0b0010111, funct3: 0b000, funct7: 0b0000000 })
    } else if eq_str(m, "beq") {
        Some(MnemonicInfo { format: Format::B, opcode: 0b1100011, funct3: 0b000, funct7: 0b0000000 })
    } else if eq_str(m, "bne") {
        Some(MnemonicInfo { format: Format::B, opcode: 0b1100011, funct3: 0b001, funct7: 0b0000000 })
    } else if eq_str(m, "blt") {
        Some(MnemonicInfo { format: Format::B, opcode: 0b1100011, funct3: 0b100, funct7: 0b0000000 })
    } else if eq_str(m, "bge") {
        Some(MnemonicInfo { format: Format::B, opcode: 0b1100011, funct3: 0b101, funct7: 0b0000000 })
    } else if eq_str(m, "bltu") {
        Some(MnemonicInfo { format: Format::B, opcode: 0b1100011, funct3: 0b110, funct7: 0b0000000 })
    } else if eq_str(m, "bgeu") {
        Some(MnemonicInfo { format: Format::B, opcode: 0b1100011, funct3: 0b111, funct7: 0b0000000 })
    } else if eq_str(m, "jal") {
        Some(MnemonicInfo { format: Format::J, opcode: 0b1101111, funct3: 0b000, funct7: 0b0000000 })
    } else {
        None
    }
}

pub fn is_bracket_mnemonic(m: &str) -> (r: bool)
    ensures
        r == spec_is_bracket(m@),
{
    eq_str(m, "lw") || eq_str(m, "lh") || eq_str(m, "lb") || eq_str(m, "lhu") || eq_str(m, "lbu") || eq_str(m, "flw")
}

fn abi_reg(t: &str) -> (r: Option<i64>)
    ensures
        r == spec_abi_reg(t@),
{
    if eq_str(t, "t0") {
        Some(5)
    } else if eq_str(t, "t1") {
        Some(6)
    } else if eq_str(t, "t2") {
        Some(7)
    } else if eq_str(t, "fp") {
        Some(8)
    } else if eq_str(t, "s0") {
        Some(8)
    } else if eq_str(t, "s1") {
        Some(9)
    } else if eq_str(t, "a0") {
        Some(10)
    } else if eq_str(t, "a1") {
        Some(11)
    } else if eq_str(t, "a2") {
        Some(12)
    } else if eq_str(t, "a3") {
        Some(13)
    } else if eq_str(t, "a4") {
        Some(14)
    } else if eq_str(t, "a5") {
        Some(15)
    } else if eq_str(t, "a6") {
        Some(16)
    } else if eq_str(t, "a7") {
        Some(17)
    } else if eq_str(t, "s2") {
        Some(18)
    } else if eq_str(t, "s3") {
        Some(19)
    } else if eq_str(t, "s4") {
        Some(20)
    } else if eq_str(t, "s5") {
        Some(21)
    } else if eq_str(t, "s6") {
        Some(22)
    } else if eq_str(t, "s7") {
        Some(23)
    } else if eq_str(t, "s8") {
        Some(24)
    } else if eq_str(t, "s9") {
        Some(35)
    } else if eq_str(t, "s10") {
        Some(26)
    } else if eq_str(t, "s11") {
        Some(27)
    } else {
        None
    }
}

/// Looks a register token up, trying the `x`-number form first and the ABI
/// names second.
pub fn reg_index(t: &str) -> (r: Option<i64>)
    ensures
        r == spec_reg_index(t@),
{
    let len = t.unicode_len();
    let ghost ds = t@.subrange(1, t@.len() as int);
    if len >= 2 && t.get_char(0) == 'x' {
        let mut i: usize = 1;
        let mut digits_ok = true;
        while i < len && digits_ok
            invariant
                1 <= i <= len,
                len == t@.len(),
                ds == t@.subrange(1, t@.len() as int),
                digits_ok ==> forall|j: int| 0 <= j < i - 1 ==> is_digit(#[trigger] ds[j]),
                !digits_ok ==> !all_digits(ds),
            decreases len - i + (if digits_ok { 1int } else { 0int }),
        {
            let c = t.get_char(i);
            if (c as u32) < 48 || (c as u32) > 57 {
                proof {
                    assert(!is_digit(ds[i - 1]));
                }
                digits_ok = false;
            } else {
                i += 1;
            }
        }
        if digits_ok {
            proof {
                assert(all_digits(ds));
            }
            if len == 2 {
                proof {
                    assert(ds.len() == 1);
                    assert(ds[0] == t@[1]);
                    assert(is_digit(ds[0]));
                    assert(ds.last() == t@[1]);
                    assert(ds.drop_last().len() == 0);
                    assert(dec_val(ds.drop_last()) == 0);
                    assert(dec_val(ds) == digit_val(t@[1]));
                }
                let d0 = (t.get_char(1) as u32 - 48) as i64;
                return Some(d0);
            } else if len == 3 {
                proof {
                    assert(ds.len() == 2);
                    assert(ds[0] == t@[1]);
                    assert(ds[1] == t@[2]);
                    assert(is_digit(ds[0]));
                    assert(is_digit(ds[1]));
                    assert(ds.last() == t@[2]);
                    let p = ds.drop_last();
                    assert(p.len() == 1);
                    assert(p.last() == ds[0]);
                    assert(p.drop_last().len() == 0);
                    assert(dec_val(p.drop_last()) == 0);
                    assert(dec_val(p) == digit_val(t@[1]));
                    assert(dec_val(ds) == digit_val(t@[1]) * 10 + digit_val(t@[2]));
                }
                let d0 = t.get_char(1) as u32 - 48;
                let d1 = t.get_char(2) as u32 - 48;
                if d0 == 0 {
                    return abi_reg(t);
                }
                let v = (d0 * 10 + d1) as i64;
                if v < 32 {
                    return Some(v);
                } else {
                    return abi_reg(t);
                }
            } else {
                proof {
                    assert(ds.len() >= 3);
                    if ds[0] != '0' {
                        lemma_dec_val_canonical(ds);
                    }
                }
                return abi_reg(t);
            }
        } else {
            return abi_reg(t);
        }
    }
    abi_reg(t)
}

} // verus!
