//! The assembler pipeline: pseudo-instruction expansion, label resolution,
//! per-format bit packing, and the `assemble` entry point that ties the
//! stages together.

use vstd::prelude::*;
use vstd::string::StrSliceExecFns;
use vstd::string::StringExecFns;

use crate::ast::{ASTInstruction, ASTLabel, AErrV, AsmError, Line, LineList, LineV, lines_view};
use crate::isa::{Format, MnemonicInfo, is_bracket_mnemonic, mnemonic_info, reg_index,
    spec_is_bracket, spec_mnemonic, spec_reg_index};
use crate::parser::{parse_program, pre_process, spec_parse, spec_preprocess};
use crate::strutil::{eq_str, find_char, i64_to_string, idx_of, int_str, lemma_idx_of, lower_str,
    parse_i32_exec, parse_i32_spec, parse_i64_exec, parse_i64_spec, strs_view, to_lower};

verus! {

// ------------------------------------------------------------------
// Label table
// ------------------------------------------------------------------

/// The label-to-address map of an association list: a later entry for the
/// same name overrides an earlier one, as repeated insertion would.
pub open spec fn al_map(s: Seq<(String, i64)>) -> Map<Seq<char>, i64>
    decreases s.len(),
{
    if s.len() == 0 {
        Map::empty()
    } else {
        al_map(s.drop_last()).insert(s.last().0@, s.last().1)
    }
}

/// The label table built during resolution: label name to byte address.
pub struct LabelTable {
    pub entries: Vec<(String, i64)>,
}

impl View for LabelTable {
    type V = Map<Seq<char>, i64>;

    open spec fn view(&self) -> Map<Seq<char>, i64> {
        al_map(self.entries@)
    }
}

fn lookup_prefix(v: &Vec<(String, i64)>, n: usize, tok: &str) -> (r: Option<i64>)
    requires
        n <= v@.len(),
    ensures
        r == if al_map(v@.take(n as int)).contains_key(tok@) {
            Some(al_map(v@.take(n as int))[tok@])
        } else {
            None::<i64>
        },
    decreases n,
{
    if n == 0 {
        proof {
            assert(v@.take(0).len() == 0);
        }
        None
    } else {
        proof {
            assert(v@.take(n as int).drop_last() =~= v@.take(n - 1));
            assert(v@.take(n as int).last() == v@[n - 1]);
        }
        let e = &v[n - 1];
        if eq_str(e.0.as_str(), tok) {
            Some(e.1)
        } else {
            lookup_prefix(v, n - 1, tok)
        }
    }
}

impl LabelTable {
    pub fn new() -> (r: Self)
        ensures
            r@ == Map::<Seq<char>, i64>::empty(),
    {
        LabelTable { entries: Vec::new() }
    }

    pub fn insert(&mut self, name: String, addr: i64)
        ensures
            final(self)@ == old(self)@.insert(name@, addr),
    {
        let ghost prev = self.entries@;
        self.entries.push((name, addr));
        proof {
            assert(self.entries@.drop_last() =~= prev);
        }
    }

    pub fn lookup(&self, tok: &str) -> (r: Option<i64>)
        ensures
            r == if self@.contains_key(tok@) {
                Some(self@[tok@])
            } else {
                None::<i64>
            },
    {
        let n = self.entries.len();
        proof {
            assert(self.entries@.take(n as int) =~= self.entries@);
        }
        lookup_prefix(&self.entries, n, tok)
    }
}

// ------------------------------------------------------------------
// Label substitution
// ------------------------------------------------------------------

/// A token equal to a known label name is replaced by that label's decimal
/// address; every other token passes through.
pub open spec fn subst_token(labels: Map<Seq<char>, i64>, t: Seq<char>) -> Seq<char> {
    if labels.contains_key(t) {
        int_str(labels[t] as int)
    } else {
        t
    }
}

pub open spec fn subst_tokens(labels: Map<Seq<char>, i64>, toks: Seq<Seq<char>>) -> Seq<
    Seq<char>,
> {
    toks.map_values(|t: Seq<char>| subst_token(labels, t))
}

/// Replaces every operand token that names a label with the label's
/// resolved decimal address.
pub fn remove_labels_from_tokens(tokens: &mut Vec<String>, labels: &LabelTable)
    ensures
        strs_view(final(tokens)@) == subst_tokens(labels@, strs_view(old(tokens)@)),
{
    let ghost orig = strs_view(old(tokens)@);
    let mut out: Vec<String> = Vec::new();
    let mut i: usize = 0;
    let n = tokens.len();
    while i < n
        invariant
            0 <= i <= n,
            n == tokens@.len(),
            orig == strs_view(tokens@),
            out@.len() == i,
            forall|j: int|
                0 <= j < i ==> #[trigger] out@[j]@ == subst_token(labels@, orig[j]),
        decreases n - i,
    {
        match labels.lookup(tokens[i].as_str()) {
            Some(addr) => {
                out.push(i64_to_string(addr));
            },
            None => {
                let t = tokens[i].as_str().to_owned();
                out.push(t);
            },
        }
        i += 1;
    }
    *tokens = out;
    proof {
        assert(strs_view(tokens@) =~= subst_tokens(labels@, orig));
    }
}

// ------------------------------------------------------------------
// Bit packing and byte emission
// ------------------------------------------------------------------

/// Big-endian bytes of the low 32 bits of a packed word.
pub open spec fn spec_word_bytes(w: i64) -> Seq<u8> {
    seq![
        (w >> 24 & 0xFF) as u8,
        (w >> 16 & 0xFF) as u8,
        (w >> 8 & 0xFF) as u8,
        (w & 0xFF) as u8,
    ]
}

/// Emits one packed word as four bytes, most significant first.
pub fn int_to_4_byte_vec(integer: i64) -> (r: Vec<u8>)
    ensures
        r@ == spec_word_bytes(integer),
{
    let mut v: Vec<u8> = Vec::new();
    v.push((integer >> 24 & 0xFF) as u8);
    v.push((integer >> 16 & 0xFF) as u8);
    v.push((integer >> 8 & 0xFF) as u8);
    v.push((integer & 0xFF) as u8);
    proof {
        assert(v@ =~= spec_word_bytes(integer));
    }
    v
}

/// funct7 | rs2 | rs1 | funct3 | rd | opcode, each field masked to width.
pub open spec fn pack_r(info: MnemonicInfo, rd: i64, rs1: i64, rs2: i64) -> i64 {
    (info.funct7 & 0b1111111) << 25 | (rs2 & 0b11111) << 20 | (rs1 & 0b11111) << 15 | (info.funct3
        & 0b111) << 12 | (rd & 0b11111) << 7 | (info.opcode & 0b1111111)
}

/// imm[11:0] | rs1 | funct3 | rd | opcode.
pub open spec fn pack_i(info: MnemonicInfo, rd: i64, rs1: i64, imm: i64) -> i64 {
    (imm & 0xFFF) << 20 | (rs1 & 0b11111) << 15 | (info.funct3 & 0b111) << 12 | (rd & 0b11111) << 7
        | (info.opcode & 0b1111111)
}

/// imm[11:5] | rs2 | rs1 | funct3 | imm[4:0] | opcode.
pub open spec fn pack_s(info: MnemonicInfo, rs2: i64, rs1: i64, imm: i64) -> i64 {
    ((imm >> 5) & 0x7F) << 25 | (rs2 & 0b11111) << 20 | (rs1 & 0b11111) << 15 | (info.funct3
        & 0b111) << 12 | (imm & 0x1F) << 7 | (info.opcode & 0b1111111)
}

/// imm[31:12] | rd | opcode.
pub open spec fn pack_u(info: MnemonicInfo, rd: i64, imm: i64) -> i64 {
    (imm & 0xFFFFF) << 12 | (rd & 0b11111) << 7 | (info.opcode & 0b1111111)
}

/// imm[12] | imm[10:5] | rs2 | rs1 | funct3 | imm[4:1] | imm[11] | opcode;
/// the immediate is a byte displacement whose bit 0 is implicitly zero.
pub open spec fn pack_b(info: MnemonicInfo, rs1: i64, rs2: i64, imm: i64) -> i64 {
    (info.opcode & 0b1111111) | (rs1 & 0b11111) << 15 | (rs2 & 0b11111) << 20 | (info.funct3
        & 0b111) << 12 | ((imm >> 12) & 0b1) << 31 | ((imm >> 5) & 0b111111) << 25 | ((imm >> 11)
        & 0b1) << 7 | ((imm >> 1) & 0b1111) << 8
}

/// imm[20] | imm[10:1] | imm[11] | imm[19:12] | rd | opcode.
pub open spec fn pack_j(info: MnemonicInfo, rd: i64, imm: i64) -> i64 {
    (rd & 0b11111) << 7 | (info.opcode & 0b1111111) | ((imm >> 12) & 0b11111111) << 12 | ((imm
        >> 11) & 0b1) << 20 | ((imm >> 1) & 0b1111111111) << 21 | ((imm >> 20) & 0b1) << 31
}

// ------------------------------------------------------------------
// Per-format encoders
// ------------------------------------------------------------------

/// The `offset(base)` memory operand split on its parenthesis: the
/// displacement from outside, the base register name from inside, with a
/// trailing closing parenthesis dropped if present.
pub open spec fn bracket_parts(t: Seq<char>) -> (Seq<char>, Seq<char>) {
    let k = idx_of(t, '(');
    let imm_tok = t.subrange(0, k);
    let inside = t.subrange(k + 1, t.len() as int);
    let reg_tok = if inside.len() >= 1 && inside.last() == ')' {
        inside.drop_last()
    } else {
        inside
    };
    (imm_tok, reg_tok)
}

fn bracket_parts_exec(t: &str) -> (r: Option<(String, String)>)
    ensures
        match r {
            Some(p) => idx_of(t@, '(') < t@.len() && p.0@ == bracket_parts(t@).0 && p.1@
                == bracket_parts(t@).1,
            None => idx_of(t@, '(') == t@.len(),
        },
{
    let len = t.unicode_len();
    let k = find_char(t, '(');
    proof {
        lemma_idx_of(t@, '(');
    }
    if k == len {
        return None;
    }
    let imm_tok = t.substring_char(0, k).to_owned();
    let inside = t.substring_char(k + 1, len);
    let ilen = inside.unicode_len();
    let reg_tok = if ilen >= 1 && inside.get_char(ilen - 1) == ')' {
        proof {
            assert(inside@.last() == ')');
            assert(inside@.subrange(0, ilen - 1) =~= inside@.drop_last());
        }
        inside.substring_char(0, ilen - 1).to_owned()
    } else {
        inside.to_owned()
    };
    Some((imm_tok, reg_tok))
}

/// Register-register instructions: `mnemonic rd, rs1, rs2`.
pub open spec fn spec_encode_r(toks: Seq<Seq<char>>) -> Result<Seq<u8>, AErrV> {
    match spec_mnemonic(lower_str(toks[0])) {
        None => Err(AErrV::UnknownMnemonic { token: toks[0] }),
        Some(info) => if toks.len() < 4 {
            Err(AErrV::MissingOperand { mnemonic: toks[0] })
        } else {
            match spec_reg_index(toks[1]) {
                None => Err(AErrV::UnknownRegister { token: toks[1] }),
                Some(rd) => match spec_reg_index(toks[2]) {
                    None => Err(AErrV::UnknownRegister { token: toks[2] }),
                    Some(rs1) => match spec_reg_index(toks[3]) {
                        None => Err(AErrV::UnknownRegister { token: toks[3] }),
                        Some(rs2) => Ok(spec_word_bytes(pack_r(info, rd, rs1, rs2))),
                    },
                },
            }
        },
    }
}

pub fn generate_bytes_r_type(tokens: &Vec<String>) -> (r: Result<Vec<u8>, AsmError>)
    requires
        tokens@.len() >= 1,
    ensures
        match r {
            Ok(v) => spec_encode_r(strs_view(tokens@)) == Ok::<Seq<u8>, AErrV>(v@),
            Err(e) => spec_encode_r(strs_view(tokens@)) == Err::<Seq<u8>, AErrV>(e@),
        },
{
    let instruction = to_lower(tokens[0].as_str());
    let info = match mnemonic_info(instruction.as_str()) {
        None => {
            return Err(AsmError::UnknownMnemonic { token: tokens[0].as_str().to_owned() });
        },
        Some(info) => info,
    };
    if tokens.len() < 4 {
        return Err(AsmError::MissingOperand { mnemonic: tokens[0].as_str().to_owned() });
    }
    let rd = match reg_index(tokens[1].as_str()) {
        None => {
            return Err(AsmError::UnknownRegister { token: tokens[1].as_str().to_owned() });
        },
        Some(v) => v,
    };
    let rs1 = match reg_index(tokens[2].as_str()) {
        None => {
            return Err(AsmError::UnknownRegister { token: tokens[2].as_str().to_owned() });
        },
        Some(v) => v,
    };
    let rs2 = match reg_index(tokens[3].as_str()) {
        None => {
            return Err(AsmError::UnknownRegister { token: tokens[3].as_str().to_owned() });
        },
        Some(v) => v,
    };
    let binary = (info.funct7 & 0b1111111) << 25 | (rs2 & 0b11111) << 20 | (rs1 & 0b11111) << 15
        | (info.funct3 & 0b111) << 12 | (rd & 0b11111) << 7 | (info.opcode & 0b1111111);
    Ok(int_to_4_byte_vec(binary))
}

/// Immediate-operand instructions: `mnemonic rd, rs1, imm`, or for loads
/// `mnemonic rd, imm(rs1)`.
pub open spec fn spec_encode_i(toks: Seq<Seq<char>>) -> Result<Seq<u8>, AErrV> {
    match spec_mnemonic(lower_str(toks[0])) {
        None => Err(AErrV::UnknownMnemonic { token: toks[0] }),
        Some(info) => if spec_is_bracket(lower_str(toks[0])) {
            if toks.len() < 3 {
                Err(AErrV::MissingOperand { mnemonic: toks[0] })
            } else {
                match spec_reg_index(toks[1]) {
                    None => Err(AErrV::UnknownRegister { token: toks[1] }),
                    Some(rd) => if idx_of(toks[2], '(') == toks[2].len() {
                        Err(AErrV::MissingOperand { mnemonic: toks[0] })
                    } else {
                        let parts = bracket_parts(toks[2]);
                        match spec_reg_index(parts.1) {
                            None => Err(AErrV::UnknownRegister { token: parts.1 }),
                            Some(rs1) => match parse_i64_spec(parts.0) {
                                None => Err(AErrV::UnresolvedLabel { token: parts.0 }),
                                Some(imm) => Ok(spec_word_bytes(pack_i(info, rd, rs1, imm))),
                            },
                        }
                    },
                }
            }
        } else {
            if toks.len() < 4 {
                Err(AErrV::MissingOperand { mnemonic: toks[0] })
            } else {
                match spec_reg_index(toks[1]) {
                    None => Err(AErrV::UnknownRegister { token: toks[1] }),
                    Some(rd) => match spec_reg_index(toks[2]) {
                        None => Err(AErrV::UnknownRegister { token: toks[2] }),
                        Some(rs1) => match parse_i64_spec(toks[3]) {
                            None => Err(AErrV::UnresolvedLabel { token: toks[3] }),
                            Some(imm) => Ok(
                                spec_word_bytes(pack_i(info, rd, rs1, imm & 0xFFFFFFFF)),
                            ),
                        },
                    },
                }
            }
        },
    }
}

pub fn generate_bytes_i_type(tokens: &Vec<String>) -> (r: Result<Vec<u8>, AsmError>)
    requires
        tokens@.len() >= 1,
    ensures
        match r {
            Ok(v) => spec_encode_i(strs_view(tokens@)) == Ok::<Seq<u8>, AErrV>(v@),
            Err(e) => spec_encode_i(strs_view(tokens@)) == Err::<Seq<u8>, AErrV>(e@),
        },
{
    let instruction = to_lower(tokens[0].as_str());
    let info = match mnemonic_info(instruction.as_str()) {
        None => {
            return Err(AsmError::UnknownMnemonic { token: tokens[0].as_str().to_owned() });
        },
        Some(info) => info,
    };
    if is_bracket_mnemonic(instruction.as_str()) {
        if tokens.len() < 3 {
            return Err(AsmError::MissingOperand { mnemonic: tokens[0].as_str().to_owned() });
        }
        let rd = match reg_index(tokens[1].as_str()) {
            None => {
                return Err(AsmError::UnknownRegister { token: tokens[1].as_str().to_owned() });
            },
            Some(v) => v,
        };
        let (imm_tok, reg_tok) = match bracket_parts_exec(tokens[2].as_str()) {
            None => {
                return Err(AsmError::MissingOperand { mnemonic: tokens[0].as_str().to_owned() });
            },
            Some(p) => p,
        };
        let rs1 = match reg_index(reg_tok.as_str()) {
            None => {
                return Err(AsmError::UnknownRegister { token: reg_tok });
            },
            Some(v) => v,
        };
        let imm = match parse_i64_exec(imm_tok.as_str()) {
            None => {
                return Err(AsmError::UnresolvedLabel { token: imm_tok });
            },
            Some(v) => v,
        };
        let binary = (imm & 0xFFF) << 20 | (rs1 & 0b11111) << 15 | (info.funct3 & 0b111) << 12 | (
        rd & 0b11111) << 7 | (info.opcode & 0b1111111);
        Ok(int_to_4_byte_vec(binary))
    } else {
        if tokens.len() < 4 {
            return Err(AsmError::MissingOperand { mnemonic: tokens[0].as_str().to_owned() });
        }
        let rd = match reg_index(tokens[1].as_str()) {
            None => {
                return Err(AsmError::UnknownRegister { token: tokens[1].as_str().to_owned() });
            },
            Some(v) => v,
        };
        let rs1 = match reg_index(tokens[2].as_str()) {
            None => {
                return Err(AsmError::UnknownRegister { token: tokens[2].as_str().to_owned() });
            },
            Some(v) => v,
        };
        let imm = match parse_i64_exec(tokens[3].as_str()) {
            None => {
                return Err(AsmError::UnresolvedLabel { token: tokens[3].as_str().to_owned() });
            },
            Some(v) => v,
        } & 0xFFFFFFFF;
        let binary = (imm & 0xFFF) << 20 | (rs1 & 0b11111) << 15 | (info.funct3 & 0b111) << 12 | (
        rd & 0b11111) << 7 | (info.opcode & 0b1111111);
        Ok(int_to_4_byte_vec(binary))
    }
}

/// Store instructions: `mnemonic rs2, imm(rs1)` or `mnemonic rs2, imm, rs1`.
pub open spec fn spec_encode_s(toks: Seq<Seq<char>>) -> Result<Seq<u8>, AErrV> {
    match spec_mnemonic(lower_str(toks[0])) {
        None => Err(AErrV::UnknownMnemonic { token: toks[0] }),
        Some(info) => if toks.len() < 3 {
            Err(AErrV::MissingOperand { mnemonic: toks[0] })
        } else {
            match spec_reg_index(toks[1]) {
                None => Err(AErrV::UnknownRegister { token: toks[1] }),
                Some(rs2) => if idx_of(toks[2], '(') < toks[2].len() {
                    let parts = bracket_parts(toks[2]);
                    match spec_reg_index(parts.1) {
                        None => Err(AErrV::UnknownRegister { token: parts.1 }),
                        Some(rs1) => match parse_i64_spec(parts.0) {
                            None => Err(AErrV::UnresolvedLabel { token: parts.0 }),
                            Some(imm) => Ok(spec_word_bytes(pack_s(info, rs2, rs1, imm))),
                        },
                    }
                } else {
                    if toks.len() < 4 {
                        Err(AErrV::MissingOperand { mnemonic: toks[0] })
                    } else {
                        match parse_i64_spec(toks[2]) {
                            None => Err(AErrV::UnresolvedLabel { token: toks[2] }),
                            Some(imm) => match spec_reg_index(toks[3]) {
                                None => Err(AErrV::UnknownRegister { token: toks[3] }),
                                Some(rs1) => Ok(spec_word_bytes(pack_s(info, rs2, rs1, imm))),
                            },
                        }
                    }
                },
            }
        },
    }
}

pub fn generate_bytes_s_type(tokens: &Vec<String>) -> (r: Result<Vec<u8>, AsmError>)
    requires
        tokens@.len() >= 1,
    ensures
        match r {
            Ok(v) => spec_encode_s(strs_view(tokens@)) == Ok::<Seq<u8>, AErrV>(v@),
            Err(e) => spec_encode_s(strs_view(tokens@)) == Err::<Seq<u8>, AErrV>(e@),
        },
{
    let instruction = to_lower(tokens[0].as_str());
    let info = match mnemonic_info(instruction.as_str()) {
        None => {
            return Err(AsmError::UnknownMnemonic { token: tokens[0].as_str().to_owned() });
        },
        Some(info) => info,
    };
    if tokens.len() < 3 {
        return Err(AsmError::MissingOperand { mnemonic: tokens[0].as_str().to_owned() });
    }
    let rs2 = match reg_index(tokens[1].as_str()) {
        None => {
            return Err(AsmError::UnknownRegister { token: tokens[1].as_str().to_owned() });
        },
        Some(v) => v,
    };
    let (imm, rs1) = match bracket_parts_exec(tokens[2].as_str()) {
        Some((imm_tok, reg_tok)) => {
            let rs1 = match reg_index(reg_tok.as_str()) {
                None => {
                    return Err(AsmError::UnknownRegister { token: reg_tok });
                },
                Some(v) => v,
            };
            let imm = match parse_i64_exec(imm_tok.as_str()) {
                None => {
                    return Err(AsmError::UnresolvedLabel { token: imm_tok });
                },
                Some(v) => v,
            };
            (imm, rs1)
        },
        None => {
            if tokens.len() < 4 {
                return Err(AsmError::MissingOperand { mnemonic: tokens[0].as_str().to_owned() });
            }
            let imm = match parse_i64_exec(tokens[2].as_str()) {
                None => {
                    return Err(
                        AsmError::UnresolvedLabel { token: tokens[2].as_str().to_owned() },
                    );
                },
                Some(v) => v,
            };
            let rs1 = match reg_index(tokens[3].as_str()) {
                None => {
                    return Err(
                        AsmError::UnknownRegister { token: tokens[3].as_str().to_owned() },
                    );
                },
                Some(v) => v,
            };
            (imm, rs1)
        },
    };
    let binary = ((imm >> 5) & 0x7F) << 25 | (rs2 & 0b11111) << 20 | (rs1 & 0b11111) << 15 | (
    info.funct3 & 0b111) << 12 | (imm & 0x1F) << 7 | (info.opcode & 0b1111111);
    Ok(int_to_4_byte_vec(binary))
}

/// Upper-immediate instructions: `mnemonic rd, imm`.
pub open spec fn spec_encode_u(toks: Seq<Seq<char>>) -> Result<Seq<u8>, AErrV> {
    match spec_mnemonic(lower_str(toks[0])) {
        None => Err(AErrV::UnknownMnemonic { token: toks[0] }),
        Some(info) => if toks.len() < 3 {
            Err(AErrV::MissingOperand { mnemonic: toks[0] })
        } else {
            match spec_reg_index(toks[1]) {
                None => Err(AErrV::UnknownRegister { token: toks[1] }),
                Some(rd) => match parse_i64_spec(toks[2]) {
                    None => Err(AErrV::UnresolvedLabel { token: toks[2] }),
                    Some(imm) => Ok(spec_word_bytes(pack_u(info, rd, imm))),
                },
            }
        },
    }
}

pub fn generate_bytes_u_type(tokens: &Vec<String>) -> (r: Result<Vec<u8>, AsmError>)
    requires
        tokens@.len() >= 1,
    ensures
        match r {
            Ok(v) => spec_encode_u(strs_view(tokens@)) == Ok::<Seq<u8>, AErrV>(v@),
            Err(e) => spec_encode_u(strs_view(tokens@)) == Err::<Seq<u8>, AErrV>(e@),
        },
{
    let instruction = to_lower(tokens[0].as_str());
    let info = match mnemonic_info(instruction.as_str()) {
        None => {
            return Err(AsmError::UnknownMnemonic { token: tokens[0].as_str().to_owned() });
        },
        Some(info) => info,
    };
    if tokens.len() < 3 {
        return Err(AsmError::MissingOperand { mnemonic: tokens[0].as_str().to_owned() });
    }
    let rd = match reg_index(tokens[1].as_str()) {
        None => {
            return Err(AsmError::UnknownRegister { token: tokens[1].as_str().to_owned() });
        },
        Some(v) => v,
    };
    let imm = match parse_i64_exec(tokens[2].as_str()) {
        None => {
            return Err(AsmError::UnresolvedLabel { token: tokens[2].as_str().to_owned() });
        },
        Some(v) => v,
    };
    let binary = (imm & 0xFFFFF) << 12 | (rd & 0b11111) << 7 | (info.opcode & 0b1111111);
    Ok(int_to_4_byte_vec(binary))
}

/// Branch instructions: `mnemonic rs1, rs2, imm`; register names are
/// lowercased before lookup.
pub open spec fn spec_encode_b(toks: Seq<Seq<char>>) -> Result<Seq<u8>, AErrV> {
    match spec_mnemonic(lower_str(toks[0])) {
        None => Err(AErrV::UnknownMnemonic { token: toks[0] }),
        Some(info) => if toks.len() < 4 {
            Err(AErrV::MissingOperand { mnemonic: toks[0] })
        } else {
            match spec_reg_index(lower_str(toks[1])) {
                None => Err(AErrV::UnknownRegister { token: toks[1] }),
                Some(rs1) => match spec_reg_index(lower_str(toks[2])) {
                    None => Err(AErrV::UnknownRegister { token: toks[2] }),
                    Some(rs2) => match parse_i64_spec(toks[3]) {
                        None => Err(AErrV::UnresolvedLabel { token: toks[3] }),
                        Some(imm) => Ok(spec_word_bytes(pack_b(info, rs1, rs2, imm))),
                    },
                },
            }
        },
    }
}

pub fn generate_bytes_b_type(tokens: &Vec<String>) -> (r: Result<Vec<u8>, AsmError>)
    requires
        tokens@.len() >= 1,
    ensures
        match r {
            Ok(v) => spec_encode_b(strs_view(tokens@)) == Ok::<Seq<u8>, AErrV>(v@),
            Err(e) => spec_encode_b(strs_view(tokens@)) == Err::<Seq<u8>, AErrV>(e@),
        },
{
    let instruction = to_lower(tokens[0].as_str());
    let info = match mnemonic_info(instruction.as_str()) {
        None => {
            return Err(AsmError::UnknownMnemonic { token: tokens[0].as_str().to_owned() });
        },
        Some(info) => info,
    };
    if tokens.len() < 4 {
        return Err(AsmError::MissingOperand { mnemonic: tokens[0].as_str().to_owned() });
    }
    let r1_low = to_lower(tokens[1].as_str());
    let rs1 = match reg_index(r1_low.as_str()) {
        None => {
            return Err(AsmError::UnknownRegister { token: tokens[1].as_str().to_owned() });
        },
        Some(v) => v,
    };
    let r2_low = to_lower(tokens[2].as_str());
    let rs2 = match reg_index(r2_low.as_str()) {
        None => {
            return Err(AsmError::UnknownRegister { token: tokens[2].as_str().to_owned() });
        },
        Some(v) => v,
    };
    let imm = match parse_i64_exec(tokens[3].as_str()) {
        None => {
            return Err(AsmError::UnresolvedLabel { token: tokens[3].as_str().to_owned() });
        },
        Some(v) => v,
    };
    let mut binary = (info.opcode & 0b1111111) | (rs1 & 0b11111) << 15 | (rs2 & 0b11111) << 20 | (
    info.funct3 & 0b111) << 12;
    binary = binary | ((imm >> 12) & 0b1) << 31;
    binary = binary | ((imm >> 5) & 0b111111) << 25;
    binary = binary | ((imm >> 11) & 0b1) << 7;
    binary = binary | ((imm >> 1) & 0b1111) << 8;
    Ok(int_to_4_byte_vec(binary))
}

/// Jump-and-link: `jal rd, imm`.
pub open spec fn spec_encode_j(toks: Seq<Seq<char>>) -> Result<Seq<u8>, AErrV> {
    match spec_mnemonic(lower_str(toks[0])) {
        None => Err(AErrV::UnknownMnemonic { token: toks[0] }),
        Some(info) => if toks.len() < 3 {
            Err(AErrV::MissingOperand { mnemonic: toks[0] })
        } else {
            match spec_reg_index(toks[1]) {
                None => Err(AErrV::UnknownRegister { token: toks[1] }),
                Some(rd) => match parse_i64_spec(toks[2]) {
                    None => Err(AErrV::UnresolvedLabel { token: toks[2] }),
                    Some(imm) => Ok(spec_word_bytes(pack_j(info, rd, imm))),
                },
            }
        },
    }
}

pub fn generate_bytes_j_type(tokens: &Vec<String>) -> (r: Result<Vec<u8>, AsmError>)
    requires
        tokens@.len() >= 1,
    ensures
        match r {
            Ok(v) => spec_encode_j(strs_view(tokens@)) == Ok::<Seq<u8>, AErrV>(v@),
            Err(e) => spec_encode_j(strs_view(tokens@)) == Err::<Seq<u8>, AErrV>(e@),
        },
{
    let instruction = to_lower(tokens[0].as_str());
    let info = match mnemonic_info(instruction.as_str()) {
        None => {
            return Err(AsmError::UnknownMnemonic { token: tokens[0].as_str().to_owned() });
        },
        Some(info) => info,
    };
    if tokens.len() < 3 {
        return Err(AsmError::MissingOperand { mnemonic: tokens[0].as_str().to_owned() });
    }
    let rd = match reg_index(tokens[1].as_str()) {
        None => {
            return Err(AsmError::UnknownRegister { token: tokens[1].as_str().to_owned() });
        },
        Some(v) => v,
    };
    let imm = match parse_i64_exec(tokens[2].as_str()) {
        None => {
            return Err(AsmError::UnresolvedLabel { token: tokens[2].as_str().to_owned() });
        },
        Some(v) => v,
    };
    let mut binary = (rd & 0b11111) << 7 | (info.opcode & 0b1111111);
    binary = binary | ((imm >> 12) & 0b11111111) << 12 | ((imm >> 11) & 0b1) << 20 | ((imm >> 1)
        & 0b1111111111) << 21 | ((imm >> 20) & 0b1) << 31;
    Ok(int_to_4_byte_vec(binary))
}

// ------------------------------------------------------------------
// Pseudo-instruction expansion
// ------------------------------------------------------------------

/// The rewriting of `li rd, imm`: one `addi` from `x0` when the immediate
/// fits twelve signed bits, otherwise `lui` with the high twenty bits
/// followed by `addi` with the low eight (only eight of the twelve low bits
/// are preserved by this policy).
pub open spec fn li_rewrite(toks: Seq<Seq<char>>) -> Result<Seq<LineV>, AErrV> {
    if toks.len() < 3 {
        Err(AErrV::MissingOperand { mnemonic: toks[0] })
    } else {
        match parse_i32_spec(toks[2]) {
            None => Err(AErrV::BadImmediate { token: toks[2] }),
            Some(imm) => if -2048 <= imm < 2048 {
                Ok(
                    seq![
                        LineV::Instruction {
                            tokens: seq!["addi"@, toks[1], "x0"@, int_str(imm as int)],
                        },
                    ],
                )
            } else {
                Ok(
                    seq![
                        LineV::Instruction {
                            tokens: seq!["lui"@, toks[1], int_str((imm >> 12) as int)],
                        },
                        LineV::Instruction {
                            tokens: seq![
                                "addi"@,
                                toks[1],
                                toks[1],
                                int_str((imm & 0xFF) as int),
                            ],
                        },
                    ],
                )
            },
        }
    }
}

/// One line's expansion: a pseudo-op becomes its real instructions, a label
/// re-attaches to the first expanded instruction, anything else passes
/// through unchanged.
pub open spec fn expand_line(l: LineV) -> Result<Seq<LineV>, AErrV>
    decreases l,
{
    match l {
        LineV::Instruction { tokens } => if tokens.len() >= 1 && tokens[0] == "li"@ {
            li_rewrite(tokens)
        } else {
            Ok(seq![l])
        },
        LineV::Label { name, inner } => match expand_line(*inner) {
            Err(e) => Err(e),
            Ok(sub) => Ok(
                seq![LineV::Label { name, inner: Box::new(sub[0]) }] + sub.subrange(
                    1,
                    sub.len() as int,
                ),
            ),
        },
        LineV::Word { .. } => Ok(seq![l]),
    }
}

/// Every line expands to one or two real lines.
pub proof fn lemma_expand_line_len(l: LineV)
    ensures
        expand_line(l) is Ok ==> 1 <= expand_line(l)->Ok_0.len() <= 2,
    decreases l,
{
    match l {
        LineV::Label { name, inner } => {
            lemma_expand_line_len(*inner);
        },
        _ => {},
    }
}

pub open spec fn expand_lines(ls: Seq<LineV>) -> Result<Seq<LineV>, AErrV>
    decreases ls.len(),
{
    if ls.len() == 0 {
        Ok(Seq::empty())
    } else {
        match expand_line(ls[0]) {
            Err(e) => Err(e),
            Ok(sub) => match expand_lines(ls.subrange(1, ls.len() as int)) {
                Err(e) => Err(e),
                Ok(rest) => Ok(sub + rest),
            },
        }
    }
}

pub proof fn lemma_expand_lines_len(ls: Seq<LineV>)
    ensures
        expand_lines(ls) is Ok ==> expand_lines(ls)->Ok_0.len() <= 2 * ls.len(),
    decreases ls.len(),
{
    if ls.len() > 0 {
        lemma_expand_line_len(ls[0]);
        lemma_expand_lines_len(ls.subrange(1, ls.len() as int));
    }
}

/// Rewrites one line's pseudo-ops into real instructions; a label attached
/// to an expanded pseudo-op re-attaches to the first instruction of the
/// expansion.
pub fn pseudo_parse_line(line: Line) -> (r: Result<Vec<Box<Line>>, AsmError>)
    ensures
        match r {
            Ok(v) => expand_line(line@) == Ok::<Seq<LineV>, AErrV>(lines_view(v@)),
            Err(e) => expand_line(line@) == Err::<Seq<LineV>, AErrV>(e@),
        },
    decreases line,
{
    let ghost lv = line@;
    match line {
        Line::ASTInstruction(inst) => {
            let inst = *inst;
            let ghost toks = strs_view(inst.tokens@);
            if inst.tokens.len() >= 1 && eq_str(inst.tokens[0].as_str(), "li") {
                if inst.tokens.len() < 3 {
                    return Err(
                        AsmError::MissingOperand { mnemonic: inst.tokens[0].as_str().to_owned() },
                    );
                }
                let imm = match parse_i32_exec(inst.tokens[2].as_str()) {
                    None => {
                        return Err(
                            AsmError::BadImmediate { token: inst.tokens[2].as_str().to_owned() },
                        );
                    },
                    Some(v) => v,
                };
                proof {
                    reveal_strlit("addi");
                    reveal_strlit("lui");
                    reveal_strlit("x0");
                }
                if -2048 <= imm && imm < 2048 {
                    let mut tv: Vec<String> = Vec::new();
                    tv.push("addi".to_owned());
                    tv.push(inst.tokens[1].as_str().to_owned());
                    tv.push("x0".to_owned());
                    tv.push(i64_to_string(imm as i64));
                    let l = Line::ASTInstruction(Box::new(ASTInstruction::new(tv)));
                    let mut out: Vec<Box<Line>> = Vec::new();
                    out.push(Box::new(l));
                    proof {
                        assert(out@[0]@->Instruction_tokens =~= seq![
                            "addi"@,
                            toks[1],
                            "x0"@,
                            int_str(imm as int),
                        ]);
                        assert(lines_view(out@) =~= li_rewrite(toks)->Ok_0);
                    }
                    Ok(out)
                } else {
                    let imm_hi = imm >> 12;
                    let imm_lo = imm & 0xFF;
                    let mut tv1: Vec<String> = Vec::new();
                    tv1.push("lui".to_owned());
                    tv1.push(inst.tokens[1].as_str().to_owned());
                    tv1.push(i64_to_string(imm_hi as i64));
                    let l1 = Line::ASTInstruction(Box::new(ASTInstruction::new(tv1)));
                    let mut tv2: Vec<String> = Vec::new();
                    tv2.push("addi".to_owned());
                    tv2.push(inst.tokens[1].as_str().to_owned());
                    tv2.push(inst.tokens[1].as_str().to_owned());
                    tv2.push(i64_to_string(imm_lo as i64));
                    let l2 = Line::ASTInstruction(Box::new(ASTInstruction::new(tv2)));
                    let mut out: Vec<Box<Line>> = Vec::new();
                    out.push(Box::new(l1));
                    out.push(Box::new(l2));
                    proof {
                        assert(out@[0]@->Instruction_tokens =~= seq![
                            "lui"@,
                            toks[1],
                            int_str((imm >> 12) as int),
                        ]);
                        assert(out@[1]@->Instruction_tokens =~= seq![
                            "addi"@,
                            toks[1],
                            toks[1],
                            int_str((imm & 0xFF) as int),
                        ]);
                        assert(lines_view(out@) =~= li_rewrite(toks)->Ok_0);
                    }
                    Ok(out)
                }
            } else {
                let mut out: Vec<Box<Line>> = Vec::new();
                out.push(Box::new(Line::ASTInstruction(Box::new(inst))));
                proof {
                    assert(lines_view(out@) =~= seq![lv]);
                }
                Ok(out)
            }
        },
        Line::ASTLabel(lbl) => {
            let lbl = *lbl;
            let ASTLabel { label, labelled_line } = lbl;
            let ghost inner_v = labelled_line@;
            match pseudo_parse_line(*labelled_line) {
                Err(e) => Err(e),
                Ok(mut sub) => {
                    proof {
                        lemma_expand_line_len(inner_v);
                        assert(lines_view(sub@).len() == sub@.len());
                    }
                    let ghost sub_v = lines_view(sub@);
                    let first = sub.remove(0);
                    let relabeled = Box::new(
                        Line::ASTLabel(Box::new(ASTLabel::new(label, first))),
                    );
                    sub.insert(0, relabeled);
                    proof {
                        assert(lines_view(sub@) =~= seq![
                            LineV::Label { name: lv->Label_name, inner: Box::new(sub_v[0]) },
                        ] + sub_v.subrange(1, sub_v.len() as int));
                    }
                    Ok(sub)
                },
            }
        },
        Line::ASTWord(w) => {
            let mut out: Vec<Box<Line>> = Vec::new();
            out.push(Box::new(Line::ASTWord(w)));
            proof {
                assert(lines_view(out@) =~= seq![lv]);
            }
            Ok(out)
        },
    }
}

/// Expands every pseudo-op in the list, preserving program order.
#[verifier::loop_isolation(false)]
pub fn pseudo_parse_lines(lines: LineList) -> (r: Result<LineList, AsmError>)
    ensures
        match r {
            Ok(ll) => expand_lines(lines@) == Ok::<Seq<LineV>, AErrV>(ll@),
            Err(e) => expand_lines(lines@) == Err::<Seq<LineV>, AErrV>(e@),
        },
{
    let ghost orig = lines@;
    let list = lines;
    let mut src = list.lines;
    let mut new_lines: Vec<Box<Line>> = Vec::new();
    proof {
        assert(lines_view(src@) == orig);
        assert(lines_view(new_lines@) =~= Seq::<LineV>::empty());
        if expand_lines(orig) is Ok {
            assert(lines_view(new_lines@) + expand_lines(orig)->Ok_0 =~= expand_lines(
                orig,
            )->Ok_0);
        }
    }
    while src.len() > 0
        invariant
            expand_lines(orig) == (match expand_lines(lines_view(src@)) {
                Ok(rest) => Ok::<Seq<LineV>, AErrV>(lines_view(new_lines@) + rest),
                Err(e) => Err::<Seq<LineV>, AErrV>(e),
            }),
        decreases src@.len(),
    {
        let ghost rem = lines_view(src@);
        let b = src.remove(0);
        proof {
            assert(rem[0] == b@);
            assert(lines_view(src@) =~= rem.subrange(1, rem.len() as int));
        }
        match pseudo_parse_line(*b) {
            Err(e) => {
                proof {
                    assert(rem.len() > 0);
                    assert(expand_line(rem[0]) == Err::<Seq<LineV>, AErrV>(e@));
                    assert(expand_lines(rem) == Err::<Seq<LineV>, AErrV>(e@));
                    assert(expand_lines(orig) == Err::<Seq<LineV>, AErrV>(e@));
                }
                return Err(e);
            },
            Ok(mut sub) => {
                let ghost pfx = lines_view(new_lines@);
                let ghost sub_v = lines_view(sub@);
                new_lines.append(&mut sub);
                proof {
                    assert(rem.len() > 0);
                    assert(lines_view(new_lines@) =~= pfx + sub_v);
                    if expand_lines(lines_view(src@)) is Ok {
                        assert((pfx + sub_v) + expand_lines(lines_view(src@))->Ok_0 =~= pfx + (
                        sub_v + expand_lines(lines_view(src@))->Ok_0));
                    }
                }
            },
        }
    }
    proof {
        assert(lines_view(src@).len() == 0);
        assert(lines_view(new_lines@) + Seq::<LineV>::empty() =~= lines_view(new_lines@));
    }
    Ok(LineList::new(new_lines))
}

// ------------------------------------------------------------------
// Label resolution
// ------------------------------------------------------------------

/// The label names wrapped around a line, outermost first.
pub open spec fn labels_of(l: LineV) -> Seq<Seq<char>>
    decreases l,
{
    match l {
        LineV::Label { name, inner } => seq![name] + labels_of(*inner),
        _ => Seq::empty(),
    }
}

/// The line with all label wrappings removed.
pub open spec fn strip_line(l: LineV) -> LineV
    decreases l,
{
    match l {
        LineV::Label { name: _, inner } => strip_line(*inner),
        _ => l,
    }
}

pub open spec fn strip_lines(ls: Seq<LineV>) -> Seq<LineV> {
    ls.map_values(|l: LineV| strip_line(l))
}

/// A set of label names all bound to one address.
pub open spec fn names_map(names: Seq<Seq<char>>, addr: i64) -> Map<Seq<char>, i64>
    decreases names.len(),
{
    if names.len() == 0 {
        Map::empty()
    } else {
        names_map(names.drop_last(), addr).insert(names.last(), addr)
    }
}

/// The label table of the lines from index `i` on: line `i` sits at byte
/// address `4 * i`, and a later definition of a name overrides an earlier
/// one.
pub open spec fn resolve_from(ls: Seq<LineV>, i: int) -> Map<Seq<char>, i64>
    decreases ls.len(),
{
    if ls.len() == 0 {
        Map::empty()
    } else {
        names_map(labels_of(ls[0]), (4 * i) as i64).union_prefer_right(
            resolve_from(ls.subrange(1, ls.len() as int), i + 1),
        )
    }
}

fn is_label_line(l: &Line) -> (r: bool)
    ensures
        r == (l@ is Label),
{
    match l {
        Line::ASTLabel(_) => true,
        _ => false,
    }
}

/// Walks the expanded line list, assigns line `i` the byte address `4 * i`,
/// records every label it meets at that address, and returns the flat list
/// with labels removed beside the finished table.
#[verifier::loop_isolation(false)]
pub fn resolve_labels(lines: LineList) -> (r: (LineList, LabelTable))
    requires
        lines@.len() <= 0x1000_0000,
    ensures
        r.0@ == strip_lines(lines@),
        r.1@ == resolve_from(lines@, 0),
{
    let ghost orig = lines@;
    let list = lines;
    let mut src = list.lines;
    let mut out: Vec<Box<Line>> = Vec::new();
    let mut table = LabelTable::new();
    let mut i: usize = 0;
    proof {
        assert(lines_view(src@) =~= orig);
        assert(Map::<Seq<char>, i64>::empty().union_prefer_right(resolve_from(orig, 0)) =~=
        resolve_from(orig, 0));
    }
    while src.len() > 0
        invariant
            orig.len() <= 0x1000_0000,
            i + src@.len() == orig.len(),
            lines_view(src@) == orig.subrange(i as int, orig.len() as int),
            out@.len() == i,
            forall|j: int| 0 <= j < i ==> #[trigger] out@[j]@ == strip_line(orig[j]),
            resolve_from(orig, 0) == table@.union_prefer_right(
                resolve_from(lines_view(src@), i as int),
            ),
        decreases src@.len(),
    {
        let ghost rem = lines_view(src@);
        let b = src.remove(0);
        proof {
            assert(rem[0] == b@);
            assert(rem[0] == orig[i as int]);
            assert(lines_view(src@) =~= rem.subrange(1, rem.len() as int));
            assert(lines_view(src@) =~= orig.subrange(i + 1 as int, orig.len() as int));
        }
        let ghost lv = b@;
        let mut cur: Line = *b;
        let addr = (i * 4) as i64;
        let ghost t_before = table@;
        let ghost mut consumed: Seq<Seq<char>> = Seq::empty();
        proof {
            assert(names_map(consumed, addr) =~= Map::<Seq<char>, i64>::empty());
            assert(table@ =~= t_before.union_prefer_right(names_map(consumed, addr)));
        }
        while is_label_line(&cur)
            invariant
                addr == (4 * i) as i64,
                labels_of(lv) == consumed + labels_of(cur@),
                strip_line(lv) == strip_line(cur@),
                table@ == t_before.union_prefer_right(names_map(consumed, addr)),
            decreases cur,
        {
            let tmp = cur;
            let ghost cur_v = tmp@;
            match tmp {
                Line::ASTLabel(lbl) => {
                    let lbl = *lbl;
                    let ASTLabel { label, labelled_line } = lbl;
                    let ghost name = label@;
                    table.insert(label, addr);
                    proof {
                        assert(names_map(consumed.push(name), addr) =~= names_map(
                            consumed,
                            addr,
                        ).insert(name, addr)) by {
                            assert(consumed.push(name).drop_last() =~= consumed);
                        }
                        assert(table@ =~= t_before.union_prefer_right(
                            names_map(consumed.push(name), addr),
                        ));
                        assert(labels_of(cur_v) == seq![name] + labels_of(labelled_line@));
                        assert((consumed + labels_of(cur_v)).subrange(
                            0,
                            consumed.len() as int + 1,
                        ) =~= consumed.push(name));
                        assert(consumed + labels_of(cur_v) =~= consumed.push(name) + labels_of(
                            labelled_line@,
                        ));
                        consumed = consumed.push(name);
                    }
                    cur = *labelled_line;
                },
                _ => {
                    proof {
                        assert(false);
                    }
                    cur = tmp;
                },
            }
        }
        proof {
            assert(labels_of(cur@) =~= Seq::<Seq<char>>::empty());
            assert(labels_of(lv) =~= consumed);
            assert(strip_line(cur@) == cur@);
        }
        out.push(Box::new(cur));
        proof {
            assert(resolve_from(rem, i as int) == names_map(
                labels_of(lv),
                (4 * i) as i64,
            ).union_prefer_right(resolve_from(lines_view(src@), i + 1 as int)));
            assert(t_before.union_prefer_right(
                names_map(labels_of(lv), addr).union_prefer_right(
                    resolve_from(lines_view(src@), i + 1 as int),
                ),
            ) =~= table@.union_prefer_right(resolve_from(lines_view(src@), i + 1 as int)));
        }
        i += 1;
    }
    proof {
        assert(resolve_from(lines_view(src@), i as int) =~= Map::<Seq<char>, i64>::empty());
        assert(table@.union_prefer_right(Map::<Seq<char>, i64>::empty()) =~= table@);
        assert(lines_view(out@) =~= strip_lines(orig));
    }
    (LineList::new(out), table)
}

// ------------------------------------------------------------------
// Line encoding and the assembler entry point
// ------------------------------------------------------------------

/// One instruction's bytes: `ecall` has its fixed encoding, any other
/// mnemonic selects its format's packing strategy, applied after label
/// substitution over all tokens.
pub open spec fn spec_encode_line(toks: Seq<Seq<char>>, labels: Map<Seq<char>, i64>) -> Result<
    Seq<u8>,
    AErrV,
> {
    if toks.len() == 0 {
        Err(AErrV::EmptyStatement)
    } else if lower_str(toks[0]) == "ecall"@ {
        Ok(spec_word_bytes(0x73))
    } else {
        match spec_mnemonic(toks[0]) {
            None => Err(AErrV::UnknownMnemonic { token: toks[0] }),
            Some(info) => {
                let st = subst_tokens(labels, toks);
                match info.format {
                    Format::R => spec_encode_r(st),
                    Format::I => spec_encode_i(st),
                    Format::S => spec_encode_s(st),
                    Format::U => spec_encode_u(st),
                    Format::B => spec_encode_b(st),
                    Format::J => spec_encode_j(st),
                }
            },
        }
    }
}

/// The bytes of one flat line: instructions encode to four bytes, word
/// directives and stray labels contribute none.
pub open spec fn spec_encode_linev(l: LineV, labels: Map<Seq<char>, i64>) -> Result<
    Seq<u8>,
    AErrV,
> {
    match l {
        LineV::Instruction { tokens } => spec_encode_line(tokens, labels),
        _ => Ok(Seq::empty()),
    }
}

pub open spec fn spec_encode_lines(ls: Seq<LineV>, labels: Map<Seq<char>, i64>) -> Result<
    Seq<u8>,
    AErrV,
> {
    spec_encode_lines_from(ls, labels)
}

pub open spec fn spec_encode_lines_from(ls: Seq<LineV>, labels: Map<Seq<char>, i64>) -> Result<
    Seq<u8>,
    AErrV,
>
    decreases ls.len(),
{
    if ls.len() == 0 {
        Ok(Seq::empty())
    } else {
        match spec_encode_linev(ls[0], labels) {
            Err(e) => Err(e),
            Ok(b) => match spec_encode_lines_from(ls.subrange(1, ls.len() as int), labels) {
                Err(e) => Err(e),
                Ok(rest) => Ok(b + rest),
            },
        }
    }
}

/// Encodes one flat line against the finished label table.
pub fn generate_bytes_line(line: Line, labels: &LabelTable) -> (r: Result<Vec<u8>, AsmError>)
    ensures
        match r {
            Ok(v) => spec_encode_linev(line@, labels@) == Ok::<Seq<u8>, AErrV>(v@),
            Err(e) => spec_encode_linev(line@, labels@) == Err::<Seq<u8>, AErrV>(e@),
        },
{
    match line {
        Line::ASTInstruction(inst) => {
            let mut inst = *inst;
            let ghost toks = strs_view(inst.tokens@);
            if inst.tokens.len() == 0 {
                return Err(AsmError::EmptyStatement);
            }
            let low = to_lower(inst.tokens[0].as_str());
            proof {
                reveal_strlit("ecall");
            }
            if eq_str(low.as_str(), "ecall") {
                return Ok(int_to_4_byte_vec(0x73));
            }
            let info = match mnemonic_info(inst.tokens[0].as_str()) {
                None => {
                    return Err(
                        AsmError::UnknownMnemonic { token: inst.tokens[0].as_str().to_owned() },
                    );
                },
                Some(info) => info,
            };
            remove_labels_from_tokens(&mut inst.tokens, labels);
            proof {
                assert(strs_view(inst.tokens@).len() == toks.len());
            }
            match info.format {
                Format::R => generate_bytes_r_type(&inst.tokens),
                Format::I => generate_bytes_i_type(&inst.tokens),
                Format::S => generate_bytes_s_type(&inst.tokens),
                Format::U => generate_bytes_u_type(&inst.tokens),
                Format::B => generate_bytes_b_type(&inst.tokens),
                Format::J => generate_bytes_j_type(&inst.tokens),
            }
        },
        Line::ASTWord(_) => {
            let v: Vec<u8> = Vec::new();
            proof {
                assert(v@ =~= Seq::<u8>::empty());
            }
            Ok(v)
        },
        Line::ASTLabel(_) => {
            let v: Vec<u8> = Vec::new();
            proof {
                assert(v@ =~= Seq::<u8>::empty());
            }
            Ok(v)
        },
    }
}

#[verifier::loop_isolation(false)]
fn encode_lines_exec(lines: Vec<Box<Line>>, labels: &LabelTable) -> (r: Result<
    Vec<u8>,
    AsmError,
>)
    ensures
        match r {
            Ok(v) => spec_encode_lines(lines_view(lines@), labels@) == Ok::<Seq<u8>, AErrV>(v@),
            Err(e) => spec_encode_lines(lines_view(lines@), labels@) == Err::<Seq<u8>, AErrV>(e@),
        },
{
    let ghost orig = lines_view(lines@);
    let mut src = lines;
    let mut binary: Vec<u8> = Vec::new();
    proof {
        assert(lines_view(src@) == orig);
        if spec_encode_lines_from(orig, labels@) is Ok {
            assert(binary@ + spec_encode_lines_from(orig, labels@)->Ok_0 =~=
            spec_encode_lines_from(orig, labels@)->Ok_0);
        }
    }
    while src.len() > 0
        invariant
            spec_encode_lines_from(orig, labels@) == (match spec_encode_lines_from(
                lines_view(src@),
                labels@,
            ) {
                Ok(rest) => Ok::<Seq<u8>, AErrV>(binary@ + rest),
                Err(e) => Err::<Seq<u8>, AErrV>(e),
            }),
        decreases src@.len(),
    {
        let ghost rem = lines_view(src@);
        let b = src.remove(0);
        proof {
            assert(rem[0] == b@);
            assert(lines_view(src@) =~= rem.subrange(1, rem.len() as int));
        }
        match generate_bytes_line(*b, labels) {
            Err(e) => {
                proof {
                    assert(rem.len() > 0);
                    assert(spec_encode_linev(rem[0], labels@) == Err::<Seq<u8>, AErrV>(e@));
                    assert(spec_encode_lines_from(rem, labels@) == Err::<Seq<u8>, AErrV>(e@));
                    assert(spec_encode_lines_from(orig, labels@) == Err::<Seq<u8>, AErrV>(e@));
                }
                return Err(e);
            },
            Ok(mut bytes) => {
                let ghost pfx = binary@;
                let ghost bv = bytes@;
                binary.append(&mut bytes);
                proof {
                    assert(rem.len() > 0);
                    assert(binary@ =~= pfx + bv);
                    if spec_encode_lines_from(lines_view(src@), labels@) is Ok {
                        assert((pfx + bv) + spec_encode_lines_from(
                            lines_view(src@),
                            labels@,
                        )->Ok_0 =~= pfx + (bv + spec_encode_lines_from(
                            lines_view(src@),
                            labels@,
                        )->Ok_0));
                    }
                }
            },
        }
    }
    proof {
        assert(lines_view(src@).len() == 0);
        assert(binary@ + Seq::<u8>::empty() =~= binary@);
    }
    Ok(binary)
}

/// The whole assembly pass over a source text: preprocess, parse, expand
/// pseudo-ops, resolve labels, and encode each line to four big-endian
/// bytes.
pub open spec fn spec_assemble(t: Seq<char>) -> Result<Seq<u8>, AErrV> {
    match spec_parse(spec_preprocess(t)) {
        Err(e) => Err(e),
        Ok(ls) => match expand_lines(ls) {
            Err(e) => Err(e),
            Ok(ex) => spec_encode_lines(strip_lines(ex), resolve_from(ex, 0)),
        },
    }
}

/// Assembles a program text to its flat byte stream, four bytes per
/// instruction in big-endian order.
pub fn assemble(program_text: &String) -> (r: Result<Vec<u8>, AsmError>)
    requires
        program_text@.len() <= 0x0010_0000,
    ensures
        match r {
            Ok(v) => spec_assemble(program_text@) == Ok::<Seq<u8>, AErrV>(v@),
            Err(e) => spec_assemble(program_text@) == Err::<Seq<u8>, AErrV>(e@),
        },
{
    let ghost t = program_text@;
    let processed_program_text = pre_process(program_text.as_str());
    let program_ast = match parse_program(processed_program_text.as_str()) {
        Err(e) => {
            return Err(e);
        },
        Ok(a) => a,
    };
    let ghost p = spec_preprocess(t);
    let ghost stmts = crate::strutil::split_char(p.subrange(1, p.len() - 1), ';');
    proof {
        crate::parser::lemma_preprocess_len(t);
        crate::strutil::lemma_split_char_len(p.subrange(1, p.len() - 1), ';');
        crate::parser::lemma_parse_stmts_count(stmts);
        assert(program_ast@.len() <= p.len());
    }
    let pre_processed_ast = match pseudo_parse_lines(program_ast) {
        Err(e) => {
            return Err(e);
        },
        Ok(x) => x,
    };
    proof {
        lemma_expand_lines_len(program_ast@);
        assert(pre_processed_ast@.len() <= 0x1000_0000);
    }
    let (cleaned_lines, labels) = resolve_labels(pre_processed_ast);
    let ghost ex = pre_processed_ast@;
    encode_lines_exec(cleaned_lines.lines, &labels)
}

// ------------------------------------------------------------------
// Laws
// ------------------------------------------------------------------

/// Round-trip determinism: assembly is a function of the source text alone,
/// so two results obtained for the same text are identical, byte for byte.
pub proof fn lemma_assemble_deterministic(
    t: Seq<char>,
    r1: Result<Seq<u8>, AErrV>,
    r2: Result<Seq<u8>, AErrV>,
)
    requires
        r1 == spec_assemble(t),
        r2 == spec_assemble(t),
    ensures
        r1 == r2,
{
}

/// A name that no line from `ls[0]` on defines is absent from their table.
pub proof fn lemma_resolve_absent(ls: Seq<LineV>, base: int, name: Seq<char>)
    requires
        forall|j: int| 0 <= j < ls.len() ==> !labels_of(#[trigger] ls[j]).contains(name),
    ensures
        !resolve_from(ls, base).contains_key(name),
    decreases ls.len(),
{
    if ls.len() > 0 {
        let rest = ls.subrange(1, ls.len() as int);
        assert(forall|j: int|
            0 <= j < rest.len() ==> !labels_of(#[trigger] rest[j]).contains(name)) by {
            assert(forall|j: int| 0 <= j < rest.len() ==> rest[j] == ls[j + 1]);
        }
        lemma_resolve_absent(rest, base + 1, name);
        lemma_names_map_domain(labels_of(ls[0]), (4 * base) as i64, name);
    }
}

/// `names_map` binds exactly the names it was given.
pub proof fn lemma_names_map_domain(names: Seq<Seq<char>>, addr: i64, name: Seq<char>)
    ensures
        names_map(names, addr).contains_key(name) <==> names.contains(name),
        names.contains(name) ==> names_map(names, addr)[name] == addr,
    decreases names.len(),
{
    if names.len() > 0 {
        lemma_names_map_domain(names.drop_last(), addr, name);
        if names.contains(name) {
            let k = choose|k: int| 0 <= k < names.len() && names[k] == name;
            if k < names.len() - 1 {
                assert(names.drop_last()[k] == name);
                assert(names.drop_last().contains(name));
            }
        } else {
            assert(names.last() != name);
            if names.drop_last().contains(name) {
                let k = choose|k: int| 0 <= k < names.len() - 1 && names.drop_last()[k] == name;
                assert(names[k] == name);
            }
        }
    }
}

/// Label resolution: a label on line `i` of the expanded list resolves to
/// the byte address `4 * i`, provided no later line redefines the name
/// (a later definition would silently override it).
pub proof fn lemma_label_resolution(ls: Seq<LineV>, base: int, i: int, name: Seq<char>)
    requires
        0 <= i < ls.len(),
        labels_of(ls[i]).contains(name),
        forall|j: int| i < j < ls.len() ==> !labels_of(#[trigger] ls[j]).contains(name),
    ensures
        resolve_from(ls, base).contains_key(name),
        resolve_from(ls, base)[name] == (4 * (base + i)) as i64,
    decreases ls.len(),
{
    let rest = ls.subrange(1, ls.len() as int);
    assert(forall|j: int| 0 <= j < rest.len() ==> rest[j] == ls[j + 1]);
    if i == 0 {
        assert(forall|j: int|
            0 <= j < rest.len() ==> !labels_of(#[trigger] rest[j]).contains(name));
        lemma_resolve_absent(rest, base + 1, name);
        lemma_names_map_domain(labels_of(ls[0]), (4 * base) as i64, name);
    } else {
        lemma_label_resolution(rest, base + 1, i - 1, name);
    }
}

} // verus!
