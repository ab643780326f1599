// The assembler pipeline observed stage by stage: preprocessing, encoding
// of each format, pseudo-op expansion, label resolution, and the error
// cases.

use toast_interpreter::assembler::{assemble, int_to_4_byte_vec, pseudo_parse_lines, LabelTable};
use toast_interpreter::ast::{ASTInstruction, ASTLabel, ASTWord, AsmError, Line, LineList};
use toast_interpreter::parser::pre_process;

fn assemble_text(text: &str) -> Vec<u8> {
    assemble(&String::from(text)).expect("assembly failed")
}

#[test]
fn addi_encoding_fields() {
    // addi x7, x3, 12: opcode 0b0010011, funct3 0b000, rd 7, rs1 3, imm 12.
    let bytes = assemble_text("addi x7, x3, 12\n");
    assert_eq!(bytes, vec![0x00, 0xC1, 0x83, 0x93]);
    let word = u32::from_be_bytes([bytes[0], bytes[1], bytes[2], bytes[3]]);
    assert_eq!(word & 0x7F, 0b0010011);
    assert_eq!((word >> 12) & 0b111, 0b000);
    assert_eq!((word >> 7) & 0x1F, 7);
    assert_eq!((word >> 15) & 0x1F, 3);
    assert_eq!(word >> 20, 12);
}

#[test]
fn add_encoding_fields() {
    // add x1, x2, x3: opcode 0b0110011, funct7 0, funct3 0, rd 1, rs1 2, rs2 3.
    let bytes = assemble_text("add x1, x2, x3\n");
    assert_eq!(bytes, vec![0x00, 0x31, 0x00, 0xB3]);
    let word = u32::from_be_bytes([bytes[0], bytes[1], bytes[2], bytes[3]]);
    assert_eq!(word & 0x7F, 0b0110011);
    assert_eq!((word >> 25) & 0x7F, 0);
    assert_eq!((word >> 12) & 0b111, 0b000);
    assert_eq!((word >> 7) & 0x1F, 1);
    assert_eq!((word >> 15) & 0x1F, 2);
    assert_eq!((word >> 20) & 0x1F, 3);
}

#[test]
fn negative_immediate_truncates_to_field() {
    let bytes = assemble_text("addi x7, x3, -16\n");
    let word = u32::from_be_bytes([bytes[0], bytes[1], bytes[2], bytes[3]]);
    assert_eq!(word >> 20, 0xFF0);
}

#[test]
fn ecall_fixed_encoding() {
    assert_eq!(assemble_text("ecall\n"), vec![0x00, 0x00, 0x00, 0x73]);
}

#[test]
fn round_trip_determinism() {
    let text = String::from("addi x1, x0, 5\nbeq x0, x1, lab\nlab: add x2, x1, x1\necall\n");
    let first = assemble(&text).expect("assembly failed");
    let second = assemble(&text).expect("assembly failed");
    assert_eq!(first, second);
}

#[test]
fn branch_label_substitutes_absolute_address() {
    // The label sits at line index 2, so it resolves to byte address 8 and
    // the branch immediate encodes that absolute address.
    let with_label = assemble_text("beq x0, x0, skip\naddi x1, x0, 1\nskip: addi x17, x0, 10\n");
    let literal = assemble_text("beq x0, x0, 8\naddi x1, x0, 1\naddi x17, x0, 10\n");
    assert_eq!(with_label, literal);
}

#[test]
fn li_small_immediate_becomes_one_addi() {
    assert_eq!(assemble_text("li x5, -4\n"), assemble_text("addi x5, x0, -4\n"));
}

#[test]
fn li_large_immediate_expands_to_lui_and_addi() {
    // 3000 lies outside the twelve-bit range: the high part is 3000 >> 12
    // and only the low eight bits survive into the addi.
    let bytes = assemble_text("lab: li x5, 3000\njal x0, lab\n");
    assert_eq!(bytes.len(), 12);
    let expected = assemble_text("lui x5, 0\naddi x5, x5, 184\njal x0, 0\n");
    assert_eq!(bytes, expected);
}

#[test]
fn li_expansion_line_count() {
    let mut tokens: Vec<String> = Vec::new();
    tokens.push(String::from("li"));
    tokens.push(String::from("x5"));
    tokens.push(String::from("3000"));
    let mut lines: Vec<Box<Line>> = Vec::new();
    lines.push(Box::new(Line::ASTInstruction(Box::new(ASTInstruction::new(tokens)))));
    let expanded = pseudo_parse_lines(LineList::new(lines)).expect("expansion failed");
    assert_eq!(expanded.lines.len(), 2);
}

#[test]
fn load_store_bracket_operands() {
    let lw = assemble_text("lw x6, 20(x3)\n");
    let word = u32::from_be_bytes([lw[0], lw[1], lw[2], lw[3]]);
    assert_eq!(word & 0x7F, 0b0000011);
    assert_eq!((word >> 12) & 0b111, 0b010);
    assert_eq!((word >> 7) & 0x1F, 6);
    assert_eq!((word >> 15) & 0x1F, 3);
    assert_eq!(word >> 20, 20);

    let sw = assemble_text("sw x6, 20(x3)\n");
    let sword = u32::from_be_bytes([sw[0], sw[1], sw[2], sw[3]]);
    assert_eq!(sword & 0x7F, 0b0100011);
    assert_eq!((sword >> 12) & 0b111, 0b010);
    assert_eq!((sword >> 20) & 0x1F, 6);
    assert_eq!((sword >> 15) & 0x1F, 3);
    // S-format immediate: high bits in instr[31:25], low bits in instr[11:7].
    assert_eq!(((sword >> 25) << 5) | ((sword >> 7) & 0x1F), 20);
}

#[test]
fn comments_and_blank_lines_are_dropped() {
    let with_noise = assemble_text("# leading comment\n\naddi x1, x0, 5 # trailing\n\n");
    let plain = assemble_text("addi x1, x0, 5\n");
    assert_eq!(with_noise, plain);
}

#[test]
fn pre_process_frames_and_separates() {
    let out = pre_process("add x1, x2, x3 # c\n\nlui x0, 12\n");
    assert_eq!(out, "{add x1  x2  x3 ;lui x0  12;}");
}

#[test]
fn word_directive_occupies_a_slot_but_emits_nothing() {
    // A .word line takes an address slot during label resolution yet emits
    // no bytes of its own.
    let bytes = assemble_text(".word 7\nlab: addi x17, x0, 10\njal x0, lab\n");
    let expected = assemble_text("addi x17, x0, 10\njal x0, 4\n");
    assert_eq!(bytes, expected);
}

#[test]
fn missing_operand_is_reported() {
    let err = assemble(&String::from("add x1, x2\n")).unwrap_err();
    assert_eq!(err, AsmError::MissingOperand { mnemonic: String::from("add") });
}

#[test]
fn unknown_mnemonic_is_reported() {
    let err = assemble(&String::from("frobnicate x1, x2, x3\n")).unwrap_err();
    assert_eq!(
        err,
        AsmError::UnknownMnemonic { token: String::from("frobnicate") }
    );
}

#[test]
fn unknown_register_is_reported() {
    let err = assemble(&String::from("add x1, x2, y9\n")).unwrap_err();
    assert_eq!(err, AsmError::UnknownRegister { token: String::from("y9") });
}

#[test]
fn unresolved_label_is_reported() {
    let err = assemble(&String::from("beq x0, x0, nowhere\n")).unwrap_err();
    assert_eq!(err, AsmError::UnresolvedLabel { token: String::from("nowhere") });
}

#[test]
fn unknown_directive_is_reported() {
    let err = assemble(&String::from(".foo 1\n")).unwrap_err();
    assert_eq!(err, AsmError::UnknownDirective { token: String::from(".foo") });
}

#[test]
fn stray_brace_is_unbalanced() {
    let err = assemble(&String::from("add { x1\n")).unwrap_err();
    assert_eq!(err, AsmError::UnbalancedDelimiters);
}

#[test]
fn bare_label_is_an_empty_statement() {
    let err = assemble(&String::from("lab:\n")).unwrap_err();
    assert_eq!(err, AsmError::EmptyStatement);
}

#[test]
fn li_with_label_operand_is_a_bad_immediate() {
    let err = assemble(&String::from("li x5, lab\nlab: ecall\n")).unwrap_err();
    assert_eq!(err, AsmError::BadImmediate { token: String::from("lab") });
}

#[test]
fn abi_register_names_map_to_indices() {
    // a7 is index 17; both spellings of register 8 work.
    let via_abi = assemble_text("add a7, fp, s0\n");
    let via_numbers = assemble_text("add x17, x8, x8\n");
    assert_eq!(via_abi, via_numbers);
}

#[test]
fn uppercase_mnemonic_is_unknown_but_ecall_is_case_insensitive() {
    assert!(assemble(&String::from("ADD x1, x2, x3\n")).is_err());
    assert_eq!(assemble_text("ECALL\n"), assemble_text("ecall\n"));
}

#[test]
fn stacked_labels_bind_to_one_address() {
    let bytes = assemble_text("beq x0, x0, a\nbeq x0, x0, b\na: b: ecall\n");
    let expected = assemble_text("beq x0, x0, 8\nbeq x0, x0, 8\necall\n");
    assert_eq!(bytes, expected);
}

#[test]
fn duplicate_label_takes_the_later_binding() {
    let bytes = assemble_text("jal x0, lab\nlab: ecall\nlab: ecall\n");
    let expected = assemble_text("jal x0, 8\necall\necall\n");
    assert_eq!(bytes, expected);
}

#[test]
fn int_to_4_byte_vec_is_big_endian() {
    assert_eq!(int_to_4_byte_vec(0x0B828293), vec![0x0B, 0x82, 0x82, 0x93]);
    assert_eq!(int_to_4_byte_vec(0x73), vec![0x00, 0x00, 0x00, 0x73]);
}

#[test]
fn label_table_lookup_prefers_later_insertions() {
    let mut table = LabelTable::new();
    table.insert(String::from("x"), 4);
    table.insert(String::from("y"), 8);
    table.insert(String::from("x"), 12);
    assert_eq!(table.lookup("x"), Some(12));
    assert_eq!(table.lookup("y"), Some(8));
    assert_eq!(table.lookup("z"), None);
}

#[test]
fn ast_constructors_hold_their_parts() {
    let mut tokens: Vec<String> = Vec::new();
    tokens.push(String::from("addi"));
    let inst = ASTInstruction::new(tokens.clone());
    assert_eq!(inst.tokens, tokens);
    let word = ASTWord::new(tokens.clone());
    assert_eq!(word.tokens, tokens);
    let label = ASTLabel::new(
        String::from("loop"),
        Box::new(Line::ASTInstruction(Box::new(ASTInstruction::new(tokens.clone())))),
    );
    assert_eq!(label.label, "loop");
    let list = LineList::new(Vec::new());
    assert_eq!(list.lines.len(), 0);
}
