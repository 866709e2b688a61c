use chip8::disasm::{disassemble, generate_instruction_string, get_ascii_string, get_hex_string};

#[test]
fn renders_system_family() {
    assert_eq!(generate_instruction_string(0x00E0), "CLS");
    assert_eq!(generate_instruction_string(0x00EE), "RET");
    assert_eq!(generate_instruction_string(0x0123), "SYS 0x123");
}

#[test]
fn renders_jumps_and_calls() {
    assert_eq!(generate_instruction_string(0x1ABC), "JMP 0xABC");
    assert_eq!(generate_instruction_string(0x2ABC), "CALL 0xABC");
    assert_eq!(generate_instruction_string(0xB456), "JP V0, 0x456");
}

#[test]
fn renders_skips() {
    assert_eq!(generate_instruction_string(0x3A12), "SE VA, 0x12");
    assert_eq!(generate_instruction_string(0x4B34), "SNE VB, 0x34");
    assert_eq!(generate_instruction_string(0x5120), "SE V1, V2");
    assert_eq!(generate_instruction_string(0x9AB0), "SNE VA, VB");
}

#[test]
fn renders_immediates() {
    assert_eq!(generate_instruction_string(0x6C05), "LD VC, 0x05");
    assert_eq!(generate_instruction_string(0x7D78), "ADD VD, 0x78");
    assert_eq!(generate_instruction_string(0xC1FF), "RND V1, 0xFF");
}

#[test]
fn renders_alu_family() {
    assert_eq!(generate_instruction_string(0x8120), "LD V1, V2");
    assert_eq!(generate_instruction_string(0x8121), "OR V1, V2");
    assert_eq!(generate_instruction_string(0x8122), "AND V1, V2");
    assert_eq!(generate_instruction_string(0x8123), "XOR V1, V2");
    assert_eq!(generate_instruction_string(0x8124), "ADD V1, V2");
    assert_eq!(generate_instruction_string(0x8125), "SUB V1, V2");
    assert_eq!(generate_instruction_string(0x8126), "SHR V1");
    assert_eq!(generate_instruction_string(0x8127), "SUBN V1, V2");
    assert_eq!(generate_instruction_string(0x812E), "SHL V1");
    assert_eq!(generate_instruction_string(0x8129), "??");
}

#[test]
fn renders_address_register_and_draw() {
    assert_eq!(generate_instruction_string(0xA123), "LD I, 0x123");
    // The row-count nibble prints in lower case.
    assert_eq!(generate_instruction_string(0xD12A), "DRW V1, V2, 0xa");
    assert_eq!(generate_instruction_string(0xD123), "DRW V1, V2, 0x3");
}

#[test]
fn renders_key_family() {
    assert_eq!(generate_instruction_string(0xE19E), "SKP V1");
    assert_eq!(generate_instruction_string(0xE1A1), "SKNP V1");
    assert_eq!(generate_instruction_string(0xE100), "??");
}

#[test]
fn renders_misc_family() {
    assert_eq!(generate_instruction_string(0xF107), "LD V1, DT");
    assert_eq!(generate_instruction_string(0xF10A), "LD V1, K");
    assert_eq!(generate_instruction_string(0xF115), "LD DT, V1");
    assert_eq!(generate_instruction_string(0xF118), "LD ST, V1");
    assert_eq!(generate_instruction_string(0xF11E), "ADD I, V1");
    assert_eq!(generate_instruction_string(0xF129), "LD F, V1");
    assert_eq!(generate_instruction_string(0xF133), "LD B, V1");
    assert_eq!(generate_instruction_string(0xF155), "LD [I], V1");
    assert_eq!(generate_instruction_string(0xF165), "LD V1, [I]");
    assert_eq!(generate_instruction_string(0xF1FF), "??");
}

#[test]
fn disassembles_a_run_of_words() {
    let bytes = [0x00, 0xE0, 0xA1, 0x23, 0x61, 0x05];
    let listing = disassemble(&bytes, 0x200);
    assert_eq!(listing.len(), 3);
    assert_eq!(listing[0].address, 0x200);
    assert_eq!(listing[0].bytes, 0x00E0);
    assert_eq!(listing[0].opcode, "CLS");
    assert_eq!(listing[1].address, 0x202);
    assert_eq!(listing[1].bytes, 0xA123);
    assert_eq!(listing[1].opcode, "LD I, 0x123");
    assert_eq!(listing[2].address, 0x204);
    assert_eq!(listing[2].bytes, 0x6105);
    assert_eq!(listing[2].opcode, "LD V1, 0x05");
}

#[test]
fn disassembles_nothing_from_empty_input() {
    let listing = disassemble(&[], 0x200);
    assert_eq!(listing.len(), 0);
}

#[test]
fn hex_dump_uses_lower_case_pairs() {
    assert_eq!(get_hex_string(&[0x0F, 0xA0, 0x3B]), "0f a0 3b ");
    assert_eq!(get_hex_string(&[]), "");
}

#[test]
fn ascii_dump_keeps_printable_bytes_only() {
    let bytes = [0x41, 0x20, 0x7E, 0x1F, 0x7F, 0x00, 0xFF, b'z'];
    assert_eq!(get_ascii_string(&bytes), "A ~....z");
}
