use bcx::codegen::emit_program;
use bcx::lexer::Lexer;
use bcx::parser::Parser;
use bcx::render::disassemble;

fn compile_src(src: &str) -> Vec<u8> {
    let lexer = Lexer::new(src);
    let mut parser = Parser::new(lexer);
    let prog = parser.parse_program().unwrap();
    emit_program(&prog).unwrap()
}

/// The disassembly lines of one compiled instruction, header skipped.
fn round_trip(src: &str) -> Vec<String> {
    let bytes = compile_src(src);
    let out = disassemble(&bytes[8..]);
    assert!(out.error.is_none());
    out.lines
}

#[test]
fn empty_header_yields_zero_instruction_lines() {
    let data = [0x62u8, 0x63, 0x78, 0x00, 0x00, 0x00, 0x00, 0x00];
    let out = disassemble(&data);
    assert_eq!(out.lines, vec!["Header: MAGIC=bcx data_count=0 data_table_size=0".to_string()]);
    assert!(out.error.is_none());
}

#[test]
fn truncated_push_imm_prints_one_marker_line_and_stops() {
    let data = [0x04u8, 0x01, 0x00];
    let out = disassemble(&data);
    assert_eq!(out.lines.len(), 1);
    assert!(out.lines[0].contains("<truncated>"));
    assert_eq!(out.lines[0], "0x0000: PUSH_IMM <truncated>");
}

#[test]
fn header_with_data_table_is_stepped_over() {
    let data = [0x62u8, 0x63, 0x78, 1, 2, 0, 0, 0, 0xAA, 0xBB, 0x02];
    let out = disassemble(&data);
    assert_eq!(
        out.lines,
        vec![
            "Header: MAGIC=bcx data_count=1 data_table_size=2".to_string(),
            "0x000a: NEWLINE".to_string(),
        ]
    );
}

#[test]
fn oversized_data_table_aborts_without_instructions() {
    let data = [0x62u8, 0x63, 0x78, 0, 5, 0, 0, 0];
    let out = disassemble(&data);
    assert_eq!(out.lines, vec!["Header: MAGIC=bcx data_count=0 data_table_size=5".to_string()]);
    assert_eq!(
        out.error.unwrap(),
        "file truncated: declared data_table_size=5 but file too small"
    );
}

#[test]
fn buffer_without_magic_decodes_from_offset_zero() {
    let data = [0x02u8, 0xFF];
    let out = disassemble(&data);
    assert_eq!(out.lines, vec!["0x0000: NEWLINE".to_string(), "0x0001: HALT".to_string()]);
}

#[test]
fn unknown_opcode_prints_marker_and_decoding_continues() {
    let data = [0xABu8, 0x02];
    let out = disassemble(&data);
    assert_eq!(
        out.lines,
        vec!["0x0000: UNKNOWN 0xab".to_string(), "0x0001: NEWLINE".to_string()]
    );
}

#[test]
fn round_trip_write() {
    assert_eq!(round_trip("fn main() { write(1, \"ok\"); }"), vec!["0x0000: WRITE fd=1 \"ok\""]);
}

#[test]
fn round_trip_println_string() {
    assert_eq!(
        round_trip("fn main() { println(\"hi\"); }"),
        vec!["0x0000: WRITE fd=1 \"hi\"", "0x0005: NEWLINE"]
    );
}

#[test]
fn round_trip_println_char() {
    assert_eq!(
        round_trip("fn main() { println('x'); }"),
        vec!["0x0000: PRINT 'x' (0x78)", "0x0002: NEWLINE"]
    );
}

#[test]
fn round_trip_println_empty() {
    assert_eq!(round_trip("fn main() { println(); }"), vec!["0x0000: NEWLINE"]);
}

#[test]
fn round_trip_newline_and_halt() {
    assert_eq!(round_trip("fn main() { newline; }"), vec!["0x0000: NEWLINE"]);
    assert_eq!(round_trip("fn main() { halt; }"), vec!["0x0000: HALT"]);
}

#[test]
fn round_trip_print() {
    assert_eq!(round_trip("fn main() { print('A'); }"), vec!["0x0000: PRINT 'A' (0x41)"]);
}

#[test]
fn round_trip_mov_imm() {
    assert_eq!(
        round_trip("fn main() { unsafe { mov(r1, 5); } }"),
        vec!["0x0000: MOV_IMM r1 5"]
    );
}

#[test]
fn round_trip_mov_imm_truncates_signed() {
    // 4294967295 is 2^32 - 1; as a 32-bit immediate it reads back as -1
    assert_eq!(
        round_trip("fn main() { unsafe { mov(r0, 4294967295); } }"),
        vec!["0x0000: MOV_IMM r0 -1"]
    );
}

#[test]
fn round_trip_mov_reg() {
    assert_eq!(
        round_trip("fn main() { unsafe { mov(r1, r2); } }"),
        vec!["0x0000: MOV_REG r1, r2"]
    );
}

#[test]
fn round_trip_add() {
    assert_eq!(
        round_trip("fn main() { unsafe { add(r1, r2); } }"),
        vec!["0x0000: ADD r1, r2"]
    );
}

#[test]
fn round_trip_push_imm() {
    assert_eq!(round_trip("fn main() { push(7); }"), vec!["0x0000: PUSH_IMM 7"]);
}

#[test]
fn round_trip_push_reg() {
    assert_eq!(
        round_trip("fn main() { unsafe { push(r3); } }"),
        vec!["0x0000: PUSH_REG r3"]
    );
}

#[test]
fn round_trip_pop() {
    assert_eq!(round_trip("fn main() { unsafe { pop(r4); } }"), vec!["0x0000: POP r4"]);
}

#[test]
fn round_trip_printreg() {
    assert_eq!(
        round_trip("fn main() { unsafe { printreg(r5); } }"),
        vec!["0x0000: PRINTREG r5"]
    );
}

#[test]
fn offsets_accumulate_across_instructions() {
    assert_eq!(
        round_trip("fn main() { unsafe { mov(r1, 5); add(r1, r2); } halt; }"),
        vec!["0x0000: MOV_IMM r1 5", "0x0006: ADD r1, r2", "0x0009: HALT"]
    );
}

#[test]
fn jump_addresses_print_as_padded_hex() {
    let data = [0x0Du8, 0x10, 0, 0, 0];
    let out = disassemble(&data);
    assert_eq!(out.lines, vec!["0x0000: JMP 0x00000010"]);
}

#[test]
fn je_carries_address_only() {
    let data = [0x0Eu8, 0x34, 0x12, 0, 0, 0x02];
    let out = disassemble(&data);
    assert_eq!(out.lines, vec!["0x0000: JE 0x00001234", "0x0005: NEWLINE"]);
}

#[test]
fn truncated_je_prints_shared_marker() {
    let data = [0x0Eu8, 0x01];
    let out = disassemble(&data);
    assert_eq!(out.lines, vec!["0x0000: JE/JNE <truncated>"]);
}

#[test]
fn call_prints_address_and_frame() {
    let data = [0x3Au8, 1, 0, 0, 0, 2, 0, 0, 0];
    let out = disassemble(&data);
    assert_eq!(out.lines, vec!["0x0000: CALL 0x00000001 frame=2"]);
}

#[test]
fn load_prints_register_and_index() {
    let data = [0x15u8, 3, 7, 0, 0, 0];
    let out = disassemble(&data);
    assert_eq!(out.lines, vec!["0x0000: LOAD r3, 7"]);
}

#[test]
fn loadstr_prints_implicit_register_zero() {
    let data = [0x28u8, 9, 0, 0, 0];
    let out = disassemble(&data);
    assert_eq!(out.lines, vec!["0x0000: LOADSTR r0, idx=9 (data)"]);
}

#[test]
fn fopen_prints_fd_and_name() {
    let data = [0x21u8, 4, 3, b'f', b'o', b'o'];
    let out = disassemble(&data);
    assert_eq!(out.lines, vec!["0x0000: FOPEN fd=4 \"foo\""]);
}

#[test]
fn alloc_group_prints_bare_marker_when_truncated() {
    let data = [0x14u8, 1];
    let out = disassemble(&data);
    assert_eq!(out.lines, vec!["0x0000: <truncated>"]);
}

#[test]
fn load_wide_group_prints_shared_marker_when_truncated() {
    let data = [0x3Cu8, 1, 2];
    let out = disassemble(&data);
    assert_eq!(out.lines, vec!["0x0000: LOAD* <truncated>"]);
}

#[test]
fn write_with_missing_text_prints_placeholder_and_stops() {
    let data = [0x01u8, 1, 5, b'a'];
    let out = disassemble(&data);
    assert_eq!(out.lines, vec!["0x0000: WRITE fd=1 \"<truncated>\""]);
}

#[test]
fn write_with_invalid_utf8_prints_replacement_character() {
    let data = [0x01u8, 1, 1, 0xFF];
    let out = disassemble(&data);
    assert_eq!(out.lines, vec!["0x0000: WRITE fd=1 \"\u{FFFD}\""]);
}

#[test]
fn reg2_family_shares_one_layout() {
    let data = [0x07u8, 1, 2, 0x2A, 3, 4, 0x40, 5, 6, 0x13, 7, 8];
    let out = disassemble(&data);
    assert_eq!(
        out.lines,
        vec![
            "0x0000: SUB r1, r2",
            "0x0003: XOR r3, r4",
            "0x0006: MOD r5, r6",
            "0x0009: CMP r7, r8",
        ]
    );
}

#[test]
fn offsets_grow_past_four_hex_digits_when_needed() {
    let mut data = vec![0u8; 0x10000];
    for b in data.iter_mut() {
        *b = 0x02;
    }
    data.push(0xFF);
    let out = disassemble(&data);
    assert_eq!(out.lines.len(), 0x10001);
    assert_eq!(out.lines[0x10000], "0x10000: HALT");
    assert_eq!(out.lines[0xFFFF], "0xffff: NEWLINE");
}

#[test]
fn remaining_table_rows_decode_one_each() {
    fn one(data: &[u8]) -> String {
        let out = disassemble(data);
        assert_eq!(out.lines.len(), 1);
        out.lines[0].clone()
    }
    assert_eq!(one(&[0x10, 1]), "0x0000: INC r1");
    assert_eq!(one(&[0x11, 2]), "0x0000: DEC r2");
    assert_eq!(one(&[0x13, 3, 4]), "0x0000: CMP r3, r4");
    assert_eq!(one(&[0x22, 3]), "0x0000: FCLOSE fd=3");
    assert_eq!(one(&[0x23, 4, 5]), "0x0000: FREAD fd=4, r5");
    assert_eq!(one(&[0x24, 6, 7]), "0x0000: FWRITE_REG fd=6, r7");
    assert_eq!(one(&[0x27, 8, 9, 0, 0, 0]), "0x0000: FWRITE_IMM fd=8, 9");
    assert_eq!(one(&[0x14, 1, 0, 0, 0]), "0x0000: ALLOC 1");
    assert_eq!(one(&[0x17, 2, 0, 0, 0]), "0x0000: GROW 2");
    assert_eq!(one(&[0x19, 3, 0, 0, 0]), "0x0000: RESIZE 3");
    assert_eq!(one(&[0x20, 4, 0, 0, 0]), "0x0000: FREE 4");
    assert_eq!(one(&[0x2F, 100, 0, 0, 0]), "0x0000: SLEEP 100");
    assert_eq!(one(&[0x30]), "0x0000: CLRSCR");
    assert_eq!(one(&[0x31]), "0x0000: RAND");
    assert_eq!(one(&[0x32, 1]), "0x0000: GETKEY r1");
    assert_eq!(one(&[0x33, 6]), "0x0000: READ r6");
    assert_eq!(one(&[0x34]), "0x0000: CONTINUE");
    assert_eq!(one(&[0x35, 2]), "0x0000: READCHAR r2");
    assert_eq!(one(&[0x36, 1, 0, 0, 0]), "0x0000: JL 0x00000001");
    assert_eq!(one(&[0x37, 1, 0, 0, 0]), "0x0000: JGE 0x00000001");
    assert_eq!(one(&[0x38, 1, 0, 0, 0]), "0x0000: JB 0x00000001");
    assert_eq!(one(&[0x39, 1, 0, 0, 0]), "0x0000: JAE 0x00000001");
    assert_eq!(one(&[0x3B]), "0x0000: RET");
    assert_eq!(one(&[0x3C, 1, 2, 0, 0, 0]), "0x0000: LOADBYTE r1, 2");
    assert_eq!(one(&[0x3D, 1, 2, 0, 0, 0]), "0x0000: LOADWORD r1, 2");
    assert_eq!(one(&[0x3E, 1, 2, 0, 0, 0]), "0x0000: LOADDWORD r1, 2");
    assert_eq!(one(&[0x3F, 1, 2, 0, 0, 0]), "0x0000: LOADQWORD r1, 2");
    assert_eq!(one(&[0x16, 1, 2, 0, 0, 0]), "0x0000: STORE r1, 2");
    assert_eq!(one(&[0x41, 1, 2]), "0x0000: LOAD_REG r1, r2");
    assert_eq!(one(&[0x42, 3, 4]), "0x0000: STORE_REG r3, r4");
    assert_eq!(one(&[0x08, 1, 2]), "0x0000: MUL r1, r2");
    assert_eq!(one(&[0x09, 3, 4]), "0x0000: DIV r3, r4");
    assert_eq!(one(&[0x2B, 5, 6]), "0x0000: AND r5, r6");
    assert_eq!(one(&[0x2C, 7, 8]), "0x0000: OR r7, r8");
    assert_eq!(one(&[0x29, 5]), "0x0000: PRINTSTR r5");
}

#[test]
fn negative_immediates_render_signed_everywhere() {
    let data = [0x27u8, 1, 0xFF, 0xFF, 0xFF, 0xFF];
    let out = disassemble(&data);
    assert_eq!(out.lines, vec!["0x0000: FWRITE_IMM fd=1, -1"]);
    let data2 = [0x04u8, 0x00, 0x00, 0x00, 0x80];
    let out2 = disassemble(&data2);
    assert_eq!(out2.lines, vec!["0x0000: PUSH_IMM -2147483648"]);
}
