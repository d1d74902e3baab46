use bcx::codegen::emit_program;
use bcx::lexer::Lexer;
use bcx::parser::Parser;

fn compile_src(src: &str) -> Result<Vec<u8>, String> {
    let lexer = Lexer::new(src);
    let mut parser = Parser::new(lexer);
    let prog = parser.parse_program().map_err(|e| e.0)?;
    emit_program(&prog)
}

const HEADER: [u8; 8] = [0x62, 0x63, 0x78, 0, 0, 0, 0, 0];

#[test]
fn println_no_args_is_one_newline_byte() {
    let bytes = compile_src("fn main() { PRINTLN(); }").unwrap();
    assert_eq!(&bytes[..8], &HEADER);
    assert_eq!(&bytes[8..], &[0x02]);
}

#[test]
fn println_hi_is_write_then_newline() {
    let bytes = compile_src("fn main() { PRINTLN(\"hi\"); }").unwrap();
    assert_eq!(&bytes[..8], &HEADER);
    assert_eq!(&bytes[8..], &[0x01, 1, 2, b'h', b'i', 0x02]);
}

#[test]
fn empty_main_emits_header_only() {
    let bytes = compile_src("fn main() { }").unwrap();
    assert_eq!(bytes, HEADER.to_vec());
}

#[test]
fn empty_statements_emit_nothing() {
    let bytes = compile_src("fn main() { ;; }").unwrap();
    assert_eq!(bytes, HEADER.to_vec());
}

#[test]
fn mnemonics_are_case_insensitive() {
    let upper = compile_src("fn main() { HALT; }").unwrap();
    let lower = compile_src("fn main() { halt; }").unwrap();
    let mixed = compile_src("fn main() { hAlT; }").unwrap();
    assert_eq!(upper, lower);
    assert_eq!(upper, mixed);
    assert_eq!(&upper[8..], &[0xFF]);
}

#[test]
fn write_encodes_fd_len_and_text() {
    let bytes = compile_src("fn main() { write(2, \"abc\"); }").unwrap();
    assert_eq!(&bytes[8..], &[0x01, 2, 3, b'a', b'b', b'c']);
}

#[test]
fn write_string_over_255_bytes_fails_with_string_too_long() {
    let long = "a".repeat(256);
    let src = format!("fn main() {{ write(1, \"{}\"); }}", long);
    let err = compile_src(&src).unwrap_err();
    assert_eq!(err, "string too long");
}

#[test]
fn write_string_of_255_bytes_is_accepted() {
    let long = "a".repeat(255);
    let src = format!("fn main() {{ write(1, \"{}\"); }}", long);
    let bytes = compile_src(&src).unwrap();
    assert_eq!(bytes.len(), 8 + 3 + 255);
    assert_eq!(bytes[10], 255);
}

#[test]
fn string_length_counts_utf8_bytes() {
    // two characters, three UTF-8 bytes
    let bytes = compile_src("fn main() { write(1, \"a\u{00e9}\"); }").unwrap();
    assert_eq!(&bytes[8..11], &[0x01, 1, 3]);
}

#[test]
fn string_escapes_are_applied() {
    let bytes = compile_src("fn main() { write(1, \"a\\n\\t\\\\\\\"\"); }").unwrap();
    assert_eq!(&bytes[8..], &[0x01, 1, 5, b'a', b'\n', b'\t', b'\\', b'"']);
}

#[test]
fn print_encodes_char_and_immediate_alike() {
    let c = compile_src("fn main() { print('A'); }").unwrap();
    let n = compile_src("fn main() { print(65); }").unwrap();
    assert_eq!(c, n);
    assert_eq!(&c[8..], &[0x03, 65]);
}

#[test]
fn print_truncates_immediate_to_byte() {
    let bytes = compile_src("fn main() { print(321); }").unwrap();
    assert_eq!(&bytes[8..], &[0x03, 65]);
}

#[test]
fn mov_immediate_is_little_endian_i32() {
    let bytes = compile_src("fn main() { unsafe { mov(r1, 0x01020304); } }").unwrap();
    assert_eq!(&bytes[8..], &[0x0B, 1, 0x04, 0x03, 0x02, 0x01]);
}

#[test]
fn mov_register_to_register() {
    let bytes = compile_src("fn main() { unsafe { mov(r1, r2); } }").unwrap();
    assert_eq!(&bytes[8..], &[0x0C, 1, 2]);
}

#[test]
fn mov_immediate_truncates_to_32_bits() {
    let bytes = compile_src("fn main() { unsafe { mov(r0, 4294967297); } }").unwrap();
    // 2^32 + 1 truncates to 1
    assert_eq!(&bytes[8..], &[0x0B, 0, 1, 0, 0, 0]);
}

#[test]
fn add_push_pop_printreg_encodings() {
    let bytes =
        compile_src("fn main() { unsafe { add(r1, r2); push(7); push(r3); pop(r4); printreg(r5); } }")
            .unwrap();
    assert_eq!(
        &bytes[8..],
        &[0x06, 1, 2, 0x04, 7, 0, 0, 0, 0x12, 3, 0x05, 4, 0x0A, 5]
    );
}

#[test]
fn unsafe_blocks_are_flattened_in_place() {
    let a = compile_src("fn main() { newline; unsafe { push(r1); } halt; }").unwrap();
    assert_eq!(&a[8..], &[0x02, 0x12, 1, 0xFF]);
}

#[test]
fn unsupported_mnemonic_is_named_in_error() {
    let err = compile_src("fn main() { frobnicate; }").unwrap_err();
    assert_eq!(err, "Unsupported instruction: FROBNICATE");
}

#[test]
fn write_arity_error() {
    let err = compile_src("fn main() { write(1); }").unwrap_err();
    assert_eq!(err, "WRITE requires 2 args");
}

#[test]
fn write_fd_must_be_imm_or_reg() {
    let err = compile_src("fn main() { write(\"x\", \"y\"); }").unwrap_err();
    assert_eq!(err, "Invalid fd");
}

#[test]
fn write_text_must_be_string() {
    let err = compile_src("fn main() { write(1, 2); }").unwrap_err();
    assert_eq!(err, "WRITE requires string");
}

#[test]
fn println_rejects_two_arguments() {
    let err = compile_src("fn main() { println(\"a\", \"b\"); }").unwrap_err();
    assert_eq!(err, "PRINTLN accepts 0 or 1 argument");
}

#[test]
fn println_rejects_register_argument() {
    let err = compile_src("fn main() { unsafe { println(r1); } }").unwrap_err();
    assert_eq!(err, "PRINTLN expects a string or char");
}

#[test]
fn mov_dst_must_be_register() {
    let err = compile_src("fn main() { mov(1, 2); }").unwrap_err();
    assert_eq!(err, "MOV dst must be reg");
}

#[test]
fn pop_requires_register() {
    let err = compile_src("fn main() { pop(3); }").unwrap_err();
    assert_eq!(err, "POP expects reg");
}

#[test]
fn missing_main_error_from_encoder() {
    let prog = bcx::ast::Program::new();
    let err = emit_program(&prog).unwrap_err();
    assert_eq!(err, "missing main");
}

#[test]
fn first_main_of_several_is_emitted() {
    let bytes = compile_src("fn main() { halt; } fn main() { newline; }").unwrap();
    assert_eq!(&bytes[8..], &[0xFF]);
}
