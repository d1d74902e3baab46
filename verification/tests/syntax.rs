use bcx::ast::Operand;
use bcx::ast::Statement;
use bcx::lexer::Lexer;
use bcx::lexer::Token;
use bcx::parser::Parser;

fn parse_src(src: &str) -> Result<bcx::ast::Program, String> {
    let lexer = Lexer::new(src);
    let mut parser = Parser::new(lexer);
    parser.parse_program().map_err(|e| e.0)
}

#[test]
fn lexer_token_stream_of_empty_main() {
    let mut lx = Lexer::new("fn main() { }");
    assert_eq!(lx.next_token(), Token::Fn);
    assert_eq!(lx.next_token(), Token::Ident("main".to_string()));
    assert_eq!(lx.next_token(), Token::LParen);
    assert_eq!(lx.next_token(), Token::RParen);
    assert_eq!(lx.next_token(), Token::LBrace);
    assert_eq!(lx.next_token(), Token::RBrace);
    assert_eq!(lx.next_token(), Token::Eof);
    // idempotent at the end of the input
    assert_eq!(lx.next_token(), Token::Eof);
}

#[test]
fn lexer_reads_decimal_and_hex_numbers() {
    let mut lx = Lexer::new("12 0x1f 0X10");
    assert_eq!(lx.next_token(), Token::Number(12));
    assert_eq!(lx.next_token(), Token::Number(31));
    assert_eq!(lx.next_token(), Token::Number(16));
}

#[test]
fn lexer_malformed_numbers_read_as_zero() {
    // a bare hex prefix, a digit run with a stray marker, and an overflow
    let mut lx = Lexer::new("0x 1x2 9223372036854775808");
    assert_eq!(lx.next_token(), Token::Number(0));
    assert_eq!(lx.next_token(), Token::Number(0));
    assert_eq!(lx.next_token(), Token::Number(0));
}

#[test]
fn lexer_reads_i64_max() {
    let mut lx = Lexer::new("9223372036854775807 0x7fffffffffffffff");
    assert_eq!(lx.next_token(), Token::Number(i64::MAX));
    assert_eq!(lx.next_token(), Token::Number(i64::MAX));
}

#[test]
fn lexer_string_supports_escapes_and_runs_to_eof_when_unterminated() {
    let mut lx = Lexer::new("\"a\\n\\\"b\" \"open");
    assert_eq!(lx.next_token(), Token::Str("a\n\"b".to_string()));
    assert_eq!(lx.next_token(), Token::Str("open".to_string()));
    assert_eq!(lx.next_token(), Token::Eof);
}

#[test]
fn lexer_char_literal_tolerates_missing_close_quote() {
    let mut lx = Lexer::new("'a' 'b");
    assert_eq!(lx.next_token(), Token::Char('a'));
    assert_eq!(lx.next_token(), Token::Char('b'));
    assert_eq!(lx.next_token(), Token::Eof);
}

#[test]
fn lexer_skips_unmatched_bytes() {
    let mut lx = Lexer::new("@ # $ halt");
    assert_eq!(lx.next_token(), Token::Ident("halt".to_string()));
}

#[test]
fn lexer_identifiers_may_hold_underscores_and_digits() {
    let mut lx = Lexer::new("_x9 fnord");
    assert_eq!(lx.next_token(), Token::Ident("_x9".to_string()));
    // `fn` is reserved, but only as a whole word
    assert_eq!(lx.next_token(), Token::Ident("fnord".to_string()));
}

#[test]
fn register_outside_unsafe_fails_naming_the_register() {
    let err = parse_src("fn main() { push(R0); }").unwrap_err();
    assert_eq!(err, "Register R0 used outside unsafe block");
}

#[test]
fn register_inside_unsafe_is_accepted() {
    let prog = parse_src("fn main() { unsafe { push(R0); } }").unwrap();
    assert_eq!(prog.functions.len(), 1);
    match &prog.functions[0].body[0] {
        Statement::UnsafeBlock(inner) => match &inner[0] {
            Statement::Instr(i) => {
                assert_eq!(i.args, vec![Operand::Reg(0)]);
            },
            other => panic!("expected an instruction, got {:?}", other),
        },
        other => panic!("expected an unsafe block, got {:?}", other),
    }
}

#[test]
fn function_named_other_than_main_fails_parsing() {
    let err = parse_src("fn other() { }").unwrap_err();
    assert_eq!(err, "Only `main` is supported, found function 'other'");
}

#[test]
fn missing_fn_keyword_fails_parsing() {
    let err = parse_src("main() { }").unwrap_err();
    assert_eq!(err, "Expected 'fn' keyword, found: Ident(\"main\")");
}

#[test]
fn unsupported_token_in_body_fails_parsing() {
    let err = parse_src("fn main() { , }").unwrap_err();
    assert_eq!(err, "Unsupported token in body: Comma");
}

#[test]
fn nested_unsafe_block_fails_parsing() {
    // the inner `unsafe` reads as a mnemonic; the brace after it is refused
    let err = parse_src("fn main() { unsafe { unsafe { } } }").unwrap_err();
    assert_eq!(err, "Unsupported token in unsafe body: LBrace");
}

#[test]
fn unterminated_body_fails_parsing() {
    let err = parse_src("fn main() { ").unwrap_err();
    assert_eq!(err, "Expected RBrace, found Eof");
}

#[test]
fn register_number_reads_tolerantly() {
    let prog = parse_src("fn main() { unsafe { push(r007); push(r256); push(rx); } }").unwrap();
    let inner = match &prog.functions[0].body[0] {
        Statement::UnsafeBlock(inner) => inner,
        other => panic!("expected an unsafe block, got {:?}", other),
    };
    let regs: Vec<&bcx::ast::Instruction> = inner
        .iter()
        .map(|s| match s {
            Statement::Instr(i) => i,
            other => panic!("expected an instruction, got {:?}", other),
        })
        .collect();
    assert_eq!(regs[0].args, vec![Operand::Reg(7)]);
    // 256 exceeds a register byte, so it reads as 0
    assert_eq!(regs[1].args, vec![Operand::Reg(0)]);
    // non-numeric register text reads as 0
    assert_eq!(regs[2].args, vec![Operand::Reg(0)]);
}

#[test]
fn plain_identifier_operand_is_kept_symbolic() {
    let prog = parse_src("fn main() { jump(label); }").unwrap();
    match &prog.functions[0].body[0] {
        Statement::Instr(i) => {
            assert_eq!(i.args, vec![Operand::Ident("label".to_string())]);
        },
        other => panic!("expected an instruction, got {:?}", other),
    }
}

#[test]
fn trailing_comma_in_operand_list_is_tolerated() {
    let prog = parse_src("fn main() { print(65,); }").unwrap();
    match &prog.functions[0].body[0] {
        Statement::Instr(i) => assert_eq!(i.args, vec![Operand::Imm(65)]),
        other => panic!("expected an instruction, got {:?}", other),
    }
}

#[test]
fn char_operand_truncates_to_byte() {
    let prog = parse_src("fn main() { print('\u{20ac}'); }").unwrap();
    match &prog.functions[0].body[0] {
        // U+20AC keeps only its low byte
        Statement::Instr(i) => assert_eq!(i.args, vec![Operand::Char(0xAC)]),
        other => panic!("expected an instruction, got {:?}", other),
    }
}

#[test]
fn parsing_two_mains_succeeds() {
    let prog = parse_src("fn main() { } fn main() { halt; }").unwrap();
    assert_eq!(prog.functions.len(), 2);
    assert_eq!(prog.functions[0].name, "main");
    assert_eq!(prog.functions[1].name, "main");
    assert!(prog.functions[0].params.is_empty());
}

#[test]
fn whitespace_of_every_ascii_kind_is_skipped() {
    let mut lx = Lexer::new(" \t\r\n fn\t\nmain");
    assert_eq!(lx.next_token(), Token::Fn);
    assert_eq!(lx.next_token(), Token::Ident("main".to_string()));
    assert_eq!(lx.next_token(), Token::Eof);
}

#[test]
fn identifiers_may_hold_unicode_letters() {
    let mut lx = Lexer::new("caf\u{e9} \u{3b1}1");
    assert_eq!(lx.next_token(), Token::Ident("caf\u{e9}".to_string()));
    assert_eq!(lx.next_token(), Token::Ident("\u{3b1}1".to_string()));
}

#[test]
fn unicode_digit_starts_a_number_that_reads_as_zero() {
    // an Arabic-Indic digit is numeric but not an ASCII digit
    let mut lx = Lexer::new("\u{660}");
    assert_eq!(lx.next_token(), Token::Number(0));
}
