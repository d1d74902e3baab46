//! The text half of the disassembler: turns decoded instruction records into
//! the printed lines, one per instruction, each opening with the
//! instruction's byte offset. The exact character sequence of every line is
//! pinned down by [`sp_render_line`]; this text is a debugging aid and is
//! not meant to be re-parsed.
use crate::chars::push_char;
use crate::decode::decode_container;
use crate::decode::is_count_op;
use crate::decode::DecodedInstr;
use crate::decode::DecodedInstrV;
use crate::decode::DecodedV;
use crate::decode::sp_disassemble;
use crate::numbers::dec_rep;
use crate::numbers::dec_rep_signed;
use crate::numbers::hex_rep;
use crate::numbers::push_dec_i64;
use crate::numbers::push_dec_u64;
use crate::numbers::push_hex_u64;
use crate::opcode::OPCODE_ADD;
use crate::opcode::OPCODE_ALLOC;
use crate::opcode::OPCODE_AND;
use crate::opcode::OPCODE_CALL;
use crate::opcode::OPCODE_CLRSCR;
use crate::opcode::OPCODE_CMP;
use crate::opcode::OPCODE_CONTINUE;
use crate::opcode::OPCODE_DEC;
use crate::opcode::OPCODE_DIV;
use crate::opcode::OPCODE_FCLOSE;
use crate::opcode::OPCODE_FOPEN;
use crate::opcode::OPCODE_FREAD;
use crate::opcode::OPCODE_FREE;
use crate::opcode::OPCODE_FWRITE_IMM;
use crate::opcode::OPCODE_FWRITE_REG;
use crate::opcode::OPCODE_GETKEY;
use crate::opcode::OPCODE_GROW;
use crate::opcode::OPCODE_HALT;
use crate::opcode::OPCODE_INC;
use crate::opcode::OPCODE_JAE;
use crate::opcode::OPCODE_JB;
use crate::opcode::OPCODE_JE;
use crate::opcode::OPCODE_JGE;
use crate::opcode::OPCODE_JL;
use crate::opcode::OPCODE_JMP;
use crate::opcode::OPCODE_JNE;
use crate::opcode::OPCODE_LOAD;
use crate::opcode::OPCODE_LOADBYTE;
use crate::opcode::OPCODE_LOADDWORD;
use crate::opcode::OPCODE_LOADQWORD;
use crate::opcode::OPCODE_LOADSTR;
use crate::opcode::OPCODE_LOADWORD;
use crate::opcode::OPCODE_LOAD_REG;
use crate::opcode::OPCODE_MOD;
use crate::opcode::OPCODE_MOV_IMM;
use crate::opcode::OPCODE_MOV_REG;
use crate::opcode::OPCODE_MUL;
use crate::opcode::OPCODE_NEWLINE;
use crate::opcode::OPCODE_OR;
use crate::opcode::OPCODE_POP;
use crate::opcode::OPCODE_PRINT;
use crate::opcode::OPCODE_PRINTREG;
use crate::opcode::OPCODE_PRINTSTR;
use crate::opcode::OPCODE_PUSH_IMM;
use crate::opcode::OPCODE_PUSH_REG;
use crate::opcode::OPCODE_RAND;
use crate::opcode::OPCODE_READ;
use crate::opcode::OPCODE_READCHAR;
use crate::opcode::OPCODE_RESIZE;
use crate::opcode::OPCODE_RET;
use crate::opcode::OPCODE_SLEEP;
use crate::opcode::OPCODE_STORE;
use crate::opcode::OPCODE_STORE_REG;
use crate::opcode::OPCODE_SUB;
use crate::opcode::OPCODE_WRITE;
use crate::opcode::OPCODE_XOR;
use vstd::prelude::*;
use vstd::string::StringExecFns;

verus! {

/// What `String::from_utf8_lossy` reads from the byte sequence `b`: `b`
/// decoded as UTF-8, with each invalid sequence replaced.
pub uninterp spec fn lossy_of(b: Seq<u8>) -> Seq<char>;

/// Relies on String::from_utf8_lossy: decodes the bytes as UTF-8, replacing
/// invalid sequences with U+FFFD; valid UTF-8, in particular anything that
/// `encode_utf8` produced, comes back as the characters it encodes.
#[verifier::external_body]
pub fn bytes_to_lossy_string(b: &[u8]) -> (r: String)
    ensures
        r@ == lossy_of(b@),
        forall|cs: Seq<char>| b@ == vstd::utf8::encode_utf8(cs) ==> r@ == cs,
{
    String::from_utf8_lossy(b).into_owned()
}

/// The mnemonic of a one-register-operand opcode.
pub open spec fn reg1_name(op: u8) -> Seq<char> {
    if op == OPCODE_PUSH_REG {
        "PUSH_REG"@
    } else if op == OPCODE_POP {
        "POP"@
    } else if op == OPCODE_PRINTREG {
        "PRINTREG"@
    } else if op == OPCODE_INC {
        "INC"@
    } else if op == OPCODE_DEC {
        "DEC"@
    } else if op == OPCODE_PRINTSTR {
        "PRINTSTR"@
    } else if op == OPCODE_READ {
        "READ"@
    } else if op == OPCODE_GETKEY {
        "GETKEY"@
    } else if op == OPCODE_READCHAR {
        "READCHAR"@
    } else {
        ""@
    }
}

/// The mnemonic of a two-register-operand opcode.
pub open spec fn reg2_name(op: u8) -> Seq<char> {
    if op == OPCODE_MOV_REG {
        "MOV_REG"@
    } else if op == OPCODE_ADD {
        "ADD"@
    } else if op == OPCODE_SUB {
        "SUB"@
    } else if op == OPCODE_MUL {
        "MUL"@
    } else if op == OPCODE_DIV {
        "DIV"@
    } else if op == OPCODE_XOR {
        "XOR"@
    } else if op == OPCODE_AND {
        "AND"@
    } else if op == OPCODE_OR {
        "OR"@
    } else if op == OPCODE_CMP {
        "CMP"@
    } else if op == OPCODE_LOAD_REG {
        "LOAD_REG"@
    } else if op == OPCODE_STORE_REG {
        "STORE_REG"@
    } else if op == OPCODE_MOD {
        "MOD"@
    } else {
        ""@
    }
}

/// The mnemonic of an fd-and-register opcode.
pub open spec fn fdreg_name(op: u8) -> Seq<char> {
    if op == OPCODE_FREAD {
        "FREAD"@
    } else if op == OPCODE_FWRITE_REG {
        "FWRITE_REG"@
    } else {
        ""@
    }
}

/// The mnemonic of an address-operand opcode.
pub open spec fn jump_name(op: u8) -> Seq<char> {
    if op == OPCODE_JMP {
        "JMP"@
    } else if op == OPCODE_JE {
        "JE"@
    } else if op == OPCODE_JNE {
        "JNE"@
    } else if op == OPCODE_JL {
        "JL"@
    } else if op == OPCODE_JGE {
        "JGE"@
    } else if op == OPCODE_JB {
        "JB"@
    } else if op == OPCODE_JAE {
        "JAE"@
    } else {
        ""@
    }
}

/// The mnemonic of a count-operand opcode.
pub open spec fn count_name(op: u8) -> Seq<char> {
    if op == OPCODE_ALLOC {
        "ALLOC"@
    } else if op == OPCODE_GROW {
        "GROW"@
    } else if op == OPCODE_RESIZE {
        "RESIZE"@
    } else if op == OPCODE_FREE {
        "FREE"@
    } else if op == OPCODE_SLEEP {
        "SLEEP"@
    } else {
        ""@
    }
}

/// The mnemonic of a register-and-index opcode.
pub open spec fn regidx_name(op: u8) -> Seq<char> {
    if op == OPCODE_LOAD {
        "LOAD"@
    } else if op == OPCODE_STORE {
        "STORE"@
    } else if op == OPCODE_LOADBYTE {
        "LOADBYTE"@
    } else if op == OPCODE_LOADWORD {
        "LOADWORD"@
    } else if op == OPCODE_LOADDWORD {
        "LOADDWORD"@
    } else if op == OPCODE_LOADQWORD {
        "LOADQWORD"@
    } else {
        ""@
    }
}

/// The mnemonic of a no-operand opcode.
pub open spec fn simple_name(op: u8) -> Seq<char> {
    if op == OPCODE_NEWLINE {
        "NEWLINE"@
    } else if op == OPCODE_CLRSCR {
        "CLRSCR"@
    } else if op == OPCODE_RAND {
        "RAND"@
    } else if op == OPCODE_CONTINUE {
        "CONTINUE"@
    } else if op == OPCODE_RET {
        "RET"@
    } else if op == OPCODE_HALT {
        "HALT"@
    } else {
        ""@
    }
}

/// The marker line body printed when the operand bytes of `op` run past the
/// end of the buffer.
pub open spec fn sp_trunc_body(op: u8) -> Seq<char> {
    if is_count_op(op) {
        "<truncated>"@
    } else if op == OPCODE_JE || op == OPCODE_JNE {
        "JE/JNE <truncated>"@
    } else if op == OPCODE_LOADBYTE || op == OPCODE_LOADWORD || op == OPCODE_LOADDWORD || op
        == OPCODE_LOADQWORD {
        "LOAD* <truncated>"@
    } else {
        sp_trunc_name(op) + " <truncated>"@
    }
}

/// The mnemonic used in a truncation marker.
pub open spec fn sp_trunc_name(op: u8) -> Seq<char> {
    if op == OPCODE_PRINT {
        "PRINT"@
    } else if op == OPCODE_FCLOSE {
        "FCLOSE"@
    } else if op == OPCODE_LOADSTR {
        "LOADSTR"@
    } else if op == OPCODE_PUSH_IMM {
        "PUSH_IMM"@
    } else if op == OPCODE_MOV_IMM {
        "MOV_IMM"@
    } else if op == OPCODE_FWRITE_IMM {
        "FWRITE_IMM"@
    } else if op == OPCODE_CALL {
        "CALL"@
    } else if op == OPCODE_WRITE {
        "WRITE"@
    } else if op == OPCODE_FOPEN {
        "FOPEN"@
    } else if op == OPCODE_LOAD || op == OPCODE_STORE {
        regidx_name(op)
    } else if op == OPCODE_FREAD || op == OPCODE_FWRITE_REG {
        fdreg_name(op)
    } else if jump_name(op).len() > 0 {
        jump_name(op)
    } else if reg1_name(op).len() > 0 {
        reg1_name(op)
    } else {
        reg2_name(op)
    }
}

/// A register operand as printed: `r` and the register number in decimal.
pub open spec fn sp_reg(r: u8) -> Seq<char> {
    "r"@ + dec_rep(r as int)
}

/// An fd operand as printed.
pub open spec fn sp_fd(fd: u8) -> Seq<char> {
    "fd="@ + dec_rep(fd as int)
}

/// An address as printed: `0x` and eight zero-padded hex digits.
pub open spec fn sp_addr(a: u32) -> Seq<char> {
    "0x"@ + hex_rep(a as int, 8)
}

/// The body of one printed line (everything after the offset).
pub open spec fn sp_render_body(d: DecodedV) -> Seq<char> {
    match d {
        DecodedV::Write { fd, text } => "WRITE "@ + sp_fd(fd) + " \""@ + lossy_of(text) + "\""@,
        DecodedV::WriteTrunc { fd } => "WRITE "@ + sp_fd(fd) + " \"<truncated>\""@,
        DecodedV::Fopen { fd, name } => "FOPEN "@ + sp_fd(fd) + " \""@ + lossy_of(name) + "\""@,
        DecodedV::FopenTrunc { fd } => "FOPEN "@ + sp_fd(fd) + " \"<truncated>\""@,
        DecodedV::Print { byte } => "PRINT '"@ + seq![byte as char] + "' (0x"@ + hex_rep(
            byte as int,
            2,
        ) + ")"@,
        DecodedV::PushImm { value } => "PUSH_IMM "@ + dec_rep_signed(value as int),
        DecodedV::MovImm { dst, value } => "MOV_IMM "@ + sp_reg(dst) + " "@ + dec_rep_signed(
            value as int,
        ),
        DecodedV::FwriteImm { fd, value } => "FWRITE_IMM "@ + sp_fd(fd) + ", "@ + dec_rep_signed(
            value as int,
        ),
        DecodedV::Reg1 { op, reg } => reg1_name(op) + " "@ + sp_reg(reg),
        DecodedV::Fd1 { fd } => "FCLOSE "@ + sp_fd(fd),
        DecodedV::Reg2 { op, a, b } => reg2_name(op) + " "@ + sp_reg(a) + ", "@ + sp_reg(b),
        DecodedV::FdReg { op, fd, reg } => fdreg_name(op) + " "@ + sp_fd(fd) + ", "@ + sp_reg(reg),
        DecodedV::Jump { op, addr } => jump_name(op) + " "@ + sp_addr(addr),
        DecodedV::Count { op, n } => count_name(op) + " "@ + dec_rep(n as int),
        DecodedV::RegIdx { op, reg, idx } => regidx_name(op) + " "@ + sp_reg(reg) + ", "@ + dec_rep(
            idx as int,
        ),
        DecodedV::LoadStr { idx } => "LOADSTR r0, idx="@ + dec_rep(idx as int) + " (data)"@,
        DecodedV::Call { addr, frame } => "CALL "@ + sp_addr(addr) + " frame="@ + dec_rep(
            frame as int,
        ),
        DecodedV::Simple { op } => simple_name(op),
        DecodedV::Unknown { op } => "UNKNOWN 0x"@ + hex_rep(op as int, 2),
        DecodedV::Truncated { op } => sp_trunc_body(op),
    }
}

/// One printed line: the byte offset as `0x` and at least four zero-padded
/// hex digits, a colon, and the body.
pub open spec fn sp_render_line(e: DecodedInstrV) -> Seq<char> {
    "0x"@ + hex_rep(e.offset, 4) + ": "@ + sp_render_body(e.body)
}

/// The line printed for a recognized container header.
pub open spec fn sp_header_line(count: u8, size: u32) -> Seq<char> {
    "Header: MAGIC=bcx data_count="@ + dec_rep(count as int) + " data_table_size="@ + dec_rep(
        size as int,
    )
}

/// The message for a header whose declared data table exceeds the file.
pub open spec fn sp_table_error(size: u32) -> Seq<char> {
    "file truncated: declared data_table_size="@ + dec_rep(size as int) + " but file too small"@
}

/// Every line the disassembler prints for `data`, in order: the header line
/// when a header is recognized, then one line per decoded instruction.
pub open spec fn sp_disassembly_lines(data: Seq<u8>) -> Seq<Seq<char>> {
    let d = sp_disassemble(data);
    let body = Seq::new(d.instrs.len(), |k: int| sp_render_line(d.instrs[k]));
    match d.header {
        Some((count, size)) => seq![sp_header_line(count, size)] + body,
        None => body,
    }
}

/// The error the disassembler reports for `data`, if any: only a recognized
/// header whose declared data table runs past the end of the file.
pub open spec fn sp_disassembly_error(data: Seq<u8>) -> Option<Seq<char>> {
    let d = sp_disassemble(data);
    match d.header {
        Some((count, size)) => if d.table_truncated {
            Some(sp_table_error(size))
        } else {
            None
        },
        None => None,
    }
}

fn reg1_name_str(op: u8) -> (r: &'static str)
    ensures
        r@ == reg1_name(op),
{
    if op == OPCODE_PUSH_REG {
        "PUSH_REG"
    } else if op == OPCODE_POP {
        "POP"
    } else if op == OPCODE_PRINTREG {
        "PRINTREG"
    } else if op == OPCODE_INC {
        "INC"
    } else if op == OPCODE_DEC {
        "DEC"
    } else if op == OPCODE_PRINTSTR {
        "PRINTSTR"
    } else if op == OPCODE_READ {
        "READ"
    } else if op == OPCODE_GETKEY {
        "GETKEY"
    } else if op == OPCODE_READCHAR {
        "READCHAR"
    } else {
        ""
    }
}

fn reg2_name_str(op: u8) -> (r: &'static str)
    ensures
        r@ == reg2_name(op),
{
    if op == OPCODE_MOV_REG {
        "MOV_REG"
    } else if op == OPCODE_ADD {
        "ADD"
    } else if op == OPCODE_SUB {
        "SUB"
    } else if op == OPCODE_MUL {
        "MUL"
    } else if op == OPCODE_DIV {
        "DIV"
    } else if op == OPCODE_XOR {
        "XOR"
    } else if op == OPCODE_AND {
        "AND"
    } else if op == OPCODE_OR {
        "OR"
    } else if op == OPCODE_CMP {
        "CMP"
    } else if op == OPCODE_LOAD_REG {
        "LOAD_REG"
    } else if op == OPCODE_STORE_REG {
        "STORE_REG"
    } else if op == OPCODE_MOD {
        "MOD"
    } else {
        ""
    }
}

fn fdreg_name_str(op: u8) -> (r: &'static str)
    ensures
        r@ == fdreg_name(op),
{
    if op == OPCODE_FREAD {
        "FREAD"
    } else if op == OPCODE_FWRITE_REG {
        "FWRITE_REG"
    } else {
        ""
    }
}

fn jump_name_str(op: u8) -> (r: &'static str)
    ensures
        r@ == jump_name(op),
{
    if op == OPCODE_JMP {
        "JMP"
    } else if op == OPCODE_JE {
        "JE"
    } else if op == OPCODE_JNE {
        "JNE"
    } else if op == OPCODE_JL {
        "JL"
    } else if op == OPCODE_JGE {
        "JGE"
    } else if op == OPCODE_JB {
        "JB"
    } else if op == OPCODE_JAE {
        "JAE"
    } else {
        ""
    }
}

fn count_name_str(op: u8) -> (r: &'static str)
    ensures
        r@ == count_name(op),
{
    if op == OPCODE_ALLOC {
        "ALLOC"
    } else if op == OPCODE_GROW {
        "GROW"
    } else if op == OPCODE_RESIZE {
        "RESIZE"
    } else if op == OPCODE_FREE {
        "FREE"
    } else if op == OPCODE_SLEEP {
        "SLEEP"
    } else {
        ""
    }
}

fn regidx_name_str(op: u8) -> (r: &'static str)
    ensures
        r@ == regidx_name(op),
{
    if op == OPCODE_LOAD {
        "LOAD"
    } else if op == OPCODE_STORE {
        "STORE"
    } else if op == OPCODE_LOADBYTE {
        "LOADBYTE"
    } else if op == OPCODE_LOADWORD {
        "LOADWORD"
    } else if op == OPCODE_LOADDWORD {
        "LOADDWORD"
    } else if op == OPCODE_LOADQWORD {
        "LOADQWORD"
    } else {
        ""
    }
}

fn simple_name_str(op: u8) -> (r: &'static str)
    ensures
        r@ == simple_name(op),
{
    if op == OPCODE_NEWLINE {
        "NEWLINE"
    } else if op == OPCODE_CLRSCR {
        "CLRSCR"
    } else if op == OPCODE_RAND {
        "RAND"
    } else if op == OPCODE_CONTINUE {
        "CONTINUE"
    } else if op == OPCODE_RET {
        "RET"
    } else if op == OPCODE_HALT {
        "HALT"
    } else {
        ""
    }
}

fn trunc_name_str(op: u8) -> (r: &'static str)
    ensures
        r@ == sp_trunc_name(op),
{
    if op == OPCODE_PRINT {
        "PRINT"
    } else if op == OPCODE_FCLOSE {
        "FCLOSE"
    } else if op == OPCODE_LOADSTR {
        "LOADSTR"
    } else if op == OPCODE_PUSH_IMM {
        "PUSH_IMM"
    } else if op == OPCODE_MOV_IMM {
        "MOV_IMM"
    } else if op == OPCODE_FWRITE_IMM {
        "FWRITE_IMM"
    } else if op == OPCODE_CALL {
        "CALL"
    } else if op == OPCODE_WRITE {
        "WRITE"
    } else if op == OPCODE_FOPEN {
        "FOPEN"
    } else if op == OPCODE_LOAD || op == OPCODE_STORE {
        regidx_name_str(op)
    } else if op == OPCODE_FREAD || op == OPCODE_FWRITE_REG {
        fdreg_name_str(op)
    } else {
        let j = jump_name_str(op);
        if !j.is_empty() {
            j
        } else {
            let r1 = reg1_name_str(op);
            if !r1.is_empty() {
                r1
            } else {
                reg2_name_str(op)
            }
        }
    }
}

/// Appends a register operand: `r` and the number in decimal.
fn push_reg(out: &mut String, r: u8)
    ensures
        final(out)@ == old(out)@ + sp_reg(r),
{
    out.append("r");
    push_dec_u64(out, r as u64);
    proof {
        assert(final(out)@ =~= old(out)@ + sp_reg(r));
    }
}

/// Appends an fd operand: `fd=` and the number in decimal.
fn push_fd(out: &mut String, fd: u8)
    ensures
        final(out)@ == old(out)@ + sp_fd(fd),
{
    out.append("fd=");
    push_dec_u64(out, fd as u64);
    proof {
        assert(final(out)@ =~= old(out)@ + sp_fd(fd));
    }
}

/// Appends an address: `0x` and eight zero-padded hex digits.
fn push_addr(out: &mut String, a: u32)
    ensures
        final(out)@ == old(out)@ + sp_addr(a),
{
    out.append("0x");
    push_hex_u64(out, a as u64, 8);
    proof {
        assert(final(out)@ =~= old(out)@ + sp_addr(a));
    }
}

/// The printed line for one decoded instruction record.
pub fn render_instr(e: &DecodedInstr) -> (r: String)
    ensures
        r@ == sp_render_line(e@),
{
    let mut out = String::new();
    out.append("0x");
    push_hex_u64(&mut out, e.offset as u64, 4);
    out.append(": ");
    match &e.body {
        crate::decode::Decoded::Write { fd, text } => {
            out.append("WRITE ");
            push_fd(&mut out, *fd);
            out.append(" \"");
            let s = bytes_to_lossy_string(text.as_slice());
            out.append(s.as_str());
            out.append("\"");
        },
        crate::decode::Decoded::WriteTrunc { fd } => {
            out.append("WRITE ");
            push_fd(&mut out, *fd);
            out.append(" \"<truncated>\"");
        },
        crate::decode::Decoded::Fopen { fd, name } => {
            out.append("FOPEN ");
            push_fd(&mut out, *fd);
            out.append(" \"");
            let s = bytes_to_lossy_string(name.as_slice());
            out.append(s.as_str());
            out.append("\"");
        },
        crate::decode::Decoded::FopenTrunc { fd } => {
            out.append("FOPEN ");
            push_fd(&mut out, *fd);
            out.append(" \"<truncated>\"");
        },
        crate::decode::Decoded::Print { byte } => {
            out.append("PRINT '");
            push_char(&mut out, *byte as char);
            out.append("' (0x");
            push_hex_u64(&mut out, *byte as u64, 2);
            out.append(")");
        },
        crate::decode::Decoded::PushImm { value } => {
            out.append("PUSH_IMM ");
            push_dec_i64(&mut out, *value as i64);
        },
        crate::decode::Decoded::MovImm { dst, value } => {
            out.append("MOV_IMM ");
            push_reg(&mut out, *dst);
            out.append(" ");
            push_dec_i64(&mut out, *value as i64);
        },
        crate::decode::Decoded::FwriteImm { fd, value } => {
            out.append("FWRITE_IMM ");
            push_fd(&mut out, *fd);
            out.append(", ");
            push_dec_i64(&mut out, *value as i64);
        },
        crate::decode::Decoded::Reg1 { op, reg } => {
            out.append(reg1_name_str(*op));
            out.append(" ");
            push_reg(&mut out, *reg);
        },
        crate::decode::Decoded::Fd1 { fd } => {
            out.append("FCLOSE ");
            push_fd(&mut out, *fd);
        },
        crate::decode::Decoded::Reg2 { op, a, b } => {
            out.append(reg2_name_str(*op));
            out.append(" ");
            push_reg(&mut out, *a);
            out.append(", ");
            push_reg(&mut out, *b);
        },
        crate::decode::Decoded::FdReg { op, fd, reg } => {
            out.append(fdreg_name_str(*op));
            out.append(" ");
            push_fd(&mut out, *fd);
            out.append(", ");
            push_reg(&mut out, *reg);
        },
        crate::decode::Decoded::Jump { op, addr } => {
            out.append(jump_name_str(*op));
            out.append(" ");
            push_addr(&mut out, *addr);
        },
        crate::decode::Decoded::Count { op, n } => {
            out.append(count_name_str(*op));
            out.append(" ");
            push_dec_u64(&mut out, *n as u64);
        },
        crate::decode::Decoded::RegIdx { op, reg, idx } => {
            out.append(regidx_name_str(*op));
            out.append(" ");
            push_reg(&mut out, *reg);
            out.append(", ");
            push_dec_u64(&mut out, *idx as u64);
        },
        crate::decode::Decoded::LoadStr { idx } => {
            out.append("LOADSTR r0, idx=");
            push_dec_u64(&mut out, *idx as u64);
            out.append(" (data)");
        },
        crate::decode::Decoded::Call { addr, frame } => {
            out.append("CALL ");
            push_addr(&mut out, *addr);
            out.append(" frame=");
            push_dec_u64(&mut out, *frame as u64);
        },
        crate::decode::Decoded::Simple { op } => {
            out.append(simple_name_str(*op));
        },
        crate::decode::Decoded::Unknown { op } => {
            out.append("UNKNOWN 0x");
            push_hex_u64(&mut out, *op as u64, 2);
        },
        crate::decode::Decoded::Truncated { op } => {
            if count_op_exec(*op) {
                out.append("<truncated>");
            } else if *op == OPCODE_JE || *op == OPCODE_JNE {
                out.append("JE/JNE <truncated>");
            } else if *op == OPCODE_LOADBYTE || *op == OPCODE_LOADWORD || *op == OPCODE_LOADDWORD
                || *op == OPCODE_LOADQWORD {
                out.append("LOAD* <truncated>");
            } else {
                out.append(trunc_name_str(*op));
                out.append(" <truncated>");
            }
        },
    }
    proof {
        assert(out@ =~= sp_render_line(e@));
    }
    out
}

/// Whether `op` carries a 4-byte count operand.
fn count_op_exec(op: u8) -> (r: bool)
    ensures
        r == is_count_op(op),
{
    op == OPCODE_ALLOC || op == OPCODE_GROW || op == OPCODE_RESIZE || op == OPCODE_FREE || op
        == OPCODE_SLEEP
}

/// The disassembler's whole output for a byte buffer: the lines it prints in
/// order, and the error it reports when a recognized header declares a data
/// table that runs past the end of the file (in which case no instruction
/// line is produced).
pub struct DisassemblyText {
    pub lines: Vec<String>,
    pub error: Option<String>,
}

/// Disassembles a container buffer to text: exactly the lines of
/// [`sp_disassembly_lines`] and the error of [`sp_disassembly_error`].
#[verifier::loop_isolation(false)]
pub fn disassemble(data: &[u8]) -> (r: DisassemblyText)
    ensures
        r.lines@.len() == sp_disassembly_lines(data@).len(),
        forall|k: int|
            0 <= k < r.lines@.len() ==> #[trigger] r.lines@[k]@ == sp_disassembly_lines(data@)[k],
        match sp_disassembly_error(data@) {
            Some(m) => (r.error matches Some(e) && e@ == m),
            None => r.error is None,
        },
{
    let d = decode_container(data);
    let ghost lines_spec = sp_disassembly_lines(data@);
    let mut lines: Vec<String> = Vec::new();
    let mut error: Option<String> = None;
    match &d.header {
        Some(pair) => {
            let mut h = String::new();
            h.append("Header: MAGIC=bcx data_count=");
            push_dec_u64(&mut h, pair.0 as u64);
            h.append(" data_table_size=");
            push_dec_u64(&mut h, pair.1 as u64);
            proof {
                assert(h@ =~= sp_header_line(pair.0, pair.1));
            }
            lines.push(h);
            if d.table_truncated {
                let mut m = String::new();
                m.append("file truncated: declared data_table_size=");
                push_dec_u64(&mut m, pair.1 as u64);
                m.append(" but file too small");
                proof {
                    assert(m@ =~= sp_table_error(pair.1));
                }
                error = Some(m);
            }
        },
        None => {},
    }
    let n = d.instrs.len();
    let mut k: usize = 0;
    let ghost off = lines@.len() as int;
    while k < n
        invariant
            k <= n,
            n == d.instrs@.len(),
            lines@.len() == off + k,
            lines_spec.len() == off + n,
            forall|j: int| 0 <= j < lines@.len() ==> #[trigger] lines@[j]@ == lines_spec[j],
            forall|j: int|
                0 <= j < n ==> #[trigger] lines_spec[off + j] == sp_render_line(
                    sp_disassemble(data@).instrs[j],
                ),
            forall|j: int| 0 <= j < n ==> #[trigger] d.instrs@[j]@ == sp_disassemble(data@).instrs[j],
        decreases n - k,
    {
        let line = render_instr(&d.instrs[k]);
        lines.push(line);
        k = k + 1;
    }
    DisassemblyText { lines, error }
}

} // verus!
