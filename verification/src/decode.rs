//! The decoder half of the disassembler: classifies an arbitrary byte buffer
//! into container header and instruction stream, and decodes the stream into
//! one structured record per instruction, exactly as [`sp_disassemble`]
//! describes.
//!
//! Decoding is linear: one opcode byte is read, the operand bytes the table
//! assigns to it are consumed, and decoding continues at the very next byte.
//! An opcode outside the table is recorded as `Unknown` with zero assumed
//! operand bytes (an accepted limitation of linear disassembly, not repaired
//! here). If the operand bytes an instruction requires run past the end of
//! the buffer, a truncation record is produced and decoding stops for good;
//! nothing ever reads past the end of the buffer.
//!
//! One layout choice is ambiguous in the wild: some tools give JE/JNE a
//! leading register byte before the address. This decoder treats JE/JNE as
//! carrying a 4-byte address only; that is the chosen contract, and streams
//! from tools of the other persuasion will disassemble differently.
use crate::opcode::OPCODE_ADD;
use crate::opcode::OPCODE_ALLOC;
use crate::opcode::OPCODE_AND;
use crate::opcode::OPCODE_CALL;
use crate::opcode::OPCODE_CLRSCR;
use crate::opcode::OPCODE_CMP;
use crate::opcode::OPCODE_CONTINUE;
use crate::opcode::OPCODE_DEC;
use crate::opcode::OPCODE_DIV;
use crate::opcode::OPCODE_FCLOSE;
use crate::opcode::OPCODE_FOPEN;
use crate::opcode::OPCODE_FREAD;
use crate::opcode::OPCODE_FREE;
use crate::opcode::OPCODE_FWRITE_IMM;
use crate::opcode::OPCODE_FWRITE_REG;
use crate::opcode::OPCODE_GETKEY;
use crate::opcode::OPCODE_GROW;
use crate::opcode::OPCODE_HALT;
use crate::opcode::OPCODE_INC;
use crate::opcode::OPCODE_JAE;
use crate::opcode::OPCODE_JB;
use crate::opcode::OPCODE_JE;
use crate::opcode::OPCODE_JGE;
use crate::opcode::OPCODE_JL;
use crate::opcode::OPCODE_JMP;
use crate::opcode::OPCODE_JNE;
use crate::opcode::OPCODE_LOAD;
use crate::opcode::OPCODE_LOADBYTE;
use crate::opcode::OPCODE_LOADDWORD;
use crate::opcode::OPCODE_LOADQWORD;
use crate::opcode::OPCODE_LOADSTR;
use crate::opcode::OPCODE_LOADWORD;
use crate::opcode::OPCODE_LOAD_REG;
use crate::opcode::OPCODE_MOD;
use crate::opcode::OPCODE_MOV_IMM;
use crate::opcode::OPCODE_MOV_REG;
use crate::opcode::OPCODE_MUL;
use crate::opcode::OPCODE_NEWLINE;
use crate::opcode::OPCODE_OR;
use crate::opcode::OPCODE_POP;
use crate::opcode::OPCODE_PRINT;
use crate::opcode::OPCODE_PRINTREG;
use crate::opcode::OPCODE_PRINTSTR;
use crate::opcode::OPCODE_PUSH_IMM;
use crate::opcode::OPCODE_PUSH_REG;
use crate::opcode::OPCODE_READ;
use crate::opcode::OPCODE_READCHAR;
use crate::opcode::OPCODE_RAND;
use crate::opcode::OPCODE_RESIZE;
use crate::opcode::OPCODE_RET;
use crate::opcode::OPCODE_SLEEP;
use crate::opcode::OPCODE_STORE;
use crate::opcode::OPCODE_SUB;
use crate::opcode::OPCODE_STORE_REG;
use crate::opcode::OPCODE_WRITE;
use crate::opcode::OPCODE_XOR;
use crate::opcode::MAGIC_0;
use crate::opcode::MAGIC_1;
use crate::opcode::MAGIC_2;
use vstd::bytes::spec_u32_from_le_bytes;
use vstd::bytes::u32_from_le_bytes;
use vstd::prelude::*;
use vstd::slice::slice_subrange;
use vstd::slice::slice_to_vec;

verus! {

/// One decoded instruction record. Grouped by operand layout; the `op` field
/// keeps the concrete opcode where several opcodes share a layout.
#[derive(Debug, PartialEq)]
pub enum Decoded {
    /// WRITE with its text bytes fully present.
    Write { fd: u8, text: Vec<u8> },
    /// WRITE whose fd and length were read but whose text runs past the end.
    WriteTrunc { fd: u8 },
    /// FOPEN with its name bytes fully present.
    Fopen { fd: u8, name: Vec<u8> },
    /// FOPEN whose fd and length were read but whose name runs past the end.
    FopenTrunc { fd: u8 },
    Print { byte: u8 },
    PushImm { value: i32 },
    MovImm { dst: u8, value: i32 },
    FwriteImm { fd: u8, value: i32 },
    /// One register operand: PUSH_REG, POP, PRINTREG, INC, DEC, PRINTSTR,
    /// READ, GETKEY, READCHAR.
    Reg1 { op: u8, reg: u8 },
    /// One fd operand: FCLOSE.
    Fd1 { fd: u8 },
    /// Two register operands: MOV_REG, ADD, SUB, MUL, DIV, XOR, AND, OR,
    /// CMP, LOAD_REG, STORE_REG, MOD.
    Reg2 { op: u8, a: u8, b: u8 },
    /// An fd and a register: FREAD, FWRITE_REG.
    FdReg { op: u8, fd: u8, reg: u8 },
    /// A 4-byte address: JMP, JE, JNE, JL, JGE, JB, JAE.
    Jump { op: u8, addr: u32 },
    /// A 4-byte count: ALLOC, GROW, RESIZE, FREE, SLEEP.
    Count { op: u8, n: u32 },
    /// A register and a 4-byte index: LOAD, STORE, LOADBYTE, LOADWORD,
    /// LOADDWORD, LOADQWORD.
    RegIdx { op: u8, reg: u8, idx: u32 },
    /// LOADSTR: a 4-byte index; the target register is implicitly 0.
    LoadStr { idx: u32 },
    Call { addr: u32, frame: u32 },
    /// No operands: NEWLINE, CLRSCR, RAND, CONTINUE, RET, HALT.
    Simple { op: u8 },
    /// An opcode outside the table; zero operand bytes are assumed.
    Unknown { op: u8 },
    /// The operand bytes required after this opcode run past the end of the
    /// buffer; decoding stops here.
    Truncated { op: u8 },
}

pub enum DecodedV {
    Write { fd: u8, text: Seq<u8> },
    WriteTrunc { fd: u8 },
    Fopen { fd: u8, name: Seq<u8> },
    FopenTrunc { fd: u8 },
    Print { byte: u8 },
    PushImm { value: i32 },
    MovImm { dst: u8, value: i32 },
    FwriteImm { fd: u8, value: i32 },
    Reg1 { op: u8, reg: u8 },
    Fd1 { fd: u8 },
    Reg2 { op: u8, a: u8, b: u8 },
    FdReg { op: u8, fd: u8, reg: u8 },
    Jump { op: u8, addr: u32 },
    Count { op: u8, n: u32 },
    RegIdx { op: u8, reg: u8, idx: u32 },
    LoadStr { idx: u32 },
    Call { addr: u32, frame: u32 },
    Simple { op: u8 },
    Unknown { op: u8 },
    Truncated { op: u8 },
}

impl View for Decoded {
    type V = DecodedV;

    open spec fn view(&self) -> DecodedV {
        match self {
            Decoded::Write { fd, text } => DecodedV::Write { fd: *fd, text: text@ },
            Decoded::WriteTrunc { fd } => DecodedV::WriteTrunc { fd: *fd },
            Decoded::Fopen { fd, name } => DecodedV::Fopen { fd: *fd, name: name@ },
            Decoded::FopenTrunc { fd } => DecodedV::FopenTrunc { fd: *fd },
            Decoded::Print { byte } => DecodedV::Print { byte: *byte },
            Decoded::PushImm { value } => DecodedV::PushImm { value: *value },
            Decoded::MovImm { dst, value } => DecodedV::MovImm { dst: *dst, value: *value },
            Decoded::FwriteImm { fd, value } => DecodedV::FwriteImm { fd: *fd, value: *value },
            Decoded::Reg1 { op, reg } => DecodedV::Reg1 { op: *op, reg: *reg },
            Decoded::Fd1 { fd } => DecodedV::Fd1 { fd: *fd },
            Decoded::Reg2 { op, a, b } => DecodedV::Reg2 { op: *op, a: *a, b: *b },
            Decoded::FdReg { op, fd, reg } => DecodedV::FdReg { op: *op, fd: *fd, reg: *reg },
            Decoded::Jump { op, addr } => DecodedV::Jump { op: *op, addr: *addr },
            Decoded::Count { op, n } => DecodedV::Count { op: *op, n: *n },
            Decoded::RegIdx { op, reg, idx } => DecodedV::RegIdx {
                op: *op,
                reg: *reg,
                idx: *idx,
            },
            Decoded::LoadStr { idx } => DecodedV::LoadStr { idx: *idx },
            Decoded::Call { addr, frame } => DecodedV::Call { addr: *addr, frame: *frame },
            Decoded::Simple { op } => DecodedV::Simple { op: *op },
            Decoded::Unknown { op } => DecodedV::Unknown { op: *op },
            Decoded::Truncated { op } => DecodedV::Truncated { op: *op },
        }
    }
}

/// A decoded instruction with the byte offset it was read from.
#[derive(Debug, PartialEq)]
pub struct DecodedInstr {
    pub offset: usize,
    pub body: Decoded,
}

pub struct DecodedInstrV {
    pub offset: int,
    pub body: DecodedV,
}

impl View for DecodedInstr {
    type V = DecodedInstrV;

    open spec fn view(&self) -> DecodedInstrV {
        DecodedInstrV { offset: self.offset as int, body: self.body@ }
    }
}

/// Whether a record ends the decode loop for good.
pub open spec fn sp_stops(d: DecodedV) -> bool {
    match d {
        DecodedV::Truncated { .. } => true,
        DecodedV::WriteTrunc { .. } => true,
        DecodedV::FopenTrunc { .. } => true,
        _ => false,
    }
}

pub open spec fn is_simple_op(op: u8) -> bool {
    op == OPCODE_NEWLINE || op == OPCODE_CLRSCR || op == OPCODE_RAND || op == OPCODE_CONTINUE
        || op == OPCODE_RET || op == OPCODE_HALT
}

pub open spec fn is_reg1_op(op: u8) -> bool {
    op == OPCODE_PUSH_REG || op == OPCODE_POP || op == OPCODE_PRINTREG || op == OPCODE_INC || op
        == OPCODE_DEC || op == OPCODE_PRINTSTR || op == OPCODE_READ || op == OPCODE_GETKEY || op
        == OPCODE_READCHAR
}

pub open spec fn is_reg2_op(op: u8) -> bool {
    op == OPCODE_MOV_REG || op == OPCODE_ADD || op == OPCODE_SUB || op == OPCODE_MUL || op
        == OPCODE_DIV || op == OPCODE_XOR || op == OPCODE_AND || op == OPCODE_OR || op
        == OPCODE_CMP || op == OPCODE_LOAD_REG || op == OPCODE_STORE_REG || op == OPCODE_MOD
}

pub open spec fn is_fdreg_op(op: u8) -> bool {
    op == OPCODE_FREAD || op == OPCODE_FWRITE_REG
}

pub open spec fn is_jump_op(op: u8) -> bool {
    op == OPCODE_JMP || op == OPCODE_JE || op == OPCODE_JNE || op == OPCODE_JL || op == OPCODE_JGE
        || op == OPCODE_JB || op == OPCODE_JAE
}

pub open spec fn is_count_op(op: u8) -> bool {
    op == OPCODE_ALLOC || op == OPCODE_GROW || op == OPCODE_RESIZE || op == OPCODE_FREE || op
        == OPCODE_SLEEP
}

pub open spec fn is_regidx_op(op: u8) -> bool {
    op == OPCODE_LOAD || op == OPCODE_STORE || op == OPCODE_LOADBYTE || op == OPCODE_LOADWORD || op
        == OPCODE_LOADDWORD || op == OPCODE_LOADQWORD
}

/// The u32 at position `i` of `data`, little-endian.
pub open spec fn sp_u32_at(data: Seq<u8>, i: int) -> u32 {
    spec_u32_from_le_bytes(data.subrange(i, i + 4))
}

/// One step of the decoder: the record for the opcode at position `i` and
/// the position decoding continues from. Everything multi-byte is read
/// little-endian; a shortfall of operand bytes yields a truncation record
/// and leaves the position at the end of the buffer.
pub open spec fn sp_decode_one(data: Seq<u8>, i: int) -> (DecodedV, int) {
    let op = data[i];
    let j = i + 1;
    let len = data.len() as int;
    if is_simple_op(op) {
        (DecodedV::Simple { op }, j)
    } else if op == OPCODE_PRINT {
        if j + 1 <= len {
            (DecodedV::Print { byte: data[j] }, j + 1)
        } else {
            (DecodedV::Truncated { op }, len)
        }
    } else if is_reg1_op(op) {
        if j + 1 <= len {
            (DecodedV::Reg1 { op, reg: data[j] }, j + 1)
        } else {
            (DecodedV::Truncated { op }, len)
        }
    } else if op == OPCODE_FCLOSE {
        if j + 1 <= len {
            (DecodedV::Fd1 { fd: data[j] }, j + 1)
        } else {
            (DecodedV::Truncated { op }, len)
        }
    } else if is_reg2_op(op) {
        if j + 2 <= len {
            (DecodedV::Reg2 { op, a: data[j], b: data[j + 1] }, j + 2)
        } else {
            (DecodedV::Truncated { op }, len)
        }
    } else if is_fdreg_op(op) {
        if j + 2 <= len {
            (DecodedV::FdReg { op, fd: data[j], reg: data[j + 1] }, j + 2)
        } else {
            (DecodedV::Truncated { op }, len)
        }
    } else if is_jump_op(op) {
        if j + 4 <= len {
            (DecodedV::Jump { op, addr: sp_u32_at(data, j) }, j + 4)
        } else {
            (DecodedV::Truncated { op }, len)
        }
    } else if is_count_op(op) {
        if j + 4 <= len {
            (DecodedV::Count { op, n: sp_u32_at(data, j) }, j + 4)
        } else {
            (DecodedV::Truncated { op }, len)
        }
    } else if op == OPCODE_LOADSTR {
        if j + 4 <= len {
            (DecodedV::LoadStr { idx: sp_u32_at(data, j) }, j + 4)
        } else {
            (DecodedV::Truncated { op }, len)
        }
    } else if op == OPCODE_PUSH_IMM {
        if j + 4 <= len {
            (DecodedV::PushImm { value: sp_u32_at(data, j) as i32 }, j + 4)
        } else {
            (DecodedV::Truncated { op }, len)
        }
    } else if op == OPCODE_MOV_IMM {
        if j + 5 <= len {
            (DecodedV::MovImm { dst: data[j], value: sp_u32_at(data, j + 1) as i32 }, j + 5)
        } else {
            (DecodedV::Truncated { op }, len)
        }
    } else if op == OPCODE_FWRITE_IMM {
        if j + 5 <= len {
            (DecodedV::FwriteImm { fd: data[j], value: sp_u32_at(data, j + 1) as i32 }, j + 5)
        } else {
            (DecodedV::Truncated { op }, len)
        }
    } else if is_regidx_op(op) {
        if j + 5 <= len {
            (DecodedV::RegIdx { op, reg: data[j], idx: sp_u32_at(data, j + 1) }, j + 5)
        } else {
            (DecodedV::Truncated { op }, len)
        }
    } else if op == OPCODE_CALL {
        if j + 8 <= len {
            (DecodedV::Call { addr: sp_u32_at(data, j), frame: sp_u32_at(data, j + 4) }, j + 8)
        } else {
            (DecodedV::Truncated { op }, len)
        }
    } else if op == OPCODE_WRITE || op == OPCODE_FOPEN {
        if j + 2 <= len {
            let fd = data[j];
            let slen = data[j + 1] as int;
            if j + 2 + slen <= len {
                let text = data.subrange(j + 2, j + 2 + slen);
                if op == OPCODE_WRITE {
                    (DecodedV::Write { fd, text }, j + 2 + slen)
                } else {
                    (DecodedV::Fopen { fd, name: text }, j + 2 + slen)
                }
            } else {
                if op == OPCODE_WRITE {
                    (DecodedV::WriteTrunc { fd }, len)
                } else {
                    (DecodedV::FopenTrunc { fd }, len)
                }
            }
        } else {
            (DecodedV::Truncated { op }, len)
        }
    } else {
        (DecodedV::Unknown { op }, j)
    }
}

/// The decoded records of the instruction stream of `data` from position
/// `i` on: one record per instruction, each with its offset, ending at the
/// end of the buffer or at the first truncation record.
pub open spec fn sp_decode_stream(data: Seq<u8>, i: int) -> Seq<DecodedInstrV>
    decreases data.len() - i,
    when 0 <= i
{
    if i >= data.len() {
        Seq::empty()
    } else {
        let (d, j) = sp_decode_one(data, i);
        let head = DecodedInstrV { offset: i, body: d };
        if sp_stops(d) || j <= i || j > data.len() {
            seq![head]
        } else {
            seq![head] + sp_decode_stream(data, j)
        }
    }
}

/// The container-level reading of a byte buffer.
pub struct DisassemblyV {
    /// The data count and data-table size of a recognized header.
    pub header: Option<(u8, u32)>,
    /// A recognized header declared a data table that runs past the end of
    /// the file; decoding was abandoned without any instruction.
    pub table_truncated: bool,
    /// The decoded instruction records.
    pub instrs: Seq<DecodedInstrV>,
}

/// The container reading of `data`: a buffer of at least 8 bytes that opens
/// with the magic `bcx` has a header, and its instruction stream begins
/// after the declared data table; any other buffer is an instruction stream
/// in its entirety. A declared table that exceeds the file aborts decoding.
pub open spec fn sp_disassemble(data: Seq<u8>) -> DisassemblyV {
    if data.len() >= 8 && data[0] == MAGIC_0 && data[1] == MAGIC_1 && data[2] == MAGIC_2 {
        let count = data[3];
        let size = sp_u32_at(data, 4);
        if 8 + size as int <= data.len() {
            DisassemblyV {
                header: Some((count, size)),
                table_truncated: false,
                instrs: sp_decode_stream(data, 8 + size as int),
            }
        } else {
            DisassemblyV { header: Some((count, size)), table_truncated: true, instrs: Seq::empty() }
        }
    } else {
        DisassemblyV { header: None, table_truncated: false, instrs: sp_decode_stream(data, 0) }
    }
}

/// The container-level result of decoding a byte buffer.
#[derive(Debug, PartialEq)]
pub struct Disassembly {
    pub header: Option<(u8, u32)>,
    pub table_truncated: bool,
    pub instrs: Vec<DecodedInstr>,
}

impl View for Disassembly {
    type V = DisassemblyV;

    open spec fn view(&self) -> DisassemblyV {
        DisassemblyV {
            header: self.header,
            table_truncated: self.table_truncated,
            instrs: Seq::new(self.instrs@.len(), |i: int| self.instrs@[i]@),
        }
    }
}

/// The u32 at byte position `i` of `bytes`, little-endian, if all four bytes
/// are present.
pub fn read_u32_le(bytes: &[u8], i: usize) -> (r: Option<u32>)
    ensures
        match r {
            Some(v) => i + 4 <= bytes@.len() && v == sp_u32_at(bytes@, i as int),
            None => i + 4 > bytes@.len(),
        },
{
    if bytes.len() >= 4 && i <= bytes.len() - 4 {
        let b = slice_subrange(bytes, i, i + 4);
        Some(u32_from_le_bytes(b))
    } else {
        None
    }
}

/// The i32 at byte position `i` of `bytes`: the u32 there, reinterpreted as
/// signed.
pub fn read_i32_le(bytes: &[u8], i: usize) -> (r: Option<i32>)
    ensures
        match r {
            Some(v) => i + 4 <= bytes@.len() && v == sp_u32_at(bytes@, i as int) as i32,
            None => i + 4 > bytes@.len(),
        },
{
    match read_u32_le(bytes, i) {
        Some(v) => Some(v as i32),
        None => None,
    }
}

/// Decodes the single instruction at position `i`, returning its record and
/// the position decoding continues from.
#[verifier::loop_isolation(false)]
fn decode_one(data: &[u8], i: usize) -> (r: (DecodedInstr, usize))
    requires
        i < data@.len(),
    ensures
        r.0@.offset == i as int,
        r.0@.body == sp_decode_one(data@, i as int).0,
        r.1 as int == sp_decode_one(data@, i as int).1,
        i < r.1 <= data@.len(),
{
    let len = data.len();
    let op = data[i];
    let j = i + 1;
    let avail = len - j;
    if op == OPCODE_NEWLINE || op == OPCODE_CLRSCR || op == OPCODE_RAND || op
        == OPCODE_CONTINUE || op == OPCODE_RET || op == OPCODE_HALT {
        return (DecodedInstr { offset: i, body: Decoded::Simple { op } }, j);
    } else if op == OPCODE_PRINT {
        if avail >= 1 {
            return (DecodedInstr { offset: i, body: Decoded::Print { byte: data[j] } }, j + 1);
        } else {
            return (DecodedInstr { offset: i, body: Decoded::Truncated { op } }, len);
        }
    } else if op == OPCODE_PUSH_REG || op == OPCODE_POP || op == OPCODE_PRINTREG || op
        == OPCODE_INC || op == OPCODE_DEC || op == OPCODE_PRINTSTR || op == OPCODE_READ || op
        == OPCODE_GETKEY || op == OPCODE_READCHAR {
        if avail >= 1 {
            return (DecodedInstr { offset: i, body: Decoded::Reg1 { op, reg: data[j] } }, j + 1);
        } else {
            return (DecodedInstr { offset: i, body: Decoded::Truncated { op } }, len);
        }
    } else if op == OPCODE_FCLOSE {
        if avail >= 1 {
            return (DecodedInstr { offset: i, body: Decoded::Fd1 { fd: data[j] } }, j + 1);
        } else {
            return (DecodedInstr { offset: i, body: Decoded::Truncated { op } }, len);
        }
    } else if op == OPCODE_MOV_REG || op == OPCODE_ADD || op == OPCODE_SUB || op == OPCODE_MUL
        || op == OPCODE_DIV || op == OPCODE_XOR || op == OPCODE_AND || op == OPCODE_OR || op
        == OPCODE_CMP || op == OPCODE_LOAD_REG || op == OPCODE_STORE_REG || op == OPCODE_MOD {
        if avail >= 2 {
            return (
                DecodedInstr { offset: i, body: Decoded::Reg2 { op, a: data[j], b: data[j + 1] } },
                j + 2,
            );
        } else {
            return (DecodedInstr { offset: i, body: Decoded::Truncated { op } }, len);
        }
    } else if op == OPCODE_FREAD || op == OPCODE_FWRITE_REG {
        if avail >= 2 {
            return (
                DecodedInstr {
                    offset: i,
                    body: Decoded::FdReg { op, fd: data[j], reg: data[j + 1] },
                },
                j + 2,
            );
        } else {
            return (DecodedInstr { offset: i, body: Decoded::Truncated { op } }, len);
        }
    } else if op == OPCODE_JMP || op == OPCODE_JE || op == OPCODE_JNE || op == OPCODE_JL || op
        == OPCODE_JGE || op == OPCODE_JB || op == OPCODE_JAE {
        match read_u32_le(data, j) {
            Some(addr) => {
                return (DecodedInstr { offset: i, body: Decoded::Jump { op, addr } }, j + 4);
            },
            None => {
                return (DecodedInstr { offset: i, body: Decoded::Truncated { op } }, len);
            },
        }
    } else if op == OPCODE_ALLOC || op == OPCODE_GROW || op == OPCODE_RESIZE || op == OPCODE_FREE
        || op == OPCODE_SLEEP {
        match read_u32_le(data, j) {
            Some(n) => {
                return (DecodedInstr { offset: i, body: Decoded::Count { op, n } }, j + 4);
            },
            None => {
                return (DecodedInstr { offset: i, body: Decoded::Truncated { op } }, len);
            },
        }
    } else if op == OPCODE_LOADSTR {
        match read_u32_le(data, j) {
            Some(idx) => {
                return (DecodedInstr { offset: i, body: Decoded::LoadStr { idx } }, j + 4);
            },
            None => {
                return (DecodedInstr { offset: i, body: Decoded::Truncated { op } }, len);
            },
        }
    } else if op == OPCODE_PUSH_IMM {
        match read_i32_le(data, j) {
            Some(value) => {
                return (DecodedInstr { offset: i, body: Decoded::PushImm { value } }, j + 4);
            },
            None => {
                return (DecodedInstr { offset: i, body: Decoded::Truncated { op } }, len);
            },
        }
    } else if op == OPCODE_MOV_IMM {
        if avail >= 1 {
            match read_i32_le(data, j + 1) {
                Some(value) => {
                    return (
                        DecodedInstr { offset: i, body: Decoded::MovImm { dst: data[j], value } },
                        j + 5,
                    );
                },
                None => {
                    return (DecodedInstr { offset: i, body: Decoded::Truncated { op } }, len);
                },
            }
        } else {
            return (DecodedInstr { offset: i, body: Decoded::Truncated { op } }, len);
        }
    } else if op == OPCODE_FWRITE_IMM {
        if avail >= 1 {
            match read_i32_le(data, j + 1) {
                Some(value) => {
                    return (
                        DecodedInstr {
                            offset: i,
                            body: Decoded::FwriteImm { fd: data[j], value },
                        },
                        j + 5,
                    );
                },
                None => {
                    return (DecodedInstr { offset: i, body: Decoded::Truncated { op } }, len);
                },
            }
        } else {
            return (DecodedInstr { offset: i, body: Decoded::Truncated { op } }, len);
        }
    } else if op == OPCODE_LOAD || op == OPCODE_STORE || op == OPCODE_LOADBYTE || op
        == OPCODE_LOADWORD || op == OPCODE_LOADDWORD || op == OPCODE_LOADQWORD {
        if avail >= 1 {
            match read_u32_le(data, j + 1) {
                Some(idx) => {
                    return (
                        DecodedInstr {
                            offset: i,
                            body: Decoded::RegIdx { op, reg: data[j], idx },
                        },
                        j + 5,
                    );
                },
                None => {
                    return (DecodedInstr { offset: i, body: Decoded::Truncated { op } }, len);
                },
            }
        } else {
            return (DecodedInstr { offset: i, body: Decoded::Truncated { op } }, len);
        }
    } else if op == OPCODE_CALL {
        match read_u32_le(data, j) {
            Some(addr) => {
                match read_u32_le(data, j + 4) {
                    Some(frame) => {
                        return (
                            DecodedInstr { offset: i, body: Decoded::Call { addr, frame } },
                            j + 8,
                        );
                    },
                    None => {
                        return (DecodedInstr { offset: i, body: Decoded::Truncated { op } }, len);
                    },
                }
            },
            None => {
                return (DecodedInstr { offset: i, body: Decoded::Truncated { op } }, len);
            },
        }
    } else if op == OPCODE_WRITE || op == OPCODE_FOPEN {
        if avail >= 2 {
            let fd = data[j];
            let slen = data[j + 1] as usize;
            if avail - 2 >= slen {
                let text = slice_to_vec(slice_subrange(data, j + 2, j + 2 + slen));
                if op == OPCODE_WRITE {
                    return (
                        DecodedInstr { offset: i, body: Decoded::Write { fd, text } },
                        j + 2 + slen,
                    );
                } else {
                    return (
                        DecodedInstr { offset: i, body: Decoded::Fopen { fd, name: text } },
                        j + 2 + slen,
                    );
                }
            } else {
                if op == OPCODE_WRITE {
                    return (DecodedInstr { offset: i, body: Decoded::WriteTrunc { fd } }, len);
                } else {
                    return (DecodedInstr { offset: i, body: Decoded::FopenTrunc { fd } }, len);
                }
            }
        } else {
            return (DecodedInstr { offset: i, body: Decoded::Truncated { op } }, len);
        }
    } else {
        return (DecodedInstr { offset: i, body: Decoded::Unknown { op } }, j);
    }
}

/// Decodes the instruction stream of `data` from position `start` on,
/// producing exactly the records of [`sp_decode_stream`].
#[verifier::loop_isolation(false)]
pub fn decode_instructions(data: &[u8], start: usize) -> (r: Vec<DecodedInstr>)
    requires
        start <= data@.len(),
    ensures
        r@.len() == sp_decode_stream(data@, start as int).len(),
        forall|k: int|
            0 <= k < r@.len() ==> #[trigger] r@[k]@ == sp_decode_stream(data@, start as int)[k],
{
    let ghost whole = sp_decode_stream(data@, start as int);
    let mut out: Vec<DecodedInstr> = Vec::new();
    let mut i: usize = start;
    let len = data.len();
    while i < len
        invariant
            start <= i <= len,
            whole.len() == out@.len() + sp_decode_stream(data@, i as int).len(),
            forall|k: int| 0 <= k < out@.len() ==> #[trigger] whole[k] == out@[k]@,
            forall|k: int|
                out@.len() <= k < whole.len() ==> #[trigger] whole[k] == sp_decode_stream(
                    data@,
                    i as int,
                )[k - out@.len()],
        decreases len - i,
    {
        let (instr, next) = decode_one(data, i);
        let stop = match &instr.body {
            Decoded::Truncated { .. } => true,
            Decoded::WriteTrunc { .. } => true,
            Decoded::FopenTrunc { .. } => true,
            _ => false,
        };
        proof {
            assert(sp_decode_stream(data@, i as int)[0] == instr@);
        }
        out.push(instr);
        if stop {
            proof {
                assert(sp_decode_stream(data@, i as int).len() == 1);
            }
            return out;
        }
        i = next;
    }
    proof {
        assert(sp_decode_stream(data@, i as int) =~= Seq::<DecodedInstrV>::empty());
    }
    out
}

/// Reads the whole buffer as a container: recognizes and steps over a valid
/// header and its data table, then decodes the instruction stream. The
/// result is exactly [`sp_disassemble`] of the buffer.
pub fn decode_container(data: &[u8]) -> (r: Disassembly)
    ensures
        r@ == sp_disassemble(data@),
{
    if data.len() >= 8 && data[0] == MAGIC_0 && data[1] == MAGIC_1 && data[2] == MAGIC_2 {
        let count = data[3];
        let size = match read_u32_le(data, 4) {
            Some(v) => v,
            None => 0,  // unreachable: the buffer holds at least 8 bytes
        };
        if size as usize <= data.len() - 8 {
            let start = 8 + size as usize;
            let instrs = decode_instructions(data, start);
            let r = Disassembly { header: Some((count, size)), table_truncated: false, instrs };
            proof {
                assert(r@.instrs =~= sp_disassemble(data@).instrs);
            }
            r
        } else {
            let r = Disassembly {
                header: Some((count, size)),
                table_truncated: true,
                instrs: Vec::new(),
            };
            proof {
                assert(r@.instrs =~= sp_disassemble(data@).instrs);
            }
            r
        }
    } else {
        let instrs = decode_instructions(data, 0);
        let r = Disassembly { header: None, table_truncated: false, instrs };
        proof {
            assert(r@.instrs =~= sp_disassemble(data@).instrs);
        }
        r
    }
}

} // verus!
