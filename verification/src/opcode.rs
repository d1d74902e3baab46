//! The ISA table: the single authoritative opcode numbering shared by the
//! encoder and the decoder. The encoder emits only a subset of these; the
//! decoder understands them all.
use vstd::prelude::*;

verus! {

pub const OPCODE_WRITE: u8 = 0x01;

pub const OPCODE_NEWLINE: u8 = 0x02;

pub const OPCODE_PRINT: u8 = 0x03;

pub const OPCODE_PUSH_IMM: u8 = 0x04;

pub const OPCODE_POP: u8 = 0x05;

pub const OPCODE_ADD: u8 = 0x06;

pub const OPCODE_SUB: u8 = 0x07;

pub const OPCODE_MUL: u8 = 0x08;

pub const OPCODE_DIV: u8 = 0x09;

pub const OPCODE_PRINTREG: u8 = 0x0A;

pub const OPCODE_MOV_IMM: u8 = 0x0B;

pub const OPCODE_MOV_REG: u8 = 0x0C;

pub const OPCODE_JMP: u8 = 0x0D;

pub const OPCODE_JE: u8 = 0x0E;

pub const OPCODE_JNE: u8 = 0x0F;

pub const OPCODE_INC: u8 = 0x10;

pub const OPCODE_DEC: u8 = 0x11;

pub const OPCODE_PUSH_REG: u8 = 0x12;

pub const OPCODE_CMP: u8 = 0x13;

pub const OPCODE_ALLOC: u8 = 0x14;

pub const OPCODE_LOAD: u8 = 0x15;

pub const OPCODE_STORE: u8 = 0x16;

pub const OPCODE_GROW: u8 = 0x17;

pub const OPCODE_RESIZE: u8 = 0x19;

pub const OPCODE_FREE: u8 = 0x20;

pub const OPCODE_FOPEN: u8 = 0x21;

pub const OPCODE_FCLOSE: u8 = 0x22;

pub const OPCODE_FREAD: u8 = 0x23;

pub const OPCODE_FWRITE_REG: u8 = 0x24;

pub const OPCODE_FWRITE_IMM: u8 = 0x27;

pub const OPCODE_LOADSTR: u8 = 0x28;

pub const OPCODE_PRINTSTR: u8 = 0x29;

pub const OPCODE_XOR: u8 = 0x2A;

pub const OPCODE_AND: u8 = 0x2B;

pub const OPCODE_OR: u8 = 0x2C;

pub const OPCODE_SLEEP: u8 = 0x2F;

pub const OPCODE_CLRSCR: u8 = 0x30;

pub const OPCODE_RAND: u8 = 0x31;

pub const OPCODE_GETKEY: u8 = 0x32;

pub const OPCODE_READ: u8 = 0x33;

pub const OPCODE_CONTINUE: u8 = 0x34;

pub const OPCODE_READCHAR: u8 = 0x35;

pub const OPCODE_JL: u8 = 0x36;

pub const OPCODE_JGE: u8 = 0x37;

pub const OPCODE_JB: u8 = 0x38;

pub const OPCODE_JAE: u8 = 0x39;

pub const OPCODE_CALL: u8 = 0x3A;

pub const OPCODE_RET: u8 = 0x3B;

pub const OPCODE_LOADBYTE: u8 = 0x3C;

pub const OPCODE_LOADWORD: u8 = 0x3D;

pub const OPCODE_LOADDWORD: u8 = 0x3E;

pub const OPCODE_LOADQWORD: u8 = 0x3F;

pub const OPCODE_MOD: u8 = 0x40;

pub const OPCODE_LOAD_REG: u8 = 0x41;

pub const OPCODE_STORE_REG: u8 = 0x42;

pub const OPCODE_HALT: u8 = 0xFF;

/// The three magic bytes that open a well-formed container header.
pub const MAGIC_0: u8 = 0x62;

pub const MAGIC_1: u8 = 0x63;

pub const MAGIC_2: u8 = 0x78;

} // verus!
