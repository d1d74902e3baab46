//! Laws relating the two codecs: any instruction the encoder accepts
//! decodes, from the start of its own bytes, back to the records the opcode
//! table predicts — the same mnemonic group and the same operand values.
use crate::ast::InstructionV;
use crate::ast::OperandV;
use crate::chars::ascii_upper;
use crate::codegen::imm32_bytes;
use crate::codegen::sp_emit_instr;
use crate::decode::sp_decode_one;
use crate::decode::sp_decode_stream;
use crate::decode::sp_u32_at;
use crate::decode::DecodedInstrV;
use crate::decode::DecodedV;
use crate::opcode::OPCODE_ADD;
use crate::opcode::OPCODE_HALT;
use crate::opcode::OPCODE_MOV_REG;
use crate::opcode::OPCODE_NEWLINE;
use crate::opcode::OPCODE_POP;
use crate::opcode::OPCODE_PRINT;
use crate::opcode::OPCODE_PRINTREG;
use crate::opcode::OPCODE_PUSH_REG;
use vstd::bytes::lemma_auto_spec_u32_to_from_le_bytes;
use vstd::prelude::*;
use vstd::utf8::encode_utf8;

verus! {

/// Shorthand for one decoded record at a byte offset.
pub open spec fn rec(offset: int, body: DecodedV) -> DecodedInstrV {
    DecodedInstrV { offset, body }
}

/// The decoded records the opcode table predicts for one encoder-accepted
/// instruction: what the decoder must reproduce from the encoder's bytes.
pub open spec fn sp_instr_records(iv: InstructionV) -> Seq<DecodedInstrV> {
    let name = ascii_upper(iv.name);
    if name == "WRITE"@ {
        let fd = match iv.args[0] {
            OperandV::Imm(n) => n as u8,
            OperandV::Reg(r) => r,
            _ => 0u8,
        };
        let text = match iv.args[1] {
            OperandV::Str(s) => encode_utf8(s),
            _ => Seq::empty(),
        };
        seq![rec(0, DecodedV::Write { fd, text })]
    } else if name == "PRINTLN"@ {
        if iv.args.len() == 0 {
            seq![rec(0, DecodedV::Simple { op: OPCODE_NEWLINE })]
        } else {
            match iv.args[0] {
                OperandV::Str(s) => seq![
                    rec(0, DecodedV::Write { fd: 1u8, text: encode_utf8(s) }),
                    rec(3 + encode_utf8(s).len() as int, DecodedV::Simple { op: OPCODE_NEWLINE }),
                ],
                OperandV::Char(c) => seq![
                    rec(0, DecodedV::Print { byte: c }),
                    rec(2, DecodedV::Simple { op: OPCODE_NEWLINE }),
                ],
                _ => Seq::empty(),
            }
        }
    } else if name == "NEWLINE"@ {
        seq![rec(0, DecodedV::Simple { op: OPCODE_NEWLINE })]
    } else if name == "HALT"@ {
        seq![rec(0, DecodedV::Simple { op: OPCODE_HALT })]
    } else if name == "PRINT"@ {
        let byte = match iv.args[0] {
            OperandV::Char(c) => c,
            OperandV::Imm(n) => n as u8,
            _ => 0u8,
        };
        seq![rec(0, DecodedV::Print { byte })]
    } else if name == "MOV"@ {
        let dst = match iv.args[0] {
            OperandV::Reg(r) => r,
            _ => 0u8,
        };
        match iv.args[1] {
            OperandV::Imm(n) => seq![rec(0, DecodedV::MovImm { dst, value: n as i32 })],
            OperandV::Reg(src) => seq![rec(0, DecodedV::Reg2 { op: OPCODE_MOV_REG, a: dst, b: src })],
            _ => Seq::empty(),
        }
    } else if name == "ADD"@ {
        let dst = match iv.args[0] {
            OperandV::Reg(r) => r,
            _ => 0u8,
        };
        let src = match iv.args[1] {
            OperandV::Reg(r) => r,
            _ => 0u8,
        };
        seq![rec(0, DecodedV::Reg2 { op: OPCODE_ADD, a: dst, b: src })]
    } else if name == "PUSH"@ {
        match iv.args[0] {
            OperandV::Imm(n) => seq![rec(0, DecodedV::PushImm { value: n as i32 })],
            OperandV::Reg(r) => seq![rec(0, DecodedV::Reg1 { op: OPCODE_PUSH_REG, reg: r })],
            _ => Seq::empty(),
        }
    } else if name == "POP"@ {
        let r = match iv.args[0] {
            OperandV::Reg(r) => r,
            _ => 0u8,
        };
        seq![rec(0, DecodedV::Reg1 { op: OPCODE_POP, reg: r })]
    } else if name == "PRINTREG"@ {
        let r = match iv.args[0] {
            OperandV::Reg(r) => r,
            _ => 0u8,
        };
        seq![rec(0, DecodedV::Reg1 { op: OPCODE_PRINTREG, reg: r })]
    } else {
        Seq::empty()
    }
}

/// Reinterpreting an i32 through u32 and back is the identity.
proof fn lemma_i32_u32_roundtrip(x: i32)
    ensures
        ((x as u32) as i32) == x,
{
    assert((x as u32) as i32 == x) by (bit_vector);
}

/// The four little-endian bytes of a truncated immediate, placed at position
/// `at` of the byte sequence `b`, read back as the immediate.
proof fn lemma_imm32_at(b: Seq<u8>, at: int, n: i64)
    requires
        0 <= at,
        at + 4 <= b.len(),
        b.subrange(at, at + 4) == imm32_bytes(n),
    ensures
        sp_u32_at(b, at) as i32 == n as i32,
{
    lemma_auto_spec_u32_to_from_le_bytes();
    let u = (n as i32) as u32;
    assert(imm32_bytes(n) == vstd::bytes::spec_u32_to_le_bytes(u));
    assert(vstd::bytes::spec_u32_from_le_bytes(vstd::bytes::spec_u32_to_le_bytes(u)) == u);
    assert(sp_u32_at(b, at) == u);
    lemma_i32_u32_roundtrip(n as i32);
}

/// Round trip of the two codecs (header aside): the bytes of any instruction
/// the encoder accepts decode, from their start, to exactly the records the
/// opcode table predicts — the same mnemonics, in order, with the same
/// operand values, consuming the bytes completely.
pub proof fn lemma_encode_decode_round_trip(iv: InstructionV)
    requires
        sp_emit_instr(iv) is Ok,
    ensures
        sp_decode_stream(sp_emit_instr(iv)->Ok_0, 0) =~~= sp_instr_records(iv),
{
    lemma_auto_spec_u32_to_from_le_bytes();
    let b = sp_emit_instr(iv)->Ok_0;
    let name = ascii_upper(iv.name);
    if name == "WRITE"@ || (name == "PRINTLN"@ && iv.args.len() == 1 && iv.args[0] is Str) {
        let fd: u8 = if name == "WRITE"@ {
            match iv.args[0] {
                OperandV::Imm(n) => n as u8,
                OperandV::Reg(r) => r,
                _ => 0u8,
            }
        } else {
            1u8
        };
        let s = if name == "WRITE"@ {
            iv.args[1]->Str_0
        } else {
            iv.args[0]->Str_0
        };
        let text = encode_utf8(s);
        let wlen = 3 + text.len() as int;
        assert(b.subrange(3, wlen) =~= text);
        assert(sp_decode_one(b, 0).0 == DecodedV::Write { fd, text });
        assert(sp_decode_one(b, 0).1 == wlen);
        if name == "WRITE"@ {
            assert(sp_decode_stream(b, wlen) =~= Seq::<DecodedInstrV>::empty());
        } else {
            assert(b[wlen] == OPCODE_NEWLINE);
            assert(sp_decode_one(b, wlen).0 == DecodedV::Simple { op: OPCODE_NEWLINE });
            assert(sp_decode_stream(b, wlen + 1) =~= Seq::<DecodedInstrV>::empty());
            assert(sp_decode_stream(b, wlen) =~~= seq![
                rec(wlen, DecodedV::Simple { op: OPCODE_NEWLINE }),
            ]);
        }
        assert(sp_decode_stream(b, 0) =~~= sp_instr_records(iv));
    } else if name == "PRINTLN"@ && iv.args.len() == 1 && iv.args[0] is Char {
        assert(sp_decode_one(b, 0).0 == DecodedV::Print { byte: iv.args[0]->Char_0 });
        assert(sp_decode_one(b, 2).0 == DecodedV::Simple { op: OPCODE_NEWLINE });
        assert(sp_decode_stream(b, 3) =~= Seq::<DecodedInstrV>::empty());
        assert(sp_decode_stream(b, 2) =~~= seq![rec(2, DecodedV::Simple { op: OPCODE_NEWLINE })]);
        assert(sp_decode_stream(b, 0) =~~= sp_instr_records(iv));
    } else if name == "PRINTLN"@ || name == "NEWLINE"@ || name == "HALT"@ {
        assert(sp_decode_stream(b, 1) =~= Seq::<DecodedInstrV>::empty());
        assert(sp_decode_stream(b, 0) =~~= sp_instr_records(iv));
    } else if name == "PRINT"@ {
        assert(sp_decode_stream(b, 2) =~= Seq::<DecodedInstrV>::empty());
        assert(sp_decode_stream(b, 0) =~~= sp_instr_records(iv));
    } else if name == "MOV"@ {
        match iv.args[1] {
            OperandV::Imm(n) => {
                assert(b.subrange(2, 6) =~= imm32_bytes(n));
                lemma_imm32_at(b, 2, n);
                assert(sp_decode_stream(b, 6) =~= Seq::<DecodedInstrV>::empty());
                assert(sp_decode_stream(b, 0) =~~= sp_instr_records(iv));
            },
            OperandV::Reg(src) => {
                assert(sp_decode_stream(b, 3) =~= Seq::<DecodedInstrV>::empty());
                assert(sp_decode_stream(b, 0) =~~= sp_instr_records(iv));
            },
            _ => {},
        }
    } else if name == "ADD"@ {
        assert(sp_decode_stream(b, 3) =~= Seq::<DecodedInstrV>::empty());
        assert(sp_decode_stream(b, 0) =~~= sp_instr_records(iv));
    } else if name == "PUSH"@ {
        match iv.args[0] {
            OperandV::Imm(n) => {
                assert(b.subrange(1, 5) =~= imm32_bytes(n));
                lemma_imm32_at(b, 1, n);
                assert(sp_decode_stream(b, 5) =~= Seq::<DecodedInstrV>::empty());
                assert(sp_decode_stream(b, 0) =~~= sp_instr_records(iv));
            },
            OperandV::Reg(r) => {
                assert(sp_decode_stream(b, 2) =~= Seq::<DecodedInstrV>::empty());
                assert(sp_decode_stream(b, 0) =~~= sp_instr_records(iv));
            },
            _ => {},
        }
    } else if name == "POP"@ || name == "PRINTREG"@ {
        assert(sp_decode_stream(b, 2) =~= Seq::<DecodedInstrV>::empty());
        assert(sp_decode_stream(b, 0) =~~= sp_instr_records(iv));
    }
}

} // verus!
