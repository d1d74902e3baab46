//! The encoder: walks the function named `main` of a parsed [`Program`] and
//! emits the binary instruction stream, prefixed by the 8-byte container
//! header. The mnemonic set accepted here is a strict subset of the opcode
//! space the decoder understands; that asymmetry is deliberate and is not to
//! be completed by guessing encodings.
//!
//! Every encoding is pinned down by [`sp_emit_instr`]; [`emit_program`]
//! returns exactly the bytes [`sp_emit_program`] describes, or exactly its
//! error.
use crate::ast::Instruction;
use crate::ast::InstructionV;
use crate::ast::Operand;
use crate::ast::OperandV;
use crate::ast::Program;
use crate::ast::ProgramV;
use crate::ast::Statement;
use crate::ast::StatementV;
use crate::ast::FunctionV;
use crate::chars::ascii_upper;
use crate::chars::str_eq_str;
use crate::chars::to_ascii_upper;
use crate::opcode::OPCODE_ADD;
use crate::opcode::OPCODE_HALT;
use crate::opcode::OPCODE_MOV_IMM;
use crate::opcode::OPCODE_MOV_REG;
use crate::opcode::OPCODE_NEWLINE;
use crate::opcode::OPCODE_POP;
use crate::opcode::OPCODE_PRINT;
use crate::opcode::OPCODE_PRINTREG;
use crate::opcode::OPCODE_PUSH_IMM;
use crate::opcode::OPCODE_PUSH_REG;
use crate::opcode::OPCODE_WRITE;
use crate::opcode::MAGIC_0;
use crate::opcode::MAGIC_1;
use crate::opcode::MAGIC_2;
use vstd::bytes::spec_u32_to_le_bytes;
use vstd::bytes::u32_to_le_bytes;
use vstd::prelude::*;
use vstd::string::StrSliceExecFns;
use vstd::string::StringExecFns;
use vstd::utf8::encode_utf8;

verus! {

/// The four little-endian bytes of an immediate: the value truncated to 32
/// bits, as the wire format carries it.
pub open spec fn imm32_bytes(n: i64) -> Seq<u8> {
    spec_u32_to_le_bytes((n as i32) as u32)
}

/// The encoding of a WRITE whose fd operand was accepted: the text operand
/// must be a string literal of at most 255 UTF-8 bytes.
pub open spec fn sp_write_tail(fd: u8, text: OperandV) -> Result<Seq<u8>, Seq<char>> {
    match text {
        OperandV::Str(s) => {
            let bytes = encode_utf8(s);
            if bytes.len() > 255 {
                Err("string too long"@)
            } else {
                Ok(seq![OPCODE_WRITE, fd, bytes.len() as u8] + bytes)
            }
        },
        _ => Err("WRITE requires string"@),
    }
}

/// The exact byte encoding of one instruction, or the exact message with
/// which it is rejected. Mnemonics are matched after ASCII upper-casing.
pub open spec fn sp_emit_instr(i: InstructionV) -> Result<Seq<u8>, Seq<char>> {
    let name = ascii_upper(i.name);
    if name == "WRITE"@ {
        if i.args.len() != 2 {
            Err("WRITE requires 2 args"@)
        } else {
            match i.args[0] {
                OperandV::Imm(n) => sp_write_tail(n as u8, i.args[1]),
                OperandV::Reg(r) => sp_write_tail(r, i.args[1]),
                _ => Err("Invalid fd"@),
            }
        }
    } else if name == "PRINTLN"@ {
        if i.args.len() == 0 {
            Ok(seq![OPCODE_NEWLINE])
        } else if i.args.len() == 1 {
            match i.args[0] {
                OperandV::Str(s) => {
                    let bytes = encode_utf8(s);
                    if bytes.len() > 255 {
                        Err("string too long"@)
                    } else {
                        Ok(
                            seq![OPCODE_WRITE, 1u8, bytes.len() as u8] + bytes
                                + seq![OPCODE_NEWLINE],
                        )
                    }
                },
                OperandV::Char(c) => Ok(seq![OPCODE_PRINT, c, OPCODE_NEWLINE]),
                _ => Err("PRINTLN expects a string or char"@),
            }
        } else {
            Err("PRINTLN accepts 0 or 1 argument"@)
        }
    } else if name == "NEWLINE"@ {
        Ok(seq![OPCODE_NEWLINE])
    } else if name == "HALT"@ {
        Ok(seq![OPCODE_HALT])
    } else if name == "PRINT"@ {
        if i.args.len() != 1 {
            Err("PRINT requires 1 arg"@)
        } else {
            match i.args[0] {
                OperandV::Char(c) => Ok(seq![OPCODE_PRINT, c]),
                OperandV::Imm(n) => Ok(seq![OPCODE_PRINT, n as u8]),
                _ => Err("PRINT expects char or immediate"@),
            }
        }
    } else if name == "MOV"@ {
        if i.args.len() != 2 {
            Err("MOV requires 2 args"@)
        } else {
            match i.args[0] {
                OperandV::Reg(dst) => match i.args[1] {
                    OperandV::Imm(n) => Ok(seq![OPCODE_MOV_IMM, dst] + imm32_bytes(n)),
                    OperandV::Reg(src) => Ok(seq![OPCODE_MOV_REG, dst, src]),
                    _ => Err("MOV src must be reg or imm"@),
                },
                _ => Err("MOV dst must be reg"@),
            }
        }
    } else if name == "ADD"@ {
        if i.args.len() != 2 {
            Err("ADD requires 2 args"@)
        } else {
            match i.args[0] {
                OperandV::Reg(dst) => match i.args[1] {
                    OperandV::Reg(src) => Ok(seq![OPCODE_ADD, dst, src]),
                    _ => Err("ADD src must be reg"@),
                },
                _ => Err("ADD dst must be reg"@),
            }
        }
    } else if name == "PUSH"@ {
        if i.args.len() != 1 {
            Err("PUSH requires 1 arg"@)
        } else {
            match i.args[0] {
                OperandV::Imm(n) => Ok(seq![OPCODE_PUSH_IMM] + imm32_bytes(n)),
                OperandV::Reg(r) => Ok(seq![OPCODE_PUSH_REG, r]),
                _ => Err("PUSH expects imm or reg"@),
            }
        }
    } else if name == "POP"@ {
        if i.args.len() != 1 {
            Err("POP requires 1 arg"@)
        } else {
            match i.args[0] {
                OperandV::Reg(r) => Ok(seq![OPCODE_POP, r]),
                _ => Err("POP expects reg"@),
            }
        }
    } else if name == "PRINTREG"@ {
        if i.args.len() != 1 {
            Err("PRINTREG requires 1 arg"@)
        } else {
            match i.args[0] {
                OperandV::Reg(r) => Ok(seq![OPCODE_PRINTREG, r]),
                _ => Err("PRINTREG expects reg"@),
            }
        }
    } else {
        Err("Unsupported instruction: "@ + name)
    }
}

/// The encoding of the statements inside an `unsafe { }` block: instruction
/// statements are emitted as if at the enclosing level, everything else is
/// silently skipped.
pub open spec fn sp_emit_unsafe(stmts: Seq<StatementV>) -> Result<Seq<u8>, Seq<char>>
    decreases stmts.len(),
{
    if stmts.len() == 0 {
        Ok(Seq::empty())
    } else {
        let head = match stmts[0] {
            StatementV::Instr(i) => sp_emit_instr(i),
            _ => Ok(Seq::empty()),
        };
        match head {
            Err(e) => Err(e),
            Ok(b) => match sp_emit_unsafe(stmts.drop_first()) {
                Err(e) => Err(e),
                Ok(rest) => Ok(b + rest),
            },
        }
    }
}

/// The encoding of a function body, top to bottom: empty statements emit
/// nothing, unsafe blocks are flattened in place, and the first rejected
/// instruction aborts the whole encoding with its message.
pub open spec fn sp_emit_body(stmts: Seq<StatementV>) -> Result<Seq<u8>, Seq<char>>
    decreases stmts.len(),
{
    if stmts.len() == 0 {
        Ok(Seq::empty())
    } else {
        let head = match stmts[0] {
            StatementV::Empty => Ok(Seq::<u8>::empty()),
            StatementV::Instr(i) => sp_emit_instr(i),
            StatementV::UnsafeBlock(inner) => sp_emit_unsafe(inner),
        };
        match head {
            Err(e) => Err(e),
            Ok(b) => match sp_emit_body(stmts.drop_first()) {
                Err(e) => Err(e),
                Ok(rest) => Ok(b + rest),
            },
        }
    }
}

/// The first function named `main`, if any.
pub open spec fn sp_find_main(fns: Seq<FunctionV>) -> Option<FunctionV>
    decreases fns.len(),
{
    if fns.len() == 0 {
        None
    } else if fns[0].name == "main"@ {
        Some(fns[0])
    } else {
        sp_find_main(fns.drop_first())
    }
}

/// The 8-byte container header: the magic `bcx`, a zero data count and a
/// zero data-table size (the data table is defined by the format but never
/// populated by this encoder).
pub open spec fn sp_header() -> Seq<u8> {
    seq![MAGIC_0, MAGIC_1, MAGIC_2, 0u8, 0u8, 0u8, 0u8, 0u8]
}

/// The full output of the encoder on a program: the header followed by the
/// encoding of the body of `main`; or the first error. Functions other than
/// `main` are ignored.
pub open spec fn sp_emit_program(p: ProgramV) -> Result<Seq<u8>, Seq<char>> {
    match sp_find_main(p.functions) {
        None => Err("missing main"@),
        Some(f) => match sp_emit_body(f.body) {
            Err(e) => Err(e),
            Ok(code) => Ok(sp_header() + code),
        },
    }
}

/// Appends the four little-endian bytes of `n` truncated to 32 bits.
fn push_imm32(code: &mut Vec<u8>, n: i64)
    ensures
        final(code)@ == old(code)@ + imm32_bytes(n),
{
    let v: i32 = n as i32;
    let mut bytes = u32_to_le_bytes(v as u32);
    code.append(&mut bytes);
}

/// Encodes one instruction onto the end of `code`; on rejection, `code` is
/// left exactly as it was and the message of [`sp_emit_instr`] is returned.
fn emit_instr(instr: &Instruction, code: &mut Vec<u8>) -> (r: Result<(), String>)
    ensures
        match sp_emit_instr(instr@) {
            Ok(b) => r is Ok && final(code)@ == old(code)@ + b,
            Err(m) => (r matches Err(e) && e@ == m) && final(code)@ == old(code)@,
        },
{
    let upper = to_ascii_upper(instr.name.as_str());
    proof {
        assert(upper@ == ascii_upper(instr@.name));
    }
    if str_eq_str(upper.as_str(), "WRITE") {
        if instr.args.len() != 2 {
            return Err("WRITE requires 2 args".to_owned());
        }
        proof {
            assert(instr@.args[0] == instr.args@[0]@);
            assert(instr@.args[1] == instr.args@[1]@);
        }
        let fd: u8 = match &instr.args[0] {
            Operand::Imm(n) => *n as u8,
            Operand::Reg(r) => *r,
            _ => {
                return Err("Invalid fd".to_owned());
            },
        };
        let s: &String = match &instr.args[1] {
            Operand::Str(s) => s,
            _ => {
                return Err("WRITE requires string".to_owned());
            },
        };
        let mut bytes = s.as_str().as_bytes_vec();
        if bytes.len() > 255 {
            return Err("string too long".to_owned());
        }
        code.push(OPCODE_WRITE);
        code.push(fd);
        code.push(bytes.len() as u8);
        code.append(&mut bytes);
        proof {
            assert(code@ =~= old(code)@ + sp_emit_instr(instr@)->Ok_0);
        }
        Ok(())
    } else if str_eq_str(upper.as_str(), "PRINTLN") {
        if instr.args.len() == 0 {
            code.push(OPCODE_NEWLINE);
            proof {
                assert(code@ =~= old(code)@ + sp_emit_instr(instr@)->Ok_0);
            }
            return Ok(());
        }
        if instr.args.len() == 1 {
            proof {
                assert(instr@.args[0] == instr.args@[0]@);
            }
            match &instr.args[0] {
                Operand::Str(s) => {
                    let mut bytes = s.as_str().as_bytes_vec();
                    if bytes.len() > 255 {
                        return Err("string too long".to_owned());
                    }
                    code.push(OPCODE_WRITE);
                    code.push(1u8);
                    code.push(bytes.len() as u8);
                    code.append(&mut bytes);
                    code.push(OPCODE_NEWLINE);
                    proof {
                        assert(code@ =~= old(code)@ + sp_emit_instr(instr@)->Ok_0);
                    }
                    return Ok(());
                },
                Operand::Char(c) => {
                    code.push(OPCODE_PRINT);
                    code.push(*c);
                    code.push(OPCODE_NEWLINE);
                    proof {
                        assert(code@ =~= old(code)@ + sp_emit_instr(instr@)->Ok_0);
                    }
                    return Ok(());
                },
                _ => {
                    return Err("PRINTLN expects a string or char".to_owned());
                },
            }
        }
        Err("PRINTLN accepts 0 or 1 argument".to_owned())
    } else if str_eq_str(upper.as_str(), "NEWLINE") {
        code.push(OPCODE_NEWLINE);
        proof {
            assert(code@ =~= old(code)@ + sp_emit_instr(instr@)->Ok_0);
        }
        Ok(())
    } else if str_eq_str(upper.as_str(), "HALT") {
        code.push(OPCODE_HALT);
        proof {
            assert(code@ =~= old(code)@ + sp_emit_instr(instr@)->Ok_0);
        }
        Ok(())
    } else if str_eq_str(upper.as_str(), "PRINT") {
        if instr.args.len() != 1 {
            return Err("PRINT requires 1 arg".to_owned());
        }
        proof {
            assert(instr@.args[0] == instr.args@[0]@);
        }
        let b: u8 = match &instr.args[0] {
            Operand::Char(c) => *c,
            Operand::Imm(n) => *n as u8,
            _ => {
                return Err("PRINT expects char or immediate".to_owned());
            },
        };
        code.push(OPCODE_PRINT);
        code.push(b);
        proof {
            assert(code@ =~= old(code)@ + sp_emit_instr(instr@)->Ok_0);
        }
        Ok(())
    } else if str_eq_str(upper.as_str(), "MOV") {
        if instr.args.len() != 2 {
            return Err("MOV requires 2 args".to_owned());
        }
        proof {
            assert(instr@.args[0] == instr.args@[0]@);
            assert(instr@.args[1] == instr.args@[1]@);
        }
        let dst: u8 = match &instr.args[0] {
            Operand::Reg(r) => *r,
            _ => {
                return Err("MOV dst must be reg".to_owned());
            },
        };
        match &instr.args[1] {
            Operand::Imm(n) => {
                code.push(OPCODE_MOV_IMM);
                code.push(dst);
                push_imm32(code, *n);
                proof {
                    assert(code@ =~= old(code)@ + sp_emit_instr(instr@)->Ok_0);
                }
                Ok(())
            },
            Operand::Reg(r) => {
                code.push(OPCODE_MOV_REG);
                code.push(dst);
                code.push(*r);
                proof {
                    assert(code@ =~= old(code)@ + sp_emit_instr(instr@)->Ok_0);
                }
                Ok(())
            },
            _ => Err("MOV src must be reg or imm".to_owned()),
        }
    } else if str_eq_str(upper.as_str(), "ADD") {
        if instr.args.len() != 2 {
            return Err("ADD requires 2 args".to_owned());
        }
        proof {
            assert(instr@.args[0] == instr.args@[0]@);
            assert(instr@.args[1] == instr.args@[1]@);
        }
        let dst: u8 = match &instr.args[0] {
            Operand::Reg(r) => *r,
            _ => {
                return Err("ADD dst must be reg".to_owned());
            },
        };
        let src: u8 = match &instr.args[1] {
            Operand::Reg(r) => *r,
            _ => {
                return Err("ADD src must be reg".to_owned());
            },
        };
        code.push(OPCODE_ADD);
        code.push(dst);
        code.push(src);
        proof {
            assert(code@ =~= old(code)@ + sp_emit_instr(instr@)->Ok_0);
        }
        Ok(())
    } else if str_eq_str(upper.as_str(), "PUSH") {
        if instr.args.len() != 1 {
            return Err("PUSH requires 1 arg".to_owned());
        }
        proof {
            assert(instr@.args[0] == instr.args@[0]@);
        }
        match &instr.args[0] {
            Operand::Imm(n) => {
                code.push(OPCODE_PUSH_IMM);
                push_imm32(code, *n);
                proof {
                    assert(code@ =~= old(code)@ + sp_emit_instr(instr@)->Ok_0);
                }
                Ok(())
            },
            Operand::Reg(r) => {
                code.push(OPCODE_PUSH_REG);
                code.push(*r);
                proof {
                    assert(code@ =~= old(code)@ + sp_emit_instr(instr@)->Ok_0);
                }
                Ok(())
            },
            _ => Err("PUSH expects imm or reg".to_owned()),
        }
    } else if str_eq_str(upper.as_str(), "POP") {
        if instr.args.len() != 1 {
            return Err("POP requires 1 arg".to_owned());
        }
        proof {
            assert(instr@.args[0] == instr.args@[0]@);
        }
        match &instr.args[0] {
            Operand::Reg(r) => {
                code.push(OPCODE_POP);
                code.push(*r);
                proof {
                    assert(code@ =~= old(code)@ + sp_emit_instr(instr@)->Ok_0);
                }
                Ok(())
            },
            _ => Err("POP expects reg".to_owned()),
        }
    } else if str_eq_str(upper.as_str(), "PRINTREG") {
        if instr.args.len() != 1 {
            return Err("PRINTREG requires 1 arg".to_owned());
        }
        proof {
            assert(instr@.args[0] == instr.args@[0]@);
        }
        match &instr.args[0] {
            Operand::Reg(r) => {
                code.push(OPCODE_PRINTREG);
                code.push(*r);
                proof {
                    assert(code@ =~= old(code)@ + sp_emit_instr(instr@)->Ok_0);
                }
                Ok(())
            },
            _ => Err("PRINTREG expects reg".to_owned()),
        }
    } else {
        let mut e = "Unsupported instruction: ".to_owned();
        e.append(upper.as_str());
        Err(e)
    }
}

/// Encodes the program: the body of the function named `main`, behind the
/// 8-byte header. Returns exactly the bytes of [`sp_emit_program`], or its
/// exact error message with no partial output.
/// The index of the first function named `main`, if one exists.
#[verifier::loop_isolation(false)]
fn find_main_index(prog: &Program) -> (r: Option<usize>)
    ensures
        match r {
            Some(i) => i < prog.functions@.len() && sp_find_main(prog@.functions) == Some(
                prog@.functions[i as int],
            ),
            None => sp_find_main(prog@.functions) is None,
        },
{
    let n = prog.functions.len();
    let mut idx: usize = 0;
    proof {
        assert(prog@.functions.skip(0) =~= prog@.functions);
    }
    while idx < n
        invariant
            idx <= n,
            sp_find_main(prog@.functions) == sp_find_main(prog@.functions.skip(idx as int)),
        decreases n - idx,
    {
        proof {
            assert(prog@.functions[idx as int].name == prog.functions@[idx as int].name@);
            assert(prog@.functions.skip(idx as int)[0] == prog@.functions[idx as int]);
        }
        if str_eq_str(prog.functions[idx].name.as_str(), "main") {
            return Some(idx);
        }
        proof {
            assert(prog@.functions.skip(idx as int).drop_first() =~= prog@.functions.skip(
                idx as int + 1,
            ));
        }
        idx = idx + 1;
    }
    proof {
        assert(prog@.functions.skip(n as int) =~= Seq::<FunctionV>::empty());
    }
    None
}

#[verifier::loop_isolation(false)]
pub fn emit_program(prog: &Program) -> (r: Result<Vec<u8>, String>)
    ensures
        match sp_emit_program(prog@) {
            Ok(b) => (r matches Ok(v) && v@ == b),
            Err(m) => (r matches Err(e) && e@ == m),
        },
{
    let main_idx: usize = match find_main_index(prog) {
        Some(i) => i,
        None => {
            proof {
                assert(sp_emit_program(prog@) == Err::<Seq<u8>, Seq<char>>("missing main"@));
            }
            return Err("missing main".to_owned());
        },
    };
    let main_fn = &prog.functions[main_idx];
    let ghost fv = prog@.functions[main_idx as int];
    let ghost body = fv.body;
    proof {
        assert(sp_find_main(prog@.functions) == Some(fv));
        assert(fv == prog.functions@[main_idx as int]@);
        assert(body.len() == main_fn.body@.len());
    }
    let mut code: Vec<u8> = Vec::new();
    let m = main_fn.body.len();
    let mut k: usize = 0;
    proof {
        assert(body.skip(0) =~= body);
        assert(Seq::<u8>::empty() + sp_emit_body(body)->Ok_0 =~= sp_emit_body(body)->Ok_0);
    }
    while k < m
        invariant
            k <= m,
            m == main_fn.body@.len(),
            sp_find_main(prog@.functions) == Some(fv),
            body == fv.body,
            *main_fn == prog.functions@[main_idx as int],
            fv == prog.functions@[main_idx as int]@,
            body.len() == m,
            sp_emit_body(body) == match sp_emit_body(body.skip(k as int)) {
                Ok(rest) => Ok::<Seq<u8>, Seq<char>>(code@ + rest),
                Err(e) => Err::<Seq<u8>, Seq<char>>(e),
            },
        decreases m - k,
    {
        let ghost rem = body.skip(k as int);
        proof {
            assert(body[k as int] == main_fn.body@[k as int]@);
            assert(rem[0] == body[k as int]);
            assert(rem.drop_first() =~= body.skip(k as int + 1));
        }
        match &main_fn.body[k] {
            Statement::Empty => {
                proof {
                    let nxt = sp_emit_body(body.skip(k as int + 1));
                    if nxt is Ok {
                        assert(code@ + (Seq::<u8>::empty() + nxt->Ok_0) =~= code@ + nxt->Ok_0);
                    }
                }
            },
            Statement::Instr(instr) => {
                proof {
                    assert(rem[0] == StatementV::Instr(instr@));
                }
                let ghost pre = code@;
                match emit_instr(instr, &mut code) {
                    Ok(_) => {
                        proof {
                            let b = sp_emit_instr(instr@)->Ok_0;
                            let nxt = sp_emit_body(body.skip(k as int + 1));
                            if nxt is Ok {
                                assert(pre + (b + nxt->Ok_0) =~= code@ + nxt->Ok_0);
                            }
                        }
                    },
                    Err(e) => {
                        proof {
                            assert(sp_emit_body(rem) == Err::<Seq<u8>, Seq<char>>(e@));
                            assert(sp_emit_body(body) == Err::<Seq<u8>, Seq<char>>(e@));
                            assert(sp_emit_program(prog@) == Err::<Seq<u8>, Seq<char>>(e@));
                        }
                        return Err(e);
                    },
                }
            },
            Statement::UnsafeBlock(inner) => {
                let ghost innerv = match body[k as int] {
                    StatementV::UnsafeBlock(iv) => iv,
                    _ => Seq::empty(),
                };
                proof {
                    assert(rem[0] == StatementV::UnsafeBlock(innerv));
                    assert(innerv.len() == inner@.len());
                    assert(code@.skip(code@.len() as int) =~= Seq::<u8>::empty());
                    assert(innerv.skip(0) =~= innerv);
                }
                let ghost base = code@;
                let p = inner.len();
                let mut t: usize = 0;
                proof {
                    let w = sp_emit_unsafe(innerv);
                    if w is Ok {
                        assert(base.skip(base.len() as int) + w->Ok_0 =~= w->Ok_0);
                    }
                }
                while t < p
                    invariant
                        t <= p,
                        p == inner@.len(),
                        innerv.len() == p,
                        forall|j: int| 0 <= j < p ==> innerv[j] == #[trigger] inner@[j]@,
                        base.len() <= code@.len(),
                        base == code@.subrange(0, base.len() as int),
                        sp_emit_unsafe(innerv) == match sp_emit_unsafe(innerv.skip(t as int)) {
                            Ok(rest) => Ok::<Seq<u8>, Seq<char>>(
                                code@.skip(base.len() as int) + rest,
                            ),
                            Err(e) => Err::<Seq<u8>, Seq<char>>(e),
                        },
                    decreases p - t,
                {
                    let ghost remi = innerv.skip(t as int);
                    proof {
                        assert(remi[0] == innerv[t as int]);
                        assert(remi.drop_first() =~= innerv.skip(t as int + 1));
                        assert(innerv[t as int] == inner@[t as int]@);
                    }
                    match &inner[t] {
                        Statement::Instr(instr2) => {
                            proof {
                                assert(remi[0] == StatementV::Instr(instr2@));
                            }
                            let ghost pre = code@;
                            match emit_instr(instr2, &mut code) {
                                Ok(_) => {
                                    proof {
                                        let b = sp_emit_instr(instr2@)->Ok_0;
                                        assert(code@.skip(base.len() as int) =~= pre.skip(
                                            base.len() as int,
                                        ) + b);
                                        assert(base =~= code@.subrange(0, base.len() as int));
                                        let nxt = sp_emit_unsafe(innerv.skip(t as int + 1));
                                        if nxt is Ok {
                                            assert((pre.skip(base.len() as int) + b) + nxt->Ok_0
                                                =~= code@.skip(base.len() as int) + nxt->Ok_0);
                                            assert(pre.skip(base.len() as int) + (b + nxt->Ok_0)
                                                =~= (pre.skip(base.len() as int) + b) + nxt->Ok_0);
                                        }
                                    }
                                },
                                Err(e) => {
                                    proof {
                                        assert(sp_emit_unsafe(remi) == Err::<Seq<u8>, Seq<char>>(
                                            e@,
                                        ));
                                        assert(sp_emit_unsafe(innerv) == Err::<Seq<u8>, Seq<char>>(
                                            e@,
                                        ));
                                        assert(sp_emit_body(rem) == Err::<Seq<u8>, Seq<char>>(e@));
                                        assert(sp_emit_body(body) == Err::<Seq<u8>, Seq<char>>(e@));
                                        assert(sp_emit_program(prog@) == Err::<Seq<u8>, Seq<char>>(
                                            e@,
                                        ));
                                    }
                                    return Err(e);
                                },
                            }
                        },
                        _ => {
                            proof {
                                let nxt = sp_emit_unsafe(innerv.skip(t as int + 1));
                                if nxt is Ok {
                                    assert(code@.skip(base.len() as int) + (Seq::<u8>::empty()
                                        + nxt->Ok_0) =~= code@.skip(base.len() as int) + nxt->Ok_0);
                                }
                            }
                        },
                    }
                    t = t + 1;
                }
                proof {
                    assert(innerv.skip(p as int) =~= Seq::<StatementV>::empty());
                    let delta = code@.skip(base.len() as int);
                    assert(delta + Seq::<u8>::empty() =~= delta);
                    assert(sp_emit_unsafe(innerv) == Ok::<Seq<u8>, Seq<char>>(delta));
                    assert(code@ =~= base + delta);
                    let nxt = sp_emit_body(body.skip(k as int + 1));
                    if nxt is Ok {
                        assert(base + (delta + nxt->Ok_0) =~= code@ + nxt->Ok_0);
                    }
                }
            },
        }
        k = k + 1;
    }
    proof {
        assert(body.skip(m as int) =~= Seq::<StatementV>::empty());
        assert(sp_emit_body(body) == Ok::<Seq<u8>, Seq<char>>(code@ + Seq::<u8>::empty()));
        assert(code@ + Seq::<u8>::empty() =~= code@);
        assert(sp_emit_program(prog@) == Ok::<Seq<u8>, Seq<char>>(sp_header() + code@));
    }
    let ghost bodybytes = code@;
    let mut out: Vec<u8> = Vec::new();
    out.push(MAGIC_0);
    out.push(MAGIC_1);
    out.push(MAGIC_2);
    out.push(0u8);
    out.push(0u8);
    out.push(0u8);
    out.push(0u8);
    out.push(0u8);
    out.append(&mut code);
    proof {
        assert(out@ =~= sp_header() + bodybytes);
    }
    Ok(out)
}

} // verus!
