//! The parser: recursive descent with one token of lookahead over the
//! lexer's stream. It builds a [`Program`] of function declarations — only a
//! function literally named `main` is accepted, a deliberate restriction —
//! and enforces at parse time that register operands appear only lexically
//! inside an `unsafe { }` block. The first error aborts parsing; there is no
//! recovery and no partial syntax tree.
//!
//! The whole grammar is pinned down by [`sp_parse_program`] over the token
//! stream: [`Parser::parse_program`] returns exactly its result.
use crate::ast::Function;
use crate::ast::FunctionV;
use crate::ast::Instruction;
use crate::ast::InstructionV;
use crate::ast::Operand;
use crate::ast::OperandV;
use crate::ast::Program;
use crate::ast::Statement;
use crate::ast::StatementV;
use crate::chars::push_char;
use crate::chars::str_eq_str;
use crate::chars::str_to_chars;
use crate::lexer::sp_tokens_from;
use crate::lexer::Lexer;
use crate::lexer::TokV;
use crate::lexer::Token;
use crate::numbers::dec_rep_signed;
use crate::numbers::parse_int;
use crate::numbers::parsed_int;
use crate::numbers::push_dec_i64;
use vstd::prelude::*;
use vstd::string::StrSliceExecFns;
use vstd::string::StringExecFns;

verus! {

/// A fatal parse error: the human-readable message.
#[derive(Debug)]
pub struct ParseError(pub String);

/// The token a parser with remaining stream `toks` is looking at: the first
/// of the stream, or `Eof` when the stream is exhausted.
pub open spec fn cur(toks: Seq<TokV>) -> TokV {
    if toks.len() == 0 {
        TokV::Eof
    } else {
        toks[0]
    }
}

/// The stream after consuming one token (consuming at the end changes
/// nothing: the lexer keeps answering `Eof`).
pub open spec fn adv(toks: Seq<TokV>) -> Seq<TokV> {
    if toks.len() == 0 {
        toks
    } else {
        toks.drop_first()
    }
}

/// The description of a token used in error messages.
pub open spec fn sp_tok_desc(t: TokV) -> Seq<char> {
    match t {
        TokV::Fn => "Fn"@,
        TokV::Ident(s) => "Ident(\""@ + s + "\")"@,
        TokV::Number(n) => "Number("@ + dec_rep_signed(n as int) + ")"@,
        TokV::Str(s) => "Str(\""@ + s + "\")"@,
        TokV::Char(c) => "Char('"@ + seq![c] + "')"@,
        TokV::LParen => "LParen"@,
        TokV::RParen => "RParen"@,
        TokV::LBrace => "LBrace"@,
        TokV::RBrace => "RBrace"@,
        TokV::Comma => "Comma"@,
        TokV::Semicolon => "Semicolon"@,
        TokV::Eof => "Eof"@,
    }
}

/// The message of a failed expectation of `exp` while looking at `found`.
pub open spec fn sp_expect_msg(exp: TokV, found: TokV) -> Seq<char> {
    "Expected "@ + sp_tok_desc(exp) + ", found "@ + sp_tok_desc(found)
}

/// Whether two tokens are of the same kind, payloads aside.
pub open spec fn sp_same_kind(a: TokV, b: TokV) -> bool {
    match (a, b) {
        (TokV::Fn, TokV::Fn) => true,
        (TokV::Ident(_), TokV::Ident(_)) => true,
        (TokV::Number(_), TokV::Number(_)) => true,
        (TokV::Str(_), TokV::Str(_)) => true,
        (TokV::Char(_), TokV::Char(_)) => true,
        (TokV::LParen, TokV::LParen) => true,
        (TokV::RParen, TokV::RParen) => true,
        (TokV::LBrace, TokV::LBrace) => true,
        (TokV::RBrace, TokV::RBrace) => true,
        (TokV::Comma, TokV::Comma) => true,
        (TokV::Semicolon, TokV::Semicolon) => true,
        (TokV::Eof, TokV::Eof) => true,
        _ => false,
    }
}

/// The operand a register-like identifier denotes: the register whose index
/// is the tolerant decimal reading of everything after the `R`/`r`.
pub open spec fn sp_reg_of_ident(id: Seq<char>) -> OperandV {
    OperandV::Reg(parsed_int(id.skip(1), 10, 255) as u8)
}

/// Whether an identifier is register-like: nonempty and opening with `R` or
/// `r`.
pub open spec fn sp_is_reg_ident(id: Seq<char>) -> bool {
    id.len() > 0 && (id[0] == 'R' || id[0] == 'r')
}

/// The comma-separated operand list from after the opening parenthesis up
/// to and including the closing one. Register operands are legal only when
/// `unsafe_ok` holds; elsewhere they fail with a message naming the
/// offending identifier. A trailing comma before the closing parenthesis is
/// tolerated.
pub open spec fn sp_parse_operands(toks: Seq<TokV>, unsafe_ok: bool) -> Result<
    (Seq<OperandV>, Seq<TokV>),
    Seq<char>,
>
    decreases toks.len(),
{
    if cur(toks) is RParen {
        Ok((Seq::empty(), adv(toks)))
    } else {
        let first: Result<OperandV, Seq<char>> = match cur(toks) {
            TokV::Number(n) => Ok(OperandV::Imm(n)),
            TokV::Str(s) => Ok(OperandV::Str(s)),
            TokV::Char(c) => Ok(OperandV::Char(c as u8)),
            TokV::Ident(id) => {
                if sp_is_reg_ident(id) {
                    if !unsafe_ok {
                        Err("Register "@ + id + " used outside unsafe block"@)
                    } else {
                        Ok(sp_reg_of_ident(id))
                    }
                } else {
                    Ok(OperandV::Ident(id))
                }
            },
            other => Err("Unexpected operand: "@ + sp_tok_desc(other)),
        };
        match first {
            Err(e) => Err(e),
            Ok(op) => {
                let rest = adv(toks);
                if cur(rest) is Comma {
                    match sp_parse_operands(adv(rest), unsafe_ok) {
                        Err(e) => Err(e),
                        Ok((ops, rem)) => Ok((seq![op] + ops, rem)),
                    }
                } else if cur(rest) is RParen {
                    Ok((seq![op], adv(rest)))
                } else {
                    Err("Expected ',' or ')', found "@ + sp_tok_desc(cur(rest)))
                }
            },
        }
    }
}

/// One instruction: its mnemonic identifier, an optional parenthesized
/// operand list, and an optional trailing semicolon.
pub open spec fn sp_parse_instruction(toks: Seq<TokV>, unsafe_ok: bool) -> Result<
    (InstructionV, Seq<TokV>),
    Seq<char>,
> {
    match cur(toks) {
        TokV::Ident(name) => {
            let rest = adv(toks);
            let after: Result<(Seq<OperandV>, Seq<TokV>), Seq<char>> = if cur(rest) is LParen {
                sp_parse_operands(adv(rest), unsafe_ok)
            } else {
                Ok((Seq::empty(), rest))
            };
            match after {
                Err(e) => Err(e),
                Ok((args, rem)) => {
                    let rem2 = if cur(rem) is Semicolon {
                        adv(rem)
                    } else {
                        rem
                    };
                    Ok((InstructionV { name, args }, rem2))
                },
            }
        },
        other => Err("Expected instruction name, found "@ + sp_tok_desc(other)),
    }
}

/// The statements of an `unsafe { }` block up to and including the closing
/// brace: only empty statements and instructions may appear (no nested
/// block), and register operands are legal throughout.
pub open spec fn sp_parse_unsafe_body(toks: Seq<TokV>) -> Result<
    (Seq<StatementV>, Seq<TokV>),
    Seq<char>,
>
    decreases toks.len(),
{
    if cur(toks) is RBrace || cur(toks) is Eof {
        if cur(toks) is RBrace {
            Ok((Seq::empty(), adv(toks)))
        } else {
            Err(sp_expect_msg(TokV::RBrace, cur(toks)))
        }
    } else {
        match cur(toks) {
            TokV::Semicolon => {
                match sp_parse_unsafe_body(adv(toks)) {
                    Err(e) => Err(e),
                    Ok((stmts, rem)) => Ok((seq![StatementV::Empty] + stmts, rem)),
                }
            },
            TokV::Ident(_) => {
                match sp_parse_instruction(toks, true) {
                    Err(e) => Err(e),
                    Ok((instr, rem)) => {
                        if rem.len() >= toks.len() {
                            Err(Seq::empty())  // never reached: an instruction consumes tokens
                        } else {
                            match sp_parse_unsafe_body(rem) {
                                Err(e) => Err(e),
                                Ok((stmts, rem2)) => Ok(
                                    (seq![StatementV::Instr(instr)] + stmts, rem2),
                                ),
                            }
                        }
                    },
                }
            },
            other => Err("Unsupported token in unsafe body: "@ + sp_tok_desc(other)),
        }
    }
}

/// The statements of a function body up to and including the closing brace:
/// empty statements, `unsafe { }` blocks, and instructions (with register
/// operands rejected outside the blocks).
pub open spec fn sp_parse_body(toks: Seq<TokV>) -> Result<(Seq<StatementV>, Seq<TokV>), Seq<char>>
    decreases toks.len(),
{
    if cur(toks) is RBrace || cur(toks) is Eof {
        if cur(toks) is RBrace {
            Ok((Seq::empty(), adv(toks)))
        } else {
            Err(sp_expect_msg(TokV::RBrace, cur(toks)))
        }
    } else {
        match cur(toks) {
            TokV::Semicolon => {
                match sp_parse_body(adv(toks)) {
                    Err(e) => Err(e),
                    Ok((stmts, rem)) => Ok((seq![StatementV::Empty] + stmts, rem)),
                }
            },
            TokV::Ident(id) => {
                if id == "unsafe"@ {
                    let t1 = adv(toks);
                    if cur(t1) is LBrace {
                        match sp_parse_unsafe_body(adv(t1)) {
                            Err(e) => Err(e),
                            Ok((inner, rem)) => {
                                if rem.len() >= toks.len() {
                                    Err(Seq::empty())  // never reached: the block consumes tokens
                                } else {
                                    match sp_parse_body(rem) {
                                        Err(e) => Err(e),
                                        Ok((stmts, rem2)) => Ok(
                                            (seq![StatementV::UnsafeBlock(inner)] + stmts, rem2),
                                        ),
                                    }
                                }
                            },
                        }
                    } else {
                        Err(sp_expect_msg(TokV::LBrace, cur(t1)))
                    }
                } else {
                    match sp_parse_instruction(toks, false) {
                        Err(e) => Err(e),
                        Ok((instr, rem)) => {
                            if rem.len() >= toks.len() {
                                Err(Seq::empty())  // never reached
                            } else {
                                match sp_parse_body(rem) {
                                    Err(e) => Err(e),
                                    Ok((stmts, rem2)) => Ok(
                                        (seq![StatementV::Instr(instr)] + stmts, rem2),
                                    ),
                                }
                            }
                        },
                    }
                }
            },
            other => Err("Unsupported token in body: "@ + sp_tok_desc(other)),
        }
    }
}

/// One function declaration: the keyword `fn`, the name `main` (any other
/// name is a hard error: multi-function support is deliberately absent), an
/// empty parameter list, and a braced body.
pub open spec fn sp_parse_function(toks: Seq<TokV>) -> Result<(FunctionV, Seq<TokV>), Seq<char>> {
    if !(cur(toks) is Fn) {
        Err("Expected 'fn' keyword, found: "@ + sp_tok_desc(cur(toks)))
    } else {
        let t1 = adv(toks);
        match cur(t1) {
            TokV::Ident(name) => {
                if name != "main"@ {
                    Err("Only `main` is supported, found function '"@ + name + "'"@)
                } else {
                    let t2 = adv(t1);
                    if cur(t2) is LParen {
                        let t3 = adv(t2);
                        if cur(t3) is RParen {
                            let t4 = adv(t3);
                            if cur(t4) is LBrace {
                                match sp_parse_body(adv(t4)) {
                                    Err(e) => Err(e),
                                    Ok((body, rem)) => Ok(
                                        (FunctionV { name, params: Seq::empty(), body }, rem),
                                    ),
                                }
                            } else {
                                Err(sp_expect_msg(TokV::LBrace, cur(t4)))
                            }
                        } else {
                            Err(sp_expect_msg(TokV::RParen, cur(t3)))
                        }
                    } else {
                        Err(sp_expect_msg(TokV::LParen, cur(t2)))
                    }
                }
            },
            other => Err("Expected identifier after fn, found: "@ + sp_tok_desc(other)),
        }
    }
}

/// A whole program: function declarations until the end of the input.
pub open spec fn sp_parse_program(toks: Seq<TokV>) -> Result<Seq<FunctionV>, Seq<char>>
    decreases toks.len(),
{
    if cur(toks) is Eof {
        Ok(Seq::empty())
    } else {
        match sp_parse_function(toks) {
            Err(e) => Err(e),
            Ok((f, rem)) => {
                if rem.len() >= toks.len() {
                    Err(Seq::empty())  // never reached: a function consumes tokens
                } else {
                    match sp_parse_program(rem) {
                        Err(e) => Err(e),
                        Ok(fs) => Ok(seq![f] + fs),
                    }
                }
            },
        }
    }
}

/// The description of a token used in error messages.
fn token_desc(t: &Token) -> (r: String)
    ensures
        r@ == sp_tok_desc(t@),
{
    let mut s = String::new();
    match t {
        Token::Fn => {
            s.append("Fn");
        },
        Token::Ident(id) => {
            s.append("Ident(\"");
            s.append(id.as_str());
            s.append("\")");
        },
        Token::Number(n) => {
            s.append("Number(");
            push_dec_i64(&mut s, *n);
            s.append(")");
        },
        Token::Str(t2) => {
            s.append("Str(\"");
            s.append(t2.as_str());
            s.append("\")");
        },
        Token::Char(c) => {
            s.append("Char('");
            push_char(&mut s, *c);
            s.append("')");
        },
        Token::LParen => {
            s.append("LParen");
        },
        Token::RParen => {
            s.append("RParen");
        },
        Token::LBrace => {
            s.append("LBrace");
        },
        Token::RBrace => {
            s.append("RBrace");
        },
        Token::Comma => {
            s.append("Comma");
        },
        Token::Semicolon => {
            s.append("Semicolon");
        },
        Token::Eof => {
            s.append("Eof");
        },
    }
    proof {
        assert(s@ =~= sp_tok_desc(t@));
    }
    s
}

/// The recursive-descent parser: the lexer, one token of lookahead, and the
/// flag that tracks whether parsing stands inside an `unsafe { }` block.
pub struct Parser {
    pub lexer: Lexer,
    pub cur: Token,
    pub in_unsafe: bool,
}

impl Parser {
    /// The lookahead is consistent with the lexer's cursor: once `Eof` shows,
    /// the stream behind it is exhausted.
    pub open spec fn wf(self) -> bool {
        &&& self.lexer.wf()
        &&& (self.cur@ is Eof ==> sp_tokens_from(self.lexer.chars@, self.lexer.pos as int)
            == Seq::<TokV>::empty())
    }

    /// The tokens not yet consumed: the lookahead and everything after it.
    pub open spec fn remaining_toks(self) -> Seq<TokV> {
        if self.cur@ is Eof {
            Seq::empty()
        } else {
            seq![self.cur@] + sp_tokens_from(self.lexer.chars@, self.lexer.pos as int)
        }
    }

    /// A parser over `lexer`, with the first token read as lookahead.
    pub fn new(lexer: Lexer) -> (r: Parser)
        requires
            lexer.wf(),
        ensures
            r.wf(),
            !r.in_unsafe,
            r.remaining_toks() == sp_tokens_from(lexer.chars@, lexer.pos as int),
    {
        let ghost s = lexer.chars@;
        let ghost p0 = lexer.pos as int;
        let mut lexer = lexer;
        let cur = lexer.next_token();
        proof {
            crate::lexer::lemma_next_token_bounds(s, p0);
            if cur@ is Eof {
                lemma_next_token_eof(s, p0);
            }
        }
        Parser { lexer, cur, in_unsafe: false }
    }

    /// Replaces the lookahead with the next token of the stream.
    fn advance(&mut self)
        requires
            old(self).wf(),
        ensures
            final(self).wf(),
            final(self).in_unsafe == old(self).in_unsafe,
            final(self).remaining_toks() == adv(old(self).remaining_toks()),
            old(self).remaining_toks().len() > 0 ==> final(self).remaining_toks().len()
                == old(self).remaining_toks().len() - 1,
    {
        let ghost s = self.lexer.chars@;
        let ghost p0 = self.lexer.pos as int;
        let t = self.lexer.next_token();
        proof {
            crate::lexer::lemma_next_token_bounds(s, p0);
            if t@ is Eof {
                lemma_next_token_eof(s, p0);
            }
            if old(self).cur@ is Eof {
                // the stream behind an `Eof` lookahead is empty, so the next
                // token is `Eof` again at the same place
                assert(sp_tokens_from(s, p0) == Seq::<TokV>::empty());
            }
        }
        self.cur = t;
    }

    /// Consumes the lookahead if it is of the kind of `expected`, and fails
    /// with a message naming both otherwise.
    fn expect(&mut self, expected: Token) -> (r: Result<(), ParseError>)
        requires
            old(self).wf(),
        ensures
            final(self).wf(),
            final(self).in_unsafe == old(self).in_unsafe,
            sp_same_kind(cur(old(self).remaining_toks()), expected@) ==> (r is Ok
                && final(self).remaining_toks() == adv(old(self).remaining_toks())),
            !sp_same_kind(cur(old(self).remaining_toks()), expected@) ==> (r matches Err(e)
                && e.0@ == sp_expect_msg(expected@, cur(old(self).remaining_toks()))),
            !sp_same_kind(cur(old(self).remaining_toks()), expected@) ==> *final(self) == *old(self),
    {
        let same = match (&self.cur, &expected) {
            (Token::Fn, Token::Fn) => true,
            (Token::Ident(_), Token::Ident(_)) => true,
            (Token::Number(_), Token::Number(_)) => true,
            (Token::Str(_), Token::Str(_)) => true,
            (Token::Char(_), Token::Char(_)) => true,
            (Token::LParen, Token::LParen) => true,
            (Token::RParen, Token::RParen) => true,
            (Token::LBrace, Token::LBrace) => true,
            (Token::RBrace, Token::RBrace) => true,
            (Token::Comma, Token::Comma) => true,
            (Token::Semicolon, Token::Semicolon) => true,
            (Token::Eof, Token::Eof) => true,
            _ => false,
        };
        if same {
            self.advance();
            Ok(())
        } else {
            let mut m = String::new();
            m.append("Expected ");
            let d1 = token_desc(&expected);
            m.append(d1.as_str());
            m.append(", found ");
            let d2 = token_desc(&self.cur);
            m.append(d2.as_str());
            proof {
                assert(m@ =~= sp_expect_msg(expected@, cur(old(self).remaining_toks())));
            }
            Err(ParseError(m))
        }
    }
}

/// The views of a vector of operands, in order.
pub open spec fn ops_of(v: Seq<Operand>) -> Seq<OperandV> {
    Seq::new(v.len(), |i: int| v[i]@)
}

/// The views of a vector of statements, in order.
pub open spec fn stmts_of(v: Seq<Statement>) -> Seq<StatementV> {
    Seq::new(v.len(), |i: int| v[i]@)
}

/// The views of a vector of functions, in order.
pub open spec fn fns_of(v: Seq<Function>) -> Seq<FunctionV> {
    Seq::new(v.len(), |i: int| v[i]@)
}

impl Parser {
    /// Parses the operand list from just after the opening parenthesis to
    /// just past the closing one.
    #[verifier::loop_isolation(false)]
    fn parse_operand_list(&mut self) -> (r: Result<Vec<Operand>, ParseError>)
        requires
            old(self).wf(),
        ensures
            final(self).wf(),
            final(self).in_unsafe == old(self).in_unsafe,
            match sp_parse_operands(old(self).remaining_toks(), old(self).in_unsafe) {
                Ok((ops, rem)) => (r matches Ok(v) && ops_of(v@) == ops) && final(self).remaining_toks() == rem && rem.len() <= old(self).remaining_toks().len(),
                Err(m) => (r matches Err(e) && e.0@ == m),
            },
    {
        let ghost entry = self.remaining_toks();
        let ghost u = self.in_unsafe;
        let mut args: Vec<Operand> = Vec::new();
        loop
            invariant
                self.wf(),
                self.in_unsafe == u,
                self.remaining_toks().len() <= entry.len(),
                sp_parse_operands(entry, u) == match sp_parse_operands(
                    self.remaining_toks(),
                    u,
                ) {
                    Ok((ops, rem)) => Ok::<(Seq<OperandV>, Seq<TokV>), Seq<char>>(
                        (ops_of(args@) + ops, rem),
                    ),
                    Err(e) => Err::<(Seq<OperandV>, Seq<TokV>), Seq<char>>(e),
                },
            decreases self.remaining_toks().len(),
        {
            let ghost toks = self.remaining_toks();
            proof {
                assert(cur(toks) == self.cur@);
            }
            let is_rparen = match &self.cur {
                Token::RParen => true,
                _ => false,
            };
            if is_rparen {
                self.advance();
                proof {
                    assert(ops_of(args@) + Seq::<OperandV>::empty() =~= ops_of(args@));
                }
                return Ok(args);
            }
            let op: Operand = match &self.cur {
                Token::Number(n) => Operand::Imm(*n),
                Token::Str(s) => Operand::Str(s.clone()),
                Token::Char(c) => Operand::Char(#[verifier::truncate] (*c as u8)),
                Token::Ident(id) => {
                    let idc = str_to_chars(id.as_str());
                    let reg_like = idc.len() > 0 && (idc[0] == 'R' || idc[0] == 'r');
                    proof {
                        assert(reg_like == sp_is_reg_ident(id@));
                    }
                    if reg_like {
                        if !self.in_unsafe {
                            let mut m = String::new();
                            m.append("Register ");
                            m.append(id.as_str());
                            m.append(" used outside unsafe block");
                            proof {
                                assert(m@ =~= "Register "@ + id@ + " used outside unsafe block"@);
                            }
                            return Err(ParseError(m));
                        }
                        let num = parse_int(&idc, 1, 10, 255);
                        proof {
                            assert(idc@.subrange(1, idc@.len() as int) =~= id@.skip(1));
                        }
                        Operand::Reg(num as u8)
                    } else {
                        Operand::Ident(id.clone())
                    }
                },
                _ => {
                    let mut m = String::new();
                    m.append("Unexpected operand: ");
                    let d = token_desc(&self.cur);
                    m.append(d.as_str());
                    proof {
                        assert(m@ =~= "Unexpected operand: "@ + sp_tok_desc(cur(toks)));
                    }
                    return Err(ParseError(m));
                },
            };
            let ghost opv = op@;
            let ghost pre = args@;
            proof {
                assert(ops_of(args@.push(op)) =~= ops_of(args@) + seq![opv]);
            }
            args.push(op);
            self.advance();
            let is_comma = match &self.cur {
                Token::Comma => true,
                _ => false,
            };
            if is_comma {
                self.advance();
                proof {
                    let nxt = sp_parse_operands(self.remaining_toks(), u);
                    if nxt is Ok {
                        let ops = nxt->Ok_0.0;
                        assert(ops_of(pre) + (seq![opv] + ops) =~= ops_of(args@) + ops);
                    }
                }
            } else {
                let is_rp = match &self.cur {
                    Token::RParen => true,
                    _ => false,
                };
                if is_rp {
                    self.advance();
                    proof {
                        assert(ops_of(args@) =~= ops_of(pre) + seq![opv]);
                    }
                    return Ok(args);
                }
                let mut m = String::new();
                m.append("Expected ',' or ')', found ");
                let d = token_desc(&self.cur);
                m.append(d.as_str());
                proof {
                    assert(m@ =~= "Expected ',' or ')', found "@ + sp_tok_desc(cur(adv(toks))));
                }
                return Err(ParseError(m));
            }
        }
    }

    /// Parses one instruction: a mnemonic, an optional parenthesized operand
    /// list, and an optional trailing semicolon.
    fn parse_instruction(&mut self) -> (r: Result<Instruction, ParseError>)
        requires
            old(self).wf(),
        ensures
            final(self).wf(),
            final(self).in_unsafe == old(self).in_unsafe,
            match sp_parse_instruction(old(self).remaining_toks(), old(self).in_unsafe) {
                Ok((iv, rem)) => (r matches Ok(i) && i@ == iv) && final(self).remaining_toks()
                    == rem && rem.len() < old(self).remaining_toks().len(),
                Err(m) => (r matches Err(e) && e.0@ == m),
            },
    {
        let ghost toks = self.remaining_toks();
        proof {
            assert(cur(toks) == self.cur@);
        }
        let name: String = match &self.cur {
            Token::Ident(s) => s.clone(),
            _ => {
                let mut m = String::new();
                m.append("Expected instruction name, found ");
                let d = token_desc(&self.cur);
                m.append(d.as_str());
                proof {
                    assert(m@ =~= "Expected instruction name, found "@ + sp_tok_desc(cur(toks)));
                }
                return Err(ParseError(m));
            },
        };
        self.advance();
        let has_parens = match &self.cur {
            Token::LParen => true,
            _ => false,
        };
        let args: Vec<Operand> = if has_parens {
            self.advance();
            match self.parse_operand_list() {
                Ok(v) => v,
                Err(e) => {
                    return Err(e);
                },
            }
        } else {
            Vec::new()
        };
        proof {
            if !has_parens {
                assert(ops_of(args@) =~= Seq::<OperandV>::empty());
            }
        }
        let is_semi = match &self.cur {
            Token::Semicolon => true,
            _ => false,
        };
        if is_semi {
            self.advance();
        }
        let instr = Instruction { name, args };
        proof {
            let (iv, rem) = sp_parse_instruction(toks, self.in_unsafe)->Ok_0;
            assert(instr@.args =~= ops_of(instr.args@));
            assert(instr@ == iv);
        }
        Ok(instr)
    }

    /// Parses the statements of an `unsafe { }` block, from just after the
    /// opening brace to just past the closing one: empty statements and
    /// instructions only.
    #[verifier::loop_isolation(false)]
    fn parse_unsafe_block_stmts(&mut self) -> (r: Result<Vec<Statement>, ParseError>)
        requires
            old(self).wf(),
            old(self).in_unsafe,
        ensures
            final(self).wf(),
            final(self).in_unsafe == old(self).in_unsafe,
            match sp_parse_unsafe_body(old(self).remaining_toks()) {
                Ok((stmts, rem)) => (r matches Ok(v) && stmts_of(v@) == stmts) && final(self).remaining_toks() == rem && rem.len() <= old(self).remaining_toks().len(),
                Err(m) => (r matches Err(e) && e.0@ == m),
            },
    {
        let ghost entry = self.remaining_toks();
        let mut stmts: Vec<Statement> = Vec::new();
        loop
            invariant
                self.wf(),
                self.in_unsafe,
                self.remaining_toks().len() <= entry.len(),
                sp_parse_unsafe_body(entry) == match sp_parse_unsafe_body(self.remaining_toks()) {
                    Ok((ss, rem)) => Ok::<(Seq<StatementV>, Seq<TokV>), Seq<char>>(
                        (stmts_of(stmts@) + ss, rem),
                    ),
                    Err(e) => Err::<(Seq<StatementV>, Seq<TokV>), Seq<char>>(e),
                },
            decreases self.remaining_toks().len(),
        {
            let ghost toks = self.remaining_toks();
            proof {
                assert(cur(toks) == self.cur@);
            }
            let at_end = match &self.cur {
                Token::RBrace => true,
                Token::Eof => true,
                _ => false,
            };
            if at_end {
                match self.expect(Token::RBrace) {
                    Ok(_) => {
                        proof {
                            assert(stmts_of(stmts@) + Seq::<StatementV>::empty() =~= stmts_of(
                                stmts@,
                            ));
                        }
                        return Ok(stmts);
                    },
                    Err(e) => {
                        return Err(e);
                    },
                }
            }
            match &self.cur {
                Token::Semicolon => {
                    self.advance();
                    proof {
                        assert(stmts_of(stmts@.push(Statement::Empty)) =~= stmts_of(stmts@)
                            + seq![StatementV::Empty]);
                        assert(forall|ss: Seq<StatementV>|
                            stmts_of(stmts@) + (seq![StatementV::Empty] + ss) =~= (stmts_of(stmts@)
                                + seq![StatementV::Empty]) + ss);
                    }
                    stmts.push(Statement::Empty);
                },
                Token::Ident(_) => {
                    match self.parse_instruction() {
                        Ok(instr) => {
                            proof {
                                let iv = instr@;
                                assert(stmts_of(stmts@.push(Statement::Instr(instr))) =~= stmts_of(
                                    stmts@,
                                ) + seq![StatementV::Instr(iv)]);
                                assert(forall|ss: Seq<StatementV>|
                                    stmts_of(stmts@) + (seq![StatementV::Instr(iv)] + ss) =~= (
                                    stmts_of(stmts@) + seq![StatementV::Instr(iv)]) + ss);
                            }
                            stmts.push(Statement::Instr(instr));
                        },
                        Err(e) => {
                            return Err(e);
                        },
                    }
                },
                _ => {
                    let mut m = String::new();
                    m.append("Unsupported token in unsafe body: ");
                    let d = token_desc(&self.cur);
                    m.append(d.as_str());
                    proof {
                        assert(m@ =~= "Unsupported token in unsafe body: "@ + sp_tok_desc(
                            cur(toks),
                        ));
                    }
                    return Err(ParseError(m));
                },
            }
        }
    }

    /// Parses the statements of a function body, from just after the opening
    /// brace to just past the closing one.
    #[verifier::loop_isolation(false)]
    fn parse_body_stmts(&mut self) -> (r: Result<Vec<Statement>, ParseError>)
        requires
            old(self).wf(),
            !old(self).in_unsafe,
        ensures
            final(self).wf(),
            final(self).in_unsafe == old(self).in_unsafe,
            match sp_parse_body(old(self).remaining_toks()) {
                Ok((stmts, rem)) => (r matches Ok(v) && stmts_of(v@) == stmts) && final(self).remaining_toks() == rem && rem.len() <= old(self).remaining_toks().len(),
                Err(m) => (r matches Err(e) && e.0@ == m),
            },
    {
        let ghost entry = self.remaining_toks();
        let mut stmts: Vec<Statement> = Vec::new();
        loop
            invariant
                self.wf(),
                !self.in_unsafe,
                self.remaining_toks().len() <= entry.len(),
                sp_parse_body(entry) == match sp_parse_body(self.remaining_toks()) {
                    Ok((ss, rem)) => Ok::<(Seq<StatementV>, Seq<TokV>), Seq<char>>(
                        (stmts_of(stmts@) + ss, rem),
                    ),
                    Err(e) => Err::<(Seq<StatementV>, Seq<TokV>), Seq<char>>(e),
                },
            decreases self.remaining_toks().len(),
        {
            let ghost toks = self.remaining_toks();
            proof {
                assert(cur(toks) == self.cur@);
            }
            let at_end = match &self.cur {
                Token::RBrace => true,
                Token::Eof => true,
                _ => false,
            };
            if at_end {
                match self.expect(Token::RBrace) {
                    Ok(_) => {
                        proof {
                            assert(stmts_of(stmts@) + Seq::<StatementV>::empty() =~= stmts_of(
                                stmts@,
                            ));
                        }
                        return Ok(stmts);
                    },
                    Err(e) => {
                        return Err(e);
                    },
                }
            }
            let is_semi = match &self.cur {
                Token::Semicolon => true,
                _ => false,
            };
            if is_semi {
                self.advance();
                proof {
                    assert(stmts_of(stmts@.push(Statement::Empty)) =~= stmts_of(stmts@)
                        + seq![StatementV::Empty]);
                    assert(forall|ss: Seq<StatementV>|
                        stmts_of(stmts@) + (seq![StatementV::Empty] + ss) =~= (stmts_of(stmts@)
                            + seq![StatementV::Empty]) + ss);
                }
                stmts.push(Statement::Empty);
                continue ;
            }
            let is_unsafe_kw = match &self.cur {
                Token::Ident(id) => str_eq_str(id.as_str(), "unsafe"),
                _ => false,
            };
            let is_ident = match &self.cur {
                Token::Ident(_) => true,
                _ => false,
            };
            if is_unsafe_kw {
                self.advance();
                match self.expect(Token::LBrace) {
                    Ok(_) => {},
                    Err(e) => {
                        return Err(e);
                    },
                }
                let prev = self.in_unsafe;
                self.in_unsafe = true;
                let inner = match self.parse_unsafe_block_stmts() {
                    Ok(v) => v,
                    Err(e) => {
                        self.in_unsafe = prev;
                        return Err(e);
                    },
                };
                self.in_unsafe = prev;
                let ghost innerv = stmts_of(inner@);
                let blk = Statement::UnsafeBlock(inner);
                let ghost bv = blk@;
                proof {
                    let bs = match bv {
                        StatementV::UnsafeBlock(s) => s,
                        _ => Seq::empty(),
                    };
                    assert(bs =~= innerv);
                    assert(bv == StatementV::UnsafeBlock(innerv));
                    assert(stmts_of(stmts@.push(blk)) =~= stmts_of(stmts@) + seq![bv]);
                }
                let ghost spre = stmts@;
                stmts.push(blk);
                proof {
                    let t1 = adv(toks);
                    assert(cur(t1) is LBrace);
                    let inner_r = sp_parse_unsafe_body(adv(t1));
                    assert(inner_r is Ok);
                    assert(inner_r->Ok_0.0 == innerv);
                    let rem = inner_r->Ok_0.1;
                    assert(self.remaining_toks() == rem);
                    assert(toks.len() >= 2);
                    assert(rem.len() < toks.len());
                    assert(sp_parse_body(toks) == match sp_parse_body(rem) {
                        Ok((ss, rem2)) => Ok::<(Seq<StatementV>, Seq<TokV>), Seq<char>>(
                            (seq![bv] + ss, rem2),
                        ),
                        Err(e) => Err::<(Seq<StatementV>, Seq<TokV>), Seq<char>>(e),
                    });
                    let nxt = sp_parse_body(rem);
                    if nxt is Ok {
                        let ss = nxt->Ok_0.0;
                        assert(stmts_of(spre) + (seq![bv] + ss) =~= stmts_of(stmts@) + ss);
                    }
                }
            } else if is_ident {
                match self.parse_instruction() {
                    Ok(instr) => {
                        proof {
                            let iv = instr@;
                            assert(stmts_of(stmts@.push(Statement::Instr(instr))) =~= stmts_of(
                                stmts@,
                            ) + seq![StatementV::Instr(iv)]);
                            assert(forall|ss: Seq<StatementV>|
                                stmts_of(stmts@) + (seq![StatementV::Instr(iv)] + ss) =~= (stmts_of(
                                    stmts@,
                                ) + seq![StatementV::Instr(iv)]) + ss);
                        }
                        stmts.push(Statement::Instr(instr));
                    },
                    Err(e) => {
                        return Err(e);
                    },
                }
            } else {
                let mut m = String::new();
                m.append("Unsupported token in body: ");
                let d = token_desc(&self.cur);
                m.append(d.as_str());
                proof {
                    assert(m@ =~= "Unsupported token in body: "@ + sp_tok_desc(cur(toks)));
                }
                return Err(ParseError(m));
            }
        }
    }

    /// Parses one function declaration: `fn main ( ) { body }`.
    fn parse_function(&mut self) -> (r: Result<Function, ParseError>)
        requires
            old(self).wf(),
            !old(self).in_unsafe,
        ensures
            final(self).wf(),
            final(self).in_unsafe == old(self).in_unsafe,
            match sp_parse_function(old(self).remaining_toks()) {
                Ok((fv, rem)) => (r matches Ok(f) && f@ == fv) && final(self).remaining_toks()
                    == rem && rem.len() < old(self).remaining_toks().len(),
                Err(m) => (r matches Err(e) && e.0@ == m),
            },
    {
        let ghost toks = self.remaining_toks();
        proof {
            assert(cur(toks) == self.cur@);
        }
        let is_fn = match &self.cur {
            Token::Fn => true,
            _ => false,
        };
        if !is_fn {
            let mut m = String::new();
            m.append("Expected 'fn' keyword, found: ");
            let d = token_desc(&self.cur);
            m.append(d.as_str());
            proof {
                assert(m@ =~= "Expected 'fn' keyword, found: "@ + sp_tok_desc(cur(toks)));
            }
            return Err(ParseError(m));
        }
        self.advance();
        let name: String = match &self.cur {
            Token::Ident(s) => s.clone(),
            _ => {
                let mut m = String::new();
                m.append("Expected identifier after fn, found: ");
                let d = token_desc(&self.cur);
                m.append(d.as_str());
                proof {
                    assert(m@ =~= "Expected identifier after fn, found: "@ + sp_tok_desc(
                        cur(adv(toks)),
                    ));
                }
                return Err(ParseError(m));
            },
        };
        if !str_eq_str(name.as_str(), "main") {
            let mut m = String::new();
            m.append("Only `main` is supported, found function '");
            m.append(name.as_str());
            m.append("'");
            proof {
                assert(m@ =~= "Only `main` is supported, found function '"@ + name@ + "'"@);
            }
            return Err(ParseError(m));
        }
        self.advance();
        match self.expect(Token::LParen) {
            Ok(_) => {},
            Err(e) => {
                return Err(e);
            },
        }
        match self.expect(Token::RParen) {
            Ok(_) => {},
            Err(e) => {
                return Err(e);
            },
        }
        match self.expect(Token::LBrace) {
            Ok(_) => {},
            Err(e) => {
                return Err(e);
            },
        }
        let body = match self.parse_body_stmts() {
            Ok(v) => v,
            Err(e) => {
                return Err(e);
            },
        };
        let f = Function { name, params: Vec::new(), body };
        proof {
            let (fv, rem) = sp_parse_function(toks)->Ok_0;
            assert(f@.params =~= Seq::<Seq<char>>::empty());
            assert(f@.body =~= stmts_of(f.body@));
            assert(f@ == fv);
        }
        Ok(f)
    }

    /// Parses a whole program: function declarations until the end of the
    /// input. Returns exactly the result of [`sp_parse_program`] over the
    /// token stream: the syntax tree, or the first error, with no recovery
    /// and no partial tree.
    #[verifier::loop_isolation(false)]
    pub fn parse_program(&mut self) -> (r: Result<Program, ParseError>)
        requires
            old(self).wf(),
            !old(self).in_unsafe,
        ensures
            final(self).wf(),
            match sp_parse_program(old(self).remaining_toks()) {
                Ok(fs) => (r matches Ok(p) && p@.functions == fs),
                Err(m) => (r matches Err(e) && e.0@ == m),
            },
    {
        let ghost entry = self.remaining_toks();
        let mut prog = Program::new();
        loop
            invariant
                self.wf(),
                !self.in_unsafe,
                sp_parse_program(entry) == match sp_parse_program(self.remaining_toks()) {
                    Ok(fs) => Ok::<Seq<FunctionV>, Seq<char>>(fns_of(prog.functions@) + fs),
                    Err(e) => Err::<Seq<FunctionV>, Seq<char>>(e),
                },
            decreases self.remaining_toks().len(),
        {
            let ghost toks = self.remaining_toks();
            proof {
                assert(cur(toks) == self.cur@);
            }
            let at_eof = match &self.cur {
                Token::Eof => true,
                _ => false,
            };
            if at_eof {
                proof {
                    assert(fns_of(prog.functions@) + Seq::<FunctionV>::empty() =~= fns_of(
                        prog.functions@,
                    ));
                    assert(prog@.functions =~= fns_of(prog.functions@));
                }
                return Ok(prog);
            }
            match self.parse_function() {
                Ok(f) => {
                    proof {
                        let fv = f@;
                        assert(fns_of(prog.functions@.push(f)) =~= fns_of(prog.functions@)
                            + seq![fv]);
                        assert(forall|fs: Seq<FunctionV>|
                            fns_of(prog.functions@) + (seq![fv] + fs) =~= (fns_of(prog.functions@)
                                + seq![fv]) + fs);
                    }
                    prog.functions.push(f);
                },
                Err(e) => {
                    return Err(e);
                },
            }
        }
    }
}

/// A token reported as `Eof` is read at the very end of the input, so the
/// stream after it is empty.
pub proof fn lemma_next_token_eof(s: Seq<char>, pos: int)
    requires
        0 <= pos <= s.len(),
        crate::lexer::sp_next_token(s, pos).0 is Eof,
    ensures
        sp_tokens_from(s, crate::lexer::sp_next_token(s, pos).1) == Seq::<TokV>::empty(),
    decreases s.len() - pos,
{
    crate::lexer::lemma_next_token_bounds(s, pos);
    let p1 = crate::lexer::sp_next_token(s, pos).1;
    crate::lexer::lemma_next_token_bounds(s, p1);
    lemma_eof_at_end(s, pos);
    assert(p1 == s.len());
    assert(crate::lexer::sp_next_token(s, p1).0 is Eof) by {
        crate::lexer::lemma_run_end(s, p1, |c: char| crate::chars::is_unicode_whitespace(c));
    }
}

/// A token reported as `Eof` leaves the cursor at the very end of the input.
pub proof fn lemma_eof_at_end(s: Seq<char>, pos: int)
    requires
        0 <= pos <= s.len(),
        crate::lexer::sp_next_token(s, pos).0 is Eof,
    ensures
        crate::lexer::sp_next_token(s, pos).1 == s.len(),
    decreases s.len() - pos,
{
    let ws = |c: char| crate::chars::is_unicode_whitespace(c);
    crate::lexer::lemma_run_end(s, pos, ws);
    let i = crate::lexer::sp_run_end(s, pos, ws);
    if i < s.len() {
        let c = s[i];
        let j = i + 1;
        if c == '(' || c == ')' || c == '{' || c == '}' || c == ',' || c == ';' {
        } else if c == '"' {
        } else if c == '\'' {
        } else if crate::chars::is_unicode_numeric(c) {
        } else if crate::chars::is_unicode_alphabetic(c) || c == '_' {
        } else {
            lemma_eof_at_end(s, j);
        }
    }
}


/// Whether an instruction carries any register operand.
pub open spec fn instr_has_reg(i: InstructionV) -> bool {
    exists|k: int| 0 <= k < i.args.len() && i.args[k] is Reg
}

/// The statement-level guarantee the parser enforces: a register operand
/// appears only lexically inside an `unsafe { }` block, and such a block
/// holds only empty statements and instructions, never another block.
pub open spec fn stmt_reg_safe(s: StatementV) -> bool {
    match s {
        StatementV::Empty => true,
        StatementV::Instr(i) => !instr_has_reg(i),
        StatementV::UnsafeBlock(inner) => forall|k: int|
            0 <= k < inner.len() ==> ((#[trigger] inner[k]) is Empty || inner[k] is Instr),
    }
}

/// Outside an unsafe block, a successfully parsed operand list never holds a
/// register: a register-like identifier there fails the parse instead.
pub proof fn lemma_operands_reg_gated(toks: Seq<TokV>)
    ensures
        sp_parse_operands(toks, false) matches Ok(p) ==> forall|k: int|
            0 <= k < p.0.len() ==> !((#[trigger] p.0[k]) is Reg),
    decreases toks.len(),
{
    if !(cur(toks) is RParen) {
        let rest = adv(toks);
        if cur(rest) is Comma {
            lemma_operands_reg_gated(adv(rest));
            if sp_parse_operands(toks, false) is Ok {
                let p = sp_parse_operands(toks, false)->Ok_0;
                let tail = sp_parse_operands(adv(rest), false)->Ok_0;
                assert forall|k: int| 0 <= k < p.0.len() implies !((#[trigger] p.0[k]) is Reg) by {
                    if k > 0 {
                        assert(p.0[k] == tail.0[k - 1]);
                    }
                }
            }
        }
    }
}

/// Outside an unsafe block, a successfully parsed instruction carries no
/// register operand.
pub proof fn lemma_instruction_reg_gated(toks: Seq<TokV>)
    ensures
        sp_parse_instruction(toks, false) matches Ok(p) ==> !instr_has_reg(p.0),
{
    if cur(toks) matches TokV::Ident(name) {
        let rest = adv(toks);
        if cur(rest) is LParen {
            lemma_operands_reg_gated(adv(rest));
        }
    }
}

/// A successfully parsed unsafe block holds only empty statements and
/// instructions: blocks do not nest.
pub proof fn lemma_unsafe_body_flat(toks: Seq<TokV>)
    ensures
        sp_parse_unsafe_body(toks) matches Ok(p) ==> forall|k: int|
            0 <= k < p.0.len() ==> ((#[trigger] p.0[k]) is Empty || p.0[k] is Instr),
    decreases toks.len(),
{
    if !(cur(toks) is RBrace || cur(toks) is Eof) {
        match cur(toks) {
            TokV::Semicolon => {
                lemma_unsafe_body_flat(adv(toks));
                if sp_parse_unsafe_body(toks) is Ok {
                    let p = sp_parse_unsafe_body(toks)->Ok_0;
                    let tail = sp_parse_unsafe_body(adv(toks))->Ok_0;
                    assert forall|k: int|
                        0 <= k < p.0.len() implies ((#[trigger] p.0[k]) is Empty
                        || p.0[k] is Instr) by {
                        if k > 0 {
                            assert(p.0[k] == tail.0[k - 1]);
                        }
                    }
                }
            },
            TokV::Ident(_) => {
                if sp_parse_instruction(toks, true) is Ok {
                    let rem = sp_parse_instruction(toks, true)->Ok_0.1;
                    if rem.len() < toks.len() {
                        lemma_unsafe_body_flat(rem);
                        if sp_parse_unsafe_body(toks) is Ok {
                            let p = sp_parse_unsafe_body(toks)->Ok_0;
                            let tail = sp_parse_unsafe_body(rem)->Ok_0;
                            assert forall|k: int|
                                0 <= k < p.0.len() implies ((#[trigger] p.0[k]) is Empty
                                || p.0[k] is Instr) by {
                                if k > 0 {
                                    assert(p.0[k] == tail.0[k - 1]);
                                }
                            }
                        }
                    }
                }
            },
            _ => {},
        }
    }
}

/// Every statement of a successfully parsed function body is register-safe:
/// instructions at the top level of the body carry no register operand, and
/// unsafe blocks hold only empty statements and instructions.
pub proof fn lemma_body_reg_safe(toks: Seq<TokV>)
    ensures
        sp_parse_body(toks) matches Ok(p) ==> forall|k: int|
            0 <= k < p.0.len() ==> stmt_reg_safe(#[trigger] p.0[k]),
    decreases toks.len(),
{
    if !(cur(toks) is RBrace || cur(toks) is Eof) {
        match cur(toks) {
            TokV::Semicolon => {
                lemma_body_reg_safe(adv(toks));
                if sp_parse_body(toks) is Ok {
                    let p = sp_parse_body(toks)->Ok_0;
                    let tail = sp_parse_body(adv(toks))->Ok_0;
                    assert forall|k: int|
                        0 <= k < p.0.len() implies stmt_reg_safe(#[trigger] p.0[k]) by {
                        if k > 0 {
                            assert(p.0[k] == tail.0[k - 1]);
                        }
                    }
                }
            },
            TokV::Ident(id) => {
                if id == "unsafe"@ {
                    let t1 = adv(toks);
                    if cur(t1) is LBrace {
                        lemma_unsafe_body_flat(adv(t1));
                        if sp_parse_unsafe_body(adv(t1)) is Ok {
                            let (inner, rem) = sp_parse_unsafe_body(adv(t1))->Ok_0;
                            if rem.len() < toks.len() {
                                lemma_body_reg_safe(rem);
                                if sp_parse_body(toks) is Ok {
                                    let p = sp_parse_body(toks)->Ok_0;
                                    let tail = sp_parse_body(rem)->Ok_0;
                                    assert(stmt_reg_safe(StatementV::UnsafeBlock(inner)));
                                    assert forall|k: int|
                                        0 <= k < p.0.len() implies stmt_reg_safe(
                                        #[trigger] p.0[k],
                                    ) by {
                                        if k > 0 {
                                            assert(p.0[k] == tail.0[k - 1]);
                                        }
                                    }
                                }
                            }
                        }
                    }
                } else {
                    lemma_instruction_reg_gated(toks);
                    if sp_parse_instruction(toks, false) is Ok {
                        let (instr, rem) = sp_parse_instruction(toks, false)->Ok_0;
                        if rem.len() < toks.len() {
                            lemma_body_reg_safe(rem);
                            if sp_parse_body(toks) is Ok {
                                let p = sp_parse_body(toks)->Ok_0;
                                let tail = sp_parse_body(rem)->Ok_0;
                                assert(stmt_reg_safe(StatementV::Instr(instr)));
                                assert forall|k: int|
                                    0 <= k < p.0.len() implies stmt_reg_safe(
                                    #[trigger] p.0[k],
                                ) by {
                                    if k > 0 {
                                        assert(p.0[k] == tail.0[k - 1]);
                                    }
                                }
                            }
                        }
                    }
                }
            },
            _ => {},
        }
    }
}

/// Law of the register gate: in any program the parser accepts, a register
/// operand stands only inside an `unsafe { }` block (an instruction outside
/// one carries none), and no block nests inside another. A register operand
/// elsewhere fails the parse with an error naming the register.
pub proof fn lemma_parse_register_gating(toks: Seq<TokV>)
    ensures
        sp_parse_program(toks) matches Ok(fs) ==> forall|i: int, j: int|
            0 <= i < fs.len() && 0 <= j < (#[trigger] fs[i]).body.len() ==> stmt_reg_safe(
                #[trigger] fs[i].body[j],
            ),
    decreases toks.len(),
{
    if !(cur(toks) is Eof) {
        if sp_parse_function(toks) is Ok {
            let (f, rem) = sp_parse_function(toks)->Ok_0;
            if cur(adv(adv(adv(adv(toks))))) is LBrace {
                lemma_body_reg_safe(adv(adv(adv(adv(adv(toks))))));
            }
            if rem.len() < toks.len() {
                lemma_parse_register_gating(rem);
                if sp_parse_program(toks) is Ok {
                    let fs = sp_parse_program(toks)->Ok_0;
                    let tail = sp_parse_program(rem)->Ok_0;
                    assert forall|i: int, j: int|
                        0 <= i < fs.len() && 0 <= j < (#[trigger] fs[i]).body.len() implies
                        stmt_reg_safe(#[trigger] fs[i].body[j]) by {
                        if i > 0 {
                            assert(fs[i] == tail[i - 1]);
                        } else {
                            assert(fs[0] == f);
                        }
                    }
                }
            }
        }
    }
}

/// Law of the single accepted name: every function in a program the parser
/// accepts is named `main` and has an empty parameter list; a declaration
/// under any other name fails the parse. Parsing does not fail merely
/// because several `main` declarations exist.
pub proof fn lemma_parse_only_main(toks: Seq<TokV>)
    ensures
        sp_parse_program(toks) matches Ok(fs) ==> forall|i: int|
            0 <= i < fs.len() ==> (#[trigger] fs[i]).name == "main"@ && fs[i].params
                == Seq::<Seq<char>>::empty(),
    decreases toks.len(),
{
    if !(cur(toks) is Eof) {
        if sp_parse_function(toks) is Ok {
            let (f, rem) = sp_parse_function(toks)->Ok_0;
            assert(f.name == "main"@);
            if rem.len() < toks.len() {
                lemma_parse_only_main(rem);
                if sp_parse_program(toks) is Ok {
                    let fs = sp_parse_program(toks)->Ok_0;
                    let tail = sp_parse_program(rem)->Ok_0;
                    assert forall|i: int|
                        0 <= i < fs.len() implies (#[trigger] fs[i]).name == "main"@ && fs[i].params
                        == Seq::<Seq<char>>::empty() by {
                        if i > 0 {
                            assert(fs[i] == tail[i - 1]);
                        } else {
                            assert(fs[0] == f);
                        }
                    }
                }
            }
        }
    }
}

} // verus!