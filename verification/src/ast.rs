//! The abstract syntax shared by the parser (which produces it) and the
//! encoder (which consumes it), together with its mathematical view: every
//! node has a ghost counterpart over `Seq` that the contracts speak of.
use vstd::prelude::*;

verus! {

/// An ordered sequence of function declarations. Order is preserved, but the
/// encoder only ever emits the function literally named `main`.
#[derive(Debug, PartialEq)]
pub struct Program {
    pub functions: Vec<Function>,
}

/// One function declaration: a name, an (always empty) parameter list, and
/// an ordered body of statements.
#[derive(Debug, PartialEq)]
pub struct Function {
    pub name: String,
    pub params: Vec<String>,
    pub body: Vec<Statement>,
}

/// A statement of a function body: a bare `;`, one instruction, or an
/// `unsafe { }` block of statements (the parser only ever places `Empty` and
/// `Instr` statements inside a block, never another block).
#[derive(Debug, PartialEq)]
pub enum Statement {
    Empty,
    Instr(Instruction),
    UnsafeBlock(Vec<Statement>),
}

/// An instruction in source form: a mnemonic (matched case-insensitively at
/// encode time) and its operands.
#[derive(Debug, PartialEq)]
pub struct Instruction {
    pub name: String,
    pub args: Vec<Operand>,
}

/// An instruction operand. `Ident` is reserved for future symbolic use and
/// is never accepted by the encoder.
#[derive(Debug, PartialEq)]
pub enum Operand {
    Imm(i64),
    Reg(u8),
    Str(String),
    Char(u8),
    Ident(String),
}

pub struct ProgramV {
    pub functions: Seq<FunctionV>,
}

pub struct FunctionV {
    pub name: Seq<char>,
    pub params: Seq<Seq<char>>,
    pub body: Seq<StatementV>,
}

pub enum StatementV {
    Empty,
    Instr(InstructionV),
    UnsafeBlock(Seq<StatementV>),
}

pub struct InstructionV {
    pub name: Seq<char>,
    pub args: Seq<OperandV>,
}

pub enum OperandV {
    Imm(i64),
    Reg(u8),
    Str(Seq<char>),
    Char(u8),
    Ident(Seq<char>),
}

impl View for Operand {
    type V = OperandV;

    open spec fn view(&self) -> OperandV {
        match self {
            Operand::Imm(n) => OperandV::Imm(*n),
            Operand::Reg(r) => OperandV::Reg(*r),
            Operand::Str(s) => OperandV::Str(s@),
            Operand::Char(c) => OperandV::Char(*c),
            Operand::Ident(s) => OperandV::Ident(s@),
        }
    }
}

impl View for Instruction {
    type V = InstructionV;

    open spec fn view(&self) -> InstructionV {
        InstructionV { name: self.name@, args: Seq::new(self.args@.len(), |i: int| self.args@[i]@) }
    }
}

impl View for Statement {
    type V = StatementV;

    open spec fn view(&self) -> StatementV
        decreases self,
    {
        match self {
            Statement::Empty => StatementV::Empty,
            Statement::Instr(i) => StatementV::Instr(i@),
            Statement::UnsafeBlock(v) => StatementV::UnsafeBlock(
                Seq::new(
                    v@.len(),
                    |i: int|
                        if 0 <= i < v@.len() {
                            v@[i]@
                        } else {
                            StatementV::Empty
                        },
                ),
            ),
        }
    }
}

impl View for Function {
    type V = FunctionV;

    open spec fn view(&self) -> FunctionV {
        FunctionV {
            name: self.name@,
            params: Seq::new(self.params@.len(), |i: int| self.params@[i]@),
            body: Seq::new(self.body@.len(), |i: int| self.body@[i]@),
        }
    }
}

impl View for Program {
    type V = ProgramV;

    open spec fn view(&self) -> ProgramV {
        ProgramV { functions: Seq::new(self.functions@.len(), |i: int| self.functions@[i]@) }
    }
}

impl Program {
    /// An empty program, ready for the parser to fill.
    pub fn new() -> (r: Self)
        ensures
            r@.functions == Seq::<FunctionV>::empty(),
    {
        Program { functions: Vec::new() }
    }
}

} // verus!
