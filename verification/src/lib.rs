//! A tiny virtual-machine instruction set and the two codecs that bridge it
//! to text: a compiler front end (lexer, parser, encoder) that turns a small
//! curly-brace source language into a binary instruction stream inside a
//! "bcx" container, and a disassembler (decoder) that turns such a container
//! back into readable mnemonic lines.
//!
//! The encoder emits a strict subset of the opcode space; the decoder covers
//! the full table. The two codecs share the opcode numbering in [`opcode`]
//! and are otherwise independent.
pub mod ast;
pub mod chars;
pub mod codegen;
pub mod decode;
pub mod laws;
pub mod lexer;
pub mod numbers;
pub mod opcode;
pub mod parser;
pub mod render;
