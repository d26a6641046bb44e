//! A compiler from a small first-order functional language to C.
//!
//! A program is a list of functions and structs; its value is that of the
//! function `result`. The stages run one after the other: the text is lexed
//! and parsed into a syntax tree, the tree is checked and typed, every
//! argument of every call is hoisted into a thunk of its own, and the
//! lowered program is written out as one C translation unit.
//!
//! Every stage is a function with a contract over a mathematical model of
//! its data: what it accepts, what it gives, and what it reports of what it
//! refuses.

pub mod loc;
pub mod ty;
pub mod op;
pub mod table;
pub mod text;
pub mod diag;
pub mod token;
pub mod lexer;
pub mod fl;
pub mod grammar;
pub mod refusal;
pub mod parser;
pub mod unparse;
pub mod relex;
pub mod flchk;
pub mod tir;
pub mod il;
pub mod tc;
pub mod ttoi;
pub mod thunks;
pub mod itoc;
pub mod pipeline;
