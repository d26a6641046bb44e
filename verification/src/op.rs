//! The binary operators of the language.

use vstd::prelude::*;

verus! {

/// The binary operators of the language. The models of the three expression
/// languages file every arithmetic and comparison node under one of these.
#[derive(Clone, Copy, Debug, PartialEq, Eq, Structural)]
pub enum BinOp {
    Add,
    Sub,
    Mul,
    Eq,
    Neq,
    Lt,
    Gt,
    Le,
    Ge,
}

impl BinOp {
    /// `+`, `-` and `*` take and give integers.
    pub open spec fn is_arithmetic(self) -> bool {
        self is Add || self is Sub || self is Mul
    }

    /// `<`, `<=`, `>` and `>=` compare integers.
    pub open spec fn is_ordering(self) -> bool {
        self is Lt || self is Gt || self is Le || self is Ge
    }

    /// `==` and `!=` compare two values of one base type.
    pub open spec fn is_equality(self) -> bool {
        self is Eq || self is Neq
    }
}

} // verus!
