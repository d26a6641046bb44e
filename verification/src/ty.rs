//! The types of the language, and the typing of its operators.

use vstd::prelude::*;
use crate::op::BinOp;
use crate::table::first_index;

verus! {

/// A type of the source language.
#[derive(Debug)]
pub enum Type {
    Int,
    Bool,
    Struct(String),
}

/// The mathematical model of a [`Type`]: the struct's name is a sequence of characters.
pub enum TypeView {
    Int,
    Bool,
    Struct(Seq<char>),
}

impl TypeView {
    /// `Int` and `Bool` are the base types.
    pub open spec fn is_base(self) -> bool {
        self is Int || self is Bool
    }
}

impl View for Type {
    type V = TypeView;

    open spec fn view(&self) -> TypeView {
        match self {
            Type::Int => TypeView::Int,
            Type::Bool => TypeView::Bool,
            Type::Struct(name) => TypeView::Struct(name@),
        }
    }
}

impl DeepView for Type {
    type V = TypeView;

    open spec fn deep_view(&self) -> TypeView {
        self@
    }
}

impl Type {
    pub fn is_base_type(&self) -> (b: bool)
        ensures
            b == self@.is_base(),
    {
        match self {
            Type::Int | Type::Bool => true,
            _ => false,
        }
    }
}

impl Clone for Type {
    fn clone(&self) -> (r: Self)
        ensures
            r@ == self@,
    {
        match self {
            Type::Int => Type::Int,
            Type::Bool => Type::Bool,
            Type::Struct(name) => Type::Struct(name.clone()),
        }
    }
}

impl PartialEq for Type {
    fn eq(&self, other: &Self) -> (r: bool) {
        match self {
            Type::Int => matches!(other, Type::Int),
            Type::Bool => matches!(other, Type::Bool),
            Type::Struct(a) => match other {
                Type::Struct(b) => *a == *b,
                _ => false,
            },
        }
    }
}

impl vstd::std_specs::cmp::PartialEqSpecImpl for Type {
    open spec fn obeys_eq_spec() -> bool {
        true
    }

    open spec fn eq_spec(&self, other: &Self) -> bool {
        self@ == other@
    }
}

/// The type of a binary operation on operands of the given types, where the
/// operation has one: arithmetic takes and gives integers, the order
/// comparisons take integers, and `==` and `!=` take two values of one base type.
pub open spec fn binary_type(op: BinOp, l: TypeView, r: TypeView) -> Option<TypeView> {
    if op.is_arithmetic() {
        if l is Int && r is Int {
            Some(TypeView::Int)
        } else {
            None
        }
    } else if op.is_ordering() {
        if l is Int && r is Int {
            Some(TypeView::Bool)
        } else {
            None
        }
    } else {
        if l == r && l.is_base() {
            Some(TypeView::Bool)
        } else {
            None
        }
    }
}

/// The type of the parameter or field called `name`, where `names` and `types`
/// list the names and the types by position.
pub open spec fn member_type(names: Seq<Seq<char>>, types: Seq<TypeView>, name: Seq<char>) -> Option<
    TypeView,
> {
    match first_index(names, name) {
        Some(i) => if i < types.len() {
            Some(types[i])
        } else {
            None
        },
        None => None,
    }
}

/// A copy of a list of types.
pub fn clone_types(types: &Vec<Type>) -> (r: Vec<Type>)
    ensures
        r.deep_view() == types.deep_view(),
{
    let mut r: Vec<Type> = Vec::new();
    let mut i: usize = 0;
    while i < types.len()
        invariant
            i <= types.len(),
            r.len() == i,
            forall|j: int| 0 <= j < i ==> r[j]@ == types[j]@,
        decreases types.len() - i,
    {
        r.push(types[i].clone());
        i += 1;
    }
    assert(r.deep_view() =~= types.deep_view());
    r
}

} // verus!
