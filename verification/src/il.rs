//! The lowered program: calls and constructors carry an index in place of
//! their arguments, which live in thunks.

use vstd::prelude::*;
use crate::op::BinOp;
use crate::table::lookup;
use crate::ty::{Type, TypeView};

verus! {

/// An expression of the lowered language. A call or a constructor carries no
/// arguments: they live in thunks, found by the call's index.
#[derive(Debug)]
pub enum Expr {
    /// A parameter, by the name that the source gives it and its position.
    Local(String, usize, Type),
    /// A reference to a function without parameters.
    Global(String, Type),
    Num(i64, Type),
    Bool(bool, Type),
    Add(Box<Expr>, Box<Expr>, Type),
    Sub(Box<Expr>, Box<Expr>, Type),
    Mul(Box<Expr>, Box<Expr>, Type),
    Eq(Box<Expr>, Box<Expr>, Type),
    Neq(Box<Expr>, Box<Expr>, Type),
    Lt(Box<Expr>, Box<Expr>, Type),
    Gt(Box<Expr>, Box<Expr>, Type),
    Le(Box<Expr>, Box<Expr>, Type),
    Ge(Box<Expr>, Box<Expr>, Type),
    If(Box<Expr>, Box<Expr>, Box<Expr>, Type),
    /// The callee and the index of this call among the calls of that callee.
    Call(String, usize, Type),
    /// The receiver and the position of the field in its struct.
    Field(Box<Expr>, usize, Type),
    /// The struct and the index of this construction among those of that struct.
    Constructor(String, usize, Type),
}

/// The mathematical model of an [`Expr`].
pub enum ExprView {
    Local(Seq<char>, nat, TypeView),
    Global(Seq<char>, TypeView),
    Num(int, TypeView),
    Bool(bool, TypeView),
    Binary(BinOp, Box<ExprView>, Box<ExprView>, TypeView),
    If(Box<ExprView>, Box<ExprView>, Box<ExprView>, TypeView),
    Call(Seq<char>, nat, TypeView),
    Field(Box<ExprView>, nat, TypeView),
    Constructor(Seq<char>, nat, TypeView),
}

impl ExprView {
    /// The type that the node carries.
    pub open spec fn ty(self) -> TypeView {
        match self {
            ExprView::Local(_, _, t) => t,
            ExprView::Global(_, t) => t,
            ExprView::Num(_, t) => t,
            ExprView::Bool(_, t) => t,
            ExprView::Binary(_, _, _, t) => t,
            ExprView::If(_, _, _, t) => t,
            ExprView::Call(_, _, t) => t,
            ExprView::Field(_, _, t) => t,
            ExprView::Constructor(_, _, t) => t,
        }
    }

    /// The number of nodes.
    pub open spec fn size(self) -> nat
        decreases self,
    {
        match self {
            ExprView::Binary(_, l, r, _) => 1 + l.size() + r.size(),
            ExprView::If(c, t, e, _) => 1 + c.size() + t.size() + e.size(),
            ExprView::Field(e, _, _) => 1 + e.size(),
            _ => 1,
        }
    }
}

impl Expr {
    /// The model of the expression: a node for each node.
    pub open spec fn model(&self) -> ExprView
        decreases self,
    {
        match self {
            Expr::Local(name, i, t) => ExprView::Local(name@, *i as nat, t@),
            Expr::Global(name, t) => ExprView::Global(name@, t@),
            Expr::Num(n, t) => ExprView::Num(*n as int, t@),
            Expr::Bool(b, t) => ExprView::Bool(*b, t@),
            Expr::Add(l, r, t) => ExprView::Binary(BinOp::Add, Box::new(l.model()), Box::new(r.model()), t@),
            Expr::Sub(l, r, t) => ExprView::Binary(BinOp::Sub, Box::new(l.model()), Box::new(r.model()), t@),
            Expr::Mul(l, r, t) => ExprView::Binary(BinOp::Mul, Box::new(l.model()), Box::new(r.model()), t@),
            Expr::Eq(l, r, t) => ExprView::Binary(BinOp::Eq, Box::new(l.model()), Box::new(r.model()), t@),
            Expr::Neq(l, r, t) => ExprView::Binary(BinOp::Neq, Box::new(l.model()), Box::new(r.model()), t@),
            Expr::Lt(l, r, t) => ExprView::Binary(BinOp::Lt, Box::new(l.model()), Box::new(r.model()), t@),
            Expr::Gt(l, r, t) => ExprView::Binary(BinOp::Gt, Box::new(l.model()), Box::new(r.model()), t@),
            Expr::Le(l, r, t) => ExprView::Binary(BinOp::Le, Box::new(l.model()), Box::new(r.model()), t@),
            Expr::Ge(l, r, t) => ExprView::Binary(BinOp::Ge, Box::new(l.model()), Box::new(r.model()), t@),
            Expr::If(c, t, e, ty) => ExprView::If(
                Box::new(c.model()),
                Box::new(t.model()),
                Box::new(e.model()),
                ty@,
            ),
            Expr::Call(name, k, t) => ExprView::Call(name@, *k as nat, t@),
            Expr::Field(e, i, t) => ExprView::Field(Box::new(e.model()), *i as nat, t@),
            Expr::Constructor(name, k, t) => ExprView::Constructor(name@, *k as nat, t@),
        }
    }
}

impl View for Expr {
    type V = ExprView;

    open spec fn view(&self) -> ExprView {
        self.model()
    }
}

impl Clone for Expr {
    fn clone(&self) -> (r: Self)
        ensures
            r@ == self@,
        decreases self,
    {
        match self {
            Expr::Local(name, i, t) => Expr::Local(name.clone(), *i, t.clone()),
            Expr::Global(name, t) => Expr::Global(name.clone(), t.clone()),
            Expr::Num(n, t) => Expr::Num(*n, t.clone()),
            Expr::Bool(b, t) => Expr::Bool(*b, t.clone()),
            Expr::Add(l, r, t) => Expr::Add(
                Box::new((**l).clone()),
                Box::new((**r).clone()),
                t.clone(),
            ),
            Expr::Sub(l, r, t) => Expr::Sub(
                Box::new((**l).clone()),
                Box::new((**r).clone()),
                t.clone(),
            ),
            Expr::Mul(l, r, t) => Expr::Mul(
                Box::new((**l).clone()),
                Box::new((**r).clone()),
                t.clone(),
            ),
            Expr::Eq(l, r, t) => Expr::Eq(
                Box::new((**l).clone()),
                Box::new((**r).clone()),
                t.clone(),
            ),
            Expr::Neq(l, r, t) => Expr::Neq(
                Box::new((**l).clone()),
                Box::new((**r).clone()),
                t.clone(),
            ),
            Expr::Lt(l, r, t) => Expr::Lt(
                Box::new((**l).clone()),
                Box::new((**r).clone()),
                t.clone(),
            ),
            Expr::Gt(l, r, t) => Expr::Gt(
                Box::new((**l).clone()),
                Box::new((**r).clone()),
                t.clone(),
            ),
            Expr::Le(l, r, t) => Expr::Le(
                Box::new((**l).clone()),
                Box::new((**r).clone()),
                t.clone(),
            ),
            Expr::Ge(l, r, t) => Expr::Ge(
                Box::new((**l).clone()),
                Box::new((**r).clone()),
                t.clone(),
            ),
            Expr::If(c, th, el, t) => Expr::If(
                Box::new((**c).clone()),
                Box::new((**th).clone()),
                Box::new((**el).clone()),
                t.clone(),
            ),
            Expr::Call(name, k, t) => Expr::Call(name.clone(), *k, t.clone()),
            Expr::Field(e, i, t) => Expr::Field(Box::new((**e).clone()), *i, t.clone()),
            Expr::Constructor(name, k, t) => Expr::Constructor(name.clone(), *k, t.clone()),
        }
    }
}

impl DeepView for Expr {
    type V = ExprView;

    open spec fn deep_view(&self) -> ExprView {
        self@
    }
}

impl Expr {
    /// The type that the node carries.
    pub fn ty(&self) -> (t: Type)
        ensures
            t@ == self@.ty(),
    {
        match self {
            Expr::Local(_, _, t) => t.clone(),
            Expr::Global(_, t) => t.clone(),
            Expr::Num(_, t) => t.clone(),
            Expr::Bool(_, t) => t.clone(),
            Expr::Add(_, _, t) => t.clone(),
            Expr::Sub(_, _, t) => t.clone(),
            Expr::Mul(_, _, t) => t.clone(),
            Expr::Eq(_, _, t) => t.clone(),
            Expr::Neq(_, _, t) => t.clone(),
            Expr::Lt(_, _, t) => t.clone(),
            Expr::Gt(_, _, t) => t.clone(),
            Expr::Le(_, _, t) => t.clone(),
            Expr::Ge(_, _, t) => t.clone(),
            Expr::If(_, _, _, t) => t.clone(),
            Expr::Call(_, _, t) => t.clone(),
            Expr::Field(_, _, t) => t.clone(),
            Expr::Constructor(_, _, t) => t.clone(),
        }
    }

    /// The operator and the operands, where the node is a binary operator's.
    pub fn as_binary(&self) -> (r: Option<(BinOp, &Expr, &Expr, &Type)>)
        ensures
            match r {
                Some((op, l, r, t)) => self@ == ExprView::Binary(
                    op,
                    Box::new(l@),
                    Box::new(r@),
                    t@,
                ),
                None => !(self@ is Binary),
            },
    {
        match self {
            Expr::Add(l, r, t) => Some((BinOp::Add, &**l, &**r, t)),
            Expr::Sub(l, r, t) => Some((BinOp::Sub, &**l, &**r, t)),
            Expr::Mul(l, r, t) => Some((BinOp::Mul, &**l, &**r, t)),
            Expr::Eq(l, r, t) => Some((BinOp::Eq, &**l, &**r, t)),
            Expr::Neq(l, r, t) => Some((BinOp::Neq, &**l, &**r, t)),
            Expr::Lt(l, r, t) => Some((BinOp::Lt, &**l, &**r, t)),
            Expr::Gt(l, r, t) => Some((BinOp::Gt, &**l, &**r, t)),
            Expr::Le(l, r, t) => Some((BinOp::Le, &**l, &**r, t)),
            Expr::Ge(l, r, t) => Some((BinOp::Ge, &**l, &**r, t)),
            _ => None,
        }
    }

    /// Builds the node of a binary operator.
    pub fn binary(op: BinOp, l: Expr, r: Expr, t: Type) -> (e: Expr)
        ensures
            e@ == ExprView::Binary(op, Box::new(l@), Box::new(r@), t@),
    {
        let l = Box::new(l);
        let r = Box::new(r);
        match op {
            BinOp::Add => Expr::Add(l, r, t),
            BinOp::Sub => Expr::Sub(l, r, t),
            BinOp::Mul => Expr::Mul(l, r, t),
            BinOp::Eq => Expr::Eq(l, r, t),
            BinOp::Neq => Expr::Neq(l, r, t),
            BinOp::Lt => Expr::Lt(l, r, t),
            BinOp::Gt => Expr::Gt(l, r, t),
            BinOp::Le => Expr::Le(l, r, t),
            BinOp::Ge => Expr::Ge(l, r, t),
        }
    }
}

/// A definition of the lowered program: a function of the source, or a thunk
/// that holds one argument of one call.
#[derive(Debug)]
pub struct Function {
    pub args: Vec<Type>,
    /// The obfuscated name of each parameter, at the parameter's position.
    pub arg_names: Vec<String>,
    pub ret_ty: Type,
    pub body: Expr,
    /// Whether this is a function of the source program, and no thunk.
    pub is_function: bool,
}

/// The mathematical model of a [`Function`].
pub struct FunctionView {
    pub args: Seq<TypeView>,
    pub arg_names: Seq<Seq<char>>,
    pub ret_ty: TypeView,
    pub body: ExprView,
    pub is_function: bool,
}

impl View for Function {
    type V = FunctionView;

    open spec fn view(&self) -> FunctionView {
        FunctionView {
            args: self.args.deep_view(),
            arg_names: self.arg_names.deep_view(),
            ret_ty: self.ret_ty@,
            body: self.body@,
            is_function: self.is_function,
        }
    }
}

impl DeepView for Function {
    type V = FunctionView;

    open spec fn deep_view(&self) -> FunctionView {
        self@
    }
}

impl Function {
    pub fn new(
        args: Vec<Type>,
        arg_names: Vec<String>,
        ret_ty: Type,
        body: Expr,
        is_function: bool,
    ) -> (f: Self)
        ensures
            f.args == args,
            f.arg_names == arg_names,
            f.ret_ty == ret_ty,
            f.body == body,
            f.is_function == is_function,
    {
        Self { args, arg_names, ret_ty, body, is_function }
    }
}

/// A struct of the lowered program.
#[derive(Debug)]
pub struct Struct {
    pub fields: Vec<Type>,
    /// The obfuscated name of each field, at the field's position.
    pub field_names: Vec<String>,
}

/// The mathematical model of a [`Struct`].
pub struct StructView {
    pub fields: Seq<TypeView>,
    pub field_names: Seq<Seq<char>>,
}

impl View for Struct {
    type V = StructView;

    open spec fn view(&self) -> StructView {
        StructView { fields: self.fields.deep_view(), field_names: self.field_names.deep_view() }
    }
}

impl DeepView for Struct {
    type V = StructView;

    open spec fn deep_view(&self) -> StructView {
        self@
    }
}

impl Struct {
    pub fn new(fields: Vec<Type>, field_names: Vec<String>) -> (s: Self)
        ensures
            s.fields == fields,
            s.field_names == field_names,
    {
        Self { fields, field_names }
    }
}

/// A lowered program: its definitions and its structs, each filed under its name.
#[derive(Debug)]
pub struct Program {
    pub functions: Vec<(String, Function)>,
    pub structs: Vec<(String, Struct)>,
}

/// The mathematical model of a [`Program`].
pub struct ProgramView {
    pub functions: Seq<(Seq<char>, FunctionView)>,
    pub structs: Seq<(Seq<char>, StructView)>,
}

impl View for Program {
    type V = ProgramView;

    open spec fn view(&self) -> ProgramView {
        ProgramView { functions: self.functions.deep_view(), structs: self.structs.deep_view() }
    }
}

impl Program {
    pub fn new(functions: Vec<(String, Function)>, structs: Vec<(String, Struct)>) -> (p: Self)
        ensures
            p.functions == functions,
            p.structs == structs,
    {
        Self { functions, structs }
    }
}

impl ProgramView {
    /// Every call in `e` names a definition of the program, and every
    /// constructor one of its structs.
    pub open spec fn resolves(self, e: ExprView) -> bool
        decreases e,
    {
        match e {
            ExprView::Binary(_, l, r, _) => self.resolves(*l) && self.resolves(*r),
            ExprView::If(c, t, e, _) => self.resolves(*c) && self.resolves(*t) && self.resolves(*e),
            ExprView::Field(e, _, _) => self.resolves(*e),
            ExprView::Call(name, _, _) => lookup(self.functions, name) is Some,
            ExprView::Constructor(name, _, _) => lookup(self.structs, name) is Some,
            _ => true,
        }
    }

    /// Every body of the program resolves.
    pub open spec fn closed(self) -> bool {
        forall|i: int| 0 <= i < self.functions.len() ==> self.resolves(self.functions[i].1.body)
    }
}

} // verus!
