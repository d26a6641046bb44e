//! The syntax tree of the source language, as the parser builds it.

use vstd::prelude::*;
use crate::loc::Loc;
use crate::op::BinOp;
use crate::table::{all_plain, distinct, keys};
use crate::ty::{Type, TypeView};

verus! {

/// An expression of the source language, as the parser builds it. Every node
/// carries the place in the source that diagnostics point to.
#[derive(Debug)]
pub enum Expr {
    Var(String, Loc),
    Num(i64, Loc),
    Bool(bool, Loc),
    Add(Box<Expr>, Box<Expr>, Loc),
    Sub(Box<Expr>, Box<Expr>, Loc),
    Mul(Box<Expr>, Box<Expr>, Loc),
    Eq(Box<Expr>, Box<Expr>, Loc),
    Neq(Box<Expr>, Box<Expr>, Loc),
    Lt(Box<Expr>, Box<Expr>, Loc),
    Gt(Box<Expr>, Box<Expr>, Loc),
    Le(Box<Expr>, Box<Expr>, Loc),
    Ge(Box<Expr>, Box<Expr>, Loc),
    If(Box<Expr>, Box<Expr>, Box<Expr>, Loc),
    Call(String, Vec<Expr>, Loc),
    Field(Box<Expr>, String, Loc),
    /// The struct and the value given to each field, in the order in which
    /// the fields were written.
    Constructor(String, Vec<(String, Expr)>, Loc),
}

/// The mathematical model of an [`Expr`].
pub enum ExprView {
    Var(Seq<char>, Loc),
    Num(int, Loc),
    Bool(bool, Loc),
    Binary(BinOp, Box<ExprView>, Box<ExprView>, Loc),
    If(Box<ExprView>, Box<ExprView>, Box<ExprView>, Loc),
    Call(Seq<char>, Seq<ExprView>, Loc),
    Field(Box<ExprView>, Seq<char>, Loc),
    Constructor(Seq<char>, Seq<(Seq<char>, ExprView)>, Loc),
}

impl Expr {
    /// The model of the expression: a node for each node.
    pub open spec fn model(&self) -> ExprView
        decreases self,
    {
        match self {
            Expr::Var(name, t) => ExprView::Var(name@, *t),
            Expr::Num(n, t) => ExprView::Num(*n as int, *t),
            Expr::Bool(b, t) => ExprView::Bool(*b, *t),
            Expr::Add(l, r, t) => ExprView::Binary(
                BinOp::Add,
                Box::new(l.model()),
                Box::new(r.model()),
                *t,
            ),
            Expr::Sub(l, r, t) => ExprView::Binary(
                BinOp::Sub,
                Box::new(l.model()),
                Box::new(r.model()),
                *t,
            ),
            Expr::Mul(l, r, t) => ExprView::Binary(
                BinOp::Mul,
                Box::new(l.model()),
                Box::new(r.model()),
                *t,
            ),
            Expr::Eq(l, r, t) => ExprView::Binary(
                BinOp::Eq,
                Box::new(l.model()),
                Box::new(r.model()),
                *t,
            ),
            Expr::Neq(l, r, t) => ExprView::Binary(
                BinOp::Neq,
                Box::new(l.model()),
                Box::new(r.model()),
                *t,
            ),
            Expr::Lt(l, r, t) => ExprView::Binary(
                BinOp::Lt,
                Box::new(l.model()),
                Box::new(r.model()),
                *t,
            ),
            Expr::Gt(l, r, t) => ExprView::Binary(
                BinOp::Gt,
                Box::new(l.model()),
                Box::new(r.model()),
                *t,
            ),
            Expr::Le(l, r, t) => ExprView::Binary(
                BinOp::Le,
                Box::new(l.model()),
                Box::new(r.model()),
                *t,
            ),
            Expr::Ge(l, r, t) => ExprView::Binary(
                BinOp::Ge,
                Box::new(l.model()),
                Box::new(r.model()),
                *t,
            ),
            Expr::If(c, th, el, t) => ExprView::If(
                Box::new(c.model()),
                Box::new(th.model()),
                Box::new(el.model()),
                *t,
            ),
            Expr::Call(name, args, t) => ExprView::Call(
                name@,
                Seq::new(
                    args@.len(),
                    |i: int|
                        if 0 <= i < args@.len() {
                            args@[i].model()
                        } else {
                            arbitrary()
                        },
                ),
                *t,
            ),
            Expr::Field(e, name, t) => ExprView::Field(Box::new(e.model()), name@, *t),
            Expr::Constructor(name, fields, t) => ExprView::Constructor(
                name@,
                Seq::new(
                    fields@.len(),
                    |i: int|
                        if 0 <= i < fields@.len() {
                            (fields@[i].0@, fields@[i].1.model())
                        } else {
                            arbitrary()
                        },
                ),
                *t,
            ),
        }
    }
}

impl View for Expr {
    type V = ExprView;

    open spec fn view(&self) -> ExprView {
        self.model()
    }
}

impl DeepView for Expr {
    type V = ExprView;

    open spec fn deep_view(&self) -> ExprView {
        self@
    }
}

/// The models of a list of expressions.
pub open spec fn models(es: Seq<Expr>) -> Seq<ExprView> {
    Seq::new(es.len(), |i: int| es[i]@)
}

/// The models of a list of named expressions.
pub open spec fn named_models(es: Seq<(String, Expr)>) -> Seq<(Seq<char>, ExprView)> {
    Seq::new(es.len(), |i: int| (es[i].0@, es[i].1@))
}
impl ExprView {
    /// The place that the node carries.
    pub open spec fn loc(self) -> Loc {
        match self {
            ExprView::Var(_, l) => l,
            ExprView::Num(_, l) => l,
            ExprView::Bool(_, l) => l,
            ExprView::Binary(_, _, _, l) => l,
            ExprView::If(_, _, _, l) => l,
            ExprView::Call(_, _, l) => l,
            ExprView::Field(_, _, l) => l,
            ExprView::Constructor(_, _, l) => l,
        }
    }
}

/// The view of a call's arguments is the list of their views.
pub proof fn lemma_call_model(name: String, args: Vec<Expr>, loc: Loc)
    ensures
        Expr::Call(name, args, loc)@ == ExprView::Call(name@, models(args@), loc),
{
    assert(Expr::Call(name, args, loc)@->Call_1 =~= models(args@));
}

/// The view of a constructor's fields is the list of their views.
pub proof fn lemma_constructor_model(name: String, fields: Vec<(String, Expr)>, loc: Loc)
    ensures
        Expr::Constructor(name, fields, loc)@ == ExprView::Constructor(
            name@,
            named_models(fields@),
            loc,
        ),
{
    assert(Expr::Constructor(name, fields, loc)@->Constructor_1 =~= named_models(fields@));
}

impl Expr {
    /// The operator, the operands and the place, where the node is a binary operator's.
    pub fn as_binary(&self) -> (r: Option<(BinOp, &Expr, &Expr, Loc)>)
        ensures
            match r {
                Some((op, l, r, loc)) => self@ == ExprView::Binary(
                    op,
                    Box::new(l@),
                    Box::new(r@),
                    loc,
                ),
                None => !(self@ is Binary),
            },
    {
        match self {
            Expr::Add(l, r, t) => Some((BinOp::Add, &**l, &**r, *t)),
            Expr::Sub(l, r, t) => Some((BinOp::Sub, &**l, &**r, *t)),
            Expr::Mul(l, r, t) => Some((BinOp::Mul, &**l, &**r, *t)),
            Expr::Eq(l, r, t) => Some((BinOp::Eq, &**l, &**r, *t)),
            Expr::Neq(l, r, t) => Some((BinOp::Neq, &**l, &**r, *t)),
            Expr::Lt(l, r, t) => Some((BinOp::Lt, &**l, &**r, *t)),
            Expr::Gt(l, r, t) => Some((BinOp::Gt, &**l, &**r, *t)),
            Expr::Le(l, r, t) => Some((BinOp::Le, &**l, &**r, *t)),
            Expr::Ge(l, r, t) => Some((BinOp::Ge, &**l, &**r, *t)),
            _ => None,
        }
    }

    /// Builds the node of a binary operator.
    pub fn binary(op: BinOp, l: Expr, r: Expr, loc: Loc) -> (e: Expr)
        ensures
            e@ == ExprView::Binary(op, Box::new(l@), Box::new(r@), loc),
    {
        let l = Box::new(l);
        let r = Box::new(r);
        match op {
            BinOp::Add => Expr::Add(l, r, loc),
            BinOp::Sub => Expr::Sub(l, r, loc),
            BinOp::Mul => Expr::Mul(l, r, loc),
            BinOp::Eq => Expr::Eq(l, r, loc),
            BinOp::Neq => Expr::Neq(l, r, loc),
            BinOp::Lt => Expr::Lt(l, r, loc),
            BinOp::Gt => Expr::Gt(l, r, loc),
            BinOp::Le => Expr::Le(l, r, loc),
            BinOp::Ge => Expr::Ge(l, r, loc),
        }
    }
}

/// A function of the source program.
#[derive(Debug)]
pub struct Function {
    pub args: Vec<Type>,
    /// The name of each parameter, at the parameter's position.
    pub arg_names: Vec<String>,
    pub ret_ty: Type,
    pub body: Expr,
    pub loc: Loc,
}

/// The mathematical model of a [`Function`].
pub struct FunctionView {
    pub args: Seq<TypeView>,
    pub arg_names: Seq<Seq<char>>,
    pub ret_ty: TypeView,
    pub body: ExprView,
    pub loc: Loc,
}

impl View for Function {
    type V = FunctionView;

    open spec fn view(&self) -> FunctionView {
        FunctionView {
            args: self.args.deep_view(),
            arg_names: self.arg_names.deep_view(),
            ret_ty: self.ret_ty@,
            body: self.body@,
            loc: self.loc,
        }
    }
}

impl DeepView for Function {
    type V = FunctionView;

    open spec fn deep_view(&self) -> FunctionView {
        self@
    }
}

impl Function {
    pub fn new(args: Vec<Type>, arg_names: Vec<String>, ret_ty: Type, body: Expr, loc: Loc) -> (f:
        Self)
        ensures
            f.args == args,
            f.arg_names == arg_names,
            f.ret_ty == ret_ty,
            f.body == body,
            f.loc == loc,
    {
        Self { args, arg_names, ret_ty, body, loc }
    }
}

/// A struct of the source program.
#[derive(Debug)]
pub struct Struct {
    pub fields: Vec<Type>,
    /// The name of each field, at the field's position.
    pub field_names: Vec<String>,
    pub loc: Loc,
}

/// The mathematical model of a [`Struct`].
pub struct StructView {
    pub fields: Seq<TypeView>,
    pub field_names: Seq<Seq<char>>,
    pub loc: Loc,
}

impl View for Struct {
    type V = StructView;

    open spec fn view(&self) -> StructView {
        StructView {
            fields: self.fields.deep_view(),
            field_names: self.field_names.deep_view(),
            loc: self.loc,
        }
    }
}

impl DeepView for Struct {
    type V = StructView;

    open spec fn deep_view(&self) -> StructView {
        self@
    }
}

impl Struct {
    pub fn new(fields: Vec<Type>, field_names: Vec<String>, loc: Loc) -> (s: Self)
        ensures
            s.fields == fields,
            s.field_names == field_names,
            s.loc == loc,
    {
        Self { fields, field_names, loc }
    }
}

/// A source program: its functions and its structs, each filed under its name,
/// in the order in which they were defined.
#[derive(Debug)]
pub struct Program {
    pub functions: Vec<(String, Function)>,
    pub structs: Vec<(String, Struct)>,
}

/// The mathematical model of a [`Program`].
pub struct ProgramView {
    pub functions: Seq<(Seq<char>, FunctionView)>,
    pub structs: Seq<(Seq<char>, StructView)>,
}

impl View for Program {
    type V = ProgramView;

    open spec fn view(&self) -> ProgramView {
        ProgramView { functions: self.functions.deep_view(), structs: self.structs.deep_view() }
    }
}

impl ExprView {
    /// No constructor in the expression gives a field twice.
    pub open spec fn wf(self) -> bool
        decreases self,
    {
        match self {
            ExprView::Binary(_, l, r, _) => l.wf() && r.wf(),
            ExprView::If(c, t, e, _) => c.wf() && t.wf() && e.wf(),
            ExprView::Call(_, args, _) => forall|i: int|
                0 <= i < args.len() ==> (#[trigger] args[i]).wf(),
            ExprView::Field(obj, _, _) => obj.wf(),
            ExprView::Constructor(_, fields, _) => distinct(keys(fields)) && forall|i: int|
                0 <= i < fields.len() ==> (#[trigger] fields[i]).1.wf(),
            _ => true,
        }
    }
}

impl FunctionView {
    /// Every parameter has a plain name and a type, no two have the same
    /// name, and the body is well formed.
    pub open spec fn wf(self) -> bool {
        self.args.len() == self.arg_names.len() && distinct(self.arg_names) && all_plain(
            self.arg_names,
        ) && self.body.wf()
    }
}

impl StructView {
    /// Every field has a plain name and a type, and no two have the same name.
    pub open spec fn wf(self) -> bool {
        self.fields.len() == self.field_names.len() && distinct(self.field_names) && all_plain(
            self.field_names,
        )
    }
}

impl ProgramView {
    /// Every name is plain, no name is defined twice, and every definition
    /// is well formed.
    pub open spec fn wf(self) -> bool {
        &&& distinct(keys(self.functions))
        &&& distinct(keys(self.structs))
        &&& all_plain(keys(self.functions))
        &&& all_plain(keys(self.structs))
        &&& forall|i: int, j: int|
            0 <= i < self.functions.len() && 0 <= j < self.structs.len() ==> (
            #[trigger] self.functions[i]).0 != (#[trigger] self.structs[j]).0
        &&& forall|i: int| 0 <= i < self.functions.len() ==> (#[trigger] self.functions[i]).1.wf()
        &&& forall|i: int| 0 <= i < self.structs.len() ==> (#[trigger] self.structs[i]).1.wf()
    }
}

impl Program {
    pub fn new(functions: Vec<(String, Function)>, structs: Vec<(String, Struct)>) -> (p: Self)
        ensures
            p.functions == functions,
            p.structs == structs,
    {
        Self { functions, structs }
    }
}

} // verus!
