//! The typed program: the syntax tree without its places, with a type on
//! every node.

use vstd::prelude::*;
use crate::op::BinOp;
use crate::table::{all_plain, distinct, first_index, keys, lookup, same_names};
use crate::ty::{binary_type, member_type, Type, TypeView};

verus! {

/// An expression of the typed language: the source expression without its
/// places, and with a type on every node.
#[derive(Debug)]
pub enum Expr {
    Var(String, Type),
    Num(i64, Type),
    Bool(bool, Type),
    Add(Box<Expr>, Box<Expr>, Type),
    Sub(Box<Expr>, Box<Expr>, Type),
    Mul(Box<Expr>, Box<Expr>, Type),
    Eq(Box<Expr>, Box<Expr>, Type),
    Neq(Box<Expr>, Box<Expr>, Type),
    Lt(Box<Expr>, Box<Expr>, Type),
    Gt(Box<Expr>, Box<Expr>, Type),
    Le(Box<Expr>, Box<Expr>, Type),
    Ge(Box<Expr>, Box<Expr>, Type),
    If(Box<Expr>, Box<Expr>, Box<Expr>, Type),
    Call(String, Vec<Expr>, Type),
    Field(Box<Expr>, String, Type),
    /// The struct and the value given to each field, in the order in which
    /// the fields were written.
    Constructor(String, Vec<(String, Expr)>, Type),
}

/// The mathematical model of an [`Expr`].
pub enum ExprView {
    Var(Seq<char>, TypeView),
    Num(int, TypeView),
    Bool(bool, TypeView),
    Binary(BinOp, Box<ExprView>, Box<ExprView>, TypeView),
    If(Box<ExprView>, Box<ExprView>, Box<ExprView>, TypeView),
    Call(Seq<char>, Seq<ExprView>, TypeView),
    Field(Box<ExprView>, Seq<char>, TypeView),
    Constructor(Seq<char>, Seq<(Seq<char>, ExprView)>, TypeView),
}

impl Expr {
    /// The model of the expression: a node for each node.
    pub open spec fn model(&self) -> ExprView
        decreases self,
    {
        match self {
            Expr::Var(name, t) => ExprView::Var(name@, t@),
            Expr::Num(n, t) => ExprView::Num(*n as int, t@),
            Expr::Bool(b, t) => ExprView::Bool(*b, t@),
            Expr::Add(l, r, t) => ExprView::Binary(
                BinOp::Add,
                Box::new(l.model()),
                Box::new(r.model()),
                t@,
            ),
            Expr::Sub(l, r, t) => ExprView::Binary(
                BinOp::Sub,
                Box::new(l.model()),
                Box::new(r.model()),
                t@,
            ),
            Expr::Mul(l, r, t) => ExprView::Binary(
                BinOp::Mul,
                Box::new(l.model()),
                Box::new(r.model()),
                t@,
            ),
            Expr::Eq(l, r, t) => ExprView::Binary(
                BinOp::Eq,
                Box::new(l.model()),
                Box::new(r.model()),
                t@,
            ),
            Expr::Neq(l, r, t) => ExprView::Binary(
                BinOp::Neq,
                Box::new(l.model()),
                Box::new(r.model()),
                t@,
            ),
            Expr::Lt(l, r, t) => ExprView::Binary(
                BinOp::Lt,
                Box::new(l.model()),
                Box::new(r.model()),
                t@,
            ),
            Expr::Gt(l, r, t) => ExprView::Binary(
                BinOp::Gt,
                Box::new(l.model()),
                Box::new(r.model()),
                t@,
            ),
            Expr::Le(l, r, t) => ExprView::Binary(
                BinOp::Le,
                Box::new(l.model()),
                Box::new(r.model()),
                t@,
            ),
            Expr::Ge(l, r, t) => ExprView::Binary(
                BinOp::Ge,
                Box::new(l.model()),
                Box::new(r.model()),
                t@,
            ),
            Expr::If(c, th, el, t) => ExprView::If(
                Box::new(c.model()),
                Box::new(th.model()),
                Box::new(el.model()),
                t@,
            ),
            Expr::Call(name, args, t) => ExprView::Call(
                name@,
                Seq::new(
                    args@.len(),
                    |i: int|
                        if 0 <= i < args@.len() {
                            args@[i].model()
                        } else {
                            arbitrary()
                        },
                ),
                t@,
            ),
            Expr::Field(e, name, t) => ExprView::Field(Box::new(e.model()), name@, t@),
            Expr::Constructor(name, fields, t) => ExprView::Constructor(
                name@,
                Seq::new(
                    fields@.len(),
                    |i: int|
                        if 0 <= i < fields@.len() {
                            (fields@[i].0@, fields@[i].1.model())
                        } else {
                            arbitrary()
                        },
                ),
                t@,
            ),
        }
    }
}

impl View for Expr {
    type V = ExprView;

    open spec fn view(&self) -> ExprView {
        self.model()
    }
}

impl DeepView for Expr {
    type V = ExprView;

    open spec fn deep_view(&self) -> ExprView {
        self@
    }
}

/// The models of a list of expressions.
pub open spec fn models(es: Seq<Expr>) -> Seq<ExprView> {
    Seq::new(es.len(), |i: int| es[i]@)
}

/// The models of a list of named expressions.
pub open spec fn named_models(es: Seq<(String, Expr)>) -> Seq<(Seq<char>, ExprView)> {
    Seq::new(es.len(), |i: int| (es[i].0@, es[i].1@))
}
impl ExprView {
    /// The type that the node carries.
    pub open spec fn ty(self) -> TypeView {
        match self {
            ExprView::Var(_, t) => t,
            ExprView::Num(_, t) => t,
            ExprView::Bool(_, t) => t,
            ExprView::Binary(_, _, _, t) => t,
            ExprView::If(_, _, _, t) => t,
            ExprView::Call(_, _, t) => t,
            ExprView::Field(_, _, t) => t,
            ExprView::Constructor(_, _, t) => t,
        }
    }
}

impl ExprView {
    /// The number of calls and constructors in the expression.
    pub open spec fn calls(self) -> nat
        decreases self, 0nat,
    {
        match self {
            ExprView::Binary(_, l, r, _) => l.calls() + r.calls(),
            ExprView::If(c, t, e, _) => c.calls() + t.calls() + e.calls(),
            ExprView::Call(_, args, _) => 1 + calls_in(args, args.len()),
            ExprView::Field(obj, _, _) => obj.calls(),
            ExprView::Constructor(_, fields, _) => 1 + calls_in_fields(fields, fields.len()),
            _ => 0,
        }
    }
}

/// The number of calls and constructors in the first `n` expressions of a list.
pub open spec fn calls_in(es: Seq<ExprView>, n: nat) -> nat
    decreases es, n,
{
    if n == 0 || n > es.len() {
        0
    } else {
        calls_in(es, (n - 1) as nat) + es[n - 1].calls()
    }
}

/// The number of calls and constructors in the first `n` values of a list of fields.
pub open spec fn calls_in_fields(fields: Seq<(Seq<char>, ExprView)>, n: nat) -> nat
    decreases fields, n,
{
    if n == 0 || n > fields.len() {
        0
    } else {
        calls_in_fields(fields, (n - 1) as nat) + fields[n - 1].1.calls()
    }
}

/// The view of a call's arguments is the list of their views.
pub proof fn lemma_call_model(name: String, args: Vec<Expr>, ty: Type)
    ensures
        Expr::Call(name, args, ty)@ == ExprView::Call(name@, models(args@), ty@),
{
    assert(Expr::Call(name, args, ty)@->Call_1 =~= models(args@));
}

/// The view of a constructor's fields is the list of their views.
pub proof fn lemma_constructor_model(name: String, fields: Vec<(String, Expr)>, ty: Type)
    ensures
        Expr::Constructor(name, fields, ty)@ == ExprView::Constructor(
            name@,
            named_models(fields@),
            ty@,
        ),
{
    assert(Expr::Constructor(name, fields, ty)@->Constructor_1 =~= named_models(fields@));
}

impl Expr {
    /// The type that the node carries.
    pub fn ty(&self) -> (t: Type)
        ensures
            t@ == self@.ty(),
    {
        match self {
            Expr::Var(_, t) => t.clone(),
            Expr::Num(_, t) => t.clone(),
            Expr::Bool(_, t) => t.clone(),
            Expr::Add(_, _, t) => t.clone(),
            Expr::Sub(_, _, t) => t.clone(),
            Expr::Mul(_, _, t) => t.clone(),
            Expr::Eq(_, _, t) => t.clone(),
            Expr::Neq(_, _, t) => t.clone(),
            Expr::Lt(_, _, t) => t.clone(),
            Expr::Gt(_, _, t) => t.clone(),
            Expr::Le(_, _, t) => t.clone(),
            Expr::Ge(_, _, t) => t.clone(),
            Expr::If(_, _, _, t) => t.clone(),
            Expr::Call(_, _, t) => t.clone(),
            Expr::Field(_, _, t) => t.clone(),
            Expr::Constructor(_, _, t) => t.clone(),
        }
    }

    /// The operator, the operands and the type, where the node is a binary operator's.
    pub fn as_binary(&self) -> (r: Option<(BinOp, &Expr, &Expr, &Type)>)
        ensures
            match r {
                Some((op, l, r, t)) => self@ == ExprView::Binary(
                    op,
                    Box::new(l@),
                    Box::new(r@),
                    t@,
                ),
                None => !(self@ is Binary),
            },
    {
        match self {
            Expr::Add(l, r, t) => Some((BinOp::Add, &**l, &**r, t)),
            Expr::Sub(l, r, t) => Some((BinOp::Sub, &**l, &**r, t)),
            Expr::Mul(l, r, t) => Some((BinOp::Mul, &**l, &**r, t)),
            Expr::Eq(l, r, t) => Some((BinOp::Eq, &**l, &**r, t)),
            Expr::Neq(l, r, t) => Some((BinOp::Neq, &**l, &**r, t)),
            Expr::Lt(l, r, t) => Some((BinOp::Lt, &**l, &**r, t)),
            Expr::Gt(l, r, t) => Some((BinOp::Gt, &**l, &**r, t)),
            Expr::Le(l, r, t) => Some((BinOp::Le, &**l, &**r, t)),
            Expr::Ge(l, r, t) => Some((BinOp::Ge, &**l, &**r, t)),
            _ => None,
        }
    }

    /// Builds the node of a binary operator.
    pub fn binary(op: BinOp, l: Expr, r: Expr, t: Type) -> (e: Expr)
        ensures
            e@ == ExprView::Binary(op, Box::new(l@), Box::new(r@), t@),
    {
        let l = Box::new(l);
        let r = Box::new(r);
        match op {
            BinOp::Add => Expr::Add(l, r, t),
            BinOp::Sub => Expr::Sub(l, r, t),
            BinOp::Mul => Expr::Mul(l, r, t),
            BinOp::Eq => Expr::Eq(l, r, t),
            BinOp::Neq => Expr::Neq(l, r, t),
            BinOp::Lt => Expr::Lt(l, r, t),
            BinOp::Gt => Expr::Gt(l, r, t),
            BinOp::Le => Expr::Le(l, r, t),
            BinOp::Ge => Expr::Ge(l, r, t),
        }
    }
}

/// A function of the typed program.
#[derive(Debug)]
pub struct Function {
    pub args: Vec<Type>,
    /// The name of each parameter, at the parameter's position.
    pub arg_names: Vec<String>,
    pub ret_ty: Type,
    pub body: Expr,
}

/// The mathematical model of a [`Function`].
pub struct FunctionView {
    pub args: Seq<TypeView>,
    pub arg_names: Seq<Seq<char>>,
    pub ret_ty: TypeView,
    pub body: ExprView,
}

impl View for Function {
    type V = FunctionView;

    open spec fn view(&self) -> FunctionView {
        FunctionView {
            args: self.args.deep_view(),
            arg_names: self.arg_names.deep_view(),
            ret_ty: self.ret_ty@,
            body: self.body@,
        }
    }
}

impl DeepView for Function {
    type V = FunctionView;

    open spec fn deep_view(&self) -> FunctionView {
        self@
    }
}

impl Function {
    pub fn new(args: Vec<Type>, arg_names: Vec<String>, ret_ty: Type, body: Expr) -> (f: Self)
        ensures
            f.args == args,
            f.arg_names == arg_names,
            f.ret_ty == ret_ty,
            f.body == body,
    {
        Self { args, arg_names, ret_ty, body }
    }
}

/// A struct of the typed program.
#[derive(Debug)]
pub struct Struct {
    pub fields: Vec<Type>,
    /// The name of each field, at the field's position.
    pub field_names: Vec<String>,
}

/// The mathematical model of a [`Struct`].
pub struct StructView {
    pub fields: Seq<TypeView>,
    pub field_names: Seq<Seq<char>>,
}

impl View for Struct {
    type V = StructView;

    open spec fn view(&self) -> StructView {
        StructView { fields: self.fields.deep_view(), field_names: self.field_names.deep_view() }
    }
}

impl DeepView for Struct {
    type V = StructView;

    open spec fn deep_view(&self) -> StructView {
        self@
    }
}

impl Struct {
    pub fn new(fields: Vec<Type>, field_names: Vec<String>) -> (s: Self)
        ensures
            s.fields == fields,
            s.field_names == field_names,
    {
        Self { fields, field_names }
    }
}

/// A typed program: its functions and its structs, each filed under its name.
#[derive(Debug)]
pub struct Program {
    pub functions: Vec<(String, Function)>,
    pub structs: Vec<(String, Struct)>,
}

/// The mathematical model of a [`Program`].
pub struct ProgramView {
    pub functions: Seq<(Seq<char>, FunctionView)>,
    pub structs: Seq<(Seq<char>, StructView)>,
}

impl View for Program {
    type V = ProgramView;

    open spec fn view(&self) -> ProgramView {
        ProgramView { functions: self.functions.deep_view(), structs: self.structs.deep_view() }
    }
}

impl FunctionView {
    /// Every parameter has a plain name and a type, and no two have the same name.
    pub open spec fn wf(self) -> bool {
        self.args.len() == self.arg_names.len() && distinct(self.arg_names) && all_plain(
            self.arg_names,
        )
    }
}

impl StructView {
    /// Every field has a plain name and a type, and no two have the same name.
    pub open spec fn wf(self) -> bool {
        self.fields.len() == self.field_names.len() && distinct(self.field_names) && all_plain(
            self.field_names,
        )
    }
}

impl ProgramView {
    /// Every name is plain, no name is defined twice, and every definition
    /// is well formed.
    pub open spec fn wf(self) -> bool {
        &&& distinct(keys(self.functions))
        &&& distinct(keys(self.structs))
        &&& all_plain(keys(self.functions))
        &&& all_plain(keys(self.structs))
        &&& forall|i: int, j: int|
            0 <= i < self.functions.len() && 0 <= j < self.structs.len() ==> (
            #[trigger] self.functions[i]).0 != (#[trigger] self.structs[j]).0
        &&& forall|i: int| 0 <= i < self.functions.len() ==> (#[trigger] self.functions[i]).1.wf()
        &&& forall|i: int| 0 <= i < self.structs.len() ==> (#[trigger] self.structs[i]).1.wf()
    }

    /// The typing rules hold of every node of `e`, an expression in the body
    /// of a function with the given parameters.
    pub open spec fn typed(
        self,
        arg_names: Seq<Seq<char>>,
        args: Seq<TypeView>,
        e: ExprView,
    ) -> bool
        decreases e,
    {
        match e {
            ExprView::Var(name, t) => match first_index(arg_names, name) {
                Some(i) => member_type(arg_names, args, name) == Some(t),
                None => lookup(self.functions, name) matches Some(g) && g.args.len() == 0 && t
                    == g.ret_ty,
            },
            ExprView::Num(_, t) => t is Int,
            ExprView::Bool(_, t) => t is Bool,
            ExprView::Binary(op, l, r, t) => self.typed(arg_names, args, *l) && self.typed(
                arg_names,
                args,
                *r,
            ) && binary_type(op, l.ty(), r.ty()) == Some(t),
            ExprView::If(c, th, el, t) => self.typed(arg_names, args, *c) && self.typed(
                arg_names,
                args,
                *th,
            ) && self.typed(arg_names, args, *el) && c.ty() is Bool && th.ty() == t && el.ty()
                == t,
            ExprView::Call(name, actuals, t) => lookup(self.functions, name) matches Some(g)
                && actuals.len() == g.args.len() && t == g.ret_ty && forall|i: int|
                0 <= i < actuals.len() ==> self.typed(arg_names, args, #[trigger] actuals[i])
                    && actuals[i].ty() == g.args[i],
            ExprView::Field(obj, field, t) => {
                &&& self.typed(arg_names, args, *obj)
                &&& obj.ty() matches TypeView::Struct(s)
                &&& lookup(self.structs, s) matches Some(sd)
                &&& member_type(sd.field_names, sd.fields, field) == Some(t)
            },
            ExprView::Constructor(name, fields, t) => lookup(self.structs, name) matches Some(sd)
                && t == TypeView::Struct(name) && same_names(sd.field_names, keys(fields))
                && forall|i: int|
                0 <= i < fields.len() ==> self.typed(arg_names, args, (#[trigger] fields[i]).1)
                    && member_type(sd.field_names, sd.fields, fields[i].0) == Some(
                    fields[i].1.ty(),
                ),
        }
    }

    /// The program is well formed, and every body obeys the typing rules and
    /// has the type that its function declares.
    pub open spec fn valid(self) -> bool {
        &&& self.wf()
        &&& forall|i: int|
            0 <= i < self.functions.len() ==> {
                let f = (#[trigger] self.functions[i]).1;
                self.typed(f.arg_names, f.args, f.body) && f.body.ty() == f.ret_ty
            }
    }
}

impl Program {
    pub fn new(functions: Vec<(String, Function)>, structs: Vec<(String, Struct)>) -> (p: Self)
        ensures
            p.functions == functions,
            p.structs == structs,
    {
        Self { functions, structs }
    }
}

} // verus!
