//! The type checker: the typing rules of the language, and the stage that
//! holds a program to them.

use vstd::prelude::*;
use vstd::string::*;
use crate::diag::{first_of, push_type, type_text, Diagnostic, DiagnosticView, Fault, Stage};
use crate::fl;
use crate::loc::Loc;
use crate::op::BinOp;
use crate::fl::{models, named_models};
use crate::table::{
    clone_names, entry_names, find_entry, find_name, first_index, keys, lemma_first_index, lookup,
    same_names, same_names_in,
};
use crate::tir;
use crate::ty::{binary_type, clone_types, member_type, Type, TypeView};

verus! {

/// The type of a variable in the body of `f`: that of the parameter of this
/// name, else what the function of this name returns, which must take no
/// parameters.
pub open spec fn var_type(p: fl::ProgramView, f: fl::FunctionView, name: Seq<char>) -> Option<
    TypeView,
> {
    match first_index(f.arg_names, name) {
        Some(i) => member_type(f.arg_names, f.args, name),
        None => match lookup(p.functions, name) {
            Some(g) => if g.args.len() == 0 {
                Some(g.ret_ty)
            } else {
                None
            },
            None => None,
        },
    }
}

/// The typed form of `e` in the body of `f`, where the typing rules accept it.
pub open spec fn elab(p: fl::ProgramView, f: fl::FunctionView, e: fl::ExprView) -> Option<
    tir::ExprView,
>
    decreases e,
{
    match e {
        fl::ExprView::Var(name, _) => match var_type(p, f, name) {
            Some(t) => Some(tir::ExprView::Var(name, t)),
            None => None,
        },
        fl::ExprView::Num(n, _) => Some(tir::ExprView::Num(n, TypeView::Int)),
        fl::ExprView::Bool(b, _) => Some(tir::ExprView::Bool(b, TypeView::Bool)),
        fl::ExprView::Binary(op, l, r, _) => match (elab(p, f, *l), elab(p, f, *r)) {
            (Some(tl), Some(tr)) => match binary_type(op, tl.ty(), tr.ty()) {
                Some(t) => Some(tir::ExprView::Binary(op, Box::new(tl), Box::new(tr), t)),
                None => None,
            },
            _ => None,
        },
        fl::ExprView::If(c, th, el, _) => match (elab(p, f, *c), elab(p, f, *th), elab(p, f, *el)) {
            (Some(tc), Some(tt), Some(te)) => if tc.ty() is Bool && tt.ty() == te.ty() {
                Some(tir::ExprView::If(Box::new(tc), Box::new(tt), Box::new(te), tt.ty()))
            } else {
                None
            },
            _ => None,
        },
        fl::ExprView::Call(name, args, _) => match lookup(p.functions, name) {
            Some(g) => if args.len() == g.args.len() && (forall|i: int|
                0 <= i < args.len() ==> elab(p, f, #[trigger] args[i]) is Some && elab(
                    p,
                    f,
                    args[i],
                )->0.ty() == g.args[i]) {
                Some(
                    tir::ExprView::Call(
                        name,
                        Seq::new(
                            args.len(),
                            |i: int|
                                if 0 <= i < args.len() {
                                    elab(p, f, args[i])->0
                                } else {
                                    arbitrary()
                                },
                        ),
                        g.ret_ty,
                    ),
                )
            } else {
                None
            },
            None => None,
        },
        fl::ExprView::Field(obj, field, _) => match elab(p, f, *obj) {
            Some(to) => match to.ty() {
                TypeView::Struct(s) => match lookup(p.structs, s) {
                    Some(sd) => match member_type(sd.field_names, sd.fields, field) {
                        Some(t) => Some(tir::ExprView::Field(Box::new(to), field, t)),
                        None => None,
                    },
                    None => None,
                },
                _ => None,
            },
            None => None,
        },
        fl::ExprView::Constructor(name, fields, _) => match lookup(p.structs, name) {
            Some(sd) => if same_names(sd.field_names, keys(fields)) && (forall|i: int|
                0 <= i < fields.len() ==> elab(p, f, (#[trigger] fields[i]).1) is Some
                    && member_type(sd.field_names, sd.fields, fields[i].0) == Some(elab(p, f, fields[i].1)->0.ty())) {
                Some(
                    tir::ExprView::Constructor(
                        name,
                        Seq::new(
                            fields.len(),
                            |i: int|
                                if 0 <= i < fields.len() {
                                    (fields[i].0, elab(p, f, fields[i].1)->0)
                                } else {
                                    arbitrary()
                                },
                        ),
                        TypeView::Struct(name),
                    ),
                )
            } else {
                None
            },
            None => None,
        },
    }
}

/// The typed form of a function, where its body can be typed and has the type
/// that the function declares.
pub open spec fn elab_function(p: fl::ProgramView, f: fl::FunctionView) -> Option<
    tir::FunctionView,
> {
    match elab(p, f, f.body) {
        Some(body) => if body.ty() == f.ret_ty {
            Some(
                tir::FunctionView { args: f.args, arg_names: f.arg_names, ret_ty: f.ret_ty, body },
            )
        } else {
            None
        },
        None => None,
    }
}

/// The typed form of a struct: the struct without its place.
pub open spec fn elab_struct(s: fl::StructView) -> tir::StructView {
    tir::StructView { fields: s.fields, field_names: s.field_names }
}

/// Every function of the program can be typed.
pub open spec fn well_typed(p: fl::ProgramView) -> bool {
    forall|i: int|
        0 <= i < p.functions.len() ==> elab_function(p, (#[trigger] p.functions[i]).1) is Some
}

/// The typed form of a program that is well typed.
pub open spec fn elab_program(p: fl::ProgramView) -> tir::ProgramView {
    tir::ProgramView {
        functions: Seq::new(
            p.functions.len(),
            |i: int| (p.functions[i].0, elab_function(p, p.functions[i].1)->0),
        ),
        structs: Seq::new(p.structs.len(), |i: int| (p.structs[i].0, elab_struct(p.structs[i].1))),
    }
}


/// A name is filed in the typed program where it is filed in the source
/// program, with the same signature.
pub proof fn lemma_elab_lookup(p: fl::ProgramView, name: Seq<char>)
    requires
        well_typed(p),
    ensures
        match lookup(p.functions, name) {
            Some(g) => lookup(elab_program(p).functions, name) matches Some(tg) && tg.args
                == g.args && tg.arg_names == g.arg_names && tg.ret_ty == g.ret_ty,
            None => lookup(elab_program(p).functions, name) is None,
        },
        match lookup(p.structs, name) {
            Some(s) => lookup(elab_program(p).structs, name) == Some(elab_struct(s)),
            None => lookup(elab_program(p).structs, name) is None,
        },
{
    assert(keys(elab_program(p).functions) =~= keys(p.functions));
    assert(keys(elab_program(p).structs) =~= keys(p.structs));
    lemma_first_index(keys(p.functions), name);
    lemma_first_index(keys(p.structs), name);
    match first_index(keys(p.functions), name) {
        Some(i) => {
            assert(elab_function(p, p.functions[i].1) is Some);
        },
        None => {},
    }
}

/// What the typing rules accept obeys them: every node of the typed form
/// carries the type that the rules give it.
pub proof fn lemma_elab_typed(p: fl::ProgramView, f: fl::FunctionView, e: fl::ExprView)
    requires
        well_typed(p),
        elab(p, f, e) is Some,
    ensures
        elab_program(p).typed(f.arg_names, f.args, elab(p, f, e)->0),
    decreases e,
{
    let tp = elab_program(p);
    let te = elab(p, f, e)->0;
    match e {
        fl::ExprView::Var(name, _) => {
            lemma_elab_lookup(p, name);
        },
        fl::ExprView::Num(n, _) => {},
        fl::ExprView::Bool(b, _) => {},
        fl::ExprView::Binary(op, l, r, _) => {
            lemma_elab_typed(p, f, *l);
            lemma_elab_typed(p, f, *r);
        },
        fl::ExprView::If(c, th, el, _) => {
            lemma_elab_typed(p, f, *c);
            lemma_elab_typed(p, f, *th);
            lemma_elab_typed(p, f, *el);
        },
        fl::ExprView::Call(name, args, _) => {
            lemma_elab_lookup(p, name);
            let g = lookup(p.functions, name)->0;
            let actuals = te->Call_1;
            assert forall|i: int| 0 <= i < actuals.len() implies tp.typed(
                f.arg_names,
                f.args,
                #[trigger] actuals[i],
            ) && actuals[i].ty() == g.args[i] by {
                assert(elab(p, f, args[i]) is Some);
                lemma_elab_typed(p, f, args[i]);
            }
        },
        fl::ExprView::Field(obj, field, _) => {
            lemma_elab_typed(p, f, *obj);
            let to = elab(p, f, *obj)->0;
            lemma_elab_lookup(p, to.ty()->Struct_0);
        },
        fl::ExprView::Constructor(name, fields, _) => {
            lemma_elab_lookup(p, name);
            let sd = lookup(p.structs, name)->0;
            let typed_fields = te->Constructor_1;
            assert(keys(typed_fields) =~= keys(fields));
            assert forall|i: int| 0 <= i < typed_fields.len() implies tp.typed(
                f.arg_names,
                f.args,
                (#[trigger] typed_fields[i]).1,
            ) && member_type(sd.field_names, sd.fields, typed_fields[i].0) == Some(
                typed_fields[i].1.ty(),
            ) by {
                assert(elab(p, f, fields[i].1) is Some);
                lemma_elab_typed(p, f, fields[i].1);
            }
        },
    }
}

/// The typed form of a well-formed program that the typing rules accept is
/// well formed, and every body in it obeys the typing rules and has the type
/// that its function declares.
pub proof fn lemma_elab_program_valid(p: fl::ProgramView)
    requires
        p.wf(),
        well_typed(p),
    ensures
        elab_program(p).valid(),
{
    let tp = elab_program(p);
    assert(keys(tp.functions) =~= keys(p.functions));
    assert(keys(tp.structs) =~= keys(p.structs));
    assert forall|i: int| 0 <= i < tp.functions.len() implies {
        let f = (#[trigger] tp.functions[i]).1;
        f.wf() && tp.typed(f.arg_names, f.args, f.body) && f.body.ty() == f.ret_ty
    } by {
        let sf = p.functions[i].1;
        assert(sf.wf());
        assert(elab_function(p, sf) is Some);
        lemma_elab_typed(p, sf, sf.body);
    }
    assert forall|i: int| 0 <= i < tp.structs.len() implies (#[trigger] tp.structs[i]).1.wf() by {
        assert(p.structs[i].1.wf());
    }
    assert forall|i: int, j: int|
        0 <= i < tp.functions.len() && 0 <= j < tp.structs.len() implies (
    #[trigger] tp.functions[i]).0 != (#[trigger] tp.structs[j]).0 by {
        assert(p.functions[i].0 != p.structs[j].0);
    }
}

/// A report of the type checker.
pub open spec fn ill(loc: Loc, message: Seq<char>) -> DiagnosticView {
    DiagnosticView { fault: Fault::IllTyped, loc, message }
}

/// What is said of a binary operation that its operands do not allow.
pub open spec fn binary_text(op: BinOp, l: TypeView, r: TypeView) -> Seq<char> {
    match op {
        BinOp::Add => "Cannot add "@ + type_text(l) + " and "@ + type_text(r) + ""@,
        BinOp::Sub => "Cannot subtract "@ + type_text(l) + " and "@ + type_text(r) + ""@,
        BinOp::Mul => "Cannot multiply "@ + type_text(l) + " and "@ + type_text(r) + ""@,
        BinOp::Eq => "Cannot compare "@ + type_text(l) + " and "@ + type_text(r)
            + " (can only compare same *base* types with '==')"@,
        BinOp::Neq => "Cannot compare "@ + type_text(l) + " and "@ + type_text(r)
            + " (can only compare same *base* types with '!=')"@,
        _ => "Cannot compare "@ + type_text(l) + " and "@ + type_text(r) + ""@,
    }
}

/// What the type checker reports of a variable, if anything.
pub open spec fn var_report(p: fl::ProgramView, f: fl::FunctionView, name: Seq<char>, loc: Loc) -> Option<
    DiagnosticView,
> {
    match first_index(f.arg_names, name) {
        Some(i) => if i < f.args.len() {
            None
        } else {
            Some(ill(loc, "Parameter "@ + name + " has no type"@))
        },
        None => match lookup(p.functions, name) {
            Some(g) => if g.args.len() == 0 {
                None
            } else {
                Some(ill(loc, "Function "@ + name + " is used as a variable"@))
            },
            None => Some(ill(loc, "Variable "@ + name + " has no type"@)),
        },
    }
}

/// What the type checker reports of an expression in the body of `f`: the
/// first thing that it cannot type, where operands come before the node
/// that holds them, from left to right. The condition of a conditional is
/// held to be a truth value before the branches are looked at.
pub open spec fn elab_report(p: fl::ProgramView, f: fl::FunctionView, e: fl::ExprView) -> Option<
    DiagnosticView,
>
    decreases e, 0nat,
{
    match e {
        fl::ExprView::Var(name, loc) => var_report(p, f, name, loc),
        fl::ExprView::Num(_, _) => None,
        fl::ExprView::Bool(_, _) => None,
        fl::ExprView::Binary(op, l, r, loc) => first_of(
            elab_report(p, f, *l),
            first_of(
                elab_report(p, f, *r),
                if binary_type(op, elab(p, f, *l)->0.ty(), elab(p, f, *r)->0.ty()) is Some {
                    None
                } else {
                    Some(
                        ill(
                            loc,
                            binary_text(op, elab(p, f, *l)->0.ty(), elab(p, f, *r)->0.ty()),
                        ),
                    )
                },
            ),
        ),
        fl::ExprView::If(c, th, el, loc) => first_of(
            elab_report(p, f, *c),
            first_of(
                if elab(p, f, *c)->0.ty() is Bool {
                    None
                } else {
                    Some(
                        ill(
                            loc,
                            "Cannot use "@ + type_text(elab(p, f, *c)->0.ty())
                                + " as a condition"@,
                        ),
                    )
                },
                first_of(
                    elab_report(p, f, *th),
                    first_of(
                        elab_report(p, f, *el),
                        if elab(p, f, *th)->0.ty() == elab(p, f, *el)->0.ty() {
                            None
                        } else {
                            Some(
                                ill(
                                    loc,
                                    "Branches of if expression must be of same type (got "@
                                        + type_text(elab(p, f, *th)->0.ty()) + " and "@
                                        + type_text(elab(p, f, *el)->0.ty()) + ")"@,
                                ),
                            )
                        },
                    ),
                ),
            ),
        ),
        fl::ExprView::Call(name, args, loc) => match lookup(p.functions, name) {
            None => Some(ill(loc, "Function "@ + name + " has no type"@)),
            Some(g) => if args.len() != g.args.len() {
                Some(
                    ill(
                        loc,
                        "Function "@ + name + " is called with the wrong number of arguments"@,
                    ),
                )
            } else {
                args_report(p, f, name, g.args, args, loc, args.len())
            },
        },
        fl::ExprView::Field(obj, field, loc) => first_of(
            elab_report(p, f, *obj),
            match elab(p, f, *obj)->0.ty() {
                TypeView::Struct(s) => match lookup(p.structs, s) {
                    None => Some(ill(loc, "Struct "@ + s + " is undefined"@)),
                    Some(sd) => match first_index(sd.field_names, field) {
                        Some(k) => if k < sd.fields.len() {
                            None
                        } else {
                            Some(ill(loc, "Field "@ + field + " has no type"@))
                        },
                        None => Some(ill(loc, "Struct "@ + s + " has no field "@ + field)),
                    },
                },
                t => Some(ill(loc, "'.' operator used on non-struct type "@ + type_text(t))),
            },
        ),
        fl::ExprView::Constructor(name, fields, loc) => match lookup(p.structs, name) {
            None => Some(ill(loc, "Struct "@ + name + " is undefined"@)),
            Some(sd) => if !same_names(sd.field_names, keys(fields)) {
                Some(
                    ill(loc, "Constructor "@ + name + " does not give the struct's fields"@),
                )
            } else {
                fields_report(p, f, name, sd, fields, loc, fields.len())
            },
        },
    }
}

/// What the type checker reports of the first `n` arguments of a call of
/// `name`, whose parameters have the types `formals`.
pub open spec fn args_report(
    p: fl::ProgramView,
    f: fl::FunctionView,
    name: Seq<char>,
    formals: Seq<TypeView>,
    args: Seq<fl::ExprView>,
    loc: Loc,
    n: nat,
) -> Option<DiagnosticView>
    decreases args, n,
{
    if n == 0 || n > args.len() {
        None
    } else {
        first_of(
            args_report(p, f, name, formals, args, loc, (n - 1) as nat),
            first_of(
                elab_report(p, f, args[n - 1]),
                if elab(p, f, args[n - 1])->0.ty() == formals[n - 1] {
                    None
                } else {
                    Some(
                        ill(
                            loc,
                            "An argument of function "@ + name + " has type "@ + type_text(
                                elab(p, f, args[n - 1])->0.ty(),
                            ) + " but should have type "@ + type_text(formals[n - 1]),
                        ),
                    )
                },
            ),
        )
    }
}

/// What the type checker reports of the first `n` values of a constructor
/// of the struct `sd`, called `name`.
pub open spec fn fields_report(
    p: fl::ProgramView,
    f: fl::FunctionView,
    name: Seq<char>,
    sd: fl::StructView,
    fields: Seq<(Seq<char>, fl::ExprView)>,
    loc: Loc,
    n: nat,
) -> Option<DiagnosticView>
    decreases fields, n,
{
    if n == 0 || n > fields.len() {
        None
    } else {
        first_of(
            fields_report(p, f, name, sd, fields, loc, (n - 1) as nat),
            first_of(
                elab_report(p, f, fields[n - 1].1),
                if member_type(sd.field_names, sd.fields, fields[n - 1].0) == Some(
                    elab(p, f, fields[n - 1].1)->0.ty(),
                ) {
                    None
                } else {
                    Some(
                        ill(
                            loc,
                            "Field "@ + fields[n - 1].0 + " of constructor "@ + name
                                + " has type "@ + type_text(elab(p, f, fields[n - 1].1)->0.ty()),
                        ),
                    )
                },
            ),
        )
    }
}

/// What the type checker reports of a function called `name`: what it
/// reports of the body, or that the body has another type than declared.
pub open spec fn function_report(p: fl::ProgramView, name: Seq<char>, f: fl::FunctionView) -> Option<
    DiagnosticView,
> {
    first_of(
        elab_report(p, f, f.body),
        if elab(p, f, f.body)->0.ty() == f.ret_ty {
            None
        } else {
            Some(
                ill(
                    f.loc,
                    "Function "@ + name + " has return type "@ + type_text(f.ret_ty)
                        + " but returns "@ + type_text(elab(p, f, f.body)->0.ty()),
                ),
            )
        },
    )
}

/// What the type checker reports of the first `n` functions of a program.
pub open spec fn functions_report(p: fl::ProgramView, n: nat) -> Option<DiagnosticView>
    decreases n,
{
    if n == 0 || n > p.functions.len() {
        None
    } else {
        first_of(
            functions_report(p, (n - 1) as nat),
            function_report(p, p.functions[n - 1].0, p.functions[n - 1].1),
        )
    }
}

/// What the type checker reports of a program, if anything.
pub open spec fn typecheck_report(p: fl::ProgramView) -> Option<DiagnosticView> {
    functions_report(p, p.functions.len())
}

/// A report that the first arguments give is the report of all of them.
pub proof fn lemma_args_report_stays(
    p: fl::ProgramView,
    f: fl::FunctionView,
    name: Seq<char>,
    formals: Seq<TypeView>,
    args: Seq<fl::ExprView>,
    loc: Loc,
    m: nat,
    n: nat,
)
    requires
        m <= n <= args.len(),
        args_report(p, f, name, formals, args, loc, m) is Some,
    ensures
        args_report(p, f, name, formals, args, loc, n) == args_report(
            p,
            f,
            name,
            formals,
            args,
            loc,
            m,
        ),
    decreases n,
{
    if m < n {
        lemma_args_report_stays(p, f, name, formals, args, loc, m, (n - 1) as nat);
    }
}

/// A report that the first values give is the report of all of them.
pub proof fn lemma_fields_report_stays(
    p: fl::ProgramView,
    f: fl::FunctionView,
    name: Seq<char>,
    sd: fl::StructView,
    fields: Seq<(Seq<char>, fl::ExprView)>,
    loc: Loc,
    m: nat,
    n: nat,
)
    requires
        m <= n <= fields.len(),
        fields_report(p, f, name, sd, fields, loc, m) is Some,
    ensures
        fields_report(p, f, name, sd, fields, loc, n) == fields_report(
            p,
            f,
            name,
            sd,
            fields,
            loc,
            m,
        ),
    decreases n,
{
    if m < n {
        lemma_fields_report_stays(p, f, name, sd, fields, loc, m, (n - 1) as nat);
    }
}

/// A report that the first functions give is the report of all of them.
pub proof fn lemma_functions_report_stays(p: fl::ProgramView, m: nat, n: nat)
    requires
        m <= n <= p.functions.len(),
        functions_report(p, m) is Some,
    ensures
        functions_report(p, n) == functions_report(p, m),
    decreases n,
{
    if m < n {
        lemma_functions_report_stays(p, m, (n - 1) as nat);
    }
}

fn ill_typed(loc: Loc, message: String) -> (d: Diagnostic)
    ensures
        d@ == ill(loc, message@),
        d.fault.stage() == Stage::Type,
{
    Diagnostic::new(Fault::IllTyped, loc, message)
}

/// A message that names two types.
fn about_types(before: &str, a: &Type, between: &str, b: &Type, after: &str) -> (s: String)
    ensures
        s@ == before@ + type_text(a@) + between@ + type_text(b@) + after@,
{
    let mut s = String::from_str(before);
    push_type(&mut s, a);
    s.append(between);
    push_type(&mut s, b);
    s.append(after);
    s
}

/// A message that names one thing.
fn about_name(before: &str, name: &String, after: &str) -> (s: String)
    ensures
        s@ == before@ + name@ + after@,
{
    let mut s = String::from_str(before);
    s.append(name.as_str());
    s.append(after);
    s
}

/// What the operator of a binary operation gives on operands of these types.
fn binary_result(op: BinOp, l: &Type, r: &Type) -> (t: Option<Type>)
    ensures
        match t {
            Some(t) => binary_type(op, l@, r@) == Some(t@),
            None => binary_type(op, l@, r@) is None,
        },
{
    match op {
        BinOp::Add | BinOp::Sub | BinOp::Mul => {
            if matches!(l, Type::Int) && matches!(r, Type::Int) {
                Some(Type::Int)
            } else {
                None
            }
        },
        BinOp::Lt | BinOp::Gt | BinOp::Le | BinOp::Ge => {
            if matches!(l, Type::Int) && matches!(r, Type::Int) {
                Some(Type::Bool)
            } else {
                None
            }
        },
        BinOp::Eq | BinOp::Neq => {
            if *l == *r && l.is_base_type() {
                Some(Type::Bool)
            } else {
                None
            }
        },
    }
}

fn binary_message(op: BinOp, l: &Type, r: &Type) -> (s: String)
    ensures
        s@ == binary_text(op, l@, r@),
{
    match op {
        BinOp::Add => about_types("Cannot add ", l, " and ", r, ""),
        BinOp::Sub => about_types("Cannot subtract ", l, " and ", r, ""),
        BinOp::Mul => about_types("Cannot multiply ", l, " and ", r, ""),
        BinOp::Eq => about_types(
            "Cannot compare ",
            l,
            " and ",
            r,
            " (can only compare same *base* types with '==')",
        ),
        BinOp::Neq => about_types(
            "Cannot compare ",
            l,
            " and ",
            r,
            " (can only compare same *base* types with '!=')",
        ),
        _ => about_types("Cannot compare ", l, " and ", r, ""),
    }
}

/// Types a call: the callee is defined, it has as many parameters as the call
/// has arguments, and each argument has its parameter's type.
#[verifier::loop_isolation(false)]
fn make_call(
    program: &fl::Program,
    function: &fl::Function,
    expr: &fl::Expr,
    name: &String,
    args: &Vec<fl::Expr>,
    loc: Loc,
) -> (r: Result<tir::Expr, Diagnostic>)
    requires
        *expr == fl::Expr::Call(*name, *args, loc),
    ensures
        match r {
            Ok(te) => elab(program@, function@, expr@) == Some(te@) && elab_report(
                program@,
                function@,
                expr@,
            ) is None,
            Err(d) => elab(program@, function@, expr@) is None && d.fault.stage() == Stage::Type
                && elab_report(program@, function@, expr@) == Some(d@),
        },
    decreases expr@, 0nat,
{
    proof {
        fl::lemma_call_model(*name, *args, loc);
        assert(expr@ == fl::ExprView::Call(name@, models(args@), loc));
    }
    let ghost all = models(args@);
    let fi = match find_entry(&program.functions, name) {
        Some(fi) => fi,
        None => {
            return Err(ill_typed(loc, about_name("Function ", name, " has no type")));
        },
    };
    let callee = &program.functions[fi].1;
    if callee.args.len() != args.len() {
        return Err(
            ill_typed(
                loc,
                about_name("Function ", name, " is called with the wrong number of arguments"),
            ),
        );
    }
    let mut typed_args: Vec<tir::Expr> = Vec::new();
    let mut i: usize = 0;
    while i < args.len()
        invariant
            i <= args.len(),
            typed_args.len() == i,
            forall|j: int|
                0 <= j < i ==> elab(program@, function@, #[trigger] args[j]@) == Some(
                    typed_args[j]@,
                ) && typed_args[j]@.ty() == callee@.args[j],
            args_report(program@, function@, name@, callee@.args, all, loc, i as nat) is None,
        decreases args.len() - i,
    {
        assert(all[i as int] == args[i as int]@);
        let typed_arg = match make_expr(program, function, &args[i]) {
            Ok(t) => t,
            Err(d) => {
                assert(elab(program@, function@, all[i as int]) is None);
                proof {
                    lemma_args_report_stays(
                        program@,
                        function@,
                        name@,
                        callee@.args,
                        all,
                        loc,
                        (i + 1) as nat,
                        args.len() as nat,
                    );
                }
                return Err(d);
            },
        };
        let at = typed_arg.ty();
        if !(at == callee.args[i]) {
            assert(elab(program@, function@, all[i as int]) is Some);
            let mut m = about_name("An argument of function ", name, " has type ");
            push_type(&mut m, &at);
            m.append(" but should have type ");
            push_type(&mut m, &callee.args[i]);
            proof {
                lemma_args_report_stays(
                    program@,
                    function@,
                    name@,
                    callee@.args,
                    all,
                    loc,
                    (i + 1) as nat,
                    args.len() as nat,
                );
            }
            return Err(ill_typed(loc, m));
        }
        typed_args.push(typed_arg);
        i += 1;
    }
    let ghost typed = elab(program@, function@, expr@)->0;
    let t = callee.ret_ty.clone();
    proof {
        assert forall|j: int| 0 <= j < args.len() implies elab(
            program@,
            function@,
            #[trigger] all[j],
        ) is Some && elab(program@, function@, all[j])->0.ty() == callee@.args[j] by {
            assert(elab(program@, function@, args[j]@) == Some(typed_args[j]@));
        }
        tir::lemma_call_model(*name, typed_args, t);
        assert(typed->Call_1 =~= tir::models(typed_args@));
    }
    Ok(tir::Expr::Call(name.clone(), typed_args, t))
}

/// Types a constructor: the struct is defined, the fields given are the
/// struct's fields, and each value has its field's type.
#[verifier::loop_isolation(false)]
fn make_constructor(
    program: &fl::Program,
    function: &fl::Function,
    expr: &fl::Expr,
    name: &String,
    fields: &Vec<(String, fl::Expr)>,
    loc: Loc,
) -> (r: Result<tir::Expr, Diagnostic>)
    requires
        *expr == fl::Expr::Constructor(*name, *fields, loc),
    ensures
        match r {
            Ok(te) => elab(program@, function@, expr@) == Some(te@) && elab_report(
                program@,
                function@,
                expr@,
            ) is None,
            Err(d) => elab(program@, function@, expr@) is None && d.fault.stage() == Stage::Type
                && elab_report(program@, function@, expr@) == Some(d@),
        },
    decreases expr@, 0nat,
{
    proof {
        fl::lemma_constructor_model(*name, *fields, loc);
        assert(fields.deep_view() =~= named_models(fields@));
        assert(expr@ == fl::ExprView::Constructor(name@, named_models(fields@), loc));
    }
    let ghost all = named_models(fields@);
    let si = match find_entry(&program.structs, name) {
        Some(si) => si,
        None => {
            return Err(ill_typed(loc, about_name("Struct ", name, " is undefined")));
        },
    };
    let sd = &program.structs[si].1;
    let given = entry_names(fields);
    if !same_names_in(&sd.field_names, &given) {
        return Err(
            ill_typed(
                loc,
                about_name("Constructor ", name, " does not give the struct's fields"),
            ),
        );
    }
    let mut typed_fields: Vec<(String, tir::Expr)> = Vec::new();
    let mut i: usize = 0;
    while i < fields.len()
        invariant
            i <= fields.len(),
            typed_fields.len() == i,
            forall|j: int|
                0 <= j < i ==> elab(program@, function@, #[trigger] fields[j].1@) == Some(
                    typed_fields[j].1@,
                ) && member_type(sd@.field_names, sd@.fields, fields[j].0@) == Some(
                    typed_fields[j].1@.ty(),
                ) && typed_fields[j].0@ == fields[j].0@,
            fields_report(program@, function@, name@, sd@, all, loc, i as nat) is None,
        decreases fields.len() - i,
    {
        assert(all[i as int] == (fields[i as int].0@, fields[i as int].1@));
        let typed_field = match make_expr(program, function, &fields[i].1) {
            Ok(t) => t,
            Err(d) => {
                assert(elab(program@, function@, all[i as int].1) is None);
                proof {
                    lemma_fields_report_stays(
                        program@,
                        function@,
                        name@,
                        sd@,
                        all,
                        loc,
                        (i + 1) as nat,
                        fields.len() as nat,
                    );
                }
                return Err(d);
            },
        };
        let ft = typed_field.ty();
        let expected = match find_name(&sd.field_names, &fields[i].0) {
            Some(k) => if k < sd.fields.len() {
                Some(&sd.fields[k])
            } else {
                None
            },
            None => None,
        };
        let matches_field = match expected {
            Some(t) => ft == *t,
            None => false,
        };
        if !matches_field {
            assert(elab(program@, function@, all[i as int].1) is Some);
            assert(member_type(sd@.field_names, sd@.fields, all[i as int].0) != Some(ft@));
            let mut m = about_name("Field ", &fields[i].0, " of constructor ");
            m.append(name.as_str());
            m.append(" has type ");
            push_type(&mut m, &ft);
            proof {
                lemma_fields_report_stays(
                    program@,
                    function@,
                    name@,
                    sd@,
                    all,
                    loc,
                    (i + 1) as nat,
                    fields.len() as nat,
                );
            }
            return Err(ill_typed(loc, m));
        }
        typed_fields.push((fields[i].0.clone(), typed_field));
        i += 1;
    }
    let ghost typed = elab(program@, function@, expr@)->0;
    proof {
        assert forall|j: int| 0 <= j < fields.len() implies elab(
            program@,
            function@,
            (#[trigger] all[j]).1,
        ) is Some && member_type(sd@.field_names, sd@.fields, all[j].0) == Some(
            elab(program@, function@, all[j].1)->0.ty(),
        ) by {
            assert(elab(program@, function@, fields[j].1@) == Some(typed_fields[j].1@));
        }
        tir::lemma_constructor_model(*name, typed_fields, Type::Struct(*name));
        assert(typed->Constructor_1 =~= tir::named_models(typed_fields@));
    }
    Ok(tir::Expr::Constructor(name.clone(), typed_fields, Type::Struct(name.clone())))
}

/// Types one expression of the body of `function`, and reports the first
/// thing in it that cannot be typed.
pub fn make_expr(program: &fl::Program, function: &fl::Function, expr: &fl::Expr) -> (r: Result<
    tir::Expr,
    Diagnostic,
>)
    ensures
        match r {
            Ok(te) => elab(program@, function@, expr@) == Some(te@) && elab_report(
                program@,
                function@,
                expr@,
            ) is None,
            Err(d) => elab(program@, function@, expr@) is None && d.fault.stage() == Stage::Type
                && elab_report(program@, function@, expr@) == Some(d@),
        },
    decreases expr@, 1nat,
{
    if let Some((op, l, r, loc)) = expr.as_binary() {
        let tl = make_expr(program, function, l)?;
        let tr = make_expr(program, function, r)?;
        let lt = tl.ty();
        let rt = tr.ty();
        return match binary_result(op, &lt, &rt) {
            Some(t) => Ok(tir::Expr::binary(op, tl, tr, t)),
            None => Err(ill_typed(loc, binary_message(op, &lt, &rt))),
        };
    }
    match expr {
        fl::Expr::Var(name, loc) => {
            match find_name(&function.arg_names, name) {
                Some(idx) => {
                    if idx < function.args.len() {
                        Ok(tir::Expr::Var(name.clone(), function.args[idx].clone()))
                    } else {
                        Err(ill_typed(*loc, about_name("Parameter ", name, " has no type")))
                    }
                },
                None => {
                    match find_entry(&program.functions, name) {
                        Some(i) => {
                            let g = &program.functions[i].1;
                            if g.args.len() == 0 {
                                Ok(tir::Expr::Var(name.clone(), g.ret_ty.clone()))
                            } else {
                                Err(
                                    ill_typed(
                                        *loc,
                                        about_name("Function ", name, " is used as a variable"),
                                    ),
                                )
                            }
                        },
                        None => Err(
                            ill_typed(*loc, about_name("Variable ", name, " has no type")),
                        ),
                    }
                },
            }
        },
        fl::Expr::Num(n, _) => Ok(tir::Expr::Num(*n, Type::Int)),
        fl::Expr::Bool(b, _) => Ok(tir::Expr::Bool(*b, Type::Bool)),
        fl::Expr::If(c, th, el, loc) => {
            let tc = make_expr(program, function, c)?;
            let ct = tc.ty();
            if !matches!(ct, Type::Bool) {
                let mut m = String::from_str("Cannot use ");
                push_type(&mut m, &ct);
                m.append(" as a condition");
                return Err(ill_typed(*loc, m));
            }
            let tt = make_expr(program, function, th)?;
            let te = make_expr(program, function, el)?;
            let t1 = tt.ty();
            let t2 = te.ty();
            if !(t1 == t2) {
                return Err(
                    ill_typed(
                        *loc,
                        about_types(
                            "Branches of if expression must be of same type (got ",
                            &t1,
                            " and ",
                            &t2,
                            ")",
                        ),
                    ),
                );
            }
            Ok(tir::Expr::If(Box::new(tc), Box::new(tt), Box::new(te), t1))
        },
        fl::Expr::Call(name, args, loc) => make_call(program, function, expr, name, args, *loc),
        fl::Expr::Field(obj, field, loc) => {
            let to = make_expr(program, function, obj)?;
            let ot = to.ty();
            let struct_name = match &ot {
                Type::Struct(struct_name) => struct_name,
                _ => {
                    let mut m = String::from_str("'.' operator used on non-struct type ");
                    push_type(&mut m, &ot);
                    return Err(ill_typed(*loc, m));
                },
            };
            let si = match find_entry(&program.structs, struct_name) {
                Some(si) => si,
                None => {
                    return Err(ill_typed(*loc, about_name("Struct ", struct_name, " is undefined")));
                },
            };
            let sd = &program.structs[si].1;
            match find_name(&sd.field_names, field) {
                Some(k) => {
                    if k < sd.fields.len() {
                        Ok(tir::Expr::Field(Box::new(to), field.clone(), sd.fields[k].clone()))
                    } else {
                        Err(ill_typed(*loc, about_name("Field ", field, " has no type")))
                    }
                },
                None => {
                    let mut m = about_name("Struct ", struct_name, " has no field ");
                    m.append(field.as_str());
                    Err(ill_typed(*loc, m))
                },
            }
        },
        fl::Expr::Constructor(name, fields, loc) => make_constructor(
            program,
            function,
            expr,
            name,
            fields,
            *loc,
        ),
        _ => {
            assert(false);
            Ok(tir::Expr::Num(0, Type::Int))
        },
    }
}

/// The structs of the typed program.
pub fn make_structs(program: &fl::Program) -> (structs: Vec<(String, tir::Struct)>)
    ensures
        structs.deep_view() == elab_program(program@).structs,
{
    let mut structs: Vec<(String, tir::Struct)> = Vec::new();
    let mut i: usize = 0;
    while i < program.structs.len()
        invariant
            i <= program.structs.len(),
            structs.len() == i,
            forall|j: int|
                0 <= j < i ==> (#[trigger] structs[j]).0@ == program.structs[j].0@ && structs[j].1@
                    == elab_struct(program.structs[j].1@),
        decreases program.structs.len() - i,
    {
        let s = &program.structs[i].1;
        structs.push(
            (
                program.structs[i].0.clone(),
                tir::Struct::new(clone_types(&s.fields), clone_names(&s.field_names)),
            ),
        );
        i += 1;
    }
    assert(structs.deep_view() =~= elab_program(program@).structs);
    structs
}

/// The functions of the typed program, where every one of them can be
/// typed; else the report of the first that cannot.
pub fn make_functions(program: &fl::Program) -> (r: Result<Vec<(String, tir::Function)>, Diagnostic>)
    ensures
        match r {
            Ok(functions) => well_typed(program@) && functions.deep_view() == elab_program(
                program@,
            ).functions && typecheck_report(program@) is None,
            Err(d) => !well_typed(program@) && d.fault.stage() == Stage::Type
                && typecheck_report(program@) == Some(d@),
        },
{
    let mut functions: Vec<(String, tir::Function)> = Vec::new();
    let mut i: usize = 0;
    while i < program.functions.len()
        invariant
            i <= program.functions.len(),
            functions.len() == i,
            forall|j: int|
                0 <= j < i ==> elab_function(program@, (#[trigger] program@.functions[j]).1)
                    == Some(functions[j].1@) && functions[j].0@ == program.functions[j].0@,
            functions_report(program@, i as nat) is None,
        decreases program.functions.len() - i,
    {
        let name = &program.functions[i].0;
        let f = &program.functions[i].1;
        assert(program@.functions[i as int] == (name@, f@));
        let body = match make_expr(program, f, &f.body) {
            Ok(body) => body,
            Err(d) => {
                proof {
                    lemma_functions_report_stays(
                        program@,
                        (i + 1) as nat,
                        program@.functions.len(),
                    );
                }
                return Err(d);
            },
        };
        let t = body.ty();
        if !(t == f.ret_ty) {
            let mut m = String::from_str("Function ");
            m.append(name.as_str());
            m.append(" has return type ");
            push_type(&mut m, &f.ret_ty);
            m.append(" but returns ");
            push_type(&mut m, &t);
            proof {
                lemma_functions_report_stays(program@, (i + 1) as nat, program@.functions.len());
            }
            return Err(ill_typed(f.loc, m));
        }
        functions.push(
            (
                name.clone(),
                tir::Function::new(
                    clone_types(&f.args),
                    clone_names(&f.arg_names),
                    f.ret_ty.clone(),
                    body,
                ),
            ),
        );
        i += 1;
    }
    assert(functions.deep_view() =~= elab_program(program@).functions);
    Ok(functions)
}

/// Types a program: every expression gets its type, and a program that the
/// typing rules refuse is reported, at the first place where they refuse it.
pub fn typecheck(program: fl::Program) -> (r: Result<tir::Program, Diagnostic>)
    ensures
        match r {
            Ok(typed) => well_typed(program@) && typed@ == elab_program(program@) && (
            program@.wf() ==> typed@.valid()),
            Err(d) => !well_typed(program@) && d.fault.stage() == Stage::Type
                && typecheck_report(program@) == Some(d@),
        },
{
    let structs = make_structs(&program);
    let functions = make_functions(&program)?;
    proof {
        if program@.wf() {
            lemma_elab_program_valid(program@);
        }
    }
    Ok(tir::Program::new(functions, structs))
}

} // verus!
