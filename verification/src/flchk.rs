//! The semantic checks: eight checks on the syntax tree, run in order.

use vstd::prelude::*;
use vstd::string::*;
use crate::diag::{first_of, Diagnostic, DiagnosticView, Fault, Stage};
use crate::fl::{models, named_models, Expr, ExprView, Function, FunctionView, Program, ProgramView};
use crate::loc::Loc;
use crate::table::{
    entry_names, find_entry, find_name, first_index, keys, lemma_first_index, lookup, same_names,
    same_names_in,
};
use crate::text::{decimal, push_decimal};
use crate::ty::{Type, TypeView};

verus! {

/// The rules that are checked on every node of every body.
#[derive(Clone, Copy, Debug, PartialEq, Eq, Structural)]
pub enum Rule {
    /// Every call names a function that is defined.
    Calls,
    /// Every constructor names a struct that is defined.
    Constructors,
    /// Every call has as many arguments as its callee has parameters.
    Arity,
    /// Every constructor gives the fields of its struct, all of them and no others.
    Fields,
    /// Every variable is a parameter of the function around it, or a function
    /// without parameters.
    Variables,
}

impl Rule {
    /// The fault that a broken rule is reported as.
    pub open spec fn fault(self) -> Fault {
        match self {
            Rule::Calls => Fault::UndefinedFunction,
            Rule::Constructors => Fault::UndefinedStruct,
            Rule::Arity => Fault::ArityMismatch,
            Rule::Fields => Fault::FieldMismatch,
            Rule::Variables => Fault::UndefinedVariable,
        }
    }
}

/// The name of the function that a program's value comes from.
pub open spec fn result_name() -> Seq<char> {
    "result"@
}

/// The rule holds of the node `e` itself, in the body of `f`. A call of an
/// undefined function breaks no rule but `Calls`, and a constructor of an
/// undefined struct none but `Constructors`.
pub open spec fn node_ok(rule: Rule, p: ProgramView, f: FunctionView, e: ExprView) -> bool {
    match rule {
        Rule::Calls => e matches ExprView::Call(name, _, _) ==> lookup(p.functions, name) is Some,
        Rule::Constructors => e matches ExprView::Constructor(name, _, _) ==> lookup(
            p.structs,
            name,
        ) is Some,
        Rule::Arity => e matches ExprView::Call(name, args, _) ==> (lookup(
            p.functions,
            name,
        ) matches Some(g) ==> g.args.len() == args.len()),
        Rule::Fields => e matches ExprView::Constructor(name, fields, _) ==> (lookup(
            p.structs,
            name,
        ) matches Some(s) ==> same_names(s.field_names, keys(fields))),
        Rule::Variables => e matches ExprView::Var(name, _) ==> (first_index(f.arg_names, name) is Some
            || (lookup(p.functions, name) matches Some(g) && g.args.len() == 0)),
    }
}

/// The rule holds of every node of `e`, in the body of `f`.
pub open spec fn holds_in(rule: Rule, p: ProgramView, f: FunctionView, e: ExprView) -> bool
    decreases e,
{
    node_ok(rule, p, f, e) && match e {
        ExprView::Binary(_, l, r, _) => holds_in(rule, p, f, *l) && holds_in(rule, p, f, *r),
        ExprView::If(c, t, el, _) => holds_in(rule, p, f, *c) && holds_in(rule, p, f, *t)
            && holds_in(rule, p, f, *el),
        ExprView::Call(_, args, _) => forall|i: int|
            0 <= i < args.len() ==> holds_in(rule, p, f, #[trigger] args[i]),
        ExprView::Field(obj, _, _) => holds_in(rule, p, f, *obj),
        ExprView::Constructor(_, fields, _) => forall|i: int|
            0 <= i < fields.len() ==> holds_in(rule, p, f, (#[trigger] fields[i]).1),
        _ => true,
    }
}

/// The rule holds of every body of the program.
pub open spec fn holds(rule: Rule, p: ProgramView) -> bool {
    forall|i: int|
        0 <= i < p.functions.len() ==> holds_in(
            rule,
            p,
            (#[trigger] p.functions[i]).1,
            p.functions[i].1.body,
        )
}

/// A function called `result` is defined, and it takes no parameters.
pub open spec fn has_result(p: ProgramView) -> bool {
    lookup(p.functions, result_name()) matches Some(g) && g.args.len() == 0
}

/// The name is that of no function and of no struct.
pub open spec fn unused(p: ProgramView, name: Seq<char>) -> bool {
    lookup(p.functions, name) is None && lookup(p.structs, name) is None
}

/// No parameter of `f` has the name of a function or of a struct.
pub open spec fn shadows_nothing(p: ProgramView, f: FunctionView) -> bool {
    forall|j: int| 0 <= j < f.arg_names.len() ==> unused(p, #[trigger] f.arg_names[j])
}

/// No parameter of any function has the name of a function or of a struct.
pub open spec fn no_shadowing(p: ProgramView) -> bool {
    forall|i: int| 0 <= i < p.functions.len() ==> shadows_nothing(p, (#[trigger] p.functions[i]).1)
}

/// The type is `int`, `bool`, or a struct that is defined.
pub open spec fn resolves(p: ProgramView, t: TypeView) -> bool {
    t matches TypeView::Struct(name) ==> lookup(p.structs, name) is Some
}

/// Every type of the list resolves.
pub open spec fn all_resolve(p: ProgramView, types: Seq<TypeView>) -> bool {
    forall|j: int| 0 <= j < types.len() ==> resolves(p, #[trigger] types[j])
}

/// Every type that the program writes resolves: those of the parameters and
/// of the results of its functions, and those of the fields of its structs.
pub open spec fn types_resolve(p: ProgramView) -> bool {
    &&& forall|i: int|
        0 <= i < p.functions.len() ==> all_resolve(p, (#[trigger] p.functions[i]).1.args)
            && resolves(p, p.functions[i].1.ret_ty)
    &&& forall|i: int| 0 <= i < p.structs.len() ==> all_resolve(p, (#[trigger] p.structs[i]).1.fields)
}

/// The fault of the first check that the program fails, in the order in which
/// the checks run; `None` where it passes them all.
pub open spec fn first_failure(p: ProgramView) -> Option<Fault> {
    if !has_result(p) {
        Some(Fault::MissingResult)
    } else if !no_shadowing(p) {
        Some(Fault::Shadowing)
    } else if !holds(Rule::Calls, p) {
        Some(Fault::UndefinedFunction)
    } else if !holds(Rule::Constructors, p) {
        Some(Fault::UndefinedStruct)
    } else if !holds(Rule::Arity, p) {
        Some(Fault::ArityMismatch)
    } else if !holds(Rule::Fields, p) {
        Some(Fault::FieldMismatch)
    } else if !holds(Rule::Variables, p) {
        Some(Fault::UndefinedVariable)
    } else if !types_resolve(p) {
        Some(Fault::UndefinedType)
    } else {
        None
    }
}

/// The program passes every check.
pub open spec fn checked(p: ProgramView) -> bool {
    first_failure(p) is None
}

/// Every name that `e` uses is defined, and is used as it was defined: a
/// variable is a parameter of `f` or a function without parameters, a call
/// has as many arguments as its callee has parameters, and a constructor
/// gives exactly the fields of its struct.
pub open spec fn coherent_in(p: ProgramView, f: FunctionView, e: ExprView) -> bool
    decreases e,
{
    match e {
        ExprView::Var(name, _) => first_index(f.arg_names, name) is Some || (lookup(
            p.functions,
            name,
        ) matches Some(g) && g.args.len() == 0),
        ExprView::Binary(_, l, r, _) => coherent_in(p, f, *l) && coherent_in(p, f, *r),
        ExprView::If(c, t, el, _) => coherent_in(p, f, *c) && coherent_in(p, f, *t) && coherent_in(
            p,
            f,
            *el,
        ),
        ExprView::Call(name, args, _) => (lookup(p.functions, name) matches Some(g)
            && g.args.len() == args.len()) && forall|i: int|
            0 <= i < args.len() ==> coherent_in(p, f, #[trigger] args[i]),
        ExprView::Field(obj, _, _) => coherent_in(p, f, *obj),
        ExprView::Constructor(name, fields, _) => (lookup(p.structs, name) matches Some(s)
            && same_names(s.field_names, keys(fields))) && forall|i: int|
            0 <= i < fields.len() ==> coherent_in(p, f, (#[trigger] fields[i]).1),
        _ => true,
    }
}

/// Exactly one function is called `result`, and it takes no parameters.
pub open spec fn one_result(p: ProgramView) -> bool {
    exists|i: int|
        0 <= i < p.functions.len() && (#[trigger] p.functions[i]).0 == result_name()
            && p.functions[i].1.args.len() == 0 && forall|j: int|
            0 <= j < p.functions.len() && j != i ==> (#[trigger] p.functions[j]).0
                != result_name()
}

/// What the later stages rely on: every body is coherent, there is exactly
/// one `result` and it takes no parameters, and no parameter has the name of
/// a function or of a struct.
pub open spec fn sound(p: ProgramView) -> bool {
    &&& forall|i: int|
        0 <= i < p.functions.len() ==> coherent_in(
            p,
            (#[trigger] p.functions[i]).1,
            p.functions[i].1.body,
        )
    &&& one_result(p)
    &&& no_shadowing(p)
}

/// An expression of which the five rules hold is coherent.
pub proof fn lemma_rules_give_coherence(p: ProgramView, f: FunctionView, e: ExprView)
    requires
        holds_in(Rule::Calls, p, f, e),
        holds_in(Rule::Constructors, p, f, e),
        holds_in(Rule::Arity, p, f, e),
        holds_in(Rule::Fields, p, f, e),
        holds_in(Rule::Variables, p, f, e),
    ensures
        coherent_in(p, f, e),
    decreases e,
{
    match e {
        ExprView::Binary(_, l, r, _) => {
            lemma_rules_give_coherence(p, f, *l);
            lemma_rules_give_coherence(p, f, *r);
        },
        ExprView::If(c, t, el, _) => {
            lemma_rules_give_coherence(p, f, *c);
            lemma_rules_give_coherence(p, f, *t);
            lemma_rules_give_coherence(p, f, *el);
        },
        ExprView::Call(_, args, _) => {
            assert forall|i: int| 0 <= i < args.len() implies coherent_in(
                p,
                f,
                #[trigger] args[i],
            ) by {
                lemma_rules_give_coherence(p, f, args[i]);
            }
        },
        ExprView::Field(obj, _, _) => {
            lemma_rules_give_coherence(p, f, *obj);
        },
        ExprView::Constructor(_, fields, _) => {
            assert forall|i: int| 0 <= i < fields.len() implies coherent_in(
                p,
                f,
                (#[trigger] fields[i]).1,
            ) by {
                lemma_rules_give_coherence(p, f, fields[i].1);
            }
        },
        _ => {},
    }
}

/// A well-formed program that passes the checks is sound.
pub proof fn lemma_check_sound(p: ProgramView)
    requires
        p.wf(),
        checked(p),
    ensures
        sound(p),
{
    assert forall|i: int| 0 <= i < p.functions.len() implies coherent_in(
        p,
        (#[trigger] p.functions[i]).1,
        p.functions[i].1.body,
    ) by {
        lemma_rules_give_coherence(p, p.functions[i].1, p.functions[i].1.body);
    }
    lemma_first_index(keys(p.functions), result_name());
    let i = first_index(keys(p.functions), result_name())->0;
    assert(p.functions[i].0 == result_name());
    assert forall|j: int| 0 <= j < p.functions.len() && j != i implies (
    #[trigger] p.functions[j]).0 != result_name() by {
        assert(keys(p.functions)[j] != keys(p.functions)[i]);
    }
}

/// What is reported of a node that breaks a rule: the fault of the rule, the
/// place of the node, and a message that names what the node uses.
pub open spec fn node_report(rule: Rule, p: ProgramView, e: ExprView) -> DiagnosticView {
    DiagnosticView {
        fault: rule.fault(),
        loc: e.loc(),
        message: match rule {
            Rule::Calls => "Function "@ + e->Call_0 + " is undefined"@,
            Rule::Constructors => "Struct "@ + e->Constructor_0 + " is undefined"@,
            Rule::Arity => "Function "@ + e->Call_0 + " called with "@ + decimal(
                e->Call_1.len(),
            ) + " arguments, but expects "@ + decimal(
                lookup(p.functions, e->Call_0)->0.args.len(),
            ) + " (arity mismatch)"@,
            Rule::Fields => "Constructor "@ + e->Constructor_0
                + " does not give exactly the fields of its struct"@,
            Rule::Variables => "Variable "@ + e->Var_0 + " is undefined"@,
        },
    }
}

/// The report of the first node of `e` that breaks the rule, where a node
/// comes before its operands and the operands come from left to right.
pub open spec fn broken_in(rule: Rule, p: ProgramView, f: FunctionView, e: ExprView) -> Option<
    DiagnosticView,
>
    decreases e, 0nat,
{
    if !node_ok(rule, p, f, e) {
        Some(node_report(rule, p, e))
    } else {
        match e {
            ExprView::Binary(_, l, r, _) => first_of(
                broken_in(rule, p, f, *l),
                broken_in(rule, p, f, *r),
            ),
            ExprView::If(c, t, el, _) => first_of(
                broken_in(rule, p, f, *c),
                first_of(broken_in(rule, p, f, *t), broken_in(rule, p, f, *el)),
            ),
            ExprView::Call(_, args, _) => broken_in_args(rule, p, f, args, args.len()),
            ExprView::Field(obj, _, _) => broken_in(rule, p, f, *obj),
            ExprView::Constructor(_, fields, _) => broken_in_fields(
                rule,
                p,
                f,
                fields,
                fields.len(),
            ),
            _ => None,
        }
    }
}

/// The report of the first node that breaks the rule among the first `n` arguments.
pub open spec fn broken_in_args(
    rule: Rule,
    p: ProgramView,
    f: FunctionView,
    args: Seq<ExprView>,
    n: nat,
) -> Option<DiagnosticView>
    decreases args, n,
{
    if n == 0 || n > args.len() {
        None
    } else {
        first_of(broken_in_args(rule, p, f, args, (n - 1) as nat), broken_in(rule, p, f, args[n - 1]))
    }
}

/// The report of the first node that breaks the rule among the first `n` values.
pub open spec fn broken_in_fields(
    rule: Rule,
    p: ProgramView,
    f: FunctionView,
    fields: Seq<(Seq<char>, ExprView)>,
    n: nat,
) -> Option<DiagnosticView>
    decreases fields, n,
{
    if n == 0 || n > fields.len() {
        None
    } else {
        first_of(
            broken_in_fields(rule, p, f, fields, (n - 1) as nat),
            broken_in(rule, p, f, fields[n - 1].1),
        )
    }
}

/// The report of the first node that breaks the rule in the first `n` bodies.
pub open spec fn broken_bodies(rule: Rule, p: ProgramView, n: nat) -> Option<DiagnosticView>
    decreases n,
{
    if n == 0 || n > p.functions.len() {
        None
    } else {
        first_of(
            broken_bodies(rule, p, (n - 1) as nat),
            broken_in(rule, p, p.functions[n - 1].1, p.functions[n - 1].1.body),
        )
    }
}

/// What is reported of a program without a `result` that takes no parameters.
pub open spec fn result_report() -> DiagnosticView {
    DiagnosticView {
        fault: Fault::MissingResult,
        loc: Loc { line: 1, col: 1 },
        message: "Exactly one 'result' nullary function must be defined"@,
    }
}

/// The report of the first among the first `n` parameters of the function
/// `name` that has the name of a function or of a struct. It points to the
/// function.
pub open spec fn shadow_in(p: ProgramView, name: Seq<char>, f: FunctionView, n: nat) -> Option<
    DiagnosticView,
>
    decreases n,
{
    if n == 0 || n > f.arg_names.len() {
        None
    } else {
        first_of(
            shadow_in(p, name, f, (n - 1) as nat),
            if unused(p, f.arg_names[n - 1]) {
                None
            } else {
                Some(
                    DiagnosticView {
                        fault: Fault::Shadowing,
                        loc: f.loc,
                        message: "Parameter "@ + f.arg_names[n - 1] + " in function "@ + name
                            + " shadows global name "@ + f.arg_names[n - 1],
                    },
                )
            },
        )
    }
}

/// The report of the first shadowing parameter among the first `n` functions.
pub open spec fn shadow_report(p: ProgramView, n: nat) -> Option<DiagnosticView>
    decreases n,
{
    if n == 0 || n > p.functions.len() {
        None
    } else {
        first_of(
            shadow_report(p, (n - 1) as nat),
            shadow_in(
                p,
                p.functions[n - 1].0,
                p.functions[n - 1].1,
                p.functions[n - 1].1.arg_names.len(),
            ),
        )
    }
}

/// The report of a type that does not resolve, at the place of its owner.
pub open spec fn type_report(p: ProgramView, loc: Loc, t: TypeView) -> Option<DiagnosticView> {
    if resolves(p, t) {
        None
    } else {
        Some(
            DiagnosticView {
                fault: Fault::UndefinedType,
                loc,
                message: "Type "@ + t->Struct_0 + " is undefined"@,
            },
        )
    }
}

/// The report of the first among the first `n` types that does not resolve.
pub open spec fn types_report(p: ProgramView, loc: Loc, types: Seq<TypeView>, n: nat) -> Option<
    DiagnosticView,
>
    decreases n,
{
    if n == 0 || n > types.len() {
        None
    } else {
        first_of(types_report(p, loc, types, (n - 1) as nat), type_report(p, loc, types[n - 1]))
    }
}

/// The report of the first type that does not resolve in the first `n`
/// functions: the types of the parameters come before the type of the result.
pub open spec fn function_types_report(p: ProgramView, n: nat) -> Option<DiagnosticView>
    decreases n,
{
    if n == 0 || n > p.functions.len() {
        None
    } else {
        let f = p.functions[n - 1].1;
        first_of(
            function_types_report(p, (n - 1) as nat),
            first_of(types_report(p, f.loc, f.args, f.args.len()), type_report(p, f.loc, f.ret_ty)),
        )
    }
}

/// The report of the first type that does not resolve in the first `n` structs.
pub open spec fn struct_types_report(p: ProgramView, n: nat) -> Option<DiagnosticView>
    decreases n,
{
    if n == 0 || n > p.structs.len() {
        None
    } else {
        let s = p.structs[n - 1].1;
        first_of(
            struct_types_report(p, (n - 1) as nat),
            types_report(p, s.loc, s.fields, s.fields.len()),
        )
    }
}

/// What the checks report of a program: the report of the first check that
/// fails, in the order in which they run.
pub open spec fn check_report(p: ProgramView) -> Option<DiagnosticView> {
    let n = p.functions.len();
    first_of(
        if has_result(p) {
            None
        } else {
            Some(result_report())
        },
        first_of(
            shadow_report(p, n),
            first_of(
                broken_bodies(Rule::Calls, p, n),
                first_of(
                    broken_bodies(Rule::Constructors, p, n),
                    first_of(
                        broken_bodies(Rule::Arity, p, n),
                        first_of(
                            broken_bodies(Rule::Fields, p, n),
                            first_of(
                                broken_bodies(Rule::Variables, p, n),
                                first_of(
                                    function_types_report(p, n),
                                    struct_types_report(p, p.structs.len()),
                                ),
                            ),
                        ),
                    ),
                ),
            ),
        ),
    )
}

/// A report that the first arguments give is the report of all of them.
pub proof fn lemma_broken_in_args_stays(
    rule: Rule,
    p: ProgramView,
    f: FunctionView,
    args: Seq<ExprView>,
    m: nat,
    n: nat,
)
    requires
        m <= n <= args.len(),
        broken_in_args(rule, p, f, args, m) is Some,
    ensures
        broken_in_args(rule, p, f, args, n) == broken_in_args(rule, p, f, args, m),
    decreases n,
{
    if m < n {
        lemma_broken_in_args_stays(rule, p, f, args, m, (n - 1) as nat);
    }
}

/// A report that the first values give is the report of all of them.
pub proof fn lemma_broken_in_fields_stays(
    rule: Rule,
    p: ProgramView,
    f: FunctionView,
    fields: Seq<(Seq<char>, ExprView)>,
    m: nat,
    n: nat,
)
    requires
        m <= n <= fields.len(),
        broken_in_fields(rule, p, f, fields, m) is Some,
    ensures
        broken_in_fields(rule, p, f, fields, n) == broken_in_fields(rule, p, f, fields, m),
    decreases n,
{
    if m < n {
        lemma_broken_in_fields_stays(rule, p, f, fields, m, (n - 1) as nat);
    }
}

/// A report that the first bodies give is the report of all of them.
pub proof fn lemma_broken_bodies_stays(rule: Rule, p: ProgramView, m: nat, n: nat)
    requires
        m <= n <= p.functions.len(),
        broken_bodies(rule, p, m) is Some,
    ensures
        broken_bodies(rule, p, n) == broken_bodies(rule, p, m),
    decreases n,
{
    if m < n {
        lemma_broken_bodies_stays(rule, p, m, (n - 1) as nat);
    }
}

/// A report that the first parameters give is the report of all of them.
pub proof fn lemma_shadow_in_stays(p: ProgramView, name: Seq<char>, f: FunctionView, m: nat, n: nat)
    requires
        m <= n <= f.arg_names.len(),
        shadow_in(p, name, f, m) is Some,
    ensures
        shadow_in(p, name, f, n) == shadow_in(p, name, f, m),
    decreases n,
{
    if m < n {
        lemma_shadow_in_stays(p, name, f, m, (n - 1) as nat);
    }
}

/// A report that the first functions give is the report of all of them.
pub proof fn lemma_shadow_report_stays(p: ProgramView, m: nat, n: nat)
    requires
        m <= n <= p.functions.len(),
        shadow_report(p, m) is Some,
    ensures
        shadow_report(p, n) == shadow_report(p, m),
    decreases n,
{
    if m < n {
        lemma_shadow_report_stays(p, m, (n - 1) as nat);
    }
}

/// A report that the first types give is the report of all of them.
pub proof fn lemma_types_report_stays(p: ProgramView, loc: Loc, types: Seq<TypeView>, m: nat, n: nat)
    requires
        m <= n <= types.len(),
        types_report(p, loc, types, m) is Some,
    ensures
        types_report(p, loc, types, n) == types_report(p, loc, types, m),
    decreases n,
{
    if m < n {
        lemma_types_report_stays(p, loc, types, m, (n - 1) as nat);
    }
}

/// A report that the first functions give is the report of all of them.
pub proof fn lemma_function_types_report_stays(p: ProgramView, m: nat, n: nat)
    requires
        m <= n <= p.functions.len(),
        function_types_report(p, m) is Some,
    ensures
        function_types_report(p, n) == function_types_report(p, m),
    decreases n,
{
    if m < n {
        lemma_function_types_report_stays(p, m, (n - 1) as nat);
    }
}

/// A report that the first structs give is the report of all of them.
pub proof fn lemma_struct_types_report_stays(p: ProgramView, m: nat, n: nat)
    requires
        m <= n <= p.structs.len(),
        struct_types_report(p, m) is Some,
    ensures
        struct_types_report(p, n) == struct_types_report(p, m),
    decreases n,
{
    if m < n {
        lemma_struct_types_report_stays(p, m, (n - 1) as nat);
    }
}

fn error(fault: Fault, message: String, loc: Loc) -> (d: Diagnostic)
    ensures
        d.fault == fault,
        d.loc == loc,
        d.message == message,
{
    Diagnostic::new(fault, loc, message)
}

/// A message that names one thing.
fn about(before: &str, name: &String, after: &str) -> (s: String)
    ensures
        s@ == before@ + name@ + after@,
{
    let mut s = String::from_str(before);
    s.append(name.as_str());
    s.append(after);
    s
}

/// Checks one rule on the node `expr` itself.
fn check_node(rule: Rule, program: &Program, function: &Function, expr: &Expr) -> (r: Result<
    (),
    Diagnostic,
>)
    ensures
        match r {
            Ok(_) => node_ok(rule, program@, function@, expr@),
            Err(d) => !node_ok(rule, program@, function@, expr@) && d@ == node_report(
                rule,
                program@,
                expr@,
            ),
        },
{
    match expr {
        Expr::Var(name, loc) => {
            if let Rule::Variables = rule {
                if find_name(&function.arg_names, name).is_some() {
                    return Ok(());
                }
                match find_entry(&program.functions, name) {
                    Some(i) => {
                        if program.functions[i].1.args.len() == 0 {
                            return Ok(());
                        }
                    },
                    None => {},
                }
                return Err(
                    error(Fault::UndefinedVariable, about("Variable ", name, " is undefined"), *loc),
                );
            }
            Ok(())
        },
        Expr::Call(name, args, loc) => {
            proof {
                crate::fl::lemma_call_model(*name, *args, *loc);
            }
            match rule {
                Rule::Calls => {
                    if find_entry(&program.functions, name).is_none() {
                        return Err(
                            error(
                                Fault::UndefinedFunction,
                                about("Function ", name, " is undefined"),
                                *loc,
                            ),
                        );
                    }
                    Ok(())
                },
                Rule::Arity => {
                    match find_entry(&program.functions, name) {
                        Some(i) => {
                            let expected = program.functions[i].1.args.len();
                            if expected != args.len() {
                                let mut m = about("Function ", name, " called with ");
                                push_decimal(&mut m, args.len() as u64);
                                m.append(" arguments, but expects ");
                                push_decimal(&mut m, expected as u64);
                                m.append(" (arity mismatch)");
                                return Err(error(Fault::ArityMismatch, m, *loc));
                            }
                            Ok(())
                        },
                        None => Ok(()),
                    }
                },
                _ => Ok(()),
            }
        },
        Expr::Constructor(name, fields, loc) => {
            proof {
                crate::fl::lemma_constructor_model(*name, *fields, *loc);
                assert(fields.deep_view() =~= named_models(fields@));
            }
            match rule {
                Rule::Constructors => {
                    if find_entry(&program.structs, name).is_none() {
                        return Err(
                            error(
                                Fault::UndefinedStruct,
                                about("Struct ", name, " is undefined"),
                                *loc,
                            ),
                        );
                    }
                    Ok(())
                },
                Rule::Fields => {
                    match find_entry(&program.structs, name) {
                        Some(i) => {
                            let given = entry_names(fields);
                            if !same_names_in(&program.structs[i].1.field_names, &given) {
                                return Err(
                                    error(
                                        Fault::FieldMismatch,
                                        about(
                                            "Constructor ",
                                            name,
                                            " does not give exactly the fields of its struct",
                                        ),
                                        *loc,
                                    ),
                                );
                            }
                            Ok(())
                        },
                        None => Ok(()),
                    }
                },
                _ => Ok(()),
            }
        },
        _ => Ok(()),
    }
}

/// Checks one rule on every node of `expr`, and reports the first node that
/// breaks it.
#[verifier::loop_isolation(false)]
pub fn check_expr(rule: Rule, program: &Program, function: &Function, expr: &Expr) -> (r: Result<
    (),
    Diagnostic,
>)
    ensures
        match r {
            Ok(_) => holds_in(rule, program@, function@, expr@) && broken_in(
                rule,
                program@,
                function@,
                expr@,
            ) is None,
            Err(d) => !holds_in(rule, program@, function@, expr@) && broken_in(
                rule,
                program@,
                function@,
                expr@,
            ) == Some(d@),
        },
    decreases expr,
{
    check_node(rule, program, function, expr)?;
    match expr {
        Expr::Add(l, r, _)
        | Expr::Sub(l, r, _)
        | Expr::Mul(l, r, _)
        | Expr::Eq(l, r, _)
        | Expr::Neq(l, r, _)
        | Expr::Lt(l, r, _)
        | Expr::Gt(l, r, _)
        | Expr::Le(l, r, _)
        | Expr::Ge(l, r, _) => {
            check_expr(rule, program, function, l)?;
            check_expr(rule, program, function, r)
        },
        Expr::If(c, t, e, _) => {
            check_expr(rule, program, function, c)?;
            check_expr(rule, program, function, t)?;
            check_expr(rule, program, function, e)
        },
        Expr::Call(name, args, loc) => {
            proof {
                crate::fl::lemma_call_model(*name, *args, *loc);
            }
            let ghost all = models(args@);
            let mut i: usize = 0;
            while i < args.len()
                invariant
                    i <= args.len(),
                    expr@ == ExprView::Call(name@, all, *loc),
                    forall|j: int|
                        0 <= j < i ==> holds_in(rule, program@, function@, #[trigger] all[j]),
                    broken_in_args(rule, program@, function@, all, i as nat) is None,
                decreases args.len() - i,
            {
                assert(all[i as int] == args[i as int]@);
                match check_expr(rule, program, function, &args[i]) {
                    Ok(_) => {},
                    Err(d) => {
                        proof {
                            let e = expr@;
                            assert(e->Call_1 == all);
                            assert(holds_in(rule, program@, function@, e) ==> (forall|k: int|
                                0 <= k < e->Call_1.len() ==> holds_in(
                                    rule,
                                    program@,
                                    function@,
                                    #[trigger] e->Call_1[k],
                                )));
                            assert(!holds_in(rule, program@, function@, e->Call_1[i as int]));
                            lemma_broken_in_args_stays(
                                rule,
                                program@,
                                function@,
                                all,
                                (i + 1) as nat,
                                args.len() as nat,
                            );
                        }
                        return Err(d);
                    },
                }
                i += 1;
            }
            Ok(())
        },
        Expr::Field(obj, _, _) => check_expr(rule, program, function, obj),
        Expr::Constructor(name, fields, loc) => {
            proof {
                crate::fl::lemma_constructor_model(*name, *fields, *loc);
            }
            let ghost all = named_models(fields@);
            let mut i: usize = 0;
            while i < fields.len()
                invariant
                    i <= fields.len(),
                    expr@ == ExprView::Constructor(name@, all, *loc),
                    forall|j: int|
                        0 <= j < i ==> holds_in(rule, program@, function@, (#[trigger] all[j]).1),
                    broken_in_fields(rule, program@, function@, all, i as nat) is None,
                decreases fields.len() - i,
            {
                assert(all[i as int].1 == fields[i as int].1@);
                match check_expr(rule, program, function, &fields[i].1) {
                    Ok(_) => {},
                    Err(d) => {
                        proof {
                            let e = expr@;
                            assert(e->Constructor_1 == all);
                            assert(holds_in(rule, program@, function@, e) ==> (forall|k: int|
                                0 <= k < e->Constructor_1.len() ==> holds_in(
                                    rule,
                                    program@,
                                    function@,
                                    (#[trigger] e->Constructor_1[k]).1,
                                )));
                            assert(!holds_in(
                                rule,
                                program@,
                                function@,
                                e->Constructor_1[i as int].1,
                            ));
                            lemma_broken_in_fields_stays(
                                rule,
                                program@,
                                function@,
                                all,
                                (i + 1) as nat,
                                fields.len() as nat,
                            );
                        }
                        return Err(d);
                    },
                }
                i += 1;
            }
            Ok(())
        },
        _ => Ok(()),
    }
}

/// Checks one rule on every body of the program, and reports the first node
/// that breaks it.
pub fn check_bodies(rule: Rule, program: &Program) -> (r: Result<(), Diagnostic>)
    ensures
        match r {
            Ok(_) => holds(rule, program@) && broken_bodies(
                rule,
                program@,
                program@.functions.len(),
            ) is None,
            Err(d) => !holds(rule, program@) && d.fault == rule.fault() && broken_bodies(
                rule,
                program@,
                program@.functions.len(),
            ) == Some(d@),
        },
{
    let mut i: usize = 0;
    while i < program.functions.len()
        invariant
            i <= program.functions.len(),
            forall|j: int|
                0 <= j < i ==> holds_in(
                    rule,
                    program@,
                    (#[trigger] program@.functions[j]).1,
                    program@.functions[j].1.body,
                ),
            broken_bodies(rule, program@, i as nat) is None,
        decreases program.functions.len() - i,
    {
        let f = &program.functions[i].1;
        assert(program@.functions[i as int].1 == f@);
        match check_expr(rule, program, f, &f.body) {
            Ok(_) => {},
            Err(d) => {
                proof {
                    lemma_broken_bodies_stays(
                        rule,
                        program@,
                        (i + 1) as nat,
                        program@.functions.len(),
                    );
                    lemma_report_fault(rule, program@, f@, f@.body);
                }
                return Err(d);
            },
        }
        i += 1;
    }
    Ok(())
}

/// Checks that a function called `result` is defined and takes no parameters.
pub fn check_for_result(program: &Program) -> (r: Result<(), Diagnostic>)
    ensures
        match r {
            Ok(_) => has_result(program@),
            Err(d) => !has_result(program@) && d@ == result_report(),
        },
{
    let found = match find_entry(&program.functions, &String::from_str("result")) {
        Some(i) => program.functions[i].1.args.len() == 0,
        None => false,
    };
    if found {
        Ok(())
    } else {
        Err(
            error(
                Fault::MissingResult,
                String::from_str("Exactly one 'result' nullary function must be defined"),
                Loc::new(1, 1),
            ),
        )
    }
}

/// Checks that no parameter has the name of a function or of a struct, and
/// reports the first that has.
pub fn check_for_shadowing(program: &Program) -> (r: Result<(), Diagnostic>)
    ensures
        match r {
            Ok(_) => no_shadowing(program@) && shadow_report(program@, program@.functions.len()) is None,
            Err(d) => !no_shadowing(program@) && d.fault == Fault::Shadowing && shadow_report(
                program@,
                program@.functions.len(),
            ) == Some(d@),
        },
{
    let mut i: usize = 0;
    while i < program.functions.len()
        invariant
            i <= program.functions.len(),
            forall|k: int|
                0 <= k < i ==> shadows_nothing(program@, (#[trigger] program@.functions[k]).1),
            shadow_report(program@, i as nat) is None,
        decreases program.functions.len() - i,
    {
        let name = &program.functions[i].0;
        let f = &program.functions[i].1;
        assert(program@.functions[i as int] == (name@, f@));
        let mut j: usize = 0;
        while j < f.arg_names.len()
            invariant
                j <= f.arg_names.len(),
                i < program.functions.len(),
                program@.functions[i as int] == (name@, f@),
                forall|k: int| 0 <= k < j ==> unused(program@, #[trigger] f@.arg_names[k]),
                shadow_in(program@, name@, f@, j as nat) is None,
                shadow_report(program@, i as nat) is None,
            decreases f.arg_names.len() - j,
        {
            let arg = &f.arg_names[j];
            if find_entry(&program.functions, arg).is_some() || find_entry(
                &program.structs,
                arg,
            ).is_some() {
                assert(!unused(program@, f@.arg_names[j as int]));
                assert(!shadows_nothing(program@, program@.functions[i as int].1));
                let mut m = about("Parameter ", arg, " in function ");
                m.append(name.as_str());
                m.append(" shadows global name ");
                m.append(arg.as_str());
                proof {
                    lemma_shadow_in_stays(
                        program@,
                        name@,
                        f@,
                        (j + 1) as nat,
                        f@.arg_names.len(),
                    );
                    lemma_shadow_report_stays(
                        program@,
                        (i + 1) as nat,
                        program@.functions.len(),
                    );
                }
                return Err(error(Fault::Shadowing, m, f.loc));
            }
            j += 1;
        }
        i += 1;
    }
    Ok(())
}

/// Checks that every call names a function that is defined.
pub fn check_for_undefined_functions(program: &Program) -> (r: Result<(), Diagnostic>)
    ensures
        match r {
            Ok(_) => holds(Rule::Calls, program@),
            Err(d) => !holds(Rule::Calls, program@) && d.fault == Fault::UndefinedFunction
                && broken_bodies(Rule::Calls, program@, program@.functions.len()) == Some(d@),
        },
{
    check_bodies(Rule::Calls, program)
}

/// Checks that every constructor names a struct that is defined.
pub fn check_for_undefined_structs(program: &Program) -> (r: Result<(), Diagnostic>)
    ensures
        match r {
            Ok(_) => holds(Rule::Constructors, program@),
            Err(d) => !holds(Rule::Constructors, program@) && d.fault == Fault::UndefinedStruct
                && broken_bodies(Rule::Constructors, program@, program@.functions.len()) == Some(
                d@,
            ),
        },
{
    check_bodies(Rule::Constructors, program)
}

/// Checks that every call has as many arguments as its callee has parameters.
pub fn check_for_arity_mismatches(program: &Program) -> (r: Result<(), Diagnostic>)
    ensures
        match r {
            Ok(_) => holds(Rule::Arity, program@),
            Err(d) => !holds(Rule::Arity, program@) && d.fault == Fault::ArityMismatch
                && broken_bodies(Rule::Arity, program@, program@.functions.len()) == Some(d@),
        },
{
    check_bodies(Rule::Arity, program)
}

/// Checks that every constructor gives the fields of its struct, all of them
/// and no others.
pub fn check_for_missing_fields(program: &Program) -> (r: Result<(), Diagnostic>)
    ensures
        match r {
            Ok(_) => holds(Rule::Fields, program@),
            Err(d) => !holds(Rule::Fields, program@) && d.fault == Fault::FieldMismatch
                && broken_bodies(Rule::Fields, program@, program@.functions.len()) == Some(d@),
        },
{
    check_bodies(Rule::Fields, program)
}

/// Checks that every variable is a parameter of the function around it, or a
/// function without parameters.
pub fn check_for_undefined_variables(program: &Program) -> (r: Result<(), Diagnostic>)
    ensures
        match r {
            Ok(_) => holds(Rule::Variables, program@),
            Err(d) => !holds(Rule::Variables, program@) && d.fault == Fault::UndefinedVariable
                && broken_bodies(Rule::Variables, program@, program@.functions.len()) == Some(d@),
        },
{
    check_bodies(Rule::Variables, program)
}

/// Checks one type annotation.
fn check_type(program: &Program, loc: Loc, ty: &Type) -> (r: Result<(), Diagnostic>)
    ensures
        match r {
            Ok(_) => resolves(program@, ty@) && type_report(program@, loc, ty@) is None,
            Err(d) => !resolves(program@, ty@) && d.fault == Fault::UndefinedType && type_report(
                program@,
                loc,
                ty@,
            ) == Some(d@),
        },
{
    match ty {
        Type::Int | Type::Bool => Ok(()),
        Type::Struct(name) => {
            if find_entry(&program.structs, name).is_some() {
                Ok(())
            } else {
                Err(error(Fault::UndefinedType, about("Type ", name, " is undefined"), loc))
            }
        },
    }
}

/// Checks a list of type annotations.
fn check_types(program: &Program, loc: Loc, types: &Vec<Type>) -> (r: Result<(), Diagnostic>)
    ensures
        match r {
            Ok(_) => all_resolve(program@, types.deep_view()) && types_report(
                program@,
                loc,
                types.deep_view(),
                types.len() as nat,
            ) is None,
            Err(d) => !all_resolve(program@, types.deep_view()) && d.fault
                == Fault::UndefinedType && types_report(
                program@,
                loc,
                types.deep_view(),
                types.len() as nat,
            ) == Some(d@),
        },
{
    let mut j: usize = 0;
    while j < types.len()
        invariant
            j <= types.len(),
            forall|k: int| 0 <= k < j ==> resolves(program@, #[trigger] types.deep_view()[k]),
            types_report(program@, loc, types.deep_view(), j as nat) is None,
        decreases types.len() - j,
    {
        match check_type(program, loc, &types[j]) {
            Ok(_) => {},
            Err(d) => {
                assert(!resolves(program@, types.deep_view()[j as int]));
                proof {
                    lemma_types_report_stays(
                        program@,
                        loc,
                        types.deep_view(),
                        (j + 1) as nat,
                        types.len() as nat,
                    );
                }
                return Err(d);
            },
        }
        j += 1;
    }
    Ok(())
}

/// Checks that every type that the program writes is `int`, `bool`, or a
/// struct that is defined, and reports the first that is not.
pub fn check_for_undefined_types(program: &Program) -> (r: Result<(), Diagnostic>)
    ensures
        match r {
            Ok(_) => types_resolve(program@) && first_of(
                function_types_report(program@, program@.functions.len()),
                struct_types_report(program@, program@.structs.len()),
            ) is None,
            Err(d) => !types_resolve(program@) && d.fault == Fault::UndefinedType && first_of(
                function_types_report(program@, program@.functions.len()),
                struct_types_report(program@, program@.structs.len()),
            ) == Some(d@),
        },
{
    let mut i: usize = 0;
    while i < program.functions.len()
        invariant
            i <= program.functions.len(),
            forall|k: int|
                0 <= k < i ==> all_resolve(program@, (#[trigger] program@.functions[k]).1.args)
                    && resolves(program@, program@.functions[k].1.ret_ty),
            function_types_report(program@, i as nat) is None,
        decreases program.functions.len() - i,
    {
        let f = &program.functions[i].1;
        assert(program@.functions[i as int].1 == f@);
        match check_types(program, f.loc, &f.args) {
            Ok(_) => {},
            Err(d) => {
                assert(!all_resolve(program@, program@.functions[i as int].1.args));
                proof {
                    lemma_function_types_report_stays(
                        program@,
                        (i + 1) as nat,
                        program@.functions.len(),
                    );
                }
                return Err(d);
            },
        }
        match check_type(program, f.loc, &f.ret_ty) {
            Ok(_) => {},
            Err(d) => {
                proof {
                    lemma_function_types_report_stays(
                        program@,
                        (i + 1) as nat,
                        program@.functions.len(),
                    );
                }
                return Err(d);
            },
        }
        i += 1;
    }
    let mut i: usize = 0;
    while i < program.structs.len()
        invariant
            i <= program.structs.len(),
            forall|k: int|
                0 <= k < program@.functions.len() ==> all_resolve(
                    program@,
                    (#[trigger] program@.functions[k]).1.args,
                ) && resolves(program@, program@.functions[k].1.ret_ty),
            forall|k: int|
                0 <= k < i ==> all_resolve(program@, (#[trigger] program@.structs[k]).1.fields),
            function_types_report(program@, program@.functions.len()) is None,
            struct_types_report(program@, i as nat) is None,
        decreases program.structs.len() - i,
    {
        let s = &program.structs[i].1;
        assert(program@.structs[i as int].1 == s@);
        match check_types(program, s.loc, &s.fields) {
            Ok(_) => {},
            Err(d) => {
                assert(!all_resolve(program@, program@.structs[i as int].1.fields));
                proof {
                    lemma_struct_types_report_stays(
                        program@,
                        (i + 1) as nat,
                        program@.structs.len(),
                    );
                }
                return Err(d);
            },
        }
        i += 1;
    }
    Ok(())
}

/// The report of a node that breaks a rule carries the fault of the rule.
proof fn lemma_report_fault(rule: Rule, p: ProgramView, f: FunctionView, e: ExprView)
    ensures
        broken_in(rule, p, f, e) matches Some(d) ==> d.fault == rule.fault(),
    decreases e, 0nat,
{
    if node_ok(rule, p, f, e) {
        match e {
            ExprView::Binary(_, l, r, _) => {
                lemma_report_fault(rule, p, f, *l);
                lemma_report_fault(rule, p, f, *r);
            },
            ExprView::If(c, t, el, _) => {
                lemma_report_fault(rule, p, f, *c);
                lemma_report_fault(rule, p, f, *t);
                lemma_report_fault(rule, p, f, *el);
            },
            ExprView::Call(_, args, _) => {
                lemma_report_fault_args(rule, p, f, args, args.len());
            },
            ExprView::Field(obj, _, _) => {
                lemma_report_fault(rule, p, f, *obj);
            },
            ExprView::Constructor(_, fields, _) => {
                lemma_report_fault_fields(rule, p, f, fields, fields.len());
            },
            _ => {},
        }
    }
}

proof fn lemma_report_fault_args(
    rule: Rule,
    p: ProgramView,
    f: FunctionView,
    args: Seq<ExprView>,
    n: nat,
)
    ensures
        broken_in_args(rule, p, f, args, n) matches Some(d) ==> d.fault == rule.fault(),
    decreases args, n,
{
    if n > 0 && n <= args.len() {
        lemma_report_fault_args(rule, p, f, args, (n - 1) as nat);
        lemma_report_fault(rule, p, f, args[n - 1]);
    }
}

proof fn lemma_report_fault_fields(
    rule: Rule,
    p: ProgramView,
    f: FunctionView,
    fields: Seq<(Seq<char>, ExprView)>,
    n: nat,
)
    ensures
        broken_in_fields(rule, p, f, fields, n) matches Some(d) ==> d.fault == rule.fault(),
    decreases fields, n,
{
    if n > 0 && n <= fields.len() {
        lemma_report_fault_fields(rule, p, f, fields, (n - 1) as nat);
        lemma_report_fault(rule, p, f, fields[n - 1].1);
    }
}

/// Runs the eight checks in their order and reports the first that fails,
/// at the first place where it fails.
pub fn check(program: &Program) -> (r: Result<(), Diagnostic>)
    ensures
        match r {
            Ok(_) => checked(program@) && check_report(program@) is None && (program@.wf()
                ==> sound(program@)),
            Err(d) => first_failure(program@) == Some(d.fault) && d.fault.stage() == Stage::Semantic
                && check_report(program@) == Some(d@),
        },
{
    proof {
        if checked(program@) && program@.wf() {
            lemma_check_sound(program@);
        }
    }
    check_for_result(program)?;
    check_for_shadowing(program)?;
    check_bodies(Rule::Calls, program)?;
    check_bodies(Rule::Constructors, program)?;
    check_bodies(Rule::Arity, program)?;
    check_bodies(Rule::Fields, program)?;
    check_bodies(Rule::Variables, program)?;
    check_for_undefined_types(program)?;
    Ok(())
}

} // verus!
