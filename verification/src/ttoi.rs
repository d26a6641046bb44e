//! The lowering: every argument of every call, and every value of every
//! constructor, is hoisted into a thunk that is named by callee, parameter
//! and call index.

use vstd::prelude::*;
use vstd::hash_map::StringHashMap;
use vstd::string::*;
use crate::il;
use crate::table::{
    entry_names,
    find_entry,
    find_name,
    first_index,
    keys,
    lemma_first_index,
    lookup,
};
use crate::text::{decimal, push_decimal};
use crate::thunks::{
    faithful, kept_functions, lemma_lower_program_faithful, lemma_lower_program_keeps_arguments,
    lemma_lower_program_scoped, scoped,
};
use crate::tir;
use crate::ty::{clone_types, Type, TypeView};

verus! {

/// The index that the next call of `name` gets: one more than the last, and
/// zero for the first.
pub open spec fn next_index(counters: Map<Seq<char>, nat>, name: Seq<char>) -> nat {
    if counters.contains_key(name) {
        counters[name]
    } else {
        0
    }
}

/// The name that a parameter or a field has in the lowered program: its
/// owner's name, two underscores, and its own name.
pub open spec fn obfuscated(owner: Seq<char>, member: Seq<char>) -> Seq<char> {
    owner + "__"@ + member
}

/// The lowered names of all parameters or fields of one owner.
pub open spec fn obfuscated_all(owner: Seq<char>, members: Seq<Seq<char>>) -> Seq<Seq<char>> {
    Seq::new(members.len(), |i: int| obfuscated(owner, members[i]))
}

/// The name of the thunk that holds what call `k` of `owner` gives to `member`.
pub open spec fn thunk_name(owner: Seq<char>, member: Seq<char>, k: nat) -> Seq<char> {
    owner + "__"@ + member + "__"@ + decimal(k)
}

/// A thunk: a definition without parameters that is no function of the source.
pub open spec fn thunk(t: TypeView, body: il::ExprView) -> il::FunctionView {
    il::FunctionView {
        args: Seq::empty(),
        arg_names: Seq::empty(),
        ret_ty: t,
        body,
        is_function: false,
    }
}

/// The thunks of call `k` of `owner`: one for each parameter or field, in
/// the order of their positions.
pub open spec fn thunks_for(
    owner: Seq<char>,
    names: Seq<Seq<char>>,
    types: Seq<TypeView>,
    bodies: Seq<il::ExprView>,
    k: nat,
) -> Seq<(Seq<char>, il::FunctionView)> {
    Seq::new(names.len(), |i: int| (thunk_name(owner, names[i], k), thunk(types[i], bodies[i])))
}

/// The values of a constructor, put in the order of the struct's fields.
pub open spec fn by_position(
    field_names: Seq<Seq<char>>,
    given: Seq<Seq<char>>,
    values: Seq<il::ExprView>,
) -> Seq<il::ExprView> {
    Seq::new(field_names.len(), |i: int| values[first_index(given, field_names[i])->0])
}

/// What the lowering carries from node to node: the next call index of each
/// callee, and the thunks made so far.
pub struct LowerState {
    pub counters: Map<Seq<char>, nat>,
    pub thunks: Seq<(Seq<char>, il::FunctionView)>,
}

impl LowerState {
    /// The state after one more call of `name`, whose thunks are `made`.
    pub open spec fn record(
        self,
        name: Seq<char>,
        made: Seq<(Seq<char>, il::FunctionView)>,
    ) -> LowerState {
        LowerState {
            counters: self.counters.insert(name, next_index(self.counters, name) + 1),
            thunks: self.thunks + made,
        }
    }
}

/// The lowered form of `e`, an expression in the body of `f`, and the state
/// after it. Operands are lowered before the node that holds them, from left
/// to right, so that a call takes its index after the calls among its arguments.
pub open spec fn lower_expr(
    p: tir::ProgramView,
    f: tir::FunctionView,
    e: tir::ExprView,
    st: LowerState,
) -> (il::ExprView, LowerState)
    decreases e, 0nat,
{
    match e {
        tir::ExprView::Var(name, _) => match first_index(f.arg_names, name) {
            Some(i) => (il::ExprView::Local(name, i as nat, f.args[i]), st),
            None => (il::ExprView::Global(name, lookup(p.functions, name)->0.ret_ty), st),
        },
        tir::ExprView::Num(n, t) => (il::ExprView::Num(n, t), st),
        tir::ExprView::Bool(b, t) => (il::ExprView::Bool(b, t), st),
        tir::ExprView::Binary(op, l, r, t) => {
            let (ll, s1) = lower_expr(p, f, *l, st);
            let (lr, s2) = lower_expr(p, f, *r, s1);
            (il::ExprView::Binary(op, Box::new(ll), Box::new(lr), t), s2)
        },
        tir::ExprView::If(c, th, el, t) => {
            let (lc, s1) = lower_expr(p, f, *c, st);
            let (lt, s2) = lower_expr(p, f, *th, s1);
            let (le, s3) = lower_expr(p, f, *el, s2);
            (il::ExprView::If(Box::new(lc), Box::new(lt), Box::new(le), t), s3)
        },
        tir::ExprView::Call(name, args, t) => {
            let (values, s1) = lower_args(p, f, args, args.len(), st);
            let g = lookup(p.functions, name)->0;
            let k = next_index(s1.counters, name);
            (
                il::ExprView::Call(name, k, t),
                s1.record(name, thunks_for(name, g.arg_names, g.args, values, k)),
            )
        },
        tir::ExprView::Field(obj, field, t) => {
            let (lo, s1) = lower_expr(p, f, *obj, st);
            let sd = lookup(p.structs, obj.ty()->Struct_0)->0;
            (
                il::ExprView::Field(
                    Box::new(lo),
                    first_index(sd.field_names, field)->0 as nat,
                    t,
                ),
                s1,
            )
        },
        tir::ExprView::Constructor(name, fields, t) => {
            let (values, s1) = lower_fields(p, f, fields, fields.len(), st);
            let sd = lookup(p.structs, name)->0;
            let k = next_index(s1.counters, name);
            (
                il::ExprView::Constructor(name, k, t),
                s1.record(
                    name,
                    thunks_for(
                        name,
                        sd.field_names,
                        sd.fields,
                        by_position(sd.field_names, keys(fields), values),
                        k,
                    ),
                ),
            )
        },
    }
}

/// The lowered forms of the first `n` arguments of a call, and the state after them.
pub open spec fn lower_args(
    p: tir::ProgramView,
    f: tir::FunctionView,
    args: Seq<tir::ExprView>,
    n: nat,
    st: LowerState,
) -> (Seq<il::ExprView>, LowerState)
    decreases args, n,
{
    if n == 0 || n > args.len() {
        (Seq::empty(), st)
    } else {
        let (values, s1) = lower_args(p, f, args, (n - 1) as nat, st);
        let (value, s2) = lower_expr(p, f, args[n - 1], s1);
        (values.push(value), s2)
    }
}

/// The lowered forms of the first `n` values of a constructor, in the order
/// in which they were written, and the state after them.
pub open spec fn lower_fields(
    p: tir::ProgramView,
    f: tir::FunctionView,
    fields: Seq<(Seq<char>, tir::ExprView)>,
    n: nat,
    st: LowerState,
) -> (Seq<il::ExprView>, LowerState)
    decreases fields, n,
{
    if n == 0 || n > fields.len() {
        (Seq::empty(), st)
    } else {
        let (values, s1) = lower_fields(p, f, fields, (n - 1) as nat, st);
        let (value, s2) = lower_expr(p, f, fields[n - 1].1, s1);
        (values.push(value), s2)
    }
}

/// The lowered form of a function of the source, given its lowered body.
pub open spec fn lower_function(
    name: Seq<char>,
    f: tir::FunctionView,
    body: il::ExprView,
) -> il::FunctionView {
    il::FunctionView {
        args: f.args,
        arg_names: obfuscated_all(name, f.arg_names),
        ret_ty: f.ret_ty,
        body,
        is_function: true,
    }
}

/// The lowered forms of the first `n` functions of the program, and the
/// state after them. One state runs through all of them.
pub open spec fn lower_functions(p: tir::ProgramView, n: nat, st: LowerState) -> (
    Seq<(Seq<char>, il::FunctionView)>,
    LowerState,
)
    decreases n,
{
    if n == 0 || n > p.functions.len() {
        (Seq::empty(), st)
    } else {
        let (fs, s1) = lower_functions(p, (n - 1) as nat, st);
        let (name, f) = p.functions[n - 1];
        let (body, s2) = lower_expr(p, f, f.body, s1);
        (fs.push((name, lower_function(name, f, body))), s2)
    }
}

/// The lowered form of a struct.
pub open spec fn lower_struct(name: Seq<char>, s: tir::StructView) -> il::StructView {
    il::StructView { fields: s.fields, field_names: obfuscated_all(name, s.field_names) }
}

/// The structs of the lowered program.
pub open spec fn lower_structs(p: tir::ProgramView) -> Seq<(Seq<char>, il::StructView)> {
    Seq::new(p.structs.len(), |i: int| (p.structs[i].0, lower_struct(p.structs[i].0, p.structs[i].1)))
}

/// The state in which the lowering of a program starts.
pub open spec fn initial_state() -> LowerState {
    LowerState { counters: Map::empty(), thunks: Seq::empty() }
}

/// The lowered program: the functions of the source in their order, then
/// the thunks in the order in which they were made.
pub open spec fn lower_program(p: tir::ProgramView) -> il::ProgramView {
    let (fs, st) = lower_functions(p, p.functions.len(), initial_state());
    il::ProgramView { functions: fs + st.thunks, structs: lower_structs(p) }
}

/// The number of calls and constructors in the first `n` functions of the program.
pub open spec fn calls_in_functions(p: tir::ProgramView, n: nat) -> nat
    decreases n,
{
    if n == 0 || n > p.functions.len() {
        0
    } else {
        calls_in_functions(p, (n - 1) as nat) + p.functions[n - 1].1.body.calls()
    }
}

/// The next call index of each callee: a hash map from the callee's name to
/// the number of its calls so far. A callee that has not been called yet has
/// no entry.
pub struct Counters {
    pub calls: StringHashMap<usize>,
}

impl View for Counters {
    type V = Map<Seq<char>, nat>;

    open spec fn view(&self) -> Map<Seq<char>, nat> {
        Map::new(
            |name: Seq<char>| self.calls@.contains_key(name),
            |name: Seq<char>| self.calls@[name] as nat,
        )
    }
}

impl Counters {
    pub fn new() -> (c: Self)
        ensures
            c@ == Map::<Seq<char>, nat>::empty(),
    {
        let c = Counters { calls: StringHashMap::new() };
        assert(c@ =~= Map::<Seq<char>, nat>::empty());
        c
    }

    /// Takes the next call index of `name`.
    pub fn bump(&mut self, name: &String) -> (k: usize)
        requires
            next_index(old(self)@, name@) < usize::MAX,
        ensures
            k == next_index(old(self)@, name@),
            final(self)@ == old(self)@.insert(name@, (k + 1) as nat),
    {
        let k = match self.calls.get(name.as_str()) {
            Some(k) => *k,
            None => 0,
        };
        self.calls.insert(name.clone(), k + 1);
        assert(self@ =~= old(self)@.insert(name@, (k + 1) as nat));
        k
    }
}

/// Every call in `e` names a function of the typed program `p`, and every
/// constructor one of its structs.
pub open spec fn names_defined(p: tir::ProgramView, e: il::ExprView) -> bool
    decreases e,
{
    match e {
        il::ExprView::Binary(_, l, r, _) => names_defined(p, *l) && names_defined(p, *r),
        il::ExprView::If(c, t, el, _) => names_defined(p, *c) && names_defined(p, *t)
            && names_defined(p, *el),
        il::ExprView::Field(obj, _, _) => names_defined(p, *obj),
        il::ExprView::Call(name, _, _) => lookup(p.functions, name) is Some,
        il::ExprView::Constructor(name, _, _) => lookup(p.structs, name) is Some,
        _ => true,
    }
}

/// The body of every thunk names only what `p` defines.
pub open spec fn thunks_defined(p: tir::ProgramView, thunks: Seq<(Seq<char>, il::FunctionView)>) -> bool {
    forall|j: int| 0 <= j < thunks.len() ==> names_defined(p, (#[trigger] thunks[j]).1.body)
}

/// The body of every definition names only what `p` defines.
pub open spec fn all_defined(p: tir::ProgramView, fs: Seq<(Seq<char>, il::FunctionView)>) -> bool {
    forall|j: int| 0 <= j < fs.len() ==> names_defined(p, (#[trigger] fs[j]).1.body)
}

/// Lowering a well-typed expression gives an expression that names only what
/// the program defines, and so do the thunks that it makes.
pub proof fn lemma_lower_expr_defined(
    p: tir::ProgramView,
    f: tir::FunctionView,
    e: tir::ExprView,
    st: LowerState,
)
    requires
        p.wf(),
        p.typed(f.arg_names, f.args, e),
        thunks_defined(p, st.thunks),
    ensures
        names_defined(p, lower_expr(p, f, e, st).0),
        thunks_defined(p, lower_expr(p, f, e, st).1.thunks),
    decreases e, 0nat,
{
    match e {
        tir::ExprView::Binary(op, l, r, t) => {
            lemma_lower_expr_defined(p, f, *l, st);
            let s1 = lower_expr(p, f, *l, st).1;
            lemma_lower_expr_defined(p, f, *r, s1);
        },
        tir::ExprView::If(c, th, el, t) => {
            lemma_lower_expr_defined(p, f, *c, st);
            let s1 = lower_expr(p, f, *c, st).1;
            lemma_lower_expr_defined(p, f, *th, s1);
            let s2 = lower_expr(p, f, *th, s1).1;
            lemma_lower_expr_defined(p, f, *el, s2);
        },
        tir::ExprView::Call(name, args, t) => {
            lemma_lower_args_defined(p, f, args, args.len(), st);
            let (values, s1) = lower_args(p, f, args, args.len(), st);
            let g = lookup(p.functions, name)->0;
            lemma_first_index(keys(p.functions), name);
            assert(p.functions[first_index(keys(p.functions), name)->0].1.wf());
            let made = thunks_for(name, g.arg_names, g.args, values, next_index(s1.counters, name));
            let after = lower_expr(p, f, e, st).1.thunks;
            assert(after == s1.thunks + made);
            assert forall|j: int| 0 <= j < after.len() implies names_defined(
                p,
                (#[trigger] after[j]).1.body,
            ) by {
                if j < s1.thunks.len() {
                    assert(after[j] == s1.thunks[j]);
                } else {
                    assert(after[j] == made[j - s1.thunks.len()]);
                    assert(after[j].1.body == values[j - s1.thunks.len()]);
                }
            }
        },
        tir::ExprView::Field(obj, field, t) => {
            lemma_lower_expr_defined(p, f, *obj, st);
        },
        tir::ExprView::Constructor(name, fields, t) => {
            lemma_lower_fields_defined(p, f, fields, fields.len(), st);
            let sd = lookup(p.structs, name)->0;
            let values = lower_fields(p, f, fields, fields.len(), st).0;
            let ordered = by_position(sd.field_names, keys(fields), values);
            assert forall|i: int| 0 <= i < sd.field_names.len() implies names_defined(
                p,
                #[trigger] ordered[i],
            ) by {
                lemma_first_index(keys(fields), sd.field_names[i]);
            }
            let s1 = lower_fields(p, f, fields, fields.len(), st).1;
            let made = thunks_for(
                name,
                sd.field_names,
                sd.fields,
                ordered,
                next_index(s1.counters, name),
            );
            let after = lower_expr(p, f, e, st).1.thunks;
            assert(after == s1.thunks + made);
            assert forall|j: int| 0 <= j < after.len() implies names_defined(
                p,
                (#[trigger] after[j]).1.body,
            ) by {
                if j < s1.thunks.len() {
                    assert(after[j] == s1.thunks[j]);
                } else {
                    assert(after[j] == made[j - s1.thunks.len()]);
                    assert(after[j].1.body == ordered[j - s1.thunks.len()]);
                }
            }
        },
        _ => {},
    }
}

/// The lowered arguments of a call name only what the program defines, and
/// so do the thunks made on the way.
pub proof fn lemma_lower_args_defined(
    p: tir::ProgramView,
    f: tir::FunctionView,
    args: Seq<tir::ExprView>,
    n: nat,
    st: LowerState,
)
    requires
        p.wf(),
        n <= args.len(),
        forall|i: int| 0 <= i < args.len() ==> p.typed(f.arg_names, f.args, #[trigger] args[i]),
        thunks_defined(p, st.thunks),
    ensures
        lower_args(p, f, args, n, st).0.len() == n,
        forall|i: int|
            0 <= i < n ==> names_defined(p, #[trigger] lower_args(p, f, args, n, st).0[i]),
        thunks_defined(p, lower_args(p, f, args, n, st).1.thunks),
    decreases args, n,
{
    if n > 0 {
        lemma_lower_args_defined(p, f, args, (n - 1) as nat, st);
        let s1 = lower_args(p, f, args, (n - 1) as nat, st).1;
        lemma_lower_expr_defined(p, f, args[n - 1], s1);
    }
}

/// The lowered values of a constructor name only what the program defines,
/// and so do the thunks made on the way.
pub proof fn lemma_lower_fields_defined(
    p: tir::ProgramView,
    f: tir::FunctionView,
    fields: Seq<(Seq<char>, tir::ExprView)>,
    n: nat,
    st: LowerState,
)
    requires
        p.wf(),
        n <= fields.len(),
        forall|i: int|
            0 <= i < fields.len() ==> p.typed(f.arg_names, f.args, (#[trigger] fields[i]).1),
        thunks_defined(p, st.thunks),
    ensures
        lower_fields(p, f, fields, n, st).0.len() == n,
        forall|i: int|
            0 <= i < n ==> names_defined(p, #[trigger] lower_fields(p, f, fields, n, st).0[i]),
        thunks_defined(p, lower_fields(p, f, fields, n, st).1.thunks),
    decreases fields, n,
{
    if n > 0 {
        lemma_lower_fields_defined(p, f, fields, (n - 1) as nat, st);
        let s1 = lower_fields(p, f, fields, (n - 1) as nat, st).1;
        lemma_lower_expr_defined(p, f, fields[n - 1].1, s1);
    }
}

/// The lowered functions name only what the program defines, and so do the
/// thunks made on the way; each lowered function has the name of its source.
pub proof fn lemma_lower_functions_defined(p: tir::ProgramView, n: nat, st: LowerState)
    requires
        p.valid(),
        n <= p.functions.len(),
        thunks_defined(p, st.thunks),
    ensures
        lower_functions(p, n, st).0.len() == n,
        forall|i: int| 0 <= i < n ==> (#[trigger] lower_functions(p, n, st).0[i]).0 == p.functions[i].0,
        all_defined(p, lower_functions(p, n, st).0),
        thunks_defined(p, lower_functions(p, n, st).1.thunks),
    decreases n,
{
    if n > 0 {
        lemma_lower_functions_defined(p, (n - 1) as nat, st);
        let s1 = lower_functions(p, (n - 1) as nat, st).1;
        let f = p.functions[n - 1].1;
        assert(p.typed(f.arg_names, f.args, f.body));
        lemma_lower_expr_defined(p, f, f.body, s1);
    }
}

/// An expression that names only what the typed program defines resolves in
/// every lowered program that files the functions of the typed program
/// first and has its structs.
pub proof fn lemma_defined_resolves(p: tir::ProgramView, q: il::ProgramView, e: il::ExprView)
    requires
        names_defined(p, e),
        keys(q.structs) == keys(p.structs),
        keys(p.functions).len() <= keys(q.functions).len(),
        forall|i: int|
            0 <= i < keys(p.functions).len() ==> (#[trigger] keys(q.functions)[i]) == keys(
                p.functions,
            )[i],
    ensures
        q.resolves(e),
    decreases e,
{
    match e {
        il::ExprView::Binary(_, l, r, _) => {
            lemma_defined_resolves(p, q, *l);
            lemma_defined_resolves(p, q, *r);
        },
        il::ExprView::If(c, t, el, _) => {
            lemma_defined_resolves(p, q, *c);
            lemma_defined_resolves(p, q, *t);
            lemma_defined_resolves(p, q, *el);
        },
        il::ExprView::Field(obj, _, _) => {
            lemma_defined_resolves(p, q, *obj);
        },
        il::ExprView::Call(name, _, _) => {
            lemma_first_index(keys(p.functions), name);
            lemma_first_index(keys(q.functions), name);
            let i = first_index(keys(p.functions), name)->0;
            assert(keys(q.functions)[i] == name);
        },
        _ => {},
    }
}

/// The lowered form of a valid program is closed: every call in it names one
/// of its definitions, and every constructor one of its structs.
pub proof fn lemma_lower_program_closed(p: tir::ProgramView)
    requires
        p.valid(),
    ensures
        lower_program(p).closed(),
{
    let q = lower_program(p);
    let n = p.functions.len();
    lemma_lower_functions_defined(p, n, initial_state());
    let (fs, st) = lower_functions(p, n, initial_state());
    assert(keys(q.structs) =~= keys(p.structs));
    assert forall|i: int| 0 <= i < keys(p.functions).len() implies (#[trigger] keys(
        q.functions,
    )[i]) == keys(p.functions)[i] by {
        assert(q.functions[i] == fs[i]);
    }
    assert forall|i: int| 0 <= i < q.functions.len() implies q.resolves(
        (#[trigger] q.functions[i]).1.body,
    ) by {
        if i < n {
            assert(q.functions[i] == fs[i]);
        } else {
            assert(q.functions[i] == st.thunks[i - n]);
        }
        lemma_defined_resolves(p, q, q.functions[i].1.body);
    }
}

/// The state that the two builders of the lowering hold between them.
pub open spec fn state_of(calls: Counters, thunks: Vec<(String, il::Function)>) -> LowerState {
    LowerState { counters: calls@, thunks: thunks.deep_view() }
}

/// Every counter can still take `more` calls.
pub open spec fn room(counters: Map<Seq<char>, nat>, more: nat) -> bool {
    forall|n: Seq<char>| #[trigger] next_index(counters, n) + more <= usize::MAX
}

/// No counter has grown by more than `by`.
pub open spec fn grown(before: Map<Seq<char>, nat>, after: Map<Seq<char>, nat>, by: nat) -> bool {
    forall|n: Seq<char>| #[trigger] next_index(after, n) <= next_index(before, n) + by
}

proof fn lemma_calls_in_monotone(es: Seq<tir::ExprView>, m: nat, n: nat)
    requires
        m <= n <= es.len(),
    ensures
        tir::calls_in(es, m) <= tir::calls_in(es, n),
    decreases n,
{
    if m < n {
        lemma_calls_in_monotone(es, m, (n - 1) as nat);
    }
}

proof fn lemma_calls_in_fields_monotone(es: Seq<(Seq<char>, tir::ExprView)>, m: nat, n: nat)
    requires
        m <= n <= es.len(),
    ensures
        tir::calls_in_fields(es, m) <= tir::calls_in_fields(es, n),
    decreases n,
{
    if m < n {
        lemma_calls_in_fields_monotone(es, m, (n - 1) as nat);
    }
}

proof fn lemma_calls_in_functions_monotone(p: tir::ProgramView, m: nat, n: nat)
    requires
        m <= n <= p.functions.len(),
    ensures
        calls_in_functions(p, m) <= calls_in_functions(p, n),
    decreases n,
{
    if m < n {
        lemma_calls_in_functions_monotone(p, m, (n - 1) as nat);
    }
}

/// The lowered names of the parameters or fields of one owner.
fn obfuscate_all(owner: &String, members: &Vec<String>) -> (r: Vec<String>)
    ensures
        r.deep_view() == obfuscated_all(owner@, members.deep_view()),
{
    let mut r: Vec<String> = Vec::new();
    let mut i: usize = 0;
    while i < members.len()
        invariant
            i <= members.len(),
            r.len() == i,
            forall|j: int| 0 <= j < i ==> r[j]@ == obfuscated(owner@, members[j]@),
        decreases members.len() - i,
    {
        let mut name = owner.clone();
        name.append("__");
        name.append(members[i].as_str());
        r.push(name);
        i += 1;
    }
    assert(r.deep_view() =~= obfuscated_all(owner@, members.deep_view()));
    r
}

/// Files the thunks of call `k` of `owner`.
fn push_thunks(
    map: &mut Vec<(String, il::Function)>,
    owner: &String,
    names: &Vec<String>,
    types: &Vec<Type>,
    bodies: &Vec<il::Expr>,
    k: usize,
)
    requires
        names.len() == types.len(),
        names.len() == bodies.len(),
    ensures
        final(map).deep_view() == old(map).deep_view() + thunks_for(
            owner@,
            names.deep_view(),
            types.deep_view(),
            bodies.deep_view(),
            k as nat,
        ),
{
    let ghost made = thunks_for(
        owner@,
        names.deep_view(),
        types.deep_view(),
        bodies.deep_view(),
        k as nat,
    );
    let mut i: usize = 0;
    while i < names.len()
        invariant
            i <= names.len(),
            names.len() == types.len(),
            names.len() == bodies.len(),
            map.len() == old(map).len() + i,
            forall|j: int| 0 <= j < old(map).len() ==> map[j].deep_view() == old(map)[j].deep_view(),
            forall|j: int| 0 <= j < i ==> map[old(map).len() + j].deep_view() == made[j],
            made == thunks_for(
                owner@,
                names.deep_view(),
                types.deep_view(),
                bodies.deep_view(),
                k as nat,
            ),
        decreases names.len() - i,
    {
        let mut name = owner.clone();
        name.append("__");
        name.append(names[i].as_str());
        name.append("__");
        push_decimal(&mut name, k as u64);
        let f = il::Function::new(
            Vec::new(),
            Vec::new(),
            types[i].clone(),
            bodies[i].clone(),
            false,
        );
        proof {
            assert(f@.args =~= Seq::<TypeView>::empty());
            assert(f@.arg_names =~= Seq::<Seq<char>>::empty());
            assert(f@ == thunk(types[i as int]@, bodies[i as int]@));
        }
        map.push((name, f));
        i += 1;
    }
    assert(map.deep_view() =~= old(map).deep_view() + made);
}

/// Lowers a call: its arguments first, then the call takes its index and
/// its arguments go into thunks.
#[verifier::loop_isolation(false)]
fn transform_call(
    map: &mut Vec<(String, il::Function)>,
    calls: &mut Counters,
    program: &tir::Program,
    function: &tir::Function,
    expr: &tir::Expr,
    name: &String,
    args: &Vec<tir::Expr>,
    ty: &Type,
) -> (r: il::Expr)
    requires
        *expr == tir::Expr::Call(*name, *args, *ty),
        program@.wf(),
        program@.typed(function@.arg_names, function@.args, expr@),
        room(old(calls)@, expr@.calls()),
    ensures
        (r@, state_of(*final(calls), *final(map))) == lower_expr(
            program@,
            function@,
            expr@,
            state_of(*old(calls), *old(map)),
        ),
        grown(old(calls)@, final(calls)@, expr@.calls()),
    decreases expr@, 0nat,
{
    proof {
        tir::lemma_call_model(*name, *args, *ty);
    }
    let ghost actuals = tir::models(args@);
    let ghost st0 = state_of(*old(calls), *old(map));
    let mut values: Vec<il::Expr> = Vec::new();
    let mut i: usize = 0;
    while i < args.len()
        invariant
            i <= args.len(),
            values.len() == i,
            (values.deep_view(), state_of(*calls, *map)) == lower_args(
                program@,
                function@,
                actuals,
                i as nat,
                st0,
            ),
            grown(old(calls)@, calls@, tir::calls_in(actuals, i as nat)),
        decreases args.len() - i,
    {
        proof {
            lemma_calls_in_monotone(actuals, (i + 1) as nat, args.len() as nat);
            assert(actuals[i as int] == args[i as int]@);
        }
        let ghost before = values.deep_view();
        let value = transform_expr(map, calls, program, function, &args[i]);
        values.push(value);
        assert(values.deep_view() =~= before.push(value@));
        i += 1;
    }
    let fi = find_entry(&program.functions, name).unwrap();
    let g = &program.functions[fi].1;
    assert(program@.functions[fi as int].1.wf());
    let ghost mid = calls@;
    let k = calls.bump(name);
    proof {
        assert forall|n: Seq<char>| #[trigger]
            next_index(calls@, n) <= next_index(old(calls)@, n) + expr@.calls() by {
            assert(next_index(mid, n) <= next_index(old(calls)@, n) + tir::calls_in(
                actuals,
                args.len() as nat,
            ));
        }
    }
    push_thunks(map, name, &g.arg_names, &g.args, &values, k);
    il::Expr::Call(name.clone(), k, ty.clone())
}

/// Lowers a constructor: its values first, in the order in which they were
/// written, then the constructor takes its index and the values go into
/// thunks, in the order of the struct's fields.
#[verifier::loop_isolation(false)]
fn transform_constructor(
    map: &mut Vec<(String, il::Function)>,
    calls: &mut Counters,
    program: &tir::Program,
    function: &tir::Function,
    expr: &tir::Expr,
    name: &String,
    fields: &Vec<(String, tir::Expr)>,
    ty: &Type,
) -> (r: il::Expr)
    requires
        *expr == tir::Expr::Constructor(*name, *fields, *ty),
        program@.wf(),
        program@.typed(function@.arg_names, function@.args, expr@),
        room(old(calls)@, expr@.calls()),
    ensures
        (r@, state_of(*final(calls), *final(map))) == lower_expr(
            program@,
            function@,
            expr@,
            state_of(*old(calls), *old(map)),
        ),
        grown(old(calls)@, final(calls)@, expr@.calls()),
    decreases expr@, 0nat,
{
    proof {
        tir::lemma_constructor_model(*name, *fields, *ty);
        assert(fields.deep_view() =~= tir::named_models(fields@));
    }
    let ghost given = tir::named_models(fields@);
    let ghost st0 = state_of(*old(calls), *old(map));
    let mut values: Vec<il::Expr> = Vec::new();
    let mut i: usize = 0;
    while i < fields.len()
        invariant
            i <= fields.len(),
            values.len() == i,
            (values.deep_view(), state_of(*calls, *map)) == lower_fields(
                program@,
                function@,
                given,
                i as nat,
                st0,
            ),
            grown(old(calls)@, calls@, tir::calls_in_fields(given, i as nat)),
        decreases fields.len() - i,
    {
        proof {
            lemma_calls_in_fields_monotone(given, (i + 1) as nat, fields.len() as nat);
            assert(given[i as int].1 == fields[i as int].1@);
        }
        let ghost before = values.deep_view();
        let value = transform_expr(map, calls, program, function, &fields[i].1);
        values.push(value);
        assert(values.deep_view() =~= before.push(value@));
        i += 1;
    }
    let si = find_entry(&program.structs, name).unwrap();
    let sd = &program.structs[si].1;
    assert(program@.structs[si as int].1.wf());
    let names = entry_names(fields);
    let mut ordered: Vec<il::Expr> = Vec::new();
    let mut j: usize = 0;
    while j < sd.field_names.len()
        invariant
            j <= sd.field_names.len(),
            ordered.len() == j,
            forall|m: int|
                0 <= m < j ==> (#[trigger] ordered[m])@ == values.deep_view()[first_index(
                    keys(given),
                    sd@.field_names[m],
                )->0],
        decreases sd.field_names.len() - j,
    {
        assert(first_index(keys(given), sd@.field_names[j as int]) is Some);
        let at = find_name(&names, &sd.field_names[j]).unwrap();
        ordered.push(values[at].clone());
        j += 1;
    }
    assert(ordered.deep_view() =~= by_position(sd@.field_names, keys(given), values.deep_view()));
    let ghost mid = calls@;
    let k = calls.bump(name);
    proof {
        assert forall|n: Seq<char>| #[trigger]
            next_index(calls@, n) <= next_index(old(calls)@, n) + expr@.calls() by {
            assert(next_index(mid, n) <= next_index(old(calls)@, n) + tir::calls_in_fields(
                given,
                fields.len() as nat,
            ));
        }
    }
    push_thunks(map, name, &sd.field_names, &sd.fields, &ordered, k);
    il::Expr::Constructor(name.clone(), k, ty.clone())
}

/// Lowers one expression of the body of `function`. The thunks that it
/// makes are filed in `map`; `calls` holds the next index of each callee.
pub fn transform_expr(
    map: &mut Vec<(String, il::Function)>,
    calls: &mut Counters,
    program: &tir::Program,
    function: &tir::Function,
    expr: &tir::Expr,
) -> (r: il::Expr)
    requires
        program@.wf(),
        program@.typed(function@.arg_names, function@.args, expr@),
        room(old(calls)@, expr@.calls()),
    ensures
        (r@, state_of(*final(calls), *final(map))) == lower_expr(
            program@,
            function@,
            expr@,
            state_of(*old(calls), *old(map)),
        ),
        grown(old(calls)@, final(calls)@, expr@.calls()),
    decreases expr@, 1nat,
{
    if let Some((op, l, r, t)) = expr.as_binary() {
        let ll = transform_expr(map, calls, program, function, l);
        let lr = transform_expr(map, calls, program, function, r);
        return il::Expr::binary(op, ll, lr, t.clone());
    }
    match expr {
        tir::Expr::Var(name, _) => {
            match find_name(&function.arg_names, name) {
                Some(idx) => il::Expr::Local(name.clone(), idx, function.args[idx].clone()),
                None => {
                    let fi = find_entry(&program.functions, name).unwrap();
                    il::Expr::Global(name.clone(), program.functions[fi].1.ret_ty.clone())
                },
            }
        },
        tir::Expr::Num(n, t) => il::Expr::Num(*n, t.clone()),
        tir::Expr::Bool(b, t) => il::Expr::Bool(*b, t.clone()),
        tir::Expr::If(c, th, el, t) => {
            let lc = transform_expr(map, calls, program, function, c);
            let lt = transform_expr(map, calls, program, function, th);
            let le = transform_expr(map, calls, program, function, el);
            il::Expr::If(Box::new(lc), Box::new(lt), Box::new(le), t.clone())
        },
        tir::Expr::Call(name, args, t) => transform_call(
            map,
            calls,
            program,
            function,
            expr,
            name,
            args,
            t,
        ),
        tir::Expr::Field(obj, field, t) => {
            let lo = transform_expr(map, calls, program, function, obj);
            let ot = obj.ty();
            let position = match &ot {
                Type::Struct(struct_name) => {
                    let si = find_entry(&program.structs, struct_name).unwrap();
                    find_name(&program.structs[si].1.field_names, field).unwrap()
                },
                _ => {
                    assert(false);
                    0
                },
            };
            il::Expr::Field(Box::new(lo), position, t.clone())
        },
        tir::Expr::Constructor(name, fields, t) => transform_constructor(
            map,
            calls,
            program,
            function,
            expr,
            name,
            fields,
            t,
        ),
        _ => {
            assert(false);
            il::Expr::Num(0, Type::Int)
        },
    }
}

/// The structs of the lowered program.
pub fn transform_structs(program: &tir::Program) -> (structs: Vec<(String, il::Struct)>)
    ensures
        structs.deep_view() == lower_structs(program@),
{
    let mut structs: Vec<(String, il::Struct)> = Vec::new();
    let mut i: usize = 0;
    while i < program.structs.len()
        invariant
            i <= program.structs.len(),
            structs.len() == i,
            forall|j: int|
                0 <= j < i ==> (#[trigger] structs[j]).deep_view() == lower_structs(program@)[j],
        decreases program.structs.len() - i,
    {
        let name = &program.structs[i].0;
        let s = &program.structs[i].1;
        structs.push(
            (name.clone(), il::Struct::new(clone_types(&s.fields), obfuscate_all(name, &s.field_names))),
        );
        i += 1;
    }
    assert(structs.deep_view() =~= lower_structs(program@));
    structs
}

/// The definitions of the lowered program: the functions of the source,
/// then the thunks.
pub fn transform_functions(program: &tir::Program) -> (functions: Vec<(String, il::Function)>)
    requires
        program@.valid(),
        calls_in_functions(program@, program@.functions.len()) <= usize::MAX,
    ensures
        functions.deep_view() == lower_program(program@).functions,
{
    let mut functions: Vec<(String, il::Function)> = Vec::new();
    let mut new_functions: Vec<(String, il::Function)> = Vec::new();
    let mut calls = Counters::new();
    let mut i: usize = 0;
    assert(new_functions.deep_view() =~= Seq::empty());
    assert(functions.deep_view() =~= Seq::empty());
    while i < program.functions.len()
        invariant
            i <= program.functions.len(),
            functions.len() == i,
            program@.valid(),
            calls_in_functions(program@, program@.functions.len()) <= usize::MAX,
            (functions.deep_view(), state_of(calls, new_functions)) == lower_functions(
                program@,
                i as nat,
                initial_state(),
            ),
            grown(Map::empty(), calls@, calls_in_functions(program@, i as nat)),
        decreases program.functions.len() - i,
    {
        let name = &program.functions[i].0;
        let f = &program.functions[i].1;
        proof {
            lemma_calls_in_functions_monotone(
                program@,
                (i + 1) as nat,
                program@.functions.len() as nat,
            );
            assert(program@.functions[i as int] == (name@, f@));
        }
        let ghost before = functions.deep_view();
        let body = transform_expr(&mut new_functions, &mut calls, program, f, &f.body);
        let lowered = il::Function::new(
            clone_types(&f.args),
            obfuscate_all(name, &f.arg_names),
            f.ret_ty.clone(),
            body,
            true,
        );
        functions.push((name.clone(), lowered));
        assert(functions.deep_view() =~= before.push((name@, lower_function(name@, f@, body@))));
        i += 1;
    }
    let ghost sources = functions.deep_view();
    let ghost thunks = new_functions.deep_view();
    functions.append(&mut new_functions);
    assert(functions.deep_view() =~= sources + thunks);
    functions
}

/// Lowers a typed program: every argument of every call, and every value of
/// every constructor, moves into a thunk of its own.
pub fn transform(program: tir::Program) -> (lowered: il::Program)
    requires
        program@.valid(),
        calls_in_functions(program@, program@.functions.len()) <= usize::MAX,
    ensures
        lowered@ == lower_program(program@),
        lowered@.closed(),
        faithful(program@, lowered@),
        forall|j: int|
            0 <= j < lowered@.functions.len() ==> scoped(
                lowered@,
                (#[trigger] lowered@.functions[j]).1.body,
            ),
        kept_functions(program@, program@.functions.len(), initial_state(), lowered@.functions),
{
    proof {
        lemma_lower_program_closed(program@);
        lemma_lower_program_faithful(program@);
        lemma_lower_program_scoped(program@);
        lemma_lower_program_keeps_arguments(program@);
    }
    let structs = transform_structs(&program);
    let functions = transform_functions(&program);
    il::Program::new(functions, structs)
}

/// The number of calls and constructors in an expression, where the
/// machine's integers can hold it.
#[verifier::loop_isolation(false)]
pub fn count_calls_in(expr: &tir::Expr) -> (r: Option<usize>)
    ensures
        match r {
            Some(n) => n == expr@.calls(),
            None => expr@.calls() > usize::MAX,
        },
    decreases expr,
{
    match expr {
        tir::Expr::Add(l, r, _)
        | tir::Expr::Sub(l, r, _)
        | tir::Expr::Mul(l, r, _)
        | tir::Expr::Eq(l, r, _)
        | tir::Expr::Neq(l, r, _)
        | tir::Expr::Lt(l, r, _)
        | tir::Expr::Gt(l, r, _)
        | tir::Expr::Le(l, r, _)
        | tir::Expr::Ge(l, r, _) => {
            let a = count_calls_in(l)?;
            let b = count_calls_in(r)?;
            a.checked_add(b)
        },
        tir::Expr::If(c, t, e, _) => {
            let a = count_calls_in(c)?;
            let b = count_calls_in(t)?;
            let d = count_calls_in(e)?;
            a.checked_add(b)?.checked_add(d)
        },
        tir::Expr::Call(name, args, ty) => {
            proof {
                tir::lemma_call_model(*name, *args, *ty);
            }
            let ghost actuals = tir::models(args@);
            let mut total: usize = 0;
            let mut i: usize = 0;
            while i < args.len()
                invariant
                    i <= args.len(),
                    total == tir::calls_in(actuals, i as nat),
                decreases args.len() - i,
            {
                proof {
                    lemma_calls_in_monotone(actuals, (i + 1) as nat, args.len() as nat);
                    assert(actuals[i as int] == args[i as int]@);
                }
                let n = count_calls_in(&args[i])?;
                total = total.checked_add(n)?;
                i += 1;
            }
            total.checked_add(1)
        },
        tir::Expr::Field(obj, _, _) => count_calls_in(obj),
        tir::Expr::Constructor(name, fields, ty) => {
            proof {
                tir::lemma_constructor_model(*name, *fields, *ty);
            }
            let ghost given = tir::named_models(fields@);
            let mut total: usize = 0;
            let mut i: usize = 0;
            while i < fields.len()
                invariant
                    i <= fields.len(),
                    total == tir::calls_in_fields(given, i as nat),
                decreases fields.len() - i,
            {
                proof {
                    lemma_calls_in_fields_monotone(given, (i + 1) as nat, fields.len() as nat);
                    assert(given[i as int].1 == fields[i as int].1@);
                }
                let n = count_calls_in(&fields[i].1)?;
                total = total.checked_add(n)?;
                i += 1;
            }
            total.checked_add(1)
        },
        _ => Some(0),
    }
}

/// Whether the machine's integers can count the calls and constructors of
/// the program.
pub fn countable(program: &tir::Program) -> (b: bool)
    ensures
        b == (calls_in_functions(program@, program@.functions.len()) <= usize::MAX),
{
    let mut total: usize = 0;
    let mut i: usize = 0;
    while i < program.functions.len()
        invariant
            i <= program.functions.len(),
            total == calls_in_functions(program@, i as nat),
        decreases program.functions.len() - i,
    {
        proof {
            lemma_calls_in_functions_monotone(
                program@,
                (i + 1) as nat,
                program@.functions.len() as nat,
            );
            assert(program@.functions[i as int].1 == program.functions[i as int].1@);
        }
        let n = match count_calls_in(&program.functions[i].1.body) {
            Some(n) => n,
            None => {
                return false;
            },
        };
        total = match total.checked_add(n) {
            Some(t) => t,
            None => {
                return false;
            },
        };
        i += 1;
    }
    true
}

} // verus!
