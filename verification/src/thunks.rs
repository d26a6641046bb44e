//! What holds of the thunks of a lowered program: their names tell them
//! apart, and every call finds the thunks of its arguments.

use vstd::prelude::*;
use vstd::string::*;
use crate::il;
use crate::table::{
    all_plain, distinct, first_index, keys, lemma_first_index, lemma_first_index_at,
    lemma_first_index_is, lookup, plain,
};
use crate::text::{decimal, lemma_decimal_injective};
use crate::tir;
use crate::ttoi::{
    by_position, initial_state, lower_args, lower_expr, lower_fields, lower_functions,
    lower_program, next_index, thunk, thunk_name, thunks_for, LowerState,
};
use crate::ty::TypeView;

verus! {

/// The separator of the names that the lowering makes up is two underscores.
pub proof fn lemma_separator()
    ensures
        "__"@ == seq!['_', '_'],
{
    reveal_strlit("__");
    assert("__"@ =~= seq!['_', '_']);
}

/// A text that starts with a plain name and the separator can be split in
/// one way only.
pub proof fn lemma_split(a: Seq<char>, x: Seq<char>, b: Seq<char>, y: Seq<char>)
    requires
        plain(a),
        plain(b),
        a + "__"@ + x == b + "__"@ + y,
    ensures
        a == b,
        x == y,
{
    lemma_separator();
    let l = a + "__"@ + x;
    let r = b + "__"@ + y;
    if a.len() < b.len() {
        assert(l[a.len() as int] == '_');
        assert(r[a.len() as int] == b[a.len() as int]);
    } else if b.len() < a.len() {
        assert(r[b.len() as int] == '_');
        assert(l[b.len() as int] == a[b.len() as int]);
    }
    assert(a =~= b) by {
        assert forall|i: int| 0 <= i < a.len() implies a[i] == b[i] by {
            assert(l[i] == a[i]);
            assert(r[i] == b[i]);
        }
    }
    assert(l.len() == a.len() + 2 + x.len());
    assert(r.len() == b.len() + 2 + y.len());
    assert(x =~= y) by {
        assert forall|i: int| 0 <= i < x.len() implies x[i] == y[i] by {
            assert(l[a.len() + 2 + i] == x[i]);
            assert(r[b.len() + 2 + i] == y[i]);
        }
    }
}

/// The name of a thunk tells its owner, its member and its index.
pub proof fn lemma_thunk_name_injective(
    o: Seq<char>,
    m: Seq<char>,
    k: nat,
    o2: Seq<char>,
    m2: Seq<char>,
    k2: nat,
)
    requires
        plain(o),
        plain(m),
        plain(o2),
        plain(m2),
        thunk_name(o, m, k) == thunk_name(o2, m2, k2),
    ensures
        o == o2,
        m == m2,
        k == k2,
{
    let x = m + "__"@ + decimal(k);
    let x2 = m2 + "__"@ + decimal(k2);
    assert(thunk_name(o, m, k) =~= o + "__"@ + x);
    assert(thunk_name(o2, m2, k2) =~= o2 + "__"@ + x2);
    lemma_split(o, x, o2, x2);
    lemma_split(m, decimal(k), m2, decimal(k2));
    lemma_decimal_injective(k, k2);
}

/// The name of a thunk is not plain: no name of the source is a thunk's name.
pub proof fn lemma_thunk_name_not_plain(o: Seq<char>, m: Seq<char>, k: nat)
    ensures
        !plain(thunk_name(o, m, k)),
{
    lemma_separator();
    assert(thunk_name(o, m, k)[o.len() as int] == '_');
}

/// `m` is a parameter of the function `o`, or a field of the struct `o`.
pub open spec fn member_of(p: tir::ProgramView, o: Seq<char>, m: Seq<char>) -> bool {
    ||| (lookup(p.functions, o) matches Some(g) && first_index(g.arg_names, m) is Some)
    ||| (lookup(p.structs, o) matches Some(s) && first_index(s.field_names, m) is Some)
}

/// The name is that of a thunk of some member of some owner of the program.
pub open spec fn belongs(p: tir::ProgramView, name: Seq<char>) -> bool {
    exists|o: Seq<char>, m: Seq<char>, k: nat| #[trigger]
        thunk_name(o, m, k) == name && member_of(p, o, m)
}

/// The name is that of a thunk of a call that has taken its index already.
pub open spec fn made(p: tir::ProgramView, counters: Map<Seq<char>, nat>, name: Seq<char>) -> bool {
    exists|o: Seq<char>, m: Seq<char>, k: nat| #[trigger]
        thunk_name(o, m, k) == name && member_of(p, o, m) && k < next_index(counters, o)
}

/// A definition is a thunk: no function of the source, and without parameters.
pub open spec fn is_thunk(f: il::FunctionView) -> bool {
    !f.is_function && f.args.len() == 0 && f.arg_names.len() == 0
}

/// Among the definitions, `name` is a thunk that gives a value of type `t`.
pub open spec fn holds_thunk(
    defs: Seq<(Seq<char>, il::FunctionView)>,
    name: Seq<char>,
    t: TypeView,
) -> bool {
    lookup(defs, name) matches Some(th) && is_thunk(th) && th.ret_ty == t
}

/// Every call in `e` finds, among the definitions, one thunk for each
/// parameter of its callee, named by the callee, the parameter and the
/// call's index, and of the parameter's type; and every constructor finds one
/// for each field of its struct.
pub open spec fn served(
    p: tir::ProgramView,
    defs: Seq<(Seq<char>, il::FunctionView)>,
    e: il::ExprView,
) -> bool
    decreases e,
{
    match e {
        il::ExprView::Binary(_, l, r, _) => served(p, defs, *l) && served(p, defs, *r),
        il::ExprView::If(c, t, el, _) => served(p, defs, *c) && served(p, defs, *t) && served(
            p,
            defs,
            *el,
        ),
        il::ExprView::Field(obj, _, _) => served(p, defs, *obj),
        il::ExprView::Call(name, k, _) => lookup(p.functions, name) matches Some(g) && forall|
            i: int,
        |
            0 <= i < g.arg_names.len() ==> holds_thunk(
                defs,
                thunk_name(name, #[trigger] g.arg_names[i], k),
                g.args[i],
            ),
        il::ExprView::Constructor(name, k, _) => lookup(p.structs, name) matches Some(s)
            && forall|i: int|
            0 <= i < s.field_names.len() ==> holds_thunk(
                defs,
                thunk_name(name, #[trigger] s.field_names[i], k),
                s.fields[i],
            ),
        _ => true,
    }
}

/// What holds of the state between any two steps of the lowering: no two
/// thunks have one name, every thunk belongs to a call that has taken its
/// index, and every call in a thunk is served.
pub open spec fn inv(p: tir::ProgramView, st: LowerState) -> bool {
    &&& distinct(keys(st.thunks))
    &&& forall|j: int| 0 <= j < st.thunks.len() ==> is_thunk((#[trigger] st.thunks[j]).1)
    &&& forall|j: int|
        0 <= j < st.thunks.len() ==> made(p, st.counters, (#[trigger] st.thunks[j]).0)
    &&& forall|j: int|
        0 <= j < st.thunks.len() ==> served(p, st.thunks, (#[trigger] st.thunks[j]).1.body)
}

/// `b` starts with the entries of `a`.
pub open spec fn starts_with<T>(b: Seq<T>, a: Seq<T>) -> bool {
    a.len() <= b.len() && forall|j: int| 0 <= j < a.len() ==> #[trigger] b[j] == a[j]
}

/// The state `b` comes after the state `a`: it has the thunks of `a` and
/// maybe more behind them, and no counter has gone back.
pub open spec fn extends(a: LowerState, b: LowerState) -> bool {
    &&& starts_with(b.thunks, a.thunks)
    &&& forall|n: Seq<char>| next_index(a.counters, n) <= #[trigger] next_index(b.counters, n)
}

/// What is found in a list is found in every list that starts with it.
pub proof fn lemma_lookup_prefix<T>(
    a: Seq<(Seq<char>, T)>,
    b: Seq<(Seq<char>, T)>,
    name: Seq<char>,
)
    requires
        starts_with(b, a),
        lookup(a, name) is Some,
    ensures
        lookup(b, name) == lookup(a, name),
{
    lemma_first_index(keys(a), name);
    let i = first_index(keys(a), name)->0;
    assert forall|j: int| 0 <= j <= i implies keys(b)[j] == keys(a)[j] by {
        assert(b[j] == a[j]);
    }
    lemma_first_index_is(keys(b), name, i);
}

/// What is found in a list is found behind every list that does not hold its name.
pub proof fn lemma_lookup_behind<T>(
    front: Seq<(Seq<char>, T)>,
    a: Seq<(Seq<char>, T)>,
    name: Seq<char>,
)
    requires
        forall|j: int| 0 <= j < front.len() ==> (#[trigger] front[j]).0 != name,
        lookup(a, name) is Some,
    ensures
        lookup(front + a, name) == lookup(a, name),
{
    lemma_first_index(keys(a), name);
    let i = first_index(keys(a), name)->0;
    let all = front + a;
    assert forall|j: int| 0 <= j < front.len() + i implies keys(all)[j] != name by {
        if j < front.len() {
            assert(all[j] == front[j]);
        } else {
            assert(all[j] == a[j - front.len()]);
            assert(keys(a)[j - front.len()] != name);
        }
    }
    assert(all[front.len() + i] == a[i]);
    lemma_first_index_is(keys(all), name, front.len() + i);
}

/// An expression that is served by a list of definitions is served by every
/// list that starts with it.
pub proof fn lemma_served_prefix(
    p: tir::ProgramView,
    a: Seq<(Seq<char>, il::FunctionView)>,
    b: Seq<(Seq<char>, il::FunctionView)>,
    e: il::ExprView,
)
    requires
        starts_with(b, a),
        served(p, a, e),
    ensures
        served(p, b, e),
    decreases e,
{
    match e {
        il::ExprView::Binary(_, l, r, _) => {
            lemma_served_prefix(p, a, b, *l);
            lemma_served_prefix(p, a, b, *r);
        },
        il::ExprView::If(c, t, el, _) => {
            lemma_served_prefix(p, a, b, *c);
            lemma_served_prefix(p, a, b, *t);
            lemma_served_prefix(p, a, b, *el);
        },
        il::ExprView::Field(obj, _, _) => {
            lemma_served_prefix(p, a, b, *obj);
        },
        il::ExprView::Call(name, k, _) => {
            let g = lookup(p.functions, name)->0;
            assert forall|i: int| 0 <= i < g.arg_names.len() implies holds_thunk(
                b,
                thunk_name(name, #[trigger] g.arg_names[i], k),
                g.args[i],
            ) by {
                lemma_lookup_prefix(a, b, thunk_name(name, g.arg_names[i], k));
            }
        },
        il::ExprView::Constructor(name, k, _) => {
            let s = lookup(p.structs, name)->0;
            assert forall|i: int| 0 <= i < s.field_names.len() implies holds_thunk(
                b,
                thunk_name(name, #[trigger] s.field_names[i], k),
                s.fields[i],
            ) by {
                lemma_lookup_prefix(a, b, thunk_name(name, s.field_names[i], k));
            }
        },
        _ => {},
    }
}

/// An expression that is served by the thunks is served by the thunks behind
/// definitions with plain names.
pub proof fn lemma_served_behind(
    p: tir::ProgramView,
    front: Seq<(Seq<char>, il::FunctionView)>,
    a: Seq<(Seq<char>, il::FunctionView)>,
    e: il::ExprView,
)
    requires
        all_plain(keys(front)),
        served(p, a, e),
    ensures
        served(p, front + a, e),
    decreases e,
{
    match e {
        il::ExprView::Binary(_, l, r, _) => {
            lemma_served_behind(p, front, a, *l);
            lemma_served_behind(p, front, a, *r);
        },
        il::ExprView::If(c, t, el, _) => {
            lemma_served_behind(p, front, a, *c);
            lemma_served_behind(p, front, a, *t);
            lemma_served_behind(p, front, a, *el);
        },
        il::ExprView::Field(obj, _, _) => {
            lemma_served_behind(p, front, a, *obj);
        },
        il::ExprView::Call(name, k, _) => {
            let g = lookup(p.functions, name)->0;
            assert forall|i: int| 0 <= i < g.arg_names.len() implies holds_thunk(
                front + a,
                thunk_name(name, #[trigger] g.arg_names[i], k),
                g.args[i],
            ) by {
                let n = thunk_name(name, g.arg_names[i], k);
                lemma_thunk_name_not_plain(name, g.arg_names[i], k);
                assert forall|j: int| 0 <= j < front.len() implies (#[trigger] front[j]).0
                    != n by {
                    assert(plain(keys(front)[j]));
                }
                lemma_lookup_behind(front, a, n);
            }
        },
        il::ExprView::Constructor(name, k, _) => {
            let s = lookup(p.structs, name)->0;
            assert forall|i: int| 0 <= i < s.field_names.len() implies holds_thunk(
                front + a,
                thunk_name(name, #[trigger] s.field_names[i], k),
                s.fields[i],
            ) by {
                let n = thunk_name(name, s.field_names[i], k);
                lemma_thunk_name_not_plain(name, s.field_names[i], k);
                assert forall|j: int| 0 <= j < front.len() implies (#[trigger] front[j]).0
                    != n by {
                    assert(plain(keys(front)[j]));
                }
                lemma_lookup_behind(front, a, n);
            }
        },
        _ => {},
    }
}

/// In a well-formed program, owners and members have plain names.
pub proof fn lemma_member_plain(p: tir::ProgramView, o: Seq<char>, m: Seq<char>)
    requires
        p.wf(),
        member_of(p, o, m),
    ensures
        plain(o),
        plain(m),
{
    lemma_first_index(keys(p.functions), o);
    lemma_first_index(keys(p.structs), o);
    if lookup(p.functions, o) matches Some(g) && first_index(g.arg_names, m) is Some {
        let i = first_index(keys(p.functions), o)->0;
        let g = p.functions[i].1;
        assert(plain(keys(p.functions)[i]));
        assert(g.wf());
        lemma_first_index(g.arg_names, m);
        assert(plain(g.arg_names[first_index(g.arg_names, m)->0]));
    } else {
        let i = first_index(keys(p.structs), o)->0;
        let s = p.structs[i].1;
        assert(plain(keys(p.structs)[i]));
        assert(s.wf());
        lemma_first_index(s.field_names, m);
        assert(plain(s.field_names[first_index(s.field_names, m)->0]));
    }
}

/// The step of a call or a constructor keeps the state in order: the owner
/// takes its next index, and the thunks of the call are filed behind the
/// others, where each is found under its name.
pub proof fn lemma_record(
    p: tir::ProgramView,
    s1: LowerState,
    owner: Seq<char>,
    names: Seq<Seq<char>>,
    types: Seq<TypeView>,
    bodies: Seq<il::ExprView>,
)
    requires
        p.wf(),
        inv(p, s1),
        distinct(names),
        names.len() == types.len(),
        names.len() == bodies.len(),
        forall|i: int| 0 <= i < names.len() ==> member_of(p, owner, #[trigger] names[i]),
        forall|i: int| 0 <= i < bodies.len() ==> served(p, s1.thunks, #[trigger] bodies[i]),
    ensures
        ({
            let k = next_index(s1.counters, owner);
            let s2 = s1.record(owner, thunks_for(owner, names, types, bodies, k));
            &&& inv(p, s2)
            &&& extends(s1, s2)
            &&& forall|i: int|
                0 <= i < names.len() ==> lookup(s2.thunks, thunk_name(owner, #[trigger] names[i], k))
                    == Some(thunk(types[i], bodies[i]))
        }),
{
    let k = next_index(s1.counters, owner);
    let fresh = thunks_for(owner, names, types, bodies, k);
    let s2 = s1.record(owner, fresh);
    let old_len = s1.thunks.len() as int;
    assert(starts_with(s2.thunks, s1.thunks));
    assert forall|j: int| 0 <= j < s2.thunks.len() implies made(
        p,
        s2.counters,
        (#[trigger] s2.thunks[j]).0,
    ) by {
        if j < old_len {
            let n = s1.thunks[j].0;
            assert(s2.thunks[j] == s1.thunks[j]);
            assert(made(p, s1.counters, n));
            let (o, m, kk) = choose|o: Seq<char>, m: Seq<char>, kk: nat| #[trigger]
                thunk_name(o, m, kk) == n && member_of(p, o, m) && kk < next_index(
                    s1.counters,
                    o,
                );
            assert(thunk_name(o, m, kk) == n && member_of(p, o, m) && kk < next_index(
                s2.counters,
                o,
            ));
        } else {
            let i = j - old_len;
            assert(s2.thunks[j] == fresh[i]);
            assert(thunk_name(owner, names[i], k) == fresh[i].0 && member_of(p, owner, names[i])
                && k < next_index(s2.counters, owner));
        }
    }
    assert forall|a: int, b: int| 0 <= a < b < s2.thunks.len() implies keys(s2.thunks)[a] != keys(
        s2.thunks,
    )[b] by {
        if b < old_len {
            assert(keys(s1.thunks)[a] != keys(s1.thunks)[b]);
        } else {
            let i = b - old_len;
            assert(s2.thunks[b] == fresh[i]);
            lemma_member_plain(p, owner, names[i]);
            if a < old_len {
                let n = s1.thunks[a].0;
                assert(s2.thunks[a] == s1.thunks[a]);
                assert(made(p, s1.counters, n));
                let (o, m, kk) = choose|o: Seq<char>, m: Seq<char>, kk: nat| #[trigger]
                    thunk_name(o, m, kk) == n && member_of(p, o, m) && kk < next_index(
                        s1.counters,
                        o,
                    );
                lemma_member_plain(p, o, m);
                if n == thunk_name(owner, names[i], k) {
                    lemma_thunk_name_injective(o, m, kk, owner, names[i], k);
                }
            } else {
                let h = a - old_len;
                assert(s2.thunks[a] == fresh[h]);
                lemma_member_plain(p, owner, names[h]);
                if thunk_name(owner, names[h], k) == thunk_name(owner, names[i], k) {
                    lemma_thunk_name_injective(owner, names[h], k, owner, names[i], k);
                }
            }
        }
    }
    assert forall|j: int| 0 <= j < s2.thunks.len() implies served(
        p,
        s2.thunks,
        (#[trigger] s2.thunks[j]).1.body,
    ) && is_thunk(s2.thunks[j].1) by {
        if j < old_len {
            assert(s2.thunks[j] == s1.thunks[j]);
            lemma_served_prefix(p, s1.thunks, s2.thunks, s1.thunks[j].1.body);
        } else {
            let i = j - old_len;
            assert(s2.thunks[j] == fresh[i]);
            lemma_served_prefix(p, s1.thunks, s2.thunks, bodies[i]);
        }
    }
    assert forall|i: int| 0 <= i < names.len() implies lookup(
        s2.thunks,
        thunk_name(owner, #[trigger] names[i], k),
    ) == Some(thunk(types[i], bodies[i])) by {
        assert(s2.thunks[old_len + i] == fresh[i]);
        lemma_first_index_at(keys(s2.thunks), old_len + i);
    }
}

/// Lowering a well-typed expression keeps the state in order, and every call
/// in the lowered expression is served by the thunks of the state behind it.
pub proof fn lemma_lower_expr_served(
    p: tir::ProgramView,
    f: tir::FunctionView,
    e: tir::ExprView,
    st: LowerState,
)
    requires
        p.wf(),
        p.typed(f.arg_names, f.args, e),
        inv(p, st),
    ensures
        inv(p, lower_expr(p, f, e, st).1),
        extends(st, lower_expr(p, f, e, st).1),
        served(p, lower_expr(p, f, e, st).1.thunks, lower_expr(p, f, e, st).0),
    decreases e, 0nat,
{
    match e {
        tir::ExprView::Binary(op, l, r, t) => {
            lemma_lower_expr_served(p, f, *l, st);
            let (ll, s1) = lower_expr(p, f, *l, st);
            lemma_lower_expr_served(p, f, *r, s1);
            let (lr, s2) = lower_expr(p, f, *r, s1);
            lemma_served_prefix(p, s1.thunks, s2.thunks, ll);
            lemma_extends_trans(st, s1, s2);
        },
        tir::ExprView::If(c, th, el, t) => {
            lemma_lower_expr_served(p, f, *c, st);
            let (lc, s1) = lower_expr(p, f, *c, st);
            lemma_lower_expr_served(p, f, *th, s1);
            let (lt, s2) = lower_expr(p, f, *th, s1);
            lemma_lower_expr_served(p, f, *el, s2);
            let (le, s3) = lower_expr(p, f, *el, s2);
            lemma_extends_trans(st, s1, s2);
            lemma_extends_trans(st, s2, s3);
            lemma_extends_trans(s1, s2, s3);
            lemma_served_prefix(p, s1.thunks, s3.thunks, lc);
            lemma_served_prefix(p, s2.thunks, s3.thunks, lt);
        },
        tir::ExprView::Call(name, args, t) => {
            lemma_lower_args_served(p, f, args, args.len(), st);
            let (values, s1) = lower_args(p, f, args, args.len(), st);
            let g = lookup(p.functions, name)->0;
            lemma_first_index(keys(p.functions), name);
            assert(p.functions[first_index(keys(p.functions), name)->0].1.wf());
            assert forall|i: int| 0 <= i < g.arg_names.len() implies member_of(
                p,
                name,
                #[trigger] g.arg_names[i],
            ) by {
                lemma_first_index_at(g.arg_names, i);
            }
            lemma_record(p, s1, name, g.arg_names, g.args, values);
            let s2 = lower_expr(p, f, e, st).1;
            lemma_extends_trans(st, s1, s2);
        },
        tir::ExprView::Field(obj, field, t) => {
            lemma_lower_expr_served(p, f, *obj, st);
        },
        tir::ExprView::Constructor(name, fields, t) => {
            lemma_lower_fields_served(p, f, fields, fields.len(), st);
            let (values, s1) = lower_fields(p, f, fields, fields.len(), st);
            let sd = lookup(p.structs, name)->0;
            lemma_first_index(keys(p.structs), name);
            assert(p.structs[first_index(keys(p.structs), name)->0].1.wf());
            let ordered = by_position(sd.field_names, keys(fields), values);
            assert forall|i: int| 0 <= i < sd.field_names.len() implies member_of(
                p,
                name,
                #[trigger] sd.field_names[i],
            ) by {
                lemma_first_index_at(sd.field_names, i);
            }
            assert forall|i: int| 0 <= i < ordered.len() implies served(
                p,
                s1.thunks,
                #[trigger] ordered[i],
            ) by {
                lemma_first_index(keys(fields), sd.field_names[i]);
            }
            lemma_record(p, s1, name, sd.field_names, sd.fields, ordered);
            let s2 = lower_expr(p, f, e, st).1;
            lemma_extends_trans(st, s1, s2);
        },
        _ => {},
    }
}

/// Coming after is transitive.
pub proof fn lemma_extends_trans(a: LowerState, b: LowerState, c: LowerState)
    requires
        extends(a, b),
        extends(b, c),
    ensures
        extends(a, c),
{
    assert forall|j: int| 0 <= j < a.thunks.len() implies #[trigger] c.thunks[j]
        == a.thunks[j] by {
        assert(b.thunks[j] == a.thunks[j]);
    }
    assert forall|n: Seq<char>| next_index(a.counters, n) <= #[trigger] next_index(
        c.counters,
        n,
    ) by {
        assert(next_index(a.counters, n) <= next_index(b.counters, n));
    }
}

/// Lowering the arguments of a call keeps the state in order, and every
/// lowered argument is served by the thunks of the state behind them.
pub proof fn lemma_lower_args_served(
    p: tir::ProgramView,
    f: tir::FunctionView,
    args: Seq<tir::ExprView>,
    n: nat,
    st: LowerState,
)
    requires
        p.wf(),
        n <= args.len(),
        forall|i: int| 0 <= i < args.len() ==> p.typed(f.arg_names, f.args, #[trigger] args[i]),
        inv(p, st),
    ensures
        lower_args(p, f, args, n, st).0.len() == n,
        inv(p, lower_args(p, f, args, n, st).1),
        extends(st, lower_args(p, f, args, n, st).1),
        forall|i: int|
            0 <= i < n ==> served(
                p,
                lower_args(p, f, args, n, st).1.thunks,
                #[trigger] lower_args(p, f, args, n, st).0[i],
            ),
    decreases args, n,
{
    if n > 0 {
        lemma_lower_args_served(p, f, args, (n - 1) as nat, st);
        let (values, s1) = lower_args(p, f, args, (n - 1) as nat, st);
        lemma_lower_expr_served(p, f, args[n - 1], s1);
        let (value, s2) = lower_expr(p, f, args[n - 1], s1);
        lemma_extends_trans(st, s1, s2);
        let all = values.push(value);
        assert forall|i: int| 0 <= i < n implies served(p, s2.thunks, #[trigger] all[i]) by {
            if i < n - 1 {
                assert(all[i] == values[i]);
                lemma_served_prefix(p, s1.thunks, s2.thunks, values[i]);
            }
        }
    }
}

/// Lowering the values of a constructor keeps the state in order, and every
/// lowered value is served by the thunks of the state behind them.
pub proof fn lemma_lower_fields_served(
    p: tir::ProgramView,
    f: tir::FunctionView,
    fields: Seq<(Seq<char>, tir::ExprView)>,
    n: nat,
    st: LowerState,
)
    requires
        p.wf(),
        n <= fields.len(),
        forall|i: int|
            0 <= i < fields.len() ==> p.typed(f.arg_names, f.args, (#[trigger] fields[i]).1),
        inv(p, st),
    ensures
        lower_fields(p, f, fields, n, st).0.len() == n,
        inv(p, lower_fields(p, f, fields, n, st).1),
        extends(st, lower_fields(p, f, fields, n, st).1),
        forall|i: int|
            0 <= i < n ==> served(
                p,
                lower_fields(p, f, fields, n, st).1.thunks,
                #[trigger] lower_fields(p, f, fields, n, st).0[i],
            ),
    decreases fields, n,
{
    if n > 0 {
        lemma_lower_fields_served(p, f, fields, (n - 1) as nat, st);
        let (values, s1) = lower_fields(p, f, fields, (n - 1) as nat, st);
        lemma_lower_expr_served(p, f, fields[n - 1].1, s1);
        let (value, s2) = lower_expr(p, f, fields[n - 1].1, s1);
        lemma_extends_trans(st, s1, s2);
        let all = values.push(value);
        assert forall|i: int| 0 <= i < n implies served(p, s2.thunks, #[trigger] all[i]) by {
            if i < n - 1 {
                assert(all[i] == values[i]);
                lemma_served_prefix(p, s1.thunks, s2.thunks, values[i]);
            }
        }
    }
}

/// Lowering the functions of a valid program keeps the state in order. Each
/// lowered function has the name of its source and is a function, and every
/// call in its body is served by the thunks of the state behind them all.
pub proof fn lemma_lower_functions_served(p: tir::ProgramView, n: nat, st: LowerState)
    requires
        p.valid(),
        n <= p.functions.len(),
        inv(p, st),
    ensures
        lower_functions(p, n, st).0.len() == n,
        inv(p, lower_functions(p, n, st).1),
        extends(st, lower_functions(p, n, st).1),
        forall|i: int|
            0 <= i < n ==> {
                let lowered = #[trigger] lower_functions(p, n, st).0[i];
                &&& lowered.0 == p.functions[i].0
                &&& lowered.1.is_function
                &&& served(p, lower_functions(p, n, st).1.thunks, lowered.1.body)
            },
    decreases n,
{
    if n > 0 {
        lemma_lower_functions_served(p, (n - 1) as nat, st);
        let (fs, s1) = lower_functions(p, (n - 1) as nat, st);
        let f = p.functions[n - 1].1;
        assert(p.typed(f.arg_names, f.args, f.body));
        lemma_lower_expr_served(p, f, f.body, s1);
        let (body, s2) = lower_expr(p, f, f.body, s1);
        lemma_extends_trans(st, s1, s2);
        let all = lower_functions(p, n, st).0;
        assert forall|i: int| 0 <= i < n implies {
            let lowered = #[trigger] all[i];
            &&& lowered.0 == p.functions[i].0
            &&& lowered.1.is_function
            &&& served(p, s2.thunks, lowered.1.body)
        } by {
            if i < n - 1 {
                assert(all[i] == fs[i]);
                lemma_served_prefix(p, s1.thunks, s2.thunks, fs[i].1.body);
            }
        }
    }
}

/// What holds between a typed program and its lowered form. The functions
/// of the source come first, under their names, and they alone are
/// functions. Every definition behind them is the thunk of a member of an
/// owner of the program. No two definitions have one name. Every call in
/// every body finds one thunk for each parameter of its callee, and every
/// constructor one for each field of its struct.
pub open spec fn faithful(p: tir::ProgramView, q: il::ProgramView) -> bool {
    &&& distinct(keys(q.functions))
    &&& q.functions.len() >= p.functions.len()
    &&& forall|j: int|
        0 <= j < p.functions.len() ==> (#[trigger] q.functions[j]).0 == p.functions[j].0
            && q.functions[j].1.is_function
    &&& forall|j: int|
        p.functions.len() <= j < q.functions.len() ==> is_thunk((#[trigger] q.functions[j]).1)
            && belongs(p, q.functions[j].0)
    &&& forall|j: int|
        0 <= j < q.functions.len() ==> served(p, q.functions, (#[trigger] q.functions[j]).1.body)
}

/// The lowered form of a valid program is faithful to it.
pub proof fn lemma_lower_program_faithful(p: tir::ProgramView)
    requires
        p.valid(),
    ensures
        faithful(p, lower_program(p)),
{
    let q = lower_program(p);
    let n = p.functions.len();
    assert(inv(p, initial_state()));
    lemma_lower_functions_served(p, n, initial_state());
    let (fs, st) = lower_functions(p, n, initial_state());
    assert(q.functions == fs + st.thunks);
    assert(keys(fs) =~= keys(p.functions));
    assert forall|j: int| n <= j < q.functions.len() implies is_thunk(
        (#[trigger] q.functions[j]).1,
    ) && belongs(p, q.functions[j].0) by {
        assert(q.functions[j] == st.thunks[j - n]);
        let name = st.thunks[j - n].0;
        assert(made(p, st.counters, name));
        let (o, m, k) = choose|o: Seq<char>, m: Seq<char>, k: nat| #[trigger]
            thunk_name(o, m, k) == name && member_of(p, o, m) && k < next_index(st.counters, o);
        assert(thunk_name(o, m, k) == name && member_of(p, o, m));
    }
    assert forall|a: int, b: int| 0 <= a < b < q.functions.len() implies keys(q.functions)[a]
        != keys(q.functions)[b] by {
        if b < n {
            assert(q.functions[a] == fs[a]);
            assert(q.functions[b] == fs[b]);
            assert(keys(p.functions)[a] != keys(p.functions)[b]);
        } else if a >= n {
            assert(q.functions[a] == st.thunks[a - n]);
            assert(q.functions[b] == st.thunks[b - n]);
            assert(keys(st.thunks)[a - n] != keys(st.thunks)[b - n]);
        } else {
            assert(q.functions[a] == fs[a]);
            assert(plain(keys(p.functions)[a]));
            assert(belongs(p, q.functions[b].0));
            let (o, m, k) = choose|o: Seq<char>, m: Seq<char>, k: nat| #[trigger]
                thunk_name(o, m, k) == q.functions[b].0 && member_of(p, o, m);
            lemma_thunk_name_not_plain(o, m, k);
        }
    }
    assert forall|j: int| 0 <= j < q.functions.len() implies served(
        p,
        q.functions,
        (#[trigger] q.functions[j]).1.body,
    ) by {
        if j < n {
            assert(q.functions[j] == fs[j]);
            lemma_served_behind(p, fs, st.thunks, fs[j].1.body);
        } else {
            assert(q.functions[j] == st.thunks[j - n]);
            lemma_served_behind(p, fs, st.thunks, st.thunks[j - n].1.body);
        }
    }
    assert forall|j: int| 0 <= j < n implies (#[trigger] q.functions[j]).0 == p.functions[j].0
        && q.functions[j].1.is_function by {
        assert(q.functions[j] == fs[j]);
    }
}

/// In a faithful lowered program, a definition whose name is that of a
/// thunk of the function `name` belongs to a parameter of that function:
/// with one thunk for each parameter of each call, under names that tell
/// callee, parameter and index apart, a call has exactly as many thunks as
/// its callee has parameters.
pub proof fn lemma_thunks_are_parameters(
    p: tir::ProgramView,
    q: il::ProgramView,
    j: int,
    name: Seq<char>,
    m: Seq<char>,
    k: nat,
)
    requires
        p.wf(),
        faithful(p, q),
        0 <= j < q.functions.len(),
        plain(name),
        plain(m),
        q.functions[j].0 == thunk_name(name, m, k),
        lookup(p.functions, name) is Some,
    ensures
        first_index(lookup(p.functions, name)->0.arg_names, m) is Some,
        is_thunk(q.functions[j].1),
{
    lemma_thunk_name_not_plain(name, m, k);
    if j < p.functions.len() {
        assert(plain(keys(p.functions)[j]));
    }
    assert(belongs(p, q.functions[j].0));
    let (o, m2, k2) = choose|o: Seq<char>, m2: Seq<char>, k2: nat| #[trigger]
        thunk_name(o, m2, k2) == q.functions[j].0 && member_of(p, o, m2);
    lemma_member_plain(p, o, m2);
    lemma_thunk_name_injective(o, m2, k2, name, m, k);
    lemma_first_index(keys(p.functions), name);
    lemma_first_index(keys(p.structs), name);
    if lookup(p.structs, name) is Some {
        let a = first_index(keys(p.functions), name)->0;
        let b = first_index(keys(p.structs), name)->0;
        assert(p.functions[a].0 != p.structs[b].0);
    }
}

/// The thunk of a parameter of a call holds the lowered form of the
/// argument that the call gives to that parameter.
pub proof fn lemma_thunk_holds_argument(
    p: tir::ProgramView,
    f: tir::FunctionView,
    name: Seq<char>,
    args: Seq<tir::ExprView>,
    t: TypeView,
    st: LowerState,
    i: int,
)
    requires
        p.wf(),
        p.typed(f.arg_names, f.args, tir::ExprView::Call(name, args, t)),
        inv(p, st),
        0 <= i < args.len(),
    ensures
        ({
            let (values, s1) = lower_args(p, f, args, args.len(), st);
            let (lowered, s2) = lower_expr(p, f, tir::ExprView::Call(name, args, t), st);
            let g = lookup(p.functions, name)->0;
            let k = next_index(s1.counters, name);
            &&& lowered == il::ExprView::Call(name, k, t)
            &&& values[i] == lower_expr(
                p,
                f,
                args[i],
                lower_args(p, f, args, i as nat, st).1,
            ).0
            &&& lookup(s2.thunks, thunk_name(name, g.arg_names[i], k)) == Some(
                thunk(g.args[i], values[i]),
            )
        }),
{
    lemma_lower_args_served(p, f, args, args.len(), st);
    let (values, s1) = lower_args(p, f, args, args.len(), st);
    let g = lookup(p.functions, name)->0;
    lemma_first_index(keys(p.functions), name);
    assert(p.functions[first_index(keys(p.functions), name)->0].1.wf());
    assert forall|h: int| 0 <= h < g.arg_names.len() implies member_of(
        p,
        name,
        #[trigger] g.arg_names[h],
    ) by {
        lemma_first_index_at(g.arg_names, h);
    }
    lemma_record(p, s1, name, g.arg_names, g.args, values);
    lemma_lower_args_index(p, f, args, args.len(), st, i);
}

/// The lowered form of an argument does not depend on the arguments behind it.
pub proof fn lemma_lower_args_index(
    p: tir::ProgramView,
    f: tir::FunctionView,
    args: Seq<tir::ExprView>,
    n: nat,
    st: LowerState,
    i: int,
)
    requires
        0 <= i < n <= args.len(),
    ensures
        lower_args(p, f, args, n, st).0.len() == n,
        lower_args(p, f, args, n, st).0[i] == lower_expr(
            p,
            f,
            args[i],
            lower_args(p, f, args, i as nat, st).1,
        ).0,
    decreases n,
{
    lemma_lower_args_len(p, f, args, (n - 1) as nat, st);
    if i < n - 1 {
        lemma_lower_args_index(p, f, args, (n - 1) as nat, st, i);
    }
}

/// There are as many lowered arguments as arguments.
pub proof fn lemma_lower_args_len(
    p: tir::ProgramView,
    f: tir::FunctionView,
    args: Seq<tir::ExprView>,
    n: nat,
    st: LowerState,
)
    requires
        n <= args.len(),
    ensures
        lower_args(p, f, args, n, st).0.len() == n,
    decreases n,
{
    if n > 0 {
        lemma_lower_args_len(p, f, args, (n - 1) as nat, st);
    }
}

/// Every thunk that the C text of `e` names is a thunk of the lowered
/// program `q`: the emitter names the thunks of a call by the lowered names
/// of the callee's parameters and the call's index, and those of a
/// constructor by the lowered names of the struct's fields.
pub open spec fn scoped(q: il::ProgramView, e: il::ExprView) -> bool
    decreases e,
{
    match e {
        il::ExprView::Binary(_, l, r, _) => scoped(q, *l) && scoped(q, *r),
        il::ExprView::If(c, t, el, _) => scoped(q, *c) && scoped(q, *t) && scoped(q, *el),
        il::ExprView::Field(obj, _, _) => scoped(q, *obj),
        il::ExprView::Call(name, k, _) => lookup(q.functions, name) matches Some(g) && forall|
            i: int,
        |
            0 <= i < g.arg_names.len() ==> (lookup(
                q.functions,
                #[trigger] g.arg_names[i] + "__"@ + decimal(k),
            ) matches Some(th) && is_thunk(th)),
        il::ExprView::Constructor(name, k, _) => lookup(q.structs, name) matches Some(s)
            && forall|i: int|
            0 <= i < s.field_names.len() ==> (lookup(
                q.functions,
                #[trigger] s.field_names[i] + "__"@ + decimal(k),
            ) matches Some(th) && is_thunk(th)),
        _ => true,
    }
}

/// In the lowered form of a valid program, a function of the source is
/// found under its name, with the lowered names of its parameters; and a
/// struct under its name, with the lowered names of its fields.
pub proof fn lemma_lowered_signatures(p: tir::ProgramView, name: Seq<char>)
    requires
        p.valid(),
    ensures
        lookup(p.functions, name) matches Some(g) ==> (lookup(
            lower_program(p).functions,
            name,
        ) matches Some(lowered) && lowered.arg_names == crate::ttoi::obfuscated_all(
            name,
            g.arg_names,
        )),
        lookup(p.structs, name) matches Some(s) ==> (lookup(
            lower_program(p).structs,
            name,
        ) matches Some(lowered) && lowered.field_names == crate::ttoi::obfuscated_all(
            name,
            s.field_names,
        )),
{
    let q = lower_program(p);
    let n = p.functions.len();
    lemma_lower_functions_signatures(p, n, initial_state());
    let (fs, st) = lower_functions(p, n, initial_state());
    lemma_first_index(keys(p.functions), name);
    lemma_first_index(keys(p.structs), name);
    assert(keys(q.structs) =~= keys(p.structs));
    if lookup(p.functions, name) is Some {
        let i = first_index(keys(p.functions), name)->0;
        assert forall|j: int| 0 <= j <= i implies keys(q.functions)[j] == keys(p.functions)[j] by {
            assert(q.functions[j] == fs[j]);
        }
        lemma_first_index_is(keys(q.functions), name, i);
        assert(q.functions[i] == fs[i]);
    }
}

/// Each of the first lowered functions has the name of its source and the
/// lowered names of its parameters.
pub proof fn lemma_lower_functions_signatures(p: tir::ProgramView, n: nat, st: LowerState)
    requires
        n <= p.functions.len(),
    ensures
        lower_functions(p, n, st).0.len() == n,
        forall|i: int|
            0 <= i < n ==> {
                let lowered = #[trigger] lower_functions(p, n, st).0[i];
                &&& lowered.0 == p.functions[i].0
                &&& lowered.1.arg_names == crate::ttoi::obfuscated_all(
                    p.functions[i].0,
                    p.functions[i].1.arg_names,
                )
            },
    decreases n,
{
    if n > 0 {
        lemma_lower_functions_signatures(p, (n - 1) as nat, st);
        let fs = lower_functions(p, (n - 1) as nat, st).0;
        let all = lower_functions(p, n, st).0;
        assert forall|i: int| 0 <= i < n implies {
            let lowered = #[trigger] all[i];
            &&& lowered.0 == p.functions[i].0
            &&& lowered.1.arg_names == crate::ttoi::obfuscated_all(
                p.functions[i].0,
                p.functions[i].1.arg_names,
            )
        } by {
            if i < n - 1 {
                assert(all[i] == fs[i]);
            }
        }
    }
}

/// An expression that is served by the definitions of the lowered program
/// is scoped in it.
pub proof fn lemma_served_scoped(p: tir::ProgramView, e: il::ExprView)
    requires
        p.valid(),
        served(p, lower_program(p).functions, e),
    ensures
        scoped(lower_program(p), e),
    decreases e,
{
    let q = lower_program(p);
    match e {
        il::ExprView::Binary(_, l, r, _) => {
            lemma_served_scoped(p, *l);
            lemma_served_scoped(p, *r);
        },
        il::ExprView::If(c, t, el, _) => {
            lemma_served_scoped(p, *c);
            lemma_served_scoped(p, *t);
            lemma_served_scoped(p, *el);
        },
        il::ExprView::Field(obj, _, _) => {
            lemma_served_scoped(p, *obj);
        },
        il::ExprView::Call(name, k, _) => {
            lemma_lowered_signatures(p, name);
            let g = lookup(p.functions, name)->0;
            let lowered = lookup(q.functions, name)->0;
            assert forall|i: int| 0 <= i < lowered.arg_names.len() implies (lookup(
                q.functions,
                #[trigger] lowered.arg_names[i] + "__"@ + decimal(k),
            ) matches Some(th) && is_thunk(th)) by {
                assert(lowered.arg_names[i] + "__"@ + decimal(k) == thunk_name(
                    name,
                    g.arg_names[i],
                    k,
                ));
                assert(holds_thunk(q.functions, thunk_name(name, g.arg_names[i], k), g.args[i]));
            }
        },
        il::ExprView::Constructor(name, k, _) => {
            lemma_lowered_signatures(p, name);
            let s = lookup(p.structs, name)->0;
            let lowered = lookup(q.structs, name)->0;
            assert forall|i: int| 0 <= i < lowered.field_names.len() implies (lookup(
                q.functions,
                #[trigger] lowered.field_names[i] + "__"@ + decimal(k),
            ) matches Some(th) && is_thunk(th)) by {
                assert(lowered.field_names[i] + "__"@ + decimal(k) == thunk_name(
                    name,
                    s.field_names[i],
                    k,
                ));
                assert(holds_thunk(q.functions, thunk_name(name, s.field_names[i], k), s.fields[i]));
            }
        },
        _ => {},
    }
}

/// Every thunk that the C text of a lowered program names is defined in it.
pub proof fn lemma_lower_program_scoped(p: tir::ProgramView)
    requires
        p.valid(),
    ensures
        forall|j: int|
            0 <= j < lower_program(p).functions.len() ==> scoped(
                lower_program(p),
                (#[trigger] lower_program(p).functions[j]).1.body,
            ),
{
    let q = lower_program(p);
    lemma_lower_program_faithful(p);
    assert forall|j: int| 0 <= j < q.functions.len() implies scoped(
        q,
        (#[trigger] q.functions[j]).1.body,
    ) by {
        lemma_served_scoped(p, q.functions[j].1.body);
    }
}

/// Lowering keeps the type of a well-typed expression.
pub proof fn lemma_lower_keeps_type(
    p: tir::ProgramView,
    f: tir::FunctionView,
    e: tir::ExprView,
    st: LowerState,
)
    requires
        p.typed(f.arg_names, f.args, e),
    ensures
        lower_expr(p, f, e, st).0.ty() == e.ty(),
{
}

/// Every call in `e`, an expression in the body of `f` that is lowered from
/// the state `st`, finds among the definitions the thunk of each parameter
/// of its callee, and that thunk has the parameter's type and holds the
/// lowered form of the argument at the parameter's position. Every
/// constructor finds the thunk of each field of its struct, and that thunk
/// has the field's type and holds the lowered form of the value that the
/// constructor gives to the field. This holds of the calls and
/// constructors among the arguments and values too.
pub open spec fn kept(
    p: tir::ProgramView,
    f: tir::FunctionView,
    e: tir::ExprView,
    st: LowerState,
    defs: Seq<(Seq<char>, il::FunctionView)>,
) -> bool
    decreases e, 0nat,
{
    match e {
        tir::ExprView::Binary(_, l, r, _) => kept(p, f, *l, st, defs) && kept(
            p,
            f,
            *r,
            lower_expr(p, f, *l, st).1,
            defs,
        ),
        tir::ExprView::If(c, t, el, _) => {
            let s1 = lower_expr(p, f, *c, st).1;
            let s2 = lower_expr(p, f, *t, s1).1;
            kept(p, f, *c, st, defs) && kept(p, f, *t, s1, defs) && kept(p, f, *el, s2, defs)
        },
        tir::ExprView::Field(obj, _, _) => kept(p, f, *obj, st, defs),
        tir::ExprView::Call(name, args, _) => {
            let g = lookup(p.functions, name)->0;
            let k = next_index(lower_args(p, f, args, args.len(), st).1.counters, name);
            &&& kept_args(p, f, args, args.len(), st, defs)
            &&& forall|i: int|
                0 <= i < args.len() ==> lookup(
                    defs,
                    thunk_name(name, #[trigger] g.arg_names[i], k),
                ) == Some(
                    thunk(
                        g.args[i],
                        lower_expr(p, f, args[i], lower_args(p, f, args, i as nat, st).1).0,
                    ),
                )
        },
        tir::ExprView::Constructor(name, fields, _) => {
            let sd = lookup(p.structs, name)->0;
            let k = next_index(lower_fields(p, f, fields, fields.len(), st).1.counters, name);
            &&& kept_fields(p, f, fields, fields.len(), st, defs)
            &&& forall|i: int|
                0 <= i < sd.field_names.len() ==> {
                    let j = first_index(keys(fields), #[trigger] sd.field_names[i])->0;
                    lookup(defs, thunk_name(name, sd.field_names[i], k)) == Some(
                        thunk(
                            sd.fields[i],
                            lower_expr(
                                p,
                                f,
                                fields[j].1,
                                lower_fields(p, f, fields, j as nat, st).1,
                            ).0,
                        ),
                    )
                }
        },
        _ => true,
    }
}

/// What `kept` says, of the first `n` arguments of a call.
pub open spec fn kept_args(
    p: tir::ProgramView,
    f: tir::FunctionView,
    args: Seq<tir::ExprView>,
    n: nat,
    st: LowerState,
    defs: Seq<(Seq<char>, il::FunctionView)>,
) -> bool
    decreases args, n,
{
    if n == 0 || n > args.len() {
        true
    } else {
        kept_args(p, f, args, (n - 1) as nat, st, defs) && kept(
            p,
            f,
            args[n - 1],
            lower_args(p, f, args, (n - 1) as nat, st).1,
            defs,
        )
    }
}

/// What `kept` says, of the first `n` values of a constructor.
pub open spec fn kept_fields(
    p: tir::ProgramView,
    f: tir::FunctionView,
    fields: Seq<(Seq<char>, tir::ExprView)>,
    n: nat,
    st: LowerState,
    defs: Seq<(Seq<char>, il::FunctionView)>,
) -> bool
    decreases fields, n,
{
    if n == 0 || n > fields.len() {
        true
    } else {
        kept_fields(p, f, fields, (n - 1) as nat, st, defs) && kept(
            p,
            f,
            fields[n - 1].1,
            lower_fields(p, f, fields, (n - 1) as nat, st).1,
            defs,
        )
    }
}

/// What `kept` says, of the bodies of the first `n` functions of a program
/// that are lowered one after the other from the state `st`.
pub open spec fn kept_functions(
    p: tir::ProgramView,
    n: nat,
    st: LowerState,
    defs: Seq<(Seq<char>, il::FunctionView)>,
) -> bool
    decreases n,
{
    if n == 0 || n > p.functions.len() {
        true
    } else {
        kept_functions(p, (n - 1) as nat, st, defs) && kept(
            p,
            p.functions[n - 1].1,
            p.functions[n - 1].1.body,
            lower_functions(p, (n - 1) as nat, st).1,
            defs,
        )
    }
}

/// Every thunk that is found in `a` is found in `b`, and is the same there.
pub open spec fn carries(
    a: Seq<(Seq<char>, il::FunctionView)>,
    b: Seq<(Seq<char>, il::FunctionView)>,
) -> bool {
    forall|o: Seq<char>, m: Seq<char>, k: nat|
        lookup(a, #[trigger] thunk_name(o, m, k)) is Some ==> lookup(b, thunk_name(o, m, k))
            == lookup(a, thunk_name(o, m, k))
}

/// A list carries the thunks of every list that it starts with.
pub proof fn lemma_prefix_carries(
    a: Seq<(Seq<char>, il::FunctionView)>,
    b: Seq<(Seq<char>, il::FunctionView)>,
)
    requires
        starts_with(b, a),
    ensures
        carries(a, b),
{
    assert forall|o: Seq<char>, m: Seq<char>, k: nat|
        lookup(a, #[trigger] thunk_name(o, m, k)) is Some implies lookup(b, thunk_name(o, m, k))
        == lookup(a, thunk_name(o, m, k)) by {
        lemma_lookup_prefix(a, b, thunk_name(o, m, k));
    }
}

/// A list behind definitions with plain names carries the thunks of the list.
pub proof fn lemma_behind_carries(
    front: Seq<(Seq<char>, il::FunctionView)>,
    a: Seq<(Seq<char>, il::FunctionView)>,
)
    requires
        all_plain(keys(front)),
    ensures
        carries(a, front + a),
{
    assert forall|o: Seq<char>, m: Seq<char>, k: nat|
        lookup(a, #[trigger] thunk_name(o, m, k)) is Some implies lookup(
        front + a,
        thunk_name(o, m, k),
    ) == lookup(a, thunk_name(o, m, k)) by {
        let n = thunk_name(o, m, k);
        lemma_thunk_name_not_plain(o, m, k);
        assert forall|j: int| 0 <= j < front.len() implies (#[trigger] front[j]).0 != n by {
            assert(plain(keys(front)[j]));
        }
        lemma_lookup_behind(front, a, n);
    }
}

/// What is kept by some definitions is kept by all definitions that carry them.
pub proof fn lemma_kept_carried(
    p: tir::ProgramView,
    f: tir::FunctionView,
    e: tir::ExprView,
    st: LowerState,
    a: Seq<(Seq<char>, il::FunctionView)>,
    b: Seq<(Seq<char>, il::FunctionView)>,
)
    requires
        carries(a, b),
        kept(p, f, e, st, a),
    ensures
        kept(p, f, e, st, b),
    decreases e, 0nat,
{
    match e {
        tir::ExprView::Binary(_, l, r, _) => {
            lemma_kept_carried(p, f, *l, st, a, b);
            lemma_kept_carried(p, f, *r, lower_expr(p, f, *l, st).1, a, b);
        },
        tir::ExprView::If(c, t, el, _) => {
            let s1 = lower_expr(p, f, *c, st).1;
            let s2 = lower_expr(p, f, *t, s1).1;
            lemma_kept_carried(p, f, *c, st, a, b);
            lemma_kept_carried(p, f, *t, s1, a, b);
            lemma_kept_carried(p, f, *el, s2, a, b);
        },
        tir::ExprView::Field(obj, _, _) => {
            lemma_kept_carried(p, f, *obj, st, a, b);
        },
        tir::ExprView::Call(name, args, _) => {
            lemma_kept_args_carried(p, f, args, args.len(), st, a, b);
        },
        tir::ExprView::Constructor(name, fields, _) => {
            lemma_kept_fields_carried(p, f, fields, fields.len(), st, a, b);
        },
        _ => {},
    }
}

/// What is kept of the arguments by some definitions is kept by all
/// definitions that carry them.
pub proof fn lemma_kept_args_carried(
    p: tir::ProgramView,
    f: tir::FunctionView,
    args: Seq<tir::ExprView>,
    n: nat,
    st: LowerState,
    a: Seq<(Seq<char>, il::FunctionView)>,
    b: Seq<(Seq<char>, il::FunctionView)>,
)
    requires
        carries(a, b),
        kept_args(p, f, args, n, st, a),
    ensures
        kept_args(p, f, args, n, st, b),
    decreases args, n,
{
    if n > 0 && n <= args.len() {
        lemma_kept_args_carried(p, f, args, (n - 1) as nat, st, a, b);
        lemma_kept_carried(
            p,
            f,
            args[n - 1],
            lower_args(p, f, args, (n - 1) as nat, st).1,
            a,
            b,
        );
    }
}

/// What is kept of the values by some definitions is kept by all
/// definitions that carry them.
pub proof fn lemma_kept_fields_carried(
    p: tir::ProgramView,
    f: tir::FunctionView,
    fields: Seq<(Seq<char>, tir::ExprView)>,
    n: nat,
    st: LowerState,
    a: Seq<(Seq<char>, il::FunctionView)>,
    b: Seq<(Seq<char>, il::FunctionView)>,
)
    requires
        carries(a, b),
        kept_fields(p, f, fields, n, st, a),
    ensures
        kept_fields(p, f, fields, n, st, b),
    decreases fields, n,
{
    if n > 0 && n <= fields.len() {
        lemma_kept_fields_carried(p, f, fields, (n - 1) as nat, st, a, b);
        lemma_kept_carried(
            p,
            f,
            fields[n - 1].1,
            lower_fields(p, f, fields, (n - 1) as nat, st).1,
            a,
            b,
        );
    }
}

/// What is kept of the functions by some definitions is kept by all
/// definitions that carry them.
pub proof fn lemma_kept_functions_carried(
    p: tir::ProgramView,
    n: nat,
    st: LowerState,
    a: Seq<(Seq<char>, il::FunctionView)>,
    b: Seq<(Seq<char>, il::FunctionView)>,
)
    requires
        carries(a, b),
        kept_functions(p, n, st, a),
    ensures
        kept_functions(p, n, st, b),
    decreases n,
{
    if n > 0 && n <= p.functions.len() {
        lemma_kept_functions_carried(p, (n - 1) as nat, st, a, b);
        lemma_kept_carried(
            p,
            p.functions[n - 1].1,
            p.functions[n - 1].1.body,
            lower_functions(p, (n - 1) as nat, st).1,
            a,
            b,
        );
    }
}

/// The lowered form of a value does not depend on the values behind it.
pub proof fn lemma_lower_fields_index(
    p: tir::ProgramView,
    f: tir::FunctionView,
    fields: Seq<(Seq<char>, tir::ExprView)>,
    n: nat,
    st: LowerState,
    i: int,
)
    requires
        0 <= i < n <= fields.len(),
    ensures
        lower_fields(p, f, fields, n, st).0.len() == n,
        lower_fields(p, f, fields, n, st).0[i] == lower_expr(
            p,
            f,
            fields[i].1,
            lower_fields(p, f, fields, i as nat, st).1,
        ).0,
    decreases n,
{
    lemma_lower_fields_len(p, f, fields, (n - 1) as nat, st);
    if i < n - 1 {
        lemma_lower_fields_index(p, f, fields, (n - 1) as nat, st, i);
    }
}

/// There are as many lowered values as values.
pub proof fn lemma_lower_fields_len(
    p: tir::ProgramView,
    f: tir::FunctionView,
    fields: Seq<(Seq<char>, tir::ExprView)>,
    n: nat,
    st: LowerState,
)
    requires
        n <= fields.len(),
    ensures
        lower_fields(p, f, fields, n, st).0.len() == n,
    decreases n,
{
    if n > 0 {
        lemma_lower_fields_len(p, f, fields, (n - 1) as nat, st);
    }
}

/// The thunks of the state behind a well-typed expression keep the
/// arguments of every call in it and the values of every constructor.
pub proof fn lemma_lower_expr_kept(
    p: tir::ProgramView,
    f: tir::FunctionView,
    e: tir::ExprView,
    st: LowerState,
)
    requires
        p.wf(),
        p.typed(f.arg_names, f.args, e),
        inv(p, st),
    ensures
        kept(p, f, e, st, lower_expr(p, f, e, st).1.thunks),
    decreases e, 0nat,
{
    match e {
        tir::ExprView::Binary(op, l, r, t) => {
            lemma_lower_expr_served(p, f, *l, st);
            let s1 = lower_expr(p, f, *l, st).1;
            lemma_lower_expr_served(p, f, *r, s1);
            let s2 = lower_expr(p, f, *r, s1).1;
            lemma_lower_expr_kept(p, f, *l, st);
            lemma_lower_expr_kept(p, f, *r, s1);
            lemma_prefix_carries(s1.thunks, s2.thunks);
            lemma_kept_carried(p, f, *l, st, s1.thunks, s2.thunks);
        },
        tir::ExprView::If(c, th, el, t) => {
            lemma_lower_expr_served(p, f, *c, st);
            let s1 = lower_expr(p, f, *c, st).1;
            lemma_lower_expr_served(p, f, *th, s1);
            let s2 = lower_expr(p, f, *th, s1).1;
            lemma_lower_expr_served(p, f, *el, s2);
            let s3 = lower_expr(p, f, *el, s2).1;
            lemma_lower_expr_kept(p, f, *c, st);
            lemma_lower_expr_kept(p, f, *th, s1);
            lemma_lower_expr_kept(p, f, *el, s2);
            lemma_extends_trans(s1, s2, s3);
            lemma_prefix_carries(s1.thunks, s3.thunks);
            lemma_prefix_carries(s2.thunks, s3.thunks);
            lemma_kept_carried(p, f, *c, st, s1.thunks, s3.thunks);
            lemma_kept_carried(p, f, *th, s1, s2.thunks, s3.thunks);
        },
        tir::ExprView::Field(obj, field, t) => {
            lemma_lower_expr_kept(p, f, *obj, st);
        },
        tir::ExprView::Call(name, args, t) => {
            lemma_lower_args_served(p, f, args, args.len(), st);
            lemma_lower_args_kept(p, f, args, args.len(), st);
            let (values, s1) = lower_args(p, f, args, args.len(), st);
            let g = lookup(p.functions, name)->0;
            lemma_first_index(keys(p.functions), name);
            assert(p.functions[first_index(keys(p.functions), name)->0].1.wf());
            assert forall|i: int| 0 <= i < g.arg_names.len() implies member_of(
                p,
                name,
                #[trigger] g.arg_names[i],
            ) by {
                lemma_first_index_at(g.arg_names, i);
            }
            lemma_record(p, s1, name, g.arg_names, g.args, values);
            let s2 = lower_expr(p, f, e, st).1;
            let k = next_index(s1.counters, name);
            lemma_prefix_carries(s1.thunks, s2.thunks);
            lemma_kept_args_carried(p, f, args, args.len(), st, s1.thunks, s2.thunks);
            assert forall|i: int| 0 <= i < args.len() implies lookup(
                s2.thunks,
                thunk_name(name, #[trigger] g.arg_names[i], k),
            ) == Some(
                thunk(
                    g.args[i],
                    lower_expr(p, f, args[i], lower_args(p, f, args, i as nat, st).1).0,
                ),
            ) by {
                lemma_lower_args_index(p, f, args, args.len(), st, i);
            }
        },
        tir::ExprView::Constructor(name, fields, t) => {
            lemma_lower_fields_served(p, f, fields, fields.len(), st);
            lemma_lower_fields_kept(p, f, fields, fields.len(), st);
            let (values, s1) = lower_fields(p, f, fields, fields.len(), st);
            let sd = lookup(p.structs, name)->0;
            lemma_first_index(keys(p.structs), name);
            assert(p.structs[first_index(keys(p.structs), name)->0].1.wf());
            let ordered = by_position(sd.field_names, keys(fields), values);
            assert forall|i: int| 0 <= i < sd.field_names.len() implies member_of(
                p,
                name,
                #[trigger] sd.field_names[i],
            ) by {
                lemma_first_index_at(sd.field_names, i);
            }
            assert forall|i: int| 0 <= i < ordered.len() implies served(
                p,
                s1.thunks,
                #[trigger] ordered[i],
            ) by {
                lemma_first_index(keys(fields), sd.field_names[i]);
            }
            lemma_record(p, s1, name, sd.field_names, sd.fields, ordered);
            let s2 = lower_expr(p, f, e, st).1;
            let k = next_index(s1.counters, name);
            lemma_prefix_carries(s1.thunks, s2.thunks);
            lemma_kept_fields_carried(p, f, fields, fields.len(), st, s1.thunks, s2.thunks);
            assert forall|i: int| 0 <= i < sd.field_names.len() implies {
                let j = first_index(keys(fields), #[trigger] sd.field_names[i])->0;
                lookup(s2.thunks, thunk_name(name, sd.field_names[i], k)) == Some(
                    thunk(
                        sd.fields[i],
                        lower_expr(
                            p,
                            f,
                            fields[j].1,
                            lower_fields(p, f, fields, j as nat, st).1,
                        ).0,
                    ),
                )
            } by {
                lemma_first_index(keys(fields), sd.field_names[i]);
                let j = first_index(keys(fields), sd.field_names[i])->0;
                lemma_lower_fields_index(p, f, fields, fields.len(), st, j);
                assert(ordered[i] == values[j]);
            }
        },
        _ => {},
    }
}

/// The thunks of the state behind the arguments of a call keep what is to
/// be kept of them.
pub proof fn lemma_lower_args_kept(
    p: tir::ProgramView,
    f: tir::FunctionView,
    args: Seq<tir::ExprView>,
    n: nat,
    st: LowerState,
)
    requires
        p.wf(),
        n <= args.len(),
        forall|i: int| 0 <= i < args.len() ==> p.typed(f.arg_names, f.args, #[trigger] args[i]),
        inv(p, st),
    ensures
        kept_args(p, f, args, n, st, lower_args(p, f, args, n, st).1.thunks),
    decreases args, n,
{
    if n > 0 {
        lemma_lower_args_kept(p, f, args, (n - 1) as nat, st);
        lemma_lower_args_served(p, f, args, (n - 1) as nat, st);
        let s1 = lower_args(p, f, args, (n - 1) as nat, st).1;
        lemma_lower_expr_served(p, f, args[n - 1], s1);
        lemma_lower_expr_kept(p, f, args[n - 1], s1);
        let s2 = lower_expr(p, f, args[n - 1], s1).1;
        lemma_prefix_carries(s1.thunks, s2.thunks);
        lemma_kept_args_carried(p, f, args, (n - 1) as nat, st, s1.thunks, s2.thunks);
    }
}

/// The thunks of the state behind the values of a constructor keep what is
/// to be kept of them.
pub proof fn lemma_lower_fields_kept(
    p: tir::ProgramView,
    f: tir::FunctionView,
    fields: Seq<(Seq<char>, tir::ExprView)>,
    n: nat,
    st: LowerState,
)
    requires
        p.wf(),
        n <= fields.len(),
        forall|i: int|
            0 <= i < fields.len() ==> p.typed(f.arg_names, f.args, (#[trigger] fields[i]).1),
        inv(p, st),
    ensures
        kept_fields(p, f, fields, n, st, lower_fields(p, f, fields, n, st).1.thunks),
    decreases fields, n,
{
    if n > 0 {
        lemma_lower_fields_kept(p, f, fields, (n - 1) as nat, st);
        lemma_lower_fields_served(p, f, fields, (n - 1) as nat, st);
        let s1 = lower_fields(p, f, fields, (n - 1) as nat, st).1;
        lemma_lower_expr_served(p, f, fields[n - 1].1, s1);
        lemma_lower_expr_kept(p, f, fields[n - 1].1, s1);
        let s2 = lower_expr(p, f, fields[n - 1].1, s1).1;
        lemma_prefix_carries(s1.thunks, s2.thunks);
        lemma_kept_fields_carried(p, f, fields, (n - 1) as nat, st, s1.thunks, s2.thunks);
    }
}

/// The thunks of the state behind the functions of a valid program keep
/// what is to be kept of their bodies.
pub proof fn lemma_lower_functions_kept(p: tir::ProgramView, n: nat, st: LowerState)
    requires
        p.valid(),
        n <= p.functions.len(),
        inv(p, st),
    ensures
        kept_functions(p, n, st, lower_functions(p, n, st).1.thunks),
    decreases n,
{
    if n > 0 {
        lemma_lower_functions_kept(p, (n - 1) as nat, st);
        lemma_lower_functions_served(p, (n - 1) as nat, st);
        let s1 = lower_functions(p, (n - 1) as nat, st).1;
        let f = p.functions[n - 1].1;
        assert(p.typed(f.arg_names, f.args, f.body));
        lemma_lower_expr_served(p, f, f.body, s1);
        lemma_lower_expr_kept(p, f, f.body, s1);
        let s2 = lower_expr(p, f, f.body, s1).1;
        lemma_prefix_carries(s1.thunks, s2.thunks);
        lemma_kept_functions_carried(p, (n - 1) as nat, st, s1.thunks, s2.thunks);
    }
}

/// In the lowered form of a valid program, the thunk of every parameter of
/// every call holds the lowered form of the argument at the parameter's
/// position and has the parameter's type, and the thunk of every field of
/// every constructor holds the lowered form of the value given to the field
/// and has the field's type.
pub proof fn lemma_lower_program_keeps_arguments(p: tir::ProgramView)
    requires
        p.valid(),
    ensures
        kept_functions(p, p.functions.len(), initial_state(), lower_program(p).functions),
{
    let n = p.functions.len();
    assert(inv(p, initial_state()));
    lemma_lower_functions_kept(p, n, initial_state());
    lemma_lower_functions_served(p, n, initial_state());
    let (fs, st) = lower_functions(p, n, initial_state());
    assert(keys(fs) =~= keys(p.functions));
    lemma_behind_carries(fs, st.thunks);
    lemma_kept_functions_carried(p, n, initial_state(), st.thunks, fs + st.thunks);
}

} // verus!
