//! The tokens that write a syntax tree, and the proof that parsing them
//! gives the tree back.

use vstd::prelude::*;
use crate::fl::{ExprView, FunctionView, StructView};
use crate::grammar::{
    args_from,
    binary_op,
    def_at,
    defs_from,
    expr_at,
    fields_from,
    function_at,
    infix_from,
    is_infix,
    kind_at,
    members_from,
    primary_at,
    struct_at,
    type_at,
    DefView,
};
use crate::op::BinOp;

use crate::token::{TokenKindView, TokenView};
use crate::ty::TypeView;

verus! {

/// The token that writes a binary operator.
pub open spec fn op_token(op: BinOp) -> TokenKindView {
    match op {
        BinOp::Add => TokenKindView::Add,
        BinOp::Sub => TokenKindView::Sub,
        BinOp::Mul => TokenKindView::Mul,
        BinOp::Eq => TokenKindView::Eq,
        BinOp::Neq => TokenKindView::Neq,
        BinOp::Lt => TokenKindView::Lt,
        BinOp::Gt => TokenKindView::Gt,
        BinOp::Le => TokenKindView::Le,
        BinOp::Ge => TokenKindView::Ge,
    }
}

/// The token that writes a type.
pub open spec fn type_tokens(t: TypeView) -> Seq<TokenKindView> {
    match t {
        TypeView::Int => seq![TokenKindView::Int],
        TypeView::Bool => seq![TokenKindView::Bool],
        TypeView::Struct(name) => seq![TokenKindView::Var(name)],
    }
}

/// The tokens that write an expression, without any parentheses but those
/// of calls.
pub open spec fn expr_tokens(e: ExprView) -> Seq<TokenKindView>
    decreases e, 0nat,
{
    match e {
        ExprView::Var(name, _) => seq![TokenKindView::Var(name)],
        ExprView::Num(n, _) => seq![TokenKindView::Num(n)],
        ExprView::Bool(b, _) => if b {
            seq![TokenKindView::True]
        } else {
            seq![TokenKindView::False]
        },
        ExprView::Binary(op, l, r, _) => expr_tokens(*l) + seq![op_token(op)] + expr_tokens(*r),
        ExprView::If(c, t, el, _) => seq![TokenKindView::If] + expr_tokens(*c)
            + seq![TokenKindView::Then] + expr_tokens(*t) + seq![TokenKindView::Else]
            + expr_tokens(*el),
        ExprView::Call(name, args, _) => seq![TokenKindView::Var(name), TokenKindView::LParen]
            + args_tokens(args, args.len()) + seq![TokenKindView::RParen],
        ExprView::Field(obj, name, _) => expr_tokens(*obj) + seq![
            TokenKindView::Dot,
            TokenKindView::Var(name),
        ],
        ExprView::Constructor(name, fields, _) => seq![
            TokenKindView::Var(name),
            TokenKindView::LBrace,
        ] + fields_tokens(fields, fields.len()) + seq![TokenKindView::RBrace],
    }
}

/// The tokens that write the first `n` arguments of a call, with commas
/// between them.
pub open spec fn args_tokens(args: Seq<ExprView>, n: nat) -> Seq<TokenKindView>
    decreases args, n,
{
    if n == 0 || n > args.len() {
        Seq::empty()
    } else if n == 1 {
        expr_tokens(args[0])
    } else {
        args_tokens(args, (n - 1) as nat) + seq![TokenKindView::Comma] + expr_tokens(args[n - 1])
    }
}

/// The tokens that write the first `n` values of a constructor, `field =
/// expression` each, with commas between them.
pub open spec fn fields_tokens(fields: Seq<(Seq<char>, ExprView)>, n: nat) -> Seq<TokenKindView>
    decreases fields, n,
{
    if n == 0 || n > fields.len() {
        Seq::empty()
    } else if n == 1 {
        seq![TokenKindView::Var(fields[0].0), TokenKindView::Equals] + expr_tokens(fields[0].1)
    } else {
        fields_tokens(fields, (n - 1) as nat) + seq![
            TokenKindView::Comma,
            TokenKindView::Var(fields[n - 1].0),
            TokenKindView::Equals,
        ] + expr_tokens(fields[n - 1].1)
    }
}

/// The tokens that write the first `n` parameters or fields, `name : type`
/// each, with commas between them.
pub open spec fn members_tokens(names: Seq<Seq<char>>, types: Seq<TypeView>, n: nat) -> Seq<
    TokenKindView,
>
    decreases n,
{
    if n == 0 || n > names.len() || n > types.len() {
        Seq::empty()
    } else if n == 1 {
        seq![TokenKindView::Var(names[0]), TokenKindView::Colon] + type_tokens(types[0])
    } else {
        members_tokens(names, types, (n - 1) as nat) + seq![
            TokenKindView::Comma,
            TokenKindView::Var(names[n - 1]),
            TokenKindView::Colon,
        ] + type_tokens(types[n - 1])
    }
}

/// The tokens that write what follows the name of a function. A function
/// without parameters is written without parentheses.
pub open spec fn function_tokens(f: FunctionView) -> Seq<TokenKindView> {
    (if f.arg_names.len() == 0 {
        Seq::empty()
    } else {
        seq![TokenKindView::LParen] + members_tokens(f.arg_names, f.args, f.arg_names.len())
            + seq![TokenKindView::RParen]
    }) + seq![TokenKindView::Colon] + type_tokens(f.ret_ty) + seq![TokenKindView::Equals]
        + expr_tokens(f.body)
}

/// The tokens that write what follows the name of a struct.
pub open spec fn struct_tokens(s: StructView) -> Seq<TokenKindView> {
    seq![TokenKindView::LBrace] + members_tokens(s.field_names, s.fields, s.field_names.len())
        + seq![TokenKindView::RBrace]
}

/// The tokens that write a definition.
pub open spec fn def_tokens(d: DefView) -> Seq<TokenKindView> {
    match d {
        DefView::Function(name, f) => seq![TokenKindView::Var(name)] + function_tokens(f),
        DefView::Struct(name, s) => seq![TokenKindView::Struct, TokenKindView::Var(name)]
            + struct_tokens(s),
    }
}

/// The tokens that write the first `n` definitions.
pub open spec fn defs_tokens(defs: Seq<DefView>, n: nat) -> Seq<TokenKindView>
    decreases n,
{
    if n == 0 || n > defs.len() {
        Seq::empty()
    } else {
        defs_tokens(defs, (n - 1) as nat) + def_tokens(defs[n - 1])
    }
}

/// The tokens that write a program: its definitions, and `Eof` behind them.
pub open spec fn program_tokens(defs: Seq<DefView>) -> Seq<TokenKindView> {
    defs_tokens(defs, defs.len()) + seq![TokenKindView::Eof]
}

/// The kinds of a sequence of tokens.
pub open spec fn kinds(toks: Seq<TokenView>) -> Seq<TokenKindView> {
    Seq::new(toks.len(), |i: int| toks[i].kind)
}

/// The kinds of the tokens from position `a` up to position `b`.
pub open spec fn span(toks: Seq<TokenView>, a: nat, b: nat) -> Seq<TokenKindView> {
    kinds(toks).subrange(a as int, b as int)
}

/// Every opening parenthesis stands behind a name: the tokens hold no
/// parentheses but those of calls and of parameter lists.
pub open spec fn no_grouping(toks: Seq<TokenView>) -> bool {
    forall|i: int|
        0 <= i < toks.len() && (#[trigger] toks[i]).kind is LParen ==> i > 0 && toks[i - 1].kind is Var
}

/// No function is defined with an empty pair of parentheses.
pub open spec fn no_empty_parameter_list(toks: Seq<TokenView>) -> bool {
    forall|i: int|
        0 <= i && i + 2 < toks.len() && (#[trigger] toks[i]).kind is LParen && toks[i + 1].kind is RParen
            ==> !(toks[i + 2].kind is Colon)
}

/// The last token is `Eof`, and no other one is.
pub open spec fn ends_once(toks: Seq<TokenView>) -> bool {
    toks.len() > 0 && forall|i: int|
        0 <= i < toks.len() ==> ((#[trigger] toks[i]).kind is Eof <==> i == toks.len() - 1)
}

/// No expression starts behind a name.
pub open spec fn opens(toks: Seq<TokenView>, pos: nat) -> bool {
    pos == 0 || (pos <= toks.len() && !(toks[pos - 1].kind is Var))
}

/// The tokens from `a` up to `c` are those up to `b` and those from `b` on.
pub proof fn lemma_span_split(toks: Seq<TokenView>, a: nat, b: nat, c: nat)
    requires
        a <= b <= c <= toks.len(),
    ensures
        span(toks, a, c) == span(toks, a, b) + span(toks, b, c),
{
    assert(span(toks, a, c) =~= span(toks, a, b) + span(toks, b, c));
}

/// The tokens from `a` up to the next position are the token at `a`.
pub proof fn lemma_span_one(toks: Seq<TokenView>, a: nat)
    requires
        a < toks.len(),
    ensures
        span(toks, a, a + 1) == seq![toks[a as int].kind],
{
    assert(span(toks, a, a + 1) =~= seq![toks[a as int].kind]);
}

/// The tokens from `a` up to the position after the next are the two tokens there.
pub proof fn lemma_span_two(toks: Seq<TokenView>, a: nat)
    requires
        a + 1 < toks.len(),
    ensures
        span(toks, a, a + 2) == seq![toks[a as int].kind, toks[a as int + 1].kind],
{
    assert(span(toks, a, a + 2) =~= seq![toks[a as int].kind, toks[a as int + 1].kind]);
}

/// The token that writes the operator of a token is that token.
pub proof fn lemma_op_token(kind: TokenKindView)
    requires
        binary_op(kind) is Some,
    ensures
        op_token(binary_op(kind)->0) == kind,
{
}

/// The tokens of the first arguments do not depend on the arguments behind them.
pub proof fn lemma_args_tokens_prefix(a: Seq<ExprView>, b: Seq<ExprView>, n: nat)
    requires
        n <= a.len() <= b.len(),
        forall|i: int| 0 <= i < n ==> a[i] == b[i],
    ensures
        args_tokens(a, n) == args_tokens(b, n),
    decreases n,
{
    if n > 1 {
        lemma_args_tokens_prefix(a, b, (n - 1) as nat);
    }
}

/// The tokens of the first values do not depend on the values behind them.
pub proof fn lemma_fields_tokens_prefix(
    a: Seq<(Seq<char>, ExprView)>,
    b: Seq<(Seq<char>, ExprView)>,
    n: nat,
)
    requires
        n <= a.len() <= b.len(),
        forall|i: int| 0 <= i < n ==> a[i] == b[i],
    ensures
        fields_tokens(a, n) == fields_tokens(b, n),
    decreases n,
{
    if n > 1 {
        lemma_fields_tokens_prefix(a, b, (n - 1) as nat);
    }
}

/// The tokens of the first members do not depend on the members behind them.
pub proof fn lemma_members_tokens_prefix(
    names: Seq<Seq<char>>,
    types: Seq<TypeView>,
    names2: Seq<Seq<char>>,
    types2: Seq<TypeView>,
    n: nat,
)
    requires
        n <= names.len() <= names2.len(),
        n <= types.len() <= types2.len(),
        forall|i: int| 0 <= i < n ==> names[i] == names2[i] && types[i] == types2[i],
    ensures
        members_tokens(names, types, n) == members_tokens(names2, types2, n),
    decreases n,
{
    if n > 1 {
        lemma_members_tokens_prefix(names, types, names2, types2, (n - 1) as nat);
    }
}

/// The tokens of the first definitions do not depend on the definitions behind them.
pub proof fn lemma_defs_tokens_prefix(a: Seq<DefView>, b: Seq<DefView>, n: nat)
    requires
        n <= a.len() <= b.len(),
        forall|i: int| 0 <= i < n ==> a[i] == b[i],
    ensures
        defs_tokens(a, n) == defs_tokens(b, n),
    decreases n,
{
    if n > 0 {
        lemma_defs_tokens_prefix(a, b, (n - 1) as nat);
    }
}

/// The tokens of the arguments so far, and the comma behind them if there are any.
pub open spec fn args_open(acc: Seq<ExprView>) -> Seq<TokenKindView> {
    if acc.len() == 0 {
        Seq::empty()
    } else {
        args_tokens(acc, acc.len()) + seq![TokenKindView::Comma]
    }
}

/// The tokens of the values so far, and the comma behind them if there are any.
pub open spec fn fields_open(acc: Seq<(Seq<char>, ExprView)>) -> Seq<TokenKindView> {
    if acc.len() == 0 {
        Seq::empty()
    } else {
        fields_tokens(acc, acc.len()) + seq![TokenKindView::Comma]
    }
}

/// The tokens of the members so far, and the comma behind them if there are any.
pub open spec fn members_open(names: Seq<Seq<char>>, types: Seq<TypeView>) -> Seq<TokenKindView> {
    if names.len() == 0 {
        Seq::empty()
    } else {
        members_tokens(names, types, names.len()) + seq![TokenKindView::Comma]
    }
}

/// An expression that was parsed from tokens without grouping parentheses is
/// written by exactly the tokens that it was parsed from.
pub proof fn lemma_expr_round_trip(toks: Seq<TokenView>, pos: nat, min_prec: nat)
    requires
        no_grouping(toks),
        opens(toks, pos),
        expr_at(toks, pos, min_prec) is Some,
    ensures
        ({
            let (e, p) = expr_at(toks, pos, min_prec)->0;
            pos < p <= toks.len() && span(toks, pos, p) == expr_tokens(e)
        }),
    decreases toks.len() - pos, 2nat,
{
    lemma_primary_round_trip(toks, pos);
    let (lhs, p) = primary_at(toks, pos)->0;
    lemma_infix_round_trip(toks, pos, p, lhs, min_prec);
}

/// An operand that was parsed from tokens without grouping parentheses is
/// written by exactly the tokens that it was parsed from.
pub proof fn lemma_primary_round_trip(toks: Seq<TokenView>, pos: nat)
    requires
        no_grouping(toks),
        opens(toks, pos),
        primary_at(toks, pos) is Some,
    ensures
        ({
            let (e, p) = primary_at(toks, pos)->0;
            pos < p <= toks.len() && span(toks, pos, p) == expr_tokens(e)
        }),
    decreases toks.len() - pos, 1nat,
{
    lemma_span_one(toks, pos);
    match toks[pos as int].kind {
        TokenKindView::LParen => {
            assert(toks[pos as int].kind is LParen);
        },
        TokenKindView::Var(name) => {
            match kind_at(toks, pos + 1) {
                TokenKindView::LParen => {
                    lemma_call_round_trip(toks, pos);
                },
                TokenKindView::LBrace => {
                    lemma_constructor_round_trip(toks, pos);
                },
                _ => {},
            }
        },
        TokenKindView::If => {
            lemma_if_round_trip(toks, pos);
        },
        _ => {},
    }
}

/// A call that was parsed from tokens without grouping parentheses is
/// written by exactly the tokens that it was parsed from.
pub proof fn lemma_call_round_trip(toks: Seq<TokenView>, pos: nat)
    requires
        no_grouping(toks),
        pos < toks.len(),
        toks[pos as int].kind is Var,
        kind_at(toks, pos + 1) is LParen,
        primary_at(toks, pos) is Some,
    ensures
        ({
            let (e, p) = primary_at(toks, pos)->0;
            pos < p <= toks.len() && span(toks, pos, p) == expr_tokens(e)
        }),
    decreases toks.len() - pos, 0nat,
{
    let (e, p) = primary_at(toks, pos)->0;
    let name = toks[pos as int].kind->Var_0;
    let head = seq![TokenKindView::Var(name), TokenKindView::LParen];
    let tail = seq![TokenKindView::RParen];
    lemma_span_two(toks, pos);
    assert(span(toks, pos, pos + 2) == head);
    if kind_at(toks, pos + 2) is RParen {
        lemma_span_one(toks, pos + 2);
        lemma_span_split(toks, pos, pos + 2, pos + 3);
        assert(e->Call_1 == Seq::<ExprView>::empty());
        assert(args_tokens(e->Call_1, 0) == Seq::<TokenKindView>::empty());
        assert(expr_tokens(e) == head + args_tokens(e->Call_1, 0) + tail);
        assert(head + Seq::<TokenKindView>::empty() + tail =~= head + tail);
    } else {
        assert(span(toks, pos + 2, pos + 2) =~= args_open(Seq::empty()));
        lemma_args_round_trip(toks, pos + 2, pos + 2, Seq::empty());
        let (args, q) = args_from(toks, pos + 2, Seq::empty())->0;
        lemma_span_one(toks, (q - 1) as nat);
        lemma_span_split(toks, pos, pos + 2, (q - 1) as nat);
        lemma_span_split(toks, pos, (q - 1) as nat, q);
        assert(expr_tokens(e) == head + args_tokens(args, args.len()) + tail);
    }
}

/// A constructor that was parsed from tokens without grouping parentheses is
/// written by exactly the tokens that it was parsed from.
pub proof fn lemma_constructor_round_trip(toks: Seq<TokenView>, pos: nat)
    requires
        no_grouping(toks),
        pos < toks.len(),
        toks[pos as int].kind is Var,
        kind_at(toks, pos + 1) is LBrace,
        primary_at(toks, pos) is Some,
    ensures
        ({
            let (e, p) = primary_at(toks, pos)->0;
            pos < p <= toks.len() && span(toks, pos, p) == expr_tokens(e)
        }),
    decreases toks.len() - pos, 0nat,
{
    let (e, p) = primary_at(toks, pos)->0;
    let name = toks[pos as int].kind->Var_0;
    let head = seq![TokenKindView::Var(name), TokenKindView::LBrace];
    let tail = seq![TokenKindView::RBrace];
    lemma_span_two(toks, pos);
    assert(span(toks, pos, pos + 2) == head);
    if kind_at(toks, pos + 2) is RBrace {
        lemma_span_one(toks, pos + 2);
        lemma_span_split(toks, pos, pos + 2, pos + 3);
        assert(e->Constructor_1 == Seq::<(Seq<char>, ExprView)>::empty());
        assert(fields_tokens(e->Constructor_1, 0) == Seq::<TokenKindView>::empty());
        assert(expr_tokens(e) == head + fields_tokens(e->Constructor_1, 0) + tail);
        assert(head + Seq::<TokenKindView>::empty() + tail =~= head + tail);
    } else {
        assert(span(toks, pos + 2, pos + 2) =~= fields_open(Seq::empty()));
        lemma_fields_round_trip(toks, pos + 2, pos + 2, Seq::empty());
        let (fields, q) = fields_from(toks, pos + 2, Seq::empty())->0;
        lemma_span_one(toks, (q - 1) as nat);
        lemma_span_split(toks, pos, pos + 2, (q - 1) as nat);
        lemma_span_split(toks, pos, (q - 1) as nat, q);
        assert(expr_tokens(e) == head + fields_tokens(fields, fields.len()) + tail);
    }
}

/// A conditional that was parsed from tokens without grouping parentheses
/// is written by exactly the tokens that it was parsed from.
pub proof fn lemma_if_round_trip(toks: Seq<TokenView>, pos: nat)
    requires
        no_grouping(toks),
        pos < toks.len(),
        toks[pos as int].kind is If,
        primary_at(toks, pos) is Some,
    ensures
        ({
            let (e, p) = primary_at(toks, pos)->0;
            pos < p <= toks.len() && span(toks, pos, p) == expr_tokens(e)
        }),
    decreases toks.len() - pos, 0nat,
{
    let (e, p) = primary_at(toks, pos)->0;
    lemma_expr_round_trip(toks, pos + 1, 0);
    let (c, m1) = expr_at(toks, pos + 1, 0)->0;
    lemma_expr_round_trip(toks, m1 + 1, 0);
    let (t, m2) = expr_at(toks, m1 + 1, 0)->0;
    lemma_expr_round_trip(toks, m2 + 1, 0);
    let (el, m3) = expr_at(toks, m2 + 1, 0)->0;
    lemma_span_one(toks, pos);
    lemma_span_one(toks, m1);
    lemma_span_one(toks, m2);
    lemma_span_split(toks, pos, pos + 1, m1);
    lemma_span_split(toks, pos, m1, m1 + 1);
    lemma_span_split(toks, pos, m1 + 1, m2);
    lemma_span_split(toks, pos, m2, m2 + 1);
    lemma_span_split(toks, pos, m2 + 1, m3);
    assert(expr_tokens(e) == seq![TokenKindView::If] + expr_tokens(c) + seq![TokenKindView::Then]
        + expr_tokens(t) + seq![TokenKindView::Else] + expr_tokens(el));
}

/// What an expression grows into by the infix tokens behind it is written by
/// the tokens of the expression and the tokens that it grew by.
pub proof fn lemma_infix_round_trip(
    toks: Seq<TokenView>,
    start: nat,
    pos: nat,
    lhs: ExprView,
    min_prec: nat,
)
    requires
        no_grouping(toks),
        start <= pos <= toks.len(),
        span(toks, start, pos) == expr_tokens(lhs),
        infix_from(toks, pos, lhs, min_prec) is Some,
    ensures
        ({
            let (e, p) = infix_from(toks, pos, lhs, min_prec)->0;
            pos <= p <= toks.len() && span(toks, start, p) == expr_tokens(e)
        }),
    decreases toks.len() - pos, 3nat,
{
    let kind = kind_at(toks, pos);
    if pos < toks.len() && is_infix(kind) && crate::grammar::precedence(kind) >= min_prec {
        lemma_span_one(toks, pos);
        match binary_op(kind) {
            Some(op) => {
                lemma_op_token(kind);
                lemma_expr_round_trip(toks, pos + 1, crate::grammar::precedence(kind) + 1);
                let (rhs, q) = expr_at(toks, pos + 1, crate::grammar::precedence(kind) + 1)->0;
                let grown = ExprView::Binary(
                    op,
                    Box::new(lhs),
                    Box::new(rhs),
                    crate::grammar::loc_at(toks, pos),
                );
                lemma_span_split(toks, start, pos, pos + 1);
                lemma_span_split(toks, start, pos + 1, q);
                assert(span(toks, start, q) =~= expr_tokens(grown));
                lemma_infix_round_trip(toks, start, q, grown, min_prec);
            },
            None => {
                let name = kind_at(toks, pos + 1)->Var_0;
                let grown = ExprView::Field(
                    Box::new(lhs),
                    name,
                    crate::grammar::loc_at(toks, pos),
                );
                lemma_span_two(toks, pos);
                lemma_span_split(toks, start, pos, pos + 2);
                assert(span(toks, start, pos + 2) =~= expr_tokens(grown));
                lemma_infix_round_trip(toks, start, pos + 2, grown, min_prec);
            },
        }
    }
}

/// The arguments of a call that was parsed from tokens without grouping
/// parentheses are written by the tokens between its parentheses.
pub proof fn lemma_args_round_trip(toks: Seq<TokenView>, start: nat, pos: nat, acc: Seq<ExprView>)
    requires
        no_grouping(toks),
        start <= pos <= toks.len(),
        opens(toks, pos),
        span(toks, start, pos) == args_open(acc),
        args_from(toks, pos, acc) is Some,
    ensures
        ({
            let (args, p) = args_from(toks, pos, acc)->0;
            &&& pos < p <= toks.len()
            &&& kind_at(toks, (p - 1) as nat) is RParen
            &&& span(toks, start, (p - 1) as nat) == args_tokens(args, args.len())
        }),
    decreases toks.len() - pos, 3nat,
{
    lemma_expr_round_trip(toks, pos, 0);
    let (e, q) = expr_at(toks, pos, 0)->0;
    let grown = acc.push(e);
    lemma_args_tokens_prefix(acc, grown, acc.len());
    lemma_span_split(toks, start, pos, q);
    assert(span(toks, start, q) =~= args_tokens(grown, grown.len()));
    if kind_at(toks, q) is RParen {
    } else {
        lemma_span_one(toks, q);
        lemma_span_split(toks, start, q, q + 1);
        lemma_args_round_trip(toks, start, q + 1, grown);
    }
}

/// The values of a constructor that was parsed from tokens without grouping
/// parentheses are written by the tokens between its braces.
pub proof fn lemma_fields_round_trip(
    toks: Seq<TokenView>,
    start: nat,
    pos: nat,
    acc: Seq<(Seq<char>, ExprView)>,
)
    requires
        no_grouping(toks),
        start <= pos <= toks.len(),
        span(toks, start, pos) == fields_open(acc),
        fields_from(toks, pos, acc) is Some,
    ensures
        ({
            let (fields, p) = fields_from(toks, pos, acc)->0;
            &&& pos < p <= toks.len()
            &&& kind_at(toks, (p - 1) as nat) is RBrace
            &&& span(toks, start, (p - 1) as nat) == fields_tokens(fields, fields.len())
        }),
    decreases toks.len() - pos, 3nat,
{
    let name = kind_at(toks, pos)->Var_0;
    lemma_expr_round_trip(toks, pos + 2, 0);
    let (e, q) = expr_at(toks, pos + 2, 0)->0;
    let grown = acc.push((name, e));
    lemma_fields_tokens_prefix(acc, grown, acc.len());
    lemma_span_two(toks, pos);
    lemma_span_split(toks, start, pos, pos + 2);
    lemma_span_split(toks, start, pos + 2, q);
    assert(span(toks, start, q) =~= fields_tokens(grown, grown.len()));
    if kind_at(toks, q) is RBrace {
    } else {
        lemma_span_one(toks, q);
        lemma_span_split(toks, start, q, q + 1);
        lemma_fields_round_trip(toks, start, q + 1, grown);
    }
}

/// A type is written by the token that it was parsed from.
pub proof fn lemma_type_round_trip(toks: Seq<TokenView>, pos: nat)
    requires
        type_at(toks, pos) is Some,
    ensures
        ({
            let (t, p) = type_at(toks, pos)->0;
            p == pos + 1 && p <= toks.len() && span(toks, pos, p) == type_tokens(t)
        }),
{
    lemma_span_one(toks, pos);
}

/// A list of parameters or fields is written by the tokens between the
/// tokens that enclose it.
pub proof fn lemma_members_round_trip(
    toks: Seq<TokenView>,
    start: nat,
    pos: nat,
    close: TokenKindView,
    names: Seq<Seq<char>>,
    types: Seq<TypeView>,
)
    requires
        start <= pos <= toks.len(),
        !(close is Eof),
        names.len() == types.len(),
        span(toks, start, pos) == members_open(names, types),
        members_from(toks, pos, close, names, types) is Some,
    ensures
        ({
            let (ns, ts, p) = members_from(toks, pos, close, names, types)->0;
            &&& pos < p <= toks.len()
            &&& ns.len() == ts.len()
            &&& ns.len() > 0
            &&& kind_at(toks, (p - 1) as nat) == close
            &&& span(toks, start, (p - 1) as nat) == members_tokens(ns, ts, ns.len())
        }),
    decreases toks.len() - pos,
{
    let name = kind_at(toks, pos)->Var_0;
    lemma_type_round_trip(toks, pos + 2);
    let (t, q) = type_at(toks, pos + 2)->0;
    let grown_names = names.push(name);
    let grown_types = types.push(t);
    lemma_members_tokens_prefix(names, types, grown_names, grown_types, names.len());
    lemma_span_two(toks, pos);
    lemma_span_split(toks, start, pos, pos + 2);
    lemma_span_split(toks, start, pos + 2, q);
    assert(span(toks, start, q) =~= members_tokens(grown_names, grown_types, grown_names.len()));
    if kind_at(toks, q) == close {
    } else {
        lemma_span_one(toks, q);
        lemma_span_split(toks, start, q, q + 1);
        lemma_members_round_trip(toks, start, q + 1, close, grown_names, grown_types);
    }
}

/// What follows the name of a function is written by the tokens that it
/// was parsed from, where the function was not written with an empty pair
/// of parentheses and its body holds no grouping parentheses.
pub proof fn lemma_function_round_trip(toks: Seq<TokenView>, pos: nat, loc: crate::loc::Loc)
    requires
        no_grouping(toks),
        no_empty_parameter_list(toks),
        function_at(toks, pos, loc) is Some,
    ensures
        ({
            let (f, p) = function_at(toks, pos, loc)->0;
            pos < p <= toks.len() && span(toks, pos, p) == function_tokens(f)
        }),
{
    let (f, p) = function_at(toks, pos, loc)->0;
    lemma_span_one(toks, pos);
    match kind_at(toks, pos) {
        TokenKindView::Colon => {
            lemma_type_round_trip(toks, pos + 1);
            let q = pos + 2;
            lemma_span_one(toks, q);
            lemma_expr_round_trip(toks, q + 1, 0);
            lemma_span_split(toks, pos, pos + 1, q);
            lemma_span_split(toks, pos, q, q + 1);
            lemma_span_split(toks, pos, q + 1, p);
            assert(function_tokens(f) =~= seq![TokenKindView::Colon] + type_tokens(f.ret_ty)
                + seq![TokenKindView::Equals] + expr_tokens(f.body));
        },
        TokenKindView::LParen => {
            if kind_at(toks, pos + 1) is RParen {
                assert(toks[pos as int].kind is LParen);
                assert(kind_at(toks, pos + 2) is Colon);
            } else {
                assert(span(toks, pos + 1, pos + 1) =~= members_open(Seq::empty(), Seq::empty()));
                lemma_members_round_trip(
                    toks,
                    pos + 1,
                    pos + 1,
                    TokenKindView::RParen,
                    Seq::empty(),
                    Seq::empty(),
                );
                let (ns, ts, r) = members_from(
                    toks,
                    pos + 1,
                    TokenKindView::RParen,
                    Seq::empty(),
                    Seq::empty(),
                )->0;
                lemma_span_one(toks, (r - 1) as nat);
                lemma_span_one(toks, r);
                lemma_type_round_trip(toks, r + 1);
                let q = r + 2;
                lemma_span_one(toks, q);
                lemma_expr_round_trip(toks, q + 1, 0);
                lemma_span_split(toks, pos, pos + 1, (r - 1) as nat);
                lemma_span_split(toks, pos, (r - 1) as nat, r);
                lemma_span_split(toks, pos, r, r + 1);
                lemma_span_split(toks, pos, r + 1, q);
                lemma_span_split(toks, pos, q, q + 1);
                lemma_span_split(toks, pos, q + 1, p);
                assert(function_tokens(f) == seq![TokenKindView::LParen] + members_tokens(
                    ns,
                    ts,
                    ns.len(),
                ) + seq![TokenKindView::RParen] + seq![TokenKindView::Colon] + type_tokens(
                    f.ret_ty,
                ) + seq![TokenKindView::Equals] + expr_tokens(f.body));
            }
        },
        _ => {},
    }
}

/// What follows the name of a struct is written by the tokens that it was
/// parsed from.
pub proof fn lemma_struct_round_trip(toks: Seq<TokenView>, pos: nat, loc: crate::loc::Loc)
    requires
        struct_at(toks, pos, loc) is Some,
    ensures
        ({
            let (s, p) = struct_at(toks, pos, loc)->0;
            pos < p <= toks.len() && span(toks, pos, p) == struct_tokens(s)
        }),
{
    let (s, p) = struct_at(toks, pos, loc)->0;
    lemma_span_one(toks, pos);
    if kind_at(toks, pos + 1) is RBrace {
        lemma_span_one(toks, pos + 1);
        lemma_span_split(toks, pos, pos + 1, pos + 2);
        assert(members_tokens(s.field_names, s.fields, 0) == Seq::<TokenKindView>::empty());
        assert(span(toks, pos, p) =~= struct_tokens(s));
    } else {
        assert(span(toks, pos + 1, pos + 1) =~= members_open(Seq::empty(), Seq::empty()));
        lemma_members_round_trip(
            toks,
            pos + 1,
            pos + 1,
            TokenKindView::RBrace,
            Seq::empty(),
            Seq::empty(),
        );
        lemma_span_one(toks, (p - 1) as nat);
        lemma_span_split(toks, pos, pos + 1, (p - 1) as nat);
        lemma_span_split(toks, pos, (p - 1) as nat, p);
    }
}

/// A definition is written by the tokens that it was parsed from, where it
/// is no function with an empty pair of parentheses and it holds no
/// grouping parentheses.
pub proof fn lemma_def_round_trip(toks: Seq<TokenView>, pos: nat)
    requires
        no_grouping(toks),
        no_empty_parameter_list(toks),
        def_at(toks, pos) is Some,
    ensures
        ({
            let (d, p) = def_at(toks, pos)->0;
            pos < p <= toks.len() && span(toks, pos, p) == def_tokens(d)
        }),
{
    let (d, p) = def_at(toks, pos)->0;
    lemma_span_one(toks, pos);
    match kind_at(toks, pos) {
        TokenKindView::Var(name) => {
            lemma_function_round_trip(toks, pos + 1, crate::grammar::loc_at(toks, pos));
            lemma_span_split(toks, pos, pos + 1, p);
        },
        TokenKindView::Struct => {
            lemma_span_two(toks, pos);
            lemma_struct_round_trip(toks, pos + 2, crate::grammar::loc_at(toks, pos + 1));
            lemma_span_split(toks, pos, pos + 2, p);
        },
        _ => {},
    }
}

/// No token of the sequence is `Eof`.
pub open spec fn clean(s: Seq<TokenKindView>) -> bool {
    forall|i: int| 0 <= i < s.len() ==> !(#[trigger] s[i] is Eof)
}

/// No expression is written with `Eof`.
pub proof fn lemma_expr_clean(e: ExprView)
    ensures
        clean(expr_tokens(e)),
    decreases e, 0nat,
{
    match e {
        ExprView::Binary(op, l, r, _) => {
            lemma_expr_clean(*l);
            lemma_expr_clean(*r);
        },
        ExprView::If(c, t, el, _) => {
            lemma_expr_clean(*c);
            lemma_expr_clean(*t);
            lemma_expr_clean(*el);
        },
        ExprView::Call(name, args, _) => {
            lemma_args_clean(args, args.len());
        },
        ExprView::Field(obj, name, _) => {
            lemma_expr_clean(*obj);
        },
        ExprView::Constructor(name, fields, _) => {
            lemma_fields_clean(fields, fields.len());
        },
        _ => {},
    }
}

/// No list of arguments is written with `Eof`.
pub proof fn lemma_args_clean(args: Seq<ExprView>, n: nat)
    ensures
        clean(args_tokens(args, n)),
    decreases args, n,
{
    if n == 0 || n > args.len() {
    } else if n == 1 {
        lemma_expr_clean(args[0]);
    } else {
        lemma_args_clean(args, (n - 1) as nat);
        lemma_expr_clean(args[n - 1]);
    }
}

/// No list of values is written with `Eof`.
pub proof fn lemma_fields_clean(fields: Seq<(Seq<char>, ExprView)>, n: nat)
    ensures
        clean(fields_tokens(fields, n)),
    decreases fields, n,
{
    if n == 0 || n > fields.len() {
    } else if n == 1 {
        lemma_expr_clean(fields[0].1);
    } else {
        lemma_fields_clean(fields, (n - 1) as nat);
        lemma_expr_clean(fields[n - 1].1);
    }
}

/// No list of parameters or fields is written with `Eof`.
pub proof fn lemma_members_clean(names: Seq<Seq<char>>, types: Seq<TypeView>, n: nat)
    ensures
        clean(members_tokens(names, types, n)),
    decreases n,
{
    if n == 0 || n > names.len() || n > types.len() {
    } else if n == 1 {
    } else {
        lemma_members_clean(names, types, (n - 1) as nat);
    }
}

/// No definition is written with `Eof`.
pub proof fn lemma_def_clean(d: DefView)
    ensures
        clean(def_tokens(d)),
{
    match d {
        DefView::Function(name, f) => {
            lemma_members_clean(f.arg_names, f.args, f.arg_names.len());
            lemma_expr_clean(f.body);
        },
        DefView::Struct(name, s) => {
            lemma_members_clean(s.field_names, s.fields, s.field_names.len());
        },
    }
}

/// The definitions of a program are written by the tokens up to `Eof`.
pub proof fn lemma_defs_round_trip(toks: Seq<TokenView>, pos: nat, acc: Seq<DefView>)
    requires
        ends_once(toks),
        no_grouping(toks),
        no_empty_parameter_list(toks),
        pos < toks.len(),
        span(toks, 0, pos) == defs_tokens(acc, acc.len()),
        defs_from(toks, pos, acc) is Some,
    ensures
        kinds(toks) == program_tokens(defs_from(toks, pos, acc)->0),
    decreases toks.len() - pos,
{
    if kind_at(toks, pos) is Eof {
        lemma_span_one(toks, pos);
        lemma_span_split(toks, 0, pos, toks.len());
        assert(span(toks, 0, toks.len()) =~= kinds(toks));
    } else {
        lemma_def_round_trip(toks, pos);
        let (d, p) = def_at(toks, pos)->0;
        lemma_def_clean(d);
        if p == toks.len() {
            assert(span(toks, pos, p)[toks.len() - 1 - pos] == toks[toks.len() - 1].kind);
        }
        let grown = acc.push(d);
        lemma_defs_tokens_prefix(acc, grown, acc.len());
        lemma_span_split(toks, 0, pos, p);
        lemma_defs_round_trip(toks, p, grown);
    }
}

/// The definitions that a sequence of tokens is parsed into are written by
/// exactly that sequence, where it ends in its one `Eof`, holds no
/// parentheses but those of calls and of parameter lists, and defines no
/// function with an empty pair of parentheses.
pub proof fn lemma_parse_round_trip(toks: Seq<TokenView>)
    requires
        ends_once(toks),
        no_grouping(toks),
        no_empty_parameter_list(toks),
        defs_from(toks, 0, Seq::empty()) is Some,
    ensures
        program_tokens(defs_from(toks, 0, Seq::empty())->0) == kinds(toks),
{
    assert(span(toks, 0, 0) =~= defs_tokens(Seq::<DefView>::empty(), 0));
    lemma_defs_round_trip(toks, 0, Seq::empty());
}

} // verus!
