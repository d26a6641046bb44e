//! The grammar of the language, as functions from a sequence of tokens to
//! the syntax tree that it writes.

use vstd::prelude::*;
use crate::fl::{ExprView, FunctionView, ProgramView, StructView};
use crate::lexer::tokens_from;
use crate::loc::Loc;
use crate::op::BinOp;
use crate::table::{first_index, keys, lookup, plain};
use crate::token::{TokenKindView, TokenView};
use crate::ty::TypeView;

verus! {

/// A definition at the top level of a program, under its name.
pub enum DefView {
    Function(Seq<char>, FunctionView),
    Struct(Seq<char>, StructView),
}

/// Every name among the tokens is plain.
pub open spec fn plain_tokens(toks: Seq<TokenView>) -> bool {
    forall|i: int|
        0 <= i < toks.len() ==> ((#[trigger] toks[i]).kind matches TokenKindView::Var(name) ==> plain(
            name,
        ))
}

/// The kind of the token at position `i`; past the end, `Eof`.
pub open spec fn kind_at(toks: Seq<TokenView>, i: nat) -> TokenKindView {
    if i < toks.len() {
        toks[i as int].kind
    } else {
        TokenKindView::Eof
    }
}

/// The place of the token at position `i`.
pub open spec fn loc_at(toks: Seq<TokenView>, i: nat) -> Loc {
    if i < toks.len() {
        toks[i as int].loc
    } else {
        Loc { line: 0, col: 0 }
    }
}

/// The binary operator that a token writes, if it writes one.
pub open spec fn binary_op(kind: TokenKindView) -> Option<BinOp> {
    match kind {
        TokenKindView::Add => Some(BinOp::Add),
        TokenKindView::Sub => Some(BinOp::Sub),
        TokenKindView::Mul => Some(BinOp::Mul),
        TokenKindView::Eq => Some(BinOp::Eq),
        TokenKindView::Neq => Some(BinOp::Neq),
        TokenKindView::Lt => Some(BinOp::Lt),
        TokenKindView::Gt => Some(BinOp::Gt),
        TokenKindView::Le => Some(BinOp::Le),
        TokenKindView::Ge => Some(BinOp::Ge),
        _ => None,
    }
}

/// Whether a token can stand between two operands: a binary operator or a dot.
pub open spec fn is_infix(kind: TokenKindView) -> bool {
    binary_op(kind) is Some || kind is Dot
}

/// How tightly an infix token binds: `==` and `!=` least, then the order
/// comparisons, then `+` and `-`, then `*`, and the dot most.
pub open spec fn precedence(kind: TokenKindView) -> nat {
    match kind {
        TokenKindView::Eq | TokenKindView::Neq => 1,
        TokenKindView::Lt | TokenKindView::Gt | TokenKindView::Le | TokenKindView::Ge => 2,
        TokenKindView::Add | TokenKindView::Sub => 3,
        TokenKindView::Mul => 4,
        TokenKindView::Dot => 5,
        _ => 0,
    }
}

/// The type written at `pos`, and the position behind it.
pub open spec fn type_at(toks: Seq<TokenView>, pos: nat) -> Option<(TypeView, nat)> {
    match kind_at(toks, pos) {
        TokenKindView::Int => Some((TypeView::Int, pos + 1)),
        TokenKindView::Bool => Some((TypeView::Bool, pos + 1)),
        TokenKindView::Var(name) => Some((TypeView::Struct(name), pos + 1)),
        _ => None,
    }
}

/// The rest of a list of parameters or fields, `name : type` each, separated
/// by commas and closed by `close`; `names` and `types` hold what stands
/// before `pos`. No name may occur twice. Gives the whole list and the
/// position behind the closing token.
pub open spec fn members_from(
    toks: Seq<TokenView>,
    pos: nat,
    close: TokenKindView,
    names: Seq<Seq<char>>,
    types: Seq<TypeView>,
) -> Option<(Seq<Seq<char>>, Seq<TypeView>, nat)>
    decreases toks.len() - pos,
{
    match kind_at(toks, pos) {
        TokenKindView::Var(name) => if first_index(names, name) is Some {
            None
        } else if !(kind_at(toks, pos + 1) is Colon) {
            None
        } else {
            match type_at(toks, pos + 2) {
                Some((t, p)) => if kind_at(toks, p) == close {
                    Some((names.push(name), types.push(t), p + 1))
                } else if kind_at(toks, p) is Comma && p < toks.len() {
                    members_from(toks, p + 1, close, names.push(name), types.push(t))
                } else {
                    None
                },
                None => None,
            }
        },
        _ => None,
    }
}

/// A list of parameters or fields that starts at `pos`, behind its opening
/// token: empty where the closing token stands there.
pub open spec fn member_list_at(toks: Seq<TokenView>, pos: nat, close: TokenKindView) -> Option<
    (Seq<Seq<char>>, Seq<TypeView>, nat),
> {
    if kind_at(toks, pos) == close {
        Some((Seq::empty(), Seq::empty(), pos + 1))
    } else {
        members_from(toks, pos, close, Seq::empty(), Seq::empty())
    }
}

/// The expression that starts at `pos` and holds no infix token that binds
/// less tightly than `min_prec`, and the position behind it.
pub open spec fn expr_at(toks: Seq<TokenView>, pos: nat, min_prec: nat) -> Option<(ExprView, nat)>
    decreases toks.len() - pos, 2nat,
{
    match primary_at(toks, pos) {
        Some((lhs, p)) => if pos < p <= toks.len() {
            infix_from(toks, p, lhs, min_prec)
        } else {
            None
        },
        None => None,
    }
}

/// The operand that starts at `pos`: an expression in parentheses, a number,
/// `true` or `false`, a name with or without arguments in parentheses or
/// values in braces, or a conditional.
pub open spec fn primary_at(toks: Seq<TokenView>, pos: nat) -> Option<(ExprView, nat)>
    decreases toks.len() - pos, 1nat,
{
    if pos >= toks.len() {
        None
    } else {
        let loc = toks[pos as int].loc;
        match toks[pos as int].kind {
            TokenKindView::LParen => match expr_at(toks, pos + 1, 0) {
                Some((e, p)) => if kind_at(toks, p) is RParen {
                    Some((e, p + 1))
                } else {
                    None
                },
                None => None,
            },
            TokenKindView::Num(n) => Some((ExprView::Num(n, loc), pos + 1)),
            TokenKindView::True => Some((ExprView::Bool(true, loc), pos + 1)),
            TokenKindView::False => Some((ExprView::Bool(false, loc), pos + 1)),
            TokenKindView::Var(name) => match kind_at(toks, pos + 1) {
                TokenKindView::LParen => if kind_at(toks, pos + 2) is RParen {
                    Some((ExprView::Call(name, Seq::empty(), loc_at(toks, pos + 1)), pos + 3))
                } else {
                    match args_from(toks, pos + 2, Seq::empty()) {
                        Some((args, p)) => Some(
                            (ExprView::Call(name, args, loc_at(toks, pos + 1)), p),
                        ),
                        None => None,
                    }
                },
                TokenKindView::LBrace => if kind_at(toks, pos + 2) is RBrace {
                    Some(
                        (ExprView::Constructor(name, Seq::empty(), loc_at(toks, pos + 1)), pos + 3),
                    )
                } else {
                    match fields_from(toks, pos + 2, Seq::empty()) {
                        Some((fields, p)) => Some(
                            (ExprView::Constructor(name, fields, loc_at(toks, pos + 1)), p),
                        ),
                        None => None,
                    }
                },
                _ => Some((ExprView::Var(name, loc), pos + 1)),
            },
            TokenKindView::If => match expr_at(toks, pos + 1, 0) {
                Some((c, m1)) => if kind_at(toks, m1) is Then && pos < m1 < toks.len() {
                    match expr_at(toks, m1 + 1, 0) {
                        Some((t, m2)) => if kind_at(toks, m2) is Else && m1 < m2 < toks.len() {
                            match expr_at(toks, m2 + 1, 0) {
                                Some((e, m3)) => Some(
                                    (ExprView::If(Box::new(c), Box::new(t), Box::new(e), loc), m3),
                                ),
                                None => None,
                            }
                        } else {
                            None
                        },
                        None => None,
                    }
                } else {
                    None
                },
                None => None,
            },
            _ => None,
        }
    }
}

/// The expression that `lhs` grows into by the infix tokens from `pos` on
/// that bind at least as tightly as `min_prec`. A binary operator takes as
/// its right operand what binds more tightly than itself, so that operators
/// of one precedence group to the left; a dot takes the name behind it.
pub open spec fn infix_from(toks: Seq<TokenView>, pos: nat, lhs: ExprView, min_prec: nat) -> Option<
    (ExprView, nat),
>
    decreases toks.len() - pos, 3nat,
{
    let kind = kind_at(toks, pos);
    if pos < toks.len() && is_infix(kind) && precedence(kind) >= min_prec {
        match binary_op(kind) {
            Some(op) => match expr_at(toks, pos + 1, precedence(kind) + 1) {
                Some((rhs, p)) => if pos < p <= toks.len() {
                    infix_from(
                        toks,
                        p,
                        ExprView::Binary(op, Box::new(lhs), Box::new(rhs), loc_at(toks, pos)),
                        min_prec,
                    )
                } else {
                    None
                },
                None => None,
            },
            None => match kind_at(toks, pos + 1) {
                TokenKindView::Var(name) => infix_from(
                    toks,
                    pos + 2,
                    ExprView::Field(Box::new(lhs), name, loc_at(toks, pos)),
                    min_prec,
                ),
                _ => None,
            },
        }
    } else {
        Some((lhs, pos))
    }
}

/// The rest of the arguments of a call, separated by commas and closed by a
/// parenthesis; `acc` holds those before `pos`. Gives all arguments and the
/// position behind the parenthesis.
pub open spec fn args_from(toks: Seq<TokenView>, pos: nat, acc: Seq<ExprView>) -> Option<
    (Seq<ExprView>, nat),
>
    decreases toks.len() - pos, 3nat,
{
    match expr_at(toks, pos, 0) {
        Some((e, p)) => if kind_at(toks, p) is RParen {
            Some((acc.push(e), p + 1))
        } else if kind_at(toks, p) is Comma && pos < p < toks.len() {
            args_from(toks, p + 1, acc.push(e))
        } else {
            None
        },
        None => None,
    }
}

/// The rest of the values of a constructor, `field = expression` each,
/// separated by commas and closed by a brace; `acc` holds those before
/// `pos`. No field may be given twice. Gives all values and the position
/// behind the brace.
pub open spec fn fields_from(
    toks: Seq<TokenView>,
    pos: nat,
    acc: Seq<(Seq<char>, ExprView)>,
) -> Option<(Seq<(Seq<char>, ExprView)>, nat)>
    decreases toks.len() - pos, 3nat,
{
    match kind_at(toks, pos) {
        TokenKindView::Var(name) => if !(kind_at(toks, pos + 1) is Equals) {
            None
        } else {
            match expr_at(toks, pos + 2, 0) {
                Some((e, p)) => if first_index(keys(acc), name) is Some {
                    None
                } else if kind_at(toks, p) is RBrace {
                    Some((acc.push((name, e)), p + 1))
                } else if kind_at(toks, p) is Comma && pos < p < toks.len() {
                    fields_from(toks, p + 1, acc.push((name, e)))
                } else {
                    None
                },
                None => None,
            }
        },
        _ => None,
    }
}

/// What follows the name of a function, from `pos` on: the parameters in
/// parentheses, if any, then a colon, the type of the result, an equals
/// sign and the body. `loc` is the place of the name.
pub open spec fn function_at(toks: Seq<TokenView>, pos: nat, loc: Loc) -> Option<
    (FunctionView, nat),
> {
    match kind_at(toks, pos) {
        TokenKindView::Colon => match type_at(toks, pos + 1) {
            Some((ret_ty, p)) => if kind_at(toks, p) is Equals {
                match expr_at(toks, p + 1, 0) {
                    Some((body, q)) => Some(
                        (
                            FunctionView {
                                args: Seq::empty(),
                                arg_names: Seq::empty(),
                                ret_ty,
                                body,
                                loc,
                            },
                            q,
                        ),
                    ),
                    None => None,
                }
            } else {
                None
            },
            None => None,
        },
        TokenKindView::LParen => match member_list_at(toks, pos + 1, TokenKindView::RParen) {
            Some((arg_names, args, p)) => if kind_at(toks, p) is Colon {
                match type_at(toks, p + 1) {
                    Some((ret_ty, q)) => if kind_at(toks, q) is Equals {
                        match expr_at(toks, q + 1, 0) {
                            Some((body, r)) => Some(
                                (FunctionView { args, arg_names, ret_ty, body, loc }, r),
                            ),
                            None => None,
                        }
                    } else {
                        None
                    },
                    None => None,
                }
            } else {
                None
            },
            None => None,
        },
        _ => None,
    }
}

/// What follows the name of a struct, from `pos` on: its fields in braces.
/// `loc` is the place of the name.
pub open spec fn struct_at(toks: Seq<TokenView>, pos: nat, loc: Loc) -> Option<(StructView, nat)> {
    if kind_at(toks, pos) is LBrace {
        match member_list_at(toks, pos + 1, TokenKindView::RBrace) {
            Some((field_names, fields, p)) => Some((StructView { fields, field_names, loc }, p)),
            None => None,
        }
    } else {
        None
    }
}

/// The definition that starts at `pos`, and the position behind it.
pub open spec fn def_at(toks: Seq<TokenView>, pos: nat) -> Option<(DefView, nat)> {
    match kind_at(toks, pos) {
        TokenKindView::Var(name) => match function_at(toks, pos + 1, loc_at(toks, pos)) {
            Some((f, p)) => Some((DefView::Function(name, f), p)),
            None => None,
        },
        TokenKindView::Struct => match kind_at(toks, pos + 1) {
            TokenKindView::Var(name) => match struct_at(toks, pos + 2, loc_at(toks, pos + 1)) {
                Some((s, p)) => Some((DefView::Struct(name, s), p)),
                None => None,
            },
            _ => None,
        },
        _ => None,
    }
}

/// The definitions from `pos` up to the closing `Eof`, behind those in `acc`.
pub open spec fn defs_from(toks: Seq<TokenView>, pos: nat, acc: Seq<DefView>) -> Option<
    Seq<DefView>,
>
    decreases toks.len() - pos,
{
    if kind_at(toks, pos) is Eof {
        Some(acc)
    } else {
        match def_at(toks, pos) {
            Some((d, p)) => if pos < p <= toks.len() {
                defs_from(toks, p, acc.push(d))
            } else {
                None
            },
            None => None,
        }
    }
}

/// The program that the first `n` definitions make: the functions and the
/// structs, each kind in the order of the definitions. No name may be
/// defined twice, be it as two functions, as two structs, or as one of each.
pub open spec fn assemble(defs: Seq<DefView>, n: nat) -> Option<ProgramView>
    decreases n,
{
    if n == 0 || n > defs.len() {
        Some(ProgramView { functions: Seq::empty(), structs: Seq::empty() })
    } else {
        match assemble(defs, (n - 1) as nat) {
            Some(p) => match defs[n - 1] {
                DefView::Function(name, f) => if lookup(p.functions, name) is Some || lookup(
                    p.structs,
                    name,
                ) is Some {
                    None
                } else {
                    Some(
                        ProgramView { functions: p.functions.push((name, f)), structs: p.structs },
                    )
                },
                DefView::Struct(name, s) => if lookup(p.functions, name) is Some || lookup(
                    p.structs,
                    name,
                ) is Some {
                    None
                } else {
                    Some(
                        ProgramView { functions: p.functions, structs: p.structs.push((name, s)) },
                    )
                },
            },
            None => None,
        }
    }
}

/// The program that a sequence of tokens writes.
pub open spec fn program_of(toks: Seq<TokenView>) -> Option<ProgramView> {
    match defs_from(toks, 0, Seq::empty()) {
        Some(defs) => assemble(defs, defs.len()),
        None => None,
    }
}

/// The program that a text writes from position `i` on.
pub open spec fn parse_from(source: Seq<char>, i: nat) -> Option<ProgramView> {
    match tokens_from(source, i) {
        Some(toks) => program_of(toks),
        None => None,
    }
}

/// The program that a text writes.
pub open spec fn parse_source(source: Seq<char>) -> Option<ProgramView> {
    parse_from(source, 0)
}

impl DefView {
    /// The definition is well formed, and its name is plain.
    pub open spec fn wf(self) -> bool {
        match self {
            DefView::Function(name, f) => plain(name) && f.wf(),
            DefView::Struct(name, s) => plain(name) && s.wf(),
        }
    }

    /// The name under which the definition is filed.
    pub open spec fn name(self) -> Seq<char> {
        match self {
            DefView::Function(name, _) => name,
            DefView::Struct(name, _) => name,
        }
    }
}

/// A function that is written without parentheses has no parameters: its
/// type stands behind the colon, its body behind the equals sign, and its
/// place is that of its name.
pub proof fn lemma_function_without_parentheses(toks: Seq<TokenView>, pos: nat, loc: Loc)
    requires
        kind_at(toks, pos) is Colon,
        function_at(toks, pos, loc) is Some,
    ensures
        ({
            let (f, end) = function_at(toks, pos, loc)->0;
            &&& f.args == Seq::<TypeView>::empty()
            &&& f.arg_names == Seq::<Seq<char>>::empty()
            &&& f.loc == loc
            &&& type_at(toks, pos + 1) matches Some((t, at))
            &&& f.ret_ty == t
            &&& kind_at(toks, at) is Equals
            &&& expr_at(toks, at + 1, 0) == Some((f.body, end))
        }),
{
}

/// A function that is written with an empty pair of parentheses has no
/// parameters either.
pub proof fn lemma_function_with_empty_parentheses(toks: Seq<TokenView>, pos: nat, loc: Loc)
    requires
        kind_at(toks, pos) is LParen,
        kind_at(toks, pos + 1) is RParen,
        function_at(toks, pos, loc) is Some,
    ensures
        ({
            let (f, end) = function_at(toks, pos, loc)->0;
            &&& f.args == Seq::<TypeView>::empty()
            &&& f.arg_names == Seq::<Seq<char>>::empty()
            &&& f.loc == loc
        }),
{
}

/// A function that is written with parameters has the parameters of the
/// list between its parentheses, and its type, its body and its place as
/// they are written.
pub proof fn lemma_function_with_parameters(toks: Seq<TokenView>, pos: nat, loc: Loc)
    requires
        kind_at(toks, pos) is LParen,
        function_at(toks, pos, loc) is Some,
    ensures
        ({
            let (f, end) = function_at(toks, pos, loc)->0;
            &&& member_list_at(toks, pos + 1, TokenKindView::RParen) matches Some(
                (names, types, at),
            )
            &&& f.arg_names == names
            &&& f.args == types
            &&& kind_at(toks, at) is Colon
            &&& type_at(toks, at + 1) matches Some((t, behind))
            &&& f.ret_ty == t
            &&& kind_at(toks, behind) is Equals
            &&& expr_at(toks, behind + 1, 0) == Some((f.body, end))
            &&& f.loc == loc
        }),
{
}

/// The members of a list stand in it by position: each takes four tokens,
/// its name, a colon, its type, and the comma or the closing token. The
/// members that were read before `pos` keep their positions, and the
/// member with number `names.len() + i` has the name at `pos + 4 * i` and
/// the type at `pos + 4 * i + 2`.
pub proof fn lemma_members_by_position(
    toks: Seq<TokenView>,
    pos: nat,
    close: TokenKindView,
    names: Seq<Seq<char>>,
    types: Seq<TypeView>,
)
    requires
        names.len() == types.len(),
        members_from(toks, pos, close, names, types) is Some,
    ensures
        ({
            let (all_names, all_types, end) = members_from(toks, pos, close, names, types)->0;
            let n = names.len();
            &&& all_names.len() == all_types.len()
            &&& all_names.len() > n
            &&& end == pos + 4 * (all_names.len() - n)
            &&& forall|i: int| 0 <= i < n ==> all_names[i] == names[i] && all_types[i] == types[i]
            &&& forall|i: int|
                0 <= i < all_names.len() - n ==> kind_at(toks, (pos + 4 * i) as nat)
                    == TokenKindView::Var(#[trigger] all_names[n + i]) && type_at(
                    toks,
                    (pos + 4 * i + 2) as nat,
                ) == Some((all_types[n + i], (pos + 4 * i + 3) as nat))
        }),
    decreases toks.len() - pos,
{
    let name = kind_at(toks, pos)->Var_0;
    let (t, p) = type_at(toks, pos + 2)->0;
    assert(p == pos + 3);
    let grown_names = names.push(name);
    let grown_types = types.push(t);
    let (all_names, all_types, end) = members_from(toks, pos, close, names, types)->0;
    let n = names.len();
    if kind_at(toks, p) == close {
        assert forall|i: int| 0 <= i < all_names.len() - n implies kind_at(
            toks,
            (pos + 4 * i) as nat,
        ) == TokenKindView::Var(#[trigger] all_names[n + i]) && type_at(
            toks,
            (pos + 4 * i + 2) as nat,
        ) == Some((all_types[n + i], (pos + 4 * i + 3) as nat)) by {
            assert(i == 0);
        }
    } else {
        lemma_members_by_position(toks, p + 1, close, grown_names, grown_types);
        assert forall|i: int| 0 <= i < n implies all_names[i] == names[i] && all_types[i]
            == types[i] by {
            assert(grown_names[i] == names[i]);
            assert(grown_types[i] == types[i]);
        }
        assert forall|i: int| 0 <= i < all_names.len() - n implies kind_at(
            toks,
            (pos + 4 * i) as nat,
        ) == TokenKindView::Var(#[trigger] all_names[n + i]) && type_at(
            toks,
            (pos + 4 * i + 2) as nat,
        ) == Some((all_types[n + i], (pos + 4 * i + 3) as nat)) by {
            if i == 0 {
                assert(all_names[n as int] == grown_names[n as int]);
                assert(all_types[n as int] == grown_types[n as int]);
            } else {
                assert(all_names[(n + 1) + (i - 1)] == all_names[n + i]);
                assert(pos + 4 * i == (p + 1) + 4 * (i - 1));
            }
        }
    }
}

/// A struct that is written with nothing between its braces has no fields,
/// whatever follows the closing brace; its place is that of its name.
pub proof fn lemma_struct_without_fields(toks: Seq<TokenView>, pos: nat, loc: Loc)
    requires
        kind_at(toks, pos) is LBrace,
        kind_at(toks, pos + 1) is RBrace,
    ensures
        struct_at(toks, pos, loc) == Some(
            (
                (StructView {
                    fields: Seq::<TypeView>::empty(),
                    field_names: Seq::<Seq<char>>::empty(),
                    loc,
                }),
                pos + 2,
            ),
        ),
{
}

/// A struct has the fields of the list between its braces, and its place is
/// that of its name.
pub proof fn lemma_struct_fields(toks: Seq<TokenView>, pos: nat, loc: Loc)
    requires
        struct_at(toks, pos, loc) is Some,
    ensures
        ({
            let (s, end) = struct_at(toks, pos, loc)->0;
            &&& kind_at(toks, pos) is LBrace
            &&& member_list_at(toks, pos + 1, TokenKindView::RBrace) == Some(
                (s.field_names, s.fields, end),
            )
            &&& s.loc == loc
        }),
{
}

} // verus!
