//! What is reported of a text that the lexer or the grammar refuses: the
//! first thing that stands where it cannot stand.

use vstd::prelude::*;
use crate::diag::{first_of, DiagnosticView, Fault};
use crate::fl::{ExprView, ProgramView};
use crate::grammar::{
    assemble, binary_op, defs_from, expr_at, is_infix, kind_at, loc_at, precedence, primary_at,
    type_at, def_at, member_list_at, DefView,
};
use crate::lexer::{loc_of, next_token, scan_failure, skip_spaces, tokens_from};
use crate::table::{first_index, keys, lookup};
use crate::token::{kind_text, TokenKindView, TokenView};

verus! {

/// The report that something else was expected than the token at `pos`.
pub open spec fn expected_report(toks: Seq<TokenView>, pos: nat, what: Seq<char>) -> DiagnosticView {
    DiagnosticView {
        fault: Fault::UnexpectedToken,
        loc: loc_at(toks, pos),
        message: "Expected "@ + what + ", got "@ + kind_text(kind_at(toks, pos)),
    }
}

/// The report that a token of the given kind was expected at `pos`.
pub open spec fn expect_report(toks: Seq<TokenView>, pos: nat, kind: TokenKindView) -> DiagnosticView {
    expected_report(toks, pos, kind_text(kind))
}

/// The report that a name was expected at `pos`.
pub open spec fn name_report(toks: Seq<TokenView>, pos: nat) -> DiagnosticView {
    DiagnosticView {
        fault: Fault::UnexpectedToken,
        loc: loc_at(toks, pos),
        message: "Expected variable"@,
    }
}

/// The report that a type was expected at `pos`.
pub open spec fn type_report_at(toks: Seq<TokenView>, pos: nat) -> DiagnosticView {
    expected_report(toks, pos, "type"@)
}

/// The report that the name at `pos` occurs for the second time.
pub open spec fn duplicate_report(toks: Seq<TokenView>, pos: nat, fault: Fault, name: Seq<char>) -> DiagnosticView {
    DiagnosticView { fault, loc: loc_at(toks, pos), message: "Duplicate name "@ + name }
}

/// What is reported of a list of parameters or fields that is refused, from
/// `pos` on; `names` holds the names before `pos`, and `fault` tells what a
/// name that occurs twice is reported as.
pub open spec fn members_report(
    toks: Seq<TokenView>,
    pos: nat,
    close: TokenKindView,
    fault: Fault,
    names: Seq<Seq<char>>,
) -> DiagnosticView
    decreases toks.len() - pos,
{
    match kind_at(toks, pos) {
        TokenKindView::Var(name) => if first_index(names, name) is Some {
            duplicate_report(toks, pos, fault, name)
        } else if !(kind_at(toks, pos + 1) is Colon) {
            expect_report(toks, pos + 1, TokenKindView::Colon)
        } else {
            match type_at(toks, pos + 2) {
                Some((t, p)) => if kind_at(toks, p) is Comma && kind_at(toks, p) != close && p
                    < toks.len() {
                    members_report(toks, p + 1, close, fault, names.push(name))
                } else {
                    expected_report(toks, p, "',' or the end of the list"@)
                },
                None => type_report_at(toks, pos + 2),
            }
        },
        _ => name_report(toks, pos),
    }
}

/// What is reported of an expression that is refused.
pub open spec fn expr_report(toks: Seq<TokenView>, pos: nat, min_prec: nat) -> DiagnosticView
    decreases toks.len() - pos, 2nat,
{
    match primary_at(toks, pos) {
        Some((lhs, p)) => if pos < p <= toks.len() {
            infix_report(toks, p, lhs, min_prec)
        } else {
            arbitrary()
        },
        None => primary_report(toks, pos),
    }
}

/// What is reported of an operand that is refused.
pub open spec fn primary_report(toks: Seq<TokenView>, pos: nat) -> DiagnosticView
    decreases toks.len() - pos, 1nat,
{
    if pos >= toks.len() {
        expected_report(toks, pos, "expression"@)
    } else {
        match toks[pos as int].kind {
            TokenKindView::LParen => match expr_at(toks, pos + 1, 0) {
                Some((e, p)) => expect_report(toks, p, TokenKindView::RParen),
                None => expr_report(toks, pos + 1, 0),
            },
            TokenKindView::Var(name) => match kind_at(toks, pos + 1) {
                TokenKindView::LParen => args_report_at(toks, pos + 2, Seq::empty()),
                TokenKindView::LBrace => fields_report_at(toks, pos + 2, Seq::empty()),
                _ => arbitrary(),
            },
            TokenKindView::If => match expr_at(toks, pos + 1, 0) {
                Some((c, m1)) => if !(kind_at(toks, m1) is Then) {
                    expect_report(toks, m1, TokenKindView::Then)
                } else if pos < m1 < toks.len() {
                    match expr_at(toks, m1 + 1, 0) {
                        Some((t, m2)) => if !(kind_at(toks, m2) is Else) {
                            expect_report(toks, m2, TokenKindView::Else)
                        } else if m1 < m2 < toks.len() {
                            expr_report(toks, m2 + 1, 0)
                        } else {
                            arbitrary()
                        },
                        None => expr_report(toks, m1 + 1, 0),
                    }
                } else {
                    arbitrary()
                },
                None => expr_report(toks, pos + 1, 0),
            },
            _ => expected_report(toks, pos, "expression"@),
        }
    }
}

/// What is reported where what follows an operand is refused.
pub open spec fn infix_report(toks: Seq<TokenView>, pos: nat, lhs: ExprView, min_prec: nat) -> DiagnosticView
    decreases toks.len() - pos, 3nat,
{
    let kind = kind_at(toks, pos);
    if pos < toks.len() && is_infix(kind) && precedence(kind) >= min_prec {
        match binary_op(kind) {
            Some(op) => match expr_at(toks, pos + 1, precedence(kind) + 1) {
                Some((rhs, p)) => if pos < p <= toks.len() {
                    infix_report(
                        toks,
                        p,
                        ExprView::Binary(op, Box::new(lhs), Box::new(rhs), loc_at(toks, pos)),
                        min_prec,
                    )
                } else {
                    arbitrary()
                },
                None => expr_report(toks, pos + 1, precedence(kind) + 1),
            },
            None => match kind_at(toks, pos + 1) {
                TokenKindView::Var(name) => infix_report(
                    toks,
                    pos + 2,
                    ExprView::Field(Box::new(lhs), name, loc_at(toks, pos)),
                    min_prec,
                ),
                _ => name_report(toks, pos + 1),
            },
        }
    } else {
        arbitrary()
    }
}

/// What is reported of the arguments of a call that are refused, from `pos` on.
pub open spec fn args_report_at(toks: Seq<TokenView>, pos: nat, acc: Seq<ExprView>) -> DiagnosticView
    decreases toks.len() - pos, 3nat,
{
    match expr_at(toks, pos, 0) {
        Some((e, p)) => if kind_at(toks, p) is Comma && pos < p < toks.len() {
            args_report_at(toks, p + 1, acc.push(e))
        } else {
            expected_report(toks, p, "',' or ')'"@)
        },
        None => expr_report(toks, pos, 0),
    }
}

/// What is reported of the values of a constructor that are refused, from
/// `pos` on; `acc` holds the values before `pos`.
pub open spec fn fields_report_at(
    toks: Seq<TokenView>,
    pos: nat,
    acc: Seq<(Seq<char>, ExprView)>,
) -> DiagnosticView
    decreases toks.len() - pos, 3nat,
{
    match kind_at(toks, pos) {
        TokenKindView::Var(name) => if !(kind_at(toks, pos + 1) is Equals) {
            expect_report(toks, pos + 1, TokenKindView::Equals)
        } else {
            match expr_at(toks, pos + 2, 0) {
                Some((e, p)) => if first_index(keys(acc), name) is Some {
                    DiagnosticView {
                        fault: Fault::DuplicateAssignment,
                        loc: loc_at(toks, pos),
                        message: "Duplicate field assignment "@ + name,
                    }
                } else if kind_at(toks, p) is Comma && pos < p < toks.len() {
                    fields_report_at(toks, p + 1, acc.push((name, e)))
                } else {
                    expected_report(toks, p, "',' or '}'"@)
                },
                None => expr_report(toks, pos + 2, 0),
            }
        },
        _ => name_report(toks, pos),
    }
}

/// What is reported of a colon, a type, an equals sign and a body that are
/// refused, from the colon at `pos` on.
pub open spec fn signature_report(toks: Seq<TokenView>, pos: nat) -> DiagnosticView {
    if !(kind_at(toks, pos) is Colon) {
        expect_report(toks, pos, TokenKindView::Colon)
    } else {
        match type_at(toks, pos + 1) {
            Some((t, p)) => if !(kind_at(toks, p) is Equals) {
                expect_report(toks, p, TokenKindView::Equals)
            } else {
                expr_report(toks, p + 1, 0)
            },
            None => type_report_at(toks, pos + 1),
        }
    }
}

/// What is reported of what follows the name of a function, where it is refused.
pub open spec fn function_report_at(toks: Seq<TokenView>, pos: nat) -> DiagnosticView {
    match kind_at(toks, pos) {
        TokenKindView::Colon => signature_report(toks, pos),
        TokenKindView::LParen => match member_list_at(toks, pos + 1, TokenKindView::RParen) {
            Some((names, types, p)) => signature_report(toks, p),
            None => members_report(
                toks,
                pos + 1,
                TokenKindView::RParen,
                Fault::DuplicateParameter,
                Seq::empty(),
            ),
        },
        _ => expected_report(toks, pos, "':' or '('"@),
    }
}

/// What is reported of what follows the name of a struct, where it is refused.
pub open spec fn struct_report_at(toks: Seq<TokenView>, pos: nat) -> DiagnosticView {
    if !(kind_at(toks, pos) is LBrace) {
        expect_report(toks, pos, TokenKindView::LBrace)
    } else {
        members_report(toks, pos + 1, TokenKindView::RBrace, Fault::DuplicateField, Seq::empty())
    }
}

/// What is reported of a definition that is refused.
pub open spec fn def_report(toks: Seq<TokenView>, pos: nat) -> DiagnosticView {
    match kind_at(toks, pos) {
        TokenKindView::Var(name) => function_report_at(toks, pos + 1),
        TokenKindView::Struct => match kind_at(toks, pos + 1) {
            TokenKindView::Var(name) => struct_report_at(toks, pos + 2),
            _ => name_report(toks, pos + 1),
        },
        _ => DiagnosticView {
            fault: Fault::UnexpectedToken,
            loc: loc_at(toks, pos),
            message: "expected function or struct definition"@,
        },
    }
}

/// What is reported of the definitions from `pos` on, where one is refused.
pub open spec fn defs_report(toks: Seq<TokenView>, pos: nat) -> DiagnosticView
    decreases toks.len() - pos,
{
    if kind_at(toks, pos) is Eof {
        arbitrary()
    } else {
        match def_at(toks, pos) {
            Some((d, p)) => if pos < p <= toks.len() {
                defs_report(toks, p)
            } else {
                arbitrary()
            },
            None => def_report(toks, pos),
        }
    }
}

/// The report that a name is defined for the second time.
pub open spec fn twice_report(message: Seq<char>, name: Seq<char>, loc: crate::loc::Loc) -> DiagnosticView {
    DiagnosticView { fault: Fault::DuplicateDefinition, loc, message: message + ": "@ + name }
}

/// What is reported of definition `d` where the program `p` of the
/// definitions before it has defined its name already.
pub open spec fn clash_report(p: ProgramView, d: DefView) -> Option<DiagnosticView> {
    match d {
        DefView::Function(name, f) => if lookup(p.functions, name) is Some {
            Some(twice_report("Duplicate function definition"@, name, f.loc))
        } else if lookup(p.structs, name) is Some {
            Some(twice_report("Function name is the same as a struct name"@, name, f.loc))
        } else {
            None
        },
        DefView::Struct(name, s) => if lookup(p.structs, name) is Some {
            Some(twice_report("Duplicate struct definition"@, name, s.loc))
        } else if lookup(p.functions, name) is Some {
            Some(twice_report("Struct name is the same as a function name"@, name, s.loc))
        } else {
            None
        },
    }
}

/// The report of the first among the first `n` definitions whose name was
/// defined before it.
pub open spec fn assemble_report(defs: Seq<DefView>, n: nat) -> Option<DiagnosticView>
    decreases n,
{
    if n == 0 || n > defs.len() {
        None
    } else {
        first_of(
            assemble_report(defs, (n - 1) as nat),
            match assemble(defs, (n - 1) as nat) {
                Some(p) => clash_report(p, defs[n - 1]),
                None => None,
            },
        )
    }
}

/// What is reported of a sequence of tokens that writes no program.
pub open spec fn program_report(toks: Seq<TokenView>) -> DiagnosticView {
    match defs_from(toks, 0, Seq::empty()) {
        Some(defs) => assemble_report(defs, defs.len())->0,
        None => defs_report(toks, 0),
    }
}

/// What the lexer reports of a text in which something is no token, from
/// position `i` on.
pub open spec fn lex_report(s: Seq<char>, i: nat) -> DiagnosticView
    decreases s.len() - i,
{
    match next_token(s, i) {
        Some((token, end)) => if !(token.kind is Eof) && i < end <= s.len() {
            lex_report(s, end)
        } else {
            arbitrary()
        },
        None => {
            let (fault, at, message) = scan_failure(s, skip_spaces(s, i));
            DiagnosticView { fault, loc: loc_of(s, at), message }
        },
    }
}

/// What is reported of a text that writes no program, from position `i` on:
/// what the lexer reports, or else what the parser reports of the tokens.
pub open spec fn parse_report(source: Seq<char>, i: nat) -> DiagnosticView {
    match tokens_from(source, i) {
        Some(toks) => program_report(toks),
        None => lex_report(source, i),
    }
}

} // verus!
