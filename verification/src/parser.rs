//! The parser: a recursive descent over the tokens of a text, with
//! precedence climbing for expressions.

use vstd::prelude::*;
use vstd::string::*;
use crate::diag::{Diagnostic, DiagnosticView, Fault, Stage};
use crate::refusal::{
    args_report_at,
    assemble_report,
    def_report,
    defs_report,
    expect_report,
    expected_report,
    expr_report,
    fields_report_at,
    function_report_at,
    infix_report,
    lex_report,
    members_report,
    name_report,
    parse_report,
    primary_report,
    struct_report_at,
    twice_report,
    type_report_at,
};
use crate::fl;
use crate::grammar::{
    args_from,
    assemble,
    binary_op,
    def_at,
    defs_from,
    expr_at,
    fields_from,
    function_at,
    infix_from,
    is_infix,
    kind_at,
    loc_at,
    member_list_at,
    members_from,
    parse_from,
    parse_source,
    plain_tokens,
    precedence,
    primary_at,
    struct_at,
    type_at,
    DefView,
};
use crate::lexer::{tokens_from, Lexer};
use crate::loc::Loc;

use crate::table::{
    all_plain,
    distinct,
    find_entry,
    find_name,
    keys,
    lemma_distinct_push,
    lemma_first_index,
    lookup,
    plain,
};
use crate::token::{Token, TokenKind, TokenKindView, TokenView};
use crate::ty::{Type, TypeView};

verus! {

/// A definition at the top level of a program, under its name.
#[derive(Debug)]
pub enum DefResult {
    Function(String, fl::Function),
    Struct(String, fl::Struct),
}

impl View for DefResult {
    type V = DefView;

    open spec fn view(&self) -> DefView {
        match self {
            DefResult::Function(name, f) => DefView::Function(name@, f@),
            DefResult::Struct(name, s) => DefView::Struct(name@, s@),
        }
    }
}

/// How an infix token groups with others of its precedence.
#[derive(Clone, Copy, Debug, PartialEq, Eq, Structural)]
pub enum Assoc {
    Left,
    Right,
}

/// A parser: the reader that gives it its tokens, the tokens once they have
/// been read, and the position of the token that it looks at.
pub struct Parser<'src> {
    pub lexer: Lexer<'src>,
    pub tokens: Vec<Token>,
    pub pos: usize,
}

/// The views of a list of definitions.
pub open spec fn def_views(defs: Seq<DefResult>) -> Seq<DefView> {
    Seq::new(defs.len(), |i: int| defs[i]@)
}

impl<'src> Parser<'src> {
    /// The tokens that the parser holds.
    pub open spec fn toks(&self) -> Seq<TokenView> {
        self.tokens.deep_view()
    }

    /// The tokens have been read and end in `Eof`, every name among them is
    /// plain, and the parser looks at one of them.
    pub open spec fn ready(&self) -> bool {
        &&& self.pos < self.tokens.len()
        &&& self.tokens[self.tokens.len() - 1].kind@ is Eof
        &&& plain_tokens(self.toks())
    }

    pub fn new(lexer: Lexer<'src>) -> (parser: Self)
        ensures
            parser.lexer == lexer,
            parser.tokens@.len() == 0,
            parser.pos == 0,
    {
        Self { lexer, tokens: Vec::new(), pos: 0 }
    }

    /// The kind of the token that the parser looks at.
    fn curr(&self) -> (kind: TokenKind)
        requires
            self.ready(),
        ensures
            kind@ == kind_at(self.toks(), self.pos as nat),
    {
        self.tokens[self.pos].kind.clone()
    }

    /// The place of the token that the parser looks at.
    fn curr_loc(&self) -> (loc: Loc)
        requires
            self.ready(),
        ensures
            loc == loc_at(self.toks(), self.pos as nat),
    {
        self.tokens[self.pos].loc
    }

    /// A diagnostic at the token that the parser looks at.
    fn error(&self, message: String) -> (d: Diagnostic)
        requires
            self.ready(),
        ensures
            d@ == (DiagnosticView {
                fault: Fault::UnexpectedToken,
                loc: loc_at(self.toks(), self.pos as nat),
                message: message@,
            }),
    {
        Diagnostic::new(Fault::UnexpectedToken, self.tokens[self.pos].loc, message)
    }

    /// A diagnostic that says what was expected in place of the token that
    /// the parser looks at.
    fn expected(&self, what: &str) -> (d: Diagnostic)
        requires
            self.ready(),
        ensures
            d@ == expected_report(self.toks(), self.pos as nat, what@),
    {
        let mut message = String::from_str("Expected ");
        message.append(what);
        message.append(", got ");
        let got = self.tokens[self.pos].kind.describe();
        message.append(got.as_str());
        self.error(message)
    }

    /// Moves to the next token.
    fn advance(&mut self)
        requires
            old(self).ready(),
            !(kind_at(old(self).toks(), old(self).pos as nat) is Eof),
        ensures
            final(self).ready(),
            final(self).tokens == old(self).tokens,
            final(self).pos == old(self).pos + 1,
    {
        self.pos += 1;
    }

    /// Moves over a token of the given kind, and fails where another one stands.
    fn expect(&mut self, kind: TokenKind) -> (r: Result<(), Diagnostic>)
        requires
            old(self).ready(),
            !(kind@ is Eof),
        ensures
            final(self).ready(),
            final(self).tokens == old(self).tokens,
            match r {
                Ok(_) => kind_at(old(self).toks(), old(self).pos as nat) == kind@ && final(self).pos
                    == old(self).pos + 1,
                Err(d) => kind_at(old(self).toks(), old(self).pos as nat) != kind@
                    && d.fault.stage() == Stage::Parse && d@ == expect_report(
                    old(self).toks(),
                    old(self).pos as nat,
                    kind@,
                ),
            },
    {
        if self.tokens[self.pos].kind.same(&kind) {
            self.advance();
            Ok(())
        } else {
            let what = kind.describe();
            Err(self.expected(what.as_str()))
        }
    }

    /// Moves over a name and gives it.
    fn parse_var(&mut self) -> (r: Result<String, Diagnostic>)
        requires
            old(self).ready(),
        ensures
            final(self).ready(),
            final(self).tokens == old(self).tokens,
            match r {
                Ok(name) => kind_at(old(self).toks(), old(self).pos as nat) == TokenKindView::Var(
                    name@,
                ) && final(self).pos == old(self).pos + 1 && plain(name@),
                Err(d) => !(kind_at(old(self).toks(), old(self).pos as nat) is Var)
                    && d.fault.stage() == Stage::Parse && d@ == name_report(
                    old(self).toks(),
                    old(self).pos as nat,
                ),
            },
    {
        assert(self.toks()[self.pos as int].kind == kind_at(self.toks(), self.pos as nat));
        match self.curr() {
            TokenKind::Var(name) => {
                self.advance();
                Ok(name)
            },
            _ => Err(self.error(String::from_str("Expected variable"))),
        }
    }

    /// Moves over a type and gives it.
    fn parse_ty(&mut self) -> (r: Result<Type, Diagnostic>)
        requires
            old(self).ready(),
        ensures
            final(self).ready(),
            final(self).tokens == old(self).tokens,
            match r {
                Ok(t) => type_at(old(self).toks(), old(self).pos as nat) == Some(
                    (t@, final(self).pos as nat),
                ) && final(self).pos == old(self).pos + 1,
                Err(d) => type_at(old(self).toks(), old(self).pos as nat) is None
                    && d.fault.stage() == Stage::Parse && d@ == type_report_at(
                    old(self).toks(),
                    old(self).pos as nat,
                ),
            },
    {
        match self.curr() {
            TokenKind::Int => {
                self.advance();
                Ok(Type::Int)
            },
            TokenKind::Bool => {
                self.advance();
                Ok(Type::Bool)
            },
            TokenKind::Var(name) => {
                self.advance();
                Ok(Type::Struct(name))
            },
            _ => Err(self.expected("type")),
        }
    }

    /// Whether a token can stand between two operands.
    fn is_infix_op(t: &TokenKind) -> (b: bool)
        ensures
            b == is_infix(t@),
    {
        matches!(
            t,
            TokenKind::Add | TokenKind::Sub | TokenKind::Mul | TokenKind::Eq | TokenKind::Neq
                | TokenKind::Lt | TokenKind::Le | TokenKind::Gt | TokenKind::Ge | TokenKind::Dot
        )
    }

    /// How tightly an infix token binds, and how it groups.
    fn infix_prec_assoc(t: &TokenKind) -> (r: (u8, Assoc))
        requires
            is_infix(t@),
        ensures
            r.0 == precedence(t@),
            1 <= r.0 <= 5,
            r.1 == Assoc::Left <==> binary_op(t@) is Some,
    {
        match t {
            TokenKind::Eq | TokenKind::Neq => (1, Assoc::Left),
            TokenKind::Lt | TokenKind::Le | TokenKind::Gt | TokenKind::Ge => (2, Assoc::Left),
            TokenKind::Add | TokenKind::Sub => (3, Assoc::Left),
            TokenKind::Mul => (4, Assoc::Left),
            _ => (5, Assoc::Right),
        }
    }

    /// The node of a binary operator and its two operands.
    fn make_infix(op: &TokenKind, lhs: fl::Expr, rhs: fl::Expr, op_loc: Loc) -> (e: fl::Expr)
        requires
            binary_op(op@) is Some,
        ensures
            e@ == fl::ExprView::Binary(binary_op(op@)->0, Box::new(lhs@), Box::new(rhs@), op_loc),
    {
        let l = Box::new(lhs);
        let r = Box::new(rhs);
        match op {
            TokenKind::Add => fl::Expr::Add(l, r, op_loc),
            TokenKind::Sub => fl::Expr::Sub(l, r, op_loc),
            TokenKind::Mul => fl::Expr::Mul(l, r, op_loc),
            TokenKind::Eq => fl::Expr::Eq(l, r, op_loc),
            TokenKind::Neq => fl::Expr::Neq(l, r, op_loc),
            TokenKind::Lt => fl::Expr::Lt(l, r, op_loc),
            TokenKind::Le => fl::Expr::Le(l, r, op_loc),
            TokenKind::Gt => fl::Expr::Gt(l, r, op_loc),
            _ => fl::Expr::Ge(l, r, op_loc),
        }
    }

    /// Moves over a list of parameters or fields and its closing token.
    fn parse_members(&mut self, close: TokenKind, fault: Fault) -> (r: Result<
        (Vec<String>, Vec<Type>),
        Diagnostic,
    >)
        requires
            old(self).ready(),
            close@ is RParen || close@ is RBrace,
            fault.stage() == Stage::Parse,
        ensures
            final(self).ready(),
            final(self).tokens == old(self).tokens,
            match r {
                Ok((names, types)) => member_list_at(
                    old(self).toks(),
                    old(self).pos as nat,
                    close@,
                ) == Some((names.deep_view(), types.deep_view(), final(self).pos as nat))
                    && old(self).pos < final(self).pos && names.len() == types.len() && distinct(
                    names.deep_view(),
                ) && all_plain(names.deep_view()),
                Err(d) => member_list_at(old(self).toks(), old(self).pos as nat, close@) is None
                    && d.fault.stage() == Stage::Parse && d@ == members_report(
                    old(self).toks(),
                    old(self).pos as nat,
                    close@,
                    fault,
                    Seq::empty(),
                ),
            },
    {
        let mut names: Vec<String> = Vec::new();
        let mut types: Vec<Type> = Vec::new();
        assert(names.deep_view() =~= Seq::<Seq<char>>::empty());
        assert(types.deep_view() =~= Seq::<TypeView>::empty());
        if self.tokens[self.pos].kind.same(&close) {
            self.advance();
            return Ok((names, types));
        }
        loop
            invariant
                self.ready(),
                self.tokens == old(self).tokens,
                old(self).pos <= self.pos,
                close@ is RParen || close@ is RBrace,
                fault.stage() == Stage::Parse,
                names.len() == types.len(),
                distinct(names.deep_view()),
                all_plain(names.deep_view()),
                kind_at(old(self).toks(), old(self).pos as nat) != close@,
                members_report(old(self).toks(), old(self).pos as nat, close@, fault, Seq::empty())
                    == members_report(
                    self.toks(),
                    self.pos as nat,
                    close@,
                    fault,
                    names.deep_view(),
                ),
                member_list_at(old(self).toks(), old(self).pos as nat, close@) == members_from(
                    self.toks(),
                    self.pos as nat,
                    close@,
                    names.deep_view(),
                    types.deep_view(),
                ),
            decreases self.tokens.len() - self.pos,
        {
            let loc = self.curr_loc();
            let name = self.parse_var()?;
            if find_name(&names, &name).is_some() {
                let mut message = String::from_str("Duplicate name ");
                message.append(name.as_str());
                return Err(Diagnostic::new(fault, loc, message));
            }
            self.expect(TokenKind::Colon)?;
            let ty = self.parse_ty()?;
            let ghost names_before = names.deep_view();
            let ghost types_before = types.deep_view();
            names.push(name);
            types.push(ty);
            proof {
                assert(names.deep_view() =~= names_before.push(name@));
                assert(types.deep_view() =~= types_before.push(ty@));
                lemma_distinct_push(names_before, name@);
            }
            if self.tokens[self.pos].kind.same(&close) {
                self.advance();
                return Ok((names, types));
            } else if !matches!(self.tokens[self.pos].kind, TokenKind::Comma) {
                return Err(self.expected("',' or the end of the list"));
            }
            self.advance();
        }
    }

    /// Moves over the expression that starts at the token that the parser
    /// looks at and holds no infix token that binds less tightly than `min_prec`.
    fn parse_expr(&mut self, min_prec: u8) -> (r: Result<fl::Expr, Diagnostic>)
        requires
            old(self).ready(),
            min_prec <= 6,
        ensures
            final(self).ready(),
            final(self).tokens == old(self).tokens,
            match r {
                Ok(e) => expr_at(old(self).toks(), old(self).pos as nat, min_prec as nat) == Some(
                    (e@, final(self).pos as nat),
                ) && old(self).pos < final(self).pos && e@.wf(),
                Err(d) => expr_at(old(self).toks(), old(self).pos as nat, min_prec as nat) is None
                    && d.fault.stage() == Stage::Parse && d@ == expr_report(
                    old(self).toks(),
                    old(self).pos as nat,
                    min_prec as nat,
                ),
            },
        decreases old(self).tokens.len() - old(self).pos, 2nat,
    {
        let lhs = self.parse_primary()?;
        self.parse_infix(lhs, min_prec)
    }

    /// Moves over one operand.
    fn parse_primary(&mut self) -> (r: Result<fl::Expr, Diagnostic>)
        requires
            old(self).ready(),
        ensures
            final(self).ready(),
            final(self).tokens == old(self).tokens,
            match r {
                Ok(e) => primary_at(old(self).toks(), old(self).pos as nat) == Some(
                    (e@, final(self).pos as nat),
                ) && old(self).pos < final(self).pos && e@.wf(),
                Err(d) => primary_at(old(self).toks(), old(self).pos as nat) is None
                    && d.fault.stage() == Stage::Parse && d@ == primary_report(
                    old(self).toks(),
                    old(self).pos as nat,
                ),
            },
        decreases old(self).tokens.len() - old(self).pos, 1nat,
    {
        let loc = self.curr_loc();
        match self.curr() {
            TokenKind::LParen => self.parse_group(),
            TokenKind::Num(num) => {
                self.advance();
                Ok(fl::Expr::Num(num, loc))
            },
            TokenKind::True => {
                self.advance();
                Ok(fl::Expr::Bool(true, loc))
            },
            TokenKind::False => {
                self.advance();
                Ok(fl::Expr::Bool(false, loc))
            },
            TokenKind::Var(name) => self.parse_named(name, loc),
            TokenKind::If => self.parse_if(loc),
            _ => Err(self.expected("expression")),
        }
    }

    /// Moves over an expression in parentheses.
    #[verifier::rlimit(100)]
    fn parse_group(&mut self) -> (r: Result<fl::Expr, Diagnostic>)
        requires
            old(self).ready(),
            kind_at(old(self).toks(), old(self).pos as nat) is LParen,
        ensures
            final(self).ready(),
            final(self).tokens == old(self).tokens,
            match r {
                Ok(e) => primary_at(old(self).toks(), old(self).pos as nat) == Some(
                    (e@, final(self).pos as nat),
                ) && old(self).pos < final(self).pos && e@.wf(),
                Err(d) => primary_at(old(self).toks(), old(self).pos as nat) is None
                    && d.fault.stage() == Stage::Parse && d@ == primary_report(
                    old(self).toks(),
                    old(self).pos as nat,
                ),
            },
        decreases old(self).tokens.len() - old(self).pos, 0nat,
    {
        self.advance();
        let expr = self.parse_expr(0)?;
        self.expect(TokenKind::RParen)?;
        Ok(expr)
    }

    /// Moves over what a name starts: a call, a constructor, or the name alone.
    #[verifier::rlimit(100)]
    fn parse_named(&mut self, name: String, loc: Loc) -> (r: Result<fl::Expr, Diagnostic>)
        requires
            old(self).ready(),
            kind_at(old(self).toks(), old(self).pos as nat) == TokenKindView::Var(name@),
            loc == loc_at(old(self).toks(), old(self).pos as nat),
        ensures
            final(self).ready(),
            final(self).tokens == old(self).tokens,
            match r {
                Ok(e) => primary_at(old(self).toks(), old(self).pos as nat) == Some(
                    (e@, final(self).pos as nat),
                ) && old(self).pos < final(self).pos && e@.wf(),
                Err(d) => primary_at(old(self).toks(), old(self).pos as nat) is None
                    && d.fault.stage() == Stage::Parse && d@ == primary_report(
                    old(self).toks(),
                    old(self).pos as nat,
                ),
            },
        decreases old(self).tokens.len() - old(self).pos, 0nat,
    {
        self.advance();
        match self.curr() {
            TokenKind::LParen => {
                let loc = self.curr_loc();
                self.advance();
                let args = self.parse_args()?;
                proof {
                    fl::lemma_call_model(name, args, loc);
                }
                Ok(fl::Expr::Call(name, args, loc))
            },
            TokenKind::LBrace => {
                let loc = self.curr_loc();
                self.advance();
                let fields = self.parse_fields()?;
                proof {
                    fl::lemma_constructor_model(name, fields, loc);
                }
                Ok(fl::Expr::Constructor(name, fields, loc))
            },
            _ => Ok(fl::Expr::Var(name, loc)),
        }
    }

    /// Moves over a conditional.
    #[verifier::rlimit(100)]
    fn parse_if(&mut self, loc: Loc) -> (r: Result<fl::Expr, Diagnostic>)
        requires
            old(self).ready(),
            kind_at(old(self).toks(), old(self).pos as nat) is If,
            loc == loc_at(old(self).toks(), old(self).pos as nat),
        ensures
            final(self).ready(),
            final(self).tokens == old(self).tokens,
            match r {
                Ok(e) => primary_at(old(self).toks(), old(self).pos as nat) == Some(
                    (e@, final(self).pos as nat),
                ) && old(self).pos < final(self).pos && e@.wf(),
                Err(d) => primary_at(old(self).toks(), old(self).pos as nat) is None
                    && d.fault.stage() == Stage::Parse && d@ == primary_report(
                    old(self).toks(),
                    old(self).pos as nat,
                ),
            },
        decreases old(self).tokens.len() - old(self).pos, 0nat,
    {
        self.advance();
        let cond = self.parse_expr(0)?;
        self.expect(TokenKind::Then)?;
        let taken = self.parse_expr(0)?;
        self.expect(TokenKind::Else)?;
        let other = self.parse_expr(0)?;
        Ok(fl::Expr::If(Box::new(cond), Box::new(taken), Box::new(other), loc))
    }

    /// Moves over the infix tokens that follow `lhs` and bind at least as
    /// tightly as `min_prec`, each with its right operand.
    fn parse_infix(&mut self, lhs: fl::Expr, min_prec: u8) -> (r: Result<fl::Expr, Diagnostic>)
        requires
            old(self).ready(),
            min_prec <= 6,
            lhs@.wf(),
        ensures
            final(self).ready(),
            final(self).tokens == old(self).tokens,
            match r {
                Ok(e) => infix_from(old(self).toks(), old(self).pos as nat, lhs@, min_prec as nat)
                    == Some((e@, final(self).pos as nat)) && old(self).pos <= final(self).pos
                    && e@.wf(),
                Err(d) => infix_from(
                    old(self).toks(),
                    old(self).pos as nat,
                    lhs@,
                    min_prec as nat,
                ) is None && d.fault.stage() == Stage::Parse && d@ == infix_report(
                    old(self).toks(),
                    old(self).pos as nat,
                    lhs@,
                    min_prec as nat,
                ),
            },
        decreases old(self).tokens.len() - old(self).pos, 3nat,
    {
        let ghost first = lhs@;
        let mut acc = lhs;
        loop
            invariant
                self.ready(),
                self.tokens == old(self).tokens,
                old(self).pos <= self.pos,
                min_prec <= 6,
                first == lhs@,
                acc@.wf(),
                infix_report(old(self).toks(), old(self).pos as nat, first, min_prec as nat)
                    == infix_report(self.toks(), self.pos as nat, acc@, min_prec as nat),
                infix_from(old(self).toks(), old(self).pos as nat, first, min_prec as nat)
                    == infix_from(self.toks(), self.pos as nat, acc@, min_prec as nat),
            decreases self.tokens.len() - self.pos,
        {
            let op = self.curr();
            if !Self::is_infix_op(&op) {
                return Ok(acc);
            }
            let op_loc = self.curr_loc();
            let (prec, assoc) = Self::infix_prec_assoc(&op);
            if prec < min_prec {
                return Ok(acc);
            }
            self.advance();
            match assoc {
                Assoc::Left => {
                    let rhs = self.parse_expr(prec + 1)?;
                    acc = Self::make_infix(&op, acc, rhs, op_loc);
                },
                Assoc::Right => {
                    let rhs = self.parse_var()?;
                    acc = fl::Expr::Field(Box::new(acc), rhs, op_loc);
                },
            }
        }
    }

    /// Moves over the arguments of a call and the parenthesis that closes them.
    fn parse_args(&mut self) -> (r: Result<Vec<fl::Expr>, Diagnostic>)
        requires
            old(self).ready(),
        ensures
            final(self).ready(),
            final(self).tokens == old(self).tokens,
            match r {
                Ok(args) => (if kind_at(old(self).toks(), old(self).pos as nat) is RParen {
                    fl::models(args@) == Seq::<fl::ExprView>::empty() && final(self).pos == old(
                        self,
                    ).pos + 1
                } else {
                    args_from(old(self).toks(), old(self).pos as nat, Seq::empty()) == Some(
                        (fl::models(args@), final(self).pos as nat),
                    )
                }) && old(self).pos < final(self).pos && forall|i: int|
                    0 <= i < args.len() ==> (#[trigger] fl::models(args@)[i]).wf(),
                Err(d) => !(kind_at(old(self).toks(), old(self).pos as nat) is RParen) && args_from(
                    old(self).toks(),
                    old(self).pos as nat,
                    Seq::empty(),
                ) is None && d.fault.stage() == Stage::Parse && d@ == args_report_at(
                    old(self).toks(),
                    old(self).pos as nat,
                    Seq::empty(),
                ),
            },
        decreases old(self).tokens.len() - old(self).pos, 4nat,
    {
        let mut args: Vec<fl::Expr> = Vec::new();
        assert(fl::models(args@) =~= Seq::<fl::ExprView>::empty());
        if matches!(self.tokens[self.pos].kind, TokenKind::RParen) {
            self.advance();
            return Ok(args);
        }
        loop
            invariant
                self.ready(),
                self.tokens == old(self).tokens,
                old(self).pos <= self.pos,
                !(kind_at(old(self).toks(), old(self).pos as nat) is RParen),
                forall|i: int| 0 <= i < args.len() ==> (#[trigger] fl::models(args@)[i]).wf(),
                args_report_at(old(self).toks(), old(self).pos as nat, Seq::empty())
                    == args_report_at(self.toks(), self.pos as nat, fl::models(args@)),
                args_from(old(self).toks(), old(self).pos as nat, Seq::empty()) == args_from(
                    self.toks(),
                    self.pos as nat,
                    fl::models(args@),
                ),
            decreases self.tokens.len() - self.pos,
        {
            let arg = self.parse_expr(0)?;
            let ghost before = fl::models(args@);
            args.push(arg);
            assert(fl::models(args@) =~= before.push(arg@));
            if matches!(self.tokens[self.pos].kind, TokenKind::RParen) {
                self.advance();
                return Ok(args);
            } else if !matches!(self.tokens[self.pos].kind, TokenKind::Comma) {
                return Err(self.expected("',' or ')'"));
            }
            self.advance();
        }
    }

    /// Moves over the values of a constructor and the brace that closes them.
    fn parse_fields(&mut self) -> (r: Result<Vec<(String, fl::Expr)>, Diagnostic>)
        requires
            old(self).ready(),
        ensures
            final(self).ready(),
            final(self).tokens == old(self).tokens,
            match r {
                Ok(fields) => (if kind_at(old(self).toks(), old(self).pos as nat) is RBrace {
                    fl::named_models(fields@) == Seq::<(Seq<char>, fl::ExprView)>::empty()
                        && final(self).pos == old(self).pos + 1
                } else {
                    fields_from(old(self).toks(), old(self).pos as nat, Seq::empty()) == Some(
                        (fl::named_models(fields@), final(self).pos as nat),
                    )
                }) && old(self).pos < final(self).pos && distinct(
                    keys(fl::named_models(fields@)),
                ) && forall|i: int|
                    0 <= i < fields.len() ==> (#[trigger] fl::named_models(fields@)[i]).1.wf(),
                Err(d) => !(kind_at(old(self).toks(), old(self).pos as nat) is RBrace)
                    && fields_from(old(self).toks(), old(self).pos as nat, Seq::empty()) is None
                    && d.fault.stage() == Stage::Parse && d@ == fields_report_at(
                    old(self).toks(),
                    old(self).pos as nat,
                    Seq::empty(),
                ),
            },
        decreases old(self).tokens.len() - old(self).pos, 4nat,
    {
        let mut fields: Vec<(String, fl::Expr)> = Vec::new();
        assert(fl::named_models(fields@) =~= Seq::<(Seq<char>, fl::ExprView)>::empty());
        if matches!(self.tokens[self.pos].kind, TokenKind::RBrace) {
            self.advance();
            return Ok(fields);
        }
        loop
            invariant
                self.ready(),
                self.tokens == old(self).tokens,
                old(self).pos <= self.pos,
                !(kind_at(old(self).toks(), old(self).pos as nat) is RBrace),
                distinct(keys(fl::named_models(fields@))),
                forall|i: int|
                    0 <= i < fields.len() ==> (#[trigger] fl::named_models(fields@)[i]).1.wf(),
                fields_report_at(old(self).toks(), old(self).pos as nat, Seq::empty())
                    == fields_report_at(self.toks(), self.pos as nat, fl::named_models(fields@)),
                fields_from(old(self).toks(), old(self).pos as nat, Seq::empty()) == fields_from(
                    self.toks(),
                    self.pos as nat,
                    fl::named_models(fields@),
                ),
            decreases self.tokens.len() - self.pos,
        {
            let loc = self.curr_loc();
            let field = self.parse_var()?;
            self.expect(TokenKind::Equals)?;
            let expr = self.parse_expr(0)?;
            proof {
                assert(fields.deep_view() =~= fl::named_models(fields@));
            }
            if find_entry(&fields, &field).is_some() {
                let mut message = String::from_str("Duplicate field assignment ");
                message.append(field.as_str());
                return Err(Diagnostic::new(Fault::DuplicateAssignment, loc, message));
            }
            let ghost before = fl::named_models(fields@);
            fields.push((field, expr));
            proof {
                assert(fl::named_models(fields@) =~= before.push((field@, expr@)));
                assert(keys(fl::named_models(fields@)) =~= keys(before).push(field@));
                lemma_distinct_push(keys(before), field@);
            }
            if matches!(self.tokens[self.pos].kind, TokenKind::RBrace) {
                self.advance();
                return Ok(fields);
            } else if !matches!(self.tokens[self.pos].kind, TokenKind::Comma) {
                return Err(self.expected("',' or '}'"));
            }
            self.advance();
        }
    }

    /// Moves over what follows the name of a function, whose place is `loc`.
    /// A function that is written without parentheses has no parameters.
    #[verifier::rlimit(100)]
    pub fn parse_function(&mut self, loc: Loc) -> (r: Result<fl::Function, Diagnostic>)
        requires
            old(self).ready(),
        ensures
            final(self).ready(),
            final(self).tokens == old(self).tokens,
            match r {
                Ok(f) => function_at(old(self).toks(), old(self).pos as nat, loc) == Some(
                    (f@, final(self).pos as nat),
                ) && old(self).pos < final(self).pos && f@.wf() && f@.loc == loc && (kind_at(
                    old(self).toks(),
                    old(self).pos as nat,
                ) is Colon ==> f@.args.len() == 0 && f@.arg_names.len() == 0),
                Err(d) => function_at(old(self).toks(), old(self).pos as nat, loc) is None
                    && d.fault.stage() == Stage::Parse && d@ == function_report_at(
                    old(self).toks(),
                    old(self).pos as nat,
                ),
            },
    {
        match self.curr() {
            TokenKind::Colon => {
                self.advance();
                let ty = self.parse_ty()?;
                self.expect(TokenKind::Equals)?;
                let expr = self.parse_expr(0)?;
                let f = fl::Function::new(Vec::new(), Vec::new(), ty, expr, loc);
                proof {
                    assert(f@.args =~= Seq::<TypeView>::empty());
                    assert(f@.arg_names =~= Seq::<Seq<char>>::empty());
                }
                Ok(f)
            },
            TokenKind::LParen => {
                self.advance();
                let (arg_names, args) = self.parse_members(
                    TokenKind::RParen,
                    Fault::DuplicateParameter,
                )?;
                self.expect(TokenKind::Colon)?;
                let ty = self.parse_ty()?;
                self.expect(TokenKind::Equals)?;
                let expr = self.parse_expr(0)?;
                Ok(fl::Function::new(args, arg_names, ty, expr, loc))
            },
            _ => Err(self.expected("':' or '('")),
        }
    }

    /// Moves over what follows the name of a struct, whose place is `loc`. A
    /// struct with nothing between its braces has no fields.
    #[verifier::rlimit(100)]
    pub fn parse_struct(&mut self, loc: Loc) -> (r: Result<fl::Struct, Diagnostic>)
        requires
            old(self).ready(),
        ensures
            final(self).ready(),
            final(self).tokens == old(self).tokens,
            match r {
                Ok(s) => struct_at(old(self).toks(), old(self).pos as nat, loc) == Some(
                    (s@, final(self).pos as nat),
                ) && old(self).pos < final(self).pos && s@.wf() && s@.loc == loc && (kind_at(
                    old(self).toks(),
                    (old(self).pos + 1) as nat,
                ) is RBrace ==> s@.fields.len() == 0 && s@.field_names.len() == 0),
                Err(d) => struct_at(old(self).toks(), old(self).pos as nat, loc) is None
                    && d.fault.stage() == Stage::Parse && d@ == struct_report_at(
                    old(self).toks(),
                    old(self).pos as nat,
                ),
            },
    {
        self.expect(TokenKind::LBrace)?;
        let (field_names, fields) = self.parse_members(TokenKind::RBrace, Fault::DuplicateField)?;
        Ok(fl::Struct::new(fields, field_names, loc))
    }

    /// Moves over one definition.
    #[verifier::rlimit(100)]
    fn parse_def(&mut self) -> (r: Result<DefResult, Diagnostic>)
        requires
            old(self).ready(),
        ensures
            final(self).ready(),
            final(self).tokens == old(self).tokens,
            match r {
                Ok(def) => def_at(old(self).toks(), old(self).pos as nat) == Some(
                    (def@, final(self).pos as nat),
                ) && old(self).pos < final(self).pos && def@.wf(),
                Err(d) => def_at(old(self).toks(), old(self).pos as nat) is None
                    && d.fault.stage() == Stage::Parse && d@ == def_report(
                    old(self).toks(),
                    old(self).pos as nat,
                ),
            },
    {
        assert(self.toks()[self.pos as int].kind == kind_at(self.toks(), self.pos as nat));
        match self.curr() {
            TokenKind::Var(name) => {
                let loc = self.curr_loc();
                self.advance();
                let f = self.parse_function(loc)?;
                Ok(DefResult::Function(name, f))
            },
            TokenKind::Struct => {
                self.advance();
                let loc = self.curr_loc();
                let name = self.parse_var()?;
                let s = self.parse_struct(loc)?;
                Ok(DefResult::Struct(name, s))
            },
            _ => Err(self.error(String::from_str("expected function or struct definition"))),
        }
    }

    /// Moves over all definitions, up to the closing `Eof`.
    #[verifier::rlimit(100)]
    fn parse_defs(&mut self) -> (r: Result<Vec<DefResult>, Diagnostic>)
        requires
            old(self).ready(),
        ensures
            final(self).ready(),
            final(self).tokens == old(self).tokens,
            match r {
                Ok(defs) => defs_from(old(self).toks(), old(self).pos as nat, Seq::empty())
                    == Some(def_views(defs@)) && forall|i: int|
                    0 <= i < defs.len() ==> (#[trigger] def_views(defs@)[i]).wf(),
                Err(d) => defs_from(old(self).toks(), old(self).pos as nat, Seq::empty()) is None
                    && d.fault.stage() == Stage::Parse && d@ == defs_report(
                    old(self).toks(),
                    old(self).pos as nat,
                ),
            },
    {
        let mut defs: Vec<DefResult> = Vec::new();
        assert(def_views(defs@) =~= Seq::<DefView>::empty());
        loop
            invariant
                self.ready(),
                self.tokens == old(self).tokens,
                forall|i: int| 0 <= i < defs.len() ==> (#[trigger] def_views(defs@)[i]).wf(),
                defs_report(old(self).toks(), old(self).pos as nat) == defs_report(
                    self.toks(),
                    self.pos as nat,
                ),
                defs_from(old(self).toks(), old(self).pos as nat, Seq::empty()) == defs_from(
                    self.toks(),
                    self.pos as nat,
                    def_views(defs@),
                ),
            decreases self.tokens.len() - self.pos,
        {
            if matches!(self.tokens[self.pos].kind, TokenKind::Eof) {
                return Ok(defs);
            }
            let def = self.parse_def()?;
            let ghost before = def_views(defs@);
            defs.push(def);
            assert(def_views(defs@) =~= before.push(def@));
        }
    }

    /// Reads all tokens of the text.
    pub fn tokenize(&mut self) -> (r: Result<(), Diagnostic>)
        requires
            old(self).lexer.wf(),
            old(self).tokens.len() == 0,
            old(self).pos == 0,
        ensures
            final(self).lexer.wf(),
            final(self).lexer.source@ == old(self).lexer.source@,
            match r {
                Ok(_) => tokens_from(old(self).lexer.source@, old(self).lexer.pos as nat) == Some(
                    final(self).toks(),
                ) && final(self).ready() && final(self).pos == 0,
                Err(d) => tokens_from(old(self).lexer.source@, old(self).lexer.pos as nat) is None
                    && d.fault.stage() == Stage::Parse && d@ == lex_report(
                    old(self).lexer.source@,
                    old(self).lexer.pos as nat,
                ),
            },
    {
        let ghost source = self.lexer.source@;
        let ghost start = self.lexer.pos as nat;
        assert(self.toks() =~= Seq::<TokenView>::empty());
        loop
            invariant
                self.lexer.wf(),
                self.lexer.source@ == source,
                source == old(self).lexer.source@,
                start == old(self).lexer.pos,
                self.pos == 0,
                plain_tokens(self.toks()),
                lex_report(source, start) == lex_report(source, self.lexer.pos as nat),
                tokens_from(source, start) == (match tokens_from(source, self.lexer.pos as nat) {
                    Some(rest) => Some(self.toks() + rest),
                    None => None,
                }),
            decreases source.len() - self.lexer.pos,
        {
            let ghost at = self.lexer.pos as nat;
            let ghost before = self.toks();
            proof {
                crate::lexer::lemma_run_bounds(source, at);
                if crate::lexer::scan(source, crate::lexer::skip_spaces(source, at)) is Some {
                    crate::lexer::lemma_scan_advances(
                        source,
                        crate::lexer::skip_spaces(source, at),
                    );
                }
            }
            let token = self.lexer.next()?;
            let at_end = matches!(token.kind, TokenKind::Eof);
            self.tokens.push(token);
            proof {
                assert(self.toks() =~= before.push(token@));
                if at_end {
                    assert(before + seq![token@] =~= before.push(token@));
                } else {
                    match tokens_from(source, self.lexer.pos as nat) {
                        Some(rest) => {
                            assert(before + (seq![token@] + rest) =~= before.push(token@) + rest);
                        },
                        None => {},
                    }
                }
            }
            if at_end {
                return Ok(());
            }
        }
    }

    /// Parses the text of the parser's reader into a program.
    pub fn parse(&mut self) -> (r: Result<fl::Program, Diagnostic>)
        requires
            old(self).lexer.wf(),
        ensures
            match r {
                Ok(program) => parse_from(old(self).lexer.source@, old(self).lexer.pos as nat)
                    == Some(program@) && program@.wf(),
                Err(d) => parse_from(old(self).lexer.source@, old(self).lexer.pos as nat) is None
                    && d.fault.stage() == Stage::Parse && d@ == parse_report(
                    old(self).lexer.source@,
                    old(self).lexer.pos as nat,
                ),
            },
    {
        self.tokens = Vec::new();
        self.pos = 0;
        self.tokenize()?;
        let defs = self.parse_defs()?;
        build_program(defs)
    }
}

/// A diagnostic for a name that is defined twice.
fn duplicate(message: &str, name: &String, loc: Loc) -> (d: Diagnostic)
    ensures
        d@ == twice_report(message@, name@, loc),
{
    let mut m = String::from_str(message);
    m.append(": ");
    m.append(name.as_str());
    Diagnostic::new(Fault::DuplicateDefinition, loc, m)
}

/// Files the definitions as functions and structs.
fn build_program(defs: Vec<DefResult>) -> (r: Result<fl::Program, Diagnostic>)
    requires
        forall|i: int| 0 <= i < defs.len() ==> (#[trigger] def_views(defs@)[i]).wf(),
    ensures
        match r {
            Ok(program) => assemble(def_views(defs@), defs.len() as nat) == Some(program@)
                && program@.wf(),
            Err(d) => assemble(def_views(defs@), defs.len() as nat) is None && d.fault.stage()
                == Stage::Parse && assemble_report(def_views(defs@), defs.len() as nat) == Some(
                d@,
            ),
        },
{
    let mut functions: Vec<(String, fl::Function)> = Vec::new();
    let mut structs: Vec<(String, fl::Struct)> = Vec::new();
    let ghost all = def_views(defs@);
    let ghost n = defs.len() as nat;
    proof {
        assert(functions.deep_view() =~= Seq::empty());
        assert(structs.deep_view() =~= Seq::empty());
    }
    for def in it: defs
        invariant
            it.seq() == defs@,
            all == def_views(defs@),
            n == defs.len(),
            forall|i: int| 0 <= i < all.len() ==> (#[trigger] all[i]).wf(),
            assemble_report(all, it.index() as nat) is None,
            assemble(all, it.index() as nat) == Some(
                (fl::ProgramView {
                    functions: functions.deep_view(),
                    structs: structs.deep_view(),
                }),
            ),
            (fl::ProgramView {
                functions: functions.deep_view(),
                structs: structs.deep_view(),
            }).wf(),
    {
        let ghost fs = functions.deep_view();
        let ghost ss = structs.deep_view();
        proof {
            assert(all[it.index() as int] == def@);
            assert(all[it.index() as int].wf());
        }
        match def {
            DefResult::Function(name, f) => {
                if find_entry(&functions, &name).is_some() {
                    proof {
                        lemma_assemble_fails(all, (it.index() + 1) as nat, n);
                        lemma_assemble_report_stays(all, (it.index() + 1) as nat, n);
                    }
                    return Err(duplicate("Duplicate function definition", &name, f.loc));
                }
                if find_entry(&structs, &name).is_some() {
                    proof {
                        lemma_assemble_fails(all, (it.index() + 1) as nat, n);
                        lemma_assemble_report_stays(all, (it.index() + 1) as nat, n);
                    }
                    return Err(
                        duplicate("Function name is the same as a struct name", &name, f.loc),
                    );
                }
                functions.push((name, f));
                proof {
                    assert(functions.deep_view() =~= fs.push((name@, f@)));
                    lemma_add_function(
                        (fl::ProgramView { functions: fs, structs: ss }),
                        name@,
                        f@,
                    );
                }
            },
            DefResult::Struct(name, s) => {
                if find_entry(&structs, &name).is_some() {
                    proof {
                        lemma_assemble_fails(all, (it.index() + 1) as nat, n);
                        lemma_assemble_report_stays(all, (it.index() + 1) as nat, n);
                    }
                    return Err(duplicate("Duplicate struct definition", &name, s.loc));
                }
                if find_entry(&functions, &name).is_some() {
                    proof {
                        lemma_assemble_fails(all, (it.index() + 1) as nat, n);
                        lemma_assemble_report_stays(all, (it.index() + 1) as nat, n);
                    }
                    return Err(
                        duplicate("Struct name is the same as a function name", &name, s.loc),
                    );
                }
                structs.push((name, s));
                proof {
                    assert(structs.deep_view() =~= ss.push((name@, s@)));
                    lemma_add_struct(
                        (fl::ProgramView { functions: fs, structs: ss }),
                        name@,
                        s@,
                    );
                }
            },
        }
    }
    Ok(fl::Program::new(functions, structs))
}

/// A well-formed program stays well formed when it takes a well-formed
/// function under a name that it has not defined.
proof fn lemma_add_function(p: fl::ProgramView, name: Seq<char>, f: fl::FunctionView)
    requires
        p.wf(),
        f.wf(),
        plain(name),
        lookup(p.functions, name) is None,
        lookup(p.structs, name) is None,
    ensures
        (fl::ProgramView { functions: p.functions.push((name, f)), structs: p.structs }).wf(),
{
    let q = fl::ProgramView { functions: p.functions.push((name, f)), structs: p.structs };
    assert(keys(q.functions) =~= keys(p.functions).push(name));
    lemma_distinct_push(keys(p.functions), name);
    lemma_first_index(keys(p.structs), name);
    assert forall|i: int, j: int|
        0 <= i < q.functions.len() && 0 <= j < q.structs.len() implies (#[trigger] q.functions[i]).0
        != (#[trigger] q.structs[j]).0 by {
        if i < p.functions.len() {
            assert(q.functions[i] == p.functions[i]);
        } else {
            assert(keys(p.structs)[j] != name);
        }
    }
    assert forall|i: int| 0 <= i < q.functions.len() implies (#[trigger] q.functions[i]).1.wf() by {
        if i < p.functions.len() {
            assert(q.functions[i] == p.functions[i]);
        }
    }
}

/// A well-formed program stays well formed when it takes a well-formed
/// struct under a name that it has not defined.
proof fn lemma_add_struct(p: fl::ProgramView, name: Seq<char>, s: fl::StructView)
    requires
        p.wf(),
        s.wf(),
        plain(name),
        lookup(p.functions, name) is None,
        lookup(p.structs, name) is None,
    ensures
        (fl::ProgramView { functions: p.functions, structs: p.structs.push((name, s)) }).wf(),
{
    let q = fl::ProgramView { functions: p.functions, structs: p.structs.push((name, s)) };
    assert(keys(q.structs) =~= keys(p.structs).push(name));
    lemma_distinct_push(keys(p.structs), name);
    lemma_first_index(keys(p.functions), name);
    assert forall|i: int, j: int|
        0 <= i < q.functions.len() && 0 <= j < q.structs.len() implies (#[trigger] q.functions[i]).0
        != (#[trigger] q.structs[j]).0 by {
        if j < p.structs.len() {
            assert(q.structs[j] == p.structs[j]);
        } else {
            assert(keys(p.functions)[i] != name);
        }
    }
    assert forall|j: int| 0 <= j < q.structs.len() implies (#[trigger] q.structs[j]).1.wf() by {
        if j < p.structs.len() {
            assert(q.structs[j] == p.structs[j]);
        }
    }
}

/// A report that the first definitions give is the report of all of them.
proof fn lemma_assemble_report_stays(defs: Seq<DefView>, m: nat, n: nat)
    requires
        m <= n <= defs.len(),
        assemble_report(defs, m) is Some,
    ensures
        assemble_report(defs, n) == assemble_report(defs, m),
    decreases n,
{
    if m < n {
        lemma_assemble_report_stays(defs, m, (n - 1) as nat);
    }
}

/// Where the first `m` definitions make no program, no more of them do.
proof fn lemma_assemble_fails(defs: Seq<DefView>, m: nat, n: nat)
    requires
        m <= n <= defs.len(),
        assemble(defs, m) is None,
    ensures
        assemble(defs, n) is None,
    decreases n,
{
    if m < n {
        lemma_assemble_fails(defs, m, (n - 1) as nat);
    }
}

/// Parses a text into a program.
pub fn parse(source: &str) -> (r: Result<fl::Program, Diagnostic>)
    requires
        source@.len() < usize::MAX,
    ensures
        match r {
            Ok(program) => parse_source(source@) == Some(program@) && program@.wf(),
            Err(d) => parse_source(source@) is None && d.fault.stage() == Stage::Parse && d@
                == parse_report(source@, 0),
        },
{
    let mut parser = Parser::new(Lexer::new(source));
    parser.parse()
}

} // verus!
