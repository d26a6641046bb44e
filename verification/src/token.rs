//! The tokens of the language.

use vstd::prelude::*;
use vstd::string::*;
use crate::loc::Loc;
use crate::text::{push_signed_decimal, signed_decimal};

verus! {

/// What a token is.
#[derive(Debug)]
pub enum TokenKind {
    If,
    Then,
    Else,
    Struct,
    LParen,
    RParen,
    LBrace,
    RBrace,
    Comma,
    Dot,
    Equals,
    Colon,
    Add,
    Sub,
    Mul,
    Eq,
    Neq,
    Lt,
    Gt,
    Le,
    Ge,
    Num(i64),
    True,
    False,
    Var(String),
    Int,
    Bool,
    Eof,
}

/// The mathematical model of a [`TokenKind`].
pub enum TokenKindView {
    If,
    Then,
    Else,
    Struct,
    LParen,
    RParen,
    LBrace,
    RBrace,
    Comma,
    Dot,
    Equals,
    Colon,
    Add,
    Sub,
    Mul,
    Eq,
    Neq,
    Lt,
    Gt,
    Le,
    Ge,
    Num(int),
    True,
    False,
    Var(Seq<char>),
    Int,
    Bool,
    Eof,
}

/// A kind as diagnostics show it: keywords and symbols in quotes, names and
/// numbers as they are written.
pub open spec fn kind_text(kind: TokenKindView) -> Seq<char> {
    match kind {
        TokenKindView::If => "'if'"@,
        TokenKindView::Then => "'then'"@,
        TokenKindView::Else => "'else'"@,
        TokenKindView::Struct => "'struct'"@,
        TokenKindView::LParen => "'('"@,
        TokenKindView::RParen => "')'"@,
        TokenKindView::LBrace => "'{'"@,
        TokenKindView::RBrace => "'}'"@,
        TokenKindView::Comma => "','"@,
        TokenKindView::Dot => "'.'"@,
        TokenKindView::Equals => "'='"@,
        TokenKindView::Colon => "':'"@,
        TokenKindView::Add => "'+'"@,
        TokenKindView::Sub => "'-'"@,
        TokenKindView::Mul => "'*'"@,
        TokenKindView::Eq => "'=='"@,
        TokenKindView::Neq => "'!='"@,
        TokenKindView::Lt => "'<'"@,
        TokenKindView::Gt => "'>'"@,
        TokenKindView::Le => "'<='"@,
        TokenKindView::Ge => "'>='"@,
        TokenKindView::Num(n) => signed_decimal(n),
        TokenKindView::True => "'true'"@,
        TokenKindView::False => "'false'"@,
        TokenKindView::Var(name) => name,
        TokenKindView::Int => "'int'"@,
        TokenKindView::Bool => "'bool'"@,
        TokenKindView::Eof => "EOF"@,
    }
}

impl View for TokenKind {
    type V = TokenKindView;

    open spec fn view(&self) -> TokenKindView {
        match self {
            TokenKind::If => TokenKindView::If,
            TokenKind::Then => TokenKindView::Then,
            TokenKind::Else => TokenKindView::Else,
            TokenKind::Struct => TokenKindView::Struct,
            TokenKind::LParen => TokenKindView::LParen,
            TokenKind::RParen => TokenKindView::RParen,
            TokenKind::LBrace => TokenKindView::LBrace,
            TokenKind::RBrace => TokenKindView::RBrace,
            TokenKind::Comma => TokenKindView::Comma,
            TokenKind::Dot => TokenKindView::Dot,
            TokenKind::Equals => TokenKindView::Equals,
            TokenKind::Colon => TokenKindView::Colon,
            TokenKind::Add => TokenKindView::Add,
            TokenKind::Sub => TokenKindView::Sub,
            TokenKind::Mul => TokenKindView::Mul,
            TokenKind::Eq => TokenKindView::Eq,
            TokenKind::Neq => TokenKindView::Neq,
            TokenKind::Lt => TokenKindView::Lt,
            TokenKind::Gt => TokenKindView::Gt,
            TokenKind::Le => TokenKindView::Le,
            TokenKind::Ge => TokenKindView::Ge,
            TokenKind::Num(n) => TokenKindView::Num(*n as int),
            TokenKind::True => TokenKindView::True,
            TokenKind::False => TokenKindView::False,
            TokenKind::Var(name) => TokenKindView::Var(name@),
            TokenKind::Int => TokenKindView::Int,
            TokenKind::Bool => TokenKindView::Bool,
            TokenKind::Eof => TokenKindView::Eof,
        }
    }
}

impl Clone for TokenKind {
    fn clone(&self) -> (r: Self)
        ensures
            r@ == self@,
    {
        match self {
            TokenKind::If => TokenKind::If,
            TokenKind::Then => TokenKind::Then,
            TokenKind::Else => TokenKind::Else,
            TokenKind::Struct => TokenKind::Struct,
            TokenKind::LParen => TokenKind::LParen,
            TokenKind::RParen => TokenKind::RParen,
            TokenKind::LBrace => TokenKind::LBrace,
            TokenKind::RBrace => TokenKind::RBrace,
            TokenKind::Comma => TokenKind::Comma,
            TokenKind::Dot => TokenKind::Dot,
            TokenKind::Equals => TokenKind::Equals,
            TokenKind::Colon => TokenKind::Colon,
            TokenKind::Add => TokenKind::Add,
            TokenKind::Sub => TokenKind::Sub,
            TokenKind::Mul => TokenKind::Mul,
            TokenKind::Eq => TokenKind::Eq,
            TokenKind::Neq => TokenKind::Neq,
            TokenKind::Lt => TokenKind::Lt,
            TokenKind::Gt => TokenKind::Gt,
            TokenKind::Le => TokenKind::Le,
            TokenKind::Ge => TokenKind::Ge,
            TokenKind::Num(n) => TokenKind::Num(*n),
            TokenKind::True => TokenKind::True,
            TokenKind::False => TokenKind::False,
            TokenKind::Var(name) => TokenKind::Var(name.clone()),
            TokenKind::Int => TokenKind::Int,
            TokenKind::Bool => TokenKind::Bool,
            TokenKind::Eof => TokenKind::Eof,
        }
    }
}

impl TokenKind {
    /// Whether two kinds are the same, names and numbers included.
    pub fn same(&self, other: &TokenKind) -> (r: bool)
        ensures
            r == (self@ == other@),
    {
        match (self, other) {
            (TokenKind::If, TokenKind::If) => true,
            (TokenKind::Then, TokenKind::Then) => true,
            (TokenKind::Else, TokenKind::Else) => true,
            (TokenKind::Struct, TokenKind::Struct) => true,
            (TokenKind::LParen, TokenKind::LParen) => true,
            (TokenKind::RParen, TokenKind::RParen) => true,
            (TokenKind::LBrace, TokenKind::LBrace) => true,
            (TokenKind::RBrace, TokenKind::RBrace) => true,
            (TokenKind::Comma, TokenKind::Comma) => true,
            (TokenKind::Dot, TokenKind::Dot) => true,
            (TokenKind::Equals, TokenKind::Equals) => true,
            (TokenKind::Colon, TokenKind::Colon) => true,
            (TokenKind::Add, TokenKind::Add) => true,
            (TokenKind::Sub, TokenKind::Sub) => true,
            (TokenKind::Mul, TokenKind::Mul) => true,
            (TokenKind::Eq, TokenKind::Eq) => true,
            (TokenKind::Neq, TokenKind::Neq) => true,
            (TokenKind::Lt, TokenKind::Lt) => true,
            (TokenKind::Gt, TokenKind::Gt) => true,
            (TokenKind::Le, TokenKind::Le) => true,
            (TokenKind::Ge, TokenKind::Ge) => true,
            (TokenKind::Num(a), TokenKind::Num(b)) => *a == *b,
            (TokenKind::True, TokenKind::True) => true,
            (TokenKind::False, TokenKind::False) => true,
            (TokenKind::Var(a), TokenKind::Var(b)) => *a == *b,
            (TokenKind::Int, TokenKind::Int) => true,
            (TokenKind::Bool, TokenKind::Bool) => true,
            (TokenKind::Eof, TokenKind::Eof) => true,
            _ => false,
        }
    }

    /// The kind as diagnostics show it.
    pub fn describe(&self) -> (s: String)
        ensures
            s@ == kind_text(self@),
    {
        match self {
            TokenKind::Add => String::from_str("'+'"),
            TokenKind::Sub => String::from_str("'-'"),
            TokenKind::Mul => String::from_str("'*'"),
            TokenKind::Eq => String::from_str("'=='"),
            TokenKind::Neq => String::from_str("'!='"),
            TokenKind::Lt => String::from_str("'<'"),
            TokenKind::Gt => String::from_str("'>'"),
            TokenKind::Le => String::from_str("'<='"),
            TokenKind::Ge => String::from_str("'>='"),
            TokenKind::If => String::from_str("'if'"),
            TokenKind::Then => String::from_str("'then'"),
            TokenKind::Else => String::from_str("'else'"),
            TokenKind::Struct => String::from_str("'struct'"),
            TokenKind::LParen => String::from_str("'('"),
            TokenKind::RParen => String::from_str("')'"),
            TokenKind::LBrace => String::from_str("'{'"),
            TokenKind::RBrace => String::from_str("'}'"),
            TokenKind::Comma => String::from_str("','"),
            TokenKind::Dot => String::from_str("'.'"),
            TokenKind::Equals => String::from_str("'='"),
            TokenKind::Colon => String::from_str("':'"),
            TokenKind::Num(n) => {
                let mut s = String::new();
                push_signed_decimal(&mut s, *n);
                assert(s@ =~= signed_decimal(*n as int));
                s
            },
            TokenKind::True => String::from_str("'true'"),
            TokenKind::False => String::from_str("'false'"),
            TokenKind::Var(v) => v.clone(),
            TokenKind::Int => String::from_str("'int'"),
            TokenKind::Bool => String::from_str("'bool'"),
            TokenKind::Eof => String::from_str("EOF"),
        }
    }
}

impl PartialEq for TokenKind {
    fn eq(&self, other: &Self) -> (r: bool) {
        self.same(other)
    }
}

impl vstd::std_specs::cmp::PartialEqSpecImpl for TokenKind {
    open spec fn obeys_eq_spec() -> bool {
        true
    }

    open spec fn eq_spec(&self, other: &Self) -> bool {
        self@ == other@
    }
}

/// A token and the place where it starts.
#[derive(Debug)]
pub struct Token {
    pub kind: TokenKind,
    pub loc: Loc,
}

/// The mathematical model of a [`Token`].
pub struct TokenView {
    pub kind: TokenKindView,
    pub loc: Loc,
}

impl View for Token {
    type V = TokenView;

    open spec fn view(&self) -> TokenView {
        TokenView { kind: self.kind@, loc: self.loc }
    }
}

impl DeepView for Token {
    type V = TokenView;

    open spec fn deep_view(&self) -> TokenView {
        self@
    }
}

impl Token {
    pub fn new(kind: TokenKind, loc: Loc) -> (t: Self)
        ensures
            t.kind == kind,
            t.loc == loc,
    {
        Self { kind, loc }
    }
}

} // verus!
