//! The lexer: what the tokens of a text are, and a reader that gives them
//! one at a time.

use vstd::prelude::*;
use vstd::string::*;
use crate::diag::{Diagnostic, Fault, Stage};
use crate::loc::Loc;
use crate::table::plain;
use crate::text::digits_value;
use crate::token::{Token, TokenKind, TokenKindView, TokenView};

verus! {

/// White space: the characters that Unicode lists as such.
pub open spec fn is_space(c: char) -> bool {
    c == ' ' || ('\t' <= c && c <= '\r') || c == '\u{85}' || c == '\u{a0}' || c == '\u{1680}' || (
    '\u{2000}' <= c && c <= '\u{200a}') || c == '\u{2028}' || c == '\u{2029}' || c == '\u{202f}'
        || c == '\u{205f}' || c == '\u{3000}'
}

/// A decimal digit.
pub open spec fn is_digit(c: char) -> bool {
    '0' <= c && c <= '9'
}

/// A letter of the Latin alphabet, small or capital.
pub open spec fn is_letter(c: char) -> bool {
    ('a' <= c && c <= 'z') || ('A' <= c && c <= 'Z')
}

/// A character that may stand in an identifier.
pub open spec fn is_word_char(c: char) -> bool {
    is_letter(c) || is_digit(c)
}

/// The first position from `i` on that holds no white space.
pub open spec fn skip_spaces(s: Seq<char>, i: nat) -> nat
    decreases s.len() - i,
{
    if i < s.len() && is_space(s[i as int]) {
        skip_spaces(s, i + 1)
    } else {
        i
    }
}

/// The end of the longest run of digits that starts at `i`.
pub open spec fn digits_end(s: Seq<char>, i: nat) -> nat
    decreases s.len() - i,
{
    if i < s.len() && is_digit(s[i as int]) {
        digits_end(s, i + 1)
    } else {
        i
    }
}

/// The end of the longest run of letters and digits that starts at `i`.
pub open spec fn word_end(s: Seq<char>, i: nat) -> nat
    decreases s.len() - i,
{
    if i < s.len() && is_word_char(s[i as int]) {
        word_end(s, i + 1)
    } else {
        i
    }
}

/// The keyword that a word is, if it is one.
pub open spec fn keyword(word: Seq<char>) -> Option<TokenKindView> {
    if word == "if"@ {
        Some(TokenKindView::If)
    } else if word == "then"@ {
        Some(TokenKindView::Then)
    } else if word == "else"@ {
        Some(TokenKindView::Else)
    } else if word == "int"@ {
        Some(TokenKindView::Int)
    } else if word == "bool"@ {
        Some(TokenKindView::Bool)
    } else if word == "true"@ {
        Some(TokenKindView::True)
    } else if word == "false"@ {
        Some(TokenKindView::False)
    } else if word == "struct"@ {
        Some(TokenKindView::Struct)
    } else {
        None
    }
}

/// The character at `i`, or the null character past the end.
pub open spec fn char_at(s: Seq<char>, i: nat) -> char {
    if i < s.len() {
        s[i as int]
    } else {
        '\0'
    }
}

/// The token that starts at `i`, where `i` holds no white space, and the
/// position behind it; `None` where no token starts there.
pub open spec fn scan(s: Seq<char>, i: nat) -> Option<(TokenKindView, nat)> {
    if i >= s.len() {
        Some((TokenKindView::Eof, i))
    } else {
        let c = s[i as int];
        if is_digit(c) {
            let end = digits_end(s, i);
            let value = digits_value(s.subrange(i as int, end as int));
            if value <= i64::MAX {
                Some((TokenKindView::Num(value as int), end))
            } else {
                None
            }
        } else if is_letter(c) {
            let end = word_end(s, i);
            let word = s.subrange(i as int, end as int);
            if char_at(s, end) == '?' {
                None
            } else {
                match keyword(word) {
                    Some(kind) => Some((kind, end)),
                    None => Some((TokenKindView::Var(word), end)),
                }
            }
        } else if c == '(' {
            Some((TokenKindView::LParen, i + 1))
        } else if c == ')' {
            Some((TokenKindView::RParen, i + 1))
        } else if c == '{' {
            Some((TokenKindView::LBrace, i + 1))
        } else if c == '}' {
            Some((TokenKindView::RBrace, i + 1))
        } else if c == ',' {
            Some((TokenKindView::Comma, i + 1))
        } else if c == '.' {
            Some((TokenKindView::Dot, i + 1))
        } else if c == ':' {
            Some((TokenKindView::Colon, i + 1))
        } else if c == '+' {
            Some((TokenKindView::Add, i + 1))
        } else if c == '-' {
            Some((TokenKindView::Sub, i + 1))
        } else if c == '*' {
            Some((TokenKindView::Mul, i + 1))
        } else if c == '=' {
            if char_at(s, i + 1) == '=' {
                Some((TokenKindView::Eq, i + 2))
            } else {
                Some((TokenKindView::Equals, i + 1))
            }
        } else if c == '!' {
            if char_at(s, i + 1) == '=' {
                Some((TokenKindView::Neq, i + 2))
            } else {
                None
            }
        } else if c == '<' {
            if char_at(s, i + 1) == '=' {
                Some((TokenKindView::Le, i + 2))
            } else {
                Some((TokenKindView::Lt, i + 1))
            }
        } else if c == '>' {
            if char_at(s, i + 1) == '=' {
                Some((TokenKindView::Ge, i + 2))
            } else {
                Some((TokenKindView::Gt, i + 1))
            }
        } else {
            None
        }
    }
}

/// Where the text holds no token at `i`, a position that holds no white
/// space: the fault, the position that the diagnostic points to, and the
/// message. A number too large is reported at its start, a question mark
/// behind a word at the question mark, and any other character where it stands.
pub open spec fn scan_failure(s: Seq<char>, i: nat) -> (Fault, nat, Seq<char>) {
    let c = char_at(s, i);
    if is_digit(c) {
        (Fault::NumberTooLarge, i, "Integer literal is too large"@)
    } else if is_letter(c) {
        (Fault::UnexpectedCharacter, word_end(s, i), "Unexpected character: '?'"@)
    } else {
        (Fault::UnexpectedCharacter, i, "Unexpected character: "@ + seq![c])
    }
}

/// The place of position `i` in the text.
pub open spec fn loc_of(s: Seq<char>, i: nat) -> Loc {
    Loc { line: place(s, i).0 as usize, col: place(s, i).1 as usize }
}

/// What a failure of the lexer reports, from position `i` on.
pub open spec fn reports(s: Seq<char>, i: nat, d: Diagnostic) -> bool {
    let (fault, at, message) = scan_failure(s, skip_spaces(s, i));
    d.fault == fault && d.loc == loc_of(s, at) && d.message@ == message
}

/// The line and the column of position `i`, both counted from one: a line
/// ends behind its newline character.
pub open spec fn place(s: Seq<char>, i: nat) -> (nat, nat)
    decreases i,
{
    if i == 0 || i > s.len() {
        (1, 1)
    } else {
        let (line, col) = place(s, (i - 1) as nat);
        if s[i - 1] == '\n' {
            (line + 1, 1)
        } else {
            (line, col + 1)
        }
    }
}

/// The next token from position `i` on, with the place where it starts, and
/// the position behind it. White space in front of it is passed over.
pub open spec fn next_token(s: Seq<char>, i: nat) -> Option<(TokenView, nat)> {
    let start = skip_spaces(s, i);
    match scan(s, start) {
        Some((kind, end)) => Some(
            (
                TokenView {
                    kind,
                    loc: Loc { line: place(s, start).0 as usize, col: place(s, start).1 as usize },
                },
                end,
            ),
        ),
        None => None,
    }
}

/// All tokens from position `i` on, the closing `Eof` included; `None` where
/// the text holds something that is no token.
pub open spec fn tokens_from(s: Seq<char>, i: nat) -> Option<Seq<TokenView>>
    decreases s.len() - i,
{
    match next_token(s, i) {
        Some((token, end)) => if token.kind is Eof {
            Some(seq![token])
        } else if i < end <= s.len() {
            match tokens_from(s, end) {
                Some(rest) => Some(seq![token] + rest),
                None => None,
            }
        } else {
            None
        },
        None => None,
    }
}

/// No place lies beyond as many lines or columns as there are characters before it.
pub proof fn lemma_place_bound(s: Seq<char>, i: nat)
    ensures
        1 <= place(s, i).0 <= i + 1,
        1 <= place(s, i).1 <= i + 1,
    decreases i,
{
    if i == 0 || i > s.len() {
    } else {
        lemma_place_bound(s, (i - 1) as nat);
    }
}

/// A run of white space, of digits or of word characters ends at or behind
/// its start and within the text.
pub proof fn lemma_run_bounds(s: Seq<char>, i: nat)
    requires
        i <= s.len(),
    ensures
        i <= skip_spaces(s, i) <= s.len(),
        i <= digits_end(s, i) <= s.len(),
        i <= word_end(s, i) <= s.len(),
    decreases s.len() - i,
{
    if i < s.len() {
        lemma_run_bounds(s, i + 1);
    }
}

/// A token other than `Eof` is not empty, and no token reaches beyond the text.
pub proof fn lemma_scan_advances(s: Seq<char>, i: nat)
    requires
        i <= s.len(),
        scan(s, i) is Some,
    ensures
        match scan(s, i) {
            Some((kind, end)) => if i == s.len() {
                kind is Eof && end == i
            } else {
                !(kind is Eof) && i < end <= s.len()
            },
            None => true,
        },
{
    if i < s.len() {
        lemma_run_bounds(s, i);
        lemma_run_bounds(s, i + 1);
    }
}

/// Every character between a position and the end of the run of digits that
/// passes through it is a digit.
pub proof fn lemma_digits_run(s: Seq<char>, i: nat, j: nat)
    requires
        i <= j < digits_end(s, i),
        i <= s.len(),
    ensures
        j < s.len(),
        is_digit(s[j as int]),
        digits_end(s, j) == digits_end(s, i),
    decreases j - i,
{
    lemma_run_bounds(s, i);
    if i < j {
        lemma_digits_run(s, i + 1, j);
    }
}

/// Every character between a position and the end of the run of word
/// characters that passes through it is a word character.
pub proof fn lemma_word_run(s: Seq<char>, i: nat, j: nat)
    requires
        i <= j < word_end(s, i),
        i <= s.len(),
    ensures
        j < s.len(),
        is_word_char(s[j as int]),
    decreases j - i,
{
    lemma_run_bounds(s, i);
    if i < j {
        lemma_word_run(s, i + 1, j);
    }
}

/// A name that the lexer reads is plain.
pub proof fn lemma_scan_plain(s: Seq<char>, i: nat)
    requires
        i <= s.len(),
    ensures
        scan(s, i) matches Some((TokenKindView::Var(name), _)) ==> plain(name),
{
    if i < s.len() && is_letter(s[i as int]) {
        let end = word_end(s, i);
        let word = s.subrange(i as int, end as int);
        lemma_run_bounds(s, i);
        assert forall|j: int| 0 <= j < word.len() implies word[j] != '_' by {
            lemma_word_run(s, i, (i + j) as nat);
        }
    }
}

/// A run of digits writes no smaller a number than any run that it starts with.
pub proof fn lemma_digits_value_grows(s: Seq<char>, a: nat, b: nat, c: nat)
    requires
        a <= b <= c <= s.len(),
        forall|j: int| a <= j < c ==> is_digit(s[j]),
    ensures
        digits_value(s.subrange(a as int, b as int)) <= digits_value(s.subrange(a as int, c as int)),
    decreases c - b,
{
    if b < c {
        lemma_digits_value_grows(s, a, b, (c - 1) as nat);
        assert(s.subrange(a as int, c as int).drop_last() =~= s.subrange(a as int, c - 1));
    }
}

/// The characters of a text.
pub fn chars_of(source: &str) -> (chars: Vec<char>)
    ensures
        chars@ == source@,
{
    let mut chars: Vec<char> = Vec::new();
    for c in it: source.chars()
        invariant
            chars@ == it.seq().take(it.index() as int),
    {
        chars.push(c);
    }
    chars
}

/// The keyword that a word is, if it is one.
pub fn keyword_of(word: &String) -> (r: Option<TokenKind>)
    ensures
        match r {
            Some(kind) => keyword(word@) == Some(kind@),
            None => keyword(word@) is None,
        },
{
    if *word == String::from_str("if") {
        Some(TokenKind::If)
    } else if *word == String::from_str("then") {
        Some(TokenKind::Then)
    } else if *word == String::from_str("else") {
        Some(TokenKind::Else)
    } else if *word == String::from_str("int") {
        Some(TokenKind::Int)
    } else if *word == String::from_str("bool") {
        Some(TokenKind::Bool)
    } else if *word == String::from_str("true") {
        Some(TokenKind::True)
    } else if *word == String::from_str("false") {
        Some(TokenKind::False)
    } else if *word == String::from_str("struct") {
        Some(TokenKind::Struct)
    } else {
        None
    }
}

fn space(c: char) -> (b: bool)
    ensures
        b == is_space(c),
{
    c == ' ' || ('\t' <= c && c <= '\r') || c == '\u{85}' || c == '\u{a0}' || c == '\u{1680}' || (
    '\u{2000}' <= c && c <= '\u{200a}') || c == '\u{2028}' || c == '\u{2029}' || c == '\u{202f}'
        || c == '\u{205f}' || c == '\u{3000}'
}

fn digit(c: char) -> (b: bool)
    ensures
        b == is_digit(c),
{
    '0' <= c && c <= '9'
}

fn letter(c: char) -> (b: bool)
    ensures
        b == is_letter(c),
{
    ('a' <= c && c <= 'z') || ('A' <= c && c <= 'Z')
}

/// A reader of tokens: the text, and how far it has been read.
pub struct Lexer<'src> {
    pub source: &'src str,
    pub chars: Vec<char>,
    pub pos: usize,
    pub start_location: Loc,
    pub end_location: Loc,
}

impl<'src> Lexer<'src> {
    /// The reader holds the characters of its text, stands within it, and
    /// knows the line and the column where it stands.
    pub open spec fn wf(&self) -> bool {
        &&& self.chars@ == self.source@
        &&& self.pos <= self.chars.len()
        &&& self.chars.len() < usize::MAX
        &&& self.end_location.line == place(self.chars@, self.pos as nat).0
        &&& self.end_location.col == place(self.chars@, self.pos as nat).1
    }

    pub fn new(source: &'src str) -> (lexer: Self)
        requires
            source@.len() < usize::MAX,
        ensures
            lexer.wf(),
            lexer.source@ == source@,
            lexer.pos == 0,
    {
        Self {
            source,
            chars: chars_of(source),
            pos: 0,
            start_location: Loc::new(1, 1),
            end_location: Loc::new(1, 1),
        }
    }

    /// Reads the next token. White space in front of it is passed over; at
    /// the end of the text the token is `Eof`, however often it is asked for.
    pub fn next(&mut self) -> (r: Result<Token, Diagnostic>)
        requires
            old(self).wf(),
        ensures
            final(self).wf(),
            final(self).source@ == old(self).source@,
            match r {
                Ok(token) => next_token(old(self).source@, old(self).pos as nat) == Some(
                    (token@, final(self).pos as nat),
                ) && (token.kind@ matches TokenKindView::Var(name) ==> plain(name)),
                Err(d) => next_token(old(self).source@, old(self).pos as nat) is None
                    && d.fault.stage() == Stage::Parse && reports(
                    old(self).source@,
                    old(self).pos as nat,
                    d,
                ),
            },
    {
        self.skip_whitespace();
        self.start_location = self.end_location;
        proof {
            lemma_place_bound(self.chars@, self.pos as nat);
            lemma_scan_plain(self.chars@, self.pos as nat);
        }
        if self.is_eof() {
            return Ok(self.make_tok(TokenKind::Eof));
        }
        let c = self.first();
        if digit(c) {
            self.lex_num()
        } else if letter(c) {
            self.lex_alpha()
        } else if c == '(' {
            Ok(self.make_single(TokenKind::LParen))
        } else if c == ')' {
            Ok(self.make_single(TokenKind::RParen))
        } else if c == '{' {
            Ok(self.make_single(TokenKind::LBrace))
        } else if c == '}' {
            Ok(self.make_single(TokenKind::RBrace))
        } else if c == ',' {
            Ok(self.make_single(TokenKind::Comma))
        } else if c == '.' {
            Ok(self.make_single(TokenKind::Dot))
        } else if c == ':' {
            Ok(self.make_single(TokenKind::Colon))
        } else if c == '+' {
            Ok(self.make_single(TokenKind::Add))
        } else if c == '-' {
            Ok(self.make_single(TokenKind::Sub))
        } else if c == '*' {
            Ok(self.make_single(TokenKind::Mul))
        } else if c == '=' {
            if self.second() == '=' {
                Ok(self.make_double(TokenKind::Eq))
            } else {
                Ok(self.make_single(TokenKind::Equals))
            }
        } else if c == '!' {
            if self.second() == '=' {
                Ok(self.make_double(TokenKind::Neq))
            } else {
                Err(self.unexpected_character())
            }
        } else if c == '<' {
            if self.second() == '=' {
                Ok(self.make_double(TokenKind::Le))
            } else {
                Ok(self.make_single(TokenKind::Lt))
            }
        } else if c == '>' {
            if self.second() == '=' {
                Ok(self.make_double(TokenKind::Ge))
            } else {
                Ok(self.make_single(TokenKind::Gt))
            }
        } else {
            Err(self.unexpected_character())
        }
    }

    /// Whether the whole text has been read.
    pub fn is_eof(&self) -> (b: bool)
        requires
            self.wf(),
        ensures
            b == (self.pos == self.source@.len()),
    {
        self.pos >= self.chars.len()
    }

    fn lex_num(&mut self) -> (r: Result<Token, Diagnostic>)
        requires
            old(self).wf(),
            old(self).pos < old(self).chars.len(),
            is_digit(old(self).chars[old(self).pos as int]),
        ensures
            final(self).wf(),
            final(self).source@ == old(self).source@,
            final(self).start_location == old(self).start_location,
            match r {
                Ok(token) => scan(old(self).source@, old(self).pos as nat) == Some(
                    (token.kind@, final(self).pos as nat),
                ) && token.loc == old(self).start_location,
                Err(d) => scan(old(self).source@, old(self).pos as nat) is None
                    && d.fault.stage() == Stage::Parse && d.fault == Fault::NumberTooLarge
                    && d.loc == old(self).start_location && d.message@
                    == "Integer literal is too large"@,
            },
    {
        let start = self.pos;
        let ghost s = self.chars@;
        let ghost end = digits_end(s, start as nat);
        let mut value: u64 = 0;
        proof {
            lemma_run_bounds(s, start as nat);
            assert(s.subrange(start as int, start as int) =~= Seq::<char>::empty());
        }
        while !self.is_eof() && digit(self.first())
            invariant
                self.wf(),
                self.chars@ == s,
                self.source@ == old(self).source@,
                self.start_location == old(self).start_location,
                start <= self.pos <= end <= s.len(),
                start < s.len(),
                start == old(self).pos,
                is_digit(s[start as int]),
                end == digits_end(s, start as nat),
                end == digits_end(s, self.pos as nat),
                forall|j: int| start <= j < self.pos ==> is_digit(s[j]),
                value == digits_value(s.subrange(start as int, self.pos as int)),
                value <= i64::MAX,
            decreases s.len() - self.pos,
        {
            let c = self.first();
            let d: u64 = (c as u32 - '0' as u32) as u64;
            let next: u128 = (value as u128) * 10 + (d as u128);
            proof {
                lemma_run_bounds(s, (self.pos + 1) as nat);
                assert(s.subrange(start as int, self.pos + 1).drop_last() =~= s.subrange(
                    start as int,
                    self.pos as int,
                ));
                assert(next == digits_value(s.subrange(start as int, self.pos + 1)));
            }
            if next > i64::MAX as u128 {
                proof {
                    assert forall|j: int| start <= j < end implies is_digit(s[j]) by {
                        lemma_digits_run(s, start as nat, j as nat);
                    }
                    lemma_digits_value_grows(s, start as nat, (self.pos + 1) as nat, end);
                }
                return Err(
                    Diagnostic::new(
                        Fault::NumberTooLarge,
                        self.start_location,
                        String::from_str("Integer literal is too large"),
                    ),
                );
            }
            value = next as u64;
            self.advance();
        }
        Ok(self.make_tok(TokenKind::Num(value as i64)))
    }

    fn lex_alpha(&mut self) -> (r: Result<Token, Diagnostic>)
        requires
            old(self).wf(),
            old(self).pos < old(self).chars.len(),
            is_letter(old(self).chars[old(self).pos as int]),
        ensures
            final(self).wf(),
            final(self).source@ == old(self).source@,
            final(self).start_location == old(self).start_location,
            match r {
                Ok(token) => scan(old(self).source@, old(self).pos as nat) == Some(
                    (token.kind@, final(self).pos as nat),
                ) && token.loc == old(self).start_location,
                Err(d) => scan(old(self).source@, old(self).pos as nat) is None
                    && d.fault.stage() == Stage::Parse && d.fault == Fault::UnexpectedCharacter
                    && d.loc == loc_of(
                    old(self).source@,
                    word_end(old(self).source@, old(self).pos as nat),
                ) && d.message@ == "Unexpected character: '?'"@,
            },
    {
        let start = self.pos;
        let ghost s = self.chars@;
        proof {
            lemma_run_bounds(s, start as nat);
        }
        while !self.is_eof() && (letter(self.first()) || digit(self.first()))
            invariant
                self.wf(),
                self.chars@ == s,
                self.source@ == old(self).source@,
                self.start_location == old(self).start_location,
                start <= self.pos <= s.len(),
                word_end(s, start as nat) == word_end(s, self.pos as nat),
            decreases s.len() - self.pos,
        {
            self.advance();
        }
        if self.first() == '?' {
            return Err(
                Diagnostic::new(
                    Fault::UnexpectedCharacter,
                    self.end_location,
                    String::from_str("Unexpected character: '?'"),
                ),
            );
        }
        let word = String::from_str(self.source.substring_char(start, self.pos));
        match keyword_of(&word) {
            Some(kind) => Ok(self.make_tok(kind)),
            None => Ok(self.make_tok(TokenKind::Var(word))),
        }
    }

    fn make_single(&mut self, kind: TokenKind) -> (token: Token)
        requires
            old(self).wf(),
            old(self).pos < old(self).chars.len(),
        ensures
            final(self).wf(),
            final(self).source@ == old(self).source@,
            final(self).pos == old(self).pos + 1,
            token.kind == kind,
            token.loc == old(self).start_location,
    {
        self.advance();
        self.make_tok(kind)
    }

    fn make_double(&mut self, kind: TokenKind) -> (token: Token)
        requires
            old(self).wf(),
            old(self).pos + 1 < old(self).chars.len(),
        ensures
            final(self).wf(),
            final(self).source@ == old(self).source@,
            final(self).pos == old(self).pos + 2,
            token.kind == kind,
            token.loc == old(self).start_location,
    {
        self.advance();
        self.advance();
        self.make_tok(kind)
    }

    fn make_tok(&self, kind: TokenKind) -> (token: Token)
        ensures
            token.kind == kind,
            token.loc == self.start_location,
    {
        Token::new(kind, self.start_location)
    }

    fn skip_whitespace(&mut self)
        requires
            old(self).wf(),
        ensures
            final(self).wf(),
            final(self).source@ == old(self).source@,
            final(self).pos == skip_spaces(old(self).source@, old(self).pos as nat),
    {
        while !self.is_eof() && space(self.first())
            invariant
                self.wf(),
                self.source@ == old(self).source@,
                skip_spaces(self.source@, self.pos as nat) == skip_spaces(
                    old(self).source@,
                    old(self).pos as nat,
                ),
            decreases self.chars.len() - self.pos,
        {
            self.advance();
        }
    }

    /// The character at the reader's position, or the null character at the end.
    fn first(&self) -> (c: char)
        requires
            self.wf(),
        ensures
            c == char_at(self.source@, self.pos as nat),
    {
        if self.pos < self.chars.len() {
            self.chars[self.pos]
        } else {
            '\0'
        }
    }

    /// The character behind the reader's position, or the null character at the end.
    fn second(&self) -> (c: char)
        requires
            self.wf(),
        ensures
            c == char_at(self.source@, (self.pos + 1) as nat),
    {
        if self.pos + 1 < self.chars.len() {
            self.chars[self.pos + 1]
        } else {
            '\0'
        }
    }

    /// Moves over one character, unless the text is at its end.
    fn advance(&mut self)
        requires
            old(self).wf(),
        ensures
            final(self).wf(),
            final(self).source@ == old(self).source@,
            final(self).chars == old(self).chars,
            final(self).start_location == old(self).start_location,
            final(self).pos == if old(self).pos < old(self).chars.len() {
                old(self).pos + 1
            } else {
                old(self).pos as int
            },
    {
        proof {
            lemma_place_bound(self.chars@, self.pos as nat);
        }
        if self.pos < self.chars.len() {
            if self.chars[self.pos] == '\n' {
                self.end_location.line += 1;
                self.end_location.col = 1;
            } else {
                self.end_location.col += 1;
            }
            self.pos += 1;
        }
    }

    /// The diagnostic for a character that starts no token.
    fn unexpected_character(&self) -> (d: Diagnostic)
        requires
            self.wf(),
            self.pos < self.chars.len(),
        ensures
            d.fault == Fault::UnexpectedCharacter,
            d.loc == self.end_location,
            d.message@ == "Unexpected character: "@ + seq![self.source@[self.pos as int]],
    {
        let mut message = String::from_str("Unexpected character: ");
        message.append(self.source.substring_char(self.pos, self.pos + 1));
        assert(self.source@.subrange(self.pos as int, self.pos + 1) =~= seq![
            self.source@[self.pos as int],
        ]);
        Diagnostic::new(Fault::UnexpectedCharacter, self.end_location, message)
    }

    /// A diagnostic of the parse stage at the reader's position.
    pub fn error(&self, message: String) -> (d: Diagnostic)
        ensures
            d.fault == Fault::UnexpectedToken,
            d.loc == self.end_location,
            d.message == message,
    {
        Diagnostic::new(Fault::UnexpectedToken, self.end_location, message)
    }
}

} // verus!
