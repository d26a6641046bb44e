//! The text that writes a sequence of tokens, and the proof that lexing it
//! gives the tokens back.

use vstd::prelude::*;
use vstd::string::*;
use crate::lexer::{
    digits_end,
    is_digit,
    is_letter,
    is_space,
    is_word_char,
    keyword,
    lemma_run_bounds,
    lemma_scan_advances,
    next_token,
    scan,
    skip_spaces,
    tokens_from,
    word_end,
};
use crate::text::{decimal, lemma_decimal_digits, lemma_decimal_value};
use crate::token::TokenKindView;
use crate::grammar::defs_from;
use crate::lexer::lemma_word_run;
use crate::unparse::{
    ends_once, kinds, lemma_parse_round_trip, no_empty_parameter_list, no_grouping,
    program_tokens,
};

verus! {

/// The characters that write a token.
pub open spec fn token_text(kind: TokenKindView) -> Seq<char> {
    match kind {
        TokenKindView::If => "if"@,
        TokenKindView::Then => "then"@,
        TokenKindView::Else => "else"@,
        TokenKindView::Struct => "struct"@,
        TokenKindView::True => "true"@,
        TokenKindView::False => "false"@,
        TokenKindView::Int => "int"@,
        TokenKindView::Bool => "bool"@,
        TokenKindView::LParen => seq!['('],
        TokenKindView::RParen => seq![')'],
        TokenKindView::LBrace => seq!['{'],
        TokenKindView::RBrace => seq!['}'],
        TokenKindView::Comma => seq![','],
        TokenKindView::Dot => seq!['.'],
        TokenKindView::Equals => seq!['='],
        TokenKindView::Colon => seq![':'],
        TokenKindView::Add => seq!['+'],
        TokenKindView::Sub => seq!['-'],
        TokenKindView::Mul => seq!['*'],
        TokenKindView::Eq => seq!['=', '='],
        TokenKindView::Neq => seq!['!', '='],
        TokenKindView::Lt => seq!['<'],
        TokenKindView::Gt => seq!['>'],
        TokenKindView::Le => seq!['<', '='],
        TokenKindView::Ge => seq!['>', '='],
        TokenKindView::Num(n) => decimal(n as nat),
        TokenKindView::Var(name) => name,
        TokenKindView::Eof => Seq::empty(),
    }
}

/// The text that writes the first `n` tokens, with one space behind each.
pub open spec fn render(ks: Seq<TokenKindView>, n: nat) -> Seq<char>
    decreases n,
{
    if n == 0 || n > ks.len() {
        Seq::empty()
    } else {
        render(ks, (n - 1) as nat) + token_text(ks[n - 1]) + seq![' ']
    }
}

/// A word that can be a name: a letter, and letters and digits behind it.
pub open spec fn is_word(w: Seq<char>) -> bool {
    w.len() > 0 && is_letter(w[0]) && forall|i: int| 0 <= i < w.len() ==> is_word_char(w[i])
}

/// A token as the lexer gives it before the end of the text: a name is a
/// word and no keyword, and a number lies in the signed range.
pub open spec fn writable(kind: TokenKindView) -> bool {
    match kind {
        TokenKindView::Num(n) => 0 <= n <= i64::MAX,
        TokenKindView::Var(name) => is_word(name) && keyword(name) is None,
        TokenKindView::Eof => false,
        _ => true,
    }
}

/// A sequence of tokens as the lexer gives it: `Eof` at the end, and
/// writable tokens before it.
pub open spec fn lexable(ks: Seq<TokenKindView>) -> bool {
    &&& ks.len() > 0
    &&& ks[ks.len() - 1] is Eof
    &&& forall|i: int| 0 <= i < ks.len() - 1 ==> writable(#[trigger] ks[i])
}

/// What the eight keywords are written with.
pub proof fn lemma_keyword_texts()
    ensures
        "if"@ == seq!['i', 'f'],
        "then"@ == seq!['t', 'h', 'e', 'n'],
        "else"@ == seq!['e', 'l', 's', 'e'],
        "int"@ == seq!['i', 'n', 't'],
        "bool"@ == seq!['b', 'o', 'o', 'l'],
        "true"@ == seq!['t', 'r', 'u', 'e'],
        "false"@ == seq!['f', 'a', 'l', 's', 'e'],
        "struct"@ == seq!['s', 't', 'r', 'u', 'c', 't'],
{
    reveal_strlit("if");
    reveal_strlit("then");
    reveal_strlit("else");
    reveal_strlit("int");
    reveal_strlit("bool");
    reveal_strlit("true");
    reveal_strlit("false");
    reveal_strlit("struct");
    assert("if"@ =~= seq!['i', 'f']);
    assert("then"@ =~= seq!['t', 'h', 'e', 'n']);
    assert("else"@ =~= seq!['e', 'l', 's', 'e']);
    assert("int"@ =~= seq!['i', 'n', 't']);
    assert("bool"@ =~= seq!['b', 'o', 'o', 'l']);
    assert("true"@ =~= seq!['t', 'r', 'u', 'e']);
    assert("false"@ =~= seq!['f', 'a', 'l', 's', 'e']);
    assert("struct"@ =~= seq!['s', 't', 'r', 'u', 'c', 't']);
}

/// A run of word characters ends where the first other character stands.
pub proof fn lemma_word_end_at(s: Seq<char>, i: nat, n: nat)
    requires
        i + n <= s.len(),
        forall|j: int| i <= j < i + n ==> is_word_char(s[j]),
        i + n == s.len() || !is_word_char(s[(i + n) as int]),
    ensures
        word_end(s, i) == i + n,
    decreases n,
{
    if n > 0 {
        lemma_word_end_at(s, i + 1, (n - 1) as nat);
    }
}

/// A run of digits ends where the first other character stands.
pub proof fn lemma_digits_end_at(s: Seq<char>, i: nat, n: nat)
    requires
        i + n <= s.len(),
        forall|j: int| i <= j < i + n ==> is_digit(s[j]),
        i + n == s.len() || !is_digit(s[(i + n) as int]),
    ensures
        digits_end(s, i) == i + n,
    decreases n,
{
    if n > 0 {
        lemma_digits_end_at(s, i + 1, (n - 1) as nat);
    }
}

/// A word that stands in a text, with a space or the end of the text behind
/// it, is read as the keyword that it is, or as a name.
pub proof fn lemma_scan_word(s: Seq<char>, i: nat, w: Seq<char>)
    requires
        is_word(w),
        i + w.len() <= s.len(),
        s.subrange(i as int, (i + w.len()) as int) == w,
        i + w.len() == s.len() || s[(i + w.len()) as int] == ' ',
    ensures
        scan(s, i) == Some(
            (
                match keyword(w) {
                    Some(kind) => kind,
                    None => TokenKindView::Var(w),
                },
                i + w.len(),
            ),
        ),
        !is_space(s[i as int]),
{
    assert forall|j: int| i <= j < i + w.len() implies is_word_char(s[j]) by {
        assert(s[j] == w[j - i]);
    }
    assert(s[i as int] == w[0]);
    lemma_word_end_at(s, i, w.len());
}

/// A number in decimal notation that stands in a text, with a space or the
/// end of the text behind it, is read as that number.
pub proof fn lemma_scan_number(s: Seq<char>, i: nat, n: nat)
    requires
        n <= i64::MAX,
        i + decimal(n).len() <= s.len(),
        s.subrange(i as int, (i + decimal(n).len()) as int) == decimal(n),
        i + decimal(n).len() == s.len() || s[(i + decimal(n).len()) as int] == ' ',
    ensures
        scan(s, i) == Some((TokenKindView::Num(n as int), i + decimal(n).len())),
        !is_space(s[i as int]),
{
    let d = decimal(n);
    lemma_decimal_digits(n);
    lemma_decimal_value(n);
    assert forall|j: int| i <= j < i + d.len() implies is_digit(s[j]) by {
        assert(s[j] == d[j - i]);
    }
    assert(s[i as int] == d[0]);
    lemma_digits_end_at(s, i, d.len());
}

/// A writable token that stands in a text, with a space or the end of the
/// text behind it, is read as itself.
pub proof fn lemma_scan_text(s: Seq<char>, i: nat, kind: TokenKindView)
    requires
        writable(kind),
        i + token_text(kind).len() <= s.len(),
        s.subrange(i as int, (i + token_text(kind).len()) as int) == token_text(kind),
        i + token_text(kind).len() == s.len() || s[(i + token_text(kind).len()) as int] == ' ',
    ensures
        token_text(kind).len() > 0,
        scan(s, i) == Some((kind, i + token_text(kind).len())),
        !is_space(s[i as int]),
{
    let t = token_text(kind);
    lemma_keyword_texts();
    match kind {
        TokenKindView::Num(n) => {
            lemma_decimal_digits(n as nat);
            lemma_scan_number(s, i, n as nat);
        },
        TokenKindView::Var(name) => {
            lemma_scan_word(s, i, name);
        },
        TokenKindView::If
        | TokenKindView::Then
        | TokenKindView::Else
        | TokenKindView::Struct
        | TokenKindView::True
        | TokenKindView::False
        | TokenKindView::Int
        | TokenKindView::Bool => {
            assert(is_word(t));
            lemma_scan_word(s, i, t);
        },
        _ => {
            assert(t.len() >= 1);
            assert(s[i as int] == t[0]);
            if t.len() == 2 {
                assert(s[(i + 1) as int] == t[1]);
            }
        },
    }
}

/// The text of more tokens starts with the text of fewer.
pub proof fn lemma_render_prefix(ks: Seq<TokenKindView>, n: nat, m: nat)
    requires
        n <= m <= ks.len(),
    ensures
        render(ks, n).len() <= render(ks, m).len(),
        render(ks, m).subrange(0, render(ks, n).len() as int) == render(ks, n),
    decreases m - n,
{
    if n < m {
        lemma_render_prefix(ks, n, (m - 1) as nat);
        assert(render(ks, m).subrange(0, render(ks, n).len() as int) =~= render(
            ks,
            (m - 1) as nat,
        ).subrange(0, render(ks, n).len() as int));
    } else {
        assert(render(ks, m).subrange(0, render(ks, n).len() as int) =~= render(ks, n));
    }
}

/// In the text of the tokens, token `k` stands behind the text of the
/// tokens before it, and a space stands behind it.
pub proof fn lemma_render_token(ks: Seq<TokenKindView>, k: nat)
    requires
        k < ks.len(),
    ensures
        ({
            let s = render(ks, ks.len());
            let o = render(ks, k).len();
            let t = token_text(ks[k as int]);
            &&& o + t.len() + 1 == render(ks, k + 1).len()
            &&& render(ks, k + 1).len() <= s.len()
            &&& s.subrange(o as int, (o + t.len()) as int) == t
            &&& s[(o + t.len()) as int] == ' '
        }),
{
    let s = render(ks, ks.len());
    let o = render(ks, k).len();
    let t = token_text(ks[k as int]);
    let next = render(ks, k + 1);
    assert(next == render(ks, k) + t + seq![' ']);
    lemma_render_prefix(ks, k + 1, ks.len());
    assert forall|j: int| 0 <= j < next.len() implies s[j] == next[j] by {
        assert(s.subrange(0, next.len() as int)[j] == next[j]);
    }
    assert(s.subrange(o as int, (o + t.len()) as int) =~= t) by {
        assert forall|j: int| 0 <= j < t.len() implies s[o + j] == t[j] by {
            assert(next[o + j] == t[j]);
        }
    }
    assert(next[(o + t.len()) as int] == ' ');
}

/// White space in front of the tokens does not change them.
pub proof fn lemma_tokens_from_space(s: Seq<char>, i: nat)
    requires
        i < s.len(),
        is_space(s[i as int]),
    ensures
        tokens_from(s, i) == tokens_from(s, i + 1),
{
    lemma_run_bounds(s, i + 1);
    let start = skip_spaces(s, i + 1);
    assert(skip_spaces(s, i) == start);
    if scan(s, start) is Some {
        lemma_scan_advances(s, start);
    }
}

/// The text of a lexable sequence of tokens is lexed, from the start of
/// token `k` on, into the tokens from `k` on.
pub proof fn lemma_relex_from(ks: Seq<TokenKindView>, k: nat)
    requires
        lexable(ks),
        k < ks.len(),
    ensures
        ({
            let s = render(ks, ks.len());
            let o = render(ks, k).len();
            &&& tokens_from(s, o) is Some
            &&& kinds(tokens_from(s, o)->0) == ks.subrange(k as int, ks.len() as int)
        }),
    decreases ks.len() - k,
{
    let s = render(ks, ks.len());
    let o = render(ks, k).len();
    let t = token_text(ks[k as int]);
    lemma_render_token(ks, k);
    if k == ks.len() - 1 {
        assert(t.len() == 0);
        assert(o + 1 == s.len());
        assert(skip_spaces(s, o) == s.len()) by {
            assert(skip_spaces(s, o + 1) == o + 1);
        }
        let toks = tokens_from(s, o)->0;
        assert(kinds(toks) =~= ks.subrange(k as int, ks.len() as int));
    } else {
        lemma_scan_text(s, o, ks[k as int]);
        let end = o + t.len();
        assert(skip_spaces(s, o) == o);
        lemma_tokens_from_space(s, end);
        assert(end + 1 == render(ks, k + 1).len());
        lemma_relex_from(ks, k + 1);
        let rest = tokens_from(s, end + 1)->0;
        let toks = tokens_from(s, o)->0;
        let (first, after) = next_token(s, o)->0;
        assert(toks == seq![first] + rest);
        assert(first.kind == ks[k as int]);
        assert(kinds(rest).len() == ks.len() - (k + 1));
        assert(rest.len() == ks.len() - (k + 1));
        assert(toks.len() == ks.len() - k);
        assert(kinds(toks) =~= ks.subrange(k as int, ks.len() as int)) by {
            assert forall|j: int| 0 <= j < toks.len() implies kinds(toks)[j] == ks[k + j] by {
                if j > 0 {
                    assert(toks[j] == rest[j - 1]);
                    assert(kinds(rest)[j - 1] == ks.subrange((k + 1) as int, ks.len() as int)[j
                        - 1]);
                } else {
                    assert(toks[0] == first);
                }
            }
        }
    }
}

/// The text of a lexable sequence of tokens is lexed into that sequence.
pub proof fn lemma_relex(ks: Seq<TokenKindView>)
    requires
        lexable(ks),
    ensures
        tokens_from(render(ks, ks.len()), 0) is Some,
        kinds(tokens_from(render(ks, ks.len()), 0)->0) == ks,
{
    lemma_relex_from(ks, 0);
    assert(ks.subrange(0, ks.len() as int) =~= ks);
}

/// What the lexer reads before the end of a text is writable, and it reads
/// `Eof` at the end only.
pub proof fn lemma_scan_writable(s: Seq<char>, i: nat)
    requires
        i <= s.len(),
        scan(s, i) is Some,
    ensures
        ({
            let (kind, end) = scan(s, i)->0;
            if i == s.len() {
                kind is Eof
            } else {
                writable(kind)
            }
        }),
{
    if i < s.len() {
        lemma_run_bounds(s, i);
        lemma_run_bounds(s, i + 1);
        if is_letter(s[i as int]) {
            let end = word_end(s, i);
            let word = s.subrange(i as int, end as int);
            assert forall|j: int| 0 <= j < word.len() implies is_word_char(word[j]) by {
                lemma_word_run(s, i, (i + j) as nat);
            }
            assert(word[0] == s[i as int]);
        }
    }
}

/// The tokens that a text is lexed into are lexable, and end in their one `Eof`.
pub proof fn lemma_lexed_lexable(s: Seq<char>, i: nat)
    requires
        i <= s.len(),
        tokens_from(s, i) is Some,
    ensures
        lexable(kinds(tokens_from(s, i)->0)),
        ends_once(tokens_from(s, i)->0),
    decreases s.len() - i,
{
    let start = skip_spaces(s, i);
    lemma_run_bounds(s, i);
    lemma_scan_writable(s, start);
    lemma_scan_advances(s, start);
    let (token, end) = next_token(s, i)->0;
    let toks = tokens_from(s, i)->0;
    if token.kind is Eof {
        assert(toks == seq![token]);
    } else {
        lemma_lexed_lexable(s, end);
        let rest = tokens_from(s, end)->0;
        assert(toks == seq![token] + rest);
        assert forall|j: int| 0 <= j < toks.len() - 1 implies writable(
            #[trigger] kinds(toks)[j],
        ) by {
            if j > 0 {
                assert(toks[j] == rest[j - 1]);
                assert(kinds(rest)[j - 1] == rest[j - 1].kind);
            }
        }
        assert forall|j: int| 0 <= j < toks.len() implies ((#[trigger] toks[j]).kind is Eof <==> j
            == toks.len() - 1) by {
            if j > 0 {
                assert(toks[j] == rest[j - 1]);
            }
        }
        assert(toks[toks.len() - 1] == rest[rest.len() - 1]);
    }
}

/// A text round-trips through the parser: where a text is parsed into
/// definitions, the tokens that write those definitions, written out and
/// lexed again, are the tokens of the text. This holds of a text without
/// parentheses but those of calls and of parameter lists, and without a
/// function defined with an empty pair of parentheses: the syntax tree
/// keeps neither.
pub proof fn lemma_source_round_trip(source: Seq<char>)
    requires
        tokens_from(source, 0) is Some,
        no_grouping(tokens_from(source, 0)->0),
        no_empty_parameter_list(tokens_from(source, 0)->0),
        defs_from(tokens_from(source, 0)->0, 0, Seq::empty()) is Some,
    ensures
        ({
            let toks = tokens_from(source, 0)->0;
            let defs = defs_from(toks, 0, Seq::empty())->0;
            let written = program_tokens(defs);
            let text = render(written, written.len());
            &&& written == kinds(toks)
            &&& tokens_from(text, 0) is Some
            &&& kinds(tokens_from(text, 0)->0) == kinds(toks)
        }),
{
    let toks = tokens_from(source, 0)->0;
    lemma_lexed_lexable(source, 0);
    lemma_parse_round_trip(toks);
    lemma_relex(kinds(toks));
}

} // verus!
