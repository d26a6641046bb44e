use compiler::diag::{Fault, Stage};
use compiler::lexer::{keyword_of, Lexer};
use compiler::token::{Token, TokenKind};

fn kinds(source: &str) -> Vec<String> {
    let mut lexer = Lexer::new(source);
    let mut out = Vec::new();
    loop {
        let token = lexer.next().expect("a token");
        let end = matches!(token.kind, TokenKind::Eof);
        out.push(format!("{:?}", token.kind));
        if end {
            return out;
        }
    }
}

fn first_failure(source: &str) -> Fault {
    let mut lexer = Lexer::new(source);
    loop {
        match lexer.next() {
            Ok(token) => {
                if matches!(token.kind, TokenKind::Eof) {
                    panic!("the text was lexed to its end");
                }
            }
            Err(d) => {
                assert_eq!(d.fault.get_stage(), Stage::Parse);
                return d.fault;
            }
        }
    }
}

#[test]
fn lexes_every_keyword() {
    assert_eq!(
        kinds("if then else struct true false int bool"),
        vec!["If", "Then", "Else", "Struct", "True", "False", "Int", "Bool", "Eof"]
    );
}

#[test]
fn lexes_every_symbol() {
    assert_eq!(
        kinds("( ) { } , . = : + - * == != < > <= >="),
        vec![
            "LParen", "RParen", "LBrace", "RBrace", "Comma", "Dot", "Equals", "Colon", "Add",
            "Sub", "Mul", "Eq", "Neq", "Lt", "Gt", "Le", "Ge", "Eof"
        ]
    );
}

#[test]
fn symbols_need_no_space_between_them() {
    assert_eq!(kinds("<=<"), vec!["Le", "Lt", "Eof"]);
    assert_eq!(kinds("==="), vec!["Eq", "Equals", "Eof"]);
    assert_eq!(kinds(">=="), vec!["Ge", "Equals", "Eof"]);
    assert_eq!(kinds("a.b"), vec!["Var(\"a\")", "Dot", "Var(\"b\")", "Eof"]);
}

#[test]
fn a_bare_equals_sign_is_not_a_comparison() {
    assert_eq!(kinds("= =="), vec!["Equals", "Eq", "Eof"]);
}

#[test]
fn identifiers_are_read_greedily_before_keywords_are_looked_up() {
    assert_eq!(kinds("iffy"), vec!["Var(\"iffy\")", "Eof"]);
    assert_eq!(kinds("if1"), vec!["Var(\"if1\")", "Eof"]);
    assert_eq!(kinds("int2 bool"), vec!["Var(\"int2\")", "Bool", "Eof"]);
    assert_eq!(kinds("If"), vec!["Var(\"If\")", "Eof"]);
}

#[test]
fn an_identifier_starts_with_a_letter() {
    assert_eq!(kinds("x1y2"), vec!["Var(\"x1y2\")", "Eof"]);
    assert_eq!(kinds("1x"), vec!["Num(1)", "Var(\"x\")", "Eof"]);
}

#[test]
fn numbers_are_read_in_decimal() {
    assert_eq!(kinds("0"), vec!["Num(0)", "Eof"]);
    assert_eq!(kinds("42"), vec!["Num(42)", "Eof"]);
    assert_eq!(kinds("0012"), vec!["Num(12)", "Eof"]);
    assert_eq!(kinds("9223372036854775807"), vec!["Num(9223372036854775807)", "Eof"]);
}

#[test]
fn a_number_beyond_the_signed_range_is_refused() {
    assert_eq!(first_failure("9223372036854775808"), Fault::NumberTooLarge);
    assert_eq!(first_failure("x = 99999999999999999999999999"), Fault::NumberTooLarge);
}

#[test]
fn a_lone_exclamation_mark_is_refused() {
    assert_eq!(first_failure("a ! b"), Fault::UnexpectedCharacter);
    assert_eq!(first_failure("!"), Fault::UnexpectedCharacter);
}

#[test]
fn a_question_mark_behind_an_identifier_is_refused() {
    assert_eq!(first_failure("nil?"), Fault::UnexpectedCharacter);
    assert_eq!(first_failure("if?"), Fault::UnexpectedCharacter);
}

#[test]
fn a_character_that_starts_no_token_is_refused() {
    assert_eq!(first_failure("a # b"), Fault::UnexpectedCharacter);
    assert_eq!(first_failure("_x"), Fault::UnexpectedCharacter);
    assert_eq!(first_failure("a_b"), Fault::UnexpectedCharacter);
    assert_eq!(first_failure("\u{e9}"), Fault::UnexpectedCharacter);
}

#[test]
fn the_diagnostic_of_the_lexer_is_a_parse_error_with_its_place() {
    let mut lexer = Lexer::new("ab\n  #");
    lexer.next().expect("the identifier");
    let d = lexer.next().expect_err("no token starts with #");
    assert_eq!(d.render(), "[Parse error][2:3]: Unexpected character: #.");
}

#[test]
fn white_space_is_skipped() {
    assert_eq!(kinds("  \t\r\n a \n\n b  "), vec!["Var(\"a\")", "Var(\"b\")", "Eof"]);
    assert_eq!(kinds("a\u{a0}b\u{2003}c"), vec!["Var(\"a\")", "Var(\"b\")", "Var(\"c\")", "Eof"]);
    assert_eq!(kinds(""), vec!["Eof"]);
    assert_eq!(kinds("   "), vec!["Eof"]);
}

#[test]
fn every_token_carries_the_place_where_it_starts() {
    let mut lexer = Lexer::new("ab cd\n  12 ==\n\nx");
    let mut places = Vec::new();
    loop {
        let Token { kind, loc } = lexer.next().expect("a token");
        places.push((loc.line, loc.col));
        if matches!(kind, TokenKind::Eof) {
            break;
        }
    }
    assert_eq!(places, vec![(1, 1), (1, 4), (2, 3), (2, 6), (4, 1), (4, 2)]);
}

#[test]
fn the_end_of_the_text_is_reported_again_and_again() {
    let mut lexer = Lexer::new("x");
    assert!(!lexer.is_eof());
    assert!(matches!(lexer.next().unwrap().kind, TokenKind::Var(_)));
    assert!(lexer.is_eof());
    assert!(matches!(lexer.next().unwrap().kind, TokenKind::Eof));
    assert!(matches!(lexer.next().unwrap().kind, TokenKind::Eof));
    assert!(lexer.is_eof());
}

#[test]
fn the_reader_is_at_the_end_only_behind_the_last_character() {
    let mut lexer = Lexer::new("x  ");
    lexer.next().unwrap();
    assert!(!lexer.is_eof());
    lexer.next().unwrap();
    assert!(lexer.is_eof());
}

#[test]
fn only_the_eight_keywords_are_keywords() {
    for word in ["if", "then", "else", "int", "bool", "true", "false", "struct"] {
        assert!(keyword_of(&word.to_string()).is_some(), "{}", word);
    }
    for word in ["", "i", "iff", "IF", "result", "structs", "nil", "let"] {
        assert!(keyword_of(&word.to_string()).is_none(), "{}", word);
    }
    assert!(matches!(keyword_of(&"struct".to_string()), Some(TokenKind::Struct)));
    assert!(matches!(keyword_of(&"false".to_string()), Some(TokenKind::False)));
}

#[test]
fn kinds_are_compared_with_their_names_and_numbers() {
    assert!(TokenKind::Var("a".to_string()).same(&TokenKind::Var("a".to_string())));
    assert!(!TokenKind::Var("a".to_string()).same(&TokenKind::Var("b".to_string())));
    assert!(TokenKind::Num(3).same(&TokenKind::Num(3)));
    assert!(!TokenKind::Num(3).same(&TokenKind::Num(4)));
    assert!(!TokenKind::Lt.same(&TokenKind::Le));
    assert!(TokenKind::Eof.same(&TokenKind::Eof));
}

#[test]
fn kinds_are_described_as_diagnostics_show_them() {
    assert_eq!(TokenKind::Add.describe(), "'+'");
    assert_eq!(TokenKind::Neq.describe(), "'!='");
    assert_eq!(TokenKind::LBrace.describe(), "'{'");
    assert_eq!(TokenKind::Num(17).describe(), "17");
    assert_eq!(TokenKind::Var("abc".to_string()).describe(), "abc");
    assert_eq!(TokenKind::Eof.describe(), "EOF");
}
