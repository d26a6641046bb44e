use compiler::diag::{push_type, Diagnostic, Fault, Stage};
use compiler::loc::Loc;
use compiler::table::{
    all_found, clone_names, entry_names, find_entry, find_name, same_names_in,
};
use compiler::text::{decimal_string, digit_text, push_decimal, push_signed_decimal};
use compiler::ty::{clone_types, Type};

fn names(list: &[&str]) -> Vec<String> {
    list.iter().map(|s| s.to_string()).collect()
}

#[test]
fn natural_numbers_are_written_without_leading_zeros() {
    assert_eq!(decimal_string(0), "0");
    assert_eq!(decimal_string(7), "7");
    assert_eq!(decimal_string(10), "10");
    assert_eq!(decimal_string(1234567890), "1234567890");
    assert_eq!(decimal_string(u64::MAX), "18446744073709551615");
}

#[test]
fn digits_have_one_character_each() {
    let all: Vec<&str> = (0..10).map(digit_text).collect();
    assert_eq!(all, vec!["0", "1", "2", "3", "4", "5", "6", "7", "8", "9"]);
}

#[test]
fn numbers_are_appended_to_what_is_there() {
    let mut s = String::from("n=");
    push_decimal(&mut s, 405);
    assert_eq!(s, "n=405");
    push_signed_decimal(&mut s, -12);
    assert_eq!(s, "n=405-12");
}

#[test]
fn negative_numbers_carry_a_minus_sign() {
    let mut s = String::new();
    push_signed_decimal(&mut s, -1);
    assert_eq!(s, "-1");
    let mut s = String::new();
    push_signed_decimal(&mut s, i64::MIN);
    assert_eq!(s, "-9223372036854775808");
    let mut s = String::new();
    push_signed_decimal(&mut s, i64::MAX);
    assert_eq!(s, "9223372036854775807");
    let mut s = String::new();
    push_signed_decimal(&mut s, 0);
    assert_eq!(s, "0");
}

#[test]
fn a_place_holds_its_line_and_column() {
    let loc = Loc::new(3, 14);
    assert_eq!(loc.line, 3);
    assert_eq!(loc.col, 14);
}

#[test]
fn base_types_are_int_and_bool() {
    assert!(Type::Int.is_base_type());
    assert!(Type::Bool.is_base_type());
    assert!(!Type::Struct("P".to_string()).is_base_type());
}

#[test]
fn types_are_equal_when_they_name_the_same() {
    assert!(Type::Int == Type::Int);
    assert!(Type::Int != Type::Bool);
    assert!(Type::Struct("P".to_string()) == Type::Struct("P".to_string()));
    assert!(Type::Struct("P".to_string()) != Type::Struct("Q".to_string()));
    assert!(Type::Struct("int".to_string()) != Type::Int);
    assert!(Type::Struct("P".to_string()).clone() == Type::Struct("P".to_string()));
    let list = vec![Type::Int, Type::Struct("P".to_string()), Type::Bool];
    assert!(clone_types(&list) == list);
}

#[test]
fn types_are_shown_as_the_source_writes_them() {
    let mut s = String::new();
    push_type(&mut s, &Type::Int);
    s.push(' ');
    push_type(&mut s, &Type::Bool);
    s.push(' ');
    push_type(&mut s, &Type::Struct("P".to_string()));
    assert_eq!(s, "int bool struct P");
}

#[test]
fn a_diagnostic_is_rendered_with_stage_and_place() {
    let d = Diagnostic::new(Fault::UnexpectedToken, Loc::new(2, 7), "Expected variable".to_string());
    assert_eq!(d.render(), "[Parse error][2:7]: Expected variable.");
    let d = Diagnostic::new(Fault::MissingResult, Loc::new(1, 1), "no result".to_string());
    assert_eq!(d.render(), "[Semantic error][1:1]: no result.");
    let d = Diagnostic::new(Fault::IllTyped, Loc::new(10, 122), "Cannot add int and bool".to_string());
    assert_eq!(d.render(), "[Type error][10:122]: Cannot add int and bool.");
}

#[test]
fn every_fault_belongs_to_one_stage() {
    let parse = [
        Fault::UnexpectedCharacter,
        Fault::NumberTooLarge,
        Fault::UnexpectedToken,
        Fault::DuplicateDefinition,
        Fault::DuplicateParameter,
        Fault::DuplicateField,
        Fault::DuplicateAssignment,
    ];
    let semantic = [
        Fault::MissingResult,
        Fault::Shadowing,
        Fault::UndefinedFunction,
        Fault::UndefinedStruct,
        Fault::ArityMismatch,
        Fault::FieldMismatch,
        Fault::UndefinedVariable,
        Fault::UndefinedType,
    ];
    for f in parse {
        assert_eq!(f.get_stage(), Stage::Parse);
    }
    for f in semantic {
        assert_eq!(f.get_stage(), Stage::Semantic);
    }
    assert_eq!(Fault::IllTyped.get_stage(), Stage::Type);
}

#[test]
fn a_name_is_found_at_its_first_position() {
    let list = names(&["a", "b", "a", "c"]);
    assert_eq!(find_name(&list, &"a".to_string()), Some(0));
    assert_eq!(find_name(&list, &"b".to_string()), Some(1));
    assert_eq!(find_name(&list, &"c".to_string()), Some(3));
    assert_eq!(find_name(&list, &"d".to_string()), None);
    assert_eq!(find_name(&Vec::new(), &"a".to_string()), None);
}

#[test]
fn an_entry_is_found_under_its_name() {
    let table = vec![("x".to_string(), 10u64), ("y".to_string(), 20), ("x".to_string(), 30)];
    assert_eq!(find_entry(&table, &"x".to_string()), Some(0));
    assert_eq!(find_entry(&table, &"y".to_string()), Some(1));
    assert_eq!(find_entry(&table, &"z".to_string()), None);
    assert_eq!(entry_names(&table), names(&["x", "y", "x"]));
}

#[test]
fn lists_of_names_are_compared_as_sets() {
    let ab = names(&["a", "b"]);
    let ba = names(&["b", "a"]);
    let abc = names(&["a", "b", "c"]);
    let none: Vec<String> = Vec::new();
    assert!(same_names_in(&ab, &ba));
    assert!(same_names_in(&none, &none));
    assert!(!same_names_in(&ab, &abc));
    assert!(!same_names_in(&abc, &ab));
    assert!(!same_names_in(&ab, &none));
    assert!(all_found(&ab, &abc));
    assert!(!all_found(&abc, &ab));
    assert!(all_found(&none, &ab));
    assert_eq!(clone_names(&abc), abc);
}
