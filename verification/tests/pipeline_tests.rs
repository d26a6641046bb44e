use compiler::diag::{Fault, Stage};
use compiler::pipeline::{compile, Failure};

fn refusal(source: &str) -> (Fault, String) {
    match compile(source) {
        Err(Failure::Refused(d)) => (d.fault, d.render()),
        other => panic!("the text is refused with a diagnostic: {:?}", other),
    }
}

#[test]
fn a_program_is_compiled_into_one_translation_unit() {
    let c = compile("result : int = 42").expect("the text compiles");
    assert!(c.starts_with("#include \"value.h\"\n"));
    assert!(c.contains("int main(void)\n"));
    assert!(c.contains("    IC_VALUE __t0 = IC_BOX(42);\n"));
}

#[test]
fn every_scenario_that_compiles_is_compiled() {
    for source in [
        "result : int = 42",
        "result : int = 2 + 3 * 4",
        "twice(x:int):int = x + x\nresult:int = twice(10)",
        "struct P { a:int, b:int }\nresult:int = P{a=1,b=2}.b",
        "result:int = if 1 == 2 then 10 else 20",
    ] {
        assert!(compile(source).is_ok(), "{}", source);
    }
}

#[test]
fn a_text_that_does_not_parse_is_refused_by_the_parser() {
    let (fault, line) = refusal("result : int = ");
    assert_eq!(fault.get_stage(), Stage::Parse);
    assert!(line.starts_with("[Parse error][1:16]: "), "{}", line);
    let (fault, _) = refusal("result : int = 1 ! 2");
    assert_eq!(fault, Fault::UnexpectedCharacter);
}

#[test]
fn a_program_without_result_is_refused_by_the_checks() {
    let (fault, line) = refusal("f:int=1");
    assert_eq!(fault, Fault::MissingResult);
    assert!(line.contains("[Semantic error]"));
    assert!(line.contains("result"));
}

#[test]
fn a_call_with_too_many_arguments_is_refused_by_the_checks() {
    let (fault, line) = refusal("f(x:int):int=x\n result:int=f(1,2)");
    assert_eq!(fault, Fault::ArityMismatch);
    assert!(line.contains("[Semantic error]"));
    assert!(line.contains("arity"));
}

#[test]
fn a_program_that_is_not_well_typed_is_refused_by_the_type_checker() {
    let (fault, line) = refusal("result:int = 1 + true");
    assert_eq!(fault, Fault::IllTyped);
    assert!(line.contains("[Type error]"));
}

#[test]
fn the_first_stage_that_refuses_a_text_reports_it() {
    assert_eq!(refusal("f : int = 1 + true\ng : int = (").0.get_stage(), Stage::Parse);
    assert_eq!(refusal("f : int = 1 + true").0.get_stage(), Stage::Semantic);
    assert_eq!(refusal("f : int = 1 + true\nresult : int = x").0.get_stage(), Stage::Semantic);
    assert_eq!(refusal("f : int = 1 + true\nresult : int = 1").0.get_stage(), Stage::Type);
}

#[test]
fn a_result_that_takes_parameters_is_refused_by_the_checks() {
    let (fault, line) = refusal("result(x:int):int = x");
    assert_eq!(fault, Fault::MissingResult);
    assert!(line.contains("[Semantic error]"));
    assert!(line.contains("result"));
    assert!(compile("result():int = 1").is_ok());
}
