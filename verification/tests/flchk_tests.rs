use compiler::diag::{Fault, Stage};
use compiler::fl::{Expr, Function, Program};
use compiler::flchk::{
    check, check_for_arity_mismatches, check_for_missing_fields, check_for_result,
    check_for_shadowing, check_for_undefined_functions, check_for_undefined_structs,
    check_for_undefined_types, check_for_undefined_variables,
};
use compiler::parser::parse;

fn fault(source: &str) -> Fault {
    let program = parse(source).expect("the text parses");
    let d = check(&program).expect_err("the program is refused");
    assert_eq!(d.fault.get_stage(), Stage::Semantic);
    assert!(d.render().starts_with("[Semantic error]["), "{}", d.render());
    d.fault
}

fn accepted(source: &str) {
    let program = parse(source).expect("the text parses");
    check(&program).expect("the program passes the checks");
}

#[test]
fn a_program_without_result_is_refused() {
    assert_eq!(fault("f:int=1"), Fault::MissingResult);
    assert_eq!(fault(""), Fault::MissingResult);
    assert_eq!(fault("struct result { }"), Fault::MissingResult);
}

#[test]
fn the_missing_result_is_named_in_the_diagnostic() {
    let program = parse("f:int=1").unwrap();
    let line = check(&program).unwrap_err().render();
    assert!(line.contains("[Semantic error]"), "{}", line);
    assert!(line.contains("result"), "{}", line);
    assert_eq!(
        line,
        "[Semantic error][1:1]: Exactly one 'result' nullary function must be defined."
    );
}

#[test]
fn a_result_of_any_type_is_accepted() {
    accepted("result : int = 1");
    accepted("result : bool = true");
    accepted("struct P { a : int }\nresult : P = P{a = 1}");
}

#[test]
fn a_parameter_may_not_have_the_name_of_a_function() {
    assert_eq!(fault("f(g : int) : int = 1\ng : int = 2\nresult : int = 3"), Fault::Shadowing);
    assert_eq!(fault("f(f : int) : int = 1\nresult : int = 3"), Fault::Shadowing);
    assert_eq!(fault("f(result : int) : int = 1\nresult : int = 3"), Fault::Shadowing);
}

#[test]
fn a_parameter_may_not_have_the_name_of_a_struct() {
    assert_eq!(fault("struct P { }\nf(P : int) : int = 1\nresult : int = 3"), Fault::Shadowing);
}

#[test]
fn the_shadowing_diagnostic_points_to_the_function() {
    let program = parse("result : int = 3\n\n  f(a : int, g : int) : int = 1\ng : int = 2").unwrap();
    let d = check_for_shadowing(&program).unwrap_err();
    assert_eq!(
        d.render(),
        "[Semantic error][3:3]: Parameter g in function f shadows global name g."
    );
}

#[test]
fn a_call_of_an_undefined_function_is_refused() {
    assert_eq!(fault("result : int = f(1)"), Fault::UndefinedFunction);
    assert_eq!(fault("result : int = 1 + (2 * f())"), Fault::UndefinedFunction);
    assert_eq!(fault("g(x : int) : int = x\nresult : int = g(h(1))"), Fault::UndefinedFunction);
    assert_eq!(fault("struct P { a : int }\nresult : int = P{a = f(1)}.a"), Fault::UndefinedFunction);
    assert_eq!(fault("struct P { }\nresult : int = P(1)"), Fault::UndefinedFunction);
    assert_eq!(fault("result : int = if f(1) then 1 else 2"), Fault::UndefinedFunction);
}

#[test]
fn a_constructor_of_an_undefined_struct_is_refused() {
    assert_eq!(fault("result : int = P{a = 1}.a"), Fault::UndefinedStruct);
    assert_eq!(fault("f : int = 1\nresult : int = f{}.a"), Fault::UndefinedStruct);
    assert_eq!(fault("g(x : int) : int = x\nresult : int = g(Q{})"), Fault::UndefinedStruct);
}

#[test]
fn a_call_with_the_wrong_number_of_arguments_is_refused() {
    assert_eq!(fault("f(x:int):int=x\n result:int=f(1,2)"), Fault::ArityMismatch);
    assert_eq!(fault("f(x:int):int=x\n result:int=f()"), Fault::ArityMismatch);
    assert_eq!(fault("f:int=1\n result:int=f(1)"), Fault::ArityMismatch);
    assert_eq!(fault("f(x:int, y:int):int=x\n result:int=f(f(1, 2))"), Fault::ArityMismatch);
}

#[test]
fn the_arity_diagnostic_counts_the_arguments() {
    let program = parse("f(x:int):int=x\n result:int=f(1,2)").unwrap();
    let line = check(&program).unwrap_err().render();
    assert!(line.contains("[Semantic error]"), "{}", line);
    assert!(line.contains("arity"), "{}", line);
    assert_eq!(
        line,
        "[Semantic error][2:14]: Function f called with 2 arguments, but expects 1 (arity mismatch)."
    );
}

#[test]
fn a_constructor_gives_exactly_the_fields_of_its_struct() {
    let p = "struct P { a : int, b : int }\n";
    assert_eq!(fault(&format!("{}result : int = P{{a = 1}}.a", p)), Fault::FieldMismatch);
    assert_eq!(fault(&format!("{}result : int = P{{}}.a", p)), Fault::FieldMismatch);
    assert_eq!(
        fault(&format!("{}result : int = P{{a = 1, b = 2, c = 3}}.a", p)),
        Fault::FieldMismatch
    );
    assert_eq!(fault(&format!("{}result : int = P{{a = 1, c = 3}}.a", p)), Fault::FieldMismatch);
    assert_eq!(fault("struct E { }\nresult : int = E{a = 1}.a"), Fault::FieldMismatch);
    accepted(&format!("{}result : int = P{{b = 2, a = 1}}.a", p));
    accepted("struct E { }\nresult : E = E{}");
}

#[test]
fn a_variable_is_a_parameter_or_a_function_without_parameters() {
    assert_eq!(fault("result : int = x"), Fault::UndefinedVariable);
    assert_eq!(fault("f(x : int) : int = y\nresult : int = 1"), Fault::UndefinedVariable);
    assert_eq!(fault("f(x : int) : int = x\nresult : int = f"), Fault::UndefinedVariable);
    assert_eq!(fault("f(x : int) : int = x\ng : int = x\nresult : int = 1"), Fault::UndefinedVariable);
    assert_eq!(fault("struct P { }\nresult : int = P"), Fault::UndefinedVariable);
    accepted("f(x : int) : int = x + g\ng : int = 2\nresult : int = g");
    accepted("f() : int = 1\nresult : int = f");
}

#[test]
fn every_type_resolves() {
    assert_eq!(fault("result : P = 1"), Fault::UndefinedType);
    assert_eq!(fault("f(x : Q) : int = 1\nresult : int = 1"), Fault::UndefinedType);
    assert_eq!(fault("struct P { a : Q }\nresult : int = 1"), Fault::UndefinedType);
    assert_eq!(fault("f : int = 1\nresult : f = 1"), Fault::UndefinedType);
    accepted("struct P { next : P }\nf(x : P) : P = x\nresult : int = 1");
}

#[test]
fn the_first_check_that_fails_is_reported() {
    assert_eq!(fault("f(g : int) : int = h(1)\ng : int = 2"), Fault::MissingResult);
    assert_eq!(fault("f(g : int) : int = h(1)\ng : int = 2\nresult : int = 1"), Fault::Shadowing);
    assert_eq!(fault("result : Q = f(1) + P{}.a + x"), Fault::UndefinedFunction);
    assert_eq!(fault("f : int = 1\nresult : Q = f(1) + P{}.a + x"), Fault::UndefinedStruct);
    assert_eq!(
        fault("struct P { a : int }\nf : int = 1\nresult : Q = f(1) + P{}.a + x"),
        Fault::ArityMismatch
    );
    assert_eq!(
        fault("struct P { a : int }\nf : int = 1\nresult : Q = f + P{}.a + x"),
        Fault::FieldMismatch
    );
    assert_eq!(
        fault("struct P { a : int }\nf : int = 1\nresult : Q = f + P{a = 1}.a + x"),
        Fault::UndefinedVariable
    );
    assert_eq!(
        fault("struct P { a : int }\nf : int = 1\nresult : Q = f + P{a = 1}.a"),
        Fault::UndefinedType
    );
    accepted("struct P { a : int }\nf : int = 1\nresult : int = f + P{a = 1}.a");
}

#[test]
fn each_check_can_be_run_alone() {
    let program = parse("struct P { a : int }\nf(x : int) : int = x\ng(f : Q) : int = h(1) + f(1, 2) + R{}.a + P{}.a + y")
        .unwrap();
    assert_eq!(check_for_result(&program).unwrap_err().fault, Fault::MissingResult);
    assert_eq!(check_for_shadowing(&program).unwrap_err().fault, Fault::Shadowing);
    assert_eq!(check_for_undefined_functions(&program).unwrap_err().fault, Fault::UndefinedFunction);
    assert_eq!(check_for_undefined_structs(&program).unwrap_err().fault, Fault::UndefinedStruct);
    assert_eq!(check_for_arity_mismatches(&program).unwrap_err().fault, Fault::ArityMismatch);
    assert_eq!(check_for_missing_fields(&program).unwrap_err().fault, Fault::FieldMismatch);
    assert_eq!(check_for_undefined_variables(&program).unwrap_err().fault, Fault::UndefinedVariable);
    assert_eq!(check_for_undefined_types(&program).unwrap_err().fault, Fault::UndefinedType);
}

#[test]
fn a_check_that_is_run_alone_passes_over_what_others_check() {
    let program = parse("result : int = f(1, 2) + P{a = 1}.a").unwrap();
    assert!(check_for_arity_mismatches(&program).is_ok());
    assert!(check_for_missing_fields(&program).is_ok());
    assert!(check_for_undefined_variables(&program).is_ok());
    assert!(check_for_undefined_types(&program).is_ok());
    assert!(check_for_shadowing(&program).is_ok());
    assert!(check_for_undefined_functions(&program).is_err());
    assert!(check_for_undefined_structs(&program).is_err());
}

#[test]
fn a_result_with_parameters_is_refused() {
    assert_eq!(fault("result(x : int) : int = x"), Fault::MissingResult);
    assert_eq!(fault("result(x : int, y : bool) : int = x\nf : int = 1"), Fault::MissingResult);
    let program = parse("f : int = 1\n  result(x : int) : int = x").unwrap();
    assert_eq!(
        check(&program).unwrap_err().render(),
        "[Semantic error][1:1]: Exactly one 'result' nullary function must be defined."
    );
    accepted("result() : int = 1");
}

fn coherent(program: &Program, f: &Function, e: &Expr) -> bool {
    match e {
        Expr::Var(name, _) => {
            f.arg_names.contains(name)
                || program.functions.iter().any(|(n, g)| n == name && g.args.is_empty())
        }
        Expr::Num(..) | Expr::Bool(..) => true,
        Expr::Add(l, r, _)
        | Expr::Sub(l, r, _)
        | Expr::Mul(l, r, _)
        | Expr::Eq(l, r, _)
        | Expr::Neq(l, r, _)
        | Expr::Lt(l, r, _)
        | Expr::Gt(l, r, _)
        | Expr::Le(l, r, _)
        | Expr::Ge(l, r, _) => coherent(program, f, l) && coherent(program, f, r),
        Expr::If(c, t, e, _) => {
            coherent(program, f, c) && coherent(program, f, t) && coherent(program, f, e)
        }
        Expr::Call(name, args, _) => {
            program.functions.iter().any(|(n, g)| n == name && g.args.len() == args.len())
                && args.iter().all(|a| coherent(program, f, a))
        }
        Expr::Field(obj, _, _) => coherent(program, f, obj),
        Expr::Constructor(name, fields, _) => {
            program.structs.iter().any(|(n, s)| {
                n == name
                    && s.field_names.len() == fields.len()
                    && s.field_names.iter().all(|x| fields.iter().any(|(y, _)| x == y))
            }) && fields.iter().all(|(_, e)| coherent(program, f, e))
        }
    }
}

#[test]
fn a_program_that_passes_the_checks_is_coherent() {
    let source = "struct P { a : int, b : P }\none : int = 1\nnil : P = P{a = 0, b = nil}\nf(x : int, p : P) : int = if x < one then f(x + 1, P{b = p, a = x}) else p.b.a\nresult : int = f(one, P{a = f(2, nil), b = P{b = nil, a = one}})";
    let program = parse(source).expect("the text parses");
    check(&program).expect("the program passes the checks");
    for (_, f) in &program.functions {
        assert!(coherent(&program, f, &f.body));
    }
    assert_eq!(program.functions.iter().filter(|(n, _)| n == "result").count(), 1);
    for (_, f) in &program.functions {
        for arg in &f.arg_names {
            assert!(!program.functions.iter().any(|(n, _)| n == arg));
            assert!(!program.structs.iter().any(|(n, _)| n == arg));
        }
    }
}

fn report(source: &str) -> String {
    let program = parse(source).expect("the text parses");
    check(&program).expect_err("the program is refused").render()
}

#[test]
fn the_checks_say_what_breaks_them_and_where() {
    assert_eq!(
        report("result : int = 1 + \n   f(2)"),
        "[Semantic error][2:5]: Function f is undefined."
    );
    assert_eq!(report("result : int = P{}.a"), "[Semantic error][1:17]: Struct P is undefined.");
    assert_eq!(
        report("f(x:int):int = x\nresult : int = f()"),
        "[Semantic error][2:17]: Function f called with 0 arguments, but expects 1 (arity mismatch)."
    );
    assert_eq!(
        report("struct P { a : int }\nresult : int = P{b = 1}.a"),
        "[Semantic error][2:17]: Constructor P does not give exactly the fields of its struct."
    );
    assert_eq!(report("result : int = 1 + y"), "[Semantic error][1:20]: Variable y is undefined.");
    assert_eq!(
        report("result : int = 1\n  g(q : Q) : int = 1"),
        "[Semantic error][2:3]: Type Q is undefined."
    );
    assert_eq!(
        report("result : int = 1\n  struct S { a : int, b : T }"),
        "[Semantic error][2:10]: Type T is undefined."
    );
}

#[test]
fn the_first_node_that_breaks_a_check_is_reported() {
    assert_eq!(
        report("g : int = a(1)\nresult : int = b(c(1), d(2)) + e(3)"),
        "[Semantic error][1:12]: Function a is undefined."
    );
    assert_eq!(
        report("result : int = b(c(1), d(2)) + e(3)"),
        "[Semantic error][1:17]: Function b is undefined."
    );
    assert_eq!(
        report("b(x : int, y : int) : int = x\nresult : int = b(c(1), d(2)) + e(3)"),
        "[Semantic error][2:19]: Function c is undefined."
    );
    assert_eq!(
        report("f(a : int, g : int, result : int) : int = 1\ng : int = 2\nresult : int = 3"),
        "[Semantic error][1:1]: Parameter g in function f shadows global name g."
    );
    assert_eq!(
        report("f(a : A, b : B) : C = 1\nresult : int = 3"),
        "[Semantic error][1:1]: Type A is undefined."
    );
    assert_eq!(
        report("f(a : int) : C = 1\nstruct S { x : D }\nresult : E = 3"),
        "[Semantic error][1:1]: Type C is undefined."
    );
}
