use compiler::flchk::check;
use compiler::il::{Expr, Function, Program, Struct};
use compiler::itoc::{generate, size_of, within_limits, State};
use compiler::parser::parse;
use compiler::tc::typecheck;
use compiler::ttoi::transform;
use compiler::ty::Type;

const HEAD: &str = "#include \"value.h\"\n#include <locale.h>\n#include <stdio.h>\n#include <time.h>\n\n";

const MAIN: &str = "int main(void)\n{\n    setlocale(LC_NUMERIC, \"\");\n    clock_t t1, t2;\n    t1 = clock();\n    IC_LAR_PROTO* lar = IC_lar_new(NULL, 1, (IC_LARF[]){NULL});\n    IC_LAR_VALUE(lar, 0) = 0;\n    IC_FUNCTION_PUSH(lar);\n    IC_VALUE res = result(IC_lar_new(lar, 0, NULL));\n    IC_LAR_VALUE(lar, 0) = res;\n    IC_value_show(res);\n    IC_FUNCTION_POP(lar);\n    t2 = clock();\n    printf(\"c time = %.10f sec (GC: %.10f sec, Alloc: %'lu bytes)\\n\", ((double)(t2 - t1) / CLOCKS_PER_SEC), IC_get_gc_time(), IC_get_alloc_size());\n    IC_mem_cleanup();\n    return 0;\n}\n\n";

fn lower(source: &str) -> Program {
    let program = parse(source).expect("the text parses");
    check(&program).expect("the program passes the checks");
    transform(typecheck(program).expect("the program is well typed"))
}

fn emit(source: &str) -> String {
    let program = lower(source);
    assert!(within_limits(&program));
    generate(&program)
}

fn definition(c: &str, name: &str) -> String {
    let head = format!("static IC_VALUE {}(IC_LAR_PROTO* lar)\n{{\n", name);
    let start = c.find(&head).expect("the definition is emitted") + head.len();
    let end = c[start..].find("\n}\n").expect("the definition ends") + start + 1;
    c[start..end].to_string()
}

fn thunk(name: &str, body: Expr) -> (String, Function) {
    (name.to_string(), Function::new(Vec::new(), Vec::new(), Type::Int, body, false))
}

fn statements(body: Expr) -> String {
    let program = Program::new(
        vec![
            (
                "f".to_string(),
                Function::new(
                    vec![Type::Int, Type::Int],
                    vec!["f__a".to_string(), "f__b".to_string()],
                    Type::Int,
                    Expr::Num(0, Type::Int),
                    true,
                ),
            ),
            ("g".to_string(), Function::new(Vec::new(), Vec::new(), Type::Int, Expr::Num(0, Type::Int), true)),
            thunk("t", body),
        ],
        vec![
            (
                "P".to_string(),
                Struct::new(vec![Type::Int, Type::Bool], vec!["P__x".to_string(), "P__y".to_string()]),
            ),
            ("E".to_string(), Struct::new(Vec::new(), Vec::new())),
        ],
    );
    definition(&generate(&program), "t")
}

fn binary(e: fn(Box<Expr>, Box<Expr>, Type) -> Expr, l: i64, r: i64) -> Expr {
    e(Box::new(Expr::Num(l, Type::Int)), Box::new(Expr::Num(r, Type::Int)), Type::Int)
}

#[test]
fn the_identity_program_is_emitted_whole() {
    let expected = format!(
        "{}static IC_VALUE result(IC_LAR_PROTO* lar);\n\n{}static IC_VALUE result(IC_LAR_PROTO* lar)\n{{\n    IC_FUNCTION_PUSH(lar);\n    IC_VALUE __t0 = IC_BOX(42);\n    IC_FUNCTION_POP(lar);\n    return __t0;\n}}\n\n",
        HEAD, MAIN
    );
    assert_eq!(emit("result : int = 42"), expected);
}

#[test]
fn multiplication_is_computed_before_addition() {
    assert_eq!(
        definition(&emit("result : int = 2 + 3 * 4"), "result"),
        "    IC_FUNCTION_PUSH(lar);\n    IC_VALUE __t1 = IC_BOX(2);\n    IC_VALUE __t3 = IC_BOX(3);\n    IC_VALUE __t4 = IC_BOX(4);\n    IC_VALUE __t2 = IC_MUL(__t3, __t4);\n    IC_VALUE __t0 = IC_ADD(__t1, __t2);\n    IC_FUNCTION_POP(lar);\n    return __t0;\n"
    );
}

#[test]
fn a_call_names_its_thunks_in_the_order_of_the_parameters() {
    let c = emit("twice(x:int):int = x + x\nresult:int = twice(10)");
    assert_eq!(
        definition(&c, "result"),
        "    IC_FUNCTION_PUSH(lar);\n    IC_VALUE __t0 = twice(IC_lar_new(lar, 1, (IC_LARF[]){twice__x__0}));\n    IC_FUNCTION_POP(lar);\n    return __t0;\n"
    );
    assert_eq!(
        definition(&c, "twice"),
        "    IC_FUNCTION_PUSH(lar);\n    IC_VALUE __t1 = IC_lar_get_arg(lar, 0);\n    IC_VALUE __t2 = IC_lar_get_arg(lar, 0);\n    IC_VALUE __t0 = IC_ADD(__t1, __t2);\n    IC_FUNCTION_POP(lar);\n    return __t0;\n"
    );
    assert_eq!(definition(&c, "twice__x__0"), "    IC_VALUE __t0 = IC_BOX(10);\n    return __t0;\n");
    assert!(c.contains(
        "static IC_VALUE twice(IC_LAR_PROTO* lar);\nstatic IC_VALUE result(IC_LAR_PROTO* lar);\nstatic IC_VALUE twice__x__0(IC_LAR_PROTO* lar);\n\nint main(void)\n"
    ));
}

#[test]
fn a_constructor_names_its_thunks_in_the_order_of_the_fields() {
    let c = emit("struct P { a:int, b:int }\nresult:int = P{a=1,b=2}.b");
    assert_eq!(
        definition(&c, "result"),
        "    IC_FUNCTION_PUSH(lar);\n    IC_VALUE __t1 = (IC_VALUE)IC_lar_new(lar, 2, (IC_LARF[]){P__a__0, P__b__0});\n    IC_VALUE __t0 = IC_lar_get_arg((IC_LAR_PROTO*)__t1, 1);\n    IC_FUNCTION_POP(lar);\n    return __t0;\n"
    );
    assert_eq!(definition(&c, "P__a__0"), "    IC_VALUE __t0 = IC_BOX(1);\n    return __t0;\n");
    assert_eq!(definition(&c, "P__b__0"), "    IC_VALUE __t0 = IC_BOX(2);\n    return __t0;\n");
}

#[test]
fn a_conditional_assigns_in_both_branches() {
    assert_eq!(
        definition(&emit("result:int = if 1 == 2 then 10 else 20"), "result"),
        "    IC_FUNCTION_PUSH(lar);\n    IC_VALUE __t0;\n    IC_VALUE __t2 = IC_BOX(1);\n    IC_VALUE __t3 = IC_BOX(2);\n    IC_VALUE __t1 = IC_EQ(__t2, __t3);\n    if (IC_UNBOX(__t1)) {\n        IC_VALUE __t4 = IC_BOX(10);\n        __t0 = __t4;\n    } else {\n        IC_VALUE __t5 = IC_BOX(20);\n        __t0 = __t5;\n    }\n    IC_FUNCTION_POP(lar);\n    return __t0;\n"
    );
}

#[test]
fn nested_conditionals_are_indented_by_four_spaces_a_level() {
    let body = definition(&emit("result:int = if true then if false then 1 else 2 else 3"), "result");
    assert!(body.contains("\n    if (IC_UNBOX(__t1)) {\n        IC_VALUE __t2;\n"), "{}", body);
    assert!(body.contains("\n        if (IC_UNBOX(__t3)) {\n            IC_VALUE __t4 = IC_BOX(1);\n            __t2 = __t4;\n        } else {\n"), "{}", body);
    assert!(body.contains("\n        __t0 = __t2;\n    } else {\n        IC_VALUE __t6 = IC_BOX(3);\n        __t0 = __t6;\n    }\n"), "{}", body);
}

#[test]
fn a_struct_without_fields_is_made_without_thunks() {
    let c = emit("struct E { }\nresult : E = E{}");
    assert_eq!(
        definition(&c, "result"),
        "    IC_FUNCTION_PUSH(lar);\n    IC_VALUE __t0 = IC_lar_new(lar, 0, NULL);\n    IC_FUNCTION_POP(lar);\n    return __t0;\n"
    );
}

#[test]
fn a_function_without_parameters_is_called_with_an_empty_record() {
    let c = emit("one : int = 1\nresult : int = one");
    assert_eq!(
        definition(&c, "result"),
        "    IC_FUNCTION_PUSH(lar);\n    IC_VALUE __t0 = one(IC_lar_new(lar, 0, NULL));\n    IC_FUNCTION_POP(lar);\n    return __t0;\n"
    );
    let c = emit("one() : int = 1\nresult : int = one()");
    assert_eq!(
        definition(&c, "result"),
        "    IC_FUNCTION_PUSH(lar);\n    IC_VALUE __t0 = one(IC_lar_new(lar, 0, (IC_LARF[]){}));\n    IC_FUNCTION_POP(lar);\n    return __t0;\n"
    );
}

#[test]
fn a_thunk_neither_pushes_nor_pops_a_frame() {
    let c = emit("f(x : int) : int = x\nresult : int = f(1)");
    assert!(!definition(&c, "f__x__0").contains("IC_FUNCTION_PUSH"));
    assert!(!definition(&c, "f__x__0").contains("IC_FUNCTION_POP"));
    assert!(definition(&c, "f").starts_with("    IC_FUNCTION_PUSH(lar);\n"));
    assert!(definition(&c, "f").ends_with("    IC_FUNCTION_POP(lar);\n    return __t0;\n"));
}

#[test]
fn every_operator_has_its_helper() {
    let cases: [(fn(Box<Expr>, Box<Expr>, Type) -> Expr, &str); 9] = [
        (Expr::Add, "IC_ADD"),
        (Expr::Sub, "IC_SUB"),
        (Expr::Mul, "IC_MUL"),
        (Expr::Eq, "IC_EQ"),
        (Expr::Neq, "IC_NEQ"),
        (Expr::Lt, "IC_LT"),
        (Expr::Gt, "IC_GT"),
        (Expr::Le, "IC_LE"),
        (Expr::Ge, "IC_GE"),
    ];
    for (make, helper) in cases {
        assert_eq!(
            statements(binary(make, 7, 8)),
            format!(
                "    IC_VALUE __t1 = IC_BOX(7);\n    IC_VALUE __t2 = IC_BOX(8);\n    IC_VALUE __t0 = {}(__t1, __t2);\n    return __t0;\n",
                helper
            )
        );
    }
}

#[test]
fn every_leaf_has_its_statement() {
    assert_eq!(
        statements(Expr::Local("f__b".to_string(), 1, Type::Int)),
        "    IC_VALUE __t0 = IC_lar_get_arg(lar, 1);\n    return __t0;\n"
    );
    assert_eq!(
        statements(Expr::Global("g".to_string(), Type::Int)),
        "    IC_VALUE __t0 = g(IC_lar_new(lar, 0, NULL));\n    return __t0;\n"
    );
    assert_eq!(statements(Expr::Num(0, Type::Int)), "    IC_VALUE __t0 = IC_BOX(0);\n    return __t0;\n");
    assert_eq!(statements(Expr::Num(-5, Type::Int)), "    IC_VALUE __t0 = IC_BOX(-5);\n    return __t0;\n");
    assert_eq!(
        statements(Expr::Num(i64::MIN, Type::Int)),
        "    IC_VALUE __t0 = IC_BOX(-9223372036854775808);\n    return __t0;\n"
    );
    assert_eq!(
        statements(Expr::Bool(true, Type::Bool)),
        "    IC_VALUE __t0 = IC_BOX((int)1);\n    return __t0;\n"
    );
    assert_eq!(
        statements(Expr::Bool(false, Type::Bool)),
        "    IC_VALUE __t0 = IC_BOX((int)0);\n    return __t0;\n"
    );
    assert_eq!(
        statements(Expr::Call("f".to_string(), 12, Type::Int)),
        "    IC_VALUE __t0 = f(IC_lar_new(lar, 2, (IC_LARF[]){f__a__12, f__b__12}));\n    return __t0;\n"
    );
    assert_eq!(
        statements(Expr::Call("g".to_string(), 3, Type::Int)),
        "    IC_VALUE __t0 = g(IC_lar_new(lar, 0, (IC_LARF[]){}));\n    return __t0;\n"
    );
    assert_eq!(
        statements(Expr::Constructor("P".to_string(), 4, Type::Struct("P".to_string()))),
        "    IC_VALUE __t0 = (IC_VALUE)IC_lar_new(lar, 2, (IC_LARF[]){P__x__4, P__y__4});\n    return __t0;\n"
    );
    assert_eq!(
        statements(Expr::Constructor("E".to_string(), 0, Type::Struct("E".to_string()))),
        "    IC_VALUE __t0 = IC_lar_new(lar, 0, NULL);\n    return __t0;\n"
    );
    assert_eq!(
        statements(Expr::Field(
            Box::new(Expr::Local("f__a".to_string(), 0, Type::Struct("P".to_string()))),
            1,
            Type::Bool
        )),
        "    IC_VALUE __t1 = IC_lar_get_arg(lar, 0);\n    IC_VALUE __t0 = IC_lar_get_arg((IC_LAR_PROTO*)__t1, 1);\n    return __t0;\n"
    );
}

#[test]
fn temporaries_are_numbered_anew_in_every_definition() {
    let c = emit("f(x : int) : int = x + 1\nresult : int = f(2 * 3)");
    for name in ["f", "result", "f__x__0"] {
        let body = definition(&c, name);
        assert!(body.contains("__t0"), "{}", body);
        assert!(body.ends_with("    return __t0;\n"), "{}", body);
    }
}

#[test]
fn the_translation_unit_starts_with_the_prelude_and_the_prototypes() {
    let c = emit("struct P { a : int }\nf(p : P) : int = p.a\nresult : int = f(P{a = 1})");
    assert!(c.starts_with(HEAD));
    let rest = &c[HEAD.len()..];
    let prototypes = "static IC_VALUE f(IC_LAR_PROTO* lar);\nstatic IC_VALUE result(IC_LAR_PROTO* lar);\nstatic IC_VALUE P__a__0(IC_LAR_PROTO* lar);\nstatic IC_VALUE f__p__0(IC_LAR_PROTO* lar);\n\n";
    assert!(rest.starts_with(prototypes), "{}", rest);
    assert!(rest[prototypes.len()..].starts_with(MAIN));
    let definitions = &rest[prototypes.len() + MAIN.len()..];
    let order: Vec<&str> = definitions
        .lines()
        .filter(|l| l.starts_with("static IC_VALUE "))
        .collect();
    assert_eq!(
        order,
        vec![
            "static IC_VALUE f(IC_LAR_PROTO* lar)",
            "static IC_VALUE result(IC_LAR_PROTO* lar)",
            "static IC_VALUE P__a__0(IC_LAR_PROTO* lar)",
            "static IC_VALUE f__p__0(IC_LAR_PROTO* lar)",
        ]
    );
}

#[test]
fn a_program_without_definitions_has_prelude_and_main_only() {
    let program = Program::new(Vec::new(), Vec::new());
    assert_eq!(generate(&program), format!("{}\n{}", HEAD, MAIN));
}

#[test]
fn the_nodes_of_an_expression_are_counted() {
    assert_eq!(size_of(&Expr::Num(1, Type::Int)), Some(1));
    assert_eq!(size_of(&binary(Expr::Add, 1, 2)), Some(3));
    let nested = Expr::If(
        Box::new(Expr::Bool(true, Type::Bool)),
        Box::new(binary(Expr::Mul, 1, 2)),
        Box::new(Expr::Field(Box::new(Expr::Call("f".to_string(), 0, Type::Int)), 0, Type::Int)),
        Type::Int,
    );
    assert_eq!(size_of(&nested), Some(7));
}

#[test]
fn a_run_of_the_emitter_starts_empty() {
    let mut state = State::new();
    assert_eq!(state.out, "");
    assert_eq!(state.tmp_cnt, 0);
    assert_eq!(state.indentation, 0);
    let program = Program::new(Vec::new(), Vec::new());
    let t = state.expr(&program, &binary(Expr::Sub, 9, 4));
    assert_eq!(t, 0);
    assert_eq!(state.tmp_cnt, 3);
    assert_eq!(
        state.out,
        "IC_VALUE __t1 = IC_BOX(9);\nIC_VALUE __t2 = IC_BOX(4);\nIC_VALUE __t0 = IC_SUB(__t1, __t2);\n"
    );
    let t = state.expr(&program, &Expr::Num(1, Type::Int));
    assert_eq!(t, 3);
    assert!(state.out.ends_with("IC_VALUE __t3 = IC_BOX(1);\n"));
}
