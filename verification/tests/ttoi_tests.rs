use compiler::flchk::check;
use compiler::il::{Expr, Function, Program};
use compiler::parser::parse;
use compiler::tc::typecheck;
use compiler::tir;
use compiler::ttoi::{
    count_calls_in, countable, transform, transform_expr, transform_functions, transform_structs,
    Counters,
};
use compiler::ty::Type;

fn show_type(t: &Type) -> String {
    match t {
        Type::Int => "Int".to_string(),
        Type::Bool => "Bool".to_string(),
        Type::Struct(name) => format!("Struct({})", name),
    }
}

fn show(e: &Expr) -> String {
    let t = show_type(&e.ty());
    match e {
        Expr::Local(name, i, _) => format!("Local({},{},{})", name, i, t),
        Expr::Global(name, _) => format!("Global({},{})", name, t),
        Expr::Num(n, _) => format!("Num({},{})", n, t),
        Expr::Bool(b, _) => format!("Bool({},{})", b, t),
        Expr::Add(l, r, _) => format!("Add({},{},{})", show(l), show(r), t),
        Expr::Sub(l, r, _) => format!("Sub({},{},{})", show(l), show(r), t),
        Expr::Mul(l, r, _) => format!("Mul({},{},{})", show(l), show(r), t),
        Expr::Eq(l, r, _) => format!("Eq({},{},{})", show(l), show(r), t),
        Expr::Neq(l, r, _) => format!("Neq({},{},{})", show(l), show(r), t),
        Expr::Lt(l, r, _) => format!("Lt({},{},{})", show(l), show(r), t),
        Expr::Gt(l, r, _) => format!("Gt({},{},{})", show(l), show(r), t),
        Expr::Le(l, r, _) => format!("Le({},{},{})", show(l), show(r), t),
        Expr::Ge(l, r, _) => format!("Ge({},{},{})", show(l), show(r), t),
        Expr::If(c, th, el, _) => format!("If({},{},{},{})", show(c), show(th), show(el), t),
        Expr::Call(name, k, _) => format!("Call({},{},{})", name, k, t),
        Expr::Field(obj, i, _) => format!("Field({},{},{})", show(obj), i, t),
        Expr::Constructor(name, k, _) => format!("Constructor({},{},{})", name, k, t),
    }
}

fn typed(source: &str) -> tir::Program {
    let program = parse(source).expect("the text parses");
    check(&program).expect("the program passes the checks");
    typecheck(program).expect("the program is well typed")
}

fn lower(source: &str) -> Program {
    let program = typed(source);
    assert!(countable(&program));
    transform(program)
}

fn function<'a>(program: &'a Program, name: &str) -> &'a Function {
    let found: Vec<&(String, Function)> =
        program.functions.iter().filter(|(n, _)| n == name).collect();
    assert_eq!(found.len(), 1, "one definition is called {}", name);
    &found[0].1
}

fn names(program: &Program) -> Vec<&str> {
    program.functions.iter().map(|(n, _)| n.as_str()).collect()
}

#[test]
fn a_call_is_hoisted_into_a_thunk() {
    let program = lower("twice(x:int):int = x + x\nresult:int = twice(10)");
    assert_eq!(names(&program), vec!["twice", "result", "twice__x__0"]);
    let twice = function(&program, "twice");
    assert!(twice.is_function);
    assert_eq!(show(&twice.body), "Add(Local(x,0,Int),Local(x,0,Int),Int)");
    assert_eq!(twice.arg_names, vec!["twice__x"]);
    assert!(twice.args == vec![Type::Int]);
    assert!(twice.ret_ty == Type::Int);
    let thunk = function(&program, "twice__x__0");
    assert!(!thunk.is_function);
    assert!(thunk.args.is_empty());
    assert!(thunk.arg_names.is_empty());
    assert!(thunk.ret_ty == Type::Int);
    assert_eq!(show(&thunk.body), "Num(10,Int)");
    let result = function(&program, "result");
    assert!(result.is_function);
    assert_eq!(show(&result.body), "Call(twice,0,Int)");
}

#[test]
fn the_values_of_a_constructor_are_hoisted_into_thunks() {
    let program = lower("struct P { a:int, b:int }\nresult:int = P{a=1,b=2}.b");
    assert_eq!(names(&program), vec!["result", "P__a__0", "P__b__0"]);
    assert_eq!(show(&function(&program, "result").body), "Field(Constructor(P,0,Struct(P)),1,Int)");
    assert_eq!(show(&function(&program, "P__a__0").body), "Num(1,Int)");
    assert_eq!(show(&function(&program, "P__b__0").body), "Num(2,Int)");
    assert!(!function(&program, "P__a__0").is_function);
    assert!(!function(&program, "P__b__0").is_function);
    assert_eq!(program.structs.len(), 1);
    assert_eq!(program.structs[0].0, "P");
    assert_eq!(program.structs[0].1.field_names, vec!["P__a", "P__b"]);
    assert!(program.structs[0].1.fields == vec![Type::Int, Type::Int]);
}

#[test]
fn the_thunks_of_a_constructor_follow_the_fields_of_the_struct() {
    let program = lower("struct P { a:int, b:bool }\nresult:bool = P{b=true,a=7}.b");
    assert_eq!(names(&program), vec!["result", "P__a__0", "P__b__0"]);
    assert_eq!(show(&function(&program, "P__a__0").body), "Num(7,Int)");
    assert!(function(&program, "P__a__0").ret_ty == Type::Int);
    assert_eq!(show(&function(&program, "P__b__0").body), "Bool(true,Bool)");
    assert!(function(&program, "P__b__0").ret_ty == Type::Bool);
    assert_eq!(show(&function(&program, "result").body), "Field(Constructor(P,0,Struct(P)),1,Bool)");
}

#[test]
fn a_field_is_lowered_to_its_position() {
    let program = lower("struct P { a:int, b:int, c:int }\nf(p : P) : int = p.a + p.b + p.c\nresult:int = 1");
    assert_eq!(
        show(&function(&program, "f").body),
        "Add(Add(Field(Local(p,0,Struct(P)),0,Int),Field(Local(p,0,Struct(P)),1,Int),Int),Field(Local(p,0,Struct(P)),2,Int),Int)"
    );
}

#[test]
fn a_call_among_the_arguments_of_a_call_takes_its_index_first() {
    let program = lower("f(x:int):int = x\nresult:int = f(f(f(1)))");
    assert_eq!(names(&program), vec!["f", "result", "f__x__0", "f__x__1", "f__x__2"]);
    assert_eq!(show(&function(&program, "result").body), "Call(f,2,Int)");
    assert_eq!(show(&function(&program, "f__x__2").body), "Call(f,1,Int)");
    assert_eq!(show(&function(&program, "f__x__1").body), "Call(f,0,Int)");
    assert_eq!(show(&function(&program, "f__x__0").body), "Num(1,Int)");
}

#[test]
fn arguments_are_lowered_from_left_to_right() {
    let program = lower("f(x:int):int = x\ng(a:int, b:int):int = a\nresult:int = g(f(1), f(2)) + f(3)");
    assert_eq!(
        names(&program),
        vec!["f", "g", "result", "f__x__0", "f__x__1", "g__a__0", "g__b__0", "f__x__2"]
    );
    assert_eq!(show(&function(&program, "result").body), "Add(Call(g,0,Int),Call(f,2,Int),Int)");
    assert_eq!(show(&function(&program, "g__a__0").body), "Call(f,0,Int)");
    assert_eq!(show(&function(&program, "g__b__0").body), "Call(f,1,Int)");
    assert_eq!(show(&function(&program, "f__x__0").body), "Num(1,Int)");
    assert_eq!(show(&function(&program, "f__x__1").body), "Num(2,Int)");
    assert_eq!(show(&function(&program, "f__x__2").body), "Num(3,Int)");
}

#[test]
fn every_callee_has_a_counter_of_its_own_that_runs_through_all_bodies() {
    let program = lower("f(x:int):int = x\ng(y:int):int = f(y)\nh(z:int):int = g(z) + f(z)\nresult:int = h(f(g(1)))");
    assert_eq!(show(&function(&program, "g").body), "Call(f,0,Int)");
    assert_eq!(show(&function(&program, "h").body), "Add(Call(g,0,Int),Call(f,1,Int),Int)");
    assert_eq!(show(&function(&program, "result").body), "Call(h,0,Int)");
    assert_eq!(show(&function(&program, "h__z__0").body), "Call(f,2,Int)");
    assert_eq!(show(&function(&program, "f__x__2").body), "Call(g,1,Int)");
    assert_eq!(show(&function(&program, "g__y__1").body), "Num(1,Int)");
    assert_eq!(show(&function(&program, "f__x__0").body), "Local(y,0,Int)");
    assert_eq!(show(&function(&program, "g__y__0").body), "Local(z,0,Int)");
    assert_eq!(show(&function(&program, "f__x__1").body), "Local(z,0,Int)");
}

#[test]
fn a_function_without_parameters_is_reached_as_a_global() {
    let program = lower("one : int = 1\nflag() : bool = true\nresult : int = if flag then one else one + one");
    assert_eq!(names(&program), vec!["one", "flag", "result"]);
    assert_eq!(
        show(&function(&program, "result").body),
        "If(Global(flag,Bool),Global(one,Int),Add(Global(one,Int),Global(one,Int),Int),Int)"
    );
    assert!(function(&program, "one").is_function);
    assert!(function(&program, "one").arg_names.is_empty());
}

#[test]
fn a_call_without_arguments_makes_no_thunk() {
    let program = lower("f() : int = 1\nresult : int = f() + f()");
    assert_eq!(names(&program), vec!["f", "result"]);
    assert_eq!(show(&function(&program, "result").body), "Add(Call(f,0,Int),Call(f,1,Int),Int)");
}

#[test]
fn a_struct_without_fields_makes_no_thunk() {
    let program = lower("struct E { }\nresult : E = E{}");
    assert_eq!(names(&program), vec!["result"]);
    assert_eq!(show(&function(&program, "result").body), "Constructor(E,0,Struct(E))");
    assert!(program.structs[0].1.fields.is_empty());
    assert!(program.structs[0].1.field_names.is_empty());
}

#[test]
fn operators_and_conditionals_keep_their_shape() {
    let program = lower("result : bool = if 1 < 2 then 3 * 4 - 5 >= 6 else true != (1 == 2)");
    assert_eq!(
        show(&function(&program, "result").body),
        "If(Lt(Num(1,Int),Num(2,Int),Bool),Ge(Sub(Mul(Num(3,Int),Num(4,Int),Int),Num(5,Int),Int),Num(6,Int),Bool),Neq(Bool(true,Bool),Eq(Num(1,Int),Num(2,Int),Bool),Bool),Bool)"
    );
    let program = lower("result : bool = 1 > 2");
    assert_eq!(show(&function(&program, "result").body), "Gt(Num(1,Int),Num(2,Int),Bool)");
    let program = lower("result : bool = 1 <= 2 + 0");
    assert_eq!(
        show(&function(&program, "result").body),
        "Le(Num(1,Int),Add(Num(2,Int),Num(0,Int),Int),Bool)"
    );
}

#[test]
fn parameters_are_obfuscated_with_the_name_of_their_function() {
    let program = lower("f(a : int, b : bool) : int = a\nresult : int = f(1, true)");
    assert_eq!(function(&program, "f").arg_names, vec!["f__a", "f__b"]);
    assert_eq!(names(&program), vec!["f", "result", "f__a__0", "f__b__0"]);
    assert!(function(&program, "f__b__0").ret_ty == Type::Bool);
}

#[test]
fn only_thunks_are_no_functions() {
    let program = lower("struct P { a : int }\nf(x : P) : int = x.a\nresult : int = f(P{a = f(P{a = 1})})");
    for (name, f) in &program.functions {
        assert_eq!(f.is_function, !name.contains("__"), "{}", name);
        if !f.is_function {
            assert!(f.args.is_empty());
            assert!(f.arg_names.is_empty());
        }
    }
    let mut sorted = names(&program);
    sorted.sort();
    sorted.dedup();
    assert_eq!(sorted.len(), program.functions.len());
}

#[test]
fn every_call_finds_one_thunk_for_each_parameter() {
    let program = lower("struct P { a : int, b : int }\nf(x : int, y : P) : int = x + y.a\ng(z : int) : int = f(z, P{a = z, b = f(1, P{a = 2, b = 3})})\nresult : int = g(f(4, P{a = g(5), b = 6}))");
    fn visit(program: &Program, e: &Expr, seen: &mut usize) {
        match e {
            Expr::Add(l, r, _)
            | Expr::Sub(l, r, _)
            | Expr::Mul(l, r, _)
            | Expr::Eq(l, r, _)
            | Expr::Neq(l, r, _)
            | Expr::Lt(l, r, _)
            | Expr::Gt(l, r, _)
            | Expr::Le(l, r, _)
            | Expr::Ge(l, r, _) => {
                visit(program, l, seen);
                visit(program, r, seen);
            }
            Expr::If(c, t, e, _) => {
                visit(program, c, seen);
                visit(program, t, seen);
                visit(program, e, seen);
            }
            Expr::Field(obj, _, _) => visit(program, obj, seen),
            Expr::Call(name, k, _) => {
                *seen += 1;
                let callee = &program.functions.iter().find(|(n, _)| n == name).unwrap().1;
                let prefix = format!("{}__", name);
                let suffix = format!("__{}", k);
                let thunks: Vec<&str> = program
                    .functions
                    .iter()
                    .map(|(n, _)| n.as_str())
                    .filter(|n| n.starts_with(&prefix) && n.ends_with(&suffix))
                    .collect();
                let expected: Vec<String> =
                    callee.arg_names.iter().map(|p| format!("{}__{}", p, k)).collect();
                assert_eq!(thunks.len(), callee.args.len());
                for name in expected {
                    assert!(thunks.contains(&name.as_str()), "{}", name);
                }
            }
            Expr::Constructor(name, k, _) => {
                *seen += 1;
                let s = &program.structs.iter().find(|(n, _)| n == name).unwrap().1;
                for field in &s.field_names {
                    let thunk = format!("{}__{}", field, k);
                    assert_eq!(
                        program.functions.iter().filter(|(n, _)| *n == thunk).count(),
                        1,
                        "{}",
                        thunk
                    );
                }
            }
            _ => {}
        }
    }
    let mut seen = 0;
    for (_, f) in &program.functions {
        visit(&program, &f.body, &mut seen);
    }
    assert_eq!(seen, 8);
}

#[test]
fn lowering_the_same_program_again_gives_the_same_program() {
    let source = "struct P { a : int, b : int }\nf(x : int, y : P) : int = x + y.a\nresult : int = f(f(1, P{a = 2, b = 3}), P{b = f(4, P{a = 5, b = 6}), a = 7})";
    let first = format!("{:?}", lower(source));
    let second = format!("{:?}", lower(source));
    assert_eq!(first, second);
}

#[test]
fn calls_and_constructors_are_counted() {
    let program = typed("struct P { a : int }\nf(x : int) : int = x\nresult : int = f(P{a = f(1)}.a) + f(2) + 3");
    let result = &program.functions.iter().find(|(n, _)| n == "result").unwrap().1;
    assert_eq!(count_calls_in(&result.body), Some(4));
    let f = &program.functions.iter().find(|(n, _)| n == "f").unwrap().1;
    assert_eq!(count_calls_in(&f.body), Some(0));
    assert!(countable(&program));
}

#[test]
fn the_counters_start_at_zero_and_count_each_callee_alone() {
    let mut counters = Counters::new();
    assert_eq!(counters.bump(&"f".to_string()), 0);
    assert_eq!(counters.bump(&"f".to_string()), 1);
    assert_eq!(counters.bump(&"g".to_string()), 0);
    assert_eq!(counters.bump(&"f".to_string()), 2);
    assert_eq!(counters.bump(&"g".to_string()), 1);
}

#[test]
fn the_parts_of_the_lowering_can_be_run_alone() {
    let program = typed("struct P { a : int }\nf(x : int) : int = x\nresult : int = f(P{a = 1}.a)");
    let structs = transform_structs(&program);
    assert_eq!(structs.len(), 1);
    assert_eq!(structs[0].1.field_names, vec!["P__a"]);
    let functions = transform_functions(&program);
    let names: Vec<&str> = functions.iter().map(|(n, _)| n.as_str()).collect();
    assert_eq!(names, vec!["f", "result", "P__a__0", "f__x__0"]);
    let mut thunks = Vec::new();
    let mut counters = Counters::new();
    counters.bump(&"f".to_string());
    let result = &program.functions[1].1;
    let lowered = transform_expr(&mut thunks, &mut counters, &program, result, &result.body);
    assert_eq!(show(&lowered), "Call(f,1,Int)");
    let names: Vec<&str> = thunks.iter().map(|(n, _)| n.as_str()).collect();
    assert_eq!(names, vec!["P__a__0", "f__x__1"]);
    assert_eq!(show(&thunks[1].1.body), "Field(Constructor(P,0,Struct(P)),0,Int)");
}
