use compiler::diag::{Fault, Stage};
use compiler::flchk::check;
use compiler::parser::parse;
use compiler::tc::{make_functions, make_structs, typecheck};
use compiler::tir::{Expr, Program};
use compiler::ty::Type;

fn show_type(t: &Type) -> String {
    match t {
        Type::Int => "int".to_string(),
        Type::Bool => "bool".to_string(),
        Type::Struct(name) => name.clone(),
    }
}

fn show(e: &Expr) -> String {
    let t = show_type(&e.ty());
    match e {
        Expr::Var(name, _) => format!("{}:{}", name, t),
        Expr::Num(n, _) => format!("{}:{}", n, t),
        Expr::Bool(b, _) => format!("{}:{}", b, t),
        Expr::Add(l, r, _) => format!("(+ {} {}):{}", show(l), show(r), t),
        Expr::Sub(l, r, _) => format!("(- {} {}):{}", show(l), show(r), t),
        Expr::Mul(l, r, _) => format!("(* {} {}):{}", show(l), show(r), t),
        Expr::Eq(l, r, _) => format!("(== {} {}):{}", show(l), show(r), t),
        Expr::Neq(l, r, _) => format!("(!= {} {}):{}", show(l), show(r), t),
        Expr::Lt(l, r, _) => format!("(< {} {}):{}", show(l), show(r), t),
        Expr::Gt(l, r, _) => format!("(> {} {}):{}", show(l), show(r), t),
        Expr::Le(l, r, _) => format!("(<= {} {}):{}", show(l), show(r), t),
        Expr::Ge(l, r, _) => format!("(>= {} {}):{}", show(l), show(r), t),
        Expr::If(c, th, el, _) => format!("(if {} {} {}):{}", show(c), show(th), show(el), t),
        Expr::Call(name, args, _) => {
            let mut s = format!("(call {}", name);
            for a in args {
                s.push(' ');
                s.push_str(&show(a));
            }
            format!("{}):{}", s, t)
        }
        Expr::Field(obj, name, _) => format!("(. {} {}):{}", show(obj), name, t),
        Expr::Constructor(name, fields, _) => {
            let mut s = format!("(new {}", name);
            for (f, e) in fields {
                s.push_str(&format!(" {}={}", f, show(e)));
            }
            format!("{}):{}", s, t)
        }
    }
}

fn typed(source: &str) -> Program {
    let program = parse(source).expect("the text parses");
    check(&program).expect("the program passes the checks");
    typecheck(program).expect("the program is well typed")
}

fn body(source: &str, name: &str) -> String {
    let program = typed(source);
    let f = &program.functions.iter().find(|(n, _)| n == name).expect("the function is defined").1;
    show(&f.body)
}

fn refused(source: &str) -> String {
    let program = parse(source).expect("the text parses");
    check(&program).expect("the program passes the checks");
    let d = typecheck(program).expect_err("the program is refused");
    assert_eq!(d.fault, Fault::IllTyped);
    assert_eq!(d.fault.get_stage(), Stage::Type);
    let line = d.render();
    assert!(line.starts_with("[Type error]["), "{}", line);
    line
}

const P: &str = "struct P { a : int, b : bool }\n";

#[test]
fn literals_have_their_types() {
    assert_eq!(body("result : int = 42", "result"), "42:int");
    assert_eq!(body("result : bool = true", "result"), "true:bool");
}

#[test]
fn arithmetic_takes_and_gives_integers() {
    assert_eq!(body("result : int = 1 + 2 * 3 - 4", "result"), "(- (+ 1:int (* 2:int 3:int):int):int 4:int):int");
    refused("result : int = 1 + true");
    refused("result : int = true - 1");
    refused("result : int = true * false");
    refused(&format!("{}result : int = P{{a = 1, b = true}} + 1", P));
}

#[test]
fn adding_a_truth_value_is_a_type_error() {
    let line = refused("result:int = 1 + true");
    assert!(line.contains("[Type error]"), "{}", line);
    assert_eq!(line, "[Type error][1:16]: Cannot add int and bool.");
}

#[test]
fn order_comparisons_take_integers_and_give_truth_values() {
    assert_eq!(body("result : bool = 1 < 2", "result"), "(< 1:int 2:int):bool");
    assert_eq!(body("result : bool = 1 >= 2", "result"), "(>= 1:int 2:int):bool");
    refused("result : bool = true < false");
    refused("result : bool = 1 <= true");
    refused("result : int = 1 < 2");
}

#[test]
fn equality_compares_two_values_of_one_base_type() {
    assert_eq!(body("result : bool = 1 == 2", "result"), "(== 1:int 2:int):bool");
    assert_eq!(body("result : bool = true != false", "result"), "(!= true:bool false:bool):bool");
    refused("result : bool = 1 == true");
    refused("result : bool = false != 0");
    refused(&format!("{}x : P = P{{a = 1, b = true}}\nresult : bool = x == x", P));
    refused(&format!("{}x : P = P{{a = 1, b = true}}\nresult : bool = x != x", P));
}

#[test]
fn a_conditional_has_the_type_of_its_branches() {
    assert_eq!(
        body("result : int = if 1 == 2 then 10 else 20", "result"),
        "(if (== 1:int 2:int):bool 10:int 20:int):int"
    );
    assert_eq!(
        body("result : bool = if true then false else true", "result"),
        "(if true:bool false:bool true:bool):bool"
    );
    refused("result : int = if 1 then 2 else 3");
    refused("result : int = if true then 2 else false");
    refused("result : int = if true then false else 3");
}

#[test]
fn a_variable_has_the_type_of_its_parameter_or_of_its_function() {
    assert_eq!(
        body("f(x : int, y : bool) : bool = y\nresult : int = 1", "f"),
        "y:bool"
    );
    assert_eq!(body("g : bool = true\nresult : bool = g", "result"), "g:bool");
    assert_eq!(
        body("g : bool = true\nf(h : int) : int = if g then h else 0\nresult : int = 1", "f"),
        "(if g:bool h:int 0:int):int"
    );
}

#[test]
fn a_call_has_the_type_that_its_callee_returns() {
    assert_eq!(
        body("f(x : int, y : bool) : bool = y\nresult : bool = f(1, true)", "result"),
        "(call f 1:int true:bool):bool"
    );
    refused("f(x : int, y : bool) : bool = y\nresult : bool = f(true, 1)");
    refused("f(x : int) : bool = true\nresult : int = f(1)");
    refused("f(x : int) : int = x\nresult : int = f(f(true))");
}

#[test]
fn a_field_has_its_declared_type() {
    assert_eq!(
        body(&format!("{}result : bool = P{{a = 1, b = true}}.b", P), "result"),
        "(. (new P a=1:int b=true:bool):P b):bool"
    );
    assert_eq!(
        body(&format!("{}f(p : P) : int = p.a\nresult : int = 1", P), "f"),
        "(. p:P a):int"
    );
    refused(&format!("{}result : int = P{{a = 1, b = true}}.c", P));
    refused("result : int = 1 .a");
    refused("x : bool = true\nresult : int = x.a");
}

#[test]
fn a_constructor_has_the_type_of_its_struct() {
    assert_eq!(
        body(&format!("{}result : P = P{{b = false, a = 2}}", P), "result"),
        "(new P b=false:bool a=2:int):P"
    );
    refused(&format!("{}result : P = P{{a = true, b = true}}", P));
    refused(&format!("{}result : P = P{{a = 1, b = 2}}", P));
    refused(&format!("{}struct Q {{ a : int, b : bool }}\nresult : Q = P{{a = 1, b = true}}", P));
}

#[test]
fn a_body_has_the_type_that_its_function_declares() {
    let line = refused("f : bool = 1\nresult : int = 1");
    assert_eq!(line, "[Type error][1:1]: Function f has return type bool but returns int.");
    refused("result : int = true");
    refused(&format!("{}result : int = P{{a = 1, b = true}}", P));
}

#[test]
fn signatures_and_structs_are_carried_over() {
    let program = typed(&format!("{}f(x : int, p : P) : P = p\nresult : int = 1", P));
    let names: Vec<&str> = program.functions.iter().map(|(n, _)| n.as_str()).collect();
    assert_eq!(names, vec!["f", "result"]);
    let f = &program.functions[0].1;
    assert_eq!(f.arg_names, vec!["x", "p"]);
    assert!(f.args == vec![Type::Int, Type::Struct("P".to_string())]);
    assert!(f.ret_ty == Type::Struct("P".to_string()));
    assert_eq!(program.structs.len(), 1);
    assert_eq!(program.structs[0].0, "P");
    assert_eq!(program.structs[0].1.field_names, vec!["a", "b"]);
    assert!(program.structs[0].1.fields == vec![Type::Int, Type::Bool]);
}

#[test]
fn the_two_halves_of_the_type_checker_can_be_run_alone() {
    let program = parse(&format!("{}result : int = 1 + 2", P)).unwrap();
    let structs = make_structs(&program);
    assert_eq!(structs.len(), 1);
    let functions = make_functions(&program).expect("the functions are well typed");
    assert_eq!(functions.len(), 1);
    assert_eq!(show(&functions[0].1.body), "(+ 1:int 2:int):int");
    let program = parse("result : int = 1 + true").unwrap();
    assert!(make_functions(&program).is_err());
}

#[test]
fn a_program_that_was_not_checked_is_refused_where_it_cannot_be_typed() {
    for source in [
        "result : int = x",
        "result : int = f(1)",
        "f(x : int) : int = x\nresult : int = f(1, 2)",
        "f(x : int) : int = x\nresult : int = f",
        "result : int = P{a = 1}.a",
        "struct P { a : int, b : int }\nresult : P = P{a = 1}",
        "struct P { a : int }\nresult : P = P{a = 1, b = 2}",
    ] {
        let program = parse(source).expect("the text parses");
        let d = typecheck(program).expect_err("the program is refused");
        assert_eq!(d.fault.get_stage(), Stage::Type, "{}", source);
    }
}

#[test]
fn the_type_checker_says_what_it_cannot_type() {
    assert_eq!(
        refused("result : int = 1 - true"),
        "[Type error][1:18]: Cannot subtract int and bool."
    );
    assert_eq!(
        refused("result : int = true * 2"),
        "[Type error][1:21]: Cannot multiply bool and int."
    );
    assert_eq!(
        refused("result : bool = 1 == true"),
        "[Type error][1:19]: Cannot compare int and bool (can only compare same *base* types with '==')."
    );
    assert_eq!(
        refused(&format!("{}x : P = P{{a = 1, b = true}}\nresult : bool = x != x", P)),
        "[Type error][3:19]: Cannot compare struct P and struct P (can only compare same *base* types with '!=')."
    );
    assert_eq!(
        refused("result : bool = true < 1"),
        "[Type error][1:22]: Cannot compare bool and int."
    );
    assert_eq!(
        refused("result : int = if 1 then 2 else 3"),
        "[Type error][1:16]: Cannot use int as a condition."
    );
    assert_eq!(
        refused("result : int = if true then 2 else false"),
        "[Type error][1:16]: Branches of if expression must be of same type (got int and bool)."
    );
    assert_eq!(
        refused("f(x : int, y : bool) : bool = y\nresult : bool = f(1, 2)"),
        "[Type error][2:18]: An argument of function f has type int but should have type bool."
    );
    assert_eq!(
        refused("result : int = 1 .a"),
        "[Type error][1:18]: '.' operator used on non-struct type int."
    );
    assert_eq!(
        refused(&format!("{}result : int = P{{a = 1, b = true}}.c", P)),
        "[Type error][2:34]: Struct P has no field c."
    );
    assert_eq!(
        refused(&format!("{}result : P = P{{a = true, b = true}}", P)),
        "[Type error][2:15]: Field a of constructor P has type bool."
    );
}

#[test]
fn the_first_thing_that_cannot_be_typed_is_reported() {
    assert_eq!(
        refused("result : int = (1 + true) + (false * 2)"),
        "[Type error][1:19]: Cannot add int and bool."
    );
    assert_eq!(
        refused("f : bool = 1\nresult : int = true + 1"),
        "[Type error][1:1]: Function f has return type bool but returns int."
    );
    assert_eq!(
        refused("result : int = if 1 + true then 2 else false"),
        "[Type error][1:21]: Cannot add int and bool."
    );
    assert_eq!(
        refused("f(x : int, y : int) : int = x\nresult : int = f(true, 1 + false)"),
        "[Type error][2:17]: An argument of function f has type bool but should have type int."
    );
}
