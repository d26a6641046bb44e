use compiler::diag::{Fault, Stage};
use compiler::fl::{Expr, Function, Program, Struct};
use compiler::lexer::Lexer;
use compiler::parser::{parse, Parser};
use compiler::ty::Type;

fn show(e: &Expr) -> String {
    match e {
        Expr::Var(name, _) => name.clone(),
        Expr::Num(n, _) => format!("{}", n),
        Expr::Bool(b, _) => format!("{}", b),
        Expr::Add(l, r, _) => format!("(+ {} {})", show(l), show(r)),
        Expr::Sub(l, r, _) => format!("(- {} {})", show(l), show(r)),
        Expr::Mul(l, r, _) => format!("(* {} {})", show(l), show(r)),
        Expr::Eq(l, r, _) => format!("(== {} {})", show(l), show(r)),
        Expr::Neq(l, r, _) => format!("(!= {} {})", show(l), show(r)),
        Expr::Lt(l, r, _) => format!("(< {} {})", show(l), show(r)),
        Expr::Gt(l, r, _) => format!("(> {} {})", show(l), show(r)),
        Expr::Le(l, r, _) => format!("(<= {} {})", show(l), show(r)),
        Expr::Ge(l, r, _) => format!("(>= {} {})", show(l), show(r)),
        Expr::If(c, t, e, _) => format!("(if {} {} {})", show(c), show(t), show(e)),
        Expr::Call(name, args, _) => {
            let mut s = format!("(call {}", name);
            for a in args {
                s.push(' ');
                s.push_str(&show(a));
            }
            s.push(')');
            s
        }
        Expr::Field(obj, name, _) => format!("(. {} {})", show(obj), name),
        Expr::Constructor(name, fields, _) => {
            let mut s = format!("(new {}", name);
            for (f, e) in fields {
                s.push_str(&format!(" {}={}", f, show(e)));
            }
            s.push(')');
            s
        }
    }
}

fn function<'a>(program: &'a Program, name: &str) -> &'a Function {
    &program.functions.iter().find(|(n, _)| n == name).expect("the function is defined").1
}

fn structure<'a>(program: &'a Program, name: &str) -> &'a Struct {
    &program.structs.iter().find(|(n, _)| n == name).expect("the struct is defined").1
}

fn body(source: &str) -> String {
    let program = parse(source).expect("the text parses");
    show(&function(&program, "result").body)
}

fn expr(text: &str) -> String {
    body(&format!("result : int = {}", text))
}

fn refused(source: &str) -> Fault {
    let d = parse(source).expect_err("the text is refused");
    assert_eq!(d.fault.get_stage(), Stage::Parse);
    assert!(d.render().starts_with("[Parse error]["), "{}", d.render());
    assert!(d.render().ends_with('.'), "{}", d.render());
    d.fault
}

#[test]
fn multiplication_binds_more_tightly_than_addition() {
    assert_eq!(expr("2 + 3 * 4"), "(+ 2 (* 3 4))");
    assert_eq!(expr("2 * 3 + 4"), "(+ (* 2 3) 4)");
    assert_eq!(expr("2 * 3 - 4 * 5"), "(- (* 2 3) (* 4 5))");
}

#[test]
fn operators_of_one_precedence_group_to_the_left() {
    assert_eq!(expr("1 - 2 - 3"), "(- (- 1 2) 3)");
    assert_eq!(expr("1 - 2 + 3"), "(+ (- 1 2) 3)");
    assert_eq!(expr("2 * 3 * 4"), "(* (* 2 3) 4)");
    assert_eq!(expr("1 < 2 <= 3"), "(<= (< 1 2) 3)");
    assert_eq!(expr("1 == 2 != 3"), "(!= (== 1 2) 3)");
}

#[test]
fn comparisons_bind_less_tightly_than_arithmetic() {
    assert_eq!(expr("1 + 2 < 3 * 4"), "(< (+ 1 2) (* 3 4))");
    assert_eq!(expr("a == b < c"), "(== a (< b c))");
    assert_eq!(expr("a < b == c > d"), "(== (< a b) (> c d))");
    assert_eq!(expr("1 >= 2 + 3"), "(>= 1 (+ 2 3))");
}

#[test]
fn the_dot_binds_most_tightly() {
    assert_eq!(expr("a + b.c"), "(+ a (. b c))");
    assert_eq!(expr("a.b + c"), "(+ (. a b) c)");
    assert_eq!(expr("a * b.c.d"), "(* a (. (. b c) d))");
    assert_eq!(expr("a.b == c.d"), "(== (. a b) (. c d))");
}

#[test]
fn parentheses_group() {
    assert_eq!(expr("(2 + 3) * 4"), "(* (+ 2 3) 4)");
    assert_eq!(expr("2 * (3 + 4)"), "(* 2 (+ 3 4))");
    assert_eq!(expr("((1))"), "1");
    assert_eq!(expr("(a + b).c"), "(. (+ a b) c)");
    assert_eq!(expr("1 - (2 - 3)"), "(- 1 (- 2 3))");
}

#[test]
fn a_name_is_a_call_a_constructor_or_a_variable() {
    assert_eq!(expr("f(1, 2)"), "(call f 1 2)");
    assert_eq!(expr("P{a=1, b=2}"), "(new P a=1 b=2)");
    assert_eq!(expr("x"), "x");
    assert_eq!(expr("f(x) + P{a=y}.a"), "(+ (call f x) (. (new P a=y) a))");
    assert_eq!(expr("f(g(1), h(2, 3))"), "(call f (call g 1) (call h 2 3))");
}

#[test]
fn a_call_may_have_no_arguments_and_a_constructor_no_values() {
    assert_eq!(expr("f()"), "(call f)");
    assert_eq!(expr("E{}"), "(new E)");
    assert_eq!(expr("f() + 1"), "(+ (call f) 1)");
    assert_eq!(body("result : int = f()\nf() : int = 1"), "(call f)");
}

#[test]
fn literals_are_numbers_and_truth_values() {
    assert_eq!(expr("42"), "42");
    assert_eq!(expr("true"), "true");
    assert_eq!(expr("false"), "false");
}

#[test]
fn a_conditional_takes_three_expressions() {
    assert_eq!(expr("if 1 == 2 then 10 else 20"), "(if (== 1 2) 10 20)");
    assert_eq!(expr("if a then b else c + 1"), "(if a b (+ c 1))");
    assert_eq!(expr("if a then if b then 1 else 2 else 3"), "(if a (if b 1 2) 3)");
    assert_eq!(expr("1 + if a then 2 else 3"), "(+ 1 (if a 2 3))");
    assert_eq!(expr("(if a then 2 else 3) + 1"), "(+ (if a 2 3) 1)");
}

#[test]
fn a_function_without_parameters_has_a_colon_behind_its_name() {
    let program = parse("result : bool = true").unwrap();
    let f = function(&program, "result");
    assert!(f.args.is_empty());
    assert!(f.arg_names.is_empty());
    assert!(f.ret_ty == Type::Bool);
    assert_eq!((f.loc.line, f.loc.col), (1, 1));
}

#[test]
fn a_function_may_have_an_empty_list_of_parameters() {
    let program = parse("f() : int = 1\nresult : int = f").unwrap();
    let f = function(&program, "f");
    assert!(f.args.is_empty());
    assert!(f.arg_names.is_empty());
}

#[test]
fn parameters_have_names_and_types_by_position() {
    let program = parse("struct P { a : int }\nf(x : int, ok : bool, p : P) : P = p\nresult : int = 1")
        .unwrap();
    let f = function(&program, "f");
    assert_eq!(f.arg_names, vec!["x", "ok", "p"]);
    assert!(f.args == vec![Type::Int, Type::Bool, Type::Struct("P".to_string())]);
    assert!(f.ret_ty == Type::Struct("P".to_string()));
    assert_eq!((f.loc.line, f.loc.col), (2, 1));
}

#[test]
fn a_struct_has_fields_by_position() {
    let program = parse("struct P { a : int, b : bool }\nstruct E { }\nresult : int = 1").unwrap();
    let p = structure(&program, "P");
    assert_eq!(p.field_names, vec!["a", "b"]);
    assert!(p.fields == vec![Type::Int, Type::Bool]);
    assert_eq!((p.loc.line, p.loc.col), (1, 8));
    let e = structure(&program, "E");
    assert!(e.fields.is_empty());
    assert!(e.field_names.is_empty());
}

#[test]
fn definitions_are_filed_in_their_order() {
    let program = parse("b : int = 1\nstruct T { }\na : int = 2\nstruct S { }\nresult : int = 3").unwrap();
    let functions: Vec<&str> = program.functions.iter().map(|(n, _)| n.as_str()).collect();
    let structs: Vec<&str> = program.structs.iter().map(|(n, _)| n.as_str()).collect();
    assert_eq!(functions, vec!["b", "a", "result"]);
    assert_eq!(structs, vec!["T", "S"]);
}

#[test]
fn an_empty_text_is_an_empty_program() {
    let program = parse("").unwrap();
    assert!(program.functions.is_empty());
    assert!(program.structs.is_empty());
    let program = parse(" \n\t ").unwrap();
    assert!(program.functions.is_empty());
}

#[test]
fn nodes_carry_their_places() {
    let program = parse("result : int =\n  f(1) + x.y").unwrap();
    match &function(&program, "result").body {
        Expr::Add(l, r, loc) => {
            assert_eq!((loc.line, loc.col), (2, 8));
            match &**l {
                Expr::Call(_, args, loc) => {
                    assert_eq!((loc.line, loc.col), (2, 4));
                    match &args[0] {
                        Expr::Num(1, loc) => assert_eq!((loc.line, loc.col), (2, 5)),
                        other => panic!("{:?}", other),
                    }
                }
                other => panic!("{:?}", other),
            }
            match &**r {
                Expr::Field(obj, _, loc) => {
                    assert_eq!((loc.line, loc.col), (2, 11));
                    match &**obj {
                        Expr::Var(_, loc) => assert_eq!((loc.line, loc.col), (2, 10)),
                        other => panic!("{:?}", other),
                    }
                }
                other => panic!("{:?}", other),
            }
        }
        other => panic!("{:?}", other),
    }
}

#[test]
fn a_parameter_may_not_occur_twice() {
    assert_eq!(refused("f(x : int, x : bool) : int = 1"), Fault::DuplicateParameter);
}

#[test]
fn a_field_of_a_struct_may_not_occur_twice() {
    assert_eq!(refused("struct P { a : int, a : int }"), Fault::DuplicateField);
}

#[test]
fn a_field_may_not_be_given_twice_in_a_constructor() {
    assert_eq!(refused("result : int = P{a = 1, a = 2}.a"), Fault::DuplicateAssignment);
}

#[test]
fn a_name_may_not_be_defined_twice() {
    assert_eq!(refused("f : int = 1\nf : int = 2"), Fault::DuplicateDefinition);
    assert_eq!(refused("struct P { }\nstruct P { }"), Fault::DuplicateDefinition);
    assert_eq!(refused("struct P { }\nP : int = 2"), Fault::DuplicateDefinition);
    assert_eq!(refused("P : int = 2\nstruct P { }"), Fault::DuplicateDefinition);
}

#[test]
fn what_the_grammar_does_not_allow_is_refused() {
    for source in [
        "result : int = ",
        "result : int = 1 +",
        "result : int = 1 2",
        "result : int = (1",
        "result : int = 1)",
        "result : int = f(1,)",
        "result : int = f(1 2)",
        "result : int = P{a 1}",
        "result : int = P{a = 1,}",
        "result : int = x.",
        "result : int = x.1",
        "result : int = if 1 then 2",
        "result : int = if 1 else 2",
        "result : int = * 2",
        "result : = 1",
        "result int = 1",
        "result : int 1",
        "result",
        "f( : int = 1",
        "f(x) : int = 1",
        "f(x : int,) : int = 1",
        "f(x : int y : int) : int = 1",
        "struct { }",
        "struct P",
        "struct P { a }",
        "struct P { a : int",
        "struct if { }",
        "if : int = 1",
        "1",
        "= 1",
    ] {
        assert_eq!(refused(source), Fault::UnexpectedToken, "{}", source);
    }
}

#[test]
fn what_the_lexer_refuses_the_parser_refuses() {
    assert_eq!(refused("result : int = 1 ! 2"), Fault::UnexpectedCharacter);
    assert_eq!(refused("result : int = nil?"), Fault::UnexpectedCharacter);
    assert_eq!(refused("result : int = 99999999999999999999"), Fault::NumberTooLarge);
}

#[test]
fn a_parser_reads_from_its_reader() {
    let mut parser = Parser::new(Lexer::new("result : int = 1 + 2"));
    let program = parser.parse().expect("the text parses");
    assert_eq!(show(&function(&program, "result").body), "(+ 1 2)");
}

#[test]
fn a_parser_reads_what_its_reader_has_not_read() {
    let mut lexer = Lexer::new("garbage result : int = 7");
    lexer.next().expect("the first token");
    let mut parser = Parser::new(lexer);
    let program = parser.parse().expect("the rest parses");
    assert_eq!(show(&function(&program, "result").body), "7");
}

fn written(e: &Expr) -> String {
    match e {
        Expr::Var(name, _) => name.clone(),
        Expr::Num(n, _) => format!("{}", n),
        Expr::Bool(b, _) => format!("{}", b),
        Expr::Add(l, r, _) => format!("{} + {}", written(l), written(r)),
        Expr::Sub(l, r, _) => format!("{} - {}", written(l), written(r)),
        Expr::Mul(l, r, _) => format!("{} * {}", written(l), written(r)),
        Expr::Eq(l, r, _) => format!("{} == {}", written(l), written(r)),
        Expr::Neq(l, r, _) => format!("{} != {}", written(l), written(r)),
        Expr::Lt(l, r, _) => format!("{} < {}", written(l), written(r)),
        Expr::Gt(l, r, _) => format!("{} > {}", written(l), written(r)),
        Expr::Le(l, r, _) => format!("{} <= {}", written(l), written(r)),
        Expr::Ge(l, r, _) => format!("{} >= {}", written(l), written(r)),
        Expr::If(c, t, e, _) => format!("if {} then {} else {}", written(c), written(t), written(e)),
        Expr::Call(name, args, _) => {
            let args: Vec<String> = args.iter().map(written).collect();
            format!("{} ( {} )", name, args.join(" , "))
        }
        Expr::Field(obj, name, _) => format!("{} . {}", written(obj), name),
        Expr::Constructor(name, fields, _) => {
            let fields: Vec<String> =
                fields.iter().map(|(f, e)| format!("{} = {}", f, written(e))).collect();
            format!("{} {{ {} }}", name, fields.join(" , "))
        }
    }
}

fn written_type(t: &Type) -> String {
    match t {
        Type::Int => "int".to_string(),
        Type::Bool => "bool".to_string(),
        Type::Struct(name) => name.clone(),
    }
}

fn written_members(names: &[String], types: &[Type]) -> String {
    let members: Vec<String> = names
        .iter()
        .zip(types.iter())
        .map(|(n, t)| format!("{} : {}", n, written_type(t)))
        .collect();
    members.join(" , ")
}

fn written_program(program: &Program) -> String {
    let mut text = String::new();
    for (name, f) in &program.functions {
        text.push_str(name);
        if !f.arg_names.is_empty() {
            text.push_str(&format!(" ( {} )", written_members(&f.arg_names, &f.args)));
        }
        text.push_str(&format!(" : {} = {}\n", written_type(&f.ret_ty), written(&f.body)));
    }
    for (name, s) in &program.structs {
        text.push_str(&format!("struct {} {{ {} }}\n", name, written_members(&s.field_names, &s.fields)));
    }
    text
}

fn token_kinds(source: &str) -> Vec<String> {
    let mut lexer = Lexer::new(source);
    let mut kinds = Vec::new();
    loop {
        let token = lexer.next().expect("a token");
        let end = matches!(token.kind, compiler::token::TokenKind::Eof);
        kinds.push(format!("{:?}", token.kind));
        if end {
            return kinds;
        }
    }
}

#[test]
fn what_the_syntax_tree_writes_is_lexed_into_the_tokens_of_the_text() {
    for source in [
        "result : int = 42",
        "result:int=2+3*4",
        "twice(x:int):int = x + x\nresult:int = twice(10)",
        "f ( a : int , b : bool , p : P ) : P = if b then p else P { x = a , y = f ( a - 1 , a < 2 , p ) . y }\n\n\nresult : int = f(1, true, P{x=1,y=2}).x.y\nstruct P { x : int, y : int }\nstruct E {}",
        "result : bool = a == b != c < d <= e > f >= g + h - i * j . k",
        "result : int = f() + E{}.x",
        "",
    ] {
        let program = parse(source).expect("the text parses");
        assert_eq!(token_kinds(&written_program(&program)), token_kinds(source), "{}", source);
    }
}

#[test]
fn grouping_parentheses_are_not_kept_by_the_syntax_tree() {
    let program = parse("result : int = (1 + 2) * 3").unwrap();
    assert_eq!(written(&function(&program, "result").body), "1 + 2 * 3");
    let program = parse("f() : int = 1").unwrap();
    assert_eq!(written_program(&program), "f : int = 1\n");
}

fn report(source: &str) -> String {
    parse(source).expect_err("the text is refused").render()
}

#[test]
fn the_parser_says_what_it_expected_and_what_it_got() {
    assert_eq!(report("result : int = (1"), "[Parse error][1:18]: Expected ')', got EOF.");
    assert_eq!(report("result : int = "), "[Parse error][1:16]: Expected expression, got EOF.");
    assert_eq!(report("result : int = 1 +\n  )"), "[Parse error][2:3]: Expected expression, got ')'.");
    assert_eq!(report("result : = 1"), "[Parse error][1:10]: Expected type, got '='.");
    assert_eq!(report("result : int 1"), "[Parse error][1:14]: Expected '=', got 1.");
    assert_eq!(report("result int"), "[Parse error][1:8]: Expected ':' or '(', got 'int'.");
    assert_eq!(report("result : int = f(1 2)"), "[Parse error][1:20]: Expected ',' or ')', got 2.");
    assert_eq!(report("result : int = P{a = 1 b = 2}"), "[Parse error][1:24]: Expected ',' or '}', got b.");
    assert_eq!(report("result : int = P{a 1}"), "[Parse error][1:20]: Expected '=', got 1.");
    assert_eq!(report("result : int = if 1 else 2"), "[Parse error][1:21]: Expected 'then', got 'else'.");
    assert_eq!(report("result : int = if 1 then 2"), "[Parse error][1:27]: Expected 'else', got EOF.");
    assert_eq!(report("result : int = x . 1"), "[Parse error][1:20]: Expected variable.");
    assert_eq!(report("f(x int) : int = 1"), "[Parse error][1:5]: Expected ':', got 'int'.");
    assert_eq!(
        report("f(x : int y : int) : int = 1"),
        "[Parse error][1:11]: Expected ',' or the end of the list, got y."
    );
    assert_eq!(report("struct P ( a : int )"), "[Parse error][1:10]: Expected '{', got '('.");
    assert_eq!(report("struct 1"), "[Parse error][1:8]: Expected variable.");
    assert_eq!(report("+"), "[Parse error][1:1]: expected function or struct definition.");
    assert_eq!(
        report("result : int = 1\n2"),
        "[Parse error][2:1]: expected function or struct definition."
    );
}

#[test]
fn the_parser_names_what_occurs_twice() {
    assert_eq!(
        report("f(x : int, y : bool, x : int) : int = 1"),
        "[Parse error][1:22]: Duplicate name x."
    );
    assert_eq!(report("struct P { a : int, a : int }"), "[Parse error][1:21]: Duplicate name a.");
    assert_eq!(
        report("result : int = P{a = 1, a = 2}.a"),
        "[Parse error][1:25]: Duplicate field assignment a."
    );
    assert_eq!(
        report("f : int = 1\n f : int = 2"),
        "[Parse error][2:2]: Duplicate function definition: f."
    );
    assert_eq!(
        report("struct P { }\nstruct P { }"),
        "[Parse error][2:8]: Duplicate struct definition: P."
    );
    assert_eq!(
        report("struct P { }\nP : int = 2"),
        "[Parse error][2:1]: Function name is the same as a struct name: P."
    );
    assert_eq!(
        report("P : int = 2\nstruct P { }"),
        "[Parse error][2:8]: Struct name is the same as a function name: P."
    );
}

#[test]
fn the_first_thing_that_is_refused_is_reported() {
    assert_eq!(
        report("f : int = 1\nf : int = (\n"),
        "[Parse error][3:1]: Expected expression, got EOF."
    );
    assert_eq!(
        report("f : int = (\ng : int = 1 ! 2"),
        "[Parse error][2:13]: Unexpected character: !."
    );
    assert_eq!(
        report("f : int = 12345678901234567890 ! ("),
        "[Parse error][1:11]: Integer literal is too large."
    );
    assert_eq!(report("f : int = nil? #"), "[Parse error][1:14]: Unexpected character: '?'.");
}

fn ready(source: &str) -> Parser<'_> {
    let mut parser = Parser::new(Lexer::new(source));
    parser.tokenize().expect("the text is lexed");
    parser
}

#[test]
fn what_follows_the_name_of_a_function_is_parsed_alone() {
    let place = compiler::loc::Loc::new(7, 3);
    let f = ready(": bool = 1 < 2").parse_function(place).expect("a function");
    assert!(f.args.is_empty());
    assert!(f.arg_names.is_empty());
    assert!(f.ret_ty == Type::Bool);
    assert_eq!(show(&f.body), "(< 1 2)");
    assert_eq!((f.loc.line, f.loc.col), (7, 3));
    let f = ready("() : int = 1").parse_function(place).expect("a function");
    assert!(f.args.is_empty());
    assert!(f.arg_names.is_empty());
    let f = ready("(a : int, b : P, c : bool) : P = b").parse_function(place).expect("a function");
    assert_eq!(f.arg_names, vec!["a", "b", "c"]);
    assert!(f.args == vec![Type::Int, Type::Struct("P".to_string()), Type::Bool]);
    assert!(f.ret_ty == Type::Struct("P".to_string()));
    assert_eq!(show(&f.body), "b");
    assert_eq!((f.loc.line, f.loc.col), (7, 3));
    assert!(ready("= 1").parse_function(place).is_err());
}

#[test]
fn what_follows_the_name_of_a_struct_is_parsed_alone() {
    let place = compiler::loc::Loc::new(2, 8);
    let s = ready("{ } result : int = 1 struct Q { }").parse_struct(place).expect("a struct");
    assert!(s.fields.is_empty());
    assert!(s.field_names.is_empty());
    assert_eq!((s.loc.line, s.loc.col), (2, 8));
    let s = ready("{ a : int, b : Q }").parse_struct(place).expect("a struct");
    assert_eq!(s.field_names, vec!["a", "b"]);
    assert!(s.fields == vec![Type::Int, Type::Struct("Q".to_string())]);
    assert!(ready("( a : int )").parse_struct(place).is_err());
}
