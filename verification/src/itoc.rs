//! The emitter: the C translation unit of a lowered program.

use vstd::prelude::*;
use vstd::string::*;
use crate::il;
use crate::op::BinOp;
use crate::table::{find_entry, lookup};
use crate::text::{decimal, push_decimal, push_signed_decimal, signed_decimal};

verus! {

/// The white space in front of a line at nesting depth `n`: four spaces a level.
pub open spec fn indent(n: nat) -> Seq<char>
    decreases n,
{
    if n == 0 {
        Seq::empty()
    } else {
        indent((n - 1) as nat) + "    "@
    }
}

/// The name of the temporary with number `n`.
pub open spec fn temp(n: nat) -> Seq<char> {
    "__t"@ + decimal(n)
}

/// `out` with one more line, indented to depth `ind`.
pub open spec fn put_line(out: Seq<char>, ind: nat, text: Seq<char>) -> Seq<char> {
    out + indent(ind) + text + "\n"@
}

/// The runtime's helper for a binary operator.
pub open spec fn op_helper(op: BinOp) -> Seq<char> {
    match op {
        BinOp::Add => "IC_ADD"@,
        BinOp::Sub => "IC_SUB"@,
        BinOp::Mul => "IC_MUL"@,
        BinOp::Eq => "IC_EQ"@,
        BinOp::Neq => "IC_NEQ"@,
        BinOp::Lt => "IC_LT"@,
        BinOp::Gt => "IC_GT"@,
        BinOp::Le => "IC_LE"@,
        BinOp::Ge => "IC_GE"@,
    }
}

/// The thunks of one call, in the order of the callee's parameters and
/// separated by commas: each is the parameter's name, two underscores and
/// the call's index.
pub open spec fn thunk_list(names: Seq<Seq<char>>, k: nat) -> Seq<char>
    decreases names.len(),
{
    if names.len() == 0 {
        Seq::empty()
    } else if names.len() == 1 {
        names[0] + "__"@ + decimal(k)
    } else {
        thunk_list(names.drop_last(), k) + ", "@ + names.last() + "__"@ + decimal(k)
    }
}

/// The statement that computes a node without operands of its own into the
/// temporary `t`.
pub open spec fn leaf_statement(p: il::ProgramView, e: il::ExprView, t: nat) -> Seq<char> {
    match e {
        il::ExprView::Local(_, i, _) => "IC_VALUE "@ + temp(t) + " = IC_lar_get_arg(lar, "@
            + decimal(i) + ");"@,
        il::ExprView::Global(name, _) => "IC_VALUE "@ + temp(t) + " = "@ + name
            + "(IC_lar_new(lar, 0, NULL));"@,
        il::ExprView::Num(n, _) => "IC_VALUE "@ + temp(t) + " = IC_BOX("@ + signed_decimal(n)
            + ");"@,
        il::ExprView::Bool(b, _) => "IC_VALUE "@ + temp(t) + " = IC_BOX((int)"@ + decimal(
            if b {
                1
            } else {
                0
            },
        ) + ");"@,
        il::ExprView::Call(name, k, _) => {
            let f = lookup(p.functions, name)->0;
            "IC_VALUE "@ + temp(t) + " = "@ + name + "(IC_lar_new(lar, "@ + decimal(
                f.args.len(),
            ) + ", (IC_LARF[]){"@ + thunk_list(f.arg_names, k) + "}));"@
        },
        il::ExprView::Constructor(name, k, _) => {
            let s = lookup(p.structs, name)->0;
            if s.fields.len() == 0 {
                "IC_VALUE "@ + temp(t) + " = IC_lar_new(lar, 0, NULL);"@
            } else {
                "IC_VALUE "@ + temp(t) + " = (IC_VALUE)IC_lar_new(lar, "@ + decimal(
                    s.fields.len(),
                ) + ", (IC_LARF[]){"@ + thunk_list(s.field_names, k) + "});"@
            }
        },
        _ => Seq::empty(),
    }
}

/// The C statements that compute `e` into the temporary `t`, appended to `out`
/// at depth `ind`, and the number of the next free temporary. A node takes its
/// temporary before its operands take theirs.
pub open spec fn emit_expr(
    p: il::ProgramView,
    e: il::ExprView,
    out: Seq<char>,
    t: nat,
    ind: nat,
) -> (Seq<char>, nat)
    decreases e,
{
    match e {
        il::ExprView::Binary(op, l, r, _) => {
            let (o1, n1) = emit_expr(p, *l, out, t + 1, ind);
            let (o2, n2) = emit_expr(p, *r, o1, n1, ind);
            (
                put_line(
                    o2,
                    ind,
                    "IC_VALUE "@ + temp(t) + " = "@ + op_helper(op) + "("@ + temp(t + 1) + ", "@
                        + temp(n1) + ");"@,
                ),
                n2,
            )
        },
        il::ExprView::If(c, th, el, _) => {
            let o0 = put_line(out, ind, "IC_VALUE "@ + temp(t) + ";"@);
            let (o1, n1) = emit_expr(p, *c, o0, t + 1, ind);
            let o2 = put_line(o1, ind, "if (IC_UNBOX("@ + temp(t + 1) + ")) {"@);
            let (o3, n2) = emit_expr(p, *th, o2, n1, ind + 1);
            let o4 = put_line(o3, ind + 1, temp(t) + " = "@ + temp(n1) + ";"@);
            let o5 = put_line(o4, ind, "} else {"@);
            let (o6, n3) = emit_expr(p, *el, o5, n2, ind + 1);
            let o7 = put_line(o6, ind + 1, temp(t) + " = "@ + temp(n2) + ";"@);
            (put_line(o7, ind, "}"@), n3)
        },
        il::ExprView::Field(obj, i, _) => {
            let (o1, n1) = emit_expr(p, *obj, out, t + 1, ind);
            (
                put_line(
                    o1,
                    ind,
                    "IC_VALUE "@ + temp(t) + " = IC_lar_get_arg((IC_LAR_PROTO*)"@ + temp(t + 1)
                        + ", "@ + decimal(i) + ");"@,
                ),
                n1,
            )
        },
        _ => (put_line(out, ind, leaf_statement(p, e, t)), t + 1),
    }
}

/// The lines that open every translation unit.
pub open spec fn emit_prelude(out: Seq<char>) -> Seq<char> {
    let o1 = put_line(out, 0, "#include \"value.h\""@);
    let o2 = put_line(o1, 0, "#include <locale.h>"@);
    let o3 = put_line(o2, 0, "#include <stdio.h>"@);
    let o4 = put_line(o3, 0, "#include <time.h>"@);
    put_line(o4, 0, ""@)
}

/// The first line of a definition, which is its prototype but for the semicolon.
pub open spec fn signature(name: Seq<char>) -> Seq<char> {
    "static IC_VALUE "@ + name + "(IC_LAR_PROTO* lar)"@
}

/// One prototype for each definition, in the program's order.
pub open spec fn emit_prototype_lines(
    fs: Seq<(Seq<char>, il::FunctionView)>,
    out: Seq<char>,
) -> Seq<char>
    decreases fs.len(),
{
    if fs.len() == 0 {
        out
    } else {
        put_line(emit_prototype_lines(fs.drop_last(), out), 0, signature(fs.last().0) + ";"@)
    }
}

/// The prototypes and the empty line after them.
pub open spec fn emit_prototypes(p: il::ProgramView, out: Seq<char>) -> Seq<char> {
    put_line(emit_prototype_lines(p.functions, out), 0, ""@)
}

/// The entry point: it makes the root record, calls `result` in a frame of its
/// own, shows the value, and reports the time taken.
pub open spec fn emit_main(out: Seq<char>) -> Seq<char> {
    let o1 = put_line(out, 0, "int main(void)"@);
    let o2 = put_line(o1, 0, "{"@);
    let o3 = put_line(o2, 1, "setlocale(LC_NUMERIC, \"\");"@);
    let o4 = put_line(o3, 1, "clock_t t1, t2;"@);
    let o5 = put_line(o4, 1, "t1 = clock();"@);
    let o6 = put_line(o5, 1, "IC_LAR_PROTO* lar = IC_lar_new(NULL, 1, (IC_LARF[]){NULL});"@);
    let o7 = put_line(o6, 1, "IC_LAR_VALUE(lar, 0) = 0;"@);
    let o8 = put_line(o7, 1, "IC_FUNCTION_PUSH(lar);"@);
    let o9 = put_line(o8, 1, "IC_VALUE res = result(IC_lar_new(lar, 0, NULL));"@);
    let o10 = put_line(o9, 1, "IC_LAR_VALUE(lar, 0) = res;"@);
    let o11 = put_line(o10, 1, "IC_value_show(res);"@);
    let o12 = put_line(o11, 1, "IC_FUNCTION_POP(lar);"@);
    let o13 = put_line(o12, 1, "t2 = clock();"@);
    let o14 = put_line(
        o13,
        1,
        "printf(\"c time = %.10f sec (GC: %.10f sec, Alloc: %'lu bytes)\\n\", ((double)(t2 - t1) / CLOCKS_PER_SEC), IC_get_gc_time(), IC_get_alloc_size());"@,
    );
    let o15 = put_line(o14, 1, "IC_mem_cleanup();"@);
    let o16 = put_line(o15, 1, "return 0;"@);
    let o17 = put_line(o16, 0, "}"@);
    put_line(o17, 0, ""@)
}

/// One definition as a C function. A function of the source pushes a frame
/// on entry and pops it before it returns; a thunk does neither.
pub open spec fn emit_function(
    p: il::ProgramView,
    name: Seq<char>,
    f: il::FunctionView,
    out: Seq<char>,
) -> Seq<char> {
    let o1 = put_line(out, 0, signature(name));
    let o2 = put_line(o1, 0, "{"@);
    let o3 = if f.is_function {
        put_line(o2, 1, "IC_FUNCTION_PUSH(lar);"@)
    } else {
        o2
    };
    let o4 = emit_expr(p, f.body, o3, 0, 1).0;
    let o5 = if f.is_function {
        put_line(o4, 1, "IC_FUNCTION_POP(lar);"@)
    } else {
        o4
    };
    let o6 = put_line(o5, 1, "return "@ + temp(0) + ";"@);
    let o7 = put_line(o6, 0, "}"@);
    put_line(o7, 0, ""@)
}

/// The definitions `fs` of the program `p`, in order.
pub open spec fn emit_functions(
    p: il::ProgramView,
    fs: Seq<(Seq<char>, il::FunctionView)>,
    out: Seq<char>,
) -> Seq<char>
    decreases fs.len(),
{
    if fs.len() == 0 {
        out
    } else {
        emit_function(p, fs.last().0, fs.last().1, emit_functions(p, fs.drop_last(), out))
    }
}

/// The C translation unit of a program: prelude, prototypes, `main`, and the
/// definitions.
pub open spec fn c_source(p: il::ProgramView) -> Seq<char> {
    emit_functions(p, p.functions, emit_main(emit_prototypes(p, emit_prelude(Seq::empty()))))
}

/// The temporaries and the nesting of every body fit the machine's integers.
pub open spec fn fits(p: il::ProgramView) -> bool {
    forall|i: int| 0 <= i < p.functions.len() ==> (#[trigger] p.functions[i]).1.body.size() < usize::MAX
}

/// What one run of the emitter holds: the text so far, the number of the next
/// free temporary, and the nesting depth.
pub struct State {
    pub out: String,
    pub tmp_cnt: usize,
    pub indentation: usize,
}

fn op_helper_text(op: BinOp) -> (s: &'static str)
    ensures
        s@ == op_helper(op),
{
    match op {
        BinOp::Add => "IC_ADD",
        BinOp::Sub => "IC_SUB",
        BinOp::Mul => "IC_MUL",
        BinOp::Eq => "IC_EQ",
        BinOp::Neq => "IC_NEQ",
        BinOp::Lt => "IC_LT",
        BinOp::Gt => "IC_GT",
        BinOp::Le => "IC_LE",
        BinOp::Ge => "IC_GE",
    }
}

fn push_temp(out: &mut String, t: usize)
    ensures
        final(out)@ == old(out)@ + temp(t as nat),
{
    let mut name = String::from_str("__t");
    push_decimal(&mut name, t as u64);
    out.append(name.as_str());
}

fn thunk_list_text(names: &Vec<String>, k: usize) -> (s: String)
    ensures
        s@ == thunk_list(names.deep_view(), k as nat),
{
    let mut s = String::new();
    let mut i: usize = 0;
    while i < names.len()
        invariant
            i <= names.len(),
            s@ == thunk_list(names.deep_view().take(i as int), k as nat),
        decreases names.len() - i,
    {
        let ghost before = s@;
        proof {
            let next = names.deep_view().take(i + 1);
            assert(next.drop_last() =~= names.deep_view().take(i as int));
            assert(next.last() == names[i as int]@);
        }
        if i > 0 {
            s.append(", ");
        }
        s.append(names[i].as_str());
        s.append("__");
        push_decimal(&mut s, k as u64);
        proof {
            if i == 0 {
                assert(before =~= Seq::<char>::empty());
                assert(s@ =~= names[0]@ + "__"@ + decimal(k as nat));
            }
        }
        i += 1;
    }
    assert(names.deep_view().take(names.len() as int) =~= names.deep_view());
    s
}

impl State {
    pub fn new() -> (s: Self)
        ensures
            s.out@ == Seq::<char>::empty(),
            s.tmp_cnt == 0,
            s.indentation == 0,
    {
        Self { out: String::new(), tmp_cnt: 0, indentation: 0 }
    }

    /// Writes one line at the current depth.
    fn line(&mut self, text: &str)
        ensures
            final(self).out@ == put_line(old(self).out@, old(self).indentation as nat, text@),
            final(self).tmp_cnt == old(self).tmp_cnt,
            final(self).indentation == old(self).indentation,
    {
        let mut i: usize = 0;
        while i < self.indentation
            invariant
                i <= self.indentation,
                self.indentation == old(self).indentation,
                self.tmp_cnt == old(self).tmp_cnt,
                self.out@ == old(self).out@ + indent(i as nat),
            decreases self.indentation - i,
        {
            self.out.append("    ");
            i += 1;
            assert(self.out@ =~= old(self).out@ + indent(i as nat));
        }
        self.out.append(text);
        self.out.append("\n");
    }

    /// The statement of a node that has no operands of its own.
    fn leaf_text(program: &il::Program, e: &il::Expr, t: usize) -> (s: String)
        requires
            program@.resolves(e@),
            !(e@ is Binary),
            !(e@ is If),
            !(e@ is Field),
        ensures
            s@ == leaf_statement(program@, e@, t as nat),
    {
        let mut s = String::from_str("IC_VALUE ");
        push_temp(&mut s, t);
        match e {
            il::Expr::Local(_, idx, _) => {
                s.append(" = IC_lar_get_arg(lar, ");
                push_decimal(&mut s, *idx as u64);
                s.append(");");
            },
            il::Expr::Global(name, _) => {
                s.append(" = ");
                s.append(name.as_str());
                s.append("(IC_lar_new(lar, 0, NULL));");
            },
            il::Expr::Num(n, _) => {
                s.append(" = IC_BOX(");
                push_signed_decimal(&mut s, *n);
                s.append(");");
            },
            il::Expr::Bool(b, _) => {
                s.append(" = IC_BOX((int)");
                push_decimal(&mut s, if *b { 1 } else { 0 });
                s.append(");");
            },
            il::Expr::Call(callee, k, _) => {
                let i = find_entry(&program.functions, callee).unwrap();
                let f = &program.functions[i].1;
                assert(lookup(program@.functions, callee@) == Some(f@));
                s.append(" = ");
                s.append(callee.as_str());
                s.append("(IC_lar_new(lar, ");
                push_decimal(&mut s, f.args.len() as u64);
                s.append(", (IC_LARF[]){");
                let list = thunk_list_text(&f.arg_names, *k);
                s.append(list.as_str());
                s.append("}));");
            },
            il::Expr::Constructor(name, k, _) => {
                let i = find_entry(&program.structs, name).unwrap();
                let st = &program.structs[i].1;
                assert(lookup(program@.structs, name@) == Some(st@));
                if st.fields.len() == 0 {
                    s.append(" = IC_lar_new(lar, 0, NULL);");
                } else {
                    s.append(" = (IC_VALUE)IC_lar_new(lar, ");
                    push_decimal(&mut s, st.fields.len() as u64);
                    s.append(", (IC_LARF[]){");
                    let list = thunk_list_text(&st.field_names, *k);
                    s.append(list.as_str());
                    s.append("});");
                }
            },
            _ => {},
        }
        s
    }

    /// Writes the statements that compute `e`, and returns the number of the
    /// temporary that holds its value.
    pub fn expr(&mut self, program: &il::Program, e: &il::Expr) -> (tmp: usize)
        requires
            program@.resolves(e@),
            old(self).tmp_cnt + e@.size() <= usize::MAX,
            old(self).indentation + e@.size() <= usize::MAX,
        ensures
            tmp == old(self).tmp_cnt,
            (final(self).out@, final(self).tmp_cnt as nat) == emit_expr(
                program@,
                e@,
                old(self).out@,
                old(self).tmp_cnt as nat,
                old(self).indentation as nat,
            ),
            final(self).tmp_cnt == old(self).tmp_cnt + e@.size(),
            final(self).indentation == old(self).indentation,
        decreases e@,
    {
        let tmp = self.tmp_cnt;
        self.tmp_cnt += 1;
        if let Some((op, l, r, _)) = e.as_binary() {
            let lhs = self.expr(program, l);
            let rhs = self.expr(program, r);
            let mut s = String::from_str("IC_VALUE ");
            push_temp(&mut s, tmp);
            s.append(" = ");
            s.append(op_helper_text(op));
            s.append("(");
            push_temp(&mut s, lhs);
            s.append(", ");
            push_temp(&mut s, rhs);
            s.append(");");
            self.line(s.as_str());
            return tmp;
        }
        match e {
            il::Expr::If(c, th, el, _) => {
                let mut s = String::from_str("IC_VALUE ");
                push_temp(&mut s, tmp);
                s.append(";");
                self.line(s.as_str());

                let cond_res = self.expr(program, c);
                let mut s = String::from_str("if (IC_UNBOX(");
                push_temp(&mut s, cond_res);
                s.append(")) {");
                self.line(s.as_str());

                self.indentation += 1;
                let then_res = self.expr(program, th);
                let mut s = String::new();
                push_temp(&mut s, tmp);
                s.append(" = ");
                push_temp(&mut s, then_res);
                s.append(";");
                assert(s@ =~= temp(tmp as nat) + " = "@ + temp(then_res as nat) + ";"@);
                self.line(s.as_str());
                self.indentation -= 1;

                self.line("} else {");

                self.indentation += 1;
                let else_res = self.expr(program, el);
                let mut s = String::new();
                push_temp(&mut s, tmp);
                s.append(" = ");
                push_temp(&mut s, else_res);
                s.append(";");
                assert(s@ =~= temp(tmp as nat) + " = "@ + temp(else_res as nat) + ";"@);
                self.line(s.as_str());
                self.indentation -= 1;

                self.line("}");
            },
            il::Expr::Field(obj, field, _) => {
                let res = self.expr(program, obj);
                let mut s = String::from_str("IC_VALUE ");
                push_temp(&mut s, tmp);
                s.append(" = IC_lar_get_arg((IC_LAR_PROTO*)");
                push_temp(&mut s, res);
                s.append(", ");
                push_decimal(&mut s, *field as u64);
                s.append(");");
                self.line(s.as_str());
            },
            _ => {
                let s = Self::leaf_text(program, e, tmp);
                self.line(s.as_str());
            },
        }
        tmp
    }

    fn prelude(&mut self)
        requires
            old(self).indentation == 0,
        ensures
            final(self).out@ == emit_prelude(old(self).out@),
            final(self).tmp_cnt == old(self).tmp_cnt,
            final(self).indentation == 0,
    {
        self.line("#include \"value.h\"");
        self.line("#include <locale.h>");
        self.line("#include <stdio.h>");
        self.line("#include <time.h>");
        self.line("");
    }

    fn prototypes(&mut self, program: &il::Program)
        requires
            old(self).indentation == 0,
        ensures
            final(self).out@ == emit_prototypes(program@, old(self).out@),
            final(self).tmp_cnt == old(self).tmp_cnt,
            final(self).indentation == 0,
    {
        let mut i: usize = 0;
        while i < program.functions.len()
            invariant
                i <= program.functions.len(),
                self.indentation == 0,
                self.tmp_cnt == old(self).tmp_cnt,
                self.out@ == emit_prototype_lines(
                    program@.functions.take(i as int),
                    old(self).out@,
                ),
            decreases program.functions.len() - i,
        {
            proof {
                let next = program@.functions.take(i + 1);
                assert(next.drop_last() =~= program@.functions.take(i as int));
                assert(next.last().0 == program.functions[i as int].0@);
            }
            let mut s = String::from_str("static IC_VALUE ");
            s.append(program.functions[i].0.as_str());
            s.append("(IC_LAR_PROTO* lar)");
            s.append(";");
            self.line(s.as_str());
            i += 1;
        }
        assert(program@.functions.take(program.functions.len() as int) =~= program@.functions);
        self.line("");
    }

    fn main(&mut self)
        requires
            old(self).indentation == 0,
        ensures
            final(self).out@ == emit_main(old(self).out@),
            final(self).tmp_cnt == old(self).tmp_cnt,
            final(self).indentation == 0,
    {
        self.line("int main(void)");
        self.line("{");
        self.indentation += 1;
        self.line("setlocale(LC_NUMERIC, \"\");");
        self.line("clock_t t1, t2;");
        self.line("t1 = clock();");
        self.line("IC_LAR_PROTO* lar = IC_lar_new(NULL, 1, (IC_LARF[]){NULL});");
        self.line("IC_LAR_VALUE(lar, 0) = 0;");
        self.line("IC_FUNCTION_PUSH(lar);");
        self.line("IC_VALUE res = result(IC_lar_new(lar, 0, NULL));");
        self.line("IC_LAR_VALUE(lar, 0) = res;");
        self.line("IC_value_show(res);");
        self.line("IC_FUNCTION_POP(lar);");
        self.line("t2 = clock();");
        self.line(
            "printf(\"c time = %.10f sec (GC: %.10f sec, Alloc: %'lu bytes)\\n\", ((double)(t2 - t1) / CLOCKS_PER_SEC), IC_get_gc_time(), IC_get_alloc_size());",
        );
        self.line("IC_mem_cleanup();");
        self.line("return 0;");
        self.indentation -= 1;
        self.line("}");
        self.line("");
    }

    /// Writes one definition.
    fn function(&mut self, program: &il::Program, name: &String, f: &il::Function)
        requires
            old(self).indentation == 0,
            old(self).tmp_cnt == 0,
            program@.resolves(f@.body),
            f@.body.size() < usize::MAX,
        ensures
            final(self).out@ == emit_function(program@, name@, f@, old(self).out@),
            final(self).tmp_cnt == 0,
            final(self).indentation == 0,
    {
        let mut s = String::from_str("static IC_VALUE ");
        s.append(name.as_str());
        s.append("(IC_LAR_PROTO* lar)");
        self.line(s.as_str());
        self.line("{");
        self.indentation += 1;
        if f.is_function {
            self.line("IC_FUNCTION_PUSH(lar);");
        }
        let res = self.expr(program, &f.body);
        if f.is_function {
            self.line("IC_FUNCTION_POP(lar);");
        }
        let mut s = String::from_str("return ");
        push_temp(&mut s, res);
        s.append(";");
        self.line(s.as_str());
        self.indentation -= 1;
        self.line("}");
        self.line("");
        self.tmp_cnt = 0;
    }

    fn functions(&mut self, program: &il::Program)
        requires
            old(self).indentation == 0,
            old(self).tmp_cnt == 0,
            program@.closed(),
            fits(program@),
        ensures
            final(self).out@ == emit_functions(program@, program@.functions, old(self).out@),
            final(self).tmp_cnt == 0,
            final(self).indentation == 0,
    {
        let mut i: usize = 0;
        while i < program.functions.len()
            invariant
                i <= program.functions.len(),
                self.indentation == 0,
                self.tmp_cnt == 0,
                program@.closed(),
                fits(program@),
                self.out@ == emit_functions(
                    program@,
                    program@.functions.take(i as int),
                    old(self).out@,
                ),
            decreases program.functions.len() - i,
        {
            proof {
                let next = program@.functions.take(i + 1);
                assert(next.drop_last() =~= program@.functions.take(i as int));
                assert(next.last() == program@.functions[i as int]);
                assert(program@.functions[i as int].0 == program.functions[i as int].0@);
                assert(program@.functions[i as int].1 == program.functions[i as int].1@);
            }
            self.function(program, &program.functions[i].0, &program.functions[i].1);
            i += 1;
        }
        assert(program@.functions.take(program.functions.len() as int) =~= program@.functions);
    }
}

/// The number of nodes of an expression, where the machine's integers can hold it.
pub fn size_of(expr: &il::Expr) -> (r: Option<usize>)
    ensures
        match r {
            Some(n) => n == expr@.size(),
            None => expr@.size() > usize::MAX,
        },
    decreases expr,
{
    match expr {
        il::Expr::Add(l, r, _)
        | il::Expr::Sub(l, r, _)
        | il::Expr::Mul(l, r, _)
        | il::Expr::Eq(l, r, _)
        | il::Expr::Neq(l, r, _)
        | il::Expr::Lt(l, r, _)
        | il::Expr::Gt(l, r, _)
        | il::Expr::Le(l, r, _)
        | il::Expr::Ge(l, r, _) => {
            let a = size_of(l)?;
            let b = size_of(r)?;
            a.checked_add(b)?.checked_add(1)
        },
        il::Expr::If(c, t, e, _) => {
            let a = size_of(c)?;
            let b = size_of(t)?;
            let d = size_of(e)?;
            a.checked_add(b)?.checked_add(d)?.checked_add(1)
        },
        il::Expr::Field(obj, _, _) => size_of(obj)?.checked_add(1),
        _ => Some(1),
    }
}

/// Whether the machine's integers can number the temporaries of every body.
pub fn within_limits(program: &il::Program) -> (b: bool)
    ensures
        b == fits(program@),
{
    let mut i: usize = 0;
    while i < program.functions.len()
        invariant
            i <= program.functions.len(),
            forall|j: int|
                0 <= j < i ==> (#[trigger] program@.functions[j]).1.body.size() < usize::MAX,
        decreases program.functions.len() - i,
    {
        assert(program@.functions[i as int].1 == program.functions[i as int].1@);
        match size_of(&program.functions[i].1.body) {
            Some(n) => {
                if n == usize::MAX {
                    return false;
                }
            },
            None => {
                return false;
            },
        }
        i += 1;
    }
    true
}

/// The C translation unit of a lowered program.
pub fn generate(program: &il::Program) -> (source: String)
    requires
        program@.closed(),
        fits(program@),
    ensures
        source@ == c_source(program@),
{
    let mut state = State::new();
    state.prelude();
    state.prototypes(program);
    state.main();
    state.functions(program);
    state.out
}

} // verus!
