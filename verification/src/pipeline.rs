//! The stages, one after the other: from a text to a C translation unit.

use vstd::prelude::*;
use crate::diag::{Diagnostic, DiagnosticView, Stage};
use crate::flchk::{check, check_report, checked, first_failure};
use crate::grammar::parse_source;
use crate::refusal::parse_report;
use crate::itoc::{c_source, fits, generate, within_limits};
use crate::parser::parse;
use crate::tc::{elab_program, typecheck, typecheck_report, well_typed};
use crate::ttoi::{calls_in_functions, countable, lower_program, transform};

verus! {

/// Why a text was not compiled.
#[derive(Debug)]
pub enum Failure {
    /// A stage refused the program.
    Refused(Diagnostic),
    /// The program has more calls in all, or more nodes in one body, than the
    /// machine's integers can count.
    TooLarge,
}

/// The C translation unit of the program that a text writes, where every
/// stage accepts it: the text is parsed, checked, typed, lowered and emitted.
pub open spec fn compiled(source: Seq<char>) -> Option<Seq<char>> {
    match parse_source(source) {
        Some(p) => if checked(p) && well_typed(p) {
            Some(c_source(lower_program(elab_program(p))))
        } else {
            None
        },
        None => None,
    }
}

/// The program that a text writes has more calls and constructors in all,
/// or more nodes in one lowered body, than the machine's integers can count.
pub open spec fn too_large(source: Seq<char>) -> bool {
    let typed = elab_program(parse_source(source)->0);
    calls_in_functions(typed, typed.functions.len()) > usize::MAX || !fits(lower_program(typed))
}

/// What is reported of a text that some stage refuses: the report of the
/// first stage that refuses it.
pub open spec fn refusal(source: Seq<char>) -> DiagnosticView {
    match parse_source(source) {
        None => parse_report(source, 0),
        Some(p) => match check_report(p) {
            Some(d) => d,
            None => typecheck_report(p)->0,
        },
    }
}

/// Compiles a text into a C translation unit. A text that some stage refuses
/// is reported with the diagnostic of the first stage that refuses it.
pub fn compile(source: &str) -> (r: Result<String, Failure>)
    requires
        source@.len() < usize::MAX,
    ensures
        match r {
            Ok(c) => compiled(source@) == Some(c@) && !too_large(source@),
            Err(Failure::Refused(d)) => compiled(source@) is None && d@ == refusal(source@)
                && match parse_source(source@) {
                None => d.fault.stage() == Stage::Parse,
                Some(p) => if checked(p) {
                    d.fault.stage() == Stage::Type
                } else {
                    first_failure(p) == Some(d.fault)
                },
            },
            Err(Failure::TooLarge) => compiled(source@) is Some && too_large(source@),
        },
{
    let program = match parse(source) {
        Ok(program) => program,
        Err(d) => {
            return Err(Failure::Refused(d));
        },
    };
    match check(&program) {
        Ok(_) => {},
        Err(d) => {
            return Err(Failure::Refused(d));
        },
    }
    let typed = match typecheck(program) {
        Ok(typed) => typed,
        Err(d) => {
            return Err(Failure::Refused(d));
        },
    };
    if !countable(&typed) {
        return Err(Failure::TooLarge);
    }
    let lowered = transform(typed);
    if !within_limits(&lowered) {
        return Err(Failure::TooLarge);
    }
    Ok(generate(&lowered))
}

} // verus!
