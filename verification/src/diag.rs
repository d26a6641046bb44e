//! Diagnostics: what a stage reports of a program that it refuses, and the
//! line that shows it.

use vstd::prelude::*;
use vstd::string::*;
use crate::loc::Loc;
use crate::text::{decimal, push_decimal};
use crate::ty::{Type, TypeView};

verus! {

/// The part of the pipeline that refused a program.
#[derive(Clone, Copy, Debug, PartialEq, Eq, Structural)]
pub enum Stage {
    Parse,
    Semantic,
    Type,
}

/// What a program was refused for.
#[derive(Clone, Copy, Debug, PartialEq, Eq, Structural)]
pub enum Fault {
    /// A character that starts no token, or a `?` behind an identifier.
    UnexpectedCharacter,
    /// An integer literal beyond the 64-bit signed range.
    NumberTooLarge,
    /// A token that the grammar does not allow where it stands.
    UnexpectedToken,
    /// Two definitions under one name.
    DuplicateDefinition,
    /// Two parameters of one function under one name.
    DuplicateParameter,
    /// Two fields of one struct under one name.
    DuplicateField,
    /// Two values for one field in a constructor.
    DuplicateAssignment,
    /// No function without parameters is called `result`.
    MissingResult,
    /// A parameter with the name of a function or a struct.
    Shadowing,
    /// A call of a function that is not defined.
    UndefinedFunction,
    /// A constructor of a struct that is not defined.
    UndefinedStruct,
    /// A call with more or fewer arguments than the callee has parameters.
    ArityMismatch,
    /// A constructor that leaves a field out or names one that the struct lacks.
    FieldMismatch,
    /// A variable that is neither a parameter nor a function without parameters.
    UndefinedVariable,
    /// A type annotation that names no struct.
    UndefinedType,
    /// An expression that the typing rules refuse.
    IllTyped,
}

impl Fault {
    /// The stage that reports the fault.
    pub open spec fn stage(self) -> Stage {
        match self {
            Fault::UnexpectedCharacter
            | Fault::NumberTooLarge
            | Fault::UnexpectedToken
            | Fault::DuplicateDefinition
            | Fault::DuplicateParameter
            | Fault::DuplicateField
            | Fault::DuplicateAssignment => Stage::Parse,
            Fault::MissingResult
            | Fault::Shadowing
            | Fault::UndefinedFunction
            | Fault::UndefinedStruct
            | Fault::ArityMismatch
            | Fault::FieldMismatch
            | Fault::UndefinedVariable
            | Fault::UndefinedType => Stage::Semantic,
            Fault::IllTyped => Stage::Type,
        }
    }

    /// The stage that reports the fault.
    pub fn get_stage(self) -> (s: Stage)
        ensures
            s == self.stage(),
    {
        match self {
            Fault::UnexpectedCharacter
            | Fault::NumberTooLarge
            | Fault::UnexpectedToken
            | Fault::DuplicateDefinition
            | Fault::DuplicateParameter
            | Fault::DuplicateField
            | Fault::DuplicateAssignment => Stage::Parse,
            Fault::MissingResult
            | Fault::Shadowing
            | Fault::UndefinedFunction
            | Fault::UndefinedStruct
            | Fault::ArityMismatch
            | Fault::FieldMismatch
            | Fault::UndefinedVariable
            | Fault::UndefinedType => Stage::Semantic,
            Fault::IllTyped => Stage::Type,
        }
    }
}

/// The word that a stage's diagnostics start with.
pub open spec fn stage_name(stage: Stage) -> Seq<char> {
    match stage {
        Stage::Parse => "Parse"@,
        Stage::Semantic => "Semantic"@,
        Stage::Type => "Type"@,
    }
}

/// A place as `line:col`.
pub open spec fn loc_text(loc: Loc) -> Seq<char> {
    decimal(loc.line as nat) + ":"@ + decimal(loc.col as nat)
}

/// The line that reports a diagnostic: the stage and the place in square
/// brackets, a colon, and the message as a sentence.
pub open spec fn rendered(stage: Stage, loc: Loc, message: Seq<char>) -> Seq<char> {
    "["@ + stage_name(stage) + " error]["@ + loc_text(loc) + "]: "@ + message + "."@
}

/// A type as diagnostics show it.
pub open spec fn type_text(t: TypeView) -> Seq<char> {
    match t {
        TypeView::Int => "int"@,
        TypeView::Bool => "bool"@,
        TypeView::Struct(name) => "struct "@ + name,
    }
}

/// Appends a type as diagnostics show it.
pub fn push_type(out: &mut String, t: &Type)
    ensures
        final(out)@ == old(out)@ + type_text(t@),
{
    match t {
        Type::Int => out.append("int"),
        Type::Bool => out.append("bool"),
        Type::Struct(name) => {
            let mut s = String::from_str("struct ");
            s.append(name.as_str());
            out.append(s.as_str());
        },
    }
}

/// The reason for which a stage refused a program, and the place it points to.
#[derive(Debug)]
pub struct Diagnostic {
    pub fault: Fault,
    pub loc: Loc,
    pub message: String,
}

/// The mathematical model of a [`Diagnostic`].
pub struct DiagnosticView {
    pub fault: Fault,
    pub loc: Loc,
    pub message: Seq<char>,
}

impl View for Diagnostic {
    type V = DiagnosticView;

    open spec fn view(&self) -> DiagnosticView {
        DiagnosticView { fault: self.fault, loc: self.loc, message: self.message@ }
    }
}

/// The first of two reports: the second one counts only where there is no first.
pub open spec fn first_of(a: Option<DiagnosticView>, b: Option<DiagnosticView>) -> Option<
    DiagnosticView,
> {
    match a {
        Some(d) => Some(d),
        None => b,
    }
}

impl Diagnostic {
    pub fn new(fault: Fault, loc: Loc, message: String) -> (d: Self)
        ensures
            d.fault == fault,
            d.loc == loc,
            d.message == message,
    {
        Self { fault, loc, message }
    }

    /// The line to print for this diagnostic.
    pub fn render(&self) -> (line: String)
        ensures
            line@ == rendered(self.fault.stage(), self.loc, self.message@),
    {
        let mut s = String::from_str("[");
        s.append(
            match self.fault.get_stage() {
                Stage::Parse => "Parse",
                Stage::Semantic => "Semantic",
                Stage::Type => "Type",
            },
        );
        s.append(" error][");
        let mut l = String::new();
        push_decimal(&mut l, self.loc.line as u64);
        l.append(":");
        push_decimal(&mut l, self.loc.col as u64);
        assert(l@ =~= loc_text(self.loc));
        s.append(l.as_str());
        s.append("]: ");
        s.append(self.message.as_str());
        s.append(".");
        s
    }
}

} // verus!
