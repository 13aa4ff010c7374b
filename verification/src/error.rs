//! Errors of lexing, parsing and running programs.
use vstd::prelude::*;
use crate::ast::{Op, Span};
use crate::runtime::{RuntimeValue, Type, TypeV, Val};
use crate::text::{count_to_string, nat_text};
use vstd::string::StringExecFns;

verus! {

/// An error found while lexing, parsing or running a program.
#[derive(Debug)]
pub enum CpcError {
    Lex { span: Span, message: String },
    Parse { span: Span, message: String, expected: Option<String> },
    Runtime { span: Option<Span>, kind: RuntimeErrorKind },
}

/// The kinds of errors found while running a program.
#[derive(Debug)]
pub enum RuntimeErrorKind {
    UndefinedVariable(String),
    UndefinedFunction(String),
    AssignToUndefined(String),
    TypeMismatch { expect: Type, found: Type },
    InvalidOp { op: Op, left: Type, right: Type },
    InvalidUnaryOp { op: Op, operand: Type },
    DivideByZero,
    IndexOutOfBounds { index: i64, range: (usize, usize) },
    NotIndexable(Type),
    NotCallable(Type),
    ArgCountMismatch { expect: usize, found: usize },
    IndexMustBeInt(Type),
    ReturnNotFound(String),
    InvalidIndex(RuntimeValue),
    TypeWithoutDefaultValue(Type),
    UnknownType(RuntimeValue),
    Other(String),
}

/// The content of a run-time error kind.
pub enum KindV {
    UndefinedVariable(Seq<char>),
    UndefinedFunction(Seq<char>),
    AssignToUndefined(Seq<char>),
    TypeMismatch { expect: TypeV, found: TypeV },
    InvalidOp { op: Op, left: TypeV, right: TypeV },
    InvalidUnaryOp { op: Op, operand: TypeV },
    DivideByZero,
    IndexOutOfBounds { index: i64, range: (usize, usize) },
    NotIndexable(TypeV),
    NotCallable(TypeV),
    ArgCountMismatch { expect: usize, found: usize },
    IndexMustBeInt(TypeV),
    ReturnNotFound(Seq<char>),
    InvalidIndex(Val),
    TypeWithoutDefaultValue(TypeV),
    UnknownType(Val),
    Other(Seq<char>),
}

/// The content of an error.
pub enum ErrV {
    Lex { span: Span, message: Seq<char> },
    Parse { span: Span, message: Seq<char>, expected: Option<Seq<char>> },
    Runtime { span: Option<Span>, kind: KindV },
}

impl View for RuntimeErrorKind {
    type V = KindV;

    open spec fn view(&self) -> KindV {
        match self {
            RuntimeErrorKind::UndefinedVariable(s) => KindV::UndefinedVariable(s@),
            RuntimeErrorKind::UndefinedFunction(s) => KindV::UndefinedFunction(s@),
            RuntimeErrorKind::AssignToUndefined(s) => KindV::AssignToUndefined(s@),
            RuntimeErrorKind::TypeMismatch { expect, found } => KindV::TypeMismatch {
                expect: expect@,
                found: found@,
            },
            RuntimeErrorKind::InvalidOp { op, left, right } => KindV::InvalidOp {
                op: *op,
                left: left@,
                right: right@,
            },
            RuntimeErrorKind::InvalidUnaryOp { op, operand } => KindV::InvalidUnaryOp {
                op: *op,
                operand: operand@,
            },
            RuntimeErrorKind::DivideByZero => KindV::DivideByZero,
            RuntimeErrorKind::IndexOutOfBounds { index, range } => KindV::IndexOutOfBounds {
                index: *index,
                range: *range,
            },
            RuntimeErrorKind::NotIndexable(t) => KindV::NotIndexable(t@),
            RuntimeErrorKind::NotCallable(t) => KindV::NotCallable(t@),
            RuntimeErrorKind::ArgCountMismatch { expect, found } => KindV::ArgCountMismatch {
                expect: *expect,
                found: *found,
            },
            RuntimeErrorKind::IndexMustBeInt(t) => KindV::IndexMustBeInt(t@),
            RuntimeErrorKind::ReturnNotFound(s) => KindV::ReturnNotFound(s@),
            RuntimeErrorKind::InvalidIndex(v) => KindV::InvalidIndex(v@),
            RuntimeErrorKind::TypeWithoutDefaultValue(t) => KindV::TypeWithoutDefaultValue(t@),
            RuntimeErrorKind::UnknownType(v) => KindV::UnknownType(v@),
            RuntimeErrorKind::Other(s) => KindV::Other(s@),
        }
    }
}

impl View for CpcError {
    type V = ErrV;

    open spec fn view(&self) -> ErrV {
        match self {
            CpcError::Lex { span, message } => ErrV::Lex { span: *span, message: message@ },
            CpcError::Parse { span, message, expected } => ErrV::Parse {
                span: *span,
                message: message@,
                expected: match expected {
                    Some(e) => Some(e@),
                    None => None,
                },
            },
            CpcError::Runtime { span, kind } => ErrV::Runtime { span: *span, kind: kind@ },
        }
    }
}

/// The result of the interpreter's operations.
pub type CpcResult<T> = Result<T, CpcError>;

/// What `format!("{:?}", kind)` writes for a run-time error kind.
pub uninterp spec fn kind_debug(kind: KindV) -> Seq<char>;

/// The derived `Debug` form of a run-time error kind, as `format!("{:?}")`
/// writes it; the contract names that text and does not spell it out.
#[verifier::external_body]
fn kind_debug_text(kind: &RuntimeErrorKind) -> (r: String)
    ensures
        r@ == kind_debug(kind@),
{
    format!("{:?}", kind)
}

/// `at line L, column C` as the reports write a position.
pub open spec fn position_text(span: Span) -> Seq<char> {
    "line "@ + nat_text(span.line as nat) + ", column "@ + nat_text(span.column as nat)
}

/// The message that reports an error.
pub open spec fn report_text(e: ErrV) -> Seq<char> {
    match e {
        ErrV::Lex { span, message } => "Lexical Error at "@ + position_text(span) + ": "@ + message,
        ErrV::Parse { span, message, expected } => "Parse Error at "@ + position_text(span) + ": "@ + message
            + match expected {
            Some(x) => "\nExpected: "@ + x,
            None => Seq::empty(),
        },
        ErrV::Runtime { span, kind } => "Runtime Error: "@ + kind_debug(kind) + match span {
            Some(sp) => "\nAt "@ + position_text(sp) + ": "@ + kind_debug(kind),
            None => Seq::empty(),
        },
    }
}

fn position_string(span: Span) -> (r: String)
    ensures
        r@ == position_text(span),
{
    String::from_str("line ").concat(count_to_string(span.line).as_str()).concat(", column ").concat(
        count_to_string(span.column).as_str(),
    )
}

impl CpcError {
    /// The message that reports the error.
    pub fn report(&self) -> (r: String)
        ensures
            r@ == report_text(self@),
    {
        match self {
            CpcError::Lex { span, message } => String::from_str("Lexical Error at ").concat(
                position_string(*span).as_str(),
            ).concat(": ").concat(message.as_str()),
            CpcError::Parse { span, message, expected } => {
                let output = String::from_str("Parse Error at ").concat(position_string(*span).as_str()).concat(
                    ": ",
                ).concat(message.as_str());
                match expected {
                    Some(x) => {
                        let r = output.concat("\nExpected: ").concat(x.as_str());
                        r
                    },
                    None => {
                        let ghost o = output@;
                        assert(o + Seq::<char>::empty() =~= o);
                        output
                    },
                }
            },
            CpcError::Runtime { span, kind } => {
                let k = kind_debug_text(kind);
                let output = String::from_str("Runtime Error: ").concat(k.as_str());
                match span {
                    Some(sp) => output.concat("\nAt ").concat(position_string(*sp).as_str()).concat(": ").concat(
                        k.as_str(),
                    ),
                    None => {
                        let ghost o = output@;
                        assert(o + Seq::<char>::empty() =~= o);
                        output
                    },
                }
            },
        }
    }
}

} // verus!
