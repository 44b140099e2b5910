//! The error taxonomy.
//!
//! Every checker returns a typed error rather than a bare message; the
//! pipeline tags the first failure with the phase it arose in. Each error
//! has a mathematical mirror ([`ErrV`]) over character sequences, which the
//! contracts speak of, and a rendered human-readable message.

use vstd::prelude::*;
use crate::json::{Json, JsonV};
use crate::model::{Format, Type};
use crate::num::Dec;

verus! {

/// Which required part of a document is missing or empty.
#[derive(Clone, Copy, Debug, PartialEq, Eq, Structural)]
pub enum DocFault {
    NoOpenapiVersion,
    NoTitle,
    NoInfoVersion,
    NoPaths,
}

/// One contract violation.
#[derive(Debug)]
#[allow(inconsistent_fields)]
pub enum ValidationError {
    /// The document itself is incomplete; fatal at startup.
    SpecError(DocFault),
    /// The request's path template is not declared.
    PathNotFound,
    /// The path exists but does not declare the request's method.
    MethodNotAllowed,
    /// A required parameter is present but blank.
    EmptyRequiredParameter { name: String },
    /// A required parameter is absent.
    MissingRequiredParameter { name: String },
    /// A required body field is absent.
    MissingRequiredField { name: String },
    /// A value does not match its declared type.
    TypeMismatch { name: String, expected: Type },
    /// A value matches none of the tags of a union type.
    UnionMismatch { name: String, expected: Vec<Type> },
    /// A format check was demanded of a non-string value.
    NotAString { name: String },
    /// A string does not satisfy its declared format.
    FormatViolation { format: Format, name: String, value: String },
    /// A format is declared that no checker covers; checking fails closed.
    UnsupportedFormat { format: Format, name: String },
    /// A string does not match its declared pattern.
    PatternViolation { name: String, value: String, pattern: String },
    /// A declared pattern is not a valid regular expression.
    PatternCompileError { name: String, pattern: String },
    /// A value is not among the allowed enumeration members.
    EnumViolation { name: String, value: Json, allowed: Vec<Json> },
    /// A string is shorter than `minLength`.
    StringTooShort { name: String, min: u64, len: usize },
    /// A string is longer than `maxLength`.
    StringTooLong { name: String, max: u64, len: usize },
    /// A number is below `minimum`.
    NumberTooSmall { name: String, min: Dec, value: Dec },
    /// A number is above `maximum`.
    NumberTooLarge { name: String, max: Dec, value: Dec },
    /// An array has fewer than `minItems` elements.
    TooFewItems { name: String, min: u64, len: usize },
    /// An array has more than `maxItems` elements.
    TooManyItems { name: String, max: u64, len: usize },
    /// The body array has fewer than `minItems` elements.
    BodyTooFewItems { min: u64, len: usize },
    /// The body array has more than `maxItems` elements.
    BodyTooManyItems { max: u64, len: usize },
    /// The body's top-level shape differs from the resolved schema's type.
    BodyShapeMismatch { expected: Type },
    /// An element of a body array is not an object.
    ArrayItemNotObject { index: usize },
    /// The request body is required but absent or null.
    RequiredBodyMissing,
    /// The request body is not valid JSON.
    MalformedBody,
}

/// The mathematical mirror of a [`ValidationError`].
#[verifier::ext_equal]
#[allow(inconsistent_fields)]
pub enum ErrV {
    SpecError(DocFault),
    PathNotFound,
    MethodNotAllowed,
    EmptyRequiredParameter { name: Seq<char> },
    MissingRequiredParameter { name: Seq<char> },
    MissingRequiredField { name: Seq<char> },
    TypeMismatch { name: Seq<char>, expected: Type },
    UnionMismatch { name: Seq<char>, expected: Seq<Type> },
    NotAString { name: Seq<char> },
    FormatViolation { format: Format, name: Seq<char>, value: Seq<char> },
    UnsupportedFormat { format: Format, name: Seq<char> },
    PatternViolation { name: Seq<char>, value: Seq<char>, pattern: Seq<char> },
    PatternCompileError { name: Seq<char>, pattern: Seq<char> },
    EnumViolation { name: Seq<char>, value: JsonV, allowed: Seq<JsonV> },
    StringTooShort { name: Seq<char>, min: u64, len: usize },
    StringTooLong { name: Seq<char>, max: u64, len: usize },
    NumberTooSmall { name: Seq<char>, min: Dec, value: Dec },
    NumberTooLarge { name: Seq<char>, max: Dec, value: Dec },
    TooFewItems { name: Seq<char>, min: u64, len: usize },
    TooManyItems { name: Seq<char>, max: u64, len: usize },
    BodyTooFewItems { min: u64, len: usize },
    BodyTooManyItems { max: u64, len: usize },
    BodyShapeMismatch { expected: Type },
    ArrayItemNotObject { index: usize },
    RequiredBodyMissing,
    MalformedBody,
}

impl ValidationError {
    /// The mathematical mirror of this error.
    pub open spec fn ev(self) -> ErrV {
        match self {
            ValidationError::SpecError(f) => ErrV::SpecError(f),
            ValidationError::PathNotFound => ErrV::PathNotFound,
            ValidationError::MethodNotAllowed => ErrV::MethodNotAllowed,
            ValidationError::EmptyRequiredParameter { name } => ErrV::EmptyRequiredParameter {
                name: name@,
            },
            ValidationError::MissingRequiredParameter { name } => ErrV::MissingRequiredParameter {
                name: name@,
            },
            ValidationError::MissingRequiredField { name } => ErrV::MissingRequiredField {
                name: name@,
            },
            ValidationError::TypeMismatch { name, expected } => ErrV::TypeMismatch {
                name: name@,
                expected,
            },
            ValidationError::UnionMismatch { name, expected } => ErrV::UnionMismatch {
                name: name@,
                expected: expected@,
            },
            ValidationError::NotAString { name } => ErrV::NotAString { name: name@ },
            ValidationError::FormatViolation { format, name, value } => ErrV::FormatViolation {
                format,
                name: name@,
                value: value@,
            },
            ValidationError::UnsupportedFormat { format, name } => ErrV::UnsupportedFormat {
                format,
                name: name@,
            },
            ValidationError::PatternViolation { name, value, pattern } => ErrV::PatternViolation {
                name: name@,
                value: value@,
                pattern: pattern@,
            },
            ValidationError::PatternCompileError { name, pattern } => ErrV::PatternCompileError {
                name: name@,
                pattern: pattern@,
            },
            ValidationError::EnumViolation { name, value, allowed } => ErrV::EnumViolation {
                name: name@,
                value: value.jv(),
                allowed: Json::Arr(allowed).jv()->Arr_0,
            },
            ValidationError::StringTooShort { name, min, len } => ErrV::StringTooShort {
                name: name@,
                min,
                len,
            },
            ValidationError::StringTooLong { name, max, len } => ErrV::StringTooLong {
                name: name@,
                max,
                len,
            },
            ValidationError::NumberTooSmall { name, min, value } => ErrV::NumberTooSmall {
                name: name@,
                min,
                value,
            },
            ValidationError::NumberTooLarge { name, max, value } => ErrV::NumberTooLarge {
                name: name@,
                max,
                value,
            },
            ValidationError::TooFewItems { name, min, len } => ErrV::TooFewItems {
                name: name@,
                min,
                len,
            },
            ValidationError::TooManyItems { name, max, len } => ErrV::TooManyItems {
                name: name@,
                max,
                len,
            },
            ValidationError::BodyTooFewItems { min, len } => ErrV::BodyTooFewItems { min, len },
            ValidationError::BodyTooManyItems { max, len } => ErrV::BodyTooManyItems { max, len },
            ValidationError::BodyShapeMismatch { expected } => ErrV::BodyShapeMismatch { expected },
            ValidationError::ArrayItemNotObject { index } => ErrV::ArrayItemNotObject { index },
            ValidationError::RequiredBodyMissing => ErrV::RequiredBodyMissing,
            ValidationError::MalformedBody => ErrV::MalformedBody,
        }
    }
}

/// The mirror of a checker result.
pub open spec fn res_ev(r: Result<(), ValidationError>) -> Result<(), ErrV> {
    match r {
        Result::Ok(()) => Result::Ok(()),
        Result::Err(e) => Result::Err(e.ev()),
    }
}

/// The pipeline phase a failure arose in; `Document` marks a failure of
/// the document's own completeness check, before any phase runs.
#[derive(Clone, Copy, Debug, PartialEq, Eq, Structural)]
pub enum Phase {
    Document,
    Method,
    Path,
    Query,
    Body,
}

/// The result of running the whole pipeline: the failing phase and the
/// first violation found there.
#[derive(Debug)]
pub struct ValidationFailure {
    pub phase: Phase,
    pub error: ValidationError,
}

impl ValidationFailure {
    /// The mathematical mirror of this failure.
    pub open spec fn fv(self) -> (Phase, ErrV) {
        (self.phase, self.error.ev())
    }
}

/// The mirror of a pipeline result.
pub open spec fn vres_ev(r: Result<(), ValidationFailure>) -> Result<(), (Phase, ErrV)> {
    match r {
        Result::Ok(()) => Result::Ok(()),
        Result::Err(f) => Result::Err(f.fv()),
    }
}

} // verus!
