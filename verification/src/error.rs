//! Binding failures. Errors are data: each carries the originating input or
//! field so the caller can report the exact cause.

use vstd::prelude::*;
use vstd::string::StringExecFns;
use crate::scalar::ScalarKind;

verus! {

/// What a failed coercion was trying to produce.
#[derive(Clone, Copy, PartialEq, Eq, Structural, Debug)]
pub enum TargetKind {
    Scalar(ScalarKind),
    /// A nested record bound from the field's own pattern.
    Record,
}

/// The mathematical model of a binding failure.
pub enum BindErrorV {
    NoMatch(Seq<char>),
    MissingField(Seq<char>),
    CoercionFailure { field: Seq<char>, raw: Seq<char>, target: TargetKind },
    NoVariantMatched(Seq<char>),
    StructuralMismatch(Seq<char>),
}

/// Why a binding failed.
#[derive(Debug, PartialEq)]
pub enum BindError {
    /// The top-level pattern did not match the input at all; carries the
    /// input. A nested pattern that fails to match its field's raw value is
    /// reported as a `CoercionFailure` on that field instead, so `NoMatch`
    /// always speaks of the whole input.
    NoMatch(String),
    /// A required field's capture group did not participate in the match and
    /// no default was configured; carries the field name.
    MissingField(String),
    /// A raw string could not be converted to the field's declared target;
    /// carries the field name, the raw text and the target kind.
    CoercionFailure { field: String, raw: String, target: TargetKind },
    /// No variant pattern of a tagged union matched; carries the input.
    NoVariantMatched(String),
    /// A structured input provides no value for a required field; carries the
    /// field name.
    StructuralMismatch(String),
}

impl View for BindError {
    type V = BindErrorV;

    open spec fn view(&self) -> BindErrorV {
        match self {
            BindError::NoMatch(s) => BindErrorV::NoMatch(s@),
            BindError::MissingField(f) => BindErrorV::MissingField(f@),
            BindError::CoercionFailure { field, raw, target } => BindErrorV::CoercionFailure {
                field: field@,
                raw: raw@,
                target: *target,
            },
            BindError::NoVariantMatched(s) => BindErrorV::NoVariantMatched(s@),
            BindError::StructuralMismatch(f) => BindErrorV::StructuralMismatch(f@),
        }
    }
}

pub open spec fn message_of(e: BindErrorV) -> Seq<char> {
    match e {
        BindErrorV::NoMatch(s) => "No captures resolved in string '"@ + s + "'"@,
        BindErrorV::MissingField(f) => "missing value for field "@ + f,
        BindErrorV::CoercionFailure { field, raw, .. } => "invalid value '"@ + raw
            + "' provided by "@ + field,
        BindErrorV::NoVariantMatched(s) => "no variant pattern matched '"@ + s + "'"@,
        BindErrorV::StructuralMismatch(f) => "structured input has no value for field "@ + f,
    }
}

impl BindError {
    /// A human-readable description of the failure.
    pub fn message(&self) -> (r: String)
        ensures
            r@ == message_of(self@),
    {
        match self {
            BindError::NoMatch(s) => {
                let mut m = "No captures resolved in string '".to_owned();
                m.append(s.as_str());
                m.append("'");
                m
            },
            BindError::MissingField(f) => {
                let mut m = "missing value for field ".to_owned();
                m.append(f.as_str());
                m
            },
            BindError::CoercionFailure { field, raw, .. } => {
                let mut m = "invalid value '".to_owned();
                m.append(raw.as_str());
                m.append("' provided by ");
                m.append(field.as_str());
                m
            },
            BindError::NoVariantMatched(s) => {
                let mut m = "no variant pattern matched '".to_owned();
                m.append(s.as_str());
                m.append("'");
                m
            },
            BindError::StructuralMismatch(f) => {
                let mut m = "structured input has no value for field ".to_owned();
                m.append(f.as_str());
                m
            },
        }
    }
}

} // verus!
