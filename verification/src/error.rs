//! What can go wrong when a document is read into a tree.
use vstd::prelude::*;
use crate::value::Shape;

verus! {

/// Why a document could not be read. No tree is built from a document that
/// gives one of these.
#[derive(Debug, PartialEq, Eq)]
pub enum ParseError {
    /// The named field has to be there and is not.
    MissingRequiredField(String),
    /// The value under `field` has a shape that the field does not take.
    ShapeMismatch { field: String, expected: Vec<Shape>, actual: Shape },
    /// The text under `field` names none of the variants of a closed set.
    InvalidEnumValue { field: String, value: String },
    /// The text is no language tag.
    InvalidLanguageTag(String),
    /// The text is neither a URL nor a URN, or does not stay the same when
    /// its canonical form is read again.
    InvalidIdentifier(String),
    /// Arrays and objects nest more deeply than the ceiling given.
    RecursionLimitExceeded(usize),
}

/// The mathematical model of a [`ParseError`].
pub enum Fault {
    MissingRequiredField(Seq<char>),
    ShapeMismatch { field: Seq<char>, expected: Seq<Shape>, actual: Shape },
    InvalidEnumValue { field: Seq<char>, value: Seq<char> },
    InvalidLanguageTag(Seq<char>),
    InvalidIdentifier(Seq<char>),
    RecursionLimitExceeded(usize),
}

impl View for ParseError {
    type V = Fault;

    open spec fn view(&self) -> Fault {
        match self {
            ParseError::MissingRequiredField(field) => Fault::MissingRequiredField(field@),
            ParseError::ShapeMismatch { field, expected, actual } => Fault::ShapeMismatch {
                field: field@,
                expected: expected@,
                actual: *actual,
            },
            ParseError::InvalidEnumValue { field, value } => Fault::InvalidEnumValue {
                field: field@,
                value: value@,
            },
            ParseError::InvalidLanguageTag(text) => Fault::InvalidLanguageTag(text@),
            ParseError::InvalidIdentifier(text) => Fault::InvalidIdentifier(text@),
            ParseError::RecursionLimitExceeded(limit) => Fault::RecursionLimitExceeded(*limit),
        }
    }
}

/// The model of what reading gave: the model of the tree, or of the error.
pub open spec fn parsed<T: View>(r: Result<T, ParseError>) -> Result<T::V, Fault> {
    match r {
        Ok(t) => Ok(t@),
        Err(e) => Err(e@),
    }
}

/// The shapes a field of text takes.
pub open spec fn text_shapes() -> Seq<Shape> {
    seq![Shape::String]
}

/// The shapes a counting field takes.
pub open spec fn natural_shapes() -> Seq<Shape> {
    seq![Shape::Natural]
}

/// The shapes a numeric field takes.
pub open spec fn number_shapes() -> Seq<Shape> {
    seq![Shape::Natural, Shape::Number]
}

/// The shapes a flag takes.
pub open spec fn flag_shapes() -> Seq<Shape> {
    seq![Shape::Bool]
}

/// The shapes a list field takes that has no shorthand.
pub open spec fn list_shapes() -> Seq<Shape> {
    seq![Shape::Array]
}

/// The shapes an entity takes that has no shorthand.
pub open spec fn record_shapes() -> Seq<Shape> {
    seq![Shape::Object]
}

/// The shapes an entity takes that may be written as its name alone.
pub open spec fn named_shapes() -> Seq<Shape> {
    seq![Shape::String, Shape::Object]
}

/// The shapes an entity takes that may be written as its position alone.
pub open spec fn numbered_shapes() -> Seq<Shape> {
    seq![Shape::Natural, Shape::Object]
}

/// The shapes a list field takes whose items are text and which may be
/// written as one bare item.
pub open spec fn flat_text_shapes() -> Seq<Shape> {
    seq![Shape::String, Shape::Array]
}

/// The shapes a list field takes whose items may be written as their name
/// alone and which may be written as one bare item.
pub open spec fn flat_named_shapes() -> Seq<Shape> {
    seq![Shape::String, Shape::Object, Shape::Array]
}

/// The shapes a list field takes whose items may be written as their
/// position alone and which may be written as one bare item.
pub open spec fn flat_numbered_shapes() -> Seq<Shape> {
    seq![Shape::Natural, Shape::Object, Shape::Array]
}

/// The error for a value of the wrong shape under `field`.
pub open spec fn mismatch(field: Seq<char>, expected: Seq<Shape>, actual: Shape) -> Fault {
    Fault::ShapeMismatch { field, expected, actual }
}


} // verus!
