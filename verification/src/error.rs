//! The error taxonomy of the crate. Every fallible operation reports the
//! first failure it meets and stops; there is no recovery and no error
//! accumulation.

use vstd::prelude::*;

verus! {

/// Why parsing, translation or evaluation of a document failed.
#[derive(Debug, PartialEq, Eq)]
pub enum CrgError {
    /// The external recognizer rejected the source text.
    ParseFailure(String),
    /// A parse-tree node had a shape its rule can never produce.
    MalformedNode(String),
    /// A parse-tree node used a rule the translator does not know.
    UnsupportedConstruct(String),
    /// A name was bound twice in the same lexical frame.
    DuplicateBinding(String),
    /// A reference named a symbol no enclosing frame binds.
    UnresolvedReference(String),
    /// An assignment whose value does not fit the symbol's declared kind.
    KindMismatch(String),
    /// An operator or type pairing whose meaning is intentionally left open.
    Unimplemented,
    /// An additive effect left the range of the machine integer.
    IntegerOverflow,
}

/// Model of an error.
pub enum SpecCrgError {
    ParseFailure(Seq<char>),
    MalformedNode(Seq<char>),
    UnsupportedConstruct(Seq<char>),
    DuplicateBinding(Seq<char>),
    UnresolvedReference(Seq<char>),
    KindMismatch(Seq<char>),
    Unimplemented,
    IntegerOverflow,
}

impl View for CrgError {
    type V = SpecCrgError;

    open spec fn view(&self) -> SpecCrgError {
        match self {
            CrgError::ParseFailure(s) => SpecCrgError::ParseFailure(s@),
            CrgError::MalformedNode(s) => SpecCrgError::MalformedNode(s@),
            CrgError::UnsupportedConstruct(s) => SpecCrgError::UnsupportedConstruct(s@),
            CrgError::DuplicateBinding(s) => SpecCrgError::DuplicateBinding(s@),
            CrgError::UnresolvedReference(s) => SpecCrgError::UnresolvedReference(s@),
            CrgError::KindMismatch(s) => SpecCrgError::KindMismatch(s@),
            CrgError::Unimplemented => SpecCrgError::Unimplemented,
            CrgError::IntegerOverflow => SpecCrgError::IntegerOverflow,
        }
    }
}

impl Clone for CrgError {
    fn clone(&self) -> (r: Self)
        ensures
            r@ == self@,
    {
        match self {
            CrgError::ParseFailure(s) => CrgError::ParseFailure(s.clone()),
            CrgError::MalformedNode(s) => CrgError::MalformedNode(s.clone()),
            CrgError::UnsupportedConstruct(s) => CrgError::UnsupportedConstruct(s.clone()),
            CrgError::DuplicateBinding(s) => CrgError::DuplicateBinding(s.clone()),
            CrgError::UnresolvedReference(s) => CrgError::UnresolvedReference(s.clone()),
            CrgError::KindMismatch(s) => CrgError::KindMismatch(s.clone()),
            CrgError::Unimplemented => CrgError::Unimplemented,
            CrgError::IntegerOverflow => CrgError::IntegerOverflow,
        }
    }
}

/// The human-readable description of an error.
pub open spec fn spec_message(e: SpecCrgError) -> Seq<char> {
    match e {
        SpecCrgError::ParseFailure(s) => "parse failure: "@ + s,
        SpecCrgError::MalformedNode(s) => "malformed node for rule "@ + s,
        SpecCrgError::UnsupportedConstruct(s) => "unsupported construct: "@ + s,
        SpecCrgError::DuplicateBinding(s) => "duplicate binding: "@ + s,
        SpecCrgError::UnresolvedReference(s) => "unresolved reference: "@ + s,
        SpecCrgError::KindMismatch(s) => "value does not fit the declared kind of "@ + s,
        SpecCrgError::Unimplemented => "operation not implemented for this pairing"@,
        SpecCrgError::IntegerOverflow => "integer overflow"@,
    }
}

impl CrgError {
    /// Renders the error as one descriptive line.
    pub fn message(&self) -> (r: String)
        ensures
            r@ == spec_message(self@),
    {
        match self {
            CrgError::ParseFailure(s) => {
                let mut m = String::from_str("parse failure: ");
                m.append(s.as_str());
                m
            },
            CrgError::MalformedNode(s) => {
                let mut m = String::from_str("malformed node for rule ");
                m.append(s.as_str());
                m
            },
            CrgError::UnsupportedConstruct(s) => {
                let mut m = String::from_str("unsupported construct: ");
                m.append(s.as_str());
                m
            },
            CrgError::DuplicateBinding(s) => {
                let mut m = String::from_str("duplicate binding: ");
                m.append(s.as_str());
                m
            },
            CrgError::UnresolvedReference(s) => {
                let mut m = String::from_str("unresolved reference: ");
                m.append(s.as_str());
                m
            },
            CrgError::KindMismatch(s) => {
                let mut m = String::from_str("value does not fit the declared kind of ");
                m.append(s.as_str());
                m
            },
            CrgError::Unimplemented => String::from_str(
                "operation not implemented for this pairing",
            ),
            CrgError::IntegerOverflow => String::from_str("integer overflow"),
        }
    }
}

} // verus!
