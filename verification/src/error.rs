//! Why a derivation is refused.
use vstd::prelude::*;
use vstd::string::*;

verus! {

/// A declaration that a record carries as an attribute of its own.
#[derive(Clone, Copy, Debug, PartialEq, Eq, Structural)]
pub enum Declaration {
    /// `power`: the kind of divisibility of the record.
    Power,
    /// `item`: the type of the items that the record iterates on.
    Item,
    /// `sequential_iterator`: the type of its sequential iterator.
    SequentialIterator,
    /// `iterator_extraction`: the expression that builds that iterator.
    IteratorExtraction,
}

/// Why nothing was written for a record.
#[derive(Clone, Copy, Debug, PartialEq, Eq, Structural)]
pub enum DeriveError {
    /// The record lacks a declaration that the derivation needs.
    MissingDeclaration(Declaration),
    /// The record has no field, or more than one, that could be the sequence
    /// it iterates on.
    AmbiguousIterationTarget,
    /// The record is an enum or a union.
    UnsupportedShape,
}

impl Declaration {
    /// The name of the attribute that holds the declaration.
    pub open spec fn name(self) -> Seq<char> {
        match self {
            Declaration::Power => "power"@,
            Declaration::Item => "item"@,
            Declaration::SequentialIterator => "sequential_iterator"@,
            Declaration::IteratorExtraction => "iterator_extraction"@,
        }
    }

    /// The name of the attribute that holds the declaration.
    pub fn attribute_name(self) -> (name: &'static str)
        ensures
            name@ == self.name(),
    {
        match self {
            Declaration::Power => "power",
            Declaration::Item => "item",
            Declaration::SequentialIterator => "sequential_iterator",
            Declaration::IteratorExtraction => "iterator_extraction",
        }
    }
}

impl DeriveError {
    /// The diagnostic, as text.
    pub open spec fn text(self) -> Seq<char> {
        match self {
            DeriveError::MissingDeclaration(declaration) => "missing "@ + declaration.name()
                + " attribute"@,
            DeriveError::AmbiguousIterationTarget => "exactly one field must be divided recursively"@,
            DeriveError::UnsupportedShape => "only structs can be divided"@,
        }
    }

    /// The diagnostic that the build shows.
    pub fn message(&self) -> (message: String)
        ensures
            message@ == self.text(),
    {
        match self {
            DeriveError::MissingDeclaration(declaration) => {
                let mut message = String::from_str("missing ");
                message.append(declaration.attribute_name());
                message.append(" attribute");
                message
            },
            DeriveError::AmbiguousIterationTarget => String::from_str(
                "exactly one field must be divided recursively",
            ),
            DeriveError::UnsupportedShape => String::from_str("only structs can be divided"),
        }
    }
}

} // verus!
