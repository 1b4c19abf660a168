//! The strategy resolver: from a field's annotation to its strategy.
use crate::text::{compact, same_text, without_spaces};
use vstd::prelude::*;

verus! {

/// What each half of a split receives from one field.
#[derive(Clone, Copy, Debug, PartialEq, Eq, Structural)]
pub enum Strategy {
    /// The field is itself divisible and is split along with its record.
    Recurse,
    /// Both halves receive an independent duplicate of the value.
    CloneBoth,
    /// Both halves receive a bitwise copy of the value.
    CopyBoth,
    /// The left half keeps the value, the right half receives the default.
    DefaultRight,
}

/// The strategy that an annotation token stands for. Spaces between the
/// pieces of the token do not count; whatever is not in the vocabulary stands
/// for `Recurse`.
pub open spec fn resolve_token(token: Seq<char>) -> Strategy {
    let word = compact(token);
    if word == "clone"@ {
        Strategy::CloneBoth
    } else if word == "copy"@ {
        Strategy::CopyBoth
    } else if word == "default"@ {
        Strategy::DefaultRight
    } else {
        Strategy::Recurse
    }
}

/// The strategy of a field with the given annotation, if it has one.
pub open spec fn resolve_annotation(annotation: Option<Seq<char>>) -> Strategy {
    match annotation {
        Some(token) => resolve_token(token),
        None => Strategy::Recurse,
    }
}

/// Whether the vocabulary holds the token.
pub open spec fn recognized(token: Seq<char>) -> bool {
    let word = compact(token);
    word == "clone"@ || word == "copy"@ || word == "default"@
}

/// Resolves one annotation token.
pub fn strategy_of_token(token: &str) -> (strategy: Strategy)
    ensures
        strategy == resolve_token(token@),
{
    let word = without_spaces(token);
    if same_text(word.as_str(), "clone") {
        Strategy::CloneBoth
    } else if same_text(word.as_str(), "copy") {
        Strategy::CopyBoth
    } else if same_text(word.as_str(), "default") {
        Strategy::DefaultRight
    } else {
        Strategy::Recurse
    }
}

/// Tells whether the vocabulary holds the token.
pub fn token_is_recognized(token: &str) -> (known: bool)
    ensures
        known == recognized(token@),
{
    let word = without_spaces(token);
    same_text(word.as_str(), "clone") || same_text(word.as_str(), "copy") || same_text(
        word.as_str(),
        "default",
    )
}

/// A token outside the vocabulary resolves as no annotation at all does.
pub proof fn lemma_unrecognized_token_is_unannotated(token: Seq<char>)
    requires
        !recognized(token),
    ensures
        resolve_annotation(Some(token)) == resolve_annotation(None),
        resolve_token(token) == Strategy::Recurse,
{
}

} // verus!
