//! The single-child locator: the one field that a record iterates on.
use crate::error::DeriveError;
use crate::strategy::Strategy;
use vstd::prelude::*;

verus! {

/// Whether `target` is the position of the only field that recurses.
pub open spec fn sole_target(tags: Seq<Strategy>, target: int) -> bool {
    &&& 0 <= target < tags.len()
    &&& tags[target] == Strategy::Recurse
    &&& forall|other: int|
        0 <= other < tags.len() && tags[other] == Strategy::Recurse ==> other == target
}

/// Whether exactly one field recurses.
pub open spec fn has_sole_target(tags: Seq<Strategy>) -> bool {
    exists|target: int| sole_target(tags, target)
}

/// How many fields recurse.
pub open spec fn recursing(tags: Seq<Strategy>) -> nat
    decreases tags.len(),
{
    if tags.len() == 0 {
        0
    } else if tags.last() == Strategy::Recurse {
        recursing(tags.drop_last()) + 1
    } else {
        recursing(tags.drop_last())
    }
}

/// No field recurses exactly where the count of those that do is zero.
pub proof fn lemma_none_recursing(tags: Seq<Strategy>)
    ensures
        recursing(tags) == 0 <==> forall|i: int| 0 <= i < tags.len() ==> tags[i] != Strategy::Recurse,
    decreases tags.len(),
{
    if tags.len() > 0 {
        let front = tags.drop_last();
        lemma_none_recursing(front);
        if recursing(tags) == 0 {
            assert forall|i: int| 0 <= i < tags.len() implies tags[i] != Strategy::Recurse by {
                if i < front.len() {
                    assert(front[i] == tags[i]);
                }
            }
        }
        if forall|i: int| 0 <= i < tags.len() ==> tags[i] != Strategy::Recurse {
            assert forall|i: int| 0 <= i < front.len() implies front[i] != Strategy::Recurse by {
                assert(front[i] == tags[i]);
            }
        }
    }
}

/// A record has a field to iterate on exactly where
/// one of its fields recurses and no other: with none, and with two or more,
/// it has not.
pub proof fn lemma_single_child_uniqueness(tags: Seq<Strategy>)
    ensures
        has_sole_target(tags) <==> recursing(tags) == 1,
    decreases tags.len(),
{
    if tags.len() == 0 {
        assert forall|target: int| !sole_target(tags, target) by {}
    } else {
        let front = tags.drop_last();
        let end = tags.len() - 1;
        lemma_single_child_uniqueness(front);
        lemma_none_recursing(front);
        if tags.last() == Strategy::Recurse {
            if recursing(tags) == 1 {
                assert forall|other: int|
                    0 <= other < tags.len() && tags[other] == Strategy::Recurse implies other
                    == end by {
                    if other < end {
                        assert(front[other] == tags[other]);
                    }
                }
                assert(sole_target(tags, end));
            }
            if has_sole_target(tags) {
                let target = choose|target: int| sole_target(tags, target);
                assert(target == end);
                assert forall|i: int| 0 <= i < front.len() implies front[i]
                    != Strategy::Recurse by {
                    assert(front[i] == tags[i]);
                }
            }
        } else {
            if has_sole_target(front) {
                let target = choose|target: int| sole_target(front, target);
                assert(tags[target] == front[target]);
                assert forall|other: int|
                    0 <= other < tags.len() && tags[other] == Strategy::Recurse implies other
                    == target by {
                    assert(front[other] == tags[other]);
                }
                assert(sole_target(tags, target));
            }
            if has_sole_target(tags) {
                let target = choose|target: int| sole_target(tags, target);
                assert(front[target] == tags[target]);
                assert forall|other: int|
                    0 <= other < front.len() && front[other] == Strategy::Recurse implies other
                    == target by {
                    assert(front[other] == tags[other]);
                }
                assert(sole_target(front, target));
            }
        }
    }
}

/// Finds the field that the record iterates on: the only one that recurses.
/// With none, or with several of them, there is no telling which sequence
/// the record stands for, and the search fails.
pub fn find_single_child(tags: &[Strategy]) -> (found: Result<usize, DeriveError>)
    ensures
        found matches Ok(target) ==> sole_target(tags@, target as int),
        found matches Err(error) ==> !has_sole_target(tags@) && error
            == DeriveError::AmbiguousIterationTarget,
{
    let mut found: Option<usize> = None;
    let mut at: usize = 0;
    while at < tags.len()
        invariant
            at <= tags.len(),
            found matches Some(target) ==> target < at && sole_target(
                tags@.take(at as int),
                target as int,
            ),
            found is None ==> forall|i: int| 0 <= i < at ==> tags[i] != Strategy::Recurse,
        decreases tags.len() - at,
    {
        if tags[at] == Strategy::Recurse {
            if found.is_some() {
                proof {
                    let first = found.unwrap() as int;
                    assert forall|target: int| !sole_target(tags@, target) by {
                        if sole_target(tags@, target) {
                            assert(tags@.take(at as int)[first] == tags[first]);
                            assert(first == target);
                            assert(at as int == target);
                        }
                    }
                }
                return Err(DeriveError::AmbiguousIterationTarget);
            }
            found = Some(at);
        }
        at += 1;
    }
    assert(tags@.take(at as int) == tags@);
    match found {
        Some(target) => Ok(target),
        None => Err(DeriveError::AmbiguousIterationTarget),
    }
}

} // verus!
