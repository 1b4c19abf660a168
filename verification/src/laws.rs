//! What holds of every split, of every length and of every iteration.
use crate::length::{length_links, LengthPolicy};
use crate::locate::sole_target;
use crate::model::{
    drained, enumeration, extracted, finite, flattened, least, length, longest, recurses,
    remaining, shortest, split_cell, split_left, split_right, tags, Cell,
};
use crate::schema::{field_strategy, search, Field, Group};
use crate::split::{initializer, place_text, split_entry};
use crate::strategy::{recognized, Strategy};
use vstd::prelude::*;

verus! {

/// Whether `bound` is what `shortest` says of the record: it is at most
/// `usize::MAX` and at most the length of any field that recurses, and it is
/// `usize::MAX` or the length of one of them.
pub open spec fn is_shortest(record: Seq<Cell>, bound: nat) -> bool {
    &&& bound <= usize::MAX
    &&& forall|i: int|
        0 <= i < record.len() && (#[trigger] record[i]).strategy == Strategy::Recurse ==> bound
            <= record[i].items.len()
    &&& bound == usize::MAX || exists|i: int|
        0 <= i < record.len() && (#[trigger] record[i]).strategy == Strategy::Recurse
            && record[i].items.len() == bound
}

/// Whether `bound` is what `longest` says of the record: it is at least the
/// length of any field that recurses, and it is zero or the length of one of
/// them.
pub open spec fn is_longest(record: Seq<Cell>, bound: nat) -> bool {
    &&& forall|i: int|
        0 <= i < record.len() && (#[trigger] record[i]).strategy == Strategy::Recurse
            ==> record[i].items.len() <= bound
    &&& bound == 0 || exists|i: int|
        0 <= i < record.len() && (#[trigger] record[i]).strategy == Strategy::Recurse
            && record[i].items.len() == bound
}

/// `shortest` is the shortest.
pub proof fn lemma_shortest(record: Seq<Cell>)
    ensures
        is_shortest(record, shortest(record)),
    decreases record.len(),
{
    if record.len() > 0 {
        let front = record.drop_last();
        lemma_shortest(front);
        let bound = shortest(record);
        assert forall|i: int|
            0 <= i < record.len() && (#[trigger] record[i]).strategy
                == Strategy::Recurse implies bound <= record[i].items.len() by {
            if i < front.len() {
                assert(front[i] == record[i]);
            }
        }
        if bound != usize::MAX {
            if record.last().strategy == Strategy::Recurse && record.last().items.len() == bound {
                assert(record[record.len() - 1] == record.last());
            } else {
                let i = choose|i: int|
                    0 <= i < front.len() && (#[trigger] front[i]).strategy == Strategy::Recurse
                        && front[i].items.len() == shortest(front);
                assert(record[i] == front[i]);
            }
        }
    }
}

/// Nothing but `shortest` is the shortest.
pub proof fn lemma_shortest_is_unique(record: Seq<Cell>, bound: nat)
    requires
        is_shortest(record, bound),
    ensures
        bound == shortest(record),
{
    lemma_shortest(record);
}

/// `longest` is the longest.
pub proof fn lemma_longest(record: Seq<Cell>)
    ensures
        is_longest(record, longest(record)),
    decreases record.len(),
{
    if record.len() > 0 {
        let front = record.drop_last();
        lemma_longest(front);
        let bound = longest(record);
        assert forall|i: int|
            0 <= i < record.len() && (#[trigger] record[i]).strategy
                == Strategy::Recurse implies record[i].items.len() <= bound by {
            if i < front.len() {
                assert(front[i] == record[i]);
            }
        }
        if bound != 0 {
            if record.last().strategy == Strategy::Recurse && record.last().items.len() == bound {
                assert(record[record.len() - 1] == record.last());
            } else {
                let i = choose|i: int|
                    0 <= i < front.len() && (#[trigger] front[i]).strategy == Strategy::Recurse
                        && front[i].items.len() == longest(front);
                assert(record[i] == front[i]);
            }
        }
    }
}

/// Nothing but `longest` is the longest.
pub proof fn lemma_longest_is_unique(record: Seq<Cell>, bound: nat)
    requires
        is_longest(record, bound),
    ensures
        bound == longest(record),
{
    lemma_longest(record);
}

/// Both halves of a split have the fields of the record,
/// in the order of the record: as many fields, each with the strategy that
/// the field at its position had, and each made from that field alone.
pub proof fn lemma_split_preserves_order(record: Seq<Cell>, index: nat)
    ensures
        split_left(record, index).len() == record.len(),
        split_right(record, index).len() == record.len(),
        tags(split_left(record, index)) == tags(record),
        tags(split_right(record, index)) == tags(record),
        forall|i: int|
            0 <= i < record.len() ==> #[trigger] split_left(record, index)[i] == split_cell(
                record[i],
                index,
            ).0,
        forall|i: int|
            0 <= i < record.len() ==> #[trigger] split_right(record, index)[i] == split_cell(
                record[i],
                index,
            ).1,
{
    assert(tags(split_left(record, index)) =~= tags(record));
    assert(tags(split_right(record, index)) =~= tags(record));
}

/// What a split gives to each half of a field: a field
/// that is cloned or copied is whole on both sides; a field that defaults is
/// whole on the left and empty on the right; a field that recurses is cut as
/// a sequence is cut at the index, so that the left half followed by the
/// right half is the field again.
pub proof fn lemma_split_follows_strategy(record: Seq<Cell>, index: nat, i: int)
    requires
        0 <= i < record.len(),
    ensures
        record[i].strategy == Strategy::CloneBoth || record[i].strategy == Strategy::CopyBoth ==> {
            &&& split_left(record, index)[i] == record[i]
            &&& split_right(record, index)[i] == record[i]
        },
        record[i].strategy == Strategy::DefaultRight ==> {
            &&& split_left(record, index)[i] == record[i]
            &&& split_right(record, index)[i].items == Seq::<u64>::empty()
        },
        record[i].strategy == Strategy::Recurse ==> {
            &&& index <= record[i].items.len() ==> {
                &&& split_left(record, index)[i].items == record[i].items.take(index as int)
                &&& split_right(record, index)[i].items == record[i].items.skip(index as int)
            }
            &&& index > record[i].items.len() ==> {
                &&& split_left(record, index)[i].items == record[i].items
                &&& split_right(record, index)[i].items == Seq::<u64>::empty()
            }
            &&& split_left(record, index)[i].items + split_right(record, index)[i].items
                == record[i].items
        },
{
    if record[i].strategy == Strategy::Recurse {
        let items = record[i].items;
        let cut = least(index, items.len()) as int;
        assert(items.take(cut) + items.skip(cut) == items);
        if index > items.len() {
            assert(items.take(cut) == items);
            assert(items.skip(cut) == Seq::<u64>::empty());
        }
    }
}

/// A record of which no field recurses has the length that stands for no
/// bound, under both policies; but a record without any field has length
/// zero where the longest field counts.
pub proof fn lemma_length_without_recursion(record: Seq<Cell>)
    requires
        !recurses(record),
    ensures
        length(record, LengthPolicy::Bounded) == usize::MAX,
        length(record, LengthPolicy::Unbounded) == if record.len() == 0 {
            0nat
        } else {
            usize::MAX as nat
        },
{
    assert(is_shortest(record, usize::MAX as nat));
    lemma_shortest_is_unique(record, usize::MAX as nat);
}

/// The length of a record is the least of the lengths of its fields that
/// recurse where the shortest counts, and the greatest of them where the
/// longest counts.
pub proof fn lemma_length_aggregates(record: Seq<Cell>, i: int)
    requires
        0 <= i < record.len(),
        record[i].strategy == Strategy::Recurse,
    ensures
        length(record, LengthPolicy::Bounded) <= record[i].items.len(),
        length(record, LengthPolicy::Unbounded) >= record[i].items.len(),
        is_shortest(record, length(record, LengthPolicy::Bounded)),
        is_longest(record, length(record, LengthPolicy::Unbounded)),
{
    lemma_shortest(record);
    lemma_longest(record);
}

/// Of a record with a field that recurses: a split at index 0 leaves a left
/// half of length 0 and a right half as long as the record; a split at the
/// length of the record leaves a left half as long as the record and a right
/// half of length 0.
pub proof fn lemma_split_at_boundaries(record: Seq<Cell>, policy: LengthPolicy)
    requires
        finite(record),
        recurses(record),
    ensures
        length(split_left(record, 0), policy) == 0,
        length(split_right(record, 0), policy) == length(record, policy),
        length(split_left(record, length(record, policy)), policy) == length(record, policy),
        length(split_right(record, length(record, policy)), policy) == 0,
{
    let witness = choose|i: int|
        0 <= i < record.len() && (#[trigger] record[i]).strategy == Strategy::Recurse;
    let whole = length(record, policy);
    let start_left = split_left(record, 0);
    let start_right = split_right(record, 0);
    let end_left = split_left(record, whole);
    let end_right = split_right(record, whole);
    lemma_shortest(record);
    lemma_longest(record);
    assert(start_left[witness].strategy == Strategy::Recurse);
    assert(start_right[witness].strategy == Strategy::Recurse);
    assert(end_left[witness].strategy == Strategy::Recurse);
    assert(end_right[witness].strategy == Strategy::Recurse);
    assert(recurses(start_left) && recurses(start_right) && recurses(end_left) && recurses(
        end_right,
    ));
    assert(forall|i: int|
        0 <= i < record.len() && record[i].strategy == Strategy::Recurse ==> (
        #[trigger] start_right[i]).items == record[i].items);
    match policy {
        LengthPolicy::Bounded => {
            assert(is_shortest(start_left, 0)) by {
                assert(start_left[witness].items.len() == 0);
            }
            lemma_shortest_is_unique(start_left, 0);
            assert(is_shortest(start_right, whole)) by {
                if whole != usize::MAX {
                    let i = choose|i: int|
                        0 <= i < record.len() && (#[trigger] record[i]).strategy
                            == Strategy::Recurse && record[i].items.len() == whole;
                    assert(start_right[i].items.len() == whole);
                }
            }
            lemma_shortest_is_unique(start_right, whole);
            assert(is_shortest(end_left, whole)) by {
                assert(end_left[witness].items.len() == whole);
            }
            lemma_shortest_is_unique(end_left, whole);
            assert(is_shortest(end_right, 0)) by {
                if whole != usize::MAX {
                    let i = choose|i: int|
                        0 <= i < record.len() && (#[trigger] record[i]).strategy
                            == Strategy::Recurse && record[i].items.len() == whole;
                    assert(end_right[i].items.len() == 0);
                } else {
                    assert(record[witness].items.len() == whole);
                    assert(end_right[witness].items.len() == 0);
                }
            }
            lemma_shortest_is_unique(end_right, 0);
        },
        LengthPolicy::Unbounded => {
            assert(is_longest(start_left, 0));
            lemma_longest_is_unique(start_left, 0);
            assert(is_longest(start_right, whole)) by {
                if whole != 0 {
                    let i = choose|i: int|
                        0 <= i < record.len() && (#[trigger] record[i]).strategy
                            == Strategy::Recurse && record[i].items.len() == whole;
                    assert(start_right[i].items.len() == whole);
                }
            }
            lemma_longest_is_unique(start_right, whole);
            assert(is_longest(end_left, whole)) by {
                assert forall|i: int|
                    0 <= i < end_left.len() && (#[trigger] end_left[i]).strategy
                        == Strategy::Recurse implies end_left[i].items.len() <= whole by {
                    assert(record[i].strategy == Strategy::Recurse);
                }
                if whole != 0 {
                    let i = choose|i: int|
                        0 <= i < record.len() && (#[trigger] record[i]).strategy
                            == Strategy::Recurse && record[i].items.len() == whole;
                    assert(end_left[i].items.len() == whole);
                }
            }
            lemma_longest_is_unique(end_left, whole);
            assert(is_longest(end_right, 0)) by {
                assert forall|i: int|
                    0 <= i < end_right.len() && (#[trigger] end_right[i]).strategy
                        == Strategy::Recurse implies end_right[i].items.len() <= 0 by {
                    assert(record[i].strategy == Strategy::Recurse);
                }
            }
            lemma_longest_is_unique(end_right, 0);
        },
    }
}

/// The length of a record that iterates on one field is the length of that
/// field.
pub proof fn lemma_length_of_sole_target(record: Seq<Cell>, target: int)
    requires
        sole_target(tags(record), target),
        record[target].items.len() <= usize::MAX,
    ensures
        length(record, LengthPolicy::Bounded) == record[target].items.len(),
{
    let bound = record[target].items.len();
    assert(is_shortest(record, bound)) by {
        assert forall|i: int|
            0 <= i < record.len() && (#[trigger] record[i]).strategy
                == Strategy::Recurse implies bound <= record[i].items.len() by {
            assert(tags(record)[i] == Strategy::Recurse);
        }
        assert(tags(record)[target] == record[target].strategy);
    }
    lemma_shortest_is_unique(record, bound);
}

/// Handing out items takes them off the front of the field that the record
/// iterates on and touches nothing else: the items handed out, followed by
/// those that the field keeps, are the items that it had; its strategy and
/// every other field stay as they were.
pub proof fn lemma_extraction_carries_the_rest(record: Seq<Cell>, target: int, size: nat)
    requires
        0 <= target < record.len(),
    ensures
        remaining(record, target, size).len() == record.len(),
        tags(remaining(record, target, size)) == tags(record),
        extracted(record, target, size) + remaining(record, target, size)[target].items
            == record[target].items,
        size <= record[target].items.len() ==> extracted(record, target, size).len() == size,
        forall|i: int|
            0 <= i < record.len() && i != target ==> #[trigger] remaining(record, target, size)[i]
                == record[i],
{
    let items = record[target].items;
    let cut = least(size, items.len()) as int;
    assert(items.take(cut) + items.skip(cut) == items);
    assert(tags(remaining(record, target, size)) =~= tags(record));
}

/// Whatever the sizes of the blocks, the iteration from
/// outside gives the items of the record in their own order: item `k` of the
/// output is item `k` of the field that the record iterates on.
pub proof fn lemma_flattened_is_enumeration(record: Seq<Cell>, target: int, sizes: Seq<usize>)
    requires
        sole_target(tags(record), target),
        record[target].items.len() <= usize::MAX,
    ensures
        flattened(record, target, sizes) == enumeration(record, target),
    decreases sizes.len(),
{
    let items = record[target].items;
    lemma_length_of_sole_target(record, target);
    assert(tags(record)[target] == record[target].strategy);
    if sizes.len() == 0 {
        assert(items.take(items.len() as int) == items);
    } else {
        let size = least(sizes[0] as nat, length(record, LengthPolicy::Bounded));
        let block = split_left(record, size);
        let rest = split_right(record, size);
        lemma_split_preserves_order(record, size);
        lemma_length_of_sole_target(block, target);
        lemma_flattened_is_enumeration(rest, target, sizes.drop_first());
        assert(block[target].items == items.take(size as int));
        assert(rest[target].items == items.skip(size as int));
        assert(drained(block, target) == items.take(size as int)) by {
            let part = items.take(size as int);
            assert(part.take(part.len() as int) == part);
        }
        assert(items.take(size as int) + items.skip(size as int) == items);
    }
}

/// A field whose `divide_by` token is outside
/// the vocabulary is divided as `bare` is, the same field without any
/// attribute: both recurse, and what is written for the one at any position
/// is what is written for the other.
pub proof fn lemma_unrecognized_token_divides_as_unannotated(
    field: Field,
    token: Group,
    bare: Field,
    named: bool,
    position: nat,
    at_index: bool,
    side: nat,
)
    requires
        search(field.attrs@, "divide_by"@) == Some(token),
        !recognized(token.stream@),
        bare.attrs@.len() == 0,
        bare.ident == field.ident,
    ensures
        field_strategy(field) == Strategy::Recurse,
        field_strategy(bare) == Strategy::Recurse,
        split_entry(place_text(named, field, position), field_strategy(field), at_index)
            == split_entry(place_text(named, bare, position), field_strategy(bare), at_index),
        initializer(named, field, position, side) == initializer(named, bare, position, side),
        length_links(named, seq![field]) == length_links(named, seq![bare]),
{
    assert(seq![field].drop_last() == Seq::<Field>::empty());
    assert(seq![bare].drop_last() == Seq::<Field>::empty());
    assert(seq![field].last() == field);
    assert(seq![bare].last() == bare);
}

} // verus!
