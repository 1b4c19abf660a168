//! What the derived operations do to a record.
//!
//! In the model every field holds a sequence of items. A field that recurses
//! is divided like a slice: the items before the index go left, the others
//! go right, and a field shorter than the index gives all it has to the
//! left. The other fields are passengers: they have no length, and each half
//! gets what the strategy says.
use crate::error::DeriveError;
use crate::length::LengthPolicy;
use crate::locate::{find_single_child, has_sole_target, sole_target};
use crate::schema::{resolve_strategies, strategies, Fields};
use crate::strategy::Strategy;
use crate::laws::{lemma_flattened_is_enumeration, lemma_split_preserves_order};
use vstd::prelude::*;

verus! {

/// The value of one field of a record, with the strategy of the field.
#[derive(Debug, PartialEq, Eq)]
pub struct FieldValue {
    /// How the field is divided.
    pub strategy: Strategy,
    /// What the field holds.
    pub items: Vec<u64>,
}

/// The value of one field, as mathematics sees it.
pub struct Cell {
    /// How the field is divided.
    pub strategy: Strategy,
    /// What the field holds.
    pub items: Seq<u64>,
}

impl View for FieldValue {
    type V = Cell;

    open spec fn view(&self) -> Cell {
        Cell { strategy: self.strategy, items: self.items@ }
    }
}

/// A record, field by field in the order of its declaration.
pub open spec fn cells(record: Seq<FieldValue>) -> Seq<Cell> {
    Seq::new(record.len(), |i: int| record[i]@)
}

/// The strategies of the fields of a record.
pub open spec fn tags(record: Seq<Cell>) -> Seq<Strategy> {
    Seq::new(record.len(), |i: int| record[i].strategy)
}

/// Whether every field of the record fits in memory.
pub open spec fn finite(record: Seq<Cell>) -> bool {
    forall|i: int| 0 <= i < record.len() ==> (#[trigger] record[i]).items.len() <= usize::MAX
}

/// Whether some field of the record recurses.
pub open spec fn recurses(record: Seq<Cell>) -> bool {
    exists|i: int| 0 <= i < record.len() && (#[trigger] record[i]).strategy == Strategy::Recurse
}

/// The smaller of two numbers.
pub open spec fn least(a: nat, b: nat) -> nat {
    if a <= b {
        a
    } else {
        b
    }
}

/// The length of the shortest field that recurses; `usize::MAX` where none
/// does. A field that long or longer counts as without bound.
pub open spec fn shortest(record: Seq<Cell>) -> nat
    decreases record.len(),
{
    if record.len() == 0 {
        usize::MAX as nat
    } else if record.last().strategy == Strategy::Recurse {
        least(shortest(record.drop_last()), record.last().items.len())
    } else {
        shortest(record.drop_last())
    }
}

/// The length of the longest field that recurses; zero where none does.
pub open spec fn longest(record: Seq<Cell>) -> nat
    decreases record.len(),
{
    if record.len() == 0 {
        0
    } else if record.last().strategy == Strategy::Recurse && record.last().items.len() > longest(
        record.drop_last(),
    ) {
        record.last().items.len()
    } else {
        longest(record.drop_last())
    }
}

/// The length of a record.
pub open spec fn length(record: Seq<Cell>, policy: LengthPolicy) -> nat {
    match policy {
        LengthPolicy::Bounded => shortest(record),
        LengthPolicy::Unbounded => if record.len() == 0 {
            0
        } else if !recurses(record) {
            usize::MAX as nat
        } else {
            longest(record)
        },
    }
}

/// The two halves of one field.
pub open spec fn split_cell(cell: Cell, index: nat) -> (Cell, Cell) {
    match cell.strategy {
        Strategy::Recurse => {
            let cut = least(index, cell.items.len()) as int;
            (
                Cell { strategy: cell.strategy, items: cell.items.take(cut) },
                Cell { strategy: cell.strategy, items: cell.items.skip(cut) },
            )
        },
        Strategy::CloneBoth => (cell, cell),
        Strategy::CopyBoth => (cell, cell),
        Strategy::DefaultRight => (cell, Cell { strategy: cell.strategy, items: Seq::empty() }),
    }
}

/// The left half of a record: of every field, in order, its left half.
pub open spec fn split_left(record: Seq<Cell>, index: nat) -> Seq<Cell> {
    Seq::new(record.len(), |i: int| split_cell(record[i], index).0)
}

/// The right half of a record: of every field, in order, its right half.
pub open spec fn split_right(record: Seq<Cell>, index: nat) -> Seq<Cell> {
    Seq::new(record.len(), |i: int| split_cell(record[i], index).1)
}

/// The items that a record iterates on: those of the field at `target`.
pub open spec fn enumeration(record: Seq<Cell>, target: int) -> Seq<u64> {
    record[target].items
}

/// The next `size` items of a record, or all of them if there are fewer.
pub open spec fn extracted(record: Seq<Cell>, target: int, size: nat) -> Seq<u64> {
    record[target].items.take(least(size, record[target].items.len()) as int)
}

/// The record after its next `size` items were handed out: the field at
/// `target` has lost them, the other fields are as they were.
pub open spec fn remaining(record: Seq<Cell>, target: int, size: nat) -> Seq<Cell> {
    record.update(
        target,
        Cell {
            strategy: record[target].strategy,
            items: record[target].items.skip(least(size, record[target].items.len()) as int),
        },
    )
}

/// All the items of a record, handed out at once.
pub open spec fn drained(record: Seq<Cell>, target: int) -> Seq<u64> {
    extracted(record, target, length(record, LengthPolicy::Bounded))
}

/// The items of a record as the iteration from outside gives them: one block
/// is cut off the front of the record for every size, none longer than what
/// is left, and drained; what is left at the end is drained too.
pub open spec fn flattened(record: Seq<Cell>, target: int, sizes: Seq<usize>) -> Seq<u64>
    decreases sizes.len(),
{
    if sizes.len() == 0 {
        drained(record, target)
    } else {
        let size = least(sizes[0] as nat, length(record, LengthPolicy::Bounded));
        drained(split_left(record, size), target) + flattened(
            split_right(record, size),
            target,
            sizes.drop_first(),
        )
    }
}

/// The position of the only field that recurses, where there is one.
pub open spec fn target_of(record: Seq<Cell>) -> int {
    choose|target: int| sole_target(tags(record), target)
}

/// Copies the items from `from` up to `to`.
fn copy_range(items: &Vec<u64>, from: usize, to: usize) -> (copy: Vec<u64>)
    requires
        from <= to <= items.len(),
    ensures
        copy@ == items@.subrange(from as int, to as int),
{
    let mut copy: Vec<u64> = Vec::new();
    let mut at: usize = from;
    while at < to
        invariant
            from <= at <= to <= items.len(),
            copy@ == items@.subrange(from as int, at as int),
        decreases to - at,
    {
        copy.push(items[at]);
        at += 1;
    }
    copy
}

/// Reads the strategies of the fields of a record.
fn strategies_of(record: &Vec<FieldValue>) -> (read: Vec<Strategy>)
    ensures
        read@ == tags(cells(record@)),
{
    let mut read: Vec<Strategy> = Vec::new();
    let mut at: usize = 0;
    while at < record.len()
        invariant
            at <= record.len(),
            read@.len() == at,
            forall|i: int| 0 <= i < at ==> read@[i] == record@[i].strategy,
        decreases record.len() - at,
    {
        read.push(record[at].strategy);
        at += 1;
    }
    read
}

/// Gives every field of a struct its value: the fields in the order of the
/// declaration, each with its strategy. There must be one value for each
/// field.
pub fn instantiate(fields: &Fields, values: &Vec<Vec<u64>>) -> (record: Option<Vec<FieldValue>>)
    ensures
        record is Some <==> values@.len() == fields.list().len(),
        record matches Some(filled) ==> {
            &&& tags(cells(filled@)) == strategies(fields.list())
            &&& filled@.len() == values@.len()
            &&& forall|i: int| 0 <= i < filled@.len() ==> (#[trigger] filled@[i]).items@ == values@[i]@
        },
{
    let resolved = resolve_strategies(fields);
    if values.len() != resolved.len() {
        return None;
    }
    let mut filled: Vec<FieldValue> = Vec::new();
    let mut at: usize = 0;
    while at < values.len()
        invariant
            at <= values.len(),
            values.len() == resolved.len(),
            filled@.len() == at,
            forall|i: int|
                0 <= i < at ==> (#[trigger] filled@[i]).items@ == values@[i]@ && filled@[i].strategy
                    == resolved@[i],
        decreases values.len() - at,
    {
        let items = copy_range(&values[at], 0, values[at].len());
        filled.push(FieldValue { strategy: resolved[at], items });
        at += 1;
    }
    assert(tags(cells(filled@)) == resolved@);
    Some(filled)
}

/// Computes the length of a record.
pub fn base_length(record: &Vec<FieldValue>, policy: LengthPolicy) -> (total: usize)
    ensures
        total == length(cells(record@), policy),
{
    let ghost all = cells(record@);
    let mut low: usize = usize::MAX;
    let mut high: usize = 0;
    let mut found = false;
    let mut at: usize = 0;
    while at < record.len()
        invariant
            at <= record.len(),
            all == cells(record@),
            low == shortest(all.take(at as int)),
            high == longest(all.take(at as int)),
            found == recurses(all.take(at as int)),
        decreases record.len() - at,
    {
        proof {
            let seen = all.take(at as int);
            let next = all.take(at + 1);
            assert(next.drop_last() == seen);
            assert(next.last() == record@[at as int]@);
            if recurses(seen) {
                let i = choose|i: int|
                    0 <= i < seen.len() && (#[trigger] seen[i]).strategy == Strategy::Recurse;
                assert(next[i] == seen[i]);
            }
            if recurses(next) && next.last().strategy != Strategy::Recurse {
                let i = choose|i: int|
                    0 <= i < next.len() && (#[trigger] next[i]).strategy == Strategy::Recurse;
                assert(seen[i] == next[i]);
            }
        }
        if record[at].strategy == Strategy::Recurse {
            let here = record[at].items.len();
            if here < low {
                low = here;
            }
            if here > high {
                high = here;
            }
            found = true;
            assert(all.take(at + 1)[at as int].strategy == Strategy::Recurse);
        }
        at += 1;
    }
    assert(all.take(at as int) == all);
    match policy {
        LengthPolicy::Bounded => low,
        LengthPolicy::Unbounded => if record.len() == 0 {
            0
        } else if !found {
            usize::MAX
        } else {
            high
        },
    }
}

/// Divides one field at `index`.
fn divide_field(field: &FieldValue, index: usize) -> (halves: (FieldValue, FieldValue))
    ensures
        (halves.0@, halves.1@) == split_cell(field@, index as nat),
{
    let all = field.items.len();
    match field.strategy {
        Strategy::Recurse => {
            let cut = if index < all {
                index
            } else {
                all
            };
            let left = copy_range(&field.items, 0, cut);
            let right = copy_range(&field.items, cut, all);
            (
                FieldValue { strategy: field.strategy, items: left },
                FieldValue { strategy: field.strategy, items: right },
            )
        },
        Strategy::CloneBoth | Strategy::CopyBoth => {
            let left = copy_range(&field.items, 0, all);
            let right = copy_range(&field.items, 0, all);
            assert(field.items@.subrange(0, all as int) == field.items@);
            (
                FieldValue { strategy: field.strategy, items: left },
                FieldValue { strategy: field.strategy, items: right },
            )
        },
        Strategy::DefaultRight => {
            let left = copy_range(&field.items, 0, all);
            assert(field.items@.subrange(0, all as int) == field.items@);
            (
                FieldValue { strategy: field.strategy, items: left },
                FieldValue { strategy: field.strategy, items: Vec::new() },
            )
        },
    }
}

/// Divides a record at `index`: every field is divided by its strategy, and
/// the halves are put together in the order of the fields.
pub fn divide_at(record: Vec<FieldValue>, index: usize) -> (halves: (
    Vec<FieldValue>,
    Vec<FieldValue>,
))
    ensures
        cells(halves.0@) == split_left(cells(record@), index as nat),
        cells(halves.1@) == split_right(cells(record@), index as nat),
{
    let mut left: Vec<FieldValue> = Vec::new();
    let mut right: Vec<FieldValue> = Vec::new();
    let mut at: usize = 0;
    while at < record.len()
        invariant
            at <= record.len(),
            left@.len() == at,
            right@.len() == at,
            forall|i: int|
                0 <= i < at ==> (#[trigger] left@[i])@ == split_cell(record@[i]@, index as nat).0,
            forall|i: int|
                0 <= i < at ==> (#[trigger] right@[i])@ == split_cell(record@[i]@, index as nat).1,
        decreases record.len() - at,
    {
        let (first, second) = divide_field(&record[at], index);
        left.push(first);
        right.push(second);
        at += 1;
    }
    (left, right)
}

/// Hands out the next `size` items of the field at `target`, or all of them
/// if there are fewer, and takes them from the record.
fn extract_at(record: &mut Vec<FieldValue>, target: usize, size: usize) -> (items: Vec<u64>)
    requires
        target < old(record)@.len(),
    ensures
        items@ == extracted(cells(old(record)@), target as int, size as nat),
        cells(final(record)@) == remaining(cells(old(record)@), target as int, size as nat),
{
    let all = record[target].items.len();
    let cut = if size < all {
        size
    } else {
        all
    };
    let items = copy_range(&record[target].items, 0, cut);
    let rest = copy_range(&record[target].items, cut, all);
    let strategy = record[target].strategy;
    let ghost before = cells(record@);
    record.set(target, FieldValue { strategy, items: rest });
    assert(cells(record@) =~= remaining(before, target as int, size as nat));
    items
}

/// Hands out a sequential view of the next `size` items of a record, or of
/// all its items if there are fewer, together with the record that is left:
/// the items come from the one field that recurses, which loses them; the
/// other fields stay as they are. A record with no such field, or with
/// several, does not iterate.
pub fn iter(record: Vec<FieldValue>, size: usize) -> (out: Result<
    (Vec<u64>, Vec<FieldValue>),
    DeriveError,
>)
    ensures
        match out {
            Ok((items, rest)) => {
                &&& has_sole_target(tags(cells(record@)))
                &&& items@ == extracted(cells(record@), target_of(cells(record@)), size as nat)
                &&& cells(rest@) == remaining(
                    cells(record@),
                    target_of(cells(record@)),
                    size as nat,
                )
            },
            Err(error) => {
                &&& !has_sole_target(tags(cells(record@)))
                &&& error == DeriveError::AmbiguousIterationTarget
            },
        },
{
    let read = strategies_of(&record);
    let target = find_single_child(read.as_slice())?;
    let mut rest = record;
    let items = extract_at(&mut rest, target, size);
    Ok((items, rest))
}

/// Iterates on a whole record from outside: cuts one block off the front of
/// the record for every size, no block being longer than what is left,
/// drains every block in turn and then what is left of the record. Whatever
/// the sizes, the items come out in the order in which the record holds
/// them. A record with no field that recurses, or with several, does not
/// iterate.
pub fn to_sequential(record: Vec<FieldValue>, sizes: &[usize]) -> (out: Result<
    Vec<u64>,
    DeriveError,
>)
    ensures
        match out {
            Ok(flat) => {
                &&& has_sole_target(tags(cells(record@)))
                &&& flat@ == flattened(cells(record@), target_of(cells(record@)), sizes@)
                &&& flat@ == enumeration(cells(record@), target_of(cells(record@)))
            },
            Err(error) => {
                &&& !has_sole_target(tags(cells(record@)))
                &&& error == DeriveError::AmbiguousIterationTarget
            },
        },
{
    let read = strategies_of(&record);
    let target = find_single_child(read.as_slice())?;
    let ghost whole = cells(record@);
    let total = record[target].items.len();
    assert(sizes@.skip(0) == sizes@);
    let mut output: Vec<u64> = Vec::new();
    let mut rest = record;
    let mut at: usize = 0;
    while at < sizes.len()
        invariant
            at <= sizes.len(),
            sole_target(tags(cells(rest@)), target as int),
            output@ + flattened(cells(rest@), target as int, sizes@.skip(at as int)) == flattened(
                whole,
                target as int,
                sizes@,
            ),
        decreases sizes.len() - at,
    {
        let ghost before = cells(rest@);
        let left = base_length(&rest, LengthPolicy::Bounded);
        let size = if sizes[at] < left {
            sizes[at]
        } else {
            left
        };
        let (mut block, after) = divide_at(rest, size);
        let length = base_length(&block, LengthPolicy::Bounded);
        let mut buffer = extract_at(&mut block, target, length);
        proof {
            lemma_split_preserves_order(before, size as nat);
            let todo = sizes@.skip(at as int);
            assert(todo[0] == sizes@[at as int]);
            assert(todo.drop_first() == sizes@.skip(at + 1));
            assert(buffer@ == drained(split_left(before, size as nat), target as int));
        }
        output.append(&mut buffer);
        rest = after;
        at += 1;
    }
    let length = base_length(&rest, LengthPolicy::Bounded);
    let mut buffer = extract_at(&mut rest, target, length);
    output.append(&mut buffer);
    proof {
        assert(sizes@.skip(at as int).len() == 0);
        assert(whole[target as int].items.len() == total);
        lemma_flattened_is_enumeration(whole, target as int, sizes@);
    }
    Ok(output)
}

} // verus!
