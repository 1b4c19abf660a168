//! The derivation of `ParallelIterator`: the record iterates on the one
//! field that recurses, and carries its other fields along.
use crate::derive::{group_text, impl_header, write_group, write_impl_header};
use crate::error::{Declaration, DeriveError};
use crate::locate::{find_single_child, has_sole_target, sole_target};
use crate::schema::{
    attributes_search, resolve_strategies, search, strategies, Attribute, Data, DeriveInput,
    Fields, Group,
};
use crate::split::{member, place_text};
use crate::text::written;
use vstd::prelude::*;
use vstd::string::*;

verus! {

/// The operation that hands out a sequential iterator on the next `size`
/// items. The field at `place` hands out its own iterator and is replaced by
/// what it has left; `extraction` builds the record's iterator from the
/// field's, which it finds in `i`. The record goes on with its other fields
/// as they were.
pub open spec fn extraction_operation(place: Seq<char>, extraction: Group) -> Seq<char> {
    "fn iter(mut self, size: usize) -> (Self::SequentialIterator, Self) { let (i, remaining) = "@
        + place + ".iter(size); "@ + place + " = remaining; ("@ + group_text(extraction)
        + ", self) }"@
}

/// The two accessors of scheduling hints. Both ask the field at `place`.
pub open spec fn hint_accessors(place: Seq<char>) -> Seq<char> {
    "fn blocks_sizes(&mut self) -> Box<dyn Iterator<Item = usize>> { "@ + place
        + ".blocks_sizes() } fn policy(&self) -> Policy { "@ + place + ".policy() }"@
}

/// The operation that iterates on the whole record from outside: it asks for
/// the sizes of the blocks, cuts one block of each size off the front of the
/// record, no block being longer than what is left, drains each block into
/// the output in turn, and at last drains what is left.
pub open spec fn sequential_adapter() -> Seq<char> {
    "fn to_sequential(mut self) -> ::std::vec::IntoIter<Self::Item> { let sizes = self.blocks_sizes(); let mut output = ::std::vec::Vec::new(); for size in sizes { let size = size.min(self.base_length()); let (block, remaining) = self.divide_at(size); let length = block.base_length(); let (buffer, _) = block.iter(length); output.extend(buffer); self = remaining; } let length = self.base_length(); let (buffer, _) = self.iter(length); output.extend(buffer); output.into_iter() }"@
}

/// The four declarations that the derivation of `ParallelIterator` reads.
pub struct Declarations {
    /// The kind of divisibility of the record.
    pub power: Group,
    /// The type of the items.
    pub item: Group,
    /// The type of the sequential iterator.
    pub sequential_iterator: Group,
    /// The expression that builds the sequential iterator.
    pub iterator_extraction: Group,
}

/// The declarations of a record, or the first one that it lacks, in the
/// order power, item, sequential iterator, extraction.
pub open spec fn declarations(attributes: Seq<Attribute>) -> Result<Declarations, DeriveError> {
    match search(attributes, "power"@) {
        None => Err(DeriveError::MissingDeclaration(Declaration::Power)),
        Some(power) => match search(attributes, "item"@) {
            None => Err(DeriveError::MissingDeclaration(Declaration::Item)),
            Some(item) => match search(attributes, "sequential_iterator"@) {
                None => Err(DeriveError::MissingDeclaration(Declaration::SequentialIterator)),
                Some(sequential_iterator) => match search(attributes, "iterator_extraction"@) {
                    None => Err(DeriveError::MissingDeclaration(Declaration::IteratorExtraction)),
                    Some(iterator_extraction) => Ok(
                        Declarations { power, item, sequential_iterator, iterator_extraction },
                    ),
                },
            },
        },
    }
}

/// The implementation of `ParallelIterator` for a record that iterates on
/// the field at `place`.
pub open spec fn parallel_iterator_impl(
    input: DeriveInput,
    declared: Declarations,
    place: Seq<char>,
) -> Seq<char> {
    impl_header(input, "ParallelIterator<"@ + group_text(declared.power) + ">"@)
        + "{ type Item = "@ + group_text(declared.item) + "; type SequentialIterator = "@
        + group_text(declared.sequential_iterator) + "; "@ + extraction_operation(
        place,
        declared.iterator_extraction,
    ) + " "@ + hint_accessors(place) + " "@ + sequential_adapter() + " }"@
}

/// The position of the only field that recurses, where there is one.
pub open spec fn single_child(fields: Fields) -> int {
    choose|target: int| sole_target(strategies(fields.list()), target)
}

/// What `derive_parallel_iterator` writes for a record.
pub open spec fn parallel_iterator(input: DeriveInput) -> Result<Seq<char>, DeriveError> {
    match declarations(input.attrs@) {
        Err(error) => Err(error),
        Ok(declared) => match input.data {
            Data::Struct(fields) => if has_sole_target(strategies(fields.list())) {
                Ok(
                    parallel_iterator_impl(
                        input,
                        declared,
                        place_text(
                            fields.named(),
                            fields.list()[single_child(fields)],
                            single_child(fields) as nat,
                        ),
                    ),
                )
            } else {
                Err(DeriveError::AmbiguousIterationTarget)
            },
            _ => Err(DeriveError::UnsupportedShape),
        },
    }
}

/// Looks one declaration up among the attributes of the record.
fn declared<'a>(attributes: &'a [Attribute], declaration: Declaration) -> (found: Result<
    &'a Group,
    DeriveError,
>)
    ensures
        found matches Ok(group) ==> search(attributes@, declaration.name()) == Some(*group),
        found matches Err(error) ==> search(attributes@, declaration.name()) is None && error
            == DeriveError::MissingDeclaration(declaration),
{
    match attributes_search(attributes, declaration.attribute_name()) {
        Some(group) => Ok(group),
        None => Err(DeriveError::MissingDeclaration(declaration)),
    }
}

/// Writes the place of the field that the record iterates on.
fn write_target_place(fields: &Fields) -> (place: Result<String, DeriveError>)
    requires
        fields.indexable(),
    ensures
        written(place) == if has_sole_target(strategies(fields.list())) {
            Ok(
                place_text(
                    fields.named(),
                    fields.list()[single_child(*fields)],
                    single_child(*fields) as nat,
                ),
            )
        } else {
            Err(DeriveError::AmbiguousIterationTarget)
        },
{
    let tags = resolve_strategies(fields);
    let target = find_single_child(tags.as_slice())?;
    assert(sole_target(strategies(fields.list()), target as int));
    assert(target as int == single_child(*fields));
    match fields {
        Fields::Named(list) | Fields::Unnamed(list) => {
            let named = matches!(fields, Fields::Named(_));
            let mut place = String::from_str("self.");
            place.append(member(named, &list[target], target).as_str());
            Ok(place)
        },
        Fields::Unit => Err(DeriveError::AmbiguousIterationTarget),
    }
}

/// Writes the implementation of `ParallelIterator` for a record: the types
/// that the record declares, the extraction of a sequential iterator from
/// the one field that recurses, the scheduling hints of that field, and the
/// iteration on the whole record block by block.
pub fn derive_parallel_iterator(input: &DeriveInput) -> (expanded: Result<String, DeriveError>)
    requires
        input.data.indexable(),
    ensures
        written(expanded) == parallel_iterator(*input),
{
    let attributes = input.attrs.as_slice();
    let power = declared(attributes, Declaration::Power)?;
    let item = declared(attributes, Declaration::Item)?;
    let sequential_iterator = declared(attributes, Declaration::SequentialIterator)?;
    let iterator_extraction = declared(attributes, Declaration::IteratorExtraction)?;
    let place = match &input.data {
        Data::Struct(fields) => write_target_place(fields)?,
        Data::Enum | Data::Union => {
            return Err(DeriveError::UnsupportedShape);
        },
    };
    let mut trait_name = String::from_str("ParallelIterator<");
    trait_name.append(write_group(power).as_str());
    trait_name.append(">");
    let mut text = write_impl_header(input, trait_name.as_str());
    text.append("{ type Item = ");
    text.append(write_group(item).as_str());
    text.append("; type SequentialIterator = ");
    text.append(write_group(sequential_iterator).as_str());
    text.append("; ");
    let ghost head = text@;
    text.append("fn iter(mut self, size: usize) -> (Self::SequentialIterator, Self) { let (i, remaining) = ");
    text.append(place.as_str());
    text.append(".iter(size); ");
    text.append(place.as_str());
    text.append(" = remaining; (");
    text.append(write_group(iterator_extraction).as_str());
    text.append(", self) }");
    assert(text@ == head + extraction_operation(place@, *iterator_extraction));
    text.append(" ");
    let ghost head = text@;
    text.append("fn blocks_sizes(&mut self) -> Box<dyn Iterator<Item = usize>> { ");
    text.append(place.as_str());
    text.append(".blocks_sizes() } fn policy(&self) -> Policy { ");
    text.append(place.as_str());
    text.append(".policy() }");
    assert(text@ == head + hint_accessors(place@));
    text.append(" ");
    text.append("fn to_sequential(mut self) -> ::std::vec::IntoIter<Self::Item> { let sizes = self.blocks_sizes(); let mut output = ::std::vec::Vec::new(); for size in sizes { let size = size.min(self.base_length()); let (block, remaining) = self.divide_at(size); let length = block.base_length(); let (buffer, _) = block.iter(length); output.extend(buffer); self = remaining; } let length = self.base_length(); let (buffer, _) = self.iter(length); output.extend(buffer); output.into_iter() }");
    text.append(" }");
    Ok(text)
}

} // verus!
