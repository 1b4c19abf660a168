//! The derivations: for one record, the source of one implementation.
use crate::error::{Declaration, DeriveError};
use crate::length::{generate_len_expression, len_expression, LengthPolicy};
use crate::schema::{attributes_search, power_type, search, Data, Delimiter, DeriveInput, Fields, Group};
use crate::split::{
    generate_fields, generate_split_declarations, generate_split_into_blocks_declarations,
    initializers, split_declarations,
};
use crate::text::written;
use vstd::prelude::*;
use vstd::string::*;

verus! {

/// A group as it was written: its stream between its brackets.
pub open spec fn group_text(group: Group) -> Seq<char> {
    match group.delimiter {
        Delimiter::Parenthesis => "("@ + group.stream@ + ")"@,
        Delimiter::Brace => "{"@ + group.stream@ + "}"@,
        Delimiter::Bracket => "["@ + group.stream@ + "]"@,
    }
}

/// The head of the implementation of a trait for the record, up to the brace
/// that opens its body. The parameters and bounds are those of the record,
/// unless the record declares others in `trait_bounds`: then these stand
/// behind `impl`, and the record's `where` clause is left out.
pub open spec fn impl_header(input: DeriveInput, trait_name: Seq<char>) -> Seq<char> {
    match search(input.attrs@, "trait_bounds"@) {
        Some(bounds) => "impl <"@ + bounds.stream@ + "> "@ + trait_name + " for "@ + input.ident@
            + " "@ + input.generics.ty_generics@ + " "@,
        None => "impl "@ + input.generics.impl_generics@ + " "@ + trait_name + " for "@
            + input.ident@ + " "@ + input.generics.ty_generics@ + " "@
            + input.generics.where_clause@ + " "@,
    }
}

/// The pair of records that a split returns: the record built from the left
/// sides of the split tuple, then the record built from the right sides.
pub open spec fn halves(name: Seq<char>, fields: Fields) -> Seq<char> {
    "("@ + name + " { "@ + initializers(fields.named(), fields.list(), 0) + "}, "@ + name + " { "@
        + initializers(fields.named(), fields.list(), 1) + "})"@
}

/// The implementation of `Divisible` for a struct with the given power.
pub open spec fn divisible_impl(input: DeriveInput, power: Group, fields: Fields) -> Seq<char> {
    impl_header(input, "Divisible"@) + "{ type Power = "@ + group_text(power)
        + "; fn base_length(&self) -> usize { "@ + len_expression(fields, LengthPolicy::Bounded)
        + " } fn divide(self) -> (Self, Self) { "@ + split_declarations(fields, false) + " "@
        + halves(input.ident@, fields) + " } }"@
}

/// What `derive_divisible` writes for a record.
pub open spec fn divisible(input: DeriveInput) -> Result<Seq<char>, DeriveError> {
    match search(input.attrs@, "power"@) {
        None => Err(DeriveError::MissingDeclaration(Declaration::Power)),
        Some(power) => match input.data {
            Data::Struct(fields) => Ok(divisible_impl(input, power, fields)),
            _ => Err(DeriveError::UnsupportedShape),
        },
    }
}

/// The implementation of `DivisibleIntoBlocks` for a struct.
pub open spec fn divisible_into_blocks_impl(input: DeriveInput, fields: Fields) -> Seq<char> {
    impl_header(input, "DivisibleIntoBlocks"@)
        + "{ fn divide_at(self, index: usize) -> (Self, Self) { "@ + split_declarations(
        fields,
        true,
    ) + " "@ + halves(input.ident@, fields) + " } }"@
}

/// What `derive_divisible_into_blocks` writes for a record.
pub open spec fn divisible_into_blocks(input: DeriveInput) -> Result<Seq<char>, DeriveError> {
    match input.data {
        Data::Struct(fields) => Ok(divisible_into_blocks_impl(input, fields)),
        _ => Err(DeriveError::UnsupportedShape),
    }
}

/// What `derive_divisible_at_index` writes for a record.
pub open spec fn divisible_at_index(input: DeriveInput) -> Seq<char> {
    impl_header(input, "DivisibleAtIndex"@) + "{}"@
}

/// Writes a group as it was written.
pub(crate) fn write_group(group: &Group) -> (text: String)
    ensures
        text@ == group_text(*group),
{
    let (open, close) = match group.delimiter {
        Delimiter::Parenthesis => ("(", ")"),
        Delimiter::Brace => ("{", "}"),
        Delimiter::Bracket => ("[", "]"),
    };
    let mut text = String::from_str(open);
    text.append(group.stream.as_str());
    text.append(close);
    text
}

/// Writes the head of the implementation of a trait for the record.
pub(crate) fn write_impl_header(input: &DeriveInput, trait_name: &str) -> (text: String)
    ensures
        text@ == impl_header(*input, trait_name@),
{
    match attributes_search(input.attrs.as_slice(), "trait_bounds") {
        Some(bounds) => {
            let mut text = String::from_str("impl <");
            text.append(bounds.stream.as_str());
            text.append("> ");
            text.append(trait_name);
            text.append(" for ");
            text.append(input.ident.as_str());
            text.append(" ");
            text.append(input.generics.ty_generics.as_str());
            text.append(" ");
            text
        },
        None => {
            let mut text = String::from_str("impl ");
            text.append(input.generics.impl_generics.as_str());
            text.append(" ");
            text.append(trait_name);
            text.append(" for ");
            text.append(input.ident.as_str());
            text.append(" ");
            text.append(input.generics.ty_generics.as_str());
            text.append(" ");
            text.append(input.generics.where_clause.as_str());
            text.append(" ");
            text
        },
    }
}

/// Writes the pair of records that a split returns.
fn write_halves(input: &DeriveInput) -> (text: Result<String, DeriveError>)
    requires
        input.data.indexable(),
    ensures
        written(text) == match input.data {
            Data::Struct(fields) => Ok(halves(input.ident@, fields)),
            _ => Err(DeriveError::UnsupportedShape),
        },
{
    let left_fields = generate_fields(&input.data, 0)?;
    let right_fields = generate_fields(&input.data, 1)?;
    let mut text = String::from_str("(");
    text.append(input.ident.as_str());
    text.append(" { ");
    text.append(left_fields.as_str());
    text.append("}, ");
    text.append(input.ident.as_str());
    text.append(" { ");
    text.append(right_fields.as_str());
    text.append("})");
    Ok(text)
}

/// Writes the implementation of `Divisible` for a record: its power, its
/// length as the shortest of the fields that recurse, and its division in
/// two, every field going by its strategy.
pub fn derive_divisible(input: &DeriveInput) -> (expanded: Result<String, DeriveError>)
    requires
        input.data.indexable(),
    ensures
        written(expanded) == divisible(*input),
{
    let power = power_type(input.attrs.as_slice())?;
    let len_expression = generate_len_expression(&input.data, LengthPolicy::Bounded)?;
    let split_expression = generate_split_declarations(&input.data)?;
    let both = write_halves(input)?;
    let mut text = write_impl_header(input, "Divisible");
    text.append("{ type Power = ");
    text.append(write_group(power).as_str());
    text.append("; fn base_length(&self) -> usize { ");
    text.append(len_expression.as_str());
    text.append(" } fn divide(self) -> (Self, Self) { ");
    text.append(split_expression.as_str());
    text.append(" ");
    text.append(both.as_str());
    text.append(" } }");
    Ok(text)
}

/// Writes the implementation of `DivisibleIntoBlocks` for a record: its
/// division at an index, every field going by its strategy.
pub fn derive_divisible_into_blocks(input: &DeriveInput) -> (expanded: Result<String, DeriveError>)
    requires
        input.data.indexable(),
    ensures
        written(expanded) == divisible_into_blocks(*input),
{
    let split_expression = generate_split_into_blocks_declarations(&input.data)?;
    let both = write_halves(input)?;
    let mut text = write_impl_header(input, "DivisibleIntoBlocks");
    text.append("{ fn divide_at(self, index: usize) -> (Self, Self) { ");
    text.append(split_expression.as_str());
    text.append(" ");
    text.append(both.as_str());
    text.append(" } }");
    Ok(text)
}

/// Writes the implementation of `DivisibleAtIndex` for a record. The trait
/// has nothing to implement, so any record will do.
pub fn derive_divisible_at_index(input: &DeriveInput) -> (expanded: String)
    ensures
        expanded@ == divisible_at_index(*input),
{
    let mut text = write_impl_header(input, "DivisibleAtIndex");
    text.append("{}");
    text
}

} // verus!
