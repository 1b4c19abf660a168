//! The split synthesizer: the statement that splits every field in one step,
//! and the initializers that put the two halves together again.
use crate::error::DeriveError;
use crate::schema::{field_strategy, find_strategy, Data, Field, Fields};
use crate::strategy::Strategy;
use crate::text::{decimal, index_text, written};
use vstd::prelude::*;
use vstd::string::*;

verus! {

/// How a field is written behind `self.`: by its name, or by its position in
/// a tuple struct. A named field that lacks its name is written as nothing.
pub open spec fn member_text(named: bool, field: Field, position: nat) -> Seq<char> {
    if named {
        match field.ident {
            Some(name) => name@,
            None => Seq::empty(),
        }
    } else {
        decimal(position)
    }
}

/// The place of a field in the record that is split.
pub open spec fn place_text(named: bool, field: Field, position: nat) -> Seq<char> {
    "self."@ + member_text(named, field, position)
}

/// The expression that gives the two halves of one field, left half first.
/// `at_index` tells whether the fields that recurse are divided at the index
/// that the split was given, or divide themselves.
pub open spec fn split_entry(place: Seq<char>, strategy: Strategy, at_index: bool) -> Seq<char> {
    match strategy {
        Strategy::CloneBoth => "("@ + place + ".clone(), "@ + place + ")"@,
        Strategy::CopyBoth => "("@ + place + ", "@ + place + ")"@,
        Strategy::DefaultRight => "("@ + place + ", Default::default())"@,
        Strategy::Recurse => if at_index {
            place + ".divide_at(index)"@
        } else {
            place + ".divide()"@
        },
    }
}

/// The entries of all the fields, in the order of the fields, each with a
/// comma behind it.
pub open spec fn split_entries(named: bool, fields: Seq<Field>, at_index: bool) -> Seq<char>
    decreases fields.len(),
{
    if fields.len() == 0 {
        Seq::empty()
    } else {
        split_entries(named, fields.drop_last(), at_index) + split_entry(
            place_text(named, fields.last(), (fields.len() - 1) as nat),
            field_strategy(fields.last()),
            at_index,
        ) + ", "@
    }
}

/// The statement that splits every field at once into a tuple of pairs. A
/// unit struct needs none.
pub open spec fn split_declarations(fields: Fields, at_index: bool) -> Seq<char> {
    match fields {
        Fields::Unit => Seq::empty(),
        _ => "let split_fields = ("@ + split_entries(fields.named(), fields.list(), at_index)
            + ");"@,
    }
}

/// The initializer of one field of a half: the field, then the side of its
/// pair in the tuple of the split. Side 0 is the left half, side 1 the right.
pub open spec fn initializer(named: bool, field: Field, position: nat, side: nat) -> Seq<char> {
    member_text(named, field, position) + ": (split_fields."@ + decimal(position) + ")."@
        + decimal(side) + ", "@
}

/// The initializers of all the fields, in the order of the fields.
pub open spec fn initializers(named: bool, fields: Seq<Field>, side: nat) -> Seq<char>
    decreases fields.len(),
{
    if fields.len() == 0 {
        Seq::empty()
    } else {
        initializers(named, fields.drop_last(), side) + initializer(
            named,
            fields.last(),
            (fields.len() - 1) as nat,
            side,
        )
    }
}

/// Writes how a field is named behind `self.`.
pub(crate) fn member(named: bool, field: &Field, position: usize) -> (text: String)
    requires
        position < u32::MAX,
    ensures
        text@ == member_text(named, *field, position as nat),
{
    if named {
        match &field.ident {
            Some(name) => name.clone(),
            None => String::new(),
        }
    } else {
        index_text(position)
    }
}

/// Writes the expression that gives the two halves of the field at `place`.
fn split_entry_text(place: &str, strategy: Strategy, at_index: bool) -> (text: String)
    ensures
        text@ == split_entry(place@, strategy, at_index),
{
    match strategy {
        Strategy::CloneBoth => {
            let mut text = String::from_str("(");
            text.append(place);
            text.append(".clone(), ");
            text.append(place);
            text.append(")");
            text
        },
        Strategy::CopyBoth => {
            let mut text = String::from_str("(");
            text.append(place);
            text.append(", ");
            text.append(place);
            text.append(")");
            text
        },
        Strategy::DefaultRight => {
            let mut text = String::from_str("(");
            text.append(place);
            text.append(", Default::default())");
            text
        },
        Strategy::Recurse => {
            let mut text = String::from_str(place);
            if at_index {
                text.append(".divide_at(index)");
            } else {
                text.append(".divide()");
            }
            text
        },
    }
}

/// Writes the statement that splits every field of a struct.
fn split_statement(fields: &Fields, at_index: bool) -> (text: String)
    requires
        fields.indexable(),
    ensures
        text@ == split_declarations(*fields, at_index),
{
    match fields {
        Fields::Unit => String::new(),
        Fields::Named(list) | Fields::Unnamed(list) => {
            let named = matches!(fields, Fields::Named(_));
            let mut text = String::from_str("let split_fields = (");
            let ghost head = text@;
            let mut at: usize = 0;
            while at < list.len()
                invariant
                    at <= list.len(),
                    list.len() <= u32::MAX,
                    text@ == head + split_entries(named, list@.take(at as int), at_index),
                decreases list.len() - at,
            {
                let field = &list[at];
                let mut place = String::from_str("self.");
                place.append(member(named, field, at).as_str());
                let entry = split_entry_text(place.as_str(), find_strategy(field), at_index);
                proof {
                    let next = list@.take(at + 1);
                    assert(next.drop_last() == list@.take(at as int));
                    assert(next.last() == *field);
                    assert(head + (split_entries(named, list@.take(at as int), at_index) + entry@
                        + ", "@) == head + split_entries(named, list@.take(at as int), at_index)
                        + entry@ + ", "@);
                }
                text.append(entry.as_str());
                text.append(", ");
                at += 1;
            }
            assert(list@.take(at as int) == list@);
            text.append(");");
            text
        },
    }
}

/// Writes the statement that splits the record in two, each field that
/// recurses dividing itself.
pub fn generate_split_declarations(data: &Data) -> (split: Result<String, DeriveError>)
    requires
        data.indexable(),
    ensures
        written(split) == match *data {
            Data::Struct(fields) => Ok(split_declarations(fields, false)),
            _ => Err(DeriveError::UnsupportedShape),
        },
{
    match data {
        Data::Struct(fields) => Ok(split_statement(fields, false)),
        Data::Enum | Data::Union => Err(DeriveError::UnsupportedShape),
    }
}

/// Writes the statement that splits the record at `index`, each field that
/// recurses being divided at that index.
pub fn generate_split_into_blocks_declarations(data: &Data) -> (split: Result<String, DeriveError>)
    requires
        data.indexable(),
    ensures
        written(split) == match *data {
            Data::Struct(fields) => Ok(split_declarations(fields, true)),
            _ => Err(DeriveError::UnsupportedShape),
        },
{
    match data {
        Data::Struct(fields) => Ok(split_statement(fields, true)),
        Data::Enum | Data::Union => Err(DeriveError::UnsupportedShape),
    }
}

/// Writes the initializers of one half of the split: for every field, in the
/// order of the declaration, its name and its side of the split tuple.
/// `index` is 0 for the left half and 1 for the right half.
pub fn generate_fields(data: &Data, index: usize) -> (fields: Result<String, DeriveError>)
    requires
        data.indexable(),
        index < u32::MAX,
    ensures
        written(fields) == match *data {
            Data::Struct(all) => Ok(initializers(all.named(), all.list(), index as nat)),
            _ => Err(DeriveError::UnsupportedShape),
        },
{
    let side = index_text(index);
    match data {
        Data::Struct(Fields::Unit) => Ok(String::new()),
        Data::Struct(Fields::Named(list)) | Data::Struct(Fields::Unnamed(list)) => {
            let named = matches!(data, Data::Struct(Fields::Named(_)));
            let mut text = String::new();
            let mut at: usize = 0;
            while at < list.len()
                invariant
                    at <= list.len(),
                    list.len() <= u32::MAX,
                    side@ == decimal(index as nat),
                    text@ == initializers(named, list@.take(at as int), index as nat),
                decreases list.len() - at,
            {
                let field = &list[at];
                proof {
                    let next = list@.take(at + 1);
                    assert(next.drop_last() == list@.take(at as int));
                    assert(next.last() == *field);
                }
                let ghost before = text@;
                text.append(member(named, field, at).as_str());
                text.append(": (split_fields.");
                text.append(index_text(at).as_str());
                text.append(").");
                text.append(side.as_str());
                text.append(", ");
                assert(text@ == before + initializer(named, *field, at as nat, index as nat));
                at += 1;
            }
            assert(list@.take(at as int) == list@);
            Ok(text)
        },
        Data::Enum | Data::Union => Err(DeriveError::UnsupportedShape),
    }
}

} // verus!
