//! The length synthesizer: the expression that gives the length of a record
//! from the lengths of the fields that recurse.
use crate::error::DeriveError;
use crate::schema::{field_strategy, find_strategy, Data, Field, Fields};
use crate::split::{member, place_text};
use crate::strategy::Strategy;
use crate::text::written;
use vstd::prelude::*;
use vstd::string::*;

verus! {

/// How the lengths of the fields make up the length of the record.
#[derive(Clone, Copy, Debug, PartialEq, Eq, Structural)]
pub enum LengthPolicy {
    /// A record is as short as the shortest of its fields that recurse; with
    /// none of them it has no bound, which is written `usize::MAX`.
    Bounded,
    /// A record is as long as the longest of its fields that recurse. With
    /// fields of which none recurses it has no bound; without any field its
    /// length is zero.
    Unbounded,
}

/// Whether some field recurses.
pub open spec fn some_recurse(fields: Seq<Field>) -> bool {
    exists|i: int| 0 <= i < fields.len() && field_strategy(#[trigger] fields[i]) == Strategy::Recurse
}

/// The link that brings the length of the field at `place` into the chain.
pub open spec fn length_link(place: Seq<char>) -> Seq<char> {
    ".chain(::std::iter::once("@ + place + ".base_length()))"@
}

/// The links of the fields that recurse, in the order of the fields. The
/// other fields have no length and no link.
pub open spec fn length_links(named: bool, fields: Seq<Field>) -> Seq<char>
    decreases fields.len(),
{
    if fields.len() == 0 {
        Seq::empty()
    } else if field_strategy(fields.last()) == Strategy::Recurse {
        length_links(named, fields.drop_last()) + length_link(
            place_text(named, fields.last(), (fields.len() - 1) as nat),
        )
    } else {
        length_links(named, fields.drop_last())
    }
}

/// The expression that gives the length of a record.
pub open spec fn len_expression(fields: Fields, policy: LengthPolicy) -> Seq<char> {
    match policy {
        LengthPolicy::Bounded => match fields {
            Fields::Unit => "std::usize::MAX"@,
            _ => "::std::iter::once(std::usize::MAX)"@ + length_links(
                fields.named(),
                fields.list(),
            ) + ".min().unwrap()"@,
        },
        LengthPolicy::Unbounded => if fields.list().len() == 0 {
            "0"@
        } else if !some_recurse(fields.list()) {
            "std::usize::MAX"@
        } else {
            "::std::iter::once(0)"@ + length_links(fields.named(), fields.list())
                + ".max().unwrap()"@
        },
    }
}

/// Writes the links of the fields that recurse, and tells whether there is
/// one.
fn length_chain(named: bool, list: &Vec<Field>) -> (chain: (String, bool))
    requires
        list.len() <= u32::MAX,
    ensures
        chain.0@ == length_links(named, list@),
        chain.1 == some_recurse(list@),
{
    let mut text = String::new();
    let mut found = false;
    let mut at: usize = 0;
    while at < list.len()
        invariant
            at <= list.len(),
            list.len() <= u32::MAX,
            text@ == length_links(named, list@.take(at as int)),
            found == some_recurse(list@.take(at as int)),
        decreases list.len() - at,
    {
        let field = &list[at];
        proof {
            let seen = list@.take(at as int);
            let next = list@.take(at + 1);
            assert(next.drop_last() == seen);
            assert(next.last() == *field);
            if some_recurse(seen) {
                let i = choose|i: int|
                    0 <= i < seen.len() && field_strategy(#[trigger] seen[i]) == Strategy::Recurse;
                assert(next[i] == seen[i]);
            }
            if some_recurse(next) && field_strategy(*field) != Strategy::Recurse {
                let i = choose|i: int|
                    0 <= i < next.len() && field_strategy(#[trigger] next[i]) == Strategy::Recurse;
                assert(seen[i] == next[i]);
            }
        }
        if find_strategy(field) == Strategy::Recurse {
            let mut place = String::from_str("self.");
            place.append(member(named, field, at).as_str());
            let ghost before = text@;
            text.append(".chain(::std::iter::once(");
            text.append(place.as_str());
            text.append(".base_length()))");
            assert(text@ == before + length_link(place@));
            found = true;
            assert(list@.take(at + 1)[at as int] == *field);
        }
        at += 1;
    }
    assert(list@.take(at as int) == list@);
    (text, found)
}

/// Writes the expression that computes the length of the record.
pub fn generate_len_expression(data: &Data, policy: LengthPolicy) -> (length: Result<
    String,
    DeriveError,
>)
    requires
        data.indexable(),
    ensures
        written(length) == match *data {
            Data::Struct(fields) => Ok(len_expression(fields, policy)),
            _ => Err(DeriveError::UnsupportedShape),
        },
{
    match data {
        Data::Struct(Fields::Unit) => match policy {
            LengthPolicy::Bounded => Ok(String::from_str("std::usize::MAX")),
            LengthPolicy::Unbounded => Ok(String::from_str("0")),
        },
        Data::Struct(Fields::Named(list)) | Data::Struct(Fields::Unnamed(list)) => {
            let named = matches!(data, Data::Struct(Fields::Named(_)));
            let (links, found) = length_chain(named, list);
            match policy {
                LengthPolicy::Bounded => {
                    let mut text = String::from_str("::std::iter::once(std::usize::MAX)");
                    text.append(links.as_str());
                    text.append(".min().unwrap()");
                    Ok(text)
                },
                LengthPolicy::Unbounded => {
                    if list.len() == 0 {
                        Ok(String::from_str("0"))
                    } else if !found {
                        Ok(String::from_str("std::usize::MAX"))
                    } else {
                        let mut text = String::from_str("::std::iter::once(0)");
                        text.append(links.as_str());
                        text.append(".max().unwrap()");
                        Ok(text)
                    }
                },
            }
        },
        Data::Enum | Data::Union => Err(DeriveError::UnsupportedShape),
    }
}

} // verus!
