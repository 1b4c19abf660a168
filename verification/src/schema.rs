//! The record as the synthesizers see it, and the search for annotations.
use crate::error::{Declaration, DeriveError};
use crate::strategy::{
    recognized, resolve_annotation, strategy_of_token, token_is_recognized, Strategy,
};
use crate::text::same_text;
use vstd::prelude::*;

verus! {

/// The brackets around the argument of an attribute.
#[derive(Clone, Copy, Debug, PartialEq, Eq, Structural)]
pub enum Delimiter {
    /// `( ... )`
    Parenthesis,
    /// `{ ... }`
    Brace,
    /// `[ ... ]`
    Bracket,
}

/// The bracketed argument of an attribute.
#[derive(Clone, Debug, PartialEq, Eq)]
pub struct Group {
    /// The brackets.
    pub delimiter: Delimiter,
    /// The tokens between the brackets, as text: the way `proc_macro2`
    /// prints a stream of tokens.
    pub stream: String,
}

/// One attribute of a record or of a field.
#[derive(Clone, Debug, PartialEq, Eq)]
pub struct Attribute {
    /// The path before the argument, as text: `divide_by` in
    /// `#[divide_by(clone)]`.
    pub path: String,
    /// The argument, where the attribute has one and it is a single
    /// bracketed group.
    pub group: Option<Group>,
}

/// One field of a record.
#[derive(Clone, Debug, PartialEq, Eq)]
pub struct Field {
    /// The attributes of the field, in the order of the declaration.
    pub attrs: Vec<Attribute>,
    /// The name of the field; `None` in a tuple struct.
    pub ident: Option<String>,
}

/// The fields of a struct, in the order of the declaration.
#[derive(Clone, Debug, PartialEq, Eq)]
pub enum Fields {
    /// `struct S { a: A, b: B }`
    Named(Vec<Field>),
    /// `struct S(A, B);`
    Unnamed(Vec<Field>),
    /// `struct S;`
    Unit,
}

/// The body of the declaration.
#[derive(Clone, Debug, PartialEq, Eq)]
pub enum Data {
    /// A struct, with its fields.
    Struct(Fields),
    /// An enum.
    Enum,
    /// A union.
    Union,
}

/// The generic parameters of the record, in the three pieces that an `impl`
/// block is written with. Each piece is text; an empty piece is left out.
#[derive(Clone, Debug, PartialEq, Eq)]
pub struct Generics {
    /// What follows `impl`: `<T: Clone>`.
    pub impl_generics: String,
    /// What follows the name of the type: `<T>`.
    pub ty_generics: String,
    /// The `where` clause, with the word `where`.
    pub where_clause: String,
}

/// The declaration of a record.
#[derive(Clone, Debug, PartialEq, Eq)]
pub struct DeriveInput {
    /// The attributes of the record itself.
    pub attrs: Vec<Attribute>,
    /// The name of the record.
    pub ident: String,
    /// Its generic parameters.
    pub generics: Generics,
    /// Its body.
    pub data: Data,
}

impl Fields {
    /// The fields as a sequence; a unit struct has none.
    pub open spec fn list(self) -> Seq<Field> {
        match self {
            Fields::Named(fields) => fields@,
            Fields::Unnamed(fields) => fields@,
            Fields::Unit => Seq::empty(),
        }
    }

    /// Whether the fields go by name.
    pub open spec fn named(self) -> bool {
        self is Named
    }

    /// Whether every position among the fields can be written as a tuple
    /// index, which holds less than `u32::MAX`.
    pub open spec fn indexable(self) -> bool {
        self.list().len() <= u32::MAX
    }
}

impl Data {
    /// Whether every position among the fields can be written as a tuple
    /// index. It is so of what has no fields.
    pub open spec fn indexable(self) -> bool {
        match self {
            Data::Struct(fields) => fields.indexable(),
            _ => true,
        }
    }
}

/// The argument of the first attribute with the given path. An attribute
/// with that path and without a group hides the ones behind it.
pub open spec fn search(attributes: Seq<Attribute>, name: Seq<char>) -> Option<Group>
    decreases attributes.len(),
{
    if attributes.len() == 0 {
        None
    } else if attributes[0].path@ == name {
        attributes[0].group
    } else {
        search(attributes.drop_first(), name)
    }
}

/// The annotation of a field: the token in its `divide_by` attribute.
pub open spec fn annotation(field: Field) -> Option<Seq<char>> {
    match search(field.attrs@, "divide_by"@) {
        Some(group) => Some(group.stream@),
        None => None,
    }
}

/// The strategy of a field: that of its annotation.
pub open spec fn field_strategy(field: Field) -> Strategy {
    resolve_annotation(annotation(field))
}

/// The strategies of the fields, in the order of the fields.
pub open spec fn strategies(fields: Seq<Field>) -> Seq<Strategy> {
    Seq::new(fields.len(), |i: int| field_strategy(fields[i]))
}

/// Returns the argument of the first attribute with the given name.
pub fn attributes_search<'a>(attributes: &'a [Attribute], searched_attribute_name: &str) -> (found:
    Option<&'a Group>)
    ensures
        found matches Some(group) ==> search(attributes@, searched_attribute_name@) == Some(*group),
        found is None ==> search(attributes@, searched_attribute_name@) is None,
{
    let mut at: usize = 0;
    assert(attributes@.skip(0) == attributes@);
    while at < attributes.len()
        invariant
            at <= attributes.len(),
            search(attributes@, searched_attribute_name@) == search(
                attributes@.skip(at as int),
                searched_attribute_name@,
            ),
        decreases attributes.len() - at,
    {
        let attribute = &attributes[at];
        proof {
            let rest = attributes@.skip(at as int);
            assert(rest[0] == attributes@[at as int]);
            assert(rest.drop_first() == attributes@.skip(at + 1));
        }
        if same_text(attribute.path.as_str(), searched_attribute_name) {
            return match &attribute.group {
                Some(group) => Some(group),
                None => None,
            };
        }
        at += 1;
    }
    None
}

/// Returns the declaration of the record's power.
pub fn power_type<'a>(attributes: &'a [Attribute]) -> (power: Result<&'a Group, DeriveError>)
    ensures
        power matches Ok(group) ==> search(attributes@, "power"@) == Some(*group),
        power matches Err(error) ==> search(attributes@, "power"@) is None && error
            == DeriveError::MissingDeclaration(Declaration::Power),
{
    match attributes_search(attributes, "power") {
        Some(group) => Ok(group),
        None => Err(DeriveError::MissingDeclaration(Declaration::Power)),
    }
}

/// Figures out which strategy divides a field.
pub fn find_strategy(field: &Field) -> (strategy: Strategy)
    ensures
        strategy == field_strategy(*field),
{
    match attributes_search(field.attrs.as_slice(), "divide_by") {
        Some(group) => strategy_of_token(group.stream.as_str()),
        None => Strategy::Recurse,
    }
}

/// Tags every field with its strategy.
pub fn resolve_strategies(fields: &Fields) -> (tags: Vec<Strategy>)
    ensures
        tags@ == strategies(fields.list()),
{
    let mut tags: Vec<Strategy> = Vec::new();
    match fields {
        Fields::Named(list) | Fields::Unnamed(list) => {
            let mut at: usize = 0;
            while at < list.len()
                invariant
                    at <= list.len(),
                    list@ == fields.list(),
                    tags@ == strategies(list@.take(at as int)),
                decreases list.len() - at,
            {
                tags.push(find_strategy(&list[at]));
                at += 1;
                assert(tags@ == strategies(list@.take(at as int)));
            }
            assert(list@.take(at as int) == list@);
        },
        Fields::Unit => {},
    }
    tags
}

/// Whether a field carries a `divide_by` token that the vocabulary does not
/// hold. Such a field recurses, as a field without the attribute does; the
/// token may be a slip of the pen.
pub open spec fn doubtful(field: Field) -> bool {
    match annotation(field) {
        Some(token) => !recognized(token),
        None => false,
    }
}

/// Lists the positions of the fields whose `divide_by` token the vocabulary
/// does not hold, in rising order, for whoever wants to warn of them.
pub fn unrecognized_tokens(fields: &Fields) -> (positions: Vec<usize>)
    ensures
        forall|i: int|
            0 <= i < fields.list().len() ==> (positions@.contains(i as usize) <==> doubtful(
                #[trigger] fields.list()[i],
            )),
        forall|k: int| 0 <= k < positions@.len() ==> (#[trigger] positions@[k]) < fields.list().len(),
        forall|j: int, k: int| 0 <= j < k < positions@.len() ==> positions@[j] < positions@[k],
{
    let mut positions: Vec<usize> = Vec::new();
    match fields {
        Fields::Named(list) | Fields::Unnamed(list) => {
            let mut at: usize = 0;
            while at < list.len()
                invariant
                    at <= list.len(),
                    list@ == fields.list(),
                    forall|i: int|
                        0 <= i < at ==> (positions@.contains(i as usize) <==> doubtful(
                            #[trigger] list@[i],
                        )),
                    forall|k: int| 0 <= k < positions@.len() ==> (#[trigger] positions@[k]) < at,
                    forall|j: int, k: int|
                        0 <= j < k < positions@.len() ==> positions@[j] < positions@[k],
                decreases list.len() - at,
            {
                let ghost before = positions@;
                let suspect = match attributes_search(list[at].attrs.as_slice(), "divide_by") {
                    Some(group) => !token_is_recognized(group.stream.as_str()),
                    None => false,
                };
                if suspect {
                    positions.push(at);
                    assert(positions@[before.len() as int] == at);
                }
                proof {
                    assert forall|i: int| 0 <= i < at + 1 implies (positions@.contains(i as usize)
                        <==> doubtful(#[trigger] list@[i])) by {
                        if before.contains(i as usize) {
                            let k = choose|k: int| 0 <= k < before.len() && before[k] == i as usize;
                            assert(positions@[k] == i as usize);
                        }
                        if positions@.contains(i as usize) && !before.contains(i as usize) {
                            let k = choose|k: int|
                                0 <= k < positions@.len() && positions@[k] == i as usize;
                            if k < before.len() {
                                assert(before[k] == i as usize);
                            }
                        }
                    }
                }
                at += 1;
            }
        },
        Fields::Unit => {},
    }
    positions
}

} // verus!
