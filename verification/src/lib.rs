//! Derivation of divisibility for record types.
//!
//! A record is made divisible field by field: every field is tagged with a
//! [`Strategy`], and from the tagged field list the crate writes the Rust
//! source of the `Divisible`, `DivisibleIntoBlocks`, `DivisibleAtIndex` and
//! `ParallelIterator` implementations of that record.
//!
//! The record is described by plain values ([`DeriveInput`]); the text that
//! comes out is handed to the compiler by the procedural macro that wraps this
//! crate. The module [`model`] gives the operations that the written code
//! performs on a record a meaning, and states what holds of them.
pub mod derive;
pub mod error;
pub mod iterator;
pub mod laws;
pub mod length;
pub mod locate;
pub mod model;
pub mod schema;
pub mod split;
pub mod strategy;
pub mod text;

pub use crate::derive::{derive_divisible, derive_divisible_at_index, derive_divisible_into_blocks};
pub use crate::error::{Declaration, DeriveError};
pub use crate::iterator::derive_parallel_iterator;
pub use crate::length::{generate_len_expression, LengthPolicy};
pub use crate::locate::find_single_child;
pub use crate::schema::{
    attributes_search, find_strategy, power_type, resolve_strategies, unrecognized_tokens,
    Attribute, Data, Delimiter, DeriveInput, Field, Fields, Generics, Group,
};
pub use crate::split::{
    generate_fields, generate_split_declarations, generate_split_into_blocks_declarations,
};
pub use crate::strategy::{strategy_of_token, token_is_recognized, Strategy};
