//! Text primitives that the synthesizers share.
use quote::ToTokens;
use vstd::prelude::*;
use vstd::string::*;

verus! {

/// The character of one decimal digit.
pub open spec fn digit(d: nat) -> char {
    if d == 0 {
        '0'
    } else if d == 1 {
        '1'
    } else if d == 2 {
        '2'
    } else if d == 3 {
        '3'
    } else if d == 4 {
        '4'
    } else if d == 5 {
        '5'
    } else if d == 6 {
        '6'
    } else if d == 7 {
        '7'
    } else if d == 8 {
        '8'
    } else {
        '9'
    }
}

/// The decimal digits of `n`, most significant first, without leading zeros.
pub open spec fn decimal(n: nat) -> Seq<char>
    decreases n,
{
    if n < 10 {
        seq![digit(n)]
    } else {
        decimal(n / 10) + seq![digit(n % 10)]
    }
}

/// What was written, or why nothing was.
pub open spec fn written<E>(result: Result<String, E>) -> Result<Seq<char>, E> {
    match result {
        Ok(text) => Ok(text@),
        Err(error) => Err(error),
    }
}

/// A text without its spaces.
pub open spec fn compact(text: Seq<char>) -> Seq<char> {
    text.filter(|c: char| c != ' ')
}

/// The position of a tuple field, written as `syn` writes it.
///
/// Trusted: calls `syn::Index::from` and prints the index through
/// `quote::ToTokens` and `proc_macro2::TokenStream`. `syn` holds the position
/// as a `u32` and refuses `u32::MAX` and above; what it prints is one
/// unsuffixed integer literal, the position in decimal.
#[verifier::external_body]
pub(crate) fn index_text(position: usize) -> (text: String)
    requires
        position < u32::MAX,
    ensures
        text@ == decimal(position as nat),
{
    syn::Index::from(position).into_token_stream().to_string()
}

/// Whether two texts hold the same characters.
pub(crate) fn same_text(a: &str, b: &str) -> (same: bool)
    ensures
        same == (a@ == b@),
{
    let left = String::from_str(a);
    let right = String::from_str(b);
    left == right
}

/// Copies `text`, leaving its spaces out.
pub(crate) fn without_spaces(text: &str) -> (packed: String)
    ensures
        packed@ == compact(text@),
{
    let mut packed = String::new();
    let length: usize = text.unicode_len();
    let mut at: usize = 0;
    while at < length
        invariant
            length == text@.len(),
            at <= length,
            packed@ == compact(text@.take(at as int)),
        decreases length - at,
    {
        let c = text.get_char(at);
        proof {
            let before = text@.take(at as int);
            let after = text@.take(at + 1);
            assert(after.drop_last() == before);
            assert(after.last() == c);
            reveal(Seq::filter);
            assert(text@.subrange(at as int, at + 1) == seq![c]);
        }
        if c != ' ' {
            packed.append(text.substring_char(at, at + 1));
        }
        at += 1;
    }
    assert(text@.take(length as int) == text@);
    packed
}

} // verus!
