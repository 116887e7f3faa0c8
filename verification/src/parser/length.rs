use vstd::prelude::*;
use vstd::string::StringSliceAdditionalSpecFns;

use crate::error::{Error, Kind};
use super::grammar::dec_number;
use super::scan::parse_dec;

verus! {

/// Parse the text of a prefix length: a decimal number of one to three
/// digits, without leading zeros, of value at most 255.
///
/// # Errors
///
/// Fails with [`Kind::ParserError`] on any other text.
pub fn parse_length(input: &str) -> (r: Result<u8, Error>)
    ensures
        match dec_number(input.spec_bytes()) {
            Some(l) => r == Ok::<u8, Error>(l),
            None => r matches Err(e) && e.spec_kind() == Kind::ParserError,
        },
{
    let s = input.as_bytes();
    proof {
        assert(s@.subrange(0, s@.len() as int) =~= s@);
    }
    match parse_dec(s, 0, s.len()) {
        Some(l) => Ok(l),
        None => Err(Error::of_kind(Kind::ParserError)),
    }
}

} // verus!
