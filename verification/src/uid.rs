//! Session identifiers: 128-bit, time-sortable ids.
//!
//! The id itself is a plain 128-bit value the library reasons about
//! directly; generating a fresh id and converting to or from the canonical
//! 26-character text form are done by the `ulid` crate behind trusted
//! wrappers.
use vstd::prelude::*;

verus! {

/// A globally unique 128-bit, time-sortable identifier.
#[derive(Clone, Copy, Debug, PartialEq, Eq, Hash, PartialOrd, Ord, Structural)]
pub struct Uid {
    pub bits: u128,
}

/// Why a piece of text is not a valid id.
#[derive(Clone, Copy, Debug, PartialEq, Eq, Structural)]
pub enum UidParseError {
    /// The text does not have the canonical length.
    InvalidLength,
    /// The text holds a character outside the id alphabet.
    InvalidChar,
}

/// The canonical 26-character text form of an id's bits.  The encoding is a
/// fixed base-32 alphabet, a function of the bits alone.
pub uninterp spec fn ulid_text(bits: u128) -> Seq<char>;

/// The bits a piece of text decodes to, if it is a well-formed id: the
/// decoder accepts exactly the canonically sized texts over the id alphabet,
/// as a function of the text alone.
pub uninterp spec fn ulid_parse(s: Seq<char>) -> Option<u128>;

/// Relies on ulid::Ulid::new: a fresh id from the clock and a random source.
/// Nothing relates two calls, so no two results are claimed equal or
/// distinct.
#[verifier::external_body]
fn fresh_ulid_bits() -> u128 {
    ulid::Ulid::new().0
}

/// Relies on ulid::Ulid::to_string (base-32 encode): deterministic in the
/// bits, always exactly 26 characters of the Crockford alphabet.
#[verifier::external_body]
fn ulid_bits_to_string(bits: u128) -> (r: String)
    ensures
        r@ == ulid_text(bits),
        r@.len() == 26,
{
    ulid::Ulid(bits).to_string()
}

/// Relies on ulid::Ulid::from_string (base-32 decode): deterministic in the
/// text; rejects text whose length is not canonical or that holds a
/// character outside the alphabet, and otherwise returns the decoded bits.
#[verifier::external_body]
fn ulid_bits_from_string(s: &str) -> (r: Result<u128, UidParseError>)
    ensures
        (match r {
            Ok(bits) => ulid_parse(s@) == Some(bits),
            Err(_) => ulid_parse(s@) is None,
        }),
{
    match ulid::Ulid::from_string(s) {
        Ok(u) => Ok(u.0),
        Err(ulid::DecodeError::InvalidLength) => Err(UidParseError::InvalidLength),
        Err(ulid::DecodeError::InvalidChar) => Err(UidParseError::InvalidChar),
    }
}

impl Uid {
    /// A fresh id drawn from the clock and a random source.
    pub fn new() -> Uid {
        Uid { bits: fresh_ulid_bits() }
    }

    /// The nil id: all 128 bits zero.
    pub fn nil() -> (r: Uid)
        ensures
            r.bits == 0,
    {
        Uid { bits: 0 }
    }

    /// Whether this is the nil id.
    pub fn is_nil(&self) -> (r: bool)
        ensures
            r == (self.bits == 0),
    {
        self.bits == 0
    }

    /// The id as a plain 128-bit integer.
    pub fn as_u128(&self) -> (r: u128)
        ensures
            r == self.bits,
    {
        self.bits
    }

    /// Parse the canonical text form of an id.
    pub fn try_parse(s: &str) -> (r: Result<Uid, UidParseError>)
        ensures
            (match r {
                Ok(u) => ulid_parse(s@) == Some(u.bits),
                Err(_) => ulid_parse(s@) is None,
            }),
    {
        match ulid_bits_from_string(s) {
            Ok(bits) => Ok(Uid { bits }),
            Err(e) => Err(e),
        }
    }

    /// The canonical 26-character text form of this id.
    pub fn into_string(self) -> (r: String)
        ensures
            r@ == ulid_text(self.bits),
            r@.len() == 26,
    {
        ulid_bits_to_string(self.bits)
    }
}

} // verus!
