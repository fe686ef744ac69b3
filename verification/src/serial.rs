//! Serial numbers.

use core::cmp::Ordering;
use crate::octets::{be_u32, Compose, OctetsBuilder, ShortBuf};
use crate::order::{cmp_u32, order_u32, CanonicalOrd};
use crate::parse::{parsed_to, then_take, Parse, ParseError, Parsed, Parser};
use crate::text::{chars, decimal, into_string, push_decimal};
use vstd::prelude::*;

verus! {

/// A serial number: the version of a zone.
///
/// A serial number is a 32 bit number that wraps around when it grows
/// beyond its greatest value.
#[derive(Clone, Copy, Debug, PartialEq, Eq, Hash, Structural)]
pub struct Serial(pub u32);

impl Serial {
    /// Creates the serial number with the given value.
    pub fn from_int(value: u32) -> (res: Self)
        ensures
            res.0 == value,
    {
        Serial(value)
    }

    /// Returns the value of the serial number.
    pub fn into_int(self) -> (res: u32)
        ensures
            res == self.0,
    {
        self.0
    }

    /// Returns the serial number that lies `other` steps ahead, wrapping
    /// around behind the greatest value.
    pub fn add(self, other: u32) -> (res: Self)
        ensures
            res.0 == (self.0 + other) % 0x1_0000_0000,
    {
        Serial(self.0.wrapping_add(other))
    }
}

impl Compose for Serial {
    open spec fn wire(&self) -> Seq<u8> {
        be_u32(self.0)
    }

    open spec fn canonical_wire(&self) -> Seq<u8> {
        self.wire()
    }

    fn compose<T: OctetsBuilder>(&self, target: &mut T) -> (res: Result<(), ShortBuf>) {
        assert(self.wire() == self.0.wire());
        self.0.compose(target)
    }

    fn compose_canonical<T: OctetsBuilder>(&self, target: &mut T) -> (res: Result<(), ShortBuf>) {
        self.compose(target)
    }
}

impl Parse for Serial {
    open spec fn parse_spec(octets: Seq<u8>, pos: int) -> Parsed {
        then_take(parsed_to(pos), octets, 4)
    }

    proof fn lemma_parse_spec(octets: Seq<u8>, pos: int) {
    }

    proof fn lemma_round_trip(&self, before: Seq<u8>, after: Seq<u8>) {
    }

    fn parse(parser: &mut Parser) -> (res: Result<Self, ParseError>) {
        match parser.parse_u32() {
            Ok(value) => Ok(Serial(value)),
            Err(_) => Err(ParseError::ShortBuf),
        }
    }

    fn skip(parser: &mut Parser) -> (res: Result<(), ParseError>) {
        match parser.advance(4) {
            Ok(_) => Ok(()),
            Err(_) => Err(ParseError::ShortBuf),
        }
    }
}

impl CanonicalOrd for Serial {
    open spec fn canonical_order(&self, other: &Self) -> Ordering {
        order_u32(self.0, other.0)
    }

    fn canonical_cmp(&self, other: &Self) -> (res: Ordering) {
        cmp_u32(self.0, other.0)
    }
}

//--- Presentation format

impl Serial {
    /// Returns the serial number in decimal.
    pub fn to_string(&self) -> (res: String)
        ensures
            res@ == chars(decimal(self.0 as nat)),
    {
        let mut out: Vec<u8> = Vec::new();
        push_decimal(&mut out, self.0 as u64);
        into_string(out)
    }
}

} // verus!
