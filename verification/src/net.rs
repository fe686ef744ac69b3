//! Internet addresses.

use core::cmp::Ordering;
use crate::octets::{Compose, OctetsBuilder, ShortBuf};
use crate::order::{cmp_slices, lex_order};
use crate::parse::{parsed_to, then_take, Parse, ParseError, Parsed, Parser};
use crate::text::{chars, into_string, ipv4_text, push_ipv4};
use vstd::prelude::*;

verus! {

//------------ Ipv4Addr ------------------------------------------------------

/// An IPv4 address: four octets.
#[derive(Clone, Copy, Debug, Hash)]
pub struct Ipv4Addr {
    octets: [u8; 4],
}

impl Ipv4Addr {
    /// The four octets of the address in the order they are written.
    pub closed spec fn view(&self) -> Seq<u8> {
        self.octets@
    }

    /// An address has four octets.
    pub proof fn lemma_view(&self)
        ensures
            self@.len() == 4,
    {
    }

    /// Creates the address `a.b.c.d`.
    pub fn new(a: u8, b: u8, c: u8, d: u8) -> (res: Self)
        ensures
            res@ == seq![a, b, c, d],
    {
        let octets = [a, b, c, d];
        Ipv4Addr { octets }
    }

    /// Returns the four octets of the address.
    pub fn octets(&self) -> (res: [u8; 4])
        ensures
            res@ == self@,
    {
        self.octets
    }

    /// Returns the ordering of two addresses: that of their octets.
    pub fn cmp(&self, other: &Self) -> (res: Ordering)
        ensures
            res == lex_order(self@, other@),
    {
        cmp_slices(&self.octets, &other.octets)
    }
}

impl PartialEq for Ipv4Addr {
    fn eq(&self, other: &Self) -> (res: bool) {
        let res = self.octets[0] == other.octets[0] && self.octets[1] == other.octets[1]
            && self.octets[2] == other.octets[2] && self.octets[3] == other.octets[3];
        assert(res == (self@ =~= other@));
        res
    }
}

impl Eq for Ipv4Addr {

}

impl PartialOrd for Ipv4Addr {
    fn partial_cmp(&self, other: &Self) -> (res: Option<Ordering>) {
        Some(cmp_slices(&self.octets, &other.octets))
    }
}

impl vstd::std_specs::cmp::PartialOrdSpecImpl for Ipv4Addr {
    open spec fn obeys_partial_cmp_spec() -> bool {
        true
    }

    /// Addresses are ordered as their octets are.
    open spec fn partial_cmp_spec(&self, other: &Self) -> Option<Ordering> {
        Some(lex_order(self@, other@))
    }
}

impl vstd::std_specs::cmp::PartialEqSpecImpl for Ipv4Addr {
    open spec fn obeys_eq_spec() -> bool {
        true
    }

    open spec fn eq_spec(&self, other: &Self) -> bool {
        self@ == other@
    }
}

impl Compose for Ipv4Addr {
    open spec fn wire(&self) -> Seq<u8> {
        self@
    }

    open spec fn canonical_wire(&self) -> Seq<u8> {
        self.wire()
    }

    fn compose<T: OctetsBuilder>(&self, target: &mut T) -> (res: Result<(), ShortBuf>) {
        target.append_slice(&self.octets)
    }

    fn compose_canonical<T: OctetsBuilder>(&self, target: &mut T) -> (res: Result<(), ShortBuf>) {
        self.compose(target)
    }
}

impl Parse for Ipv4Addr {
    open spec fn parse_spec(octets: Seq<u8>, pos: int) -> Parsed {
        then_take(parsed_to(pos), octets, 4)
    }

    proof fn lemma_parse_spec(octets: Seq<u8>, pos: int) {
    }

    proof fn lemma_round_trip(&self, before: Seq<u8>, after: Seq<u8>) {
    }

    fn parse(parser: &mut Parser) -> (res: Result<Self, ParseError>) {
        match parser.parse_octets(4) {
            Ok(slice) => {
                let addr = Ipv4Addr::new(slice[0], slice[1], slice[2], slice[3]);
                assert(addr@ =~= slice@);
                Ok(addr)
            },
            Err(_) => Err(ParseError::ShortBuf),
        }
    }

    fn skip(parser: &mut Parser) -> (res: Result<(), ParseError>) {
        match parser.advance(4) {
            Ok(_) => Ok(()),
            Err(_) => Err(ParseError::ShortBuf),
        }
    }
}

//------------ Ipv6Addr ------------------------------------------------------

/// An IPv6 address: sixteen octets.
#[derive(Clone, Copy, Debug, PartialEq, Eq, Hash)]
pub struct Ipv6Addr {
    octets: [u8; 16],
}

impl Ipv6Addr {
    /// The sixteen octets of the address in the order they are written.
    pub closed spec fn view(&self) -> Seq<u8> {
        self.octets@
    }

    /// An address has sixteen octets.
    pub proof fn lemma_view(&self)
        ensures
            self@.len() == 16,
    {
    }

    /// Creates the address with the given octets.
    pub fn from_octets(octets: [u8; 16]) -> (res: Self)
        ensures
            res@ == octets@,
    {
        Ipv6Addr { octets }
    }

    /// Returns the sixteen octets of the address.
    pub fn octets(&self) -> (res: [u8; 16])
        ensures
            res@ == self@,
    {
        self.octets
    }
}

impl Compose for Ipv6Addr {
    open spec fn wire(&self) -> Seq<u8> {
        self@
    }

    open spec fn canonical_wire(&self) -> Seq<u8> {
        self.wire()
    }

    fn compose<T: OctetsBuilder>(&self, target: &mut T) -> (res: Result<(), ShortBuf>) {
        target.append_slice(&self.octets)
    }

    fn compose_canonical<T: OctetsBuilder>(&self, target: &mut T) -> (res: Result<(), ShortBuf>) {
        self.compose(target)
    }
}

//--- Presentation format

impl Ipv4Addr {
    /// Returns the address in dotted notation.
    pub fn to_string(&self) -> (res: String)
        ensures
            res@ == chars(ipv4_text(self@)),
    {
        let mut out: Vec<u8> = Vec::new();
        push_ipv4(&mut out, self.octets);
        into_string(out)
    }
}

} // verus!
