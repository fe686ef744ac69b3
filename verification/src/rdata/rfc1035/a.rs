//! A record data.

use core::cmp::Ordering;
use crate::iana::{Rtype, RtypeRecordData};
use crate::net::Ipv4Addr;
use crate::octets::{Compose, OctetsBuilder, ShortBuf};
use crate::order::{lex_order, CanonicalOrd};
use crate::parse::{failed_at, parsed_to, then_take, Parse, ParseAll, ParseError, Parsed, Parser};
use crate::text::{chars, into_string, ipv4_text, push_ipv4};
use vstd::prelude::*;

verus! {

/// A record data.
///
/// A records convey the IPv4 address of a host. The wire format is the 32
/// bit IPv4 address in network byte order. The master file format is the
/// usual dotted notation.
///
/// The A record type is defined in RFC 1035, section 3.4.1.
#[derive(Clone, Copy, Debug, Hash)]
pub struct A {
    addr: Ipv4Addr,
}

impl A {
    /// The address, for use in contracts.
    pub closed spec fn spec_addr(&self) -> Ipv4Addr {
        self.addr
    }

    /// The record data with the given address, for use in contracts.
    pub closed spec fn spec_new(addr: Ipv4Addr) -> A {
        A { addr }
    }

    /// Creates a new A record data from an IPv4 address.
    #[verifier::when_used_as_spec(spec_new)]
    pub fn new(addr: Ipv4Addr) -> (res: A)
        ensures
            res == A::spec_new(addr),
            res.addr() == addr,
    {
        A { addr }
    }

    /// Creates a new A record from the IPv4 address components.
    pub fn from_octets(a: u8, b: u8, c: u8, d: u8) -> (res: A)
        ensures
            res.addr()@ == seq![a, b, c, d],
    {
        A::new(Ipv4Addr::new(a, b, c, d))
    }

    /// Returns the address.
    #[verifier::when_used_as_spec(spec_addr)]
    pub fn addr(&self) -> (res: Ipv4Addr)
        ensures
            res == self.spec_addr(),
    {
        self.addr
    }

    /// Replaces the address.
    pub fn set_addr(&mut self, addr: Ipv4Addr)
        ensures
            final(self).addr() == addr,
    {
        self.addr = addr
    }

    /// Returns the ordering of two values: that of the octets of their
    /// addresses.
    pub fn cmp(&self, other: &Self) -> (res: Ordering)
        ensures
            res == lex_order(self.addr()@, other.addr()@),
    {
        self.addr.cmp(&other.addr)
    }
}

//--- Deref, DerefMut, AsRef and AsMut

impl core::ops::Deref for A {
    type Target = Ipv4Addr;

    fn deref(&self) -> (res: &Self::Target)
        ensures
            *res == self.addr(),
    {
        &self.addr
    }
}

impl AsRef<Ipv4Addr> for A {
    fn as_ref(&self) -> (res: &Ipv4Addr)
        ensures
            *res == self.addr(),
    {
        &self.addr
    }
}

impl AsMut<Ipv4Addr> for A {
    fn as_mut(&mut self) -> (res: &mut Ipv4Addr)
        ensures
            *res == old(self).addr(),
            final(self).addr() == *final(res),
    {
        &mut self.addr
    }
}

impl core::ops::DerefMut for A {
    fn deref_mut(&mut self) -> (res: &mut Ipv4Addr)
        ensures
            *res == old(self).addr(),
            final(self).addr() == *final(res),
    {
        &mut self.addr
    }
}

//--- From

impl From<Ipv4Addr> for A {
    fn from(addr: Ipv4Addr) -> (res: Self) {
        Self::new(addr)
    }
}

impl vstd::std_specs::convert::FromSpecImpl<Ipv4Addr> for A {
    open spec fn obeys_from_spec() -> bool {
        true
    }

    open spec fn from_spec(addr: Ipv4Addr) -> Self {
        A::new(addr)
    }
}

impl From<A> for Ipv4Addr {
    fn from(a: A) -> (res: Self) {
        a.addr
    }
}

impl vstd::std_specs::convert::FromSpecImpl<A> for Ipv4Addr {
    open spec fn obeys_from_spec() -> bool {
        true
    }

    open spec fn from_spec(a: A) -> Self {
        a.addr()
    }
}

//--- PartialEq and Eq

impl PartialEq for A {
    fn eq(&self, other: &Self) -> (res: bool) {
        self.addr == other.addr
    }
}

impl Eq for A {

}

impl vstd::std_specs::cmp::PartialEqSpecImpl for A {
    open spec fn obeys_eq_spec() -> bool {
        true
    }

    /// Two values are equal if they have the same address.
    open spec fn eq_spec(&self, other: &Self) -> bool {
        self.addr()@ == other.addr()@
    }
}

//--- PartialOrd and CanonicalOrd

impl PartialOrd for A {
    fn partial_cmp(&self, other: &Self) -> (res: Option<Ordering>) {
        Some(self.addr.cmp(&other.addr))
    }
}

impl vstd::std_specs::cmp::PartialOrdSpecImpl for A {
    open spec fn obeys_partial_cmp_spec() -> bool {
        true
    }

    open spec fn partial_cmp_spec(&self, other: &Self) -> Option<Ordering> {
        Some(lex_order(self.addr()@, other.addr()@))
    }
}

impl CanonicalOrd for A {
    /// The canonical ordering of two values is their natural ordering.
    open spec fn canonical_order(&self, other: &Self) -> Ordering {
        lex_order(self.addr()@, other.addr()@)
    }

    fn canonical_cmp(&self, other: &Self) -> (res: Ordering) {
        self.cmp(other)
    }
}

//--- Compose

impl Compose for A {
    /// The four octets of the address.
    open spec fn wire(&self) -> Seq<u8> {
        self.addr()@
    }

    open spec fn canonical_wire(&self) -> Seq<u8> {
        self.wire()
    }

    fn compose<T: OctetsBuilder>(&self, target: &mut T) -> (res: Result<(), ShortBuf>) {
        self.addr.compose(target)
    }

    fn compose_canonical<T: OctetsBuilder>(&self, target: &mut T) -> (res: Result<(), ShortBuf>) {
        self.compose(target)
    }
}

//--- Parse and ParseAll

impl Parse for A {
    /// Four octets.
    open spec fn parse_spec(octets: Seq<u8>, pos: int) -> Parsed {
        then_take(parsed_to(pos), octets, 4)
    }

    proof fn lemma_parse_spec(octets: Seq<u8>, pos: int) {
    }

    proof fn lemma_round_trip(&self, before: Seq<u8>, after: Seq<u8>) {
        self.addr().lemma_view();
    }

    fn parse(parser: &mut Parser) -> (res: Result<Self, ParseError>) {
        match Ipv4Addr::parse(parser) {
            Ok(addr) => Ok(Self::new(addr)),
            Err(err) => Err(err),
        }
    }

    fn skip(parser: &mut Parser) -> (res: Result<(), ParseError>) {
        Ipv4Addr::skip(parser)
    }
}

impl ParseAll for A {
    /// A field of less than four octets is too short, and one of more than
    /// four is too long. Else the four octets are taken.
    open spec fn parse_all_spec(octets: Seq<u8>, pos: int, len: int) -> Parsed {
        if len < 4 {
            failed_at(pos, ParseError::ShortField)
        } else if len > 4 {
            failed_at(pos, ParseError::TrailingData)
        } else {
            then_take(parsed_to(pos), octets, 4)
        }
    }

    proof fn lemma_parse_all_spec(octets: Seq<u8>, pos: int, len: int) {
    }

    proof fn lemma_round_trip_all(&self, before: Seq<u8>, after: Seq<u8>) {
        self.addr().lemma_view();
    }

    fn parse_all(parser: &mut Parser, len: usize) -> (res: Result<Self, ParseError>) {
        if len < 4 {
            Err(ParseError::ShortField)
        } else if len > 4 {
            Err(ParseError::TrailingData)
        } else {
            Self::parse(parser)
        }
    }
}

//--- Presentation format

impl A {
    /// The value as it is shown: the address in dotted notation.
    pub open spec fn shown(&self) -> Seq<u8> {
        ipv4_text(self.addr()@)
    }

    /// Returns the value in presentation format.
    pub fn to_string(&self) -> (res: String)
        ensures
            res@ == chars(self.shown()),
    {
        let mut out: Vec<u8> = Vec::new();
        push_ipv4(&mut out, self.addr.octets());
        into_string(out)
    }
}

//--- RtypeRecordData

impl RtypeRecordData for A {
    open spec fn rtype_spec() -> Rtype {
        Rtype::A
    }

    fn rtype() -> (res: Rtype) {
        Rtype::A
    }
}

} // verus!
