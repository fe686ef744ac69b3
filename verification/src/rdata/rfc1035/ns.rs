//! NS record data.

use core::cmp::Ordering;
use crate::iana::{Rtype, RtypeRecordData};
use crate::name::{
    canonical_name_order, canonical_name_wire, lowercase_composed_cmp, name_cmp, name_eq,
    name_order, name_wire, names_equal, ToDname,
};
use crate::octets::{Compose, OctetsBuilder, ShortBuf};
use crate::order::CanonicalOrd;
use crate::parse::{Parse, ParseAll, ParseDname, ParseError, Parsed, Parser};
use crate::text::{chars, into_string, name_text, push_name, push_octet};
use vstd::prelude::*;

verus! {

/// NS record data.
///
/// NS records specify hosts that are authoritative for a class and domain.
///
/// The NS record type is defined in RFC 1035, section 3.3.11.
#[derive(Clone, Debug, Hash)]
pub struct Ns<N> {
    nsdname: N,
}

impl<N> Ns<N> {
    /// The name, for use in contracts.
    pub closed spec fn spec_nsdname(&self) -> &N {
        &self.nsdname
    }

    /// The record data with the given name, for use in contracts.
    pub closed spec fn spec_new(nsdname: N) -> Self {
        Ns { nsdname }
    }

    /// Creates new NS record data from the name.
    #[verifier::when_used_as_spec(spec_new)]
    pub fn new(nsdname: N) -> (res: Self)
        ensures
            res == Self::spec_new(nsdname),
            *res.nsdname() == nsdname,
    {
        Ns { nsdname }
    }

    /// Returns the name.
    #[verifier::when_used_as_spec(spec_nsdname)]
    pub fn nsdname(&self) -> (res: &N)
        ensures
            res == self.spec_nsdname(),
    {
        &self.nsdname
    }
}

impl<N: ToDname> Ns<N> {
    /// The natural ordering of two values: that of their names.
    pub open spec fn natural_order<NN: ToDname>(&self, other: &Ns<NN>) -> Ordering {
        name_order(self.nsdname().labels(), other.nsdname().labels())
    }

    /// Returns the natural ordering of two values.
    pub fn cmp(&self, other: &Self) -> (res: Ordering)
        ensures
            res == self.natural_order(other),
    {
        name_cmp(&self.nsdname, &other.nsdname)
    }
}

//--- Presentation format

impl<N: ToDname> Ns<N> {
    /// The value as it is shown: the name, then a dot.
    pub open spec fn shown(&self) -> Seq<u8> {
        name_text(self.nsdname().labels()) + seq![0x2Eu8]
    }

    /// Returns the value in presentation format.
    pub fn to_string(&self) -> (res: String)
        ensures
            res@ == chars(self.shown()),
    {
        let mut out: Vec<u8> = Vec::new();
        push_name(&mut out, &self.nsdname);
        push_octet(&mut out, 0x2E);
        into_string(out)
    }
}

//--- Deref

impl<N> core::ops::Deref for Ns<N> {
    type Target = N;

    fn deref(&self) -> (res: &Self::Target)
        ensures
            res == self.nsdname(),
    {
        &self.nsdname
    }
}

//--- From

impl<N> From<N> for Ns<N> {
    fn from(name: N) -> (res: Self) {
        Self::new(name)
    }
}

impl<N> vstd::std_specs::convert::FromSpecImpl<N> for Ns<N> {
    open spec fn obeys_from_spec() -> bool {
        true
    }

    open spec fn from_spec(name: N) -> Self {
        Self::new(name)
    }
}

//--- PartialEq and Eq

impl<N: ToDname, NN: ToDname> PartialEq<Ns<NN>> for Ns<N> {
    fn eq(&self, other: &Ns<NN>) -> (res: bool) {
        name_eq(&self.nsdname, &other.nsdname)
    }
}

impl<N: ToDname> Eq for Ns<N> {

}

impl<N: ToDname, NN: ToDname> vstd::std_specs::cmp::PartialEqSpecImpl<Ns<NN>> for Ns<N> {
    open spec fn obeys_eq_spec() -> bool {
        true
    }

    /// Two values are equal if their names are.
    open spec fn eq_spec(&self, other: &Ns<NN>) -> bool {
        names_equal(self.nsdname().labels(), other.nsdname().labels())
    }
}

//--- PartialOrd and CanonicalOrd

impl<N: ToDname, NN: ToDname> PartialOrd<Ns<NN>> for Ns<N> {
    fn partial_cmp(&self, other: &Ns<NN>) -> (res: Option<Ordering>) {
        Some(name_cmp(&self.nsdname, &other.nsdname))
    }
}

impl<N: ToDname, NN: ToDname> vstd::std_specs::cmp::PartialOrdSpecImpl<Ns<NN>> for Ns<N> {
    open spec fn obeys_partial_cmp_spec() -> bool {
        true
    }

    open spec fn partial_cmp_spec(&self, other: &Ns<NN>) -> Option<Ordering> {
        Some(self.natural_order(other))
    }
}

impl<N: ToDname, NN: ToDname> CanonicalOrd<Ns<NN>> for Ns<N> {
    /// The canonical ordering of two values: that of their names.
    open spec fn canonical_order(&self, other: &Ns<NN>) -> Ordering {
        canonical_name_order(self.nsdname().labels(), other.nsdname().labels())
    }

    fn canonical_cmp(&self, other: &Ns<NN>) -> (res: Ordering) {
        lowercase_composed_cmp(&self.nsdname, &other.nsdname)
    }
}

//--- Compose

impl<N: ToDname> Compose for Ns<N> {
    /// The name.
    open spec fn wire(&self) -> Seq<u8> {
        name_wire(self.nsdname().labels())
    }

    /// The name in lower case.
    open spec fn canonical_wire(&self) -> Seq<u8> {
        canonical_name_wire(self.nsdname().labels())
    }

    fn compose<T: OctetsBuilder>(&self, target: &mut T) -> (res: Result<(), ShortBuf>) {
        target.append_compressed_dname(&self.nsdname)
    }

    fn compose_canonical<T: OctetsBuilder>(&self, target: &mut T) -> (res: Result<(), ShortBuf>) {
        crate::name::compose_canonical(&self.nsdname, target)
    }
}

//--- RtypeRecordData

impl<N> RtypeRecordData for Ns<N> {
    open spec fn rtype_spec() -> Rtype {
        Rtype::Ns
    }

    fn rtype() -> (res: Rtype) {
        Rtype::Ns
    }
}

//--- Parse and ParseAll

impl<N: ParseDname> Parse for Ns<N> {
    /// The name.
    open spec fn parse_spec(octets: Seq<u8>, pos: int) -> Parsed {
        N::parse_spec(octets, pos)
    }

    proof fn lemma_parse_spec(octets: Seq<u8>, pos: int) {
        N::lemma_parse_spec(octets, pos);
    }

    proof fn lemma_round_trip(&self, before: Seq<u8>, after: Seq<u8>) {
        self.nsdname().lemma_wire();
        self.nsdname().lemma_round_trip(before, after);
    }

    fn parse(parser: &mut Parser) -> (res: Result<Self, ParseError>) {
        match N::parse(parser) {
            Ok(name) => {
                proof {
                    name.lemma_wire();
                }
                Ok(Self::new(name))
            },
            Err(err) => Err(err),
        }
    }

    fn skip(parser: &mut Parser) -> (res: Result<(), ParseError>) {
        N::skip(parser)
    }
}

impl<N: ParseDname> ParseAll for Ns<N> {
    /// The name, which has to fill the field.
    open spec fn parse_all_spec(octets: Seq<u8>, pos: int, len: int) -> Parsed {
        N::parse_all_spec(octets, pos, len)
    }

    proof fn lemma_parse_all_spec(octets: Seq<u8>, pos: int, len: int) {
        N::lemma_parse_all_spec(octets, pos, len);
    }

    proof fn lemma_round_trip_all(&self, before: Seq<u8>, after: Seq<u8>) {
        self.nsdname().lemma_wire();
        self.nsdname().lemma_round_trip_all(before, after);
    }

    fn parse_all(parser: &mut Parser, len: usize) -> (res: Result<Self, ParseError>) {
        match N::parse_all(parser, len) {
            Ok(name) => {
                proof {
                    name.lemma_wire();
                }
                Ok(Self::new(name))
            },
            Err(err) => Err(err),
        }
    }
}

} // verus!
