//! CNAME record data.

use core::cmp::Ordering;
use crate::iana::{Rtype, RtypeRecordData};
use crate::name::{
    canonical_name_order, canonical_name_wire, lowercase_composed_cmp, name_cmp, name_eq,
    name_order, name_wire, names_equal, ToDname,
};
use crate::octets::{Compose, OctetsBuilder, ShortBuf};
use crate::order::CanonicalOrd;
use crate::parse::{Parse, ParseAll, ParseDname, ParseError, Parsed, Parser};
use crate::text::{chars, into_string, name_text, push_name, push_octet};
use vstd::prelude::*;

verus! {

/// CNAME record data.
///
/// The CNAME record specifies the canonical or primary name for domain
/// name alias.
///
/// The CNAME type is defined in RFC 1035, section 3.3.1.
#[derive(Clone, Debug, Hash)]
pub struct Cname<N> {
    cname: N,
}

impl<N> Cname<N> {
    /// The name, for use in contracts.
    pub closed spec fn spec_cname(&self) -> &N {
        &self.cname
    }

    /// The record data with the given name, for use in contracts.
    pub closed spec fn spec_new(cname: N) -> Self {
        Cname { cname }
    }

    /// Creates new CNAME record data from the name.
    #[verifier::when_used_as_spec(spec_new)]
    pub fn new(cname: N) -> (res: Self)
        ensures
            res == Self::spec_new(cname),
            *res.cname() == cname,
    {
        Cname { cname }
    }

    /// Returns the name.
    #[verifier::when_used_as_spec(spec_cname)]
    pub fn cname(&self) -> (res: &N)
        ensures
            res == self.spec_cname(),
    {
        &self.cname
    }
}

impl<N: ToDname> Cname<N> {
    /// The natural ordering of two values: that of their names.
    pub open spec fn natural_order<NN: ToDname>(&self, other: &Cname<NN>) -> Ordering {
        name_order(self.cname().labels(), other.cname().labels())
    }

    /// Returns the natural ordering of two values.
    pub fn cmp(&self, other: &Self) -> (res: Ordering)
        ensures
            res == self.natural_order(other),
    {
        name_cmp(&self.cname, &other.cname)
    }
}

//--- Presentation format

impl<N: ToDname> Cname<N> {
    /// The value as it is shown: the name, then a dot.
    pub open spec fn shown(&self) -> Seq<u8> {
        name_text(self.cname().labels()) + seq![0x2Eu8]
    }

    /// Returns the value in presentation format.
    pub fn to_string(&self) -> (res: String)
        ensures
            res@ == chars(self.shown()),
    {
        let mut out: Vec<u8> = Vec::new();
        push_name(&mut out, &self.cname);
        push_octet(&mut out, 0x2E);
        into_string(out)
    }
}

//--- Deref

impl<N> core::ops::Deref for Cname<N> {
    type Target = N;

    fn deref(&self) -> (res: &Self::Target)
        ensures
            res == self.cname(),
    {
        &self.cname
    }
}

//--- From

impl<N> From<N> for Cname<N> {
    fn from(name: N) -> (res: Self) {
        Self::new(name)
    }
}

impl<N> vstd::std_specs::convert::FromSpecImpl<N> for Cname<N> {
    open spec fn obeys_from_spec() -> bool {
        true
    }

    open spec fn from_spec(name: N) -> Self {
        Self::new(name)
    }
}

//--- PartialEq and Eq

impl<N: ToDname, NN: ToDname> PartialEq<Cname<NN>> for Cname<N> {
    fn eq(&self, other: &Cname<NN>) -> (res: bool) {
        name_eq(&self.cname, &other.cname)
    }
}

impl<N: ToDname> Eq for Cname<N> {

}

impl<N: ToDname, NN: ToDname> vstd::std_specs::cmp::PartialEqSpecImpl<Cname<NN>> for Cname<N> {
    open spec fn obeys_eq_spec() -> bool {
        true
    }

    /// Two values are equal if their names are.
    open spec fn eq_spec(&self, other: &Cname<NN>) -> bool {
        names_equal(self.cname().labels(), other.cname().labels())
    }
}

//--- PartialOrd and CanonicalOrd

impl<N: ToDname, NN: ToDname> PartialOrd<Cname<NN>> for Cname<N> {
    fn partial_cmp(&self, other: &Cname<NN>) -> (res: Option<Ordering>) {
        Some(name_cmp(&self.cname, &other.cname))
    }
}

impl<N: ToDname, NN: ToDname> vstd::std_specs::cmp::PartialOrdSpecImpl<Cname<NN>> for Cname<N> {
    open spec fn obeys_partial_cmp_spec() -> bool {
        true
    }

    open spec fn partial_cmp_spec(&self, other: &Cname<NN>) -> Option<Ordering> {
        Some(self.natural_order(other))
    }
}

impl<N: ToDname, NN: ToDname> CanonicalOrd<Cname<NN>> for Cname<N> {
    /// The canonical ordering of two values: that of their names.
    open spec fn canonical_order(&self, other: &Cname<NN>) -> Ordering {
        canonical_name_order(self.cname().labels(), other.cname().labels())
    }

    fn canonical_cmp(&self, other: &Cname<NN>) -> (res: Ordering) {
        lowercase_composed_cmp(&self.cname, &other.cname)
    }
}

//--- Compose

impl<N: ToDname> Compose for Cname<N> {
    /// The name.
    open spec fn wire(&self) -> Seq<u8> {
        name_wire(self.cname().labels())
    }

    /// The name in lower case.
    open spec fn canonical_wire(&self) -> Seq<u8> {
        canonical_name_wire(self.cname().labels())
    }

    fn compose<T: OctetsBuilder>(&self, target: &mut T) -> (res: Result<(), ShortBuf>) {
        target.append_compressed_dname(&self.cname)
    }

    fn compose_canonical<T: OctetsBuilder>(&self, target: &mut T) -> (res: Result<(), ShortBuf>) {
        crate::name::compose_canonical(&self.cname, target)
    }
}

//--- RtypeRecordData

impl<N> RtypeRecordData for Cname<N> {
    open spec fn rtype_spec() -> Rtype {
        Rtype::Cname
    }

    fn rtype() -> (res: Rtype) {
        Rtype::Cname
    }
}

//--- Parse and ParseAll

impl<N: ParseDname> Parse for Cname<N> {
    /// The name.
    open spec fn parse_spec(octets: Seq<u8>, pos: int) -> Parsed {
        N::parse_spec(octets, pos)
    }

    proof fn lemma_parse_spec(octets: Seq<u8>, pos: int) {
        N::lemma_parse_spec(octets, pos);
    }

    proof fn lemma_round_trip(&self, before: Seq<u8>, after: Seq<u8>) {
        self.cname().lemma_wire();
        self.cname().lemma_round_trip(before, after);
    }

    fn parse(parser: &mut Parser) -> (res: Result<Self, ParseError>) {
        match N::parse(parser) {
            Ok(name) => {
                proof {
                    name.lemma_wire();
                }
                Ok(Self::new(name))
            },
            Err(err) => Err(err),
        }
    }

    fn skip(parser: &mut Parser) -> (res: Result<(), ParseError>) {
        N::skip(parser)
    }
}

impl<N: ParseDname> ParseAll for Cname<N> {
    /// The name, which has to fill the field.
    open spec fn parse_all_spec(octets: Seq<u8>, pos: int, len: int) -> Parsed {
        N::parse_all_spec(octets, pos, len)
    }

    proof fn lemma_parse_all_spec(octets: Seq<u8>, pos: int, len: int) {
        N::lemma_parse_all_spec(octets, pos, len);
    }

    proof fn lemma_round_trip_all(&self, before: Seq<u8>, after: Seq<u8>) {
        self.cname().lemma_wire();
        self.cname().lemma_round_trip_all(before, after);
    }

    fn parse_all(parser: &mut Parser, len: usize) -> (res: Result<Self, ParseError>) {
        match N::parse_all(parser, len) {
            Ok(name) => {
                proof {
                    name.lemma_wire();
                }
                Ok(Self::new(name))
            },
            Err(err) => Err(err),
        }
    }
}

} // verus!
