//! MD record data.

use core::cmp::Ordering;
use crate::iana::{Rtype, RtypeRecordData};
use crate::name::{
    canonical_name_order, canonical_name_wire, lowercase_composed_cmp, name_cmp, name_eq,
    name_order, name_wire, names_equal, ToDname,
};
use crate::octets::{Compose, OctetsBuilder, ShortBuf};
use crate::order::CanonicalOrd;
use crate::parse::{Parse, ParseAll, ParseDname, ParseError, Parsed, Parser};
use crate::text::{chars, into_string, name_text, push_name, push_octet};
use vstd::prelude::*;

verus! {

/// MD record data.
///
/// The MD record specifices a host which has a mail agent for
/// the domain which should be able to deliver mail for the domain.
///
/// The MD record is obsolete. It is recommended to either reject the record
/// or convert them into an Mx record at preference 0.
///
/// The MD record type is defined in RFC 1035, section 3.3.4.
#[derive(Clone, Debug, Hash)]
pub struct Md<N> {
    madname: N,
}

impl<N> Md<N> {
    /// The name, for use in contracts.
    pub closed spec fn spec_madname(&self) -> &N {
        &self.madname
    }

    /// The record data with the given name, for use in contracts.
    pub closed spec fn spec_new(madname: N) -> Self {
        Md { madname }
    }

    /// Creates new MD record data from the name.
    #[verifier::when_used_as_spec(spec_new)]
    pub fn new(madname: N) -> (res: Self)
        ensures
            res == Self::spec_new(madname),
            *res.madname() == madname,
    {
        Md { madname }
    }

    /// Returns the name.
    #[verifier::when_used_as_spec(spec_madname)]
    pub fn madname(&self) -> (res: &N)
        ensures
            res == self.spec_madname(),
    {
        &self.madname
    }
}

impl<N: ToDname> Md<N> {
    /// The natural ordering of two values: that of their names.
    pub open spec fn natural_order<NN: ToDname>(&self, other: &Md<NN>) -> Ordering {
        name_order(self.madname().labels(), other.madname().labels())
    }

    /// Returns the natural ordering of two values.
    pub fn cmp(&self, other: &Self) -> (res: Ordering)
        ensures
            res == self.natural_order(other),
    {
        name_cmp(&self.madname, &other.madname)
    }
}

//--- Presentation format

impl<N: ToDname> Md<N> {
    /// The value as it is shown: the name, then a dot.
    pub open spec fn shown(&self) -> Seq<u8> {
        name_text(self.madname().labels()) + seq![0x2Eu8]
    }

    /// Returns the value in presentation format.
    pub fn to_string(&self) -> (res: String)
        ensures
            res@ == chars(self.shown()),
    {
        let mut out: Vec<u8> = Vec::new();
        push_name(&mut out, &self.madname);
        push_octet(&mut out, 0x2E);
        into_string(out)
    }
}

//--- Deref

impl<N> core::ops::Deref for Md<N> {
    type Target = N;

    fn deref(&self) -> (res: &Self::Target)
        ensures
            res == self.madname(),
    {
        &self.madname
    }
}

//--- From

impl<N> From<N> for Md<N> {
    fn from(name: N) -> (res: Self) {
        Self::new(name)
    }
}

impl<N> vstd::std_specs::convert::FromSpecImpl<N> for Md<N> {
    open spec fn obeys_from_spec() -> bool {
        true
    }

    open spec fn from_spec(name: N) -> Self {
        Self::new(name)
    }
}

//--- PartialEq and Eq

impl<N: ToDname, NN: ToDname> PartialEq<Md<NN>> for Md<N> {
    fn eq(&self, other: &Md<NN>) -> (res: bool) {
        name_eq(&self.madname, &other.madname)
    }
}

impl<N: ToDname> Eq for Md<N> {

}

impl<N: ToDname, NN: ToDname> vstd::std_specs::cmp::PartialEqSpecImpl<Md<NN>> for Md<N> {
    open spec fn obeys_eq_spec() -> bool {
        true
    }

    /// Two values are equal if their names are.
    open spec fn eq_spec(&self, other: &Md<NN>) -> bool {
        names_equal(self.madname().labels(), other.madname().labels())
    }
}

//--- PartialOrd and CanonicalOrd

impl<N: ToDname, NN: ToDname> PartialOrd<Md<NN>> for Md<N> {
    fn partial_cmp(&self, other: &Md<NN>) -> (res: Option<Ordering>) {
        Some(name_cmp(&self.madname, &other.madname))
    }
}

impl<N: ToDname, NN: ToDname> vstd::std_specs::cmp::PartialOrdSpecImpl<Md<NN>> for Md<N> {
    open spec fn obeys_partial_cmp_spec() -> bool {
        true
    }

    open spec fn partial_cmp_spec(&self, other: &Md<NN>) -> Option<Ordering> {
        Some(self.natural_order(other))
    }
}

impl<N: ToDname, NN: ToDname> CanonicalOrd<Md<NN>> for Md<N> {
    /// The canonical ordering of two values: that of their names.
    open spec fn canonical_order(&self, other: &Md<NN>) -> Ordering {
        canonical_name_order(self.madname().labels(), other.madname().labels())
    }

    fn canonical_cmp(&self, other: &Md<NN>) -> (res: Ordering) {
        lowercase_composed_cmp(&self.madname, &other.madname)
    }
}

//--- Compose

impl<N: ToDname> Compose for Md<N> {
    /// The name.
    open spec fn wire(&self) -> Seq<u8> {
        name_wire(self.madname().labels())
    }

    /// The name in lower case.
    open spec fn canonical_wire(&self) -> Seq<u8> {
        canonical_name_wire(self.madname().labels())
    }

    fn compose<T: OctetsBuilder>(&self, target: &mut T) -> (res: Result<(), ShortBuf>) {
        target.append_compressed_dname(&self.madname)
    }

    fn compose_canonical<T: OctetsBuilder>(&self, target: &mut T) -> (res: Result<(), ShortBuf>) {
        crate::name::compose_canonical(&self.madname, target)
    }
}

//--- RtypeRecordData

impl<N> RtypeRecordData for Md<N> {
    open spec fn rtype_spec() -> Rtype {
        Rtype::Md
    }

    fn rtype() -> (res: Rtype) {
        Rtype::Md
    }
}

//--- Parse and ParseAll

impl<N: ParseDname> Parse for Md<N> {
    /// The name.
    open spec fn parse_spec(octets: Seq<u8>, pos: int) -> Parsed {
        N::parse_spec(octets, pos)
    }

    proof fn lemma_parse_spec(octets: Seq<u8>, pos: int) {
        N::lemma_parse_spec(octets, pos);
    }

    proof fn lemma_round_trip(&self, before: Seq<u8>, after: Seq<u8>) {
        self.madname().lemma_wire();
        self.madname().lemma_round_trip(before, after);
    }

    fn parse(parser: &mut Parser) -> (res: Result<Self, ParseError>) {
        match N::parse(parser) {
            Ok(name) => {
                proof {
                    name.lemma_wire();
                }
                Ok(Self::new(name))
            },
            Err(err) => Err(err),
        }
    }

    fn skip(parser: &mut Parser) -> (res: Result<(), ParseError>) {
        N::skip(parser)
    }
}

impl<N: ParseDname> ParseAll for Md<N> {
    /// The name, which has to fill the field.
    open spec fn parse_all_spec(octets: Seq<u8>, pos: int, len: int) -> Parsed {
        N::parse_all_spec(octets, pos, len)
    }

    proof fn lemma_parse_all_spec(octets: Seq<u8>, pos: int, len: int) {
        N::lemma_parse_all_spec(octets, pos, len);
    }

    proof fn lemma_round_trip_all(&self, before: Seq<u8>, after: Seq<u8>) {
        self.madname().lemma_wire();
        self.madname().lemma_round_trip_all(before, after);
    }

    fn parse_all(parser: &mut Parser, len: usize) -> (res: Result<Self, ParseError>) {
        match N::parse_all(parser, len) {
            Ok(name) => {
                proof {
                    name.lemma_wire();
                }
                Ok(Self::new(name))
            },
            Err(err) => Err(err),
        }
    }
}

} // verus!
