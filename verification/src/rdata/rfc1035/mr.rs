//! MR record data.

use core::cmp::Ordering;
use crate::iana::{Rtype, RtypeRecordData};
use crate::name::{
    canonical_name_order, canonical_name_wire, lowercase_composed_cmp, name_cmp, name_eq,
    name_order, name_wire, names_equal, ToDname,
};
use crate::octets::{Compose, OctetsBuilder, ShortBuf};
use crate::order::CanonicalOrd;
use crate::parse::{Parse, ParseAll, ParseDname, ParseError, Parsed, Parser};
use crate::text::{chars, into_string, name_text, push_name, push_octet};
use vstd::prelude::*;

verus! {

/// MR record data.
///
/// The MR record specifices a mailbox which is the proper rename of the
/// specified mailbox.
///
/// The MR record is experimental.
///
/// The MR record type is defined in RFC 1035, section 3.3.8.
#[derive(Clone, Debug, Hash)]
pub struct Mr<N> {
    newname: N,
}

impl<N> Mr<N> {
    /// The name, for use in contracts.
    pub closed spec fn spec_newname(&self) -> &N {
        &self.newname
    }

    /// The record data with the given name, for use in contracts.
    pub closed spec fn spec_new(newname: N) -> Self {
        Mr { newname }
    }

    /// Creates new MR record data from the name.
    #[verifier::when_used_as_spec(spec_new)]
    pub fn new(newname: N) -> (res: Self)
        ensures
            res == Self::spec_new(newname),
            *res.newname() == newname,
    {
        Mr { newname }
    }

    /// Returns the name.
    #[verifier::when_used_as_spec(spec_newname)]
    pub fn newname(&self) -> (res: &N)
        ensures
            res == self.spec_newname(),
    {
        &self.newname
    }
}

impl<N: ToDname> Mr<N> {
    /// The natural ordering of two values: that of their names.
    pub open spec fn natural_order<NN: ToDname>(&self, other: &Mr<NN>) -> Ordering {
        name_order(self.newname().labels(), other.newname().labels())
    }

    /// Returns the natural ordering of two values.
    pub fn cmp(&self, other: &Self) -> (res: Ordering)
        ensures
            res == self.natural_order(other),
    {
        name_cmp(&self.newname, &other.newname)
    }
}

//--- Presentation format

impl<N: ToDname> Mr<N> {
    /// The value as it is shown: the name, then a dot.
    pub open spec fn shown(&self) -> Seq<u8> {
        name_text(self.newname().labels()) + seq![0x2Eu8]
    }

    /// Returns the value in presentation format.
    pub fn to_string(&self) -> (res: String)
        ensures
            res@ == chars(self.shown()),
    {
        let mut out: Vec<u8> = Vec::new();
        push_name(&mut out, &self.newname);
        push_octet(&mut out, 0x2E);
        into_string(out)
    }
}

//--- Deref

impl<N> core::ops::Deref for Mr<N> {
    type Target = N;

    fn deref(&self) -> (res: &Self::Target)
        ensures
            res == self.newname(),
    {
        &self.newname
    }
}

//--- From

impl<N> From<N> for Mr<N> {
    fn from(name: N) -> (res: Self) {
        Self::new(name)
    }
}

impl<N> vstd::std_specs::convert::FromSpecImpl<N> for Mr<N> {
    open spec fn obeys_from_spec() -> bool {
        true
    }

    open spec fn from_spec(name: N) -> Self {
        Self::new(name)
    }
}

//--- PartialEq and Eq

impl<N: ToDname, NN: ToDname> PartialEq<Mr<NN>> for Mr<N> {
    fn eq(&self, other: &Mr<NN>) -> (res: bool) {
        name_eq(&self.newname, &other.newname)
    }
}

impl<N: ToDname> Eq for Mr<N> {

}

impl<N: ToDname, NN: ToDname> vstd::std_specs::cmp::PartialEqSpecImpl<Mr<NN>> for Mr<N> {
    open spec fn obeys_eq_spec() -> bool {
        true
    }

    /// Two values are equal if their names are.
    open spec fn eq_spec(&self, other: &Mr<NN>) -> bool {
        names_equal(self.newname().labels(), other.newname().labels())
    }
}

//--- PartialOrd and CanonicalOrd

impl<N: ToDname, NN: ToDname> PartialOrd<Mr<NN>> for Mr<N> {
    fn partial_cmp(&self, other: &Mr<NN>) -> (res: Option<Ordering>) {
        Some(name_cmp(&self.newname, &other.newname))
    }
}

impl<N: ToDname, NN: ToDname> vstd::std_specs::cmp::PartialOrdSpecImpl<Mr<NN>> for Mr<N> {
    open spec fn obeys_partial_cmp_spec() -> bool {
        true
    }

    open spec fn partial_cmp_spec(&self, other: &Mr<NN>) -> Option<Ordering> {
        Some(self.natural_order(other))
    }
}

impl<N: ToDname, NN: ToDname> CanonicalOrd<Mr<NN>> for Mr<N> {
    /// The canonical ordering of two values: that of their names.
    open spec fn canonical_order(&self, other: &Mr<NN>) -> Ordering {
        canonical_name_order(self.newname().labels(), other.newname().labels())
    }

    fn canonical_cmp(&self, other: &Mr<NN>) -> (res: Ordering) {
        lowercase_composed_cmp(&self.newname, &other.newname)
    }
}

//--- Compose

impl<N: ToDname> Compose for Mr<N> {
    /// The name.
    open spec fn wire(&self) -> Seq<u8> {
        name_wire(self.newname().labels())
    }

    /// The name in lower case.
    open spec fn canonical_wire(&self) -> Seq<u8> {
        canonical_name_wire(self.newname().labels())
    }

    fn compose<T: OctetsBuilder>(&self, target: &mut T) -> (res: Result<(), ShortBuf>) {
        target.append_compressed_dname(&self.newname)
    }

    fn compose_canonical<T: OctetsBuilder>(&self, target: &mut T) -> (res: Result<(), ShortBuf>) {
        crate::name::compose_canonical(&self.newname, target)
    }
}

//--- RtypeRecordData

impl<N> RtypeRecordData for Mr<N> {
    open spec fn rtype_spec() -> Rtype {
        Rtype::Mr
    }

    fn rtype() -> (res: Rtype) {
        Rtype::Mr
    }
}

//--- Parse and ParseAll

impl<N: ParseDname> Parse for Mr<N> {
    /// The name.
    open spec fn parse_spec(octets: Seq<u8>, pos: int) -> Parsed {
        N::parse_spec(octets, pos)
    }

    proof fn lemma_parse_spec(octets: Seq<u8>, pos: int) {
        N::lemma_parse_spec(octets, pos);
    }

    proof fn lemma_round_trip(&self, before: Seq<u8>, after: Seq<u8>) {
        self.newname().lemma_wire();
        self.newname().lemma_round_trip(before, after);
    }

    fn parse(parser: &mut Parser) -> (res: Result<Self, ParseError>) {
        match N::parse(parser) {
            Ok(name) => {
                proof {
                    name.lemma_wire();
                }
                Ok(Self::new(name))
            },
            Err(err) => Err(err),
        }
    }

    fn skip(parser: &mut Parser) -> (res: Result<(), ParseError>) {
        N::skip(parser)
    }
}

impl<N: ParseDname> ParseAll for Mr<N> {
    /// The name, which has to fill the field.
    open spec fn parse_all_spec(octets: Seq<u8>, pos: int, len: int) -> Parsed {
        N::parse_all_spec(octets, pos, len)
    }

    proof fn lemma_parse_all_spec(octets: Seq<u8>, pos: int, len: int) {
        N::lemma_parse_all_spec(octets, pos, len);
    }

    proof fn lemma_round_trip_all(&self, before: Seq<u8>, after: Seq<u8>) {
        self.newname().lemma_wire();
        self.newname().lemma_round_trip_all(before, after);
    }

    fn parse_all(parser: &mut Parser, len: usize) -> (res: Result<Self, ParseError>) {
        match N::parse_all(parser, len) {
            Ok(name) => {
                proof {
                    name.lemma_wire();
                }
                Ok(Self::new(name))
            },
            Err(err) => Err(err),
        }
    }
}

} // verus!
