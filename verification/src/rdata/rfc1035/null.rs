//! NULL record data.

use core::cmp::Ordering;
use crate::iana::{Rtype, RtypeRecordData};
use crate::octets::{Compose, Octets, OctetsBuilder, ShortBuf};
use crate::order::{cmp_slices, lemma_lex_equal, lex_order, CanonicalOrd};
use crate::parse::{parsed_to, then_take, ParseAll, ParseError, Parsed, Parser};
use crate::text::{chars, decimal, hex2, into_string, push_decimal, push_hex2, push_octet};
use vstd::prelude::*;

verus! {

/// Null record data.
///
/// Null records can contain whatever data. They are experimental and not
/// allowed in master files.
///
/// The Null record type is defined in RFC 1035, section 3.3.10.
#[derive(Clone, Debug, Hash)]
pub struct Null<Octs> {
    data: Octs,
}

impl<Octs> Null<Octs> {
    /// The content, for use in contracts.
    pub closed spec fn spec_data(&self) -> &Octs {
        &self.data
    }

    /// The record data with the given content, for use in contracts.
    pub closed spec fn spec_new(data: Octs) -> Self {
        Null { data }
    }

    /// Creates new, empty owned Null record data.
    #[verifier::when_used_as_spec(spec_new)]
    pub fn new(data: Octs) -> (res: Self)
        ensures
            res == Self::spec_new(data),
            *res.data() == data,
    {
        Null { data }
    }

    /// The raw content of the record.
    #[verifier::when_used_as_spec(spec_data)]
    pub fn data(&self) -> (res: &Octs)
        ensures
            res == self.spec_data(),
    {
        &self.data
    }
}

impl<Octs: Octets> Null<Octs> {
    /// Returns the number of octets of the content.
    pub fn len(&self) -> (res: usize)
        ensures
            res == self.data().octets().len(),
    {
        self.data.as_slice().len()
    }

    /// Returns whether the record has no content.
    pub fn is_empty(&self) -> (res: bool)
        ensures
            res <==> self.data().octets().len() == 0,
    {
        self.data.as_slice().len() == 0
    }

    /// The natural ordering of two values: the lexicographic ordering of
    /// their content.
    pub open spec fn natural_order<Other: Octets>(&self, other: &Null<Other>) -> Ordering {
        lex_order(self.data().octets(), other.data().octets())
    }

    /// Returns the natural ordering of two values.
    pub fn cmp(&self, other: &Self) -> (res: Ordering)
        ensures
            res == self.natural_order(other),
    {
        cmp_slices(self.data.as_slice(), other.data.as_slice())
    }
}

//--- Deref

impl<Octs> core::ops::Deref for Null<Octs> {
    type Target = Octs;

    fn deref(&self) -> (res: &Self::Target)
        ensures
            res == self.data(),
    {
        &self.data
    }
}

//--- From

impl<Octs> From<Octs> for Null<Octs> {
    fn from(data: Octs) -> (res: Self) {
        Self::new(data)
    }
}

impl<Octs> vstd::std_specs::convert::FromSpecImpl<Octs> for Null<Octs> {
    open spec fn obeys_from_spec() -> bool {
        true
    }

    open spec fn from_spec(data: Octs) -> Self {
        Self::new(data)
    }
}

//--- PartialEq and Eq

impl<Octs: Octets, Other: Octets> PartialEq<Null<Other>> for Null<Octs> {
    fn eq(&self, other: &Null<Other>) -> (res: bool) {
        proof {
            lemma_lex_equal(self.data().octets(), other.data().octets());
        }
        match cmp_slices(self.data.as_slice(), other.data.as_slice()) {
            Ordering::Equal => true,
            _ => false,
        }
    }
}

impl<Octs: Octets> Eq for Null<Octs> {

}

impl<Octs: Octets, Other: Octets> vstd::std_specs::cmp::PartialEqSpecImpl<Null<Other>> for Null<Octs> {
    open spec fn obeys_eq_spec() -> bool {
        true
    }

    /// Two values are equal if they have the same content.
    open spec fn eq_spec(&self, other: &Null<Other>) -> bool {
        self.data().octets() == other.data().octets()
    }
}

//--- PartialOrd and CanonicalOrd

impl<Octs: Octets, Other: Octets> PartialOrd<Null<Other>> for Null<Octs> {
    fn partial_cmp(&self, other: &Null<Other>) -> (res: Option<Ordering>) {
        Some(cmp_slices(self.data.as_slice(), other.data.as_slice()))
    }
}

impl<Octs: Octets, Other: Octets> vstd::std_specs::cmp::PartialOrdSpecImpl<Null<Other>> for Null<Octs> {
    open spec fn obeys_partial_cmp_spec() -> bool {
        true
    }

    open spec fn partial_cmp_spec(&self, other: &Null<Other>) -> Option<Ordering> {
        Some(self.natural_order(other))
    }
}

impl<Octs: Octets, Other: Octets> CanonicalOrd<Null<Other>> for Null<Octs> {
    /// The canonical ordering of two values is their natural ordering.
    open spec fn canonical_order(&self, other: &Null<Other>) -> Ordering {
        self.natural_order(other)
    }

    fn canonical_cmp(&self, other: &Null<Other>) -> (res: Ordering) {
        cmp_slices(self.data.as_slice(), other.data.as_slice())
    }
}

//--- Compose

impl<Octs: Octets> Compose for Null<Octs> {
    /// The content as it is.
    open spec fn wire(&self) -> Seq<u8> {
        self.data().octets()
    }

    open spec fn canonical_wire(&self) -> Seq<u8> {
        self.wire()
    }

    fn compose<T: OctetsBuilder>(&self, target: &mut T) -> (res: Result<(), ShortBuf>) {
        target.append_slice(self.data.as_slice())
    }

    fn compose_canonical<T: OctetsBuilder>(&self, target: &mut T) -> (res: Result<(), ShortBuf>) {
        self.compose(target)
    }
}

//--- ParseAll

impl ParseAll for Null<Vec<u8>> {
    /// The field as it is.
    open spec fn parse_all_spec(octets: Seq<u8>, pos: int, len: int) -> Parsed {
        then_take(parsed_to(pos), octets, len)
    }

    proof fn lemma_parse_all_spec(octets: Seq<u8>, pos: int, len: int) {
    }

    proof fn lemma_round_trip_all(&self, before: Seq<u8>, after: Seq<u8>) {
    }

    fn parse_all(parser: &mut Parser, len: usize) -> (res: Result<Self, ParseError>) {
        match parser.parse_octets(len) {
            Ok(data) => Ok(Self::new(vstd::slice::slice_to_vec(data))),
            Err(_) => Err(ParseError::ShortBuf),
        }
    }
}

//--- Presentation format

/// Octets as they are shown in record data of unknown make: each as a
/// space and its value in two hexadecimal digits.
pub open spec fn hex_octets(octets: Seq<u8>) -> Seq<u8>
    decreases octets.len(),
{
    if octets.len() == 0 {
        Seq::empty()
    } else {
        hex_octets(octets.drop_last()) + seq![0x20u8] + hex2(octets.last())
    }
}

impl<Octs: Octets> Null<Octs> {
    /// The value as it is shown: a backslash, a hash sign, the number of
    /// octets of the content, and the octets in hexadecimal.
    pub open spec fn shown(&self) -> Seq<u8> {
        seq![0x5Cu8, 0x23u8, 0x20u8] + decimal(self.data().octets().len()) + hex_octets(
            self.data().octets(),
        )
    }

    /// Returns the value in presentation format.
    pub fn to_string(&self) -> (res: String)
        ensures
            res@ == chars(self.shown()),
    {
        let data = self.data.as_slice();
        let mut out: Vec<u8> = Vec::new();
        push_octet(&mut out, 0x5C);
        push_octet(&mut out, 0x23);
        push_octet(&mut out, 0x20);
        push_decimal(&mut out, data.len() as u64);
        let ghost head = out@;
        let mut i: usize = 0;
        while i < data.len()
            invariant
                i <= data@.len(),
                crate::text::all_ascii(out@),
                out@ == head + hex_octets(data@.take(i as int)),
            decreases data@.len() - i,
        {
            push_octet(&mut out, 0x20);
            push_hex2(&mut out, data[i]);
            proof {
                let next = data@.take(i + 1);
                assert(next.drop_last() =~= data@.take(i as int));
            }
            i += 1;
        }
        assert(data@.take(i as int) =~= data@);
        into_string(out)
    }
}

//--- RtypeRecordData

impl<Octs> RtypeRecordData for Null<Octs> {
    open spec fn rtype_spec() -> Rtype {
        Rtype::Null
    }

    fn rtype() -> (res: Rtype) {
        Rtype::Null
    }
}

} // verus!
