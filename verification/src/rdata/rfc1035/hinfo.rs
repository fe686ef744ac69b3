//! HINFO record data.

use core::cmp::Ordering;
use crate::charstr::{
    lemma_char_str_order, lemma_char_strs_apart, char_str_at, char_str_in_field, char_str_wire,
    CharStr,
};
use crate::iana::{Rtype, RtypeRecordData};
use crate::name::lower_seq;
use crate::octets::{appended_in_parts, Compose, Octets, OctetsBuilder, ShortBuf};
use crate::order::{lemma_lex_chain, lex_order, chain, CanonicalOrd};
use crate::parse::{failed_at, then_parse, Parse, ParseAll, ParseError, Parsed, Parser};
use crate::text::{chars, escaped, into_string, push_escaped, push_octet};
use vstd::prelude::*;

verus! {

/// Hinfo record data.
///
/// Hinfo records are used to acquire general information about a host,
/// specifically the CPU type and operating system type.
///
/// The Hinfo type is defined in RFC 1035, section 3.3.2.
#[derive(Debug)]
pub struct Hinfo<Octs: Octets> {
    cpu: CharStr<Octs>,
    os: CharStr<Octs>,
}

impl<Octs: Octets> Hinfo<Octs> {
    /// The CPU type, for use in contracts.
    pub closed spec fn spec_cpu(&self) -> &CharStr<Octs> {
        &self.cpu
    }

    /// The operating system type, for use in contracts.
    pub closed spec fn spec_os(&self) -> &CharStr<Octs> {
        &self.os
    }

    /// Creates a new Hinfo record data from the components.
    pub fn new(cpu: CharStr<Octs>, os: CharStr<Octs>) -> (res: Self)
        ensures
            *res.cpu() == cpu,
            *res.os() == os,
    {
        Hinfo { cpu, os }
    }

    /// The CPU type of the host.
    #[verifier::when_used_as_spec(spec_cpu)]
    pub fn cpu(&self) -> (res: &CharStr<Octs>)
        ensures
            res == self.spec_cpu(),
    {
        &self.cpu
    }

    /// The operating system type of the host.
    #[verifier::when_used_as_spec(spec_os)]
    pub fn os(&self) -> (res: &CharStr<Octs>)
        ensures
            res == self.spec_os(),
    {
        &self.os
    }

    /// The natural ordering of two values: by the natural ordering of the
    /// CPU types, then by that of the operating system types.
    pub open spec fn natural_order<Other: Octets>(&self, other: &Hinfo<Other>) -> Ordering {
        chain(self.cpu().natural_order(other.cpu()), self.os().natural_order(other.os()))
    }

    /// Returns the natural ordering of two values.
    pub fn cmp(&self, other: &Self) -> (res: Ordering)
        ensures
            res == self.natural_order(other),
    {
        let order = self.cpu.cmp(&other.cpu);
        match order {
            Ordering::Equal => {},
            _ => {
                return order;
            },
        }
        self.os.cmp(&other.os)
    }
}

//--- Clone

impl Clone for Hinfo<Vec<u8>> {
    fn clone(&self) -> (res: Self)
        ensures
            res.cpu()@ == self.cpu()@,
            res.os()@ == self.os()@,
    {
        Hinfo { cpu: self.cpu.clone(), os: self.os.clone() }
    }
}

//--- PartialEq and Eq

impl<Octs: Octets, Other: Octets> PartialEq<Hinfo<Other>> for Hinfo<Octs> {
    fn eq(&self, other: &Hinfo<Other>) -> (res: bool) {
        self.cpu.eq(&other.cpu) && self.os.eq(&other.os)
    }
}

impl<Octs: Octets> Eq for Hinfo<Octs> {

}

impl<Octs: Octets, Other: Octets> vstd::std_specs::cmp::PartialEqSpecImpl<Hinfo<Other>> for Hinfo<Octs> {
    open spec fn obeys_eq_spec() -> bool {
        true
    }

    /// Two values are equal if their CPU types are equal and their
    /// operating system types are.
    open spec fn eq_spec(&self, other: &Hinfo<Other>) -> bool {
        lower_seq(self.cpu()@) == lower_seq(other.cpu()@) && lower_seq(self.os()@) == lower_seq(
            other.os()@,
        )
    }
}

//--- PartialOrd and CanonicalOrd

impl<Octs: Octets, Other: Octets> PartialOrd<Hinfo<Other>> for Hinfo<Octs> {
    fn partial_cmp(&self, other: &Hinfo<Other>) -> (res: Option<Ordering>) {
        match self.cpu.partial_cmp(&other.cpu) {
            Some(Ordering::Equal) => {},
            other => {
                return other;
            },
        }
        self.os.partial_cmp(&other.os)
    }
}

impl<Octs: Octets, Other: Octets> vstd::std_specs::cmp::PartialOrdSpecImpl<Hinfo<Other>> for Hinfo<Octs> {
    open spec fn obeys_partial_cmp_spec() -> bool {
        true
    }

    open spec fn partial_cmp_spec(&self, other: &Hinfo<Other>) -> Option<Ordering> {
        Some(self.natural_order(other))
    }
}

impl<Octs: Octets, Other: Octets> CanonicalOrd<Hinfo<Other>> for Hinfo<Octs> {
    /// The canonical ordering of two values: by the canonical ordering of
    /// the CPU types, then by that of the operating system types.
    open spec fn canonical_order(&self, other: &Hinfo<Other>) -> Ordering {
        chain(self.cpu().canonical_order(other.cpu()), self.os().canonical_order(other.os()))
    }

    fn canonical_cmp(&self, other: &Hinfo<Other>) -> (res: Ordering) {
        let order = self.cpu.canonical_cmp(&other.cpu);
        match order {
            Ordering::Equal => {},
            _ => {
                return order;
            },
        }
        self.os.canonical_cmp(&other.os)
    }
}

//--- Compose

impl<Octs: Octets> Compose for Hinfo<Octs> {
    /// The CPU type, then the operating system type, each as a character
    /// string.
    open spec fn wire(&self) -> Seq<u8> {
        char_str_wire(self.cpu()@) + char_str_wire(self.os()@)
    }

    open spec fn canonical_wire(&self) -> Seq<u8> {
        self.wire()
    }

    fn compose<T: OctetsBuilder>(&self, target: &mut T) -> (res: Result<(), ShortBuf>) {
        let op = |target: &mut T| -> (inner: Result<(), ShortBuf>)
            ensures
                appended_in_parts(*old(target), *final(target), self.wire(), inner),
            {
                let first = self.cpu.compose(target);
                if first.is_err() {
                    return first;
                }
                let second = self.os.compose(target);
                assert(second is Ok ==> target.octets() =~= old(target).octets() + self.wire());
                second
            };
        target.append_all(op)
    }

    fn compose_canonical<T: OctetsBuilder>(&self, target: &mut T) -> (res: Result<(), ShortBuf>) {
        self.compose(target)
    }
}

//--- Parse and ParseAll

impl Parse for Hinfo<Vec<u8>> {
    /// Two character strings one after the other.
    open spec fn parse_spec(octets: Seq<u8>, pos: int) -> Parsed {
        then_parse::<CharStr<Vec<u8>>>(char_str_at(octets, pos), octets)
    }

    proof fn lemma_parse_spec(octets: Seq<u8>, pos: int) {
    }

    proof fn lemma_round_trip(&self, before: Seq<u8>, after: Seq<u8>) {
        let first = self.cpu().wire();
        let second = self.os().wire();
        self.cpu().lemma_round_trip(before, second + after);
        self.os().lemma_round_trip(before + first, after);
    }

    fn parse(parser: &mut Parser) -> (res: Result<Self, ParseError>) {
        let ghost octets = parser.octets();
        let ghost start = parser.at();
        let cpu = match CharStr::parse(parser) {
            Ok(cpu) => cpu,
            Err(err) => {
                return Err(err);
            },
        };
        let ghost first = parser.at();
        let os = match CharStr::parse(parser) {
            Ok(os) => os,
            Err(err) => {
                return Err(err);
            },
        };
        assert(octets.subrange(start, first) + octets.subrange(first, parser.at())
            =~= octets.subrange(start, parser.at()));
        Ok(Self::new(cpu, os))
    }

    fn skip(parser: &mut Parser) -> (res: Result<(), ParseError>) {
        match CharStr::<Vec<u8>>::skip(parser) {
            Ok(_) => {},
            Err(err) => {
                return Err(err);
            },
        }
        CharStr::<Vec<u8>>::skip(parser)
    }
}

impl ParseAll for Hinfo<Vec<u8>> {
    /// The CPU type is taken without regard to the length of the field. If
    /// that fails, so does this. A field that the CPU type fills or goes
    /// beyond is too short. Else the operating system type is taken from
    /// what is left of the field.
    open spec fn parse_all_spec(octets: Seq<u8>, pos: int, len: int) -> Parsed {
        let cpu = char_str_at(octets, pos);
        if cpu.err is Some {
            cpu
        } else if len < cpu.end - pos {
            failed_at(cpu.end, ParseError::ShortField)
        } else {
            char_str_in_field(octets, cpu.end, len - (cpu.end - pos))
        }
    }

    proof fn lemma_parse_all_spec(octets: Seq<u8>, pos: int, len: int) {
    }

    proof fn lemma_round_trip_all(&self, before: Seq<u8>, after: Seq<u8>) {
        let first = self.cpu().wire();
        let second = self.os().wire();
        self.cpu().lemma_round_trip(before, second + after);
        self.os().lemma_round_trip_all(before + first, after);
    }

    fn parse_all(parser: &mut Parser, len: usize) -> (res: Result<Self, ParseError>) {
        let ghost octets = parser.octets();
        let ghost start = parser.at();
        let cpu = match CharStr::parse(parser) {
            Ok(cpu) => cpu,
            Err(err) => {
                return Err(err);
            },
        };
        let ghost first = parser.at();
        assert(cpu.wire().len() == cpu@.len() + 1);
        let len = match len.checked_sub(cpu.len() + 1) {
            Some(len) => len,
            None => {
                return Err(ParseError::ShortField);
            },
        };
        let os = match CharStr::parse_all(parser, len) {
            Ok(os) => os,
            Err(err) => {
                return Err(err);
            },
        };
        assert(octets.subrange(start, first) + octets.subrange(first, first + len)
            =~= octets.subrange(start, first + len));
        Ok(Hinfo::new(cpu, os))
    }
}

//--- Presentation format

impl<Octs: Octets> Hinfo<Octs> {
    /// The value as it is shown: the CPU type, a space, and the operating
    /// system type.
    pub open spec fn shown(&self) -> Seq<u8> {
        escaped(self.cpu()@) + seq![0x20u8] + escaped(self.os()@)
    }

    /// Returns the value in presentation format.
    pub fn to_string(&self) -> (res: String)
        ensures
            res@ == chars(self.shown()),
    {
        let mut out: Vec<u8> = Vec::new();
        push_escaped(&mut out, self.cpu.as_slice());
        push_octet(&mut out, 0x20);
        push_escaped(&mut out, self.os.as_slice());
        into_string(out)
    }
}

//--- RtypeRecordData

impl<Octs: Octets> RtypeRecordData for Hinfo<Octs> {
    open spec fn rtype_spec() -> Rtype {
        Rtype::Hinfo
    }

    fn rtype() -> (res: Rtype) {
        Rtype::Hinfo
    }
}

//--- Laws

impl<Octs: Octets> Hinfo<Octs> {
    /// The canonical ordering of two values is the lexicographic ordering
    /// of their canonical forms.
    pub proof fn lemma_canonical_order<Other: Octets>(&self, other: &Hinfo<Other>)
        ensures
            self.canonical_order(other) == lex_order(self.canonical_wire(), other.canonical_wire()),
    {
        self.cpu().lemma_view();
        self.os().lemma_view();
        other.cpu().lemma_view();
        other.os().lemma_view();
        lemma_char_strs_apart(self.cpu()@, other.cpu()@);
        lemma_lex_chain(
            char_str_wire(self.cpu()@),
            char_str_wire(other.cpu()@),
            char_str_wire(self.os()@),
            char_str_wire(other.os()@),
        );
        lemma_char_str_order(self.cpu()@, other.cpu()@);
        lemma_char_str_order(self.os()@, other.os()@);
    }
}

} // verus!
