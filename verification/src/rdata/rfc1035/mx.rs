//! MX record data.

use core::cmp::Ordering;
use crate::iana::{Rtype, RtypeRecordData};
use crate::name::{
    canonical_name_order, canonical_name_wire, lowercase_composed_cmp, name_cmp, name_eq,
    name_order, name_wire, names_equal, ToDname,
};
use crate::octets::{appended_in_parts, be_u16, Compose, OctetsBuilder, ShortBuf};
use crate::order::{
    lemma_lex_chain, lemma_lex_u16, lex_order, chain, cmp_u16, order_u16, CanonicalOrd,
};
use crate::parse::{
    failed_at, parsed_to, then_parse, then_take, Parse, ParseAll, ParseDname, ParseError, Parsed,
    Parser,
};
use crate::text::{chars, decimal, into_string, name_text, push_decimal, push_name, push_octet};
use vstd::prelude::*;

verus! {

/// Mx record data.
///
/// The Mx record specifies a host willing to serve as a mail exchange for
/// the owner name.
///
/// The Mx record type is defined in RFC 1035, section 3.3.9.
#[derive(Clone, Debug, Hash)]
pub struct Mx<N> {
    preference: u16,
    exchange: N,
}

impl<N> Mx<N> {
    /// The preference, for use in contracts.
    pub closed spec fn spec_preference(&self) -> u16 {
        self.preference
    }

    /// The exchange, for use in contracts.
    pub closed spec fn spec_exchange(&self) -> &N {
        &self.exchange
    }

    /// Creates a new Mx record data from the components.
    pub fn new(preference: u16, exchange: N) -> (res: Self)
        ensures
            res.preference() == preference,
            *res.exchange() == exchange,
    {
        Mx { preference, exchange }
    }

    /// The preference for this record.
    ///
    /// Defines an order if there are several Mx records for the same owner.
    /// Lower values are preferred.
    #[verifier::when_used_as_spec(spec_preference)]
    pub fn preference(&self) -> (res: u16)
        ensures
            res == self.spec_preference(),
    {
        self.preference
    }

    /// The name of the host that is the exchange.
    #[verifier::when_used_as_spec(spec_exchange)]
    pub fn exchange(&self) -> (res: &N)
        ensures
            res == self.spec_exchange(),
    {
        &self.exchange
    }
}

impl<N: ToDname> Mx<N> {
    /// The natural ordering of two values: by preference, then by the
    /// natural ordering of the exchange names.
    pub open spec fn natural_order<NN: ToDname>(&self, other: &Mx<NN>) -> Ordering {
        chain(
            order_u16(self.preference(), other.preference()),
            name_order(self.exchange().labels(), other.exchange().labels()),
        )
    }

    /// Returns the natural ordering of two values.
    pub fn cmp(&self, other: &Self) -> (res: Ordering)
        ensures
            res == self.natural_order(other),
    {
        match cmp_u16(self.preference, other.preference) {
            Ordering::Equal => {},
            Ordering::Less => {
                return Ordering::Less;
            },
            Ordering::Greater => {
                return Ordering::Greater;
            },
        }
        name_cmp(&self.exchange, &other.exchange)
    }
}

//--- PartialEq and Eq

impl<N: ToDname, NN: ToDname> PartialEq<Mx<NN>> for Mx<N> {
    fn eq(&self, other: &Mx<NN>) -> (res: bool) {
        self.preference == other.preference && name_eq(&self.exchange, &other.exchange)
    }
}

impl<N: ToDname> Eq for Mx<N> {

}

impl<N: ToDname, NN: ToDname> vstd::std_specs::cmp::PartialEqSpecImpl<Mx<NN>> for Mx<N> {
    open spec fn obeys_eq_spec() -> bool {
        true
    }

    open spec fn eq_spec(&self, other: &Mx<NN>) -> bool {
        self.preference() == other.preference() && names_equal(
            self.exchange().labels(),
            other.exchange().labels(),
        )
    }
}

//--- PartialOrd and CanonicalOrd

impl<N: ToDname, NN: ToDname> PartialOrd<Mx<NN>> for Mx<N> {
    fn partial_cmp(&self, other: &Mx<NN>) -> (res: Option<Ordering>) {
        match cmp_u16(self.preference, other.preference) {
            Ordering::Equal => {},
            Ordering::Less => {
                return Some(Ordering::Less);
            },
            Ordering::Greater => {
                return Some(Ordering::Greater);
            },
        }
        Some(name_cmp(&self.exchange, &other.exchange))
    }
}

impl<N: ToDname, NN: ToDname> vstd::std_specs::cmp::PartialOrdSpecImpl<Mx<NN>> for Mx<N> {
    open spec fn obeys_partial_cmp_spec() -> bool {
        true
    }

    open spec fn partial_cmp_spec(&self, other: &Mx<NN>) -> Option<Ordering> {
        Some(self.natural_order(other))
    }
}

impl<N: ToDname, NN: ToDname> CanonicalOrd<Mx<NN>> for Mx<N> {
    /// The canonical ordering of two values: by preference, then by the
    /// canonical ordering of the exchange names.
    open spec fn canonical_order(&self, other: &Mx<NN>) -> Ordering {
        chain(
            order_u16(self.preference(), other.preference()),
            canonical_name_order(self.exchange().labels(), other.exchange().labels()),
        )
    }

    fn canonical_cmp(&self, other: &Mx<NN>) -> (res: Ordering) {
        match cmp_u16(self.preference, other.preference) {
            Ordering::Equal => {},
            Ordering::Less => {
                return Ordering::Less;
            },
            Ordering::Greater => {
                return Ordering::Greater;
            },
        }
        lowercase_composed_cmp(&self.exchange, &other.exchange)
    }
}

//--- Compose

impl<N: ToDname> Compose for Mx<N> {
    /// The preference in network byte order, then the exchange name.
    open spec fn wire(&self) -> Seq<u8> {
        be_u16(self.preference()) + name_wire(self.exchange().labels())
    }

    /// The preference in network byte order, then the exchange name in
    /// lower case.
    open spec fn canonical_wire(&self) -> Seq<u8> {
        be_u16(self.preference()) + canonical_name_wire(self.exchange().labels())
    }

    fn compose<T: OctetsBuilder>(&self, target: &mut T) -> (res: Result<(), ShortBuf>) {
        let op = |target: &mut T| -> (inner: Result<(), ShortBuf>)
            ensures
                appended_in_parts(*old(target), *final(target), self.wire(), inner),
            {
                let first = self.preference.compose(target);
                if first.is_err() {
                    return first;
                }
                let second = target.append_compressed_dname(&self.exchange);
                assert(second is Ok ==> target.octets() =~= old(target).octets() + self.wire());
                second
            };
        target.append_all(op)
    }

    fn compose_canonical<T: OctetsBuilder>(&self, target: &mut T) -> (res: Result<(), ShortBuf>) {
        let op = |target: &mut T| -> (inner: Result<(), ShortBuf>)
            ensures
                appended_in_parts(*old(target), *final(target), self.canonical_wire(), inner),
            {
                let first = self.preference.compose(target);
                if first.is_err() {
                    return first;
                }
                let second = crate::name::compose_canonical(&self.exchange, target);
                assert(second is Ok ==> target.octets() =~= old(target).octets()
                    + self.canonical_wire());
                second
            };
        target.append_all(op)
    }
}

//--- Parse and ParseAll

impl<N: ParseDname> Parse for Mx<N> {
    /// Two octets for the preference, then the exchange name.
    open spec fn parse_spec(octets: Seq<u8>, pos: int) -> Parsed {
        then_parse::<N>(then_take(parsed_to(pos), octets, 2), octets)
    }

    proof fn lemma_parse_spec(octets: Seq<u8>, pos: int) {
        if pos + 2 <= octets.len() {
            N::lemma_parse_spec(octets, pos + 2);
        }
    }

    proof fn lemma_round_trip(&self, before: Seq<u8>, after: Seq<u8>) {
        let number = be_u16(self.preference());
        let name = self.exchange().wire();
        self.exchange().lemma_wire();
        self.exchange().lemma_round_trip(before + number, after);
        assert(before + self.wire() + after =~= (before + number) + name + after);
    }

    fn parse(parser: &mut Parser) -> (res: Result<Self, ParseError>) {
        proof {
            parser.lemma_in_bounds();
        }
        let ghost octets = parser.octets();
        let ghost start = parser.at();
        let preference = match parser.parse_u16() {
            Ok(value) => value,
            Err(_) => {
                return Err(ParseError::ShortBuf);
            },
        };
        let exchange = match N::parse(parser) {
            Ok(name) => name,
            Err(err) => {
                return Err(err);
            },
        };
        proof {
            N::lemma_parse_spec(octets, start + 2);
            exchange.lemma_wire();
            assert(octets.subrange(start, start + 2) + octets.subrange(start + 2, parser.at())
                =~= octets.subrange(start, parser.at()));
        }
        Ok(Mx::new(preference, exchange))
    }

    fn skip(parser: &mut Parser) -> (res: Result<(), ParseError>) {
        if parser.advance(2).is_err() {
            return Err(ParseError::ShortBuf);
        }
        N::skip(parser)
    }
}

impl<N: ParseDname> ParseAll for Mx<N> {
    /// A field of less than three octets is too short. Else two octets are
    /// taken for the preference and the exchange name from the rest of the
    /// field.
    open spec fn parse_all_spec(octets: Seq<u8>, pos: int, len: int) -> Parsed {
        if len < 3 {
            failed_at(pos, ParseError::ShortField)
        } else if pos + 2 > octets.len() {
            failed_at(pos, ParseError::ShortBuf)
        } else {
            N::parse_all_spec(octets, pos + 2, len - 2)
        }
    }

    proof fn lemma_parse_all_spec(octets: Seq<u8>, pos: int, len: int) {
        if len >= 3 && pos + 2 <= octets.len() {
            N::lemma_parse_all_spec(octets, pos + 2, len - 2);
        }
    }

    proof fn lemma_round_trip_all(&self, before: Seq<u8>, after: Seq<u8>) {
        let number = be_u16(self.preference());
        let name = self.exchange().wire();
        self.exchange().lemma_wire();
        self.exchange().lemma_name();
        self.exchange().lemma_round_trip_all(before + number, after);
        assert(before + self.wire() + after =~= (before + number) + name + after);
    }

    fn parse_all(parser: &mut Parser, len: usize) -> (res: Result<Self, ParseError>) {
        proof {
            parser.lemma_in_bounds();
        }
        let ghost octets = parser.octets();
        let ghost start = parser.at();
        if len < 3 {
            return Err(ParseError::ShortField);
        }
        let preference = match parser.parse_u16() {
            Ok(value) => value,
            Err(_) => {
                return Err(ParseError::ShortBuf);
            },
        };
        let exchange = match N::parse_all(parser, len - 2) {
            Ok(name) => name,
            Err(err) => {
                return Err(err);
            },
        };
        proof {
            N::lemma_parse_all_spec(octets, start + 2, len - 2);
            exchange.lemma_wire();
            assert(octets.subrange(start, start + 2) + octets.subrange(start + 2, start + len)
                =~= octets.subrange(start, start + len));
        }
        Ok(Mx::new(preference, exchange))
    }
}

//--- Presentation format

impl<N: ToDname> Mx<N> {
    /// The value as it is shown: the preference, a space, and the exchange
    /// name followed by a dot.
    pub open spec fn shown(&self) -> Seq<u8> {
        decimal(self.preference() as nat) + seq![0x20u8] + name_text(self.exchange().labels())
            + seq![0x2Eu8]
    }

    /// Returns the value in presentation format.
    pub fn to_string(&self) -> (res: String)
        ensures
            res@ == chars(self.shown()),
    {
        let mut out: Vec<u8> = Vec::new();
        push_decimal(&mut out, self.preference as u64);
        push_octet(&mut out, 0x20);
        push_name(&mut out, &self.exchange);
        push_octet(&mut out, 0x2E);
        into_string(out)
    }
}

//--- RtypeRecordData

impl<N> RtypeRecordData for Mx<N> {
    open spec fn rtype_spec() -> Rtype {
        Rtype::Mx
    }

    fn rtype() -> (res: Rtype) {
        Rtype::Mx
    }
}

//--- Laws

impl<N: ToDname> Mx<N> {
    /// The canonical ordering of two values is the lexicographic ordering
    /// of their canonical forms.
    pub proof fn lemma_canonical_order<NN: ToDname>(&self, other: &Mx<NN>)
        ensures
            self.canonical_order(other) == lex_order(self.canonical_wire(), other.canonical_wire()),
    {
        lemma_lex_chain(
            be_u16(self.preference()),
            be_u16(other.preference()),
            canonical_name_wire(self.exchange().labels()),
            canonical_name_wire(other.exchange().labels()),
        );
        lemma_lex_u16(self.preference(), other.preference());
    }
}

} // verus!
