//! SOA record data.

use core::cmp::Ordering;
use crate::iana::{Rtype, RtypeRecordData};
use crate::name::{
    lemma_names_apart, canonical_name_order, canonical_name_wire, lowercase_composed_cmp, name_cmp,
    name_eq, name_order, name_wire, names_equal, ToDname,
};
use crate::octets::{appended_in_parts, be_u32, Compose, OctetsBuilder, ShortBuf};
use crate::order::{
    lemma_lex_chain, lemma_lex_u32, lex_order, chain, cmp_u32, order_u32, CanonicalOrd,
};
use crate::parse::{
    failed_at, parsed_to, then_parse, then_take, Parse, ParseAll, ParseDname, ParseError, Parsed,
    Parser,
};
use crate::serial::Serial;
use crate::text::{chars, decimal, into_string, name_text, push_decimal, push_name, push_octet};
use vstd::prelude::*;

verus! {

/// Five numbers one after another, each in network byte order.
pub open spec fn five_numbers(a: u32, b: u32, c: u32, d: u32, e: u32) -> Seq<u8> {
    be_u32(a) + (be_u32(b) + (be_u32(c) + (be_u32(d) + be_u32(e))))
}

/// Soa record data.
///
/// Soa records mark the top of a zone and contain information pertinent to
/// name server maintenance operations.
///
/// The Soa record type is defined in RFC 1035, section 3.3.13.
#[derive(Clone, Debug, Hash)]
pub struct Soa<N> {
    mname: N,
    rname: N,
    serial: Serial,
    refresh: u32,
    retry: u32,
    expire: u32,
    minimum: u32,
}

impl<N> Soa<N> {
    /// The primary name server, for use in contracts.
    pub closed spec fn spec_mname(&self) -> &N {
        &self.mname
    }

    /// The mailbox of the responsible person, for use in contracts.
    pub closed spec fn spec_rname(&self) -> &N {
        &self.rname
    }

    /// The serial number, for use in contracts.
    pub closed spec fn spec_serial(&self) -> Serial {
        self.serial
    }

    /// The refresh interval, for use in contracts.
    pub closed spec fn spec_refresh(&self) -> u32 {
        self.refresh
    }

    /// The retry interval, for use in contracts.
    pub closed spec fn spec_retry(&self) -> u32 {
        self.retry
    }

    /// The expire time, for use in contracts.
    pub closed spec fn spec_expire(&self) -> u32 {
        self.expire
    }

    /// The minimum TTL, for use in contracts.
    pub closed spec fn spec_minimum(&self) -> u32 {
        self.minimum
    }

    /// Creates new Soa record data from content.
    pub fn new(
        mname: N,
        rname: N,
        serial: Serial,
        refresh: u32,
        retry: u32,
        expire: u32,
        minimum: u32,
    ) -> (res: Self)
        ensures
            *res.mname() == mname,
            *res.rname() == rname,
            res.serial() == serial,
            res.refresh() == refresh,
            res.retry() == retry,
            res.expire() == expire,
            res.minimum() == minimum,
    {
        Soa { mname, rname, serial, refresh, retry, expire, minimum }
    }

    /// The primary name server for the zone.
    #[verifier::when_used_as_spec(spec_mname)]
    pub fn mname(&self) -> (res: &N)
        ensures
            res == self.spec_mname(),
    {
        &self.mname
    }

    /// The mailbox for the person responsible for this zone.
    #[verifier::when_used_as_spec(spec_rname)]
    pub fn rname(&self) -> (res: &N)
        ensures
            res == self.spec_rname(),
    {
        &self.rname
    }

    /// The serial number of the zone.
    #[verifier::when_used_as_spec(spec_serial)]
    pub fn serial(&self) -> (res: Serial)
        ensures
            res == self.spec_serial(),
    {
        self.serial
    }

    /// The time interval in seconds before the zone should be refreshed.
    #[verifier::when_used_as_spec(spec_refresh)]
    pub fn refresh(&self) -> (res: u32)
        ensures
            res == self.spec_refresh(),
    {
        self.refresh
    }

    /// The time in seconds before a failed refresh is retried.
    #[verifier::when_used_as_spec(spec_retry)]
    pub fn retry(&self) -> (res: u32)
        ensures
            res == self.spec_retry(),
    {
        self.retry
    }

    /// The upper limit of time in seconds the zone is authoritative.
    #[verifier::when_used_as_spec(spec_expire)]
    pub fn expire(&self) -> (res: u32)
        ensures
            res == self.spec_expire(),
    {
        self.expire
    }

    /// The minimum TTL to be exported with any RR from this zone.
    #[verifier::when_used_as_spec(spec_minimum)]
    pub fn minimum(&self) -> (res: u32)
        ensures
            res == self.spec_minimum(),
    {
        self.minimum
    }

    /// The ordering of the numbers of two values: by serial number, then by
    /// the refresh, retry and expire times, then by the minimum TTL.
    pub open spec fn numbers_order<NN>(&self, other: &Soa<NN>) -> Ordering {
        chain(
            order_u32(self.serial().0, other.serial().0),
            chain(
                order_u32(self.refresh(), other.refresh()),
                chain(
                    order_u32(self.retry(), other.retry()),
                    chain(
                        order_u32(self.expire(), other.expire()),
                        order_u32(self.minimum(), other.minimum()),
                    ),
                ),
            ),
        )
    }

    /// The five numbers of the value, each in network byte order.
    pub open spec fn numbers_wire(&self) -> Seq<u8> {
        five_numbers(
            self.serial().0,
            self.refresh(),
            self.retry(),
            self.expire(),
            self.minimum(),
        )
    }
}

impl<N: ToDname> Soa<N> {
    /// The natural ordering of two values: by the natural ordering of the
    /// two names, then by the numbers.
    pub open spec fn natural_order<NN: ToDname>(&self, other: &Soa<NN>) -> Ordering {
        chain(
            name_order(self.mname().labels(), other.mname().labels()),
            chain(
                name_order(self.rname().labels(), other.rname().labels()),
                self.numbers_order(other),
            ),
        )
    }

    /// Returns the natural ordering of two values.
    pub fn cmp(&self, other: &Self) -> (res: Ordering)
        ensures
            res == self.natural_order(other),
    {
        let order = name_cmp(&self.mname, &other.mname);
        match order {
            Ordering::Equal => {},
            _ => {
                return order;
            },
        }
        let order = name_cmp(&self.rname, &other.rname);
        match order {
            Ordering::Equal => {},
            _ => {
                return order;
            },
        }
        let order = cmp_u32(self.serial.into_int(), other.serial.into_int());
        match order {
            Ordering::Equal => {},
            _ => {
                return order;
            },
        }
        let order = cmp_u32(self.refresh, other.refresh);
        match order {
            Ordering::Equal => {},
            _ => {
                return order;
            },
        }
        let order = cmp_u32(self.retry, other.retry);
        match order {
            Ordering::Equal => {},
            _ => {
                return order;
            },
        }
        let order = cmp_u32(self.expire, other.expire);
        match order {
            Ordering::Equal => {},
            _ => {
                return order;
            },
        }
        cmp_u32(self.minimum, other.minimum)
    }
}

//--- PartialEq and Eq

impl<N: ToDname, NN: ToDname> PartialEq<Soa<NN>> for Soa<N> {
    fn eq(&self, other: &Soa<NN>) -> (res: bool) {
        name_eq(&self.mname, &other.mname) && name_eq(&self.rname, &other.rname)
            && self.serial.into_int() == other.serial.into_int() && self.refresh == other.refresh
            && self.retry == other.retry && self.expire == other.expire && self.minimum
            == other.minimum
    }
}

impl<N: ToDname> Eq for Soa<N> {

}

impl<N: ToDname, NN: ToDname> vstd::std_specs::cmp::PartialEqSpecImpl<Soa<NN>> for Soa<N> {
    open spec fn obeys_eq_spec() -> bool {
        true
    }

    /// Two values are equal if their names are equal and their numbers are
    /// the same.
    open spec fn eq_spec(&self, other: &Soa<NN>) -> bool {
        &&& names_equal(self.mname().labels(), other.mname().labels())
        &&& names_equal(self.rname().labels(), other.rname().labels())
        &&& self.serial().0 == other.serial().0
        &&& self.refresh() == other.refresh()
        &&& self.retry() == other.retry()
        &&& self.expire() == other.expire()
        &&& self.minimum() == other.minimum()
    }
}

//--- PartialOrd and CanonicalOrd

impl<N: ToDname, NN: ToDname> PartialOrd<Soa<NN>> for Soa<N> {
    fn partial_cmp(&self, other: &Soa<NN>) -> (res: Option<Ordering>) {
        let order = name_cmp(&self.mname, &other.mname);
        match order {
            Ordering::Equal => {},
            _ => {
                return Some(order);
            },
        }
        let order = name_cmp(&self.rname, &other.rname);
        match order {
            Ordering::Equal => {},
            _ => {
                return Some(order);
            },
        }
        let order = cmp_u32(self.serial.into_int(), other.serial.into_int());
        match order {
            Ordering::Equal => {},
            _ => {
                return Some(order);
            },
        }
        let order = cmp_u32(self.refresh, other.refresh);
        match order {
            Ordering::Equal => {},
            _ => {
                return Some(order);
            },
        }
        let order = cmp_u32(self.retry, other.retry);
        match order {
            Ordering::Equal => {},
            _ => {
                return Some(order);
            },
        }
        let order = cmp_u32(self.expire, other.expire);
        match order {
            Ordering::Equal => {},
            _ => {
                return Some(order);
            },
        }
        Some(cmp_u32(self.minimum, other.minimum))
    }
}

impl<N: ToDname, NN: ToDname> vstd::std_specs::cmp::PartialOrdSpecImpl<Soa<NN>> for Soa<N> {
    open spec fn obeys_partial_cmp_spec() -> bool {
        true
    }

    open spec fn partial_cmp_spec(&self, other: &Soa<NN>) -> Option<Ordering> {
        Some(self.natural_order(other))
    }
}

impl<N: ToDname, NN: ToDname> CanonicalOrd<Soa<NN>> for Soa<N> {
    /// The canonical ordering of two values: by the canonical ordering of
    /// the two names, then by the numbers.
    open spec fn canonical_order(&self, other: &Soa<NN>) -> Ordering {
        chain(
            canonical_name_order(self.mname().labels(), other.mname().labels()),
            chain(
                canonical_name_order(self.rname().labels(), other.rname().labels()),
                self.numbers_order(other),
            ),
        )
    }

    fn canonical_cmp(&self, other: &Soa<NN>) -> (res: Ordering) {
        let order = lowercase_composed_cmp(&self.mname, &other.mname);
        match order {
            Ordering::Equal => {},
            _ => {
                return order;
            },
        }
        let order = lowercase_composed_cmp(&self.rname, &other.rname);
        match order {
            Ordering::Equal => {},
            _ => {
                return order;
            },
        }
        let order = self.serial.canonical_cmp(&other.serial);
        match order {
            Ordering::Equal => {},
            _ => {
                return order;
            },
        }
        let order = cmp_u32(self.refresh, other.refresh);
        match order {
            Ordering::Equal => {},
            _ => {
                return order;
            },
        }
        let order = cmp_u32(self.retry, other.retry);
        match order {
            Ordering::Equal => {},
            _ => {
                return order;
            },
        }
        let order = cmp_u32(self.expire, other.expire);
        match order {
            Ordering::Equal => {},
            _ => {
                return order;
            },
        }
        cmp_u32(self.minimum, other.minimum)
    }
}

//--- Compose

impl<N: ToDname> Compose for Soa<N> {
    /// The two names, then the five numbers.
    open spec fn wire(&self) -> Seq<u8> {
        name_wire(self.mname().labels()) + name_wire(self.rname().labels()) + self.numbers_wire()
    }

    /// The two names in lower case, then the five numbers.
    open spec fn canonical_wire(&self) -> Seq<u8> {
        canonical_name_wire(self.mname().labels()) + canonical_name_wire(self.rname().labels())
            + self.numbers_wire()
    }

    fn compose<T: OctetsBuilder>(&self, target: &mut T) -> (res: Result<(), ShortBuf>) {
        let op = |buf: &mut T| -> (inner: Result<(), ShortBuf>)
            ensures
                appended_in_parts(*old(buf), *final(buf), self.wire(), inner),
            {
                let ghost start = buf.octets();
                let step = buf.append_compressed_dname(&self.mname);
                if step.is_err() {
                    return step;
                }
                let ghost first = name_wire(self.mname().labels());
                let step = buf.append_compressed_dname(&self.rname);
                if step.is_err() {
                    return step;
                }
                let ghost names = first + name_wire(self.rname().labels());
                assert(buf.octets() =~= start + names);
                self.compose_numbers(buf, Ghost(start), Ghost(names))
            };
        target.append_all(op)
    }

    fn compose_canonical<T: OctetsBuilder>(&self, target: &mut T) -> (res: Result<(), ShortBuf>) {
        let op = |buf: &mut T| -> (inner: Result<(), ShortBuf>)
            ensures
                appended_in_parts(*old(buf), *final(buf), self.canonical_wire(), inner),
            {
                let ghost start = buf.octets();
                let step = crate::name::compose_canonical(&self.mname, buf);
                if step.is_err() {
                    return step;
                }
                let ghost first = canonical_name_wire(self.mname().labels());
                let step = crate::name::compose_canonical(&self.rname, buf);
                if step.is_err() {
                    return step;
                }
                let ghost names = first + canonical_name_wire(self.rname().labels());
                assert(buf.octets() =~= start + names);
                self.compose_numbers(buf, Ghost(start), Ghost(names))
            };
        target.append_all(op)
    }
}

impl<N> Soa<N> {
    /// Appends the five numbers one after another until one does not fit.
    ///
    /// The buffer began as `start` and holds `done` behind that.
    fn compose_numbers<T: OctetsBuilder>(
        &self,
        buf: &mut T,
        Ghost(start): Ghost<Seq<u8>>,
        Ghost(done): Ghost<Seq<u8>>,
    ) -> (res: Result<(), ShortBuf>)
        requires
            old(buf).octets() == start + done,
        ensures
            final(buf).limit() == old(buf).limit(),
            crate::octets::partial_outcome(
                old(buf).limit(),
                start,
                done + self.numbers_wire(),
                final(buf).octets(),
                res,
            ),
    {
        let step = self.serial.compose(buf);
        if step.is_err() {
            return step;
        }
        let step = self.refresh.compose(buf);
        if step.is_err() {
            return step;
        }
        let step = self.retry.compose(buf);
        if step.is_err() {
            return step;
        }
        let step = self.expire.compose(buf);
        if step.is_err() {
            return step;
        }
        let step = self.minimum.compose(buf);
        assert(step is Ok ==> buf.octets() =~= start + (done + self.numbers_wire()));
        step
    }
}

//--- Parse and ParseAll

impl<N: ParseDname> Parse for Soa<N> {
    /// The two names one after the other, then four octets for each of the
    /// five numbers.
    open spec fn parse_spec(octets: Seq<u8>, pos: int) -> Parsed {
        let names = then_parse::<N>(then_parse::<N>(parsed_to(pos), octets), octets);
        let serial = then_take(names, octets, 4);
        let refresh = then_take(serial, octets, 4);
        let retry = then_take(refresh, octets, 4);
        let expire = then_take(retry, octets, 4);
        then_take(expire, octets, 4)
    }

    proof fn lemma_parse_spec(octets: Seq<u8>, pos: int) {
        N::lemma_parse_spec(octets, pos);
        let first = N::parse_spec(octets, pos);
        N::lemma_parse_spec(octets, first.end);
    }

    proof fn lemma_round_trip(&self, before: Seq<u8>, after: Seq<u8>) {
        let first = self.mname().wire();
        let second = self.rname().wire();
        let numbers = self.numbers_wire();
        self.mname().lemma_wire();
        self.rname().lemma_wire();
        self.mname().lemma_round_trip(before, second + numbers + after);
        self.rname().lemma_round_trip(before + first, numbers + after);
        assert(before + self.wire() + after =~= before + first + (second + numbers + after));
        assert(before + self.wire() + after =~= (before + first) + second + (numbers + after));
    }

    fn parse(parser: &mut Parser) -> (res: Result<Self, ParseError>) {
        proof {
            parser.lemma_in_bounds();
        }
        let ghost octets = parser.octets();
        let ghost start = parser.at();
        let mname = match N::parse(parser) {
            Ok(name) => name,
            Err(err) => {
                return Err(err);
            },
        };
        let ghost first = parser.at();
        let rname = match N::parse(parser) {
            Ok(name) => name,
            Err(err) => {
                return Err(err);
            },
        };
        let ghost second = parser.at();
        let serial = match parser.parse_u32() {
            Ok(value) => Serial::from_int(value),
            Err(_) => {
                return Err(ParseError::ShortBuf);
            },
        };
        let refresh = match parser.parse_u32() {
            Ok(value) => value,
            Err(_) => {
                return Err(ParseError::ShortBuf);
            },
        };
        let retry = match parser.parse_u32() {
            Ok(value) => value,
            Err(_) => {
                return Err(ParseError::ShortBuf);
            },
        };
        let expire = match parser.parse_u32() {
            Ok(value) => value,
            Err(_) => {
                return Err(ParseError::ShortBuf);
            },
        };
        let minimum = match parser.parse_u32() {
            Ok(value) => value,
            Err(_) => {
                return Err(ParseError::ShortBuf);
            },
        };
        let res = Soa::new(mname, rname, serial, refresh, retry, expire, minimum);
        proof {
            N::lemma_parse_spec(octets, start);
            N::lemma_parse_spec(octets, first);
            res.mname().lemma_wire();
            res.rname().lemma_wire();
            assert(res.wire() =~= octets.subrange(start, second + 20));
        }
        Ok(res)
    }

    fn skip(parser: &mut Parser) -> (res: Result<(), ParseError>) {
        proof {
            parser.lemma_in_bounds();
        }
        match N::skip(parser) {
            Ok(_) => {},
            Err(err) => {
                return Err(err);
            },
        }
        match N::skip(parser) {
            Ok(_) => {},
            Err(err) => {
                return Err(err);
            },
        }
        if parser.advance(4).is_err() {
            return Err(ParseError::ShortBuf);
        }
        if parser.advance(4).is_err() {
            return Err(ParseError::ShortBuf);
        }
        if parser.advance(4).is_err() {
            return Err(ParseError::ShortBuf);
        }
        if parser.advance(4).is_err() {
            return Err(ParseError::ShortBuf);
        }
        if parser.advance(4).is_err() {
            return Err(ParseError::ShortBuf);
        }
        Ok(())
    }
}

impl<N: ParseDname> ParseAll for Soa<N> {
    /// The value is first taken without regard to the length of the field.
    /// If that fails, so does this. A value that ends before the field does
    /// gives `TrailingData`, and one that ends behind it gives
    /// `ShortField`. The parser moves only where the value fills the field.
    open spec fn parse_all_spec(octets: Seq<u8>, pos: int, len: int) -> Parsed {
        let open = Self::parse_spec(octets, pos);
        match open.err {
            Some(err) => failed_at(pos, err),
            None => if open.end - pos < len {
                failed_at(pos, ParseError::TrailingData)
            } else if open.end - pos > len {
                failed_at(pos, ParseError::ShortField)
            } else {
                parsed_to(pos + len)
            },
        }
    }

    proof fn lemma_parse_all_spec(octets: Seq<u8>, pos: int, len: int) {
    }

    proof fn lemma_round_trip_all(&self, before: Seq<u8>, after: Seq<u8>) {
        self.lemma_round_trip(before, after);
    }

    fn parse_all(parser: &mut Parser, len: usize) -> (res: Result<Self, ParseError>) {
        proof {
            parser.lemma_in_bounds();
            Self::lemma_parse_spec(parser.octets(), parser.at());
        }
        let mut tmp = *parser;
        let res = match Self::parse(&mut tmp) {
            Ok(value) => value,
            Err(err) => {
                return Err(err);
            },
        };
        if tmp.pos() - parser.pos() < len {
            Err(ParseError::TrailingData)
        } else if tmp.pos() - parser.pos() > len {
            Err(ParseError::ShortField)
        } else {
            match parser.advance(len) {
                Ok(_) => Ok(res),
                Err(_) => Err(ParseError::ShortBuf),
            }
        }
    }
}

//--- Presentation format

impl<N: ToDname> Soa<N> {
    /// The value as it is shown: each of the two names followed by a dot,
    /// then the five numbers, with a space between one and the next.
    pub open spec fn shown(&self) -> Seq<u8> {
        name_text(self.mname().labels()) + seq![0x2Eu8, 0x20u8] + name_text(
            self.rname().labels(),
        ) + seq![0x2Eu8, 0x20u8] + decimal(self.serial().0 as nat) + seq![0x20u8] + decimal(
            self.refresh() as nat,
        ) + seq![0x20u8] + decimal(self.retry() as nat) + seq![0x20u8] + decimal(
            self.expire() as nat,
        ) + seq![0x20u8] + decimal(self.minimum() as nat)
    }

    /// Returns the value in presentation format.
    pub fn to_string(&self) -> (res: String)
        ensures
            res@ == chars(self.shown()),
    {
        let mut out: Vec<u8> = Vec::new();
        push_name(&mut out, &self.mname);
        push_octet(&mut out, 0x2E);
        push_octet(&mut out, 0x20);
        push_name(&mut out, &self.rname);
        push_octet(&mut out, 0x2E);
        push_octet(&mut out, 0x20);
        push_decimal(&mut out, self.serial.into_int() as u64);
        push_octet(&mut out, 0x20);
        push_decimal(&mut out, self.refresh as u64);
        push_octet(&mut out, 0x20);
        push_decimal(&mut out, self.retry as u64);
        push_octet(&mut out, 0x20);
        push_decimal(&mut out, self.expire as u64);
        push_octet(&mut out, 0x20);
        push_decimal(&mut out, self.minimum as u64);
        into_string(out)
    }
}

//--- RtypeRecordData

impl<N> RtypeRecordData for Soa<N> {
    open spec fn rtype_spec() -> Rtype {
        Rtype::Soa
    }

    fn rtype() -> (res: Rtype) {
        Rtype::Soa
    }
}

//--- Laws

/// The ordering of two sequences that each begin with the four octets of a
/// number: by the numbers, then by what follows.
proof fn lemma_number_first(a: u32, b: u32, x: Seq<u8>, y: Seq<u8>)
    ensures
        lex_order(be_u32(a) + x, be_u32(b) + y) == chain(order_u32(a, b), lex_order(x, y)),
{
    lemma_lex_chain(be_u32(a), be_u32(b), x, y);
    lemma_lex_u32(a, b);
}

/// Two runs of five numbers are ordered as their octets are.
proof fn lemma_five_numbers(
    a1: u32,
    a2: u32,
    a3: u32,
    a4: u32,
    a5: u32,
    b1: u32,
    b2: u32,
    b3: u32,
    b4: u32,
    b5: u32,
)
    ensures
        lex_order(five_numbers(a1, a2, a3, a4, a5), five_numbers(b1, b2, b3, b4, b5)) == chain(
            order_u32(a1, b1),
            chain(
                order_u32(a2, b2),
                chain(order_u32(a3, b3), chain(order_u32(a4, b4), order_u32(a5, b5))),
            ),
        ),
{
    let x4 = be_u32(a4) + be_u32(a5);
    let y4 = be_u32(b4) + be_u32(b5);
    let x3 = be_u32(a3) + x4;
    let y3 = be_u32(b3) + y4;
    let x2 = be_u32(a2) + x3;
    let y2 = be_u32(b2) + y3;
    lemma_lex_u32(a5, b5);
    lemma_number_first(a4, b4, be_u32(a5), be_u32(b5));
    lemma_number_first(a3, b3, x4, y4);
    lemma_number_first(a2, b2, x3, y3);
    lemma_number_first(a1, b1, x2, y2);
}

impl<N: ToDname> Soa<N> {
    /// The ordering of the numbers of two values is the lexicographic
    /// ordering of their octets.
    pub proof fn lemma_numbers_order<NN: ToDname>(&self, other: &Soa<NN>)
        ensures
            self.numbers_order(other) == lex_order(self.numbers_wire(), other.numbers_wire()),
    {
        lemma_five_numbers(
            self.serial().0,
            self.refresh(),
            self.retry(),
            self.expire(),
            self.minimum(),
            other.serial().0,
            other.refresh(),
            other.retry(),
            other.expire(),
            other.minimum(),
        );
    }

    /// The canonical ordering of two values is the lexicographic ordering
    /// of their canonical forms.
    pub proof fn lemma_canonical_order<NN: ToDname>(&self, other: &Soa<NN>)
        ensures
            self.canonical_order(other) == lex_order(self.canonical_wire(), other.canonical_wire()),
    {
        let am = canonical_name_wire(self.mname().labels());
        let bm = canonical_name_wire(other.mname().labels());
        let ar = canonical_name_wire(self.rname().labels());
        let br = canonical_name_wire(other.rname().labels());
        self.mname().lemma_name();
        other.mname().lemma_name();
        self.rname().lemma_name();
        other.rname().lemma_name();
        lemma_names_apart(self.mname().labels(), other.mname().labels());
        lemma_names_apart(self.rname().labels(), other.rname().labels());
        self.lemma_numbers_order(other);
        lemma_lex_chain(ar, br, self.numbers_wire(), other.numbers_wire());
        lemma_lex_chain(am, bm, ar + self.numbers_wire(), br + other.numbers_wire());
        assert(self.canonical_wire() =~= am + (ar + self.numbers_wire()));
        assert(other.canonical_wire() =~= bm + (br + other.numbers_wire()));
    }
}

} // verus!
