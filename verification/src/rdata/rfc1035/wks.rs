//! WKS record data.
//!
//! The data of a WKS record names a host by its address, a protocol by its
//! number, and the ports on which the host serves that protocol. The ports
//! are kept in a bitmap: port `p` is served if bit `p % 8` of octet `p / 8`
//! is set, where bit 0 is the least significant one. A port for which the
//! bitmap has no octet is not served.

use bytes::BytesMut;
use core::cmp::Ordering;
use crate::iana::{Rtype, RtypeRecordData};
use crate::net::Ipv4Addr;
use crate::octets::{
    appended_in_parts, fits, Compose, EmptyBuilder, IntoOctets, Octets, OctetsBuilder, ShortBuf,
};
use crate::order::{
    lemma_apart_same_len, lemma_lex_chain, chain, cmp_slices, cmp_u8, lex_order, order_u8,
    CanonicalOrd,
};
use crate::parse::{failed_at, parsed_to, Parse, ParseAll, ParseError, Parsed, Parser};
use crate::text::{
    all_ascii, chars, decimal, into_string, ipv4_text, push_decimal, push_ipv4, push_octet,
};
use vstd::prelude::*;

verus! {

//------------ Specifications ------------------------------------------------

/// Whether bit `bit` of `octet` is set, counting from the least significant
/// bit.
pub open spec fn bit_set(octet: u8, bit: u8) -> bool {
    (octet >> bit) & 1 == 1
}

/// Whether the bitmap says that `port` is served.
pub open spec fn served(bitmap: Seq<u8>, port: int) -> bool {
    &&& 0 <= port
    &&& port / 8 < bitmap.len()
    &&& bit_set(bitmap[port / 8], (port % 8) as u8)
}

/// The ports from `from` on that the bitmap says are served, in growing
/// order.
pub open spec fn ports_from(bitmap: Seq<u8>, from: int) -> Seq<u16>
    decreases 0x1_0000 - from,
{
    if from < 0 || from >= 0x1_0000 || from >= 8 * bitmap.len() {
        Seq::empty()
    } else if served(bitmap, from) {
        seq![from as u16] + ports_from(bitmap, from + 1)
    } else {
        ports_from(bitmap, from + 1)
    }
}

/// The bitmap with zero octets added until it has at least `len` octets.
pub open spec fn padded(bitmap: Seq<u8>, len: int) -> Seq<u8> {
    if len <= bitmap.len() {
        bitmap
    } else {
        bitmap + Seq::new((len - bitmap.len()) as nat, |i: int| 0u8)
    }
}

/// The bitmap after `port` was added: long enough to have an octet for the
/// port, and with the bit of the port set.
pub open spec fn with_port(bitmap: Seq<u8>, port: u16) -> Seq<u8> {
    let octet = port as int / 8;
    let long = padded(bitmap, octet + 1);
    long.update(octet, long[octet] | (1u8 << ((port % 8) as u8)))
}

/// The bitmap after each of `ports` was added in turn.
pub open spec fn with_ports(bitmap: Seq<u8>, ports: Seq<u16>) -> Seq<u8>
    decreases ports.len(),
{
    if ports.len() == 0 {
        bitmap
    } else {
        with_port(with_ports(bitmap, ports.drop_last()), ports.last())
    }
}

//------------ Lemmas --------------------------------------------------------

/// After ports were added, they are served, and so is what was served
/// before, and nothing else. The bitmap has not become shorter.
pub proof fn lemma_with_ports(bitmap: Seq<u8>, ports: Seq<u16>, other: int)
    ensures
        served(with_ports(bitmap, ports), other) <==> served(bitmap, other) || exists|i: int|
            0 <= i < ports.len() && #[trigger] ports[i] == other,
        bitmap.len() <= with_ports(bitmap, ports).len(),
    decreases ports.len(),
{
    if ports.len() > 0 {
        let front = ports.drop_last();
        lemma_with_ports(bitmap, front, other);
        lemma_with_port(with_ports(bitmap, front), ports.last(), other);
        if served(with_ports(bitmap, ports), other) && !served(bitmap, other) {
            if other != ports.last() {
                let i = choose|i: int| 0 <= i < front.len() && #[trigger] front[i] == other;
            }
        }
        if exists|i: int| 0 <= i < ports.len() && #[trigger] ports[i] == other {
            let i = choose|i: int| 0 <= i < ports.len() && #[trigger] ports[i] == other;
            if i < front.len() {
                assert(front[i] == other);
            }
        }
    }
}


/// Setting a bit of an octet sets that bit and no other.
pub proof fn lemma_set_bit(octet: u8, bit: u8, other: u8)
    requires
        bit < 8,
        other < 8,
    ensures
        bit_set(octet | (1u8 << bit), other) <==> bit_set(octet, other) || other == bit,
        !bit_set(0u8, other),
{
    assert(((octet | (1u8 << bit)) >> other) & 1 == 1 <==> ((octet >> other) & 1 == 1) || other
        == bit) by (bit_vector)
        requires
            bit < 8,
            other < 8,
    ;
    assert((0u8 >> other) & 1 != 1) by (bit_vector);
}

/// After a port was added, it is served, and so is what was served before,
/// and nothing else.
pub proof fn lemma_with_port(bitmap: Seq<u8>, port: u16, other: int)
    ensures
        served(with_port(bitmap, port), other) <==> served(bitmap, other) || other == port,
        with_port(bitmap, port).len() == if port / 8 < bitmap.len() {
            bitmap.len() as int
        } else {
            port / 8 + 1
        },
{
    let octet = port as int / 8;
    let long = padded(bitmap, octet + 1);
    let after = with_port(bitmap, port);
    if 0 <= other && other / 8 < after.len() {
        let bit = (port % 8) as u8;
        let at = (other % 8) as u8;
        lemma_set_bit(long[octet], bit, at);
    }
}

/// The ports that the iteration gives are those that are served, and they
/// come in strictly growing order.
pub proof fn lemma_ports_from(bitmap: Seq<u8>, from: int)
    requires
        0 <= from,
    ensures
        forall|i: int|
            0 <= i < ports_from(bitmap, from).len() ==> from <= (#[trigger] ports_from(
                bitmap,
                from,
            )[i]) && served(bitmap, ports_from(bitmap, from)[i] as int),
        forall|i: int, j: int|
            0 <= i < j < ports_from(bitmap, from).len() ==> (#[trigger] ports_from(bitmap, from)[i])
                < (#[trigger] ports_from(bitmap, from)[j]),
        forall|port: u16|
            from <= port && served(bitmap, port as int) ==> ports_from(bitmap, from).contains(
                port,
            ),
    decreases 0x1_0000 - from,
{
    let here = ports_from(bitmap, from);
    if !(from >= 0x1_0000 || from >= 8 * bitmap.len()) {
        lemma_ports_from(bitmap, from + 1);
        let rest = ports_from(bitmap, from + 1);
        if served(bitmap, from) {
            assert forall|port: u16| from <= port && served(bitmap, port as int) implies here.contains(
                port,
            ) by {
                if port == from {
                    assert(here[0] == port);
                } else {
                    let at = choose|i: int| 0 <= i < rest.len() && rest[i] == port;
                    assert(here[at + 1] == port);
                }
            }
        }
    }
}

//------------ Wks -----------------------------------------------------------

/// Wks record data.
///
/// Wks records describe the well-known services supported by a particular
/// protocol on a particular internet address.
///
/// The Wks record type is defined in RFC 1035, section 3.4.2.
#[derive(Clone, Debug, Hash)]
pub struct Wks<Octs> {
    address: Ipv4Addr,
    protocol: u8,
    bitmap: Octs,
}

impl<Octs> Wks<Octs> {
    /// The address, for use in contracts.
    pub closed spec fn spec_address(&self) -> Ipv4Addr {
        self.address
    }

    /// The protocol number, for use in contracts.
    pub closed spec fn spec_protocol(&self) -> u8 {
        self.protocol
    }

    /// The bitmap, for use in contracts.
    pub closed spec fn spec_bitmap(&self) -> &Octs {
        &self.bitmap
    }

    /// Creates a new record data from components.
    pub fn new(address: Ipv4Addr, protocol: u8, bitmap: Octs) -> (res: Self)
        ensures
            res.address() == address,
            res.protocol() == protocol,
            *res.bitmap() == bitmap,
    {
        Wks { address, protocol, bitmap }
    }

    /// The IPv4 address of the host this record refers to.
    #[verifier::when_used_as_spec(spec_address)]
    pub fn address(&self) -> (res: Ipv4Addr)
        ensures
            res == self.spec_address(),
    {
        self.address
    }

    /// The protocol number of the protocol this record refers to.
    ///
    /// This will typically be `6` for TCP or `17` for UDP.
    #[verifier::when_used_as_spec(spec_protocol)]
    pub fn protocol(&self) -> (res: u8)
        ensures
            res == self.spec_protocol(),
    {
        self.protocol
    }

    /// A bitmap indicating the ports where service is being provided.
    #[verifier::when_used_as_spec(spec_bitmap)]
    pub fn bitmap(&self) -> (res: &Octs)
        ensures
            res == self.spec_bitmap(),
    {
        &self.bitmap
    }
}

impl<Octs: Octets> Wks<Octs> {
    /// Returns whether a certain service is being provided.
    pub fn serves(&self, port: u16) -> (res: bool)
        ensures
            res == served(self.bitmap().octets(), port as int),
    {
        let octet = (port / 8) as usize;
        let bit = (port % 8) as u8;
        let bitmap = self.bitmap.as_slice();
        if octet < bitmap.len() {
            (bitmap[octet] >> bit) & 1 == 1
        } else {
            false
        }
    }

    /// Returns an iterator over the served ports.
    pub fn iter(&self) -> (res: WksIter<'_>)
        ensures
            res@ == ports_from(self.bitmap().octets(), 0),
    {
        WksIter::new(self.bitmap.as_slice())
    }

    /// The natural ordering of two values: by the octets of the address,
    /// then by the protocol number, then by the octets of the bitmap.
    pub open spec fn natural_order<Other: Octets>(&self, other: &Wks<Other>) -> Ordering {
        chain(
            lex_order(self.address()@, other.address()@),
            chain(
                order_u8(self.protocol(), other.protocol()),
                lex_order(self.bitmap().octets(), other.bitmap().octets()),
            ),
        )
    }

    /// Returns the natural ordering of two values.
    pub fn cmp(&self, other: &Self) -> (res: Ordering)
        ensures
            res == self.natural_order(other),
    {
        let order = cmp_slices(&self.address.octets(), &other.address.octets());
        match order {
            Ordering::Equal => {},
            _ => {
                return order;
            },
        }
        let order = cmp_u8(self.protocol, other.protocol);
        match order {
            Ordering::Equal => {},
            _ => {
                return order;
            },
        }
        cmp_slices(self.bitmap.as_slice(), other.bitmap.as_slice())
    }
}

//--- PartialEq and Eq

impl<Octs: Octets, Other: Octets> PartialEq<Wks<Other>> for Wks<Octs> {
    fn eq(&self, other: &Wks<Other>) -> (res: bool) {
        proof {
            crate::order::lemma_lex_equal(self.bitmap().octets(), other.bitmap().octets());
            crate::order::lemma_lex_equal(self.address()@, other.address()@);
        }
        let address = match cmp_slices(&self.address.octets(), &other.address.octets()) {
            Ordering::Equal => true,
            _ => false,
        };
        let bitmap = match cmp_slices(self.bitmap.as_slice(), other.bitmap.as_slice()) {
            Ordering::Equal => true,
            _ => false,
        };
        address && self.protocol == other.protocol && bitmap
    }
}

impl<Octs: Octets> Eq for Wks<Octs> {

}

impl<Octs: Octets, Other: Octets> vstd::std_specs::cmp::PartialEqSpecImpl<Wks<Other>> for Wks<Octs> {
    open spec fn obeys_eq_spec() -> bool {
        true
    }

    /// Two values are equal if they have the same address, the same
    /// protocol number and the same bitmap.
    open spec fn eq_spec(&self, other: &Wks<Other>) -> bool {
        &&& self.address()@ == other.address()@
        &&& self.protocol() == other.protocol()
        &&& self.bitmap().octets() == other.bitmap().octets()
    }
}

//--- PartialOrd and CanonicalOrd

impl<Octs: Octets, Other: Octets> PartialOrd<Wks<Other>> for Wks<Octs> {
    fn partial_cmp(&self, other: &Wks<Other>) -> (res: Option<Ordering>) {
        let order = cmp_slices(&self.address.octets(), &other.address.octets());
        match order {
            Ordering::Equal => {},
            _ => {
                return Some(order);
            },
        }
        let order = cmp_u8(self.protocol, other.protocol);
        match order {
            Ordering::Equal => {},
            _ => {
                return Some(order);
            },
        }
        Some(cmp_slices(self.bitmap.as_slice(), other.bitmap.as_slice()))
    }
}

impl<Octs: Octets, Other: Octets> vstd::std_specs::cmp::PartialOrdSpecImpl<Wks<Other>> for Wks<Octs> {
    open spec fn obeys_partial_cmp_spec() -> bool {
        true
    }

    open spec fn partial_cmp_spec(&self, other: &Wks<Other>) -> Option<Ordering> {
        Some(self.natural_order(other))
    }
}

impl<Octs: Octets, Other: Octets> CanonicalOrd<Wks<Other>> for Wks<Octs> {
    /// The canonical ordering of two values is their natural ordering.
    open spec fn canonical_order(&self, other: &Wks<Other>) -> Ordering {
        self.natural_order(other)
    }

    fn canonical_cmp(&self, other: &Wks<Other>) -> (res: Ordering) {
        let order = cmp_slices(&self.address.octets(), &other.address.octets());
        match order {
            Ordering::Equal => {},
            _ => {
                return order;
            },
        }
        let order = cmp_u8(self.protocol, other.protocol);
        match order {
            Ordering::Equal => {},
            _ => {
                return order;
            },
        }
        cmp_slices(self.bitmap.as_slice(), other.bitmap.as_slice())
    }
}

//--- Compose

impl<Octs: Octets> Compose for Wks<Octs> {
    /// The four octets of the address, the protocol number, then the
    /// bitmap.
    open spec fn wire(&self) -> Seq<u8> {
        self.address()@ + seq![self.protocol()] + self.bitmap().octets()
    }

    open spec fn canonical_wire(&self) -> Seq<u8> {
        self.wire()
    }

    fn compose<T: OctetsBuilder>(&self, target: &mut T) -> (res: Result<(), ShortBuf>) {
        let op = |buf: &mut T| -> (inner: Result<(), ShortBuf>)
            ensures
                appended_in_parts(*old(buf), *final(buf), self.wire(), inner),
            {
                let step = self.address.compose(buf);
                if step.is_err() {
                    return step;
                }
                let step = self.protocol.compose(buf);
                if step.is_err() {
                    return step;
                }
                let step = buf.append_slice(self.bitmap.as_slice());
                assert(step is Ok ==> buf.octets() =~= old(buf).octets() + self.wire());
                step
            };
        target.append_all(op)
    }

    fn compose_canonical<T: OctetsBuilder>(&self, target: &mut T) -> (res: Result<(), ShortBuf>) {
        self.compose(target)
    }
}

//--- ParseAll

impl ParseAll for Wks<Vec<u8>> {
    /// A field of less than five octets is too short. Else four octets are
    /// taken for the address, one for the protocol number, and the rest of
    /// the field for the bitmap. The parser stops with `ShortBuf` before
    /// the first of these for which the octets do not suffice.
    open spec fn parse_all_spec(octets: Seq<u8>, pos: int, len: int) -> Parsed {
        if len < 5 {
            failed_at(pos, ParseError::ShortField)
        } else if pos + 4 > octets.len() {
            failed_at(pos, ParseError::ShortBuf)
        } else if pos + 5 > octets.len() {
            failed_at(pos + 4, ParseError::ShortBuf)
        } else if pos + len > octets.len() {
            failed_at(pos + 5, ParseError::ShortBuf)
        } else {
            parsed_to(pos + len)
        }
    }

    proof fn lemma_parse_all_spec(octets: Seq<u8>, pos: int, len: int) {
    }

    proof fn lemma_round_trip_all(&self, before: Seq<u8>, after: Seq<u8>) {
        self.address().lemma_view();
    }

    fn parse_all(parser: &mut Parser, len: usize) -> (res: Result<Self, ParseError>) {
        proof {
            parser.lemma_in_bounds();
        }
        let ghost octets = parser.octets();
        let ghost start = parser.at();
        if len < 5 {
            return Err(ParseError::ShortField);
        }
        let address = match Ipv4Addr::parse(parser) {
            Ok(address) => address,
            Err(err) => {
                return Err(err);
            },
        };
        let protocol = match parser.parse_u8() {
            Ok(protocol) => protocol,
            Err(_) => {
                return Err(ParseError::ShortBuf);
            },
        };
        let bitmap = match parser.parse_octets(len - 5) {
            Ok(bitmap) => vstd::slice::slice_to_vec(bitmap),
            Err(_) => {
                return Err(ParseError::ShortBuf);
            },
        };
        let res = Wks::new(address, protocol, bitmap);
        assert(res.wire() =~= octets.subrange(start, start + len));
        Ok(res)
    }
}

//------------ WksIter -------------------------------------------------------

/// An iterator over the services active in a Wks record.
///
/// This iterates over the port numbers in growing order.
#[derive(Clone, Copy, Debug)]
pub struct WksIter<'a> {
    bitmap: &'a [u8],
    octet: usize,
    bit: usize,
}

impl<'a> WksIter<'a> {
    #[verifier::type_invariant]
    spec fn in_bounds(&self) -> bool {
        self.bit < 8 && self.octet <= 0x2000
    }

    /// The ports that are still to come.
    pub closed spec fn view(&self) -> Seq<u16> {
        ports_from(self.bitmap@, self.octet * 8 + self.bit)
    }

    /// Creates an iterator over the ports of a bitmap.
    pub fn new(bitmap: &'a [u8]) -> (res: Self)
        ensures
            res@ == ports_from(bitmap@, 0),
    {
        WksIter { bitmap, octet: 0, bit: 0 }
    }

    /// Returns whether the port the iterator stands at is served.
    fn serves(&self) -> (res: bool)
        requires
            self.octet < self.bitmap@.len(),
            self.bit < 8,
        ensures
            res == served(self.bitmap@, self.octet * 8 + self.bit),
    {
        (self.bitmap[self.octet] >> (self.bit as u8)) & 1 == 1
    }

    /// Returns the next port that is served, if there is one.
    pub fn next(&mut self) -> (res: Option<u16>)
        ensures
            old(self)@.len() == 0 ==> res is None && final(self)@.len() == 0,
            old(self)@.len() > 0 ==> res == Some(old(self)@[0]) && final(self)@ == old(self)@.skip(
                1,
            ),
    {
        proof {
            use_type_invariant(&*self);
        }
        loop
            invariant
                self.bit < 8,
                self.octet <= 0x2000,
                self@ == old(self)@,
                self.bitmap@ == old(self).bitmap@,
            decreases 0x2000 * 8 - (self.octet * 8 + self.bit),
        {
            if self.octet >= self.bitmap.len() || self.octet >= 0x2000 {
                return None;
            }
            let found = self.serves();
            let port = (self.octet * 8 + self.bit) as u16;
            if self.bit == 7 {
                self.octet += 1;
                self.bit = 0
            } else {
                self.bit += 1
            }
            if found {
                return Some(port);
            }
        }
    }
}

//------------ WksBuilder ----------------------------------------------------

/// Builds Wks record data from ports that are added one at a time.
#[derive(Clone, Debug)]
pub struct WksBuilder<Builder> {
    address: Ipv4Addr,
    protocol: u8,
    bitmap: Builder,
}

impl<Builder: OctetsBuilder> WksBuilder<Builder> {
    /// The address of the host.
    pub closed spec fn address(&self) -> Ipv4Addr {
        self.address
    }

    /// The protocol number.
    pub closed spec fn protocol(&self) -> u8 {
        self.protocol
    }

    /// The bitmap as it stands.
    pub closed spec fn bitmap(&self) -> Seq<u8> {
        self.bitmap.octets()
    }

    /// The limit of the buffer that the bitmap is built in.
    pub closed spec fn limit(&self) -> Option<nat> {
        self.bitmap.limit()
    }

    /// Adds a port to those that are served.
    ///
    /// The bitmap grows by zero octets until it has an octet for the port,
    /// then the bit of the port is set. This fails, and leaves the bitmap
    /// as it is, if the buffer cannot hold the octets that are needed.
    pub fn add_service(&mut self, service: u16) -> (res: Result<(), ShortBuf>)
        ensures
            final(self).address() == old(self).address(),
            final(self).protocol() == old(self).protocol(),
            final(self).limit() == old(self).limit(),
            res is Ok <==> fits(old(self).limit(), 0, with_port(old(self).bitmap(), service).len()),
            res is Ok ==> final(self).bitmap() == with_port(old(self).bitmap(), service),
            res is Err ==> final(self).bitmap() == old(self).bitmap(),
    {
        let octet = (service / 8) as usize;
        let bit = 1u8 << ((service % 8) as u8);
        let op = |bitmap: &mut Builder| -> (inner: Result<(), ShortBuf>)
            requires
                octet < 0x2000,
            ensures
                final(bitmap).limit() == old(bitmap).limit(),
                inner is Ok <==> fits(
                    old(bitmap).limit(),
                    0,
                    padded(old(bitmap).octets(), octet + 1).len(),
                ),
                inner is Ok ==> final(bitmap).octets() == padded(old(bitmap).octets(), octet + 1),
                inner is Err ==> old(bitmap).octets().is_prefix_of(final(bitmap).octets()),
            {
                proof {
                    bitmap.lemma_within_limit();
                }
                while bitmap.len() < octet + 1
                    invariant
                        octet < 0x2000,
                        bitmap.limit() == old(bitmap).limit(),
                        old(bitmap).octets().len() <= bitmap.octets().len(),
                        bitmap.octets().len() <= octet + 1 || bitmap.octets().len() == old(
                            bitmap,
                        ).octets().len(),
                        bitmap.octets() == padded(
                            old(bitmap).octets(),
                            bitmap.octets().len() as int,
                        ),
                        fits(bitmap.limit(), 0, bitmap.octets().len()),
                    decreases octet + 1 - bitmap.octets().len(),
                {
                    let zero = [0u8];
                    let step = bitmap.append_slice(&zero);
                    if step.is_err() {
                        return step;
                    }
                }
                Ok(())
            };
        let res = self.bitmap.append_all(op);
        if res.is_err() {
            return res;
        }
        let bitmap = self.bitmap.as_slice_mut();
        bitmap[octet] = bitmap[octet] | bit;
        res
    }

    /// Returns the finished Wks record data.
    ///
    /// The bitmap ends with the octet of the greatest port that was added.
    pub fn finish(self) -> (res: Wks<Builder::Octets>) where Builder: IntoOctets + EmptyBuilder
        ensures
            res.address() == self.address(),
            res.protocol() == self.protocol(),
            res.bitmap().octets() == self.bitmap(),
    {
        Wks::new(self.address, self.protocol, self.bitmap.into_octets())
    }
}

impl<Builder: OctetsBuilder + EmptyBuilder + IntoOctets> WksBuilder<Builder> {
    /// Builds Wks record data for the given host and protocol with the
    /// given ports.
    ///
    /// Fails if the buffer cannot hold the bitmap.
    pub fn from_services(address: Ipv4Addr, protocol: u8, services: &[u16]) -> (res: Result<
        Wks<Builder::Octets>,
        ShortBuf,
    >)
        ensures
            res is Ok <==> fits(
                Builder::empty_limit(),
                0,
                with_ports(Seq::empty(), services@).len(),
            ),
            res matches Ok(wks) ==> {
                &&& wks.address() == address
                &&& wks.protocol() == protocol
                &&& wks.bitmap().octets() == with_ports(Seq::empty(), services@)
            },
    {
        let mut builder = Self::new(address, protocol);
        let ghost none = Seq::<u8>::empty();
        let mut i: usize = 0;
        while i < services.len()
            invariant
                i <= services@.len(),
                none == Seq::<u8>::empty(),
                builder.address() == address,
                builder.protocol() == protocol,
                builder.limit() == Builder::empty_limit(),
                builder.bitmap() == with_ports(none, services@.take(i as int)),
                fits(builder.limit(), 0, builder.bitmap().len()),
            decreases services@.len() - i,
        {
            let ghost next = services@.take(i + 1);
            proof {
                assert(next.drop_last() =~= services@.take(i as int));
                lemma_ports_grow(none, services@, i + 1);
            }
            if builder.add_service(services[i]).is_err() {
                return Err(ShortBuf);
            }
            i += 1;
        }
        assert(services@.take(i as int) =~= services@);
        Ok(builder.finish())
    }
}

/// The bitmap for the first ports of a sequence is no longer than that for
/// all of them.
proof fn lemma_ports_grow(bitmap: Seq<u8>, ports: Seq<u16>, count: int)
    requires
        0 <= count <= ports.len(),
    ensures
        with_ports(bitmap, ports.take(count)).len() <= with_ports(bitmap, ports).len(),
    decreases ports.len() - count,
{
    if count < ports.len() {
        let next = ports.take(count + 1);
        assert(next.drop_last() =~= ports.take(count));
        lemma_ports_grow(bitmap, ports, count + 1);
    } else {
        assert(ports.take(count) =~= ports);
    }
}

impl<Builder: OctetsBuilder + EmptyBuilder> WksBuilder<Builder> {
    /// Creates a builder for the given host and protocol with no port.
    pub fn new(address: Ipv4Addr, protocol: u8) -> (res: Self)
        ensures
            res.address() == address,
            res.protocol() == protocol,
            res.bitmap() == Seq::<u8>::empty(),
            res.limit() == Builder::empty_limit(),
    {
        WksBuilder { address, protocol, bitmap: Builder::empty() }
    }
}

impl WksBuilder<BytesMut> {
    /// Creates a builder for the given host and protocol with no port that
    /// builds in a `BytesMut`.
    pub fn new_bytes(address: Ipv4Addr, protocol: u8) -> (res: Self)
        ensures
            res.address() == address,
            res.protocol() == protocol,
            res.bitmap() == Seq::<u8>::empty(),
            res.limit() == BytesMut::empty_limit(),
    {
        Self::new(address, protocol)
    }
}

//--- Presentation format

/// Ports as they are shown: each as a space and its number.
pub open spec fn ports_text(ports: Seq<u16>) -> Seq<u8>
    decreases ports.len(),
{
    if ports.len() == 0 {
        Seq::empty()
    } else {
        ports_text(ports.drop_last()) + seq![0x20u8] + decimal(ports.last() as nat)
    }
}

impl<Octs: Octets> Wks<Octs> {
    /// The value as it is shown: the address, the protocol number, and the
    /// ports that are served in growing order, with a space between one
    /// and the next.
    pub open spec fn shown(&self) -> Seq<u8> {
        ipv4_text(self.address()@) + seq![0x20u8] + decimal(self.protocol() as nat) + ports_text(
            ports_from(self.bitmap().octets(), 0),
        )
    }

    /// Returns the value in presentation format.
    pub fn to_string(&self) -> (res: String)
        ensures
            res@ == chars(self.shown()),
    {
        let mut out: Vec<u8> = Vec::new();
        push_ipv4(&mut out, self.address.octets());
        push_octet(&mut out, 0x20);
        push_decimal(&mut out, self.protocol as u64);
        let ghost head = out@;
        let mut iter = self.iter();
        let ghost all = iter@;
        let ghost mut count: int = 0;
        loop
            invariant
                0 <= count <= all.len(),
                all == ports_from(self.bitmap().octets(), 0),
                iter@ == all.skip(count),
                all_ascii(out@),
                out@ == head + ports_text(all.take(count)),
                head == ipv4_text(self.address()@) + seq![0x20u8] + decimal(
                    self.protocol() as nat,
                ),
            decreases all.len() - count,
        {
            match iter.next() {
                None => {
                    assert(all.take(count) =~= all);
                    return into_string(out);
                },
                Some(port) => {
                    push_octet(&mut out, 0x20);
                    push_decimal(&mut out, port as u64);
                    proof {
                        let next = all.take(count + 1);
                        assert(next.drop_last() =~= all.take(count));
                        count = count + 1;
                    }
                },
            }
        }
    }
}

//--- RtypeRecordData

impl<Octs> RtypeRecordData for Wks<Octs> {
    open spec fn rtype_spec() -> Rtype {
        Rtype::Wks
    }

    fn rtype() -> (res: Rtype) {
        Rtype::Wks
    }
}

//--- Laws

impl<Octs: Octets> Wks<Octs> {
    /// The canonical ordering of two values is the lexicographic ordering
    /// of their canonical forms.
    pub proof fn lemma_canonical_order<Other: Octets>(&self, other: &Wks<Other>)
        ensures
            self.canonical_order(other) == lex_order(self.canonical_wire(), other.canonical_wire()),
    {
        let a = self.address()@;
        let b = other.address()@;
        let p = seq![self.protocol()];
        let q = seq![other.protocol()];
        let x = self.bitmap().octets();
        let y = other.bitmap().octets();
        self.address().lemma_view();
        other.address().lemma_view();
        lemma_apart_same_len(a, b);
        lemma_apart_same_len(p, q);
        lemma_lex_chain(p, q, x, y);
        lemma_lex_chain(a, b, p + x, q + y);
        assert(lex_order(p.skip(1), q.skip(1)) is Equal);
        assert(self.canonical_wire() =~= a + (p + x));
        assert(other.canonical_wire() =~= b + (q + y));
    }
}

} // verus!
