use domain_core::array::{Octets32, Octets64};
use domain_core::dname::{Dname, SplitDname};
use domain_core::octets::{Compose, ShortBuf};
use domain_core::order::CanonicalOrd;
use domain_core::parse::{Parse, ParseAll, ParseError, Parser};
use domain_core::rdata::rfc1035::Soa;
use domain_core::serial::Serial;
use std::cmp::Ordering;

fn name(wire: &[u8]) -> Dname {
    Dname::from_slice(wire).unwrap()
}

fn soa(mname: &[u8], rname: &[u8], numbers: [u32; 5]) -> Soa<Dname> {
    Soa::new(
        name(mname),
        name(rname),
        Serial::from_int(numbers[0]),
        numbers[1],
        numbers[2],
        numbers[3],
        numbers[4],
    )
}

const WIRE: &[u8] = b"\x03Ns1\x00\x05Admin\x00\
    \x78\x9A\xBC\xDE\x00\x00\x0E\x10\x00\x00\x02\x58\x00\x09\x3A\x80\x00\x00\x00\x3C";

#[test]
fn soa_accessors() {
    let soa = soa(b"\x03ns1\x00", b"\x05admin\x00", [1, 2, 3, 4, 5]);
    assert_eq!(soa.mname().as_slice(), b"\x03ns1\x00");
    assert_eq!(soa.rname().as_slice(), b"\x05admin\x00");
    assert_eq!(soa.serial(), Serial::from_int(1));
    assert_eq!(soa.refresh(), 2);
    assert_eq!(soa.retry(), 3);
    assert_eq!(soa.expire(), 4);
    assert_eq!(soa.minimum(), 5);
    let copy = soa.clone();
    assert!(copy == soa);
}

#[test]
fn soa_compose() {
    let soa = soa(b"\x03Ns1\x00", b"\x05Admin\x00", [0x789A_BCDE, 3600, 600, 604800, 60]);
    let mut buf: Vec<u8> = vec![0xEE];
    assert_eq!(soa.compose(&mut buf), Ok(()));
    assert_eq!(&buf[..1], &[0xEE]);
    assert_eq!(&buf[1..], WIRE);
    let mut buf: Vec<u8> = Vec::new();
    assert_eq!(soa.compose_canonical(&mut buf), Ok(()));
    assert_eq!(&buf[..12], b"\x03ns1\x00\x05admin\x00");
    assert_eq!(&buf[12..], &WIRE[12..]);
}

#[test]
fn soa_is_written_whole_or_not_at_all() {
    let soa = Soa::new(
        SplitDname::from_labels(vec![b"Ns1".to_vec()]).unwrap(),
        SplitDname::from_labels(vec![b"Admin".to_vec()]).unwrap(),
        Serial::from_int(0x789A_BCDE),
        3600,
        600,
        604800,
        60,
    );
    for used in 0..=64usize {
        let start = vec![7u8; used];
        let fits = used + WIRE.len() <= 64;
        let mut buf = Octets64::from_slice(&start).unwrap();
        assert_eq!(soa.compose(&mut buf), if fits { Ok(()) } else { Err(ShortBuf) });
        if fits {
            assert_eq!(&buf.as_slice()[..used], &start[..]);
            assert_eq!(&buf.as_slice()[used..], WIRE);
        } else {
            assert_eq!(buf.as_slice(), &start[..]);
        }
        let mut buf = Octets64::from_slice(&start).unwrap();
        assert_eq!(soa.compose_canonical(&mut buf), if fits { Ok(()) } else { Err(ShortBuf) });
        if fits {
            assert_eq!(&buf.as_slice()[used..used + 12], b"\x03ns1\x00\x05admin\x00");
        } else {
            assert_eq!(buf.as_slice(), &start[..]);
        }
    }
    let mut small = Octets32::new();
    assert_eq!(soa.compose(&mut small), Ok(()));
    assert_eq!(small.len(), 32);
}

#[test]
fn soa_equality() {
    let base = soa(b"\x03ns1\x00", b"\x05admin\x00", [1, 2, 3, 4, 5]);
    assert!(base == soa(b"\x03NS1\x00", b"\x05ADMIN\x00", [1, 2, 3, 4, 5]));
    assert!(base != soa(b"\x03ns2\x00", b"\x05admin\x00", [1, 2, 3, 4, 5]));
    assert!(base != soa(b"\x03ns1\x00", b"\x05guest\x00", [1, 2, 3, 4, 5]));
    assert!(base != soa(b"\x03ns1\x00", b"\x05admin\x00", [9, 2, 3, 4, 5]));
    assert!(base != soa(b"\x03ns1\x00", b"\x05admin\x00", [1, 9, 3, 4, 5]));
    assert!(base != soa(b"\x03ns1\x00", b"\x05admin\x00", [1, 2, 9, 4, 5]));
    assert!(base != soa(b"\x03ns1\x00", b"\x05admin\x00", [1, 2, 3, 9, 5]));
    assert!(base != soa(b"\x03ns1\x00", b"\x05admin\x00", [1, 2, 3, 4, 9]));
}

#[test]
fn soa_ordering_goes_field_by_field() {
    let base = soa(b"\x03ns1\x00", b"\x05admin\x00", [5, 5, 5, 5, 5]);
    let cases: Vec<(Soa<Dname>, Ordering)> = vec![
        (soa(b"\x03NS1\x00", b"\x05Admin\x00", [5, 5, 5, 5, 5]), Ordering::Equal),
        (soa(b"\x03ns2\x00", b"\x01a\x00", [0, 0, 0, 0, 0]), Ordering::Less),
        (soa(b"\x03ns0\x00", b"\x05zzzzz\x00", [9, 9, 9, 9, 9]), Ordering::Greater),
        (soa(b"\x03ns1\x00", b"\x05bdmin\x00", [0, 0, 0, 0, 0]), Ordering::Less),
        (soa(b"\x03ns1\x00", b"\x05aamin\x00", [9, 9, 9, 9, 9]), Ordering::Greater),
        (soa(b"\x03ns1\x00", b"\x05admin\x00", [6, 0, 0, 0, 0]), Ordering::Less),
        (soa(b"\x03ns1\x00", b"\x05admin\x00", [4, 9, 9, 9, 9]), Ordering::Greater),
        (soa(b"\x03ns1\x00", b"\x05admin\x00", [5, 6, 0, 0, 0]), Ordering::Less),
        (soa(b"\x03ns1\x00", b"\x05admin\x00", [5, 4, 9, 9, 9]), Ordering::Greater),
        (soa(b"\x03ns1\x00", b"\x05admin\x00", [5, 5, 6, 0, 0]), Ordering::Less),
        (soa(b"\x03ns1\x00", b"\x05admin\x00", [5, 5, 4, 9, 9]), Ordering::Greater),
        (soa(b"\x03ns1\x00", b"\x05admin\x00", [5, 5, 5, 6, 0]), Ordering::Less),
        (soa(b"\x03ns1\x00", b"\x05admin\x00", [5, 5, 5, 4, 9]), Ordering::Greater),
        (soa(b"\x03ns1\x00", b"\x05admin\x00", [5, 5, 5, 5, 6]), Ordering::Less),
        (soa(b"\x03ns1\x00", b"\x05admin\x00", [5, 5, 5, 5, 4]), Ordering::Greater),
    ];
    for (other, expected) in &cases {
        assert_eq!(base.cmp(other), *expected);
        assert_eq!(base.partial_cmp(other), Some(*expected));
        assert_eq!(base.canonical_cmp(other), *expected);
        assert_eq!(other.cmp(&base), expected.reverse());
        assert_eq!(other.canonical_cmp(&base), expected.reverse());
    }
}

#[test]
fn soa_serial_is_ordered_as_a_plain_number() {
    let low = soa(b"\x00", b"\x00", [1, 0, 0, 0, 0]);
    let high = soa(b"\x00", b"\x00", [0xFFFF_FFFF, 0, 0, 0, 0]);
    assert_eq!(low.cmp(&high), Ordering::Less);
    assert_eq!(low.canonical_cmp(&high), Ordering::Less);
}

#[test]
fn soa_orders_can_disagree() {
    let left = soa(b"\x01b\x01a\x00", b"\x00", [0, 0, 0, 0, 0]);
    let right = soa(b"\x01a\x01b\x00", b"\x00", [0, 0, 0, 0, 0]);
    assert_eq!(left.cmp(&right), Ordering::Less);
    assert_eq!(left.canonical_cmp(&right), Ordering::Greater);
}

#[test]
fn soa_parsing() {
    let mut octets = WIRE.to_vec();
    octets.push(0xFF);
    let mut parser = Parser::from_slice(&octets);
    let soa = Soa::<Dname>::parse(&mut parser).unwrap();
    assert_eq!(parser.pos(), WIRE.len());
    assert_eq!(soa.mname().as_slice(), b"\x03Ns1\x00");
    assert_eq!(soa.rname().as_slice(), b"\x05Admin\x00");
    assert_eq!(soa.serial().into_int(), 0x789A_BCDE);
    assert_eq!(soa.refresh(), 3600);
    assert_eq!(soa.retry(), 600);
    assert_eq!(soa.expire(), 604800);
    assert_eq!(soa.minimum(), 60);
    let mut buf: Vec<u8> = Vec::new();
    assert_eq!(soa.compose(&mut buf), Ok(()));
    assert_eq!(buf, WIRE.to_vec());
    let mut parser = Parser::from_slice(&octets);
    assert_eq!(Soa::<Dname>::skip(&mut parser), Ok(()));
    assert_eq!(parser.pos(), WIRE.len());
}

#[test]
fn soa_parsing_stops_where_the_octets_end() {
    for len in 0..WIRE.len() {
        let stop = if len < 5 {
            0
        } else if len < 12 {
            5
        } else {
            12 + (len - 12) / 4 * 4
        };
        let mut parser = Parser::from_slice(&WIRE[..len]);
        assert_eq!(Soa::<Dname>::parse(&mut parser).err(), Some(ParseError::ShortBuf));
        assert_eq!(parser.pos(), stop);
        let mut parser = Parser::from_slice(&WIRE[..len]);
        assert_eq!(Soa::<Dname>::skip(&mut parser), Err(ParseError::ShortBuf));
        assert_eq!(parser.pos(), stop);
    }
    let mut parser = Parser::from_slice(b"\x03ns1\x00\x45admin\x00");
    assert_eq!(Soa::<Dname>::parse(&mut parser).err(), Some(ParseError::BadLabel));
    assert_eq!(parser.pos(), 5);
}

#[test]
fn soa_parsing_from_a_field() {
    let mut octets = WIRE.to_vec();
    octets.extend_from_slice(&[1, 2, 3]);
    let mut parser = Parser::from_slice(&octets);
    let soa = Soa::<Dname>::parse_all(&mut parser, WIRE.len()).unwrap();
    assert_eq!(parser.pos(), WIRE.len());
    assert_eq!(soa.minimum(), 60);
    let mut parser = Parser::from_slice(&octets);
    let res = Soa::<Dname>::parse_all(&mut parser, WIRE.len() + 1);
    assert_eq!(res.err(), Some(ParseError::TrailingData));
    assert_eq!(parser.pos(), 0);
    let mut parser = Parser::from_slice(&octets);
    let res = Soa::<Dname>::parse_all(&mut parser, WIRE.len() - 1);
    assert_eq!(res.err(), Some(ParseError::ShortField));
    assert_eq!(parser.pos(), 0);
    let mut parser = Parser::from_slice(&WIRE[..20]);
    let res = Soa::<Dname>::parse_all(&mut parser, WIRE.len());
    assert_eq!(res.err(), Some(ParseError::ShortBuf));
    assert_eq!(parser.pos(), 0);
}

#[test]
fn soa_field_that_ends_with_the_primary_name() {
    let mut octets = WIRE.to_vec();
    octets.extend_from_slice(&[1, 2, 3]);
    let mut parser = Parser::from_slice(&octets);
    let res = Soa::<Dname>::parse_all(&mut parser, 5);
    assert_eq!(res.err(), Some(ParseError::ShortField));
    assert_eq!(parser.pos(), 0);
    let mut parser = Parser::from_slice(&octets);
    let res = Soa::<Dname>::parse_all(&mut parser, 0);
    assert_eq!(res.err(), Some(ParseError::ShortField));
    assert_eq!(parser.pos(), 0);
    let root_first = b"\x00\x00\x00\x00\x00\x01\x00\x00\x00\x02\x00\x00\x00\x03\
        \x00\x00\x00\x04\x00\x00\x00\x05";
    let mut parser = Parser::from_slice(root_first);
    let res = Soa::<Dname>::parse_all(&mut parser, 1);
    assert_eq!(res.err(), Some(ParseError::ShortField));
    let mut parser = Parser::from_slice(root_first);
    let soa = Soa::<Dname>::parse_all(&mut parser, 22).unwrap();
    assert!(soa.mname().is_root());
    assert!(soa.rname().is_root());
    assert_eq!(soa.serial().into_int(), 1);
    assert_eq!(soa.minimum(), 5);
}
