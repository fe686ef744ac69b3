use domain_core::array::Octets32;
use domain_core::charstr::CharStr;
use domain_core::net::Ipv4Addr;
use domain_core::octets::{Compose, ShortBuf};
use domain_core::order::CanonicalOrd;
use domain_core::parse::{Parse, ParseAll, ParseError, Parser};
use domain_core::rdata::rfc1035::{Hinfo, Null, A};
use std::cmp::Ordering;

fn charstr(octets: &[u8]) -> CharStr<Vec<u8>> {
    CharStr::from_octets(octets.to_vec()).unwrap()
}

#[test]
fn a_record_data() {
    let a = A::from_octets(192, 0, 2, 1);
    assert!(a.addr() == Ipv4Addr::new(192, 0, 2, 1));
    assert!(a == A::new(Ipv4Addr::new(192, 0, 2, 1)));
    let mut other = a;
    other.set_addr(Ipv4Addr::new(10, 0, 0, 1));
    assert!(other.addr() == Ipv4Addr::new(10, 0, 0, 1));
    assert!(a != other);
    let from: A = Ipv4Addr::new(10, 0, 0, 1).into();
    assert!(from == other);
    let back: Ipv4Addr = from.into();
    assert!(back == Ipv4Addr::new(10, 0, 0, 1));
    let mut buf: Vec<u8> = vec![0xEE];
    assert_eq!(a.compose(&mut buf), Ok(()));
    assert_eq!(buf, vec![0xEE, 192, 0, 2, 1]);
    assert_eq!(a.compose_canonical(&mut buf), Ok(()));
    assert_eq!(buf, vec![0xEE, 192, 0, 2, 1, 192, 0, 2, 1]);
    let mut full = Octets32::from_slice(&[0u8; 29]).unwrap();
    assert_eq!(a.compose(&mut full), Err(ShortBuf));
    assert_eq!(full.len(), 29);
}

#[test]
fn a_ordering() {
    let a = A::from_octets(192, 0, 2, 1);
    assert_eq!(a.cmp(&A::from_octets(192, 0, 2, 1)), Ordering::Equal);
    assert_eq!(a.cmp(&A::from_octets(192, 0, 2, 2)), Ordering::Less);
    assert_eq!(a.cmp(&A::from_octets(192, 0, 1, 255)), Ordering::Greater);
    assert_eq!(a.cmp(&A::from_octets(193, 0, 0, 0)), Ordering::Less);
    assert_eq!(a.partial_cmp(&A::from_octets(10, 9, 9, 9)), Some(Ordering::Greater));
    assert_eq!(a.canonical_cmp(&A::from_octets(192, 0, 2, 1)), Ordering::Equal);
    assert_eq!(a.canonical_cmp(&A::from_octets(192, 1, 0, 0)), Ordering::Less);
    assert!(a < A::from_octets(200, 0, 0, 0));
}

#[test]
fn a_parsing() {
    let octets = [192, 0, 2, 1, 9];
    let mut parser = Parser::from_slice(&octets);
    assert!(A::parse(&mut parser) == Ok(A::from_octets(192, 0, 2, 1)));
    assert_eq!(parser.pos(), 4);
    assert!(A::parse(&mut parser).is_err());
    assert_eq!(parser.pos(), 4);
    let mut parser = Parser::from_slice(&octets);
    assert_eq!(A::skip(&mut parser), Ok(()));
    assert_eq!(A::skip(&mut parser), Err(ParseError::ShortBuf));
    let mut parser = Parser::from_slice(&octets);
    assert!(A::parse_all(&mut parser, 4) == Ok(A::from_octets(192, 0, 2, 1)));
    assert_eq!(parser.pos(), 4);
    let mut parser = Parser::from_slice(&octets);
    assert!(A::parse_all(&mut parser, 3) == Err(ParseError::ShortField));
    assert!(A::parse_all(&mut parser, 5) == Err(ParseError::TrailingData));
    assert_eq!(parser.pos(), 0);
    let mut parser = Parser::from_slice(&octets[..3]);
    assert!(A::parse_all(&mut parser, 4) == Err(ParseError::ShortBuf));
}

#[test]
fn null_record_data() {
    let null = Null::new(b"\x00\x01whatever".to_vec());
    assert_eq!(null.data(), &b"\x00\x01whatever".to_vec());
    assert_eq!(null.len(), 10);
    assert!(!null.is_empty());
    let empty = Null::new(Vec::new());
    assert_eq!(empty.len(), 0);
    assert!(empty.is_empty());
    let from: Null<Vec<u8>> = vec![1u8, 2].into();
    assert_eq!(from.data(), &vec![1u8, 2]);
    let mut buf: Vec<u8> = vec![9];
    assert_eq!(null.compose(&mut buf), Ok(()));
    assert_eq!(buf, b"\x09\x00\x01whatever".to_vec());
    assert_eq!(empty.compose_canonical(&mut buf), Ok(()));
    assert_eq!(buf.len(), 11);
    let slice: &[u8] = b"\x00\x01whatever";
    assert!(null == Null::new(slice));
    assert!(null.clone() == null);
}

#[test]
fn null_ordering() {
    let make = |octets: &[u8]| Null::new(octets.to_vec());
    let base = make(b"abc");
    assert!(base == make(b"abc"));
    assert!(base != make(b"ABC"));
    assert!(base != make(b"abcd"));
    assert_eq!(base.cmp(&make(b"abc")), Ordering::Equal);
    assert_eq!(base.cmp(&make(b"abd")), Ordering::Less);
    assert_eq!(base.cmp(&make(b"ab")), Ordering::Greater);
    assert_eq!(base.cmp(&make(b"ABC")), Ordering::Greater);
    assert_eq!(base.partial_cmp(&make(b"b")), Some(Ordering::Less));
    assert_eq!(base.canonical_cmp(&make(b"")), Ordering::Greater);
    assert_eq!(base.canonical_cmp(&make(b"abc")), Ordering::Equal);
}

#[test]
fn null_parsing() {
    let mut parser = Parser::from_slice(b"0123456789");
    parser.advance(2).unwrap();
    let null = Null::parse_all(&mut parser, 5).unwrap();
    assert_eq!(null.data(), &b"23456".to_vec());
    assert_eq!(parser.pos(), 7);
    assert_eq!(Null::parse_all(&mut parser, 4).err(), Some(ParseError::ShortBuf));
    assert_eq!(parser.pos(), 7);
    let null = Null::parse_all(&mut parser, 0).unwrap();
    assert!(null.is_empty());
}

#[test]
fn hinfo_record_data() {
    let hinfo = Hinfo::new(charstr(b"Intel"), charstr(b"Linux"));
    assert_eq!(hinfo.cpu().as_slice(), b"Intel");
    assert_eq!(hinfo.os().as_slice(), b"Linux");
    let mut buf: Vec<u8> = vec![9];
    assert_eq!(hinfo.compose(&mut buf), Ok(()));
    assert_eq!(buf, b"\x09\x05Intel\x05Linux".to_vec());
    let mut canonical: Vec<u8> = Vec::new();
    assert_eq!(hinfo.compose_canonical(&mut canonical), Ok(()));
    assert_eq!(canonical, b"\x05Intel\x05Linux".to_vec());
    for used in 0..=32usize {
        let start = vec![7u8; used];
        let fits = used + 12 <= 32;
        let mut buf = Octets32::from_slice(&start).unwrap();
        assert_eq!(hinfo.compose(&mut buf), if fits { Ok(()) } else { Err(ShortBuf) });
        if !fits {
            assert_eq!(buf.as_slice(), &start[..]);
        }
    }
    let copy = hinfo.clone();
    assert!(copy == hinfo);
}

#[test]
fn hinfo_ordering() {
    let make = |cpu: &[u8], os: &[u8]| Hinfo::new(charstr(cpu), charstr(os));
    let base = make(b"intel", b"linux");
    assert!(base == make(b"INTEL", b"Linux"));
    assert!(base != make(b"intel", b"linus"));
    assert!(base != make(b"intel8", b"linux"));
    assert_eq!(base.cmp(&make(b"INTEL", b"LINUX")), Ordering::Equal);
    assert_eq!(base.cmp(&make(b"jntel", b"a")), Ordering::Less);
    assert_eq!(base.cmp(&make(b"hntel", b"z")), Ordering::Greater);
    assert_eq!(base.cmp(&make(b"intel", b"linuy")), Ordering::Less);
    assert_eq!(base.cmp(&make(b"intel", b"linu")), Ordering::Greater);
    assert_eq!(base.partial_cmp(&make(b"INTEL", b"LINUX")), Some(Ordering::Equal));
    assert_eq!(base.partial_cmp(&make(b"intel", b"m")), Some(Ordering::Less));
    assert_eq!(base.partial_cmp(&make(b"a", b"z")), Some(Ordering::Greater));
    assert_eq!(base.canonical_cmp(&make(b"intel", b"linux")), Ordering::Equal);
    assert_eq!(base.canonical_cmp(&make(b"INTEL", b"linux")), Ordering::Greater);
    assert_eq!(base.canonical_cmp(&make(b"z", b"linux")), Ordering::Greater);
    assert_eq!(base.canonical_cmp(&make(b"intel", b"z")), Ordering::Greater);
    assert_eq!(base.canonical_cmp(&make(b"intel", b"linuy")), Ordering::Less);
    assert_eq!(base.canonical_cmp(&make(b"aaaaaa", b"")), Ordering::Less);
}

#[test]
fn hinfo_parsing() {
    let octets = b"\x05Intel\x05Linux\xFF";
    let mut parser = Parser::from_slice(octets);
    let hinfo = Hinfo::parse(&mut parser).unwrap();
    assert_eq!(hinfo.cpu().as_slice(), b"Intel");
    assert_eq!(hinfo.os().as_slice(), b"Linux");
    assert_eq!(parser.pos(), 12);
    let mut parser = Parser::from_slice(octets);
    assert_eq!(Hinfo::skip(&mut parser), Ok(()));
    assert_eq!(parser.pos(), 12);
    let mut parser = Parser::from_slice(b"\x05Intel\x05Lin");
    assert_eq!(Hinfo::parse(&mut parser).err(), Some(ParseError::ShortBuf));
    assert_eq!(parser.pos(), 7);
    let mut parser = Parser::from_slice(b"\x05Int");
    assert_eq!(Hinfo::skip(&mut parser), Err(ParseError::ShortBuf));
    assert_eq!(parser.pos(), 1);
}

#[test]
fn hinfo_parsing_from_a_field() {
    let octets = b"\x05Intel\x05Linux\xFF";
    let mut parser = Parser::from_slice(octets);
    let hinfo = Hinfo::parse_all(&mut parser, 12).unwrap();
    assert_eq!(hinfo.cpu().as_slice(), b"Intel");
    assert_eq!(hinfo.os().as_slice(), b"Linux");
    assert_eq!(parser.pos(), 12);
    for short in 0..6usize {
        let mut parser = Parser::from_slice(octets);
        assert_eq!(Hinfo::parse_all(&mut parser, short).err(), Some(ParseError::ShortField));
        assert_eq!(parser.pos(), 6);
    }
    for short in 6..12usize {
        let mut parser = Parser::from_slice(octets);
        assert_eq!(Hinfo::parse_all(&mut parser, short).err(), Some(ParseError::ShortField));
        assert_eq!(parser.pos(), 7);
    }
    let mut parser = Parser::from_slice(octets);
    assert_eq!(Hinfo::parse_all(&mut parser, 13).err(), Some(ParseError::TrailingData));
    assert_eq!(parser.pos(), 7);
    let mut parser = Parser::from_slice(b"\x05Intel\x05Lin");
    assert_eq!(Hinfo::parse_all(&mut parser, 12).err(), Some(ParseError::ShortBuf));
    assert_eq!(parser.pos(), 7);
    let mut parser = Parser::from_slice(b"\x05Intel");
    assert_eq!(Hinfo::parse_all(&mut parser, 12).err(), Some(ParseError::ShortBuf));
    assert_eq!(parser.pos(), 6);
    let mut parser = Parser::from_slice(b"\x05Int");
    assert_eq!(Hinfo::parse_all(&mut parser, 12).err(), Some(ParseError::ShortBuf));
    assert_eq!(parser.pos(), 1);
}
