use bytes::Bytes;
use domain_core::array::Octets32;
use domain_core::net::Ipv4Addr;
use domain_core::octets::{Compose, Octets, ShortBuf};
use domain_core::order::CanonicalOrd;
use domain_core::parse::{ParseAll, ParseError, Parser};
use domain_core::rdata::rfc1035::{Wks, WksBuilder, WksIter};
use domain_core::small::OctetsVec;
use std::cmp::Ordering;

fn ports<Octs: Octets>(wks: &Wks<Octs>) -> Vec<u16> {
    let mut iter = wks.iter();
    let mut res = Vec::new();
    while let Some(port) = iter.next() {
        res.push(port);
    }
    res
}

fn addr() -> Ipv4Addr {
    Ipv4Addr::new(192, 0, 2, 1)
}

#[test]
fn wks_ordering() {
    let mut builder = WksBuilder::<Vec<u8>>::new(addr(), 6);
    assert_eq!(builder.add_service(80), Ok(()));
    assert_eq!(builder.add_service(443), Ok(()));
    assert_eq!(builder.add_service(22), Ok(()));
    let wks = builder.finish();
    assert_eq!(ports(&wks), vec![22, 80, 443]);
    assert!(!wks.serves(81));
    assert!(wks.serves(22));
    assert!(wks.serves(80));
    assert!(wks.serves(443));
    assert!(!wks.serves(21));
    assert!(!wks.serves(23));
    assert!(!wks.serves(0));
    assert!(!wks.serves(444));
    assert!(!wks.serves(448));
    assert!(!wks.serves(65535));
    assert_eq!(wks.bitmap().len(), 56);
    assert_eq!(wks.bitmap()[2], 0x40);
    assert_eq!(wks.bitmap()[10], 0x01);
    assert_eq!(wks.bitmap()[55], 0x08);
    assert_eq!(wks.bitmap().iter().filter(|octet| **octet != 0).count(), 3);
    assert!(wks.address() == addr());
    assert_eq!(wks.protocol(), 6);
}

#[test]
fn wks_serves_exactly_what_was_added() {
    let added = [0u16, 1, 7, 8, 9, 15, 16, 63, 64, 255, 256, 1000];
    let mut builder = WksBuilder::<Vec<u8>>::new(addr(), 17);
    for port in added.iter().rev() {
        assert_eq!(builder.add_service(*port), Ok(()));
        assert_eq!(builder.add_service(*port), Ok(()));
    }
    let wks = builder.finish();
    assert_eq!(wks.bitmap().len(), 126);
    for port in 0..2000u16 {
        assert_eq!(wks.serves(port), added.contains(&port));
    }
    assert_eq!(ports(&wks), added.to_vec());
}

#[test]
fn wks_bits_count_from_the_least_significant() {
    for bit in 0..8u16 {
        let mut builder = WksBuilder::<Vec<u8>>::new(addr(), 6);
        assert_eq!(builder.add_service(8 + bit), Ok(()));
        let wks = builder.finish();
        assert_eq!(wks.bitmap(), &vec![0u8, 1 << bit]);
        assert_eq!(ports(&wks), vec![8 + bit]);
    }
    let wks = Wks::new(addr(), 6, vec![0x81u8, 0xFF]);
    assert_eq!(ports(&wks), vec![0, 7, 8, 9, 10, 11, 12, 13, 14, 15]);
    assert!(wks.serves(7));
    assert!(!wks.serves(6));
    assert!(!wks.serves(16));
}

#[test]
fn wks_without_ports() {
    let wks = WksBuilder::<Vec<u8>>::new(addr(), 6).finish();
    assert_eq!(wks.bitmap().len(), 0);
    assert_eq!(ports(&wks), Vec::<u16>::new());
    assert!(!wks.serves(0));
    let zeros = Wks::new(addr(), 6, vec![0u8; 10]);
    assert_eq!(ports(&zeros), Vec::<u16>::new());
    assert!(!zeros.serves(5));
}

#[test]
fn wks_greatest_port() {
    let mut builder = WksBuilder::<Vec<u8>>::new(addr(), 6);
    assert_eq!(builder.add_service(65535), Ok(()));
    let wks = builder.finish();
    assert_eq!(wks.bitmap().len(), 8192);
    assert_eq!(wks.bitmap()[8191], 0x80);
    assert!(wks.serves(65535));
    assert!(!wks.serves(65534));
    assert_eq!(ports(&wks), vec![65535]);
    let long = Wks::new(addr(), 6, vec![0xFFu8; 8200]);
    assert_eq!(ports(&long).len(), 65536);
    assert!(long.serves(65535));
}

#[test]
fn wks_iteration() {
    let wks = Wks::new(addr(), 6, vec![0x05u8]);
    let mut iter = wks.iter();
    assert_eq!(iter.next(), Some(0));
    let mut copy = iter;
    assert_eq!(iter.next(), Some(2));
    assert_eq!(iter.next(), None);
    assert_eq!(iter.next(), None);
    assert_eq!(copy.next(), Some(2));
    let mut again = WksIter::new(&[0x05]);
    assert_eq!(again.next(), Some(0));
    assert_eq!(again.next(), Some(2));
    assert_eq!(again.next(), None);
}

#[test]
fn wks_that_does_not_fit_its_buffer() {
    let mut builder = WksBuilder::<Octets32>::new(addr(), 6);
    assert_eq!(builder.add_service(80), Ok(()));
    assert_eq!(builder.add_service(256), Err(ShortBuf));
    assert_eq!(builder.add_service(255), Ok(()));
    assert_eq!(builder.add_service(300), Err(ShortBuf));
    assert_eq!(builder.add_service(3), Ok(()));
    let wks = builder.finish();
    assert_eq!(wks.bitmap().as_slice().len(), 32);
    assert_eq!(ports(&wks), vec![3, 80, 255]);
    let mut builder = WksBuilder::<Octets32>::new(addr(), 6);
    assert_eq!(builder.add_service(300), Err(ShortBuf));
    let wks = builder.finish();
    assert_eq!(wks.bitmap().as_slice().len(), 0);
}

#[test]
fn wks_in_other_buffers() {
    let mut builder = WksBuilder::new_bytes(addr(), 6);
    assert_eq!(builder.add_service(25), Ok(()));
    assert_eq!(builder.add_service(9), Ok(()));
    let wks: Wks<Bytes> = builder.finish();
    assert_eq!(&wks.bitmap()[..], &[0, 0x02, 0, 0x02]);
    assert_eq!(ports(&wks), vec![9, 25]);
    let mut builder = WksBuilder::<OctetsVec>::new(addr(), 6);
    assert_eq!(builder.add_service(300), Ok(()));
    let wks = builder.finish();
    assert_eq!(ports(&wks), vec![300]);
}

#[test]
fn wks_compose() {
    let wks = Wks::new(addr(), 17, vec![0x01u8, 0x80]);
    let mut buf: Vec<u8> = vec![0xEE];
    assert_eq!(wks.compose(&mut buf), Ok(()));
    assert_eq!(buf, vec![0xEE, 192, 0, 2, 1, 17, 0x01, 0x80]);
    let mut buf: Vec<u8> = Vec::new();
    assert_eq!(wks.compose_canonical(&mut buf), Ok(()));
    assert_eq!(buf, vec![192, 0, 2, 1, 17, 0x01, 0x80]);
    for used in 0..=32usize {
        let start = vec![7u8; used];
        let fits = used + 7 <= 32;
        let mut buf = Octets32::from_slice(&start).unwrap();
        assert_eq!(wks.compose(&mut buf).is_ok(), fits);
        if !fits {
            assert_eq!(buf.as_slice(), &start[..]);
        }
    }
}

#[test]
fn wks_equality_and_ordering() {
    let base = Wks::new(addr(), 6, vec![1u8, 2]);
    assert!(base == Wks::new(addr(), 6, vec![1u8, 2]));
    assert!(base != Wks::new(addr(), 6, vec![1u8, 2, 0]));
    assert!(base != Wks::new(addr(), 7, vec![1u8, 2]));
    assert!(base != Wks::new(Ipv4Addr::new(192, 0, 2, 2), 6, vec![1u8, 2]));
    let slice: &[u8] = &[1, 2];
    assert!(base == Wks::new(addr(), 6, slice));
    let cases: Vec<(Wks<Vec<u8>>, Ordering)> = vec![
        (Wks::new(addr(), 6, vec![1u8, 2]), Ordering::Equal),
        (Wks::new(Ipv4Addr::new(192, 0, 3, 0), 0, vec![]), Ordering::Less),
        (Wks::new(Ipv4Addr::new(191, 9, 9, 9), 9, vec![9u8; 9]), Ordering::Greater),
        (Wks::new(addr(), 7, vec![]), Ordering::Less),
        (Wks::new(addr(), 5, vec![9u8; 9]), Ordering::Greater),
        (Wks::new(addr(), 6, vec![1u8, 3]), Ordering::Less),
        (Wks::new(addr(), 6, vec![1u8, 2, 0]), Ordering::Less),
        (Wks::new(addr(), 6, vec![1u8]), Ordering::Greater),
        (Wks::new(addr(), 6, vec![0u8, 9, 9]), Ordering::Greater),
    ];
    for (other, expected) in &cases {
        assert_eq!(base.cmp(other), *expected);
        assert_eq!(base.partial_cmp(other), Some(*expected));
        assert_eq!(base.canonical_cmp(other), *expected);
        assert_eq!(other.cmp(&base), expected.reverse());
    }
}

#[test]
fn wks_parsing() {
    let octets = [192, 0, 2, 1, 6, 0x01, 0x80, 0xFF];
    let mut parser = Parser::from_slice(&octets);
    let wks = Wks::parse_all(&mut parser, 7).unwrap();
    assert_eq!(parser.pos(), 7);
    assert!(wks.address() == addr());
    assert_eq!(wks.protocol(), 6);
    assert_eq!(wks.bitmap(), &vec![0x01u8, 0x80]);
    assert_eq!(ports(&wks), vec![0, 15]);
    let mut parser = Parser::from_slice(&octets);
    let wks = Wks::parse_all(&mut parser, 5).unwrap();
    assert_eq!(parser.pos(), 5);
    assert_eq!(wks.bitmap().len(), 0);
    for short in 0..5usize {
        let mut parser = Parser::from_slice(&octets);
        assert_eq!(Wks::parse_all(&mut parser, short).err(), Some(ParseError::ShortField));
        assert_eq!(parser.pos(), 0);
    }
    let mut parser = Parser::from_slice(&octets);
    assert_eq!(Wks::parse_all(&mut parser, 9).err(), Some(ParseError::ShortBuf));
    assert_eq!(parser.pos(), 5);
    let mut parser = Parser::from_slice(&octets[..4]);
    assert_eq!(Wks::parse_all(&mut parser, 5).err(), Some(ParseError::ShortBuf));
    assert_eq!(parser.pos(), 4);
    let mut parser = Parser::from_slice(&octets[..3]);
    assert_eq!(Wks::parse_all(&mut parser, 5).err(), Some(ParseError::ShortBuf));
    assert_eq!(parser.pos(), 0);
}

#[test]
fn wks_from_a_list_of_ports() {
    let wks = WksBuilder::<Vec<u8>>::from_services(addr(), 6, &[80, 443, 22, 80]).unwrap();
    assert_eq!(ports(&wks), vec![22, 80, 443]);
    assert_eq!(wks.bitmap().len(), 56);
    assert!(wks.address() == addr());
    assert_eq!(wks.protocol(), 6);
    let none = WksBuilder::<Vec<u8>>::from_services(addr(), 6, &[]).unwrap();
    assert_eq!(none.bitmap().len(), 0);
    let fits = WksBuilder::<Octets32>::from_services(addr(), 6, &[255, 0]).unwrap();
    assert_eq!(ports(&fits), vec![0, 255]);
    assert_eq!(WksBuilder::<Octets32>::from_services(addr(), 6, &[1, 256, 2]).err(), Some(ShortBuf));
    assert_eq!(WksBuilder::<Octets32>::from_services(addr(), 6, &[256]).err(), Some(ShortBuf));
}
