use domain_core::dname::{Dname, SplitDname};
use domain_core::name::{
    cmp_lowercase, compose_canonical, eq_lowercase, lowercase_composed_cmp, name_cmp, name_eq,
    to_canonical_wire, to_lower, ToDname,
};
use domain_core::octets::{Compose, OctetsBuilder, ShortBuf};
use domain_core::array::Octets32;
use domain_core::order::CanonicalOrd;
use domain_core::parse::{Parse, ParseAll, ParseError, Parser};
use std::cmp::Ordering;

fn split(labels: &[&[u8]]) -> SplitDname {
    SplitDname::from_labels(labels.iter().map(|label| label.to_vec()).collect()).unwrap()
}

fn name(wire: &[u8]) -> Dname {
    Dname::from_slice(wire).unwrap()
}

#[test]
fn lower_case_of_octets() {
    assert_eq!(to_lower(b'A'), b'a');
    assert_eq!(to_lower(b'Z'), b'z');
    assert_eq!(to_lower(b'a'), b'a');
    assert_eq!(to_lower(b'@'), b'@');
    assert_eq!(to_lower(b'['), b'[');
    assert_eq!(to_lower(0), 0);
    assert_eq!(to_lower(0xC1), 0xC1);
    for octet in 0..=255u8 {
        assert_eq!(to_lower(octet), octet.to_ascii_lowercase());
    }
}

#[test]
fn labels_compare_without_regard_to_case() {
    assert!(eq_lowercase(b"Example", b"eXAMPLE"));
    assert!(!eq_lowercase(b"example", b"examples"));
    assert!(!eq_lowercase(b"example", b"exbmple"));
    assert!(eq_lowercase(b"", b""));
    assert_eq!(cmp_lowercase(b"abc", b"ABD"), Ordering::Less);
    assert_eq!(cmp_lowercase(b"ABD", b"abc"), Ordering::Greater);
    assert_eq!(cmp_lowercase(b"ABC", b"abc"), Ordering::Equal);
    assert_eq!(cmp_lowercase(b"ab", b"ABC"), Ordering::Less);
    assert_eq!(cmp_lowercase(b"abc", b"AB"), Ordering::Greater);
    assert_eq!(cmp_lowercase(b"Z", b"a"), Ordering::Greater);
}

#[test]
fn root_name() {
    let root = Dname::root();
    assert_eq!(root.as_slice(), b"\x00");
    assert_eq!(root.len(), 1);
    assert!(root.is_root());
    assert_eq!(root.iter_labels(), vec![&b""[..]]);
    assert_eq!(root.as_flat_slice(), Some(&b"\x00"[..]));
}

#[test]
fn name_from_its_wire_form() {
    let name = name(b"\x07example\x03com\x00");
    assert_eq!(name.as_slice(), b"\x07example\x03com\x00");
    assert_eq!(name.len(), 13);
    assert!(!name.is_root());
    assert_eq!(name.iter_labels(), vec![&b"example"[..], &b"com"[..], &b""[..]]);
    assert_eq!(name.as_flat_slice(), Some(&b"\x07example\x03com\x00"[..]));
    assert_eq!(name.clone().as_slice(), name.as_slice());
}

#[test]
fn name_errors() {
    assert_eq!(Dname::from_slice(b"").err(), Some(ParseError::ShortBuf));
    assert_eq!(Dname::from_slice(b"\x03co").err(), Some(ParseError::ShortBuf));
    assert_eq!(Dname::from_slice(b"\x03com").err(), Some(ParseError::ShortBuf));
    assert_eq!(Dname::from_slice(b"\x03com\x00\x00").err(), Some(ParseError::TrailingData));
    assert_eq!(Dname::from_slice(b"\x00x").err(), Some(ParseError::TrailingData));
    assert_eq!(Dname::from_slice(b"\x40").err(), Some(ParseError::BadLabel));
    assert_eq!(Dname::from_slice(b"\xC0\x0C").err(), Some(ParseError::BadLabel));
    let mut label = vec![63u8];
    label.extend_from_slice(&[b'a'; 63]);
    let mut long = Vec::new();
    for _ in 0..4 {
        long.extend_from_slice(&label);
    }
    long.push(0);
    assert_eq!(long.len(), 257);
    assert_eq!(Dname::from_slice(&long).err(), Some(ParseError::LongName));
}

#[test]
fn longest_name() {
    let mut label = vec![63u8];
    label.extend_from_slice(&[b'a'; 63]);
    let mut wire = Vec::new();
    for _ in 0..3 {
        wire.extend_from_slice(&label);
    }
    wire.push(61);
    wire.extend_from_slice(&[b'b'; 61]);
    wire.push(0);
    assert_eq!(wire.len(), 255);
    let name = name(&wire);
    assert_eq!(name.len(), 255);
    assert_eq!(name.iter_labels().len(), 5);
    wire.pop();
    wire[192] = 62;
    wire.push(b'b');
    wire.push(0);
    assert_eq!(wire.len(), 256);
    assert_eq!(Dname::from_slice(&wire).err(), Some(ParseError::LongName));
}

#[test]
fn names_are_equal_without_regard_to_case() {
    let upper = name(b"\x07Example\x03COM\x00");
    let lower = name(b"\x07example\x03com\x00");
    let other = name(b"\x07example\x03org\x00");
    let shorter = name(b"\x03com\x00");
    assert!(name_eq(&upper, &lower));
    assert!(name_eq(&lower, &upper));
    assert!(name_eq(&lower, &lower));
    assert!(!name_eq(&lower, &other));
    assert!(!name_eq(&lower, &shorter));
    assert!(!name_eq(&shorter, &lower));
    assert!(name_eq(&Dname::root(), &Dname::root()));
    assert!(!name_eq(&Dname::root(), &shorter));
}

#[test]
fn natural_ordering_goes_from_the_root_forward() {
    let example_com = name(b"\x07example\x03com\x00");
    let example_org = name(b"\x07example\x03org\x00");
    let zzz_com = name(b"\x03zzz\x03com\x00");
    let a_example_com = name(b"\x01a\x07example\x03com\x00");
    let com = name(b"\x03com\x00");
    let root = Dname::root();
    assert_eq!(name_cmp(&example_com, &example_com), Ordering::Equal);
    assert_eq!(name_cmp(&example_com, &name(b"\x07EXAMPLE\x03Com\x00")), Ordering::Equal);
    assert_eq!(name_cmp(&example_com, &example_org), Ordering::Less);
    assert_eq!(name_cmp(&example_org, &example_com), Ordering::Greater);
    assert_eq!(name_cmp(&zzz_com, &example_org), Ordering::Less);
    assert_eq!(name_cmp(&example_com, &zzz_com), Ordering::Less);
    assert_eq!(name_cmp(&com, &example_com), Ordering::Less);
    assert_eq!(name_cmp(&example_com, &a_example_com), Ordering::Less);
    assert_eq!(name_cmp(&a_example_com, &example_com), Ordering::Greater);
    assert_eq!(name_cmp(&root, &com), Ordering::Less);
    assert_eq!(name_cmp(&com, &root), Ordering::Greater);
    assert_eq!(name_cmp(&root, &root), Ordering::Equal);
}

#[test]
fn canonical_ordering_is_that_of_the_lower_case_wire_form() {
    let names: Vec<Dname> = vec![
        Dname::root(),
        name(b"\x03com\x00"),
        name(b"\x03COM\x00"),
        name(b"\x03org\x00"),
        name(b"\x01a\x03com\x00"),
        name(b"\x01Z\x03com\x00"),
        name(b"\x07example\x03com\x00"),
        name(b"\x07Example\x03COM\x00"),
        name(b"\x07example\x03org\x00"),
        name(b"\x02ab\x00"),
        name(b"\x02aB\x01c\x00"),
        name(b"\x03abc\x00"),
    ];
    for left in &names {
        for right in &names {
            let expected = left.as_slice().to_ascii_lowercase().cmp(
                &right.as_slice().to_ascii_lowercase());
            assert_eq!(lowercase_composed_cmp(left, right), expected);
            assert_eq!(left.canonical_cmp(right), expected);
            assert_eq!(
                lowercase_composed_cmp(left, right) == Ordering::Equal,
                name_eq(left, right)
            );
        }
    }
}

#[test]
fn orderings_are_reversed_when_the_sides_are_exchanged() {
    let names: Vec<Dname> = vec![
        Dname::root(),
        name(b"\x03com\x00"),
        name(b"\x01a\x03com\x00"),
        name(b"\x07Example\x03COM\x00"),
        name(b"\x07example\x03org\x00"),
    ];
    for left in &names {
        for right in &names {
            assert_eq!(name_cmp(left, right), name_cmp(right, left).reverse());
            assert_eq!(
                lowercase_composed_cmp(left, right),
                lowercase_composed_cmp(right, left).reverse()
            );
        }
    }
}

#[test]
fn names_of_different_kinds_compare() {
    let flat = name(b"\x07Example\x03COM\x00");
    let apart = split(&[b"example", b"com"]);
    assert!(name_eq(&flat, &apart));
    assert!(name_eq(&apart, &flat));
    assert_eq!(name_cmp(&flat, &apart), Ordering::Equal);
    assert_eq!(lowercase_composed_cmp(&apart, &flat), Ordering::Equal);
    let other = split(&[b"example", b"net"]);
    assert_eq!(name_cmp(&flat, &other), Ordering::Less);
    assert_eq!(lowercase_composed_cmp(&other, &flat), Ordering::Greater);
}

#[test]
fn split_names() {
    let name = split(&[b"Example", b"COM"]);
    assert_eq!(name.iter_labels(), vec![&b"Example"[..], &b"COM"[..], &b""[..]]);
    assert_eq!(name.as_flat_slice(), None);
    let root = split(&[]);
    assert_eq!(root.iter_labels(), vec![&b""[..]]);
    assert!(name_eq(&root, &Dname::root()));
    let bad = SplitDname::from_labels(vec![b"a".to_vec(), Vec::new()]);
    assert_eq!(bad.err(), Some(ParseError::BadLabel));
    let bad = SplitDname::from_labels(vec![vec![b'a'; 64]]);
    assert_eq!(bad.err(), Some(ParseError::BadLabel));
    let fine = SplitDname::from_labels(vec![vec![b'a'; 63]]);
    assert!(fine.is_ok());
    let longest = SplitDname::from_labels(vec![
        vec![b'a'; 63], vec![b'a'; 63], vec![b'a'; 63], vec![b'a'; 61],
    ]);
    assert!(longest.is_ok());
    assert_eq!(to_canonical_wire(&longest.unwrap()).len(), 255);
    let long = SplitDname::from_labels(vec![
        vec![b'a'; 63], vec![b'a'; 63], vec![b'a'; 63], vec![b'a'; 62],
    ]);
    assert_eq!(long.err(), Some(ParseError::LongName));
    let bad_first = SplitDname::from_labels(vec![
        vec![b'a'; 63], vec![b'a'; 63], vec![b'a'; 63], vec![b'a'; 63], Vec::new(),
    ]);
    assert_eq!(bad_first.err(), Some(ParseError::BadLabel));
}

#[test]
fn compose_a_name() {
    let name = name(b"\x07Example\x03COM\x00");
    let mut buf: Vec<u8> = vec![0xFF];
    assert_eq!(name.compose(&mut buf), Ok(()));
    assert_eq!(buf, b"\xFF\x07Example\x03COM\x00".to_vec());
    let mut buf: Vec<u8> = vec![0xFF];
    assert_eq!(name.compose_canonical(&mut buf), Ok(()));
    assert_eq!(buf, b"\xFF\x07example\x03com\x00".to_vec());
    assert_eq!(to_canonical_wire(&name), b"\x07example\x03com\x00".to_vec());
    let mut buf: Vec<u8> = Vec::new();
    assert_eq!(compose_canonical(&name, &mut buf), Ok(()));
    assert_eq!(buf, b"\x07example\x03com\x00".to_vec());
}

#[test]
fn append_a_name_as_one_slice() {
    let name = name(b"\x07Example\x03COM\x00");
    let mut buf: Vec<u8> = vec![1, 2];
    assert_eq!(buf.append_compressed_dname(&name), Ok(()));
    assert_eq!(buf, b"\x01\x02\x07Example\x03COM\x00".to_vec());
}

#[test]
fn append_a_name_label_by_label() {
    let name = split(&[b"Example", b"COM"]);
    let mut buf: Vec<u8> = vec![1, 2];
    assert_eq!(buf.append_compressed_dname(&name), Ok(()));
    assert_eq!(buf, b"\x01\x02\x07Example\x03COM\x00".to_vec());
    assert_eq!(to_canonical_wire(&name), b"\x07example\x03com\x00".to_vec());
}

#[test]
fn a_name_that_does_not_fit_leaves_nothing_behind() {
    let flat = name(b"\x07example\x03com\x00");
    let apart = split(&[b"example", b"com"]);
    for used in 0..=32usize {
        let start = vec![7u8; used];
        let fits = used + 13 <= 32;
        let mut buf = Octets32::from_slice(&start).unwrap();
        assert_eq!(buf.append_compressed_dname(&flat).is_ok(), fits);
        if fits {
            assert_eq!(&buf.as_slice()[used..], b"\x07example\x03com\x00");
        } else {
            assert_eq!(buf.as_slice(), &start[..]);
        }
        let mut buf = Octets32::from_slice(&start).unwrap();
        assert_eq!(buf.append_compressed_dname(&apart).is_ok(), fits);
        if fits {
            assert_eq!(&buf.as_slice()[used..], b"\x07example\x03com\x00");
        } else {
            assert_eq!(buf.as_slice(), &start[..]);
        }
        let mut buf = Octets32::from_slice(&start).unwrap();
        let res = compose_canonical(&apart, &mut buf);
        assert_eq!(res, if fits { Ok(()) } else { Err(ShortBuf) });
        if !fits {
            assert_eq!(buf.as_slice(), &start[..]);
        }
    }
}

#[test]
fn parse_a_name() {
    let octets = b"\xFF\x07example\x03com\x00\x01\x02";
    let mut parser = Parser::from_slice(octets);
    parser.advance(1).unwrap();
    let name = Dname::parse(&mut parser).unwrap();
    assert_eq!(name.as_slice(), b"\x07example\x03com\x00");
    assert_eq!(parser.pos(), 14);
    assert_eq!(parser.remaining(), 2);
    let mut parser = Parser::from_slice(octets);
    parser.advance(1).unwrap();
    assert_eq!(Dname::skip(&mut parser), Ok(()));
    assert_eq!(parser.pos(), 14);
}

#[test]
fn parse_a_name_that_is_not_there() {
    let mut parser = Parser::from_slice(b"\x07exam");
    assert_eq!(Dname::parse(&mut parser).err(), Some(ParseError::ShortBuf));
    assert_eq!(parser.pos(), 0);
    let mut parser = Parser::from_slice(b"\x03com");
    assert_eq!(Dname::skip(&mut parser), Err(ParseError::ShortBuf));
    assert_eq!(parser.pos(), 0);
    let mut parser = Parser::from_slice(b"\x03com\x80com\x00");
    assert_eq!(Dname::parse(&mut parser).err(), Some(ParseError::BadLabel));
    assert_eq!(parser.pos(), 0);
    let mut parser = Parser::from_slice(b"");
    assert_eq!(Dname::parse(&mut parser).err(), Some(ParseError::ShortBuf));
}

#[test]
fn parse_a_name_from_a_field() {
    let octets = b"\x07example\x03com\x00\x01\x02";
    let mut parser = Parser::from_slice(octets);
    let name = Dname::parse_all(&mut parser, 13).unwrap();
    assert_eq!(name.as_slice(), b"\x07example\x03com\x00");
    assert_eq!(parser.pos(), 13);
    let mut parser = Parser::from_slice(octets);
    assert_eq!(Dname::parse_all(&mut parser, 14).err(), Some(ParseError::TrailingData));
    assert_eq!(parser.pos(), 0);
    let mut parser = Parser::from_slice(octets);
    assert_eq!(Dname::parse_all(&mut parser, 12).err(), Some(ParseError::ShortField));
    assert_eq!(parser.pos(), 0);
    let mut parser = Parser::from_slice(octets);
    assert_eq!(Dname::parse_all(&mut parser, 0).err(), Some(ParseError::ShortField));
    assert_eq!(parser.pos(), 0);
    let mut parser = Parser::from_slice(octets);
    assert_eq!(Dname::parse_all(&mut parser, 16).err(), Some(ParseError::ShortBuf));
    assert_eq!(parser.pos(), 0);
    let mut parser = Parser::from_slice(b"\x41");
    assert_eq!(Dname::parse_all(&mut parser, 1).err(), Some(ParseError::BadLabel));
}

#[test]
fn compose_a_split_name() {
    let name = split(&[b"Example", b"COM"]);
    let mut buf: Vec<u8> = vec![0xFF];
    assert_eq!(name.compose(&mut buf), Ok(()));
    assert_eq!(buf, b"\xFF\x07Example\x03COM\x00".to_vec());
    let mut buf: Vec<u8> = vec![0xFF];
    assert_eq!(name.compose_canonical(&mut buf), Ok(()));
    assert_eq!(buf, b"\xFF\x07example\x03com\x00".to_vec());
    assert_eq!(name.canonical_cmp(&split(&[b"example", b"com"])), Ordering::Equal);
    assert_eq!(name.canonical_cmp(&split(&[b"example", b"org"])), Ordering::Less);
}
