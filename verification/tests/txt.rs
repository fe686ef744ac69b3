use bytes::Bytes;
use domain_core::array::{Octets32, Octets512};
use domain_core::charstr::PushError;
use domain_core::octets::{Compose, Octets, ShortBuf};
use domain_core::order::CanonicalOrd;
use domain_core::parse::{ParseAll, ParseError, Parser};
use domain_core::rdata::rfc1035::txt::check_char_strs;
use domain_core::rdata::rfc1035::{Txt, TxtBuilder};
use domain_core::small::OctetsVec;
use std::cmp::Ordering;

fn text_of_len(len: usize) -> Vec<u8> {
    (0..len).map(|i| (i % 251) as u8).collect()
}

fn segments<Octs: Octets>(txt: &Txt<Octs>) -> Vec<Vec<u8>> {
    let mut iter = txt.iter();
    let mut res = Vec::new();
    while let Some(item) = iter.next() {
        res.push(item.to_vec());
    }
    res
}

fn parsed(octets: &[u8]) -> Txt<Vec<u8>> {
    let mut parser = Parser::from_slice(octets);
    Txt::parse_all(&mut parser, octets.len()).unwrap()
}

#[test]
fn txt_round_trip() {
    let text = text_of_len(600);
    let mut builder = TxtBuilder::<Vec<u8>>::new();
    assert_eq!(builder.append_slice(&text), Ok(()));
    let txt = builder.finish();
    let segments = segments(&txt);
    assert_eq!(segments.len(), 3);
    assert_eq!(segments[0].len(), 255);
    assert_eq!(segments[1].len(), 255);
    assert_eq!(segments[2].len(), 90);
    assert_eq!(segments.concat(), text);
    assert_eq!(txt.len(), 603);
    assert_eq!(txt.to_vec(), text);
    let mut wire: Vec<u8> = Vec::new();
    assert_eq!(txt.compose(&mut wire), Ok(()));
    assert_eq!(wire[0], 255);
    assert_eq!(&wire[1..256], &text[..255]);
    assert_eq!(wire[256], 255);
    assert_eq!(&wire[257..512], &text[255..510]);
    assert_eq!(wire[512], 90);
    assert_eq!(&wire[513..], &text[510..]);
}

#[test]
fn txt_round_trip_for_many_lengths() {
    for len in [0usize, 1, 2, 254, 255, 256, 509, 510, 511, 765, 1000] {
        let text = text_of_len(len);
        let txt = Txt::<Vec<u8>>::from_slice(&text).unwrap();
        let segments = segments(&txt);
        assert_eq!(segments.len(), (len + 254) / 255);
        for (i, segment) in segments.iter().enumerate() {
            if i + 1 < segments.len() {
                assert_eq!(segment.len(), 255);
            } else {
                assert_eq!(segment.len(), len - 255 * i);
                assert!(!segment.is_empty());
            }
        }
        assert_eq!(segments.concat(), text);
        assert_eq!(txt.len(), len + (len + 254) / 255);
        assert!(!txt.is_empty());
    }
}

#[test]
fn txt_pieces_fill_up_the_current_string_first() {
    let text = text_of_len(700);
    for first in [0usize, 1, 100, 254, 255, 256, 300, 510, 699, 700] {
        let mut builder = TxtBuilder::<Vec<u8>>::new();
        assert_eq!(builder.append_slice(&text[..first]), Ok(()));
        assert_eq!(builder.append_slice(&[]), Ok(()));
        assert_eq!(builder.append_slice(&text[first..]), Ok(()));
        let txt = builder.finish();
        let whole = Txt::<Vec<u8>>::from_slice(&text).unwrap();
        let mut left: Vec<u8> = Vec::new();
        let mut right: Vec<u8> = Vec::new();
        assert_eq!(txt.compose(&mut left), Ok(()));
        assert_eq!(whole.compose(&mut right), Ok(()));
        assert_eq!(left, right);
    }
    let mut builder = TxtBuilder::<Vec<u8>>::new();
    for octet in &text {
        assert_eq!(builder.append_slice(&[*octet]), Ok(()));
    }
    let txt = builder.finish();
    assert_eq!(
        segments(&txt).iter().map(|segment| segment.len()).collect::<Vec<_>>(),
        vec![255, 255, 190]
    );
    assert_eq!(txt.to_vec(), text);
}

#[test]
fn txt_without_text() {
    let txt = TxtBuilder::<Vec<u8>>::new().finish();
    assert_eq!(txt.len(), 0);
    assert!(!txt.is_empty());
    assert_eq!(txt.iter().next(), None);
    assert_eq!(txt.as_flat_slice(), None);
    assert_eq!(txt.to_vec(), Vec::<u8>::new());
    assert_eq!(txt.text::<Vec<u8>>(), Ok(Vec::new()));
}

#[test]
fn txt_flat_slice() {
    let txt = Txt::<Vec<u8>>::from_slice(b"hello").unwrap();
    assert_eq!(txt.as_flat_slice(), Some(&b"hello"[..]));
    let txt = Txt::<Vec<u8>>::from_slice(&[b'x'; 255]).unwrap();
    assert_eq!(txt.as_flat_slice(), Some(&[b'x'; 255][..]));
    let txt = Txt::<Vec<u8>>::from_slice(&[b'x'; 256]).unwrap();
    assert_eq!(txt.as_flat_slice(), None);
    assert_eq!(parsed(b"\x00").as_flat_slice(), Some(&b""[..]));
    assert_eq!(parsed(b"\x01a\x01b").as_flat_slice(), None);
    assert_eq!(parsed(b"\x03\x01a\x01").as_flat_slice(), Some(&b"\x01a\x01"[..]));
    assert_eq!(parsed(b"\x01a\x00").as_flat_slice(), None);
}

#[test]
fn txt_iteration_can_start_over() {
    let txt = parsed(b"\x03abc\x00\x02de");
    for _ in 0..2 {
        let mut iter = txt.iter();
        assert_eq!(iter.next(), Some(&b"abc"[..]));
        assert_eq!(iter.next(), Some(&b""[..]));
        assert_eq!(iter.next(), Some(&b"de"[..]));
        assert_eq!(iter.next(), None);
        assert_eq!(iter.next(), None);
    }
    let mut iter = txt.iter();
    assert_eq!(iter.next(), Some(&b"abc"[..]));
    let mut copy = iter;
    assert_eq!(iter.next(), Some(&b""[..]));
    assert_eq!(copy.next(), Some(&b""[..]));
}

#[test]
fn txt_text() {
    let txt = parsed(b"\x03abc\x00\x02de");
    assert_eq!(txt.text::<Vec<u8>>(), Ok(b"abcde".to_vec()));
    assert_eq!(txt.to_vec(), b"abcde".to_vec());
    let bytes: Bytes = txt.text().unwrap();
    assert_eq!(&bytes[..], b"abcde");
    let small: OctetsVec = txt.text().unwrap();
    assert_eq!(small.as_slice(), b"abcde");
    let array: Octets32 = txt.text().unwrap();
    assert_eq!(array.as_slice(), b"abcde");
    let long = Txt::<Vec<u8>>::from_slice(&[b'x'; 33]).unwrap();
    assert_eq!(long.text::<Octets32>().err(), Some(ShortBuf));
    let fits = Txt::<Vec<u8>>::from_slice(&[b'x'; 32]).unwrap();
    assert_eq!(fits.text::<Octets32>().unwrap().len(), 32);
}

#[test]
fn txt_equality_looks_at_the_text_only() {
    let one = parsed(b"\x05abcde");
    let two = parsed(b"\x03abc\x02de");
    let three = parsed(b"\x00\x01a\x04bcde\x00");
    assert!(one == two);
    assert!(two == three);
    assert!(one == three);
    assert_eq!(one.cmp(&two), Ordering::Equal);
    assert_eq!(one.partial_cmp(&three), Some(Ordering::Equal));
    assert_eq!(one.canonical_cmp(&two), Ordering::Equal);
    let other = parsed(b"\x03abc\x02df");
    assert!(one != other);
    assert_eq!(one.cmp(&other), Ordering::Less);
    assert_eq!(other.cmp(&one), Ordering::Greater);
    assert_eq!(one.canonical_cmp(&other), Ordering::Less);
    assert_eq!(other.partial_cmp(&two), Some(Ordering::Greater));
    let shorter = parsed(b"\x04abcd");
    assert!(one != shorter);
    assert_eq!(shorter.cmp(&one), Ordering::Less);
    let upper = parsed(b"\x05ABCDE");
    assert!(one != upper);
    assert_eq!(upper.cmp(&one), Ordering::Less);
    let empty = parsed(b"");
    let also_empty = parsed(b"\x00\x00");
    assert!(empty == also_empty);
    assert_eq!(empty.cmp(&one), Ordering::Less);
    let array = Txt::<Octets32>::from_slice(b"abcde").unwrap();
    assert!(two == array);
    assert_eq!(array.canonical_cmp(&other), Ordering::Less);
    assert!(one.clone() == one);
}

#[test]
fn txt_refuses_more_than_65535_octets() {
    let most = 65535 - 256;
    assert_eq!(most + (most + 254) / 255, 65535);
    let text = vec![b'x'; most + 1];
    let txt = Txt::<Vec<u8>>::from_slice(&text[..most]).unwrap();
    assert_eq!(txt.len(), 65535);
    assert_eq!(Txt::<Vec<u8>>::from_slice(&text).err(), Some(PushError));
    assert_eq!(Txt::<Vec<u8>>::from_slice(&vec![0u8; 70000]).err(), Some(PushError));
    let mut builder = TxtBuilder::<Vec<u8>>::new();
    assert_eq!(builder.append_slice(&text[..most - 10]), Ok(()));
    assert_eq!(builder.append_slice(&text[..11]), Err(PushError));
    assert_eq!(builder.append_slice(&text[..10]), Ok(()));
    assert_eq!(builder.append_slice(&[1]), Err(PushError));
    assert_eq!(builder.append_slice(&[]), Ok(()));
    let txt = builder.finish();
    assert_eq!(txt.len(), 65535);
    assert_eq!(txt.to_vec(), text[..most].to_vec());
}

#[test]
fn txt_that_does_not_fit_its_buffer() {
    let mut builder = TxtBuilder::<Octets32>::new();
    assert_eq!(builder.append_slice(&[b'a'; 20]), Ok(()));
    assert_eq!(builder.append_slice(&[b'b'; 12]), Err(PushError));
    assert_eq!(builder.append_slice(&[b'b'; 11]), Ok(()));
    assert_eq!(builder.append_slice(&[b'c'; 1]), Err(PushError));
    let txt = builder.finish();
    let mut wire: Vec<u8> = Vec::new();
    assert_eq!(txt.compose(&mut wire), Ok(()));
    let mut expected = vec![31u8];
    expected.extend_from_slice(&[b'a'; 20]);
    expected.extend_from_slice(&[b'b'; 11]);
    assert_eq!(wire, expected);
    assert_eq!(Txt::<Octets32>::from_slice(&[0u8; 32]).err(), Some(PushError));
    assert_eq!(Txt::<Octets32>::from_slice(&[0u8; 31]).unwrap().len(), 32);
}

#[test]
fn txt_that_fails_while_it_begins_a_new_string() {
    let mut builder = TxtBuilder::<Octets512>::new();
    assert_eq!(builder.append_slice(&[b'a'; 255]), Ok(()));
    assert_eq!(builder.append_slice(&[b'b'; 255]), Ok(()));
    assert_eq!(builder.append_slice(&[b'c'; 1]), Err(PushError));
    assert_eq!(builder.append_slice(&[b'c'; 300]), Err(PushError));
    let txt = builder.finish();
    assert_eq!(txt.len(), 512);
    let mut iter = txt.iter();
    assert_eq!(iter.next(), Some(&[b'a'; 255][..]));
    assert_eq!(iter.next(), Some(&[b'b'; 255][..]));
    assert_eq!(iter.next(), None);
    let mut builder = TxtBuilder::<Octets512>::new();
    assert_eq!(builder.append_slice(&[b'a'; 200]), Ok(()));
    assert_eq!(builder.append_slice(&[b'b'; 400]), Err(PushError));
    assert_eq!(builder.append_slice(&[b'b'; 310]), Ok(()));
    let txt = builder.finish();
    assert_eq!(txt.len(), 512);
    let mut expected = vec![b'a'; 200];
    expected.extend_from_slice(&[b'b'; 310]);
    assert_eq!(txt.to_vec(), expected);
}

#[test]
fn txt_in_other_buffers() {
    let mut builder = TxtBuilder::new_bytes();
    assert_eq!(builder.append_slice(&text_of_len(300)), Ok(()));
    let txt: Txt<Bytes> = builder.finish();
    assert_eq!(txt.len(), 302);
    assert_eq!(txt.to_vec(), text_of_len(300));
    let txt = Txt::<OctetsVec>::from_slice(&text_of_len(300)).unwrap();
    assert_eq!(txt.len(), 302);
    assert_eq!(txt.to_vec(), text_of_len(300));
    let txt = Txt::<Bytes>::from_slice(b"hi").unwrap();
    let mut wire: Vec<u8> = Vec::new();
    assert_eq!(txt.compose(&mut wire), Ok(()));
    assert_eq!(wire, b"\x02hi".to_vec());
    assert_eq!(txt.compose_canonical(&mut wire), Ok(()));
    assert_eq!(wire, b"\x02hi\x02hi".to_vec());
}

#[test]
fn txt_parsing() {
    let octets = b"\x03abc\x02de\xFF";
    let mut parser = Parser::from_slice(octets);
    let txt = Txt::parse_all(&mut parser, 7).unwrap();
    assert_eq!(parser.pos(), 7);
    assert_eq!(txt.len(), 7);
    assert_eq!(txt.to_vec(), b"abcde".to_vec());
    let mut parser = Parser::from_slice(octets);
    assert_eq!(Txt::parse_all(&mut parser, 6).err(), Some(ParseError::ShortBuf));
    assert_eq!(parser.pos(), 6);
    let mut parser = Parser::from_slice(octets);
    assert_eq!(Txt::parse_all(&mut parser, 9).err(), Some(ParseError::ShortBuf));
    assert_eq!(parser.pos(), 0);
    let mut parser = Parser::from_slice(octets);
    assert_eq!(Txt::parse_all(&mut parser, 8).err(), Some(ParseError::ShortBuf));
    assert_eq!(parser.pos(), 8);
    let mut parser = Parser::from_slice(octets);
    let txt = Txt::parse_all(&mut parser, 0).unwrap();
    assert_eq!(txt.len(), 0);
    assert_eq!(parser.pos(), 0);
}

#[test]
fn character_strings_are_checked() {
    assert!(check_char_strs(b""));
    assert!(check_char_strs(b"\x00"));
    assert!(check_char_strs(b"\x01a\x00\x02bc"));
    assert!(!check_char_strs(b"\x01"));
    assert!(!check_char_strs(b"\x01a\x02b"));
    assert!(!check_char_strs(b"\x01a\x00\x02b"));
    let mut long = vec![255u8];
    long.extend_from_slice(&[0u8; 254]);
    assert!(!check_char_strs(&long));
    long.push(0);
    assert!(check_char_strs(&long));
}
