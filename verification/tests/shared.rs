use bytes::{Bytes, BytesMut};
use domain_core::octets::{
    Compose, EmptyBuilder, FromBuilder, IntoBuilder, IntoOctets, Octets, OctetsBuilder, OctetsExt,
    OctetsRef, ShortBuf,
};

#[test]
fn bytes_mut_starts_empty() {
    let buf = <BytesMut as EmptyBuilder>::empty();
    assert_eq!(Octets::as_slice(&buf), b"");
    assert_eq!(OctetsBuilder::len(&buf), 0);
    let buf = <BytesMut as EmptyBuilder>::with_capacity(64);
    assert_eq!(Octets::as_slice(&buf), b"");
    let buf = <BytesMut as EmptyBuilder>::with_capacity(usize::MAX);
    assert_eq!(Octets::as_slice(&buf), b"");
}

#[test]
fn bytes_mut_appends_and_truncates() {
    let mut buf = <BytesMut as EmptyBuilder>::empty();
    assert_eq!(buf.append_slice(b"hello"), Ok(()));
    assert_eq!(buf.append_slice(b" world"), Ok(()));
    assert_eq!(Octets::as_slice(&buf), b"hello world");
    assert_eq!(OctetsBuilder::len(&buf), 11);
    OctetsBuilder::truncate(&mut buf, 20);
    assert_eq!(Octets::as_slice(&buf), b"hello world");
    OctetsBuilder::truncate(&mut buf, 5);
    assert_eq!(Octets::as_slice(&buf), b"hello");
}

#[test]
fn bytes_mut_overwrites_in_place() {
    let mut buf = <BytesMut as EmptyBuilder>::empty();
    assert_eq!(buf.append_slice(b"abc"), Ok(()));
    OctetsBuilder::as_slice_mut(&mut buf)[1] = b'X';
    assert_eq!(Octets::as_slice(&buf), b"aXc");
}

#[test]
fn bytes_mut_rolls_back() {
    let mut buf = <BytesMut as EmptyBuilder>::empty();
    assert_eq!(buf.append_slice(b"abc"), Ok(()));
    let res = buf.append_all(|target| {
        target.append_slice(b"def")?;
        Err(ShortBuf)
    });
    assert_eq!(res, Err(ShortBuf));
    assert_eq!(Octets::as_slice(&buf), b"abc");
    let res = buf.len_prefixed(|target| target.append_slice(b"xyz"));
    assert_eq!(res, Ok(()));
    assert_eq!(Octets::as_slice(&buf), b"abc\x00\x03xyz");
}

#[test]
fn bytes_mut_is_sealed_into_bytes() {
    let mut buf = <BytesMut as EmptyBuilder>::empty();
    assert_eq!(0x0102_0304u32.compose(&mut buf), Ok(()));
    let bytes: Bytes = buf.into_octets();
    assert_eq!(Octets::as_slice(&bytes), &[1, 2, 3, 4]);
    let mut buf = <BytesMut as EmptyBuilder>::empty();
    assert_eq!(buf.append_slice(b"abc"), Ok(()));
    let bytes = <Bytes as FromBuilder>::from_builder(buf);
    assert_eq!(Octets::as_slice(&bytes), b"abc");
}

#[test]
fn bytes_ranges_and_truncation() {
    let bytes = Bytes::from_static(b"0123456789");
    assert_eq!(Octets::as_slice(&(&bytes).range(2, 5)), b"234");
    assert_eq!(Octets::as_slice(&(&bytes).range_from(7)), b"789");
    assert_eq!(Octets::as_slice(&(&bytes).range_to(3)), b"012");
    assert_eq!(Octets::as_slice(&(&bytes).range_all()), b"0123456789");
    assert_eq!(Octets::as_slice(&(&bytes).range(4, 4)), b"");
    let mut bytes = bytes;
    OctetsExt::truncate(&mut bytes, 20);
    assert_eq!(Octets::as_slice(&bytes), b"0123456789");
    OctetsExt::truncate(&mut bytes, 4);
    assert_eq!(Octets::as_slice(&bytes), b"0123");
}

#[test]
fn bytes_is_reopened_as_bytes_mut() {
    let bytes = Bytes::from_static(b"abc");
    let mut buf: BytesMut = bytes.into_builder();
    assert_eq!(Octets::as_slice(&buf), b"abc");
    assert_eq!(buf.append_slice(b"def"), Ok(()));
    assert_eq!(Octets::as_slice(&buf), b"abcdef");
}
