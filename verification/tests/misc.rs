use tcio::bytes::{
    range_of, slice_of, slice_of_bytes, slice_of_bytes_at, slice_of_bytes_mut, ByteStr, Bytes,
    BytesMut,
};
use tcio::either::{Either, EitherMap};
use tcio::fmt::{lossy, lossy_debug};

#[test]
fn fmt_lossy_example() {
    let mut bytes = Vec::from(&b"\r\nContent-Type"[..]);
    bytes.push(0x12);

    assert_eq!(lossy(&bytes), br#"\r\nContent-Type\x12"#.to_vec());
    assert_eq!(lossy_debug(&bytes), br#"b"\r\nContent-Type\x12""#.to_vec());
}

#[test]
fn fmt_lossy_escapes() {
    assert_eq!(lossy(b"a b\tc"), b"a b\tc".to_vec());
    assert_eq!(lossy(&[0x05, 0x7f, 0xff]), br"\x5\x7f\xff".to_vec());
    assert_eq!(lossy(b""), Vec::<u8>::new());
}

#[test]
fn range_of_and_slice_of() {
    let data: &[u8] = b"Hello World!";
    let sub = &data[6..];
    let range = range_of(sub);
    assert_eq!(range.end - range.start, 6);
    assert_eq!(slice_of(range.clone(), data), Some(&b"World!"[..]));
    assert_eq!(slice_of(range.start..range.start, data), Some(&b""[..]));

    let other = b"World!".to_vec();
    assert_eq!(slice_of(range_of(&other), data), None);
}

#[test]
fn slice_of_bytes_shares() {
    let bytes = Bytes::copy_from_slice(b"Hello World!");
    let range = range_of(&bytes.as_slice()[0..5]);
    let hello = slice_of_bytes(range, &bytes).unwrap();
    assert_eq!(hello.as_slice(), b"Hello");
    assert!(!bytes.is_unique());

    let base = 1000;
    let at = slice_of_bytes_at(1006..1012, base, &bytes).unwrap();
    assert_eq!(at.as_slice(), b"World!");
    assert!(slice_of_bytes_at(1006..1013, base, &bytes).is_none());
    assert!(slice_of_bytes_at(999..1001, base, &bytes).is_none());
}

#[test]
fn slice_of_bytes_mut_splits() {
    let mut bytes = BytesMut::copy_from_slice(b"Hello World!");
    let range = range_of(&bytes.as_slice()[6..11]);
    let world = slice_of_bytes_mut(range, &mut bytes).unwrap();
    assert_eq!(world.as_slice(), b"World");
    assert_eq!(bytes.as_slice(), b"!");
}

#[test]
fn bytestr_slice_ref() {
    let s = ByteStr::copy_from_str("Hello World!");
    let sub = &s.as_str()[6..];
    let world = s.slice_ref(sub).unwrap();
    assert_eq!(world.as_str(), "World!");
    assert!(s.slice_ref("World!").is_none());
    assert!(s.slice_ref("").is_some());
}

#[test]
fn either_conversions() {
    let e: Either<u8, bool> = Either::Left(3);
    let m: EitherMap<u8, bool> = EitherMap::from(e);
    assert_eq!(m, EitherMap::Left(3));
    let back: Either<u8, bool> = Either::from(EitherMap::Right(true));
    assert_eq!(back, Either::Right(true));
}

#[test]
fn buffers_equal_by_bytes() {
    let a = Bytes::copy_from_slice(b"abc");
    let b = Bytes::from(b"abc".to_vec());
    assert_eq!(a, b);
    assert_ne!(a, Bytes::from_static(b"abd"));
    assert_eq!(BytesMut::copy_from_slice(b"xy"), BytesMut::from(b"xy".to_vec()));
    assert_eq!(ByteStr::copy_from_str("s"), ByteStr::from_static("s"));
    assert_eq!(Bytes::from(ByteStr::copy_from_str("s")).as_slice(), b"s");
    assert_eq!(ByteStr::default().len(), 0);
}

#[test]
fn bytestr_from_utf8_checks() {
    let ok = ByteStr::from_utf8(Bytes::copy_from_slice("héllo".as_bytes())).unwrap();
    assert_eq!(ok.as_str(), "héllo");
    assert_eq!(ok.len(), 6);

    let err = match ByteStr::from_utf8(Bytes::copy_from_slice(&[0x61, 0xff, 0x62])) {
        Ok(_) => panic!("invalid UTF-8 is refused"),
        Err(err) => err,
    };
    assert_eq!(err.as_bytes(), &[0x61, 0xff, 0x62]);
    assert_eq!(err.utf8_error().valid_up_to(), 1);
    assert_eq!(err.into_bytes().as_slice(), &[0x61, 0xff, 0x62]);
}

#[test]
fn bytestr_static_and_clear() {
    let mut s = ByteStr::from_static("static");
    assert!(!s.is_unique());
    assert_eq!(s.as_bytes(), b"static");
    s.clear();
    assert_eq!(s.as_str(), "");
    let copied = ByteStr::copy_from_str("copied");
    assert!(copied.is_unique());
    let shared = copied.clone();
    assert!(!copied.is_unique());
    assert_eq!(shared.into_bytes().as_slice(), b"copied");
}

#[test]
fn bytes_mut_reserve_and_reclaim() {
    let mut bytes = BytesMut::with_capacity(8);
    assert_eq!(bytes.capacity(), 8);
    bytes.extend_from_slice(b"abcdef");
    bytes.advance(4);
    assert_eq!(bytes.capacity(), 4);
    // the four bytes before the window are reclaimed: the two bytes move to the front
    bytes.reclaim();
    assert_eq!(bytes.capacity(), 8);
    assert_eq!(bytes.as_slice(), b"ef");
    bytes.reserve(20);
    assert!(bytes.capacity() >= 22);
    assert_eq!(bytes.as_slice(), b"ef");
}

#[test]
fn bytes_mut_unsplit_joins_or_copies() {
    let mut bytes = BytesMut::copy_from_slice(b"Hello World");
    let tail = bytes.split_off(5);
    assert_eq!(bytes.capacity(), 5);
    bytes.unsplit(tail);
    assert_eq!(bytes.as_slice(), b"Hello World");
    assert_eq!(bytes.capacity(), 11);

    // buffers that never shared an allocation are copied
    let mut a = BytesMut::copy_from_slice(b"ab");
    let b = BytesMut::copy_from_slice(b"cd");
    let b = a.try_unsplit(b).unwrap_err();
    assert_eq!(b.as_slice(), b"cd");
    a.unsplit(b);
    assert_eq!(a.as_slice(), b"abcd");
}

#[test]
fn bytes_mut_reclaim_after_advance() {
    let mut b = BytesMut::copy_from_slice(b"Hello World!");
    b.advance(7);
    assert_eq!(b.as_slice(), b"orld!");
    assert_eq!(b.capacity(), 5);
    b.reclaim();
    assert_eq!(b.as_slice(), b"orld!");
    assert_eq!(b.capacity(), 12);

    // a reservation that reclaiming satisfies keeps the allocation's capacity
    let mut c = BytesMut::copy_from_slice(b"Hello World!");
    c.advance(7);
    c.reserve(7);
    assert_eq!(c.as_slice(), b"orld!");
    assert_eq!(c.capacity(), 12);
}

#[test]
fn bytestr_into_string_keeps_the_text() {
    let s = ByteStr::copy_from_str("héllo wörld");
    assert_eq!(s.into_string(), String::from("héllo wörld"));
    assert_eq!(ByteStr::new().into_string(), String::new());
}

#[test]
fn bytestr_from_utf8_reports_the_error() {
    let err = ByteStr::from_utf8(Bytes::copy_from_slice(b"ab\xffcd")).unwrap_err();
    assert_eq!(err.utf8_error().valid_up_to(), 2);
    assert_eq!(err.utf8_error().error_len(), Some(1));
    assert_eq!(err.as_bytes(), b"ab\xffcd");
    let err = ByteStr::from_utf8(Bytes::copy_from_slice(b"ok\xe2\x82")).unwrap_err();
    assert_eq!(err.utf8_error().valid_up_to(), 2);
    assert_eq!(err.utf8_error().error_len(), None);
    assert_eq!(err.into_bytes().as_slice(), b"ok\xe2\x82");
}

#[test]
fn range_of_survives_split_off_and_freeze() {
    let mut bytesm = BytesMut::copy_from_slice(b"Content-Type: text/html");
    let range = range_of(&bytesm.as_slice()[14..]);
    let bytes = bytesm.split_off(12).freeze();
    let content = slice_of_bytes(range, &bytes).unwrap();
    assert_eq!(content.as_slice(), b"text/html");
}

#[test]
fn slice_of_bytes_mut_after_split_off() {
    let mut bytesm = BytesMut::copy_from_slice(b"Content-Type: text/html");
    let range = range_of(&bytesm.as_slice()[14..18]);
    let mut split = bytesm.split_off(12);
    let content = slice_of_bytes_mut(range, &mut split).unwrap();
    // the `: ` before the range is dropped
    assert_eq!(content.as_slice(), b"text");
    assert_eq!(split.as_slice(), b"/html");
    assert_eq!(bytesm.as_slice(), b"Content-Type");
}

#[test]
fn bytestr_into_bytes_round_trip() {
    let s = ByteStr::copy_from_str("grüße");
    let t0 = s.as_str().to_owned();
    let b = s.into_bytes();
    assert_eq!(b.as_slice(), t0.as_bytes());
    let t = ByteStr::from_utf8(b).unwrap();
    assert_eq!(t.as_str(), t0);
}
