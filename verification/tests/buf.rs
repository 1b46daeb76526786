use tcio::bytes::{Buf, BufMut, Bytes, BytesMut};

#[test]
fn buf_slice_reads_in_order() {
    let mut buf: &[u8] = b"\x01\x02\x03\x04\x05\x06\x07\x08\x09";
    assert_eq!(buf.remaining(), 9);
    assert!(buf.has_remaining());
    assert_eq!(buf.get_u8(), 1);
    assert_eq!(buf.get_u16(), 0x0203);
    assert_eq!(buf.get_u16_le(), 0x0504);
    assert_eq!(buf.try_get_u32(), Some(0x0607_0809));
    assert_eq!(buf.try_get_u8(), None);
    assert!(!buf.has_remaining());
}

#[test]
fn buf_signed_and_wide_integers() {
    let mut buf: &[u8] = &[0xff, 0xfe, 0x80, 0x00, 0x00, 0x00, 0x00, 0x00, 0x00, 0x01];
    assert_eq!(buf.get_i8(), -1);
    assert_eq!(buf.get_i8(), -2);
    assert_eq!(buf.get_i64(), i64::MIN + 1);
    let mut buf: &[u8] = &[0x01, 0x00, 0x00, 0x00, 0x00, 0x00, 0x00, 0x80];
    assert_eq!(buf.get_i64_le(), i64::MIN + 1);
    let mut buf: &[u8] = &[0xab; 16];
    assert_eq!(buf.get_u128(), 0xabab_abab_abab_abab_abab_abab_abab_abab);
    let mut buf: &[u8] = &[0x12, 0x34];
    let ne = buf.get_u16_ne();
    assert!(ne == 0x1234 || ne == 0x3412);
    assert_eq!(ne, u16::from_ne_bytes([0x12, 0x34]));
}

#[test]
fn buf_copy_to_slice_and_bytes() {
    let mut buf = Bytes::copy_from_slice(b"Hello World!");
    let mut dst = [0u8; 5];
    buf.copy_to_slice(&mut dst);
    assert_eq!(&dst, b"Hello");
    let bytes = buf.copy_to_bytes(1);
    assert_eq!(bytes.as_slice(), b" ");
    assert_eq!(buf.chunk(), b"World!");
}

#[test]
fn buf_chain_reads_first_then_second() {
    let a: &[u8] = b"Hello ";
    let b: &[u8] = b"World!";
    let mut chain = a.chain(b);
    assert_eq!(chain.remaining(), 12);
    assert_eq!(chain.chunk(), b"Hello ");
    chain.advance(3);
    assert_eq!(chain.chunk(), b"lo ");
    let both = chain.copy_to_bytes(5);
    assert_eq!(both.as_slice(), b"lo Wo");
    assert_eq!(chain.chunk(), b"rld!");
    chain.advance(4);
    assert!(!chain.has_remaining());
    let (a, b) = chain.into_inner();
    assert!(a.is_empty());
    assert!(b.is_empty());
}

#[test]
fn buf_chain_copy_across_then_rest() {
    let a = Bytes::copy_from_slice(b"ab");
    let b = Bytes::copy_from_slice(b"cdef");
    let mut chain = a.chain(b);
    let mut dst = [0u8; 6];
    chain.copy_to_slice(&mut dst);
    assert_eq!(&dst, b"abcdef");
}

#[test]
fn buf_take_limits_reads() {
    let buf: &[u8] = b"Hello World!";
    let mut take = buf.take(5);
    assert_eq!(take.remaining(), 5);
    assert_eq!(take.chunk(), b"Hello");
    take.advance(2);
    assert_eq!(take.remaining(), 3);
    let rest = take.copy_to_bytes(3);
    assert_eq!(rest.as_slice(), b"llo");
    assert!(!take.has_remaining());
    assert_eq!(take.into_inner(), b" World!");
}

#[test]
fn buf_mut_put_appends() {
    let mut vec: Vec<u8> = b"Hello".to_vec();
    vec.put_slice(b" ");
    let src: &[u8] = b"World";
    vec.put(src);
    assert_eq!(vec, b"Hello World");
    assert_eq!(vec.remaining_mut(), isize::MAX as usize - 11);
    assert!(vec.has_remaining_mut());

    let mut bufm = BytesMut::with_capacity(4);
    bufm.put_slice(b"ab");
    let a: &[u8] = b"cd";
    let b: &[u8] = b"ef";
    bufm.put(a.chain(b));
    assert_eq!(bufm.as_slice(), b"abcdef");

    // an empty buffer takes over the allocation of a unique source
    let mut empty = BytesMut::new();
    empty.put(Bytes::copy_from_slice(b"moved"));
    assert_eq!(empty.as_slice(), b"moved");
}

#[test]
fn bytes_ext_reads_contiguous_integers() {
    let mut bytes: &[u8] = &[0x00, 0x2a, 0x2a, 0x00, 0xff];
    assert_eq!(tcio::bytes::BytesExt::get_u16(&mut bytes), Some(42));
    assert_eq!(tcio::bytes::BytesExt::get_u16_le(&mut bytes), Some(42));
    assert_eq!(tcio::bytes::BytesExt::get_i8(&mut bytes), Some(-1));
    assert_eq!(tcio::bytes::BytesExt::get_u8(&mut bytes), None);

    let mut b = Bytes::copy_from_slice(&[1, 2, 3]);
    assert_eq!(tcio::bytes::BytesExt::next_chunk::<2>(&mut b), Some([1, 2]));
    assert_eq!(tcio::bytes::BytesExt::next_chunk::<2>(&mut b), None);
    assert_eq!(b.as_slice(), &[3]);

    let mut m = BytesMut::copy_from_slice(&[0x80, 0, 0, 0]);
    assert_eq!(tcio::bytes::BytesExt::get_i32(&mut m), Some(i32::MIN));
    assert!(m.is_empty());
}

#[test]
fn buf_chain_advance_crosses_into_second() {
    let mut c = (&b"abc"[..]).chain(&b"de"[..]);
    c.advance(4);
    let (first, last) = c.into_inner();
    assert_eq!(first, &b""[..]);
    assert_eq!(last, &b"e"[..]);
}
