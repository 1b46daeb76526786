use tcio::bytes::{Bytes, BytesMut};

fn vec_excess(cap: usize, value: u8, len: usize) -> Vec<u8> {
    let mut vec = Vec::with_capacity(cap);
    vec.extend(std::iter::repeat(value).take(len));
    vec
}

fn b_excess(b: &[u8]) -> Vec<u8> {
    let mut vec = Vec::with_capacity(b.len() + 6);
    vec.extend(b);
    assert_ne!(vec.capacity(), vec.len());
    vec
}

fn into_vec_same(buf: Bytes, ptr: usize, slice: &[u8]) {
    let vec = buf.into_vec();
    assert_eq!(vec.as_ptr() as usize, ptr);
    assert_eq!(vec.as_slice(), slice);
}

fn into_vec_other(buf: Bytes, ptr: usize, slice: &[u8]) {
    let vec = buf.into_vec();
    assert_ne!(vec.as_ptr() as usize, ptr);
    assert_eq!(vec.as_slice(), slice);
}

fn into_mut_same(buf: Bytes, ptr: usize, slice: &[u8]) {
    let bufm = buf.into_mut();
    assert_eq!(bufm.as_slice().as_ptr() as usize, ptr);
    assert_eq!(bufm.as_slice(), slice);
}

fn into_mut_other(buf: Bytes, ptr: usize, slice: &[u8]) {
    let bufm = buf.into_mut();
    assert_ne!(bufm.as_slice().as_ptr() as usize, ptr);
    assert_eq!(bufm.as_slice(), slice);
}

#[test]
fn test_bytes_static_empty() {
    let empty = Bytes::new();
    assert!(!empty.is_unique());
    assert_eq!(empty.as_slice(), &[]);

    let cloned = empty.clone();
    assert!(!empty.is_unique());
    assert!(!cloned.is_unique());
    assert_eq!(cloned.as_slice(), &[]);

    let vec = cloned.into_vec();
    assert_eq!(vec.capacity(), 0);
}

#[test]
fn test_bytes_shared_unique() {
    let buf = Bytes::from(vec![4; 8]);

    assert!(buf.is_unique());

    let cloned = buf.clone();
    assert!(!cloned.is_unique());

    assert!(!buf.is_unique());

    drop(cloned);

    assert!(buf.is_unique());
}

#[test]
fn test_bytes_shared() {
    let buf = Bytes::from(vec![4; 8]);

    assert_eq!(buf.as_slice(), &[4; 8]);

    drop(buf);
}

#[test]
fn test_bytes_shared_into_vec() {
    let buf = Bytes::from(vec![4; 8]);
    let ptr = buf.as_slice().as_ptr() as usize;
    into_vec_same(buf, ptr, &[4; 8]);
}

#[test]
fn test_bytes_shared_into_mut() {
    let buf = Bytes::from(vec![4; 8]);
    let ptr = buf.as_slice().as_ptr() as usize;
    into_mut_same(buf, ptr, &[4; 8]);
}

#[test]
fn test_bytes_promoted() {
    let buf = Bytes::from(vec_excess(12, 4, 8));

    assert_eq!(buf.as_slice(), &[4; 8]);

    drop(buf);
}

#[test]
fn test_bytes_promoted_into_vec() {
    let buf = Bytes::from(vec_excess(12, 4, 8));
    let ptr = buf.as_slice().as_ptr() as usize;
    into_vec_same(buf, ptr, &[4; 8]);
}

#[test]
fn test_bytes_promoted_into_mut() {
    let buf = Bytes::from(vec_excess(12, 4, 8));
    let ptr = buf.as_slice().as_ptr() as usize;
    into_mut_same(buf, ptr, &[4; 8]);
}

// Advance

#[test]
fn test_bytes_shared_advanced() {
    let mut buf = Bytes::from(b"Content-Type".to_vec());

    buf.advance(2);
    assert_eq!(buf.as_slice(), b"ntent-Type");

    drop(buf);
}

#[test]
fn test_bytes_shared_advanced_into_vec() {
    let mut buf = Bytes::from(b"Content-Type".to_vec());
    let ptr = buf.as_slice().as_ptr() as usize;

    buf.advance(2);

    let vec = buf.into_vec();
    // even though the bytes were advanced, the pointer is unchanged: the bytes are copied
    // backward in place of a new allocation
    assert_eq!(vec.as_ptr() as usize, ptr);
    assert_eq!(vec.as_slice(), b"ntent-Type");
}

#[test]
fn test_bytes_shared_advanced_into_mut() {
    let mut buf = Bytes::from(b"Content-Type".to_vec());
    let ptr = buf.as_slice().as_ptr() as usize;
    buf.advance(2);
    into_mut_same(buf, ptr + 2, b"ntent-Type");
}

#[test]
fn test_bytes_promoted_advanced() {
    let mut buf = Bytes::from(b_excess(b"Content-Type"));

    buf.advance(2);
    assert_eq!(buf.as_slice(), b"ntent-Type");

    drop(buf);
}

#[test]
fn test_bytes_promoted_advanced_into_vec() {
    let mut buf = Bytes::from(b_excess(b"Content-Type"));
    let ptr = buf.as_slice().as_ptr() as usize;
    buf.advance(2);
    into_vec_same(buf, ptr, b"ntent-Type");
}

#[test]
fn test_bytes_promoted_advanced_into_mut() {
    let mut buf = Bytes::from(b_excess(b"Content-Type"));
    let ptr = buf.as_slice().as_ptr() as usize;
    buf.advance(2);
    into_mut_same(buf, ptr + 2, b"ntent-Type");
}

// Truncate

#[test]
fn test_bytes_shared_truncate() {
    let mut buf = Bytes::from(b"Content-Type".to_vec());

    buf.truncate(7);

    assert_eq!(buf.as_slice(), b"Content");
    drop(buf);
}

#[test]
fn test_bytes_shared_truncate_into_vec() {
    let mut buf = Bytes::from(b"Content-Type".to_vec());
    let ptr = buf.as_slice().as_ptr() as usize;
    buf.truncate(7);
    into_vec_same(buf, ptr, b"Content");
}

#[test]
fn test_bytes_shared_truncate_into_mut() {
    let mut buf = Bytes::from(b"Content-Type".to_vec());
    let ptr = buf.as_slice().as_ptr() as usize;
    buf.truncate(7);
    into_vec_same(buf, ptr, b"Content");
}

#[test]
fn test_bytes_promoted_truncate() {
    let mut buf = Bytes::from(b_excess(b"Content-Type"));

    buf.truncate(7);

    assert_eq!(buf.as_slice(), b"Content");
    drop(buf);
}

#[test]
fn test_bytes_promoted_truncate_into_vec() {
    let mut buf = Bytes::from(b_excess(b"Content-Type"));
    let ptr = buf.as_slice().as_ptr() as usize;
    buf.truncate(7);
    into_vec_same(buf, ptr, b"Content");
}

#[test]
fn test_bytes_promoted_truncate_into_mut() {
    let mut buf = Bytes::from(b_excess(b"Content-Type"));
    let ptr = buf.as_slice().as_ptr() as usize;
    buf.truncate(7);
    into_vec_same(buf, ptr, b"Content");
}

// Cloned

#[test]
fn test_bytes_shared_cloned() {
    let buf = Bytes::from(vec![4; 8]);

    let cloned = buf.clone();
    assert_eq!(cloned.as_slice(), &[4; 8]);

    drop(buf);
}

#[test]
fn test_bytes_shared_cloned_into_vec() {
    let buf = Bytes::from(vec![4; 8]);
    let ptr = buf.as_slice().as_ptr() as usize;
    let _cloned = buf.clone();

    let vec = buf.into_vec();
    // not unique, allocate and copy required
    assert_ne!(vec.as_ptr() as usize, ptr);
    assert_eq!(vec.as_slice(), (&[4; 8]));
}

#[test]
fn test_bytes_shared_cloned_into_mut() {
    let buf = Bytes::from(vec![4; 8]);
    let ptr = buf.as_slice().as_ptr() as usize;
    let _cloned = buf.clone();
    into_mut_other(buf, ptr, &[4; 8]);
}

#[test]
fn test_bytes_promoted_cloned() {
    let buf = Bytes::from(vec_excess(12, 4, 8));
    let _cloned = buf.clone();
    drop(buf);
}

#[test]
fn test_bytes_promoted_cloned_into_vec() {
    let buf = Bytes::from(vec_excess(12, 4, 8));
    let ptr = buf.as_slice().as_ptr() as usize;
    let _cloned = buf.clone();
    into_vec_other(buf, ptr, &[4; 8]);
}

#[test]
fn test_bytes_promoted_cloned_into_mut() {
    let buf = Bytes::from(vec_excess(12, 4, 8));
    let ptr = buf.as_slice().as_ptr() as usize;
    let _cloned = buf.clone();
    into_mut_other(buf, ptr, &[4; 8]);
}

#[test]
fn test_bytes_shared_cloned_drop() {
    let buf = Bytes::from(vec![4; 8]);

    drop(buf.clone());

    drop(buf);
}

#[test]
fn test_bytes_shared_cloned_drop_into_vec() {
    let buf = Bytes::from(vec![4; 8]);
    let ptr = buf.as_slice().as_ptr() as usize;

    drop(buf.clone());

    let vec = buf.into_vec();
    // unique again, no reallocation
    assert_eq!(vec.as_ptr() as usize, ptr);
    assert_eq!(vec.as_slice(), (&[4; 8]));
}

#[test]
fn test_bytes_shared_cloned_drop_into_mut() {
    let buf = Bytes::from(vec![4; 8]);
    let ptr = buf.as_slice().as_ptr() as usize;
    drop(buf.clone());
    into_mut_same(buf, ptr, &[4; 8]);
}

#[test]
fn test_bytes_promoted_cloned_drop() {
    let buf = Bytes::from(vec_excess(12, 4, 8));

    drop(buf.clone());

    drop(buf);
}

#[test]
fn test_bytes_promoted_cloned_drop_into_vec() {
    let buf = Bytes::from(vec_excess(12, 4, 8));
    let ptr = buf.as_slice().as_ptr() as usize;

    drop(buf.clone());

    into_vec_same(buf, ptr, &[4; 8]);
}

#[test]
fn test_bytes_promoted_cloned_drop_into_mut() {
    let buf = Bytes::from(vec_excess(12, 4, 8));
    let ptr = buf.as_slice().as_ptr() as usize;
    drop(buf.clone());
    into_mut_same(buf, ptr, &[4; 8]);
}

// Split

#[test]
fn test_bytes_shared_split_to() {
    let mut buf = Bytes::from(b"Content-Type".to_vec());

    let to = buf.split_to(7);

    assert_eq!(to.as_slice(), b"Content");
    assert_eq!(buf.as_slice(), b"-Type");

    drop(buf);
}

#[test]
fn test_bytes_shared_split_to_into_vec() {
    let mut buf = Bytes::from(b"Content-Type".to_vec());
    let ptr = buf.as_slice().as_ptr() as usize;
    let _to = buf.split_to(7);
    into_vec_other(buf, ptr, b"-Type");
}

#[test]
fn test_bytes_shared_split_to_into_mut() {
    let mut buf = Bytes::from(b"Content-Type".to_vec());
    let ptr = buf.as_slice().as_ptr() as usize;
    let _to = buf.split_to(7);
    into_mut_other(buf, ptr, b"-Type");
}

#[test]
fn test_bytes_shared_split_off() {
    let mut buf = Bytes::from(vec![4u8; 8]);

    let to = buf.split_off(5);

    assert!(!buf.is_unique());
    assert_eq!(buf.as_slice(), &[4u8; 5]);
    assert_eq!(to.as_slice(), &[4u8; 8 - 5]);
    drop(to);

    assert!(buf.is_unique());
}

// BytesMut

#[test]
fn test_bytes_from_mut() {
    let bufm = BytesMut::from(vec![4; 8]);
    let buf = Bytes::from(bufm);
    let ptr = buf.as_slice().as_ptr() as usize;

    assert!(buf.is_unique());
    assert!(!buf.is_empty());
    assert_eq!(buf.as_slice(), &[4; 8]);

    let cloned = buf.clone();

    assert!(!buf.is_unique());
    assert!(!cloned.is_unique());
    assert_eq!(cloned.as_slice(), &[4; 8]);
    drop(cloned);

    assert!(buf.is_unique());
    let vec = buf.into_vec();
    assert_eq!(vec.as_ptr() as usize, ptr);
}

// Documented examples

#[test]
fn bytes_slice_example() {
    let bytes = Bytes::copy_from_slice(b"Hello World!");
    let slice = bytes.slice(6..12);
    assert_eq!(slice.as_slice(), b"World!");
}

#[test]
fn bytes_truncate_example() {
    let mut bytes = Bytes::copy_from_slice(b"Hello World!");
    bytes.truncate(5);
    assert_eq!(bytes.as_slice(), b"Hello");
}

#[test]
fn bytes_split_off_example() {
    let mut bytes = Bytes::copy_from_slice(b"Hello World!");
    let split = bytes.split_off(6);
    assert_eq!(bytes.as_slice(), b"Hello ");
    assert_eq!(split.as_slice(), b"World!");
}

#[test]
fn bytes_try_split_off_example() {
    let mut bytes = Bytes::copy_from_slice(b"Hello World!");
    let split = bytes.try_split_off(6).unwrap();
    assert_eq!(bytes.as_slice(), b"Hello ");
    assert_eq!(split.as_slice(), b"World!");
    assert!(bytes.try_split_off(10).is_none());
}

#[test]
fn bytes_split_to_example() {
    let mut bytes = Bytes::copy_from_slice(b"Hello World!");
    let split = bytes.split_to(6);
    assert_eq!(bytes.as_slice(), b"World!");
    assert_eq!(split.as_slice(), b"Hello ");
}

#[test]
fn bytes_try_split_to_example() {
    let mut bytes = Bytes::copy_from_slice(b"Hello World!");
    let split = bytes.try_split_to(6).unwrap();
    assert_eq!(bytes.as_slice(), b"World!");
    assert_eq!(split.as_slice(), b"Hello ");
    assert!(bytes.try_split_to(10).is_none());
}

#[test]
fn bytes_slice_ref_example() {
    let bytes = Bytes::copy_from_slice(b"Hello World!");
    let slice = bytes.slice_ref(&bytes.as_slice()[6..]).unwrap();
    assert_eq!(slice.as_slice(), b"World!");
    // a slice outside the bytes is refused
    let other = b"World!".to_vec();
    assert!(bytes.slice_ref(&other).is_none());
}

#[test]
fn bytes_from_static_never_unique() {
    let bytes = Bytes::from_static(b"static");
    assert!(!bytes.is_unique());
    assert_eq!(bytes.as_slice(), b"static");
}
