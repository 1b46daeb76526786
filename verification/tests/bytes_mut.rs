use tcio::bytes::{Bytes, BytesMut};

const DATA: &[u8] = &[1, 2, 3, 4, 5, 6, 7, 8, 9, 10, 11, 12, 13, 14, 15, 16];

type Cx = (BytesMut, Vec<u8>);

// ===== Constructor =====

fn owned() -> Cx {
    (BytesMut::copy_from_slice(DATA), DATA.to_vec())
}

fn shared() -> Cx {
    let mut value = BytesMut::copy_from_slice(DATA);
    (value.split_off(2), DATA[2..].to_vec())
}

fn from_vec() -> Cx {
    (BytesMut::from(DATA.to_vec()), DATA.to_vec())
}

fn from_vec_excess() -> Cx {
    let mut vec = DATA.to_vec();
    vec.truncate(12);
    (BytesMut::from(vec), DATA[..12].to_vec())
}

// ===== Destructor =====

fn dropped((bytes, expect): Cx) {
    assert_eq!(bytes.as_slice(), &expect[..]);
    drop(bytes);
}

fn into_vec((bytes, expect): Cx) {
    let vec = Vec::from(bytes);
    assert_eq!(vec.as_slice(), &expect[..]);
}

fn into_shared((bytes, expect): Cx) {
    let buf = Bytes::from(bytes);
    assert_eq!(buf.as_slice(), &expect[..]);
}

// ===== Behavior =====

fn advancing((mut bytes, expect): Cx) -> Cx {
    bytes.advance(2);
    assert_eq!(bytes.as_slice(), &expect[2..]);
    (bytes, expect[2..].to_vec())
}

fn advancing_full((mut bytes, _): Cx) -> Cx {
    bytes.advance(bytes.len());
    assert_eq!(bytes.as_slice(), &[][..]);
    (bytes, Vec::new())
}

fn truncating((mut bytes, expect): Cx) -> Cx {
    bytes.truncate(bytes.len() - 2);
    assert_eq!(bytes.as_slice(), &expect[..expect.len() - 2]);
    let rest = expect[..expect.len() - 2].to_vec();
    (bytes, rest)
}

fn truncating_empty((mut bytes, _): Cx) -> Cx {
    bytes.truncate(0);
    assert_eq!(bytes.as_slice(), &[][..]);
    (bytes, Vec::new())
}

fn splitting_off((mut bytes, expect): Cx) -> Cx {
    let split = bytes.split_off(6);
    assert_eq!(bytes.as_slice(), &expect[..6]);
    assert_eq!(split.as_slice(), &expect[6..]);
    (bytes, expect[..6].to_vec())
}

fn splitting_to((mut bytes, expect): Cx) -> Cx {
    let split = bytes.split_to(2);
    assert_eq!(bytes.as_slice(), &expect[2..]);
    assert_eq!(split.as_slice(), &expect[..2]);
    (bytes, expect[2..].to_vec())
}

// ===== Test =====

type Behavior = fn(Cx) -> Cx;

const BEHAVIORS: [Behavior; 4] = [advancing, truncating, splitting_off, splitting_to];

/// Runs every behavior, and every pair of behaviors, on buffers from `ctor`, each followed by
/// nothing, by advancing to the end and by truncating to empty, and hands each result to
/// `dtor`.
fn behavior(ctor: fn() -> Cx, dtor: fn(Cx)) {
    for b1 in BEHAVIORS {
        dtor(b1(ctor()));
        dtor(advancing_full(b1(ctor())));
        dtor(truncating_empty(b1(ctor())));
    }
    for b1 in BEHAVIORS {
        for b2 in BEHAVIORS {
            dtor(b2(b1(ctor())));
            dtor(advancing_full(b2(b1(ctor()))));
            dtor(truncating_empty(b2(b1(ctor()))));
        }
    }
}

// ===== Owned =====

#[test]
fn test_owned_dropped() {
    behavior(owned, dropped);
}

#[test]
fn test_owned_into_vec() {
    behavior(owned, into_vec);
}

#[test]
fn test_owned_into_mut() {
    behavior(owned, into_shared);
}

// ===== Shared =====

#[test]
fn test_shared_dropped() {
    behavior(shared, dropped);
}

#[test]
fn test_shared_into_vec() {
    behavior(shared, into_vec);
}

#[test]
fn test_shared_into_mut() {
    behavior(shared, into_shared);
}

// ===== From<Vec<u8>> =====

#[test]
fn test_from_vec_dropped() {
    behavior(from_vec, dropped);
}

#[test]
fn test_from_vec_into_vec() {
    behavior(from_vec, into_vec);
}

#[test]
fn test_from_vec_into_mut() {
    behavior(from_vec, into_shared);
}

// ===== From<Vec<u8>> Excess =====

#[test]
fn test_from_vec_excess_dropped() {
    behavior(from_vec_excess, dropped);
}

#[test]
fn test_from_vec_excess_into_vec() {
    behavior(from_vec_excess, into_vec);
}

#[test]
fn test_from_vec_excess_into_mut() {
    behavior(from_vec_excess, into_shared);
}

// ===== Allocation =====

#[test]
fn test_reserve() {
    let mut bytes = BytesMut::copy_from_slice(DATA);
    let base_ptr = bytes.as_slice().as_ptr() as usize;
    let base_cap = bytes.capacity();

    // Offset Reclaim
    bytes.advance(12);
    assert_eq!(bytes.capacity(), base_cap - 12);
    bytes.reserve(12);
    // this ensure reclaim, if this would have reallocate, the capacity will be more excessive
    assert_eq!(bytes.capacity(), base_cap);
    bytes.as_slice();

    bytes.extend_from_slice(&DATA[..12]);
    assert_eq!(bytes.capacity(), base_cap);

    // Reallocate Owned
    bytes.reserve(4);
    assert!(bytes.capacity() > base_cap);
    let base_cap = bytes.capacity();
    bytes.as_slice();

    loop {
        let rem = bytes.capacity() - bytes.len();
        if rem == 0 {
            break;
        }
        bytes.extend_from_slice(DATA.get(..rem).unwrap_or(DATA));
    }

    // Tail Reclaim
    bytes.split_off(bytes.len() - 4);
    assert_eq!(bytes.capacity(), base_cap - 4);
    bytes.reserve(4);
    assert_eq!(bytes.capacity(), base_cap);

    bytes.extend_from_slice(&DATA[..4]);
    // Reallocate Exclusive
    bytes.reserve(4);
    assert!(bytes.capacity() > base_cap);
    let base_cap = bytes.capacity();
    bytes.as_slice();

    loop {
        let rem = bytes.capacity() - bytes.len();
        if rem == 0 {
            break;
        }
        bytes.extend_from_slice(DATA.get(..rem).unwrap_or(DATA));
    }
    assert_eq!(bytes.len(), bytes.capacity());

    // Reallocate Shared
    let vec = bytes.as_slice().to_vec();
    let split = bytes.split_off(bytes.len() - 4);
    bytes.reserve(4);
    assert_ne!(bytes.as_slice().as_ptr() as usize, base_ptr);
    assert!(bytes.capacity() > base_cap);
    drop(split);
    assert_eq!(bytes.as_slice(), &vec[..vec.len() - 4]);
}

// Split

const TEXT: &[u8] = b"Content-Type: text/html";

#[test]
fn test_bytes_mut_split_to() {
    let mut buf = BytesMut::copy_from_slice(TEXT);

    let to = buf.split_to(5);

    assert_eq!(buf.as_slice(), &TEXT[5..]);
    assert_eq!(to.as_slice(), &TEXT[..5]);
}

#[test]
fn test_bytes_mut_split_off() {
    let mut buf = BytesMut::copy_from_slice(TEXT);

    let to = buf.split_off(5);

    assert_eq!(buf.as_slice(), &TEXT[..5]);
    assert_eq!(to.as_slice(), &TEXT[5..]);
}

// Unsplit

#[test]
fn test_bytes_mut_unsplit() {
    let mut bytes = BytesMut::copy_from_slice(TEXT);

    let other = bytes.split_off(6);

    bytes.try_unsplit(other).unwrap();
}

/// The number of bytes that `bytes` can take before reallocating.
fn spare_capacity(bytes: &BytesMut) -> usize {
    bytes.capacity() - bytes.len()
}

#[test]
fn test_bytes_mut() {
    let mut bufm = BytesMut::copy_from_slice(TEXT);

    assert_eq!(bufm.len(), TEXT.len());
    assert_eq!(bufm.as_slice(), TEXT);
    assert_eq!(spare_capacity(&bufm), 0);

    const TRUNC_LEN: usize = b"Content-Type: ".len();

    bufm.truncate(TRUNC_LEN);
    assert_eq!(spare_capacity(&bufm), TEXT.len() - TRUNC_LEN);
    assert_eq!(bufm.as_slice(), &TEXT[..TRUNC_LEN]);

    bufm.extend_from_slice(b"text/html");

    assert_eq!(bufm.as_slice(), TEXT);
}

#[test]
fn test_bytes_mut_promoted() {
    let mut bufm = BytesMut::copy_from_slice(TEXT);
    drop(bufm.split_off(bufm.len()));

    assert_eq!(bufm.len(), TEXT.len());
    assert_eq!(bufm.as_slice(), TEXT);
    assert_eq!(spare_capacity(&bufm), 0);

    const TRUNC_LEN: usize = b"Content-Type: ".len();

    bufm.truncate(TRUNC_LEN);
    assert_eq!(spare_capacity(&bufm), TEXT.len() - TRUNC_LEN);
    assert_eq!(bufm.as_slice(), &TEXT[..TRUNC_LEN]);

    bufm.extend_from_slice(b"text/html");

    assert_eq!(bufm.as_slice(), TEXT);
}
