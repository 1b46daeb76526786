use tcio::bytes::{Bytes, BytesMut, CursorBuf};

#[test]
fn test_cursor_buf() {
    let mut bytes = Bytes::copy_from_slice(b"Content-Type");
    let mut cursor = CursorBuf::<&mut Bytes>::new(&mut bytes);

    cursor.advance(b"Content".len());
    cursor.advance_buf();

    drop(cursor);
    assert_eq!(bytes.as_slice(), b"-Type");
}

#[test]
fn test_cursor_buf_next() {
    let mut bytes = Bytes::copy_from_slice(b"Content-Type");
    let mut cursor = CursorBuf::<&mut Bytes>::new(&mut bytes);

    while let Some(b) = cursor.next() {
        if b == b'-' {
            break;
        }
    }

    cursor.advance_buf();

    drop(cursor);
    assert_eq!(bytes.as_slice(), b"Type");
}

#[test]
fn test_cursor_buf_split_to() {
    let mut bytes = Bytes::copy_from_slice(b"Content-Type");
    let mut cursor = CursorBuf::<&mut Bytes>::new(&mut bytes);

    cursor.advance(b"Content".len());
    let split = cursor.split_to();

    assert_eq!(split.as_slice(), b"Content");
    assert_eq!(cursor.as_slice(), b"-Type");
    drop(cursor);
    assert_eq!(bytes.as_slice(), b"-Type");
}

#[test]
fn test_cursor_buf_split_off() {
    let mut bytes = BytesMut::copy_from_slice(b"Content-Type");
    let mut cursor = CursorBuf::<&mut BytesMut>::new(&mut bytes);

    cursor.advance(b"Content".len());
    let split = cursor.split_off();

    assert_eq!(split.as_slice(), b"-Type");
    assert_eq!(cursor.as_slice(), b"");
    drop(cursor);
    assert_eq!(bytes.as_slice(), b"Content");
}

#[test]
fn test_cursor_buf_truncate() {
    let mut bytes = BytesMut::copy_from_slice(b"Content-Type");
    let mut cursor = CursorBuf::<&mut BytesMut>::new(&mut bytes);

    cursor.advance(b"Content".len());
    cursor.truncate_buf();

    assert_eq!(cursor.as_slice(), b"");
    drop(cursor);
    assert_eq!(bytes.as_slice(), b"Content");
}

#[test]
fn cursor_buf_slice_advance() {
    let mut data: &[u8] = b"Content-Type";
    let mut cursor = CursorBuf::from_slice(&mut data);
    cursor.advance(8);
    cursor.advance_buf();
    assert_eq!(*cursor.into_inner(), b"Type");
}

#[test]
fn cursor_buf_slice_advance_buf_moves_the_slice() {
    let mut s: &[u8] = b"Content-Type";
    let mut c = CursorBuf::from_slice(&mut s);
    c.advance(7);
    assert_eq!(c.as_slice(), b"-Type");
    assert_eq!(c.original(), b"Content-Type");
    c.advance_buf();
    assert_eq!(c.steps(), 0);
    assert_eq!(c.as_slice(), b"-Type");
    assert_eq!(c.original(), b"-Type");
    drop(c);
    assert_eq!(s, b"-Type");
}
