use tcio::slice::Cursor;

#[test]
fn test_cursor_advance() {
    const BUF: [u8; 12] = *b"Content-Type";
    const BUF_LEN: usize = BUF.len();

    let mut cursor = Cursor::new(&BUF[..]);

    assert_eq!(cursor.steps(), 0);
    assert_eq!(cursor.remaining(), BUF.len());
    assert_eq!(cursor.as_bytes(), BUF);

    assert_eq!(cursor.peek(), Some(b'C'));
    assert_eq!(cursor.peek_chunk::<0>(), Some(b""));
    assert_eq!(cursor.peek_chunk::<2>(), Some(b"Co"));
    assert_eq!(cursor.peek_chunk::<13>(), None);

    cursor.advance(2);

    const REST: [u8; 10] = *b"ntent-Type";
    const REST_LEN: usize = REST.len();

    assert_eq!(cursor.steps(), 2);
    assert_eq!(cursor.remaining(), REST_LEN);
    assert_eq!(cursor.as_bytes(), REST);

    assert_eq!(cursor.peek(), Some(b'n'));
    assert_eq!(cursor.peek_chunk::<0>(), Some(b""));
    assert_eq!(cursor.peek_chunk::<REST_LEN>(), Some(&REST));
    assert_eq!(cursor.peek_chunk::<BUF_LEN>(), None);

    cursor.advance(REST_LEN);

    assert_eq!(cursor.steps(), BUF_LEN);
    assert!(!cursor.has_remaining());
    assert!(cursor.peek().is_none());
    assert!(cursor.peek_chunk::<5>().is_none());
    assert_eq!(cursor.as_bytes(), b"");

    // empty buffer
    let cursor = Cursor::new(b"");
    assert!(!cursor.has_remaining());
    assert!(cursor.peek().is_none());
    assert!(cursor.peek_chunk::<2>().is_none());
}

#[test]
fn test_cursor_pop_front() {
    const BUF: [u8; 12] = *b"Content-Type";
    const BUF_LEN: usize = BUF.len();

    let bytes = &BUF[..];
    let mut cursor = Cursor::new(bytes);

    assert_eq!(cursor.steps(), 0);
    assert_eq!(cursor.remaining(), BUF_LEN);
    assert_eq!(cursor.as_bytes(), BUF);

    assert_eq!(cursor.peek(), Some(b'C'));
    assert_eq!(cursor.peek_chunk::<0>(), Some(b""));
    assert_eq!(cursor.peek_chunk::<2>(), Some(b"Co"));
    assert_eq!(cursor.peek_chunk::<13>(), None);

    assert_eq!(cursor.next(), Some(b'C'));
    assert_eq!(cursor.next(), Some(b'o'));

    const REST: [u8; 10] = *b"ntent-Type";
    const REST_LEN: usize = REST.len();

    assert_eq!(cursor.steps(), 2);
    assert_eq!(cursor.remaining(), REST_LEN);
    assert_eq!(cursor.as_bytes(), REST);

    assert_eq!(cursor.peek(), Some(b'n'));
    assert_eq!(cursor.peek_chunk::<0>(), Some(b""));
    assert_eq!(cursor.peek_chunk::<REST_LEN>(), Some(&REST));
    assert_eq!(cursor.peek_chunk::<BUF_LEN>(), None);

    assert_eq!(cursor.next_chunk::<REST_LEN>(), Some(&REST));

    assert!(!cursor.has_remaining());
    assert!(cursor.peek().is_none());
    assert!(cursor.peek_chunk::<5>().is_none());
    assert_eq!(cursor.steps(), BUF_LEN);
    assert_eq!(cursor.as_bytes(), b"");

    // empty buffer
    let mut cursor = Cursor::new(b"");
    assert!(!cursor.has_remaining());
    assert!(cursor.next().is_none());
    assert!(cursor.next_chunk::<2>().is_none());
    assert_eq!(cursor.as_bytes(), b"");
}

#[test]
fn slice_find_first_occurrence() {
    assert_eq!(tcio::slice::find(b"Content-Type: text", b':'), Some(12));
    assert_eq!(tcio::slice::find(b"a:b:c", b':'), Some(1));
    assert_eq!(tcio::slice::find(b"abc", b':'), None);
    assert_eq!(tcio::slice::find(b"", b':'), None);
}

#[test]
fn slice_find_agrees_with_a_plain_scan() {
    let data: Vec<u8> = (0..70u32).map(|i| (i * 37 % 251) as u8).collect();
    for len in 0..data.len() {
        let value = &data[..len];
        for byte in [0u8, 1, 37, 74, 128, 200, 255] {
            let expected = value.iter().position(|b| *b == byte);
            assert_eq!(tcio::slice::find(value, byte), expected);
        }
    }
    // a byte just past a whole word, and one inside the second word
    assert_eq!(tcio::slice::find(b"aaaaaaaab", b'b'), Some(8));
    assert_eq!(tcio::slice::find(b"aaaaaaaaaaaxaaaa", b'x'), Some(11));
    assert_eq!(tcio::slice::find(&[0x80, 0x81, 0x7f, 0x00, 0xff, 0xfe, 0x01, 0x02, 0x00], 0x00), Some(3));
}

#[test]
fn cursor_steps_and_remaining_add_up() {
    let buf: &[u8] = b"GET /index.html HTTP/1.1\r\n";
    let mut c = Cursor::new(buf);
    let check = |c: &Cursor| {
        assert_eq!(c.steps() + c.remaining(), buf.len());
        assert_eq!(c.original(), buf);
        assert_eq!(c.as_bytes(), &buf[c.steps()..]);
    };
    check(&c);
    assert_eq!(c.next_split(b' '), Some(&b"GET"[..]));
    check(&c);
    assert_eq!(c.next_find(b' '), Some(&b"/index.html"[..]));
    check(&c);
    assert_eq!(c.next(), Some(b' '));
    check(&c);
    assert_eq!(c.next_until(b'\r'), Some(&b"HTTP/1.1\r"[..]));
    check(&c);
    c.step_back(3);
    check(&c);
    assert_eq!(c.as_bytes(), b".1\r\n");
    c.advance(3);
    check(&c);
    assert_eq!(c.next_chunk::<1>(), Some(&[b'\n']));
    check(&c);
    assert_eq!(c.next(), None);
    check(&c);
}
