//! Provide utilities for formatting.
use vstd::prelude::*;

verus! {

/// `true` for the ASCII graphic characters, `'!'` to `'~'`.
pub open spec fn is_ascii_graphic(b: u8) -> bool {
    0x21 <= b <= 0x7e
}

/// `true` for the ASCII whitespace characters: space, tab, line feed, form feed and carriage
/// return.
pub open spec fn is_ascii_whitespace(b: u8) -> bool {
    b == 0x20 || b == 0x09 || b == 0x0a || b == 0x0c || b == 0x0d
}

/// The lowercase hexadecimal digit of `d`, which is less than 16.
pub open spec fn hex_digit(d: u8) -> u8 {
    if d < 10 {
        (0x30 + d) as u8
    } else {
        (0x61 + d - 10) as u8
    }
}

/// The lowercase hexadecimal text of `b`, without leading zeros.
pub open spec fn hex_text(b: u8) -> Seq<u8> {
    if b < 16 {
        seq![hex_digit(b)]
    } else {
        seq![hex_digit(b / 16), hex_digit(b % 16)]
    }
}

/// The text that shows the byte `b`: `\r` and `\n` escaped, other ASCII graphic characters and
/// whitespace as they are, and any other byte as `\x` and its hexadecimal value.
pub open spec fn escaped(b: u8) -> Seq<u8> {
    if b == 0x0d {
        seq![0x5c, 0x72]
    } else if b == 0x0a {
        seq![0x5c, 0x6e]
    } else if is_ascii_graphic(b) || is_ascii_whitespace(b) {
        seq![b]
    } else {
        seq![0x5c, 0x78] + hex_text(b)
    }
}

/// The text that shows all the bytes of `s`, one after another.
pub open spec fn lossy_text(s: Seq<u8>) -> Seq<u8>
    decreases s.len(),
{
    if s.len() == 0 {
        Seq::empty()
    } else {
        lossy_text(s.drop_last()) + escaped(s.last())
    }
}

/// Returns the lowercase hexadecimal digit of `d`.
fn hex_digit_of(d: u8) -> (r: u8)
    requires
        d < 16,
    ensures
        r == hex_digit(d),
{
    if d < 10 {
        0x30 + d
    } else {
        0x61 + d - 10
    }
}

/// Appends the text that shows the byte `b` to `out`.
fn push_escaped(out: &mut Vec<u8>, b: u8)
    ensures
        final(out)@ == old(out)@ + escaped(b),
{
    if b == 0x0d {
        out.push(0x5c);
        out.push(0x72);
    } else if b == 0x0a {
        out.push(0x5c);
        out.push(0x6e);
    } else if (0x21 <= b && b <= 0x7e) || b == 0x20 || b == 0x09 || b == 0x0c {
        out.push(b);
    } else {
        out.push(0x5c);
        out.push(0x78);
        if b < 16 {
            out.push(hex_digit_of(b));
        } else {
            out.push(hex_digit_of(b / 16));
            out.push(hex_digit_of(b % 16));
        }
    }
    assert(out@ =~= old(out)@ + escaped(b));
}

/// The text that shows bytes with their ASCII graphic characters: `\r` and `\n` are escaped,
/// other ASCII graphic characters and whitespace are shown as they are, and any other byte is
/// shown as `\x` and its lowercase hexadecimal value.
///
/// This is what the [`Display`][std::fmt::Display] of the bytes shows.
pub fn lossy(buf: &[u8]) -> (r: Vec<u8>)
    ensures
        r@ == lossy_text(buf@),
{
    let mut out: Vec<u8> = Vec::new();
    let mut i: usize = 0;
    while i < buf.len()
        invariant
            i <= buf@.len(),
            out@ == lossy_text(buf@.take(i as int)),
        decreases buf@.len() - i,
    {
        push_escaped(&mut out, buf[i]);
        assert(buf@.take(i + 1).drop_last() =~= buf@.take(i as int));
        i = i + 1;
    }
    assert(buf@.take(i as int) =~= buf@);
    out
}

/// The text that shows bytes as a byte string literal: `b"`, the [`lossy`] text, and `"`.
///
/// This is what the [`Debug`][std::fmt::Debug] of the bytes shows.
pub fn lossy_debug(buf: &[u8]) -> (r: Vec<u8>)
    ensures
        r@ == seq![0x62u8, 0x22u8] + lossy_text(buf@) + seq![0x22u8],
{
    let mut out: Vec<u8> = Vec::new();
    out.push(0x62);
    out.push(0x22);
    let mut text = lossy(buf);
    out.append(&mut text);
    out.push(0x22);
    assert(out@ =~= seq![0x62u8, 0x22u8] + lossy_text(buf@) + seq![0x22u8]);
    out
}

/// The text of bytes one after another is the text of the first bytes followed by the text of
/// the others: each byte is shown on its own.
pub proof fn lemma_lossy_concat(a: Seq<u8>, b: Seq<u8>)
    ensures
        lossy_text(a + b) == lossy_text(a) + lossy_text(b),
    decreases b.len(),
{
    if b.len() == 0 {
        assert(a + b =~= a);
        assert(lossy_text(a) + lossy_text(b) =~= lossy_text(a));
    } else {
        lemma_lossy_concat(a, b.drop_last());
        assert((a + b).drop_last() =~= a + b.drop_last());
        assert((a + b).last() == b.last());
        assert(lossy_text(a) + lossy_text(b) =~= lossy_text(a) + lossy_text(b.drop_last())
            + escaped(b.last()));
    }
}

} // verus!
