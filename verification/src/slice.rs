//! Raw bytes utilities: a cursor with byte search.
use vstd::prelude::*;
pub use crate::bytes::{range_of, slice_of, slice_of_bytes, slice_of_bytes_mut};

verus! {

/// `true` when `i` is the index of the first occurrence of `byte` in `s`.
pub open spec fn is_first_index(s: Seq<u8>, byte: u8, i: int) -> bool {
    0 <= i < s.len() && s[i] == byte && forall|j: int| 0 <= j < i ==> s[j] != byte
}

/// Index of the first occurrence of `byte` in `s`, if any.
pub open spec fn spec_find(s: Seq<u8>, byte: u8) -> Option<nat> {
    if exists|i: int| is_first_index(s, byte, i) {
        Some((choose|i: int| is_first_index(s, byte, i)) as nat)
    } else {
        None
    }
}

/// The first index of a byte is the one that [`spec_find`] gives.
pub proof fn lemma_spec_find_some(s: Seq<u8>, byte: u8, i: int)
    requires
        is_first_index(s, byte, i),
    ensures
        spec_find(s, byte) == Some(i as nat),
{
    let k = choose|k: int| is_first_index(s, byte, k);
    assert(is_first_index(s, byte, k));
    if k < i {
        assert(s[k] != byte);
    } else if i < k {
        assert(s[i] != byte);
    }
}

/// Without any occurrence of a byte, [`spec_find`] gives `None`.
pub proof fn lemma_spec_find_none(s: Seq<u8>, byte: u8)
    requires
        forall|j: int| 0 <= j < s.len() ==> s[j] != byte,
    ensures
        spec_find(s, byte) is None,
{
}

/// An index that [`spec_find`] gives is within the bytes.
pub proof fn lemma_spec_find_within(s: Seq<u8>, byte: u8)
    ensures
        spec_find(s, byte) matches Some(i) ==> i < s.len() && s[i as int] == byte,
{
    if exists|i: int| is_first_index(s, byte, i) {
        let k = choose|k: int| is_first_index(s, byte, k);
        assert(is_first_index(s, byte, k));
    }
}

/// The low seven bits of every byte of a word.
pub const LOW_BITS: u64 = 0x7f7f_7f7f_7f7f_7f7f;

/// The word of eight bytes, the first byte in the lowest bits.
pub open spec fn word_of(b0: u8, b1: u8, b2: u8, b3: u8, b4: u8, b5: u8, b6: u8, b7: u8) -> u64 {
    (b0 as u64) | ((b1 as u64) << 8u64) | ((b2 as u64) << 16u64) | ((b3 as u64) << 24u64) | ((
    b4 as u64) << 32u64) | ((b5 as u64) << 40u64) | ((b6 as u64) << 48u64) | ((b7 as u64)
        << 56u64)
}

/// The word whose eight bytes are all `byte`.
pub open spec fn splat(byte: u8) -> u64 {
    word_of(byte, byte, byte, byte, byte, byte, byte, byte)
}

/// The high bit of each byte of the result is set exactly where that byte of `y` is zero.
pub open spec fn zero_bytes(y: u64) -> u64 {
    !((((y & LOW_BITS) + LOW_BITS) as u64) | y | LOW_BITS)
}

/// A word in which no byte equals `byte` has no zero byte once `byte` is xor-ed out of it.
proof fn lemma_word_search(b0: u8, b1: u8, b2: u8, b3: u8, b4: u8, b5: u8, b6: u8, b7: u8, c: u8)
    by (bit_vector)
    ensures
        (word_of(b0, b1, b2, b3, b4, b5, b6, b7) ^ splat(c)) & LOW_BITS <= LOW_BITS,
        zero_bytes(word_of(b0, b1, b2, b3, b4, b5, b6, b7) ^ splat(c)) == 0 ==> b0 != c && b1 != c
            && b2 != c && b3 != c && b4 != c && b5 != c && b6 != c && b7 != c,
{
}

/// Returns the index of the first occurrence of `byte` in `value`.
///
/// Eight bytes at a time are compared at once, as one word: a word in which no byte is `byte` is
/// skipped whole, and the bytes from the first other word on are compared one by one.
pub fn find(value: &[u8], byte: u8) -> (r: Option<usize>)
    ensures
        r matches Some(i) ==> is_first_index(value@, byte, i as int),
        r is None ==> forall|j: int| 0 <= j < value@.len() ==> value@[j] != byte,
{
    let len = value.len();
    let c = byte as u64;
    let target: u64 = c | (c << 8u64) | (c << 16u64) | (c << 24u64) | (c << 32u64) | (c << 40u64)
        | (c << 48u64) | (c << 56u64);
    assert(target == splat(byte));
    let mut i: usize = 0;
    while len - i >= 8
        invariant
            len == value@.len(),
            target == splat(byte),
            0 <= i <= len,
            forall|j: int| 0 <= j < i ==> value@[j] != byte,
        decreases len - i,
    {
        let x: u64 = (value[i] as u64) | ((value[i + 1] as u64) << 8u64) | ((value[i + 2] as u64)
            << 16u64) | ((value[i + 3] as u64) << 24u64) | ((value[i + 4] as u64) << 32u64) | ((
        value[i + 5] as u64) << 40u64) | ((value[i + 6] as u64) << 48u64) | ((value[i + 7] as u64)
            << 56u64);
        let ghost w = word_of(
            value@[i as int],
            value@[i + 1],
            value@[i + 2],
            value@[i + 3],
            value@[i + 4],
            value@[i + 5],
            value@[i + 6],
            value@[i + 7],
        );
        assert(x == w);
        proof {
            lemma_word_search(
                value@[i as int],
                value@[i + 1],
                value@[i + 2],
                value@[i + 3],
                value@[i + 4],
                value@[i + 5],
                value@[i + 6],
                value@[i + 7],
                byte,
            );
        }
        let y = x ^ target;
        let mask = !(((y & LOW_BITS) + LOW_BITS) | y | LOW_BITS);
        if mask != 0 {
            break;
        }
        assert(zero_bytes(y) == 0);
        i = i + 8;
    }
    while i < len
        invariant
            len == value@.len(),
            0 <= i <= len,
            forall|j: int| 0 <= j < i ==> value@[j] != byte,
        decreases len - i,
    {
        if value[i] == byte {
            return Some(i);
        }
        i = i + 1;
    }
    None
}

/// An operation of a [`Cursor`] that moves it, with its argument.
pub enum CursorOp {
    /// [`Cursor::next`].
    Next,
    /// [`Cursor::next_chunk`] of `N` bytes.
    NextChunk(nat),
    /// [`Cursor::next_find`] of a byte.
    NextFind(u8),
    /// [`Cursor::next_until`] of a byte.
    NextUntil(u8),
    /// [`Cursor::next_split`] of a byte.
    NextSplit(u8),
    /// [`Cursor::advance`] by a number of bytes.
    Advance(nat),
    /// [`Cursor::step_back`] by a number of bytes.
    StepBack(nat),
}

/// `true` when a cursor `steps` bytes into `original` accepts `op`: it neither advances past
/// the end nor steps back before the beginning.
pub open spec fn op_allowed(original: Seq<u8>, steps: nat, op: CursorOp) -> bool {
    match op {
        CursorOp::Advance(n) => steps + n <= original.len(),
        CursorOp::StepBack(n) => n <= steps,
        _ => true,
    }
}

/// Where a cursor `steps` bytes into `original` stands after `op`.
pub open spec fn step_after(original: Seq<u8>, steps: nat, op: CursorOp) -> nat {
    let rest = original.skip(steps as int);
    match op {
        CursorOp::Next => if rest.len() > 0 {
            steps + 1
        } else {
            steps
        },
        CursorOp::NextChunk(n) => if n <= rest.len() {
            steps + n
        } else {
            steps
        },
        CursorOp::NextFind(byte) => match spec_find(rest, byte) {
            Some(i) => steps + i,
            None => steps,
        },
        CursorOp::NextUntil(byte) => match spec_find(rest, byte) {
            Some(i) => steps + i + 1,
            None => steps,
        },
        CursorOp::NextSplit(byte) => match spec_find(rest, byte) {
            Some(i) => steps + i + 1,
            None => steps,
        },
        CursorOp::Advance(n) => steps + n,
        CursorOp::StepBack(n) => (steps - n) as nat,
    }
}

/// Where a cursor `steps` bytes into `original` stands after the operations `ops` in order, or
/// `None` where one of them is not accepted.
pub open spec fn steps_after(original: Seq<u8>, steps: nat, ops: Seq<CursorOp>) -> Option<nat>
    decreases ops.len(),
{
    if ops.len() == 0 {
        Some(steps)
    } else if !op_allowed(original, steps, ops[0]) {
        None
    } else {
        steps_after(original, step_after(original, steps, ops[0]), ops.skip(1))
    }
}

/// After any sequence of operations that a cursor accepts, it still stands within its bytes: the
/// bytes it has stepped over and the bytes that remain add up to the original bytes.
pub proof fn lemma_steps_after_within(original: Seq<u8>, steps: nat, ops: Seq<CursorOp>)
    requires
        steps <= original.len(),
    ensures
        steps_after(original, steps, ops) matches Some(s) ==> s <= original.len() && s + original.skip(
            s as int,
        ).len() == original.len() && original.take(s as int) + original.skip(s as int) == original,
    decreases ops.len(),
{
    if ops.len() == 0 {
        assert(original.take(steps as int) + original.skip(steps as int) =~= original);
    } else if op_allowed(original, steps, ops[0]) {
        lemma_spec_find_within(original.skip(steps as int), ops[0]->NextFind_0);
        lemma_spec_find_within(original.skip(steps as int), ops[0]->NextUntil_0);
        lemma_spec_find_within(original.skip(steps as int), ops[0]->NextSplit_0);
        lemma_steps_after_within(original, step_after(original, steps, ops[0]), ops.skip(1));
    }
}

/// Raw bytes cursor.
///
/// Provides an API for bytes reading; the `peek*` and `next*` methods never read out of bounds.
#[derive(Debug)]
pub struct Cursor<'a> {
    buf: &'a [u8],
    cursor: usize,
}

impl<'a> Cursor<'a> {
    /// The well-formedness of a cursor: the cursor is within the bytes.
    pub closed spec fn wf(&self) -> bool {
        self.cursor <= self.buf@.len() <= usize::MAX
    }

    /// The bytes the cursor was created with.
    pub closed spec fn original_view(&self) -> Seq<u8> {
        self.buf@
    }

    /// How many bytes the cursor has stepped forward.
    pub closed spec fn steps_view(&self) -> nat {
        self.cursor as nat
    }

    /// The bytes from the cursor to the end.
    pub open spec fn rest_view(&self) -> Seq<u8> {
        self.original_view().skip(self.steps_view() as int)
    }

    /// A well-formed cursor never stands past the end.
    pub proof fn lemma_wf(&self)
        requires
            self.wf(),
        ensures
            self.steps_view() <= self.original_view().len(),
    {
    }

    /// Create new [`Cursor`] from an initialized buffer.
    pub fn new(buf: &'a [u8]) -> (c: Self)
        ensures
            c.wf(),
            c.original_view() == buf@,
            c.steps_view() == 0,
    {
        assert(buf@.len() == buf.len());
        Cursor { buf, cursor: 0 }
    }

    /// Returns how many [`Cursor`] has stepped forward.
    pub fn steps(&self) -> (n: usize)
        requires
            self.wf(),
        ensures
            n == self.steps_view(),
    {
        self.cursor
    }

    /// Returns the remaining bytes length.
    pub fn remaining(&self) -> (n: usize)
        requires
            self.wf(),
        ensures
            n == self.original_view().len() - self.steps_view(),
    {
        self.buf.len() - self.cursor
    }

    /// Returns `true` if there is more bytes left.
    pub fn has_remaining(&self) -> (b: bool)
        requires
            self.wf(),
        ensures
            b == (self.steps_view() < self.original_view().len()),
    {
        self.cursor < self.buf.len()
    }

    /// Returns the original bytes.
    pub fn original(&self) -> (s: &'a [u8])
        requires
            self.wf(),
        ensures
            s@ == self.original_view(),
    {
        self.buf
    }

    /// Returns the remaining bytes.
    pub fn as_bytes(&self) -> (s: &'a [u8])
        requires
            self.wf(),
        ensures
            s@ == self.rest_view(),
    {
        let buf: &'a [u8] = self.buf;
        let s = &buf[self.cursor..buf.len()];
        assert(s@ =~= self.rest_view());
        s
    }

    // ===== Operations =====

    /// Try get the first byte without advancing cursor.
    pub fn peek(&self) -> (r: Option<u8>)
        requires
            self.wf(),
        ensures
            self.rest_view().len() > 0 ==> r == Some(self.rest_view()[0]),
            self.rest_view().len() == 0 ==> r is None,
    {
        if self.cursor < self.buf.len() {
            Some(self.buf[self.cursor])
        } else {
            None
        }
    }

    /// Try get the first `N`-th bytes without advancing cursor.
    pub fn peek_chunk<const N: usize>(&self) -> (r: Option<&'a [u8; N]>)
        requires
            self.wf(),
        ensures
            N <= self.rest_view().len() ==> (r matches Some(a) && a@ == self.rest_view().take(
                N as int,
            )),
            N > self.rest_view().len() ==> r is None,
    {
        let rest = self.as_bytes();
        let r = rest.first_chunk::<N>();
        proof {
            if N <= self.rest_view().len() {
                assert(rest@.subrange(0, N as int) =~= self.rest_view().take(N as int));
            }
        }
        r
    }

    /// Try get the first byte and advance the cursor by `1`.
    pub fn next(&mut self) -> (r: Option<u8>)
        requires
            old(self).wf(),
        ensures
            final(self).steps_view() == step_after(old(self).original_view(), old(self).steps_view(), CursorOp::Next),
            final(self).wf(),
            final(self).original_view() == old(self).original_view(),
            old(self).rest_view().len() > 0 ==> r == Some(old(self).rest_view()[0])
                && final(self).steps_view() == old(self).steps_view() + 1,
            old(self).rest_view().len() == 0 ==> r is None && final(self).steps_view()
                == old(self).steps_view(),
    {
        if self.cursor < self.buf.len() {
            let val = self.buf[self.cursor];
            self.cursor = self.cursor + 1;
            Some(val)
        } else {
            None
        }
    }

    /// Try get the first `N`-th bytes and advance the cursor by `N`.
    pub fn next_chunk<const N: usize>(&mut self) -> (r: Option<&'a [u8; N]>)
        requires
            old(self).wf(),
        ensures
            final(self).steps_view() == step_after(old(self).original_view(), old(self).steps_view(), CursorOp::NextChunk(N as nat)),
            final(self).wf(),
            final(self).original_view() == old(self).original_view(),
            N <= old(self).rest_view().len() ==> (r matches Some(a) && a@ == old(
                self,
            ).rest_view().take(N as int)) && final(self).steps_view() == old(self).steps_view()
                + N,
            N > old(self).rest_view().len() ==> r is None && final(self).steps_view() == old(
                self,
            ).steps_view(),
    {
        let r = self.peek_chunk::<N>();
        if r.is_some() {
            self.cursor = self.cursor + N;
        }
        r
    }

    /// Returns chunk until the first found `byte`, and advance cursor to `byte`.
    ///
    /// The returned chunk will excludes `byte`, and current cursor still contains `byte`.
    ///
    /// If `byte` is not found, returns `None`, and cursor is not advanced.
    pub fn next_find(&mut self, byte: u8) -> (r: Option<&'a [u8]>)
        requires
            old(self).wf(),
        ensures
            final(self).steps_view() == step_after(old(self).original_view(), old(self).steps_view(), CursorOp::NextFind(byte)),
            final(self).wf(),
            final(self).original_view() == old(self).original_view(),
            r matches Some(chunk) ==> is_first_index(old(self).rest_view(), byte, chunk@.len() as int)
                && chunk@ == old(self).rest_view().take(chunk@.len() as int)
                && final(self).steps_view() == old(self).steps_view() + chunk@.len(),
            r is None ==> (forall|j: int| 0 <= j < old(self).rest_view().len() ==> old(self).rest_view()[j] != byte)
                && final(self).steps_view() == old(self).steps_view(),
    {
        let rest = self.as_bytes();
        match find(rest, byte) {
            Some(n) => {
                proof {
                    lemma_spec_find_some(rest@, byte, n as int);
                }
                let chunk = &rest[0..n];
                assert(chunk@ =~= rest@.take(n as int));
                self.cursor = self.cursor + n;
                Some(chunk)
            },
            None => {
                proof {
                    lemma_spec_find_none(rest@, byte);
                }
                None
            },
        }
    }

    /// Returns chunk to the first found `byte`, and advance cursor past `byte`.
    ///
    /// The returned chunk will include the `byte`, and current cursor will not contains `byte`.
    ///
    /// If `byte` is not found, returns `None`, and cursor is not advanced.
    pub fn next_until(&mut self, byte: u8) -> (r: Option<&'a [u8]>)
        requires
            old(self).wf(),
        ensures
            final(self).steps_view() == step_after(old(self).original_view(), old(self).steps_view(), CursorOp::NextUntil(byte)),
            final(self).wf(),
            final(self).original_view() == old(self).original_view(),
            r matches Some(chunk) ==> chunk@.len() > 0 && is_first_index(old(self).rest_view(), byte, chunk@.len() - 1)
                && chunk@ == old(self).rest_view().take(chunk@.len() as int)
                && final(self).steps_view() == old(self).steps_view() + chunk@.len(),
            r is None ==> (forall|j: int| 0 <= j < old(self).rest_view().len() ==> old(self).rest_view()[j] != byte)
                && final(self).steps_view() == old(self).steps_view(),
    {
        let rest = self.as_bytes();
        match find(rest, byte) {
            Some(n) => {
                proof {
                    lemma_spec_find_some(rest@, byte, n as int);
                }
                let chunk = &rest[0..n + 1];
                assert(chunk@ =~= rest@.take(n + 1));
                self.cursor = self.cursor + n + 1;
                Some(chunk)
            },
            None => {
                proof {
                    lemma_spec_find_none(rest@, byte);
                }
                None
            },
        }
    }

    /// Returns chunk until the first found `byte`, and advance cursor past `byte`.
    ///
    /// The returned chunk will excludes the `byte`, and current cursor will not contains `byte`.
    ///
    /// If `byte` is not found, returns `None`, and cursor is not advanced.
    pub fn next_split(&mut self, byte: u8) -> (r: Option<&'a [u8]>)
        requires
            old(self).wf(),
        ensures
            final(self).steps_view() == step_after(old(self).original_view(), old(self).steps_view(), CursorOp::NextSplit(byte)),
            final(self).wf(),
            final(self).original_view() == old(self).original_view(),
            r matches Some(chunk) ==> is_first_index(old(self).rest_view(), byte, chunk@.len() as int)
                && chunk@ == old(self).rest_view().take(chunk@.len() as int)
                && final(self).steps_view() == old(self).steps_view() + chunk@.len() + 1,
            r is None ==> (forall|j: int| 0 <= j < old(self).rest_view().len() ==> old(self).rest_view()[j] != byte)
                && final(self).steps_view() == old(self).steps_view(),
    {
        let rest = self.as_bytes();
        match find(rest, byte) {
            Some(n) => {
                proof {
                    lemma_spec_find_some(rest@, byte, n as int);
                }
                let chunk = &rest[0..n];
                assert(chunk@ =~= rest@.take(n as int));
                self.cursor = self.cursor + n + 1;
                Some(chunk)
            },
            None => {
                proof {
                    lemma_spec_find_none(rest@, byte);
                }
                None
            },
        }
    }

    /// Advance cursor, discarding the first `n`-th bytes.
    ///
    /// Must not advance pass slice length.
    pub fn advance(&mut self, n: usize)
        requires
            old(self).wf(),
            n <= old(self).rest_view().len(),
        ensures
            final(self).steps_view() == step_after(old(self).original_view(), old(self).steps_view(), CursorOp::Advance(n as nat)),
            final(self).wf(),
            final(self).original_view() == old(self).original_view(),
            final(self).steps_view() == old(self).steps_view() + n,
    {
        self.cursor = self.cursor + n;
    }

    /// Move cursor backwards.
    ///
    /// Must not step back pass the first slice element.
    pub fn step_back(&mut self, n: usize)
        requires
            old(self).wf(),
            n <= old(self).steps_view(),
        ensures
            final(self).steps_view() == step_after(old(self).original_view(), old(self).steps_view(), CursorOp::StepBack(n as nat)),
            final(self).wf(),
            final(self).original_view() == old(self).original_view(),
            final(self).steps_view() == old(self).steps_view() - n,
    {
        self.cursor = self.cursor - n;
    }
}

} // verus!
