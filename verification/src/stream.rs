//! Cutting a TCP byte stream into CORA frames, resynchronizing on the magic
//! after garbage.

use vstd::prelude::*;

use bytes::BytesMut;

use crate::cora::{frame_bytes, header_bytes, lemma_frame_roundtrip, lemma_header_roundtrip, magic_at, spec_decode, with_payload_len, CoraFrame, CoraHeader};
use crate::error::ProtocolError;

verus! {

/// The first position of the CORA magic in `b`, if any.
pub open spec fn spec_first_magic(b: Seq<u8>) -> Option<int>
    decreases b.len(),
{
    if b.len() < 4 {
        None
    } else if magic_at(b, 0) {
        Some(0)
    } else {
        match spec_first_magic(b.drop_first()) {
            Some(k) => Some(k + 1),
            None => None,
        }
    }
}

/// `spec_first_magic` finds the first occurrence of the magic, and only it.
pub proof fn lemma_first_magic(b: Seq<u8>)
    ensures
        match spec_first_magic(b) {
            Some(k) => magic_at(b, k) && forall|j: int| 0 <= j < k ==> !magic_at(b, j),
            None => forall|j: int| !magic_at(b, j),
        },
    decreases b.len(),
{
    if b.len() >= 4 && !magic_at(b, 0) {
        let t = b.drop_first();
        lemma_first_magic(t);
        assert forall|j: int| 1 <= j && #[trigger] magic_at(b, j) implies magic_at(t, j - 1) by {}
        assert forall|j: int| 0 <= j < t.len() && #[trigger] magic_at(t, j) implies magic_at(b, j + 1) by {}
    }
}

/// The next frame of a buffered stream and what stays buffered: a complete
/// frame at the start is taken; an undecodable start is skipped up to the next
/// magic (or by one byte when the magic is at the start), and everything is
/// dropped when no magic is left; an incomplete frame waits for more bytes.
pub open spec fn spec_next_frame(b: Seq<u8>) -> (Option<(CoraHeader, Seq<u8>)>, Seq<u8>)
    decreases b.len(),
{
    if b.len() == 0 {
        (None, b)
    } else {
        match spec_decode(b) {
            Ok(Some((h, n))) => (Some((h, b.subrange(16, n))), b.skip(n)),
            Ok(None) => (None, b),
            Err(_) => match spec_first_magic(b) {
                Some(k) => {
                    proof {
                        lemma_first_magic(b);
                    }
                    if k > 0 {
                        spec_next_frame(b.skip(k))
                    } else {
                        spec_next_frame(b.skip(1))
                    }
                },
                None => (None, Seq::empty()),
            },
        }
    }
}

/// The next frame in `buf`, as `spec_next_frame` says: the frame's header and
/// the start of its payload, and the number of bytes consumed (the payload ends
/// there).
pub fn next_frame_in(buf: &[u8]) -> (r: (Option<(CoraHeader, usize)>, usize))
    ensures
        r.1 <= buf@.len(),
        spec_next_frame(buf@).1 == buf@.skip(r.1 as int),
        match r.0 {
            Some((h, start)) => start <= r.1 && spec_next_frame(buf@).0 == Some(
                (h, buf@.subrange(start as int, r.1 as int)),
            ),
            None => spec_next_frame(buf@).0 is None,
        },
{
    let mut off: usize = 0;
    assert(buf@.skip(0) =~= buf@);
    while off < buf.len()
        invariant
            off <= buf@.len(),
            spec_next_frame(buf@.skip(off as int)) == spec_next_frame(buf@),
        decreases buf.len() - off,
    {
        let slice = &buf[off..buf.len()];
        assert(slice@ == buf@.skip(off as int));
        match CoraFrame::decode(slice) {
            Ok(Some((frame, consumed))) => {
                let h = frame.header;
                assert(buf@.skip(off as int).skip(consumed as int) =~= buf@.skip(off + consumed));
                assert(buf@.skip(off as int).subrange(16, consumed as int) =~= buf@.subrange(
                    off + 16,
                    off + consumed,
                ));
                return (Some((h, off + 16)), off + consumed);
            },
            Ok(None) => {
                return (None, off);
            },
            Err(_) => {
                proof {
                    lemma_first_magic(slice@);
                }
                match CoraFrame::find_magic(slice) {
                    Some(pos) => {
                        assert(spec_first_magic(slice@) == Some(pos as int));
                        let step = if pos > 0 {
                            pos
                        } else {
                            1
                        };
                        assert(buf@.skip(off as int).skip(step as int) =~= buf@.skip(off + step));
                        off = off + step;
                    },
                    None => {
                        assert(buf@.skip(buf@.len() as int) =~= Seq::<u8>::empty());
                        return (None, buf.len());
                    },
                }
            },
        }
    }
    assert(buf@.skip(off as int) =~= Seq::<u8>::empty());
    (None, off)
}

/// A buffer that starts with a complete frame yields that frame.
proof fn lemma_next_frame_decoded(b: Seq<u8>, h: CoraHeader, n: int)
    requires
        b.len() > 0,
        spec_decode(b) == Ok::<Option<(CoraHeader, int)>, ProtocolError>(Some((h, n))),
    ensures
        spec_next_frame(b) == (Some((h, b.subrange(16, n))), b.skip(n)),
{
}

/// The bytes of a frame, followed by anything, yield that frame first and keep
/// what follows.
pub proof fn lemma_next_frame_of_frame(h: CoraHeader, payload: Seq<u8>, rest: Seq<u8>)
    requires
        payload.len() < 0x1_0000_0000,
    ensures
        spec_next_frame(frame_bytes(h, payload) + rest).0 == Some(
            (with_payload_len(h, payload.len() as u32), payload),
        ),
        spec_next_frame(frame_bytes(h, payload) + rest).1 == rest,
{
    let b = frame_bytes(h, payload) + rest;
    let n = 16 + payload.len() as int;
    let h2 = with_payload_len(h, payload.len() as u32);
    lemma_frame_roundtrip(h, payload, rest);
    assert(spec_decode(b) == Ok::<Option<(CoraHeader, int)>, ProtocolError>(Some((h2, n))));
    assert(b.subrange(16, n) == payload);
    assert(b.len() > 0) by {
        assert(frame_bytes(h, payload).len() >= 16);
    }
    assert(b.skip(n) =~= rest);
    lemma_next_frame_decoded(b, h2, n);
}

/// Part of a frame waits for the rest: a stream holding only the first `k`
/// bytes of a frame yields nothing and keeps all of them.
pub proof fn lemma_partial_frame_waits(h: CoraHeader, payload: Seq<u8>, k: int)
    requires
        payload.len() < 0x1_0000_0000,
        0 <= k < 16 + payload.len(),
    ensures
        spec_next_frame(frame_bytes(h, payload).take(k)) == (
            None::<(CoraHeader, Seq<u8>)>,
            frame_bytes(h, payload).take(k),
        ),
{
    let h2 = with_payload_len(h, payload.len() as u32);
    let b = frame_bytes(h, payload).take(k);
    if k >= 16 {
        let tail = payload.take(k - 16);
        assert(b =~= header_bytes(h2) + tail);
        lemma_header_roundtrip(h2, tail);
    }
}

/// Drop the first `consumed` of the `len` bytes held at the front of a fixed
/// receive buffer: the rest moves to the front, and the number of bytes still
/// held comes back. Bytes from there on are left as they were.
pub fn drop_front(buf: &mut [u8], consumed: usize, len: usize) -> (r: usize)
    requires
        consumed <= len <= old(buf)@.len(),
    ensures
        r == len - consumed,
        final(buf)@.len() == old(buf)@.len(),
        final(buf)@.take(r as int) == old(buf)@.subrange(consumed as int, len as int),
        final(buf)@.skip(r as int) == old(buf)@.skip(r as int),
{
    let ghost b0 = buf@;
    let n = len - consumed;
    let mut i: usize = 0;
    while i < n
        invariant
            n == len - consumed,
            consumed <= len <= b0.len(),
            i <= n,
            buf@.len() == b0.len(),
            forall|j: int| 0 <= j < i ==> buf@[j] == b0[consumed + j],
            forall|j: int| i <= j < b0.len() ==> buf@[j] == b0[j],
        decreases n - i,
    {
        buf[i] = buf[consumed + i];
        i = i + 1;
    }
    assert(buf@.take(n as int) =~= b0.subrange(consumed as int, len as int));
    assert(buf@.skip(n as int) =~= b0.skip(n as int));
    n
}

#[verifier::external_type_specification]
#[verifier::external_body]
pub struct ExBytesMut(BytesMut);

/// The bytes held by a `BytesMut`.
pub uninterp spec fn bytes_mut_contents(b: BytesMut) -> Seq<u8>;

/// `BytesMut::with_capacity`: an empty buffer. It allocates through
/// `Vec::with_capacity`, which panics past `isize::MAX` bytes; `requires` rules
/// that out.
#[verifier::external_body]
fn bytes_mut_with_capacity(capacity: usize) -> (r: BytesMut)
    requires
        capacity <= isize::MAX,
    ensures
        bytes_mut_contents(r) == Seq::<u8>::empty(),
{
    BytesMut::with_capacity(capacity)
}

/// `BytesMut::extend_from_slice`: appends the bytes; it panics when the length
/// would pass `isize::MAX`, which `requires` rules out.
#[verifier::external_body]
fn bytes_mut_extend(b: &mut BytesMut, data: &[u8])
    requires
        bytes_mut_contents(*old(b)).len() + data@.len() <= isize::MAX,
    ensures
        bytes_mut_contents(*final(b)) == bytes_mut_contents(*old(b)) + data@,
{
    b.extend_from_slice(data)
}

/// `Buf::advance` on a `BytesMut`: drops the first `cnt` bytes; it panics past
/// the end, which `requires` rules out.
#[verifier::external_body]
fn bytes_mut_advance(b: &mut BytesMut, cnt: usize)
    requires
        cnt <= bytes_mut_contents(*old(b)).len(),
    ensures
        bytes_mut_contents(*final(b)) == bytes_mut_contents(*old(b)).skip(cnt as int),
{
    bytes::Buf::advance(b, cnt)
}

/// `Deref` of `BytesMut`: the bytes it holds.
#[verifier::external_body]
fn bytes_mut_slice(b: &BytesMut) -> (r: &[u8])
    ensures
        r@ == bytes_mut_contents(*b),
{
    &b[..]
}

/// The bytes received on a connection and not yet cut into frames.
pub struct FrameStream {
    buf: BytesMut,
}

impl View for FrameStream {
    type V = Seq<u8>;

    closed spec fn view(&self) -> Seq<u8> {
        bytes_mut_contents(self.buf)
    }
}

impl FrameStream {
    /// An empty stream buffer with room for `capacity` bytes.
    pub fn with_capacity(capacity: usize) -> (r: FrameStream)
        requires
            capacity <= isize::MAX,
        ensures
            r@ == Seq::<u8>::empty(),
    {
        FrameStream { buf: bytes_mut_with_capacity(capacity) }
    }

    /// The number of bytes waiting.
    pub fn len(&self) -> (r: usize)
        ensures
            r == self@.len(),
    {
        bytes_mut_slice(&self.buf).len()
    }

    /// Append received bytes.
    pub fn push(&mut self, data: &[u8])
        requires
            old(self)@.len() + data@.len() <= isize::MAX,
        ensures
            final(self)@ == old(self)@ + data@,
    {
        bytes_mut_extend(&mut self.buf, data)
    }

    /// Take the next frame out of the buffer, as `spec_next_frame` says: its
    /// header and a copy of its payload.
    pub fn next_frame(&mut self) -> (r: Option<(CoraHeader, Vec<u8>)>)
        ensures
            final(self)@ == spec_next_frame(old(self)@).1,
            match r {
                Some((h, p)) => spec_next_frame(old(self)@).0 == Some((h, p@)),
                None => spec_next_frame(old(self)@).0 is None,
            },
    {
        let slice = bytes_mut_slice(&self.buf);
        let (found, consumed) = next_frame_in(slice);
        let result = match found {
            Some((h, start)) => Some((h, vstd::slice::slice_to_vec(&slice[start..consumed]))),
            None => None,
        };
        bytes_mut_advance(&mut self.buf, consumed);
        result
    }
}

} // verus!
