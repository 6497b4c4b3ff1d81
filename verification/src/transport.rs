//! Length-prefixed framing over the driver process's standard streams.
//!
//! A wire frame is a 4-byte little-endian length prefix followed by that many
//! bytes of UTF-8 JSON. The reader side keeps a growable buffer of raw bytes
//! and slices complete frames out of it; the writer side prepends the prefix.

use vstd::prelude::*;

verus! {

/// The little-endian 32-bit value held by the first four bytes of `b`.
pub open spec fn le32_value(b: Seq<u8>) -> int
    recommends
        b.len() >= 4,
{
    b[0] + 0x100 * (b[1] + 0x100 * (b[2] + 0x100 * b[3]))
}

/// The four little-endian bytes of a 32-bit value.
pub open spec fn le32_bytes(n: int) -> Seq<u8>
    recommends
        0 <= n <= u32::MAX,
{
    seq![
        (n % 0x100) as u8,
        ((n / 0x100) % 0x100) as u8,
        ((n / 0x10000) % 0x100) as u8,
        ((n / 0x1000000) % 0x100) as u8,
    ]
}

/// A byte sequence begins with a complete frame: the prefix is there and the
/// buffer holds at least as many payload bytes as the prefix announces.
pub open spec fn holds_frame(s: Seq<u8>) -> bool {
    s.len() >= 4 && s.len() >= 4 + le32_value(s)
}

/// The payload of the first complete frame of `s`.
pub open spec fn frame_payload(s: Seq<u8>) -> Seq<u8>
    recommends
        holds_frame(s),
{
    s.subrange(4, 4 + le32_value(s))
}

/// The bytes left after slicing the first complete frame out of `s`.
pub open spec fn frame_rest(s: Seq<u8>) -> Seq<u8>
    recommends
        holds_frame(s),
{
    s.subrange(4 + le32_value(s), s.len() as int)
}

/// A complete frame on the wire: prefix then payload.
pub open spec fn framed(payload: Seq<u8>) -> Seq<u8>
    recommends
        payload.len() <= u32::MAX,
{
    le32_bytes(payload.len() as int) + payload
}

proof fn lemma_le32_round_trip(n: int)
    requires
        0 <= n <= u32::MAX,
    ensures
        le32_value(le32_bytes(n)) == n,
{
    let b = le32_bytes(n);
    assert(b[0] == n % 0x100);
    assert(le32_value(b) == n % 0x100 + 0x100 * ((n / 0x100) % 0x100 + 0x100 * ((n / 0x10000)
        % 0x100 + 0x100 * ((n / 0x1000000) % 0x100))));
    assert(n == 0x100 * (n / 0x100) + n % 0x100) by (nonlinear_arith);
    assert(n / 0x100 == 0x100 * (n / 0x100 / 0x100) + (n / 0x100) % 0x100) by (nonlinear_arith);
    assert(n / 0x100 / 0x100 == n / 0x10000) by (nonlinear_arith);
    assert(n / 0x10000 == 0x100 * (n / 0x10000 / 0x100) + (n / 0x10000) % 0x100)
        by (nonlinear_arith);
    assert(n / 0x10000 / 0x100 == n / 0x1000000) by (nonlinear_arith);
    assert((n / 0x1000000) % 0x100 == n / 0x1000000) by (nonlinear_arith)
        requires
            0 <= n <= u32::MAX,
    ;
}

/// Encode a 32-bit length as its four little-endian prefix bytes.
pub fn encode_le32(n: u32) -> (r: Vec<u8>)
    ensures
        r@ == le32_bytes(n as int),
        r@.len() == 4,
{
    let mut r: Vec<u8> = Vec::new();
    r.push((n % 0x100) as u8);
    r.push(((n / 0x100) % 0x100) as u8);
    r.push(((n / 0x10000) % 0x100) as u8);
    r.push(((n / 0x1000000) % 0x100) as u8);
    proof {
        assert(r@ =~= le32_bytes(n as int));
    }
    r
}

/// Read the 32-bit little-endian value held by four bytes.
pub fn decode_le32(b0: u8, b1: u8, b2: u8, b3: u8) -> (r: u32)
    ensures
        r == b0 + 0x100 * (b1 + 0x100 * (b2 + 0x100 * b3)),
{
    b0 as u32 + 0x100 * (b1 as u32) + 0x10000 * (b2 as u32) + 0x1000000 * (b3 as u32)
}

/// Prefix a payload with its little-endian length, yielding one wire frame.
pub fn encode_frame(payload: &Vec<u8>) -> (r: Vec<u8>)
    requires
        payload@.len() <= u32::MAX,
    ensures
        r@ == framed(payload@),
        holds_frame(r@),
        frame_payload(r@) == payload@,
        frame_rest(r@) == Seq::<u8>::empty(),
{
    let n: u32 = payload.len() as u32;
    let mut r = encode_le32(n);
    let mut i: usize = 0;
    while i < payload.len()
        invariant
            i <= payload@.len(),
            payload@.len() <= u32::MAX,
            r@ == le32_bytes(payload@.len() as int) + payload@.subrange(0, i as int),
        decreases payload@.len() - i,
    {
        r.push(payload[i]);
        i += 1;
        proof {
            assert(payload@.subrange(0, i as int) =~= payload@.subrange(0, i - 1) + seq![
                payload@[i - 1],
            ]);
            assert(r@ =~= le32_bytes(payload@.len() as int) + payload@.subrange(0, i as int));
        }
    }
    proof {
        assert(payload@.subrange(0, payload@.len() as int) =~= payload@);
        lemma_le32_round_trip(payload@.len() as int);
        assert(r@.subrange(0, 4) =~= le32_bytes(payload@.len() as int));
        assert(le32_value(r@) == le32_value(le32_bytes(payload@.len() as int)));
        assert(frame_payload(r@) =~= payload@);
        assert(frame_rest(r@) =~= Seq::<u8>::empty());
    }
    r
}

/// The reader-side buffer: raw bytes from the driver's output stream go in,
/// complete frame payloads come out in wire order.
pub struct FrameBuffer {
    buf: Vec<u8>,
}

impl View for FrameBuffer {
    type V = Seq<u8>;

    closed spec fn view(&self) -> Seq<u8> {
        self.buf@
    }
}

impl FrameBuffer {
    /// An empty reader buffer.
    pub fn new() -> (r: FrameBuffer)
        ensures
            r@ == Seq::<u8>::empty(),
    {
        FrameBuffer { buf: Vec::new() }
    }

    /// Append the bytes of one bounded read to the buffer.
    pub fn push_chunk(&mut self, chunk: &[u8])
        ensures
            final(self)@ == old(self)@ + chunk@,
    {
        let mut i: usize = 0;
        while i < chunk.len()
            invariant
                i <= chunk@.len(),
                self.buf@ == old(self)@ + chunk@.subrange(0, i as int),
            decreases chunk@.len() - i,
        {
            self.buf.push(chunk[i]);
            i += 1;
            proof {
                assert(chunk@.subrange(0, i as int) =~= chunk@.subrange(0, i - 1) + seq![
                    chunk@[i - 1],
                ]);
                assert(self.buf@ =~= old(self)@ + chunk@.subrange(0, i as int));
            }
        }
        proof {
            assert(chunk@.subrange(0, chunk@.len() as int) =~= chunk@);
        }
    }

    /// How many bytes are waiting in the buffer.
    pub fn len(&self) -> (r: usize)
        ensures
            r == self@.len(),
    {
        self.buf.len()
    }

    /// Slice the first complete frame's payload out of the buffer, or report
    /// that no complete frame has arrived yet and leave the buffer unchanged.
    pub fn take_frame(&mut self) -> (r: Option<Vec<u8>>)
        ensures
            holds_frame(old(self)@) ==> (r matches Some(p) && p@ == frame_payload(old(self)@)
                && final(self)@ == frame_rest(old(self)@)),
            !holds_frame(old(self)@) ==> r is None && final(self)@ == old(self)@,
    {
        if self.buf.len() < 4 {
            return None;
        }
        let n: u32 = decode_le32(self.buf[0], self.buf[1], self.buf[2], self.buf[3]);
        proof {
            assert(le32_value(self@) == n);
        }
        let len: usize = n as usize;
        if self.buf.len() - 4 < len {
            proof {
                assert(!holds_frame(self@));
            }
            return None;
        }
        let end: usize = len + 4;
        let mut payload: Vec<u8> = Vec::new();
        let mut i: usize = 4;
        while i < end
            invariant
                4 <= i <= end,
                end == 4 + len,
                4 + len <= self.buf@.len(),
                len == le32_value(self.buf@),
                payload@ == self.buf@.subrange(4, i as int),
            decreases 4 + len - i,
        {
            payload.push(self.buf[i]);
            i += 1;
            proof {
                assert(self.buf@.subrange(4, i as int) =~= self.buf@.subrange(4, i - 1) + seq![
                    self.buf@[i - 1],
                ]);
                assert(payload@ =~= self.buf@.subrange(4, i as int));
            }
        }
        let mut rest: Vec<u8> = Vec::new();
        let mut j: usize = end;
        while j < self.buf.len()
            invariant
                4 + len <= j <= self.buf@.len(),
                len == le32_value(self.buf@),
                rest@ == self.buf@.subrange(4 + len as int, j as int),
            decreases self.buf@.len() - j,
        {
            rest.push(self.buf[j]);
            j += 1;
            proof {
                assert(self.buf@.subrange(4 + len as int, j as int) =~= self.buf@.subrange(
                    4 + len as int,
                    j - 1,
                ) + seq![self.buf@[j - 1]]);
                assert(rest@ =~= self.buf@.subrange(4 + len as int, j as int));
            }
        }
        proof {
            assert(payload@ =~= frame_payload(old(self)@));
            assert(rest@ =~= frame_rest(old(self)@));
        }
        self.buf = rest;
        Some(payload)
    }
}

/// Feeding one encoded frame to an empty reader buffer hands back exactly the
/// payload that was framed, and leaves the buffer empty: what the writer side
/// frames, the reader side recovers unchanged.
pub proof fn lemma_frame_round_trip(payload: Seq<u8>)
    requires
        payload.len() <= u32::MAX,
    ensures
        holds_frame(framed(payload)),
        frame_payload(framed(payload)) == payload,
        frame_rest(framed(payload)) == Seq::<u8>::empty(),
{
    let s = framed(payload);
    lemma_le32_round_trip(payload.len() as int);
    assert(s.subrange(0, 4) =~= le32_bytes(payload.len() as int));
    assert(s[0] == le32_bytes(payload.len() as int)[0]);
    assert(s[1] == le32_bytes(payload.len() as int)[1]);
    assert(s[2] == le32_bytes(payload.len() as int)[2]);
    assert(s[3] == le32_bytes(payload.len() as int)[3]);
    assert(le32_value(s) == payload.len());
    assert(frame_payload(s) =~= payload);
    assert(frame_rest(s) =~= Seq::<u8>::empty());
}

} // verus!
