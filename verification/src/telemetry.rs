use vstd::prelude::*;
use crate::orientation::{
    lemma_orientation_roundtrip, orientation_bytes, orientation_from_bytes, F32Bits,
    SpatialOrientation, BUFF_SIZE,
};

verus! {

/// The byte that ends an orientation frame on the telemetry link.
pub const EOT: u8 = 4;

/// Bytes read from the link at a time.
pub const CHUNK_SIZE: usize = 16;

/// Size of the receive buffer in which chunks are gathered.
pub const BUF_SIZE: usize = 40;

/// Index of the last `EOT` in `s`, or -1 when `s` holds none.
pub open spec fn last_eot(s: Seq<u8>) -> int
    decreases s.len(),
{
    if s.len() == 0 {
        -1
    } else if s.last() == EOT {
        s.len() - 1
    } else {
        last_eot(s.drop_last())
    }
}

/// What follows the last `EOT` in `s`: the last of the pieces that splitting
/// `s` at each `EOT` gives (all of `s` when it holds no `EOT`).
pub open spec fn last_piece(s: Seq<u8>) -> Seq<u8> {
    s.subrange(last_eot(s) + 1, s.len() as int)
}

/// Where the next chunk goes: behind what the buffer holds, or at the start
/// when a whole chunk would not fit behind it.
pub open spec fn chunk_start(filled: int) -> int {
    if filled + CHUNK_SIZE >= BUF_SIZE {
        0
    } else {
        filled
    }
}

/// The buffer once a chunk is written at `chunk_start(filled)`.
pub open spec fn buffer_after(buf: Seq<u8>, filled: int, chunk: Seq<u8>) -> Seq<u8> {
    let start = chunk_start(filled);
    buf.subrange(0, start) + chunk + buf.subrange(start + CHUNK_SIZE, BUF_SIZE as int)
}

/// The orientation a reader shows once the buffer holds `held`: the one the
/// last piece stands for when that piece is exactly one orientation long,
/// else the one it showed before.
pub open spec fn reading_after(held: Seq<u8>, before: SpatialOrientation) -> SpatialOrientation {
    if last_piece(held).len() == BUFF_SIZE {
        orientation_from_bytes(last_piece(held))
    } else {
        before
    }
}

/// Gathers the orientation frames that the board sends over the telemetry
/// link, chunk by chunk, and keeps the last orientation read.
pub struct TelemetryReader {
    buf: [u8; BUF_SIZE],
    idx: usize,
    last_read: SpatialOrientation,
}

impl TelemetryReader {
    #[verifier::type_invariant]
    spec fn inv(self) -> bool {
        self.idx < BUF_SIZE
    }

    /// The bytes of the receive buffer.
    pub closed spec fn buffer(self) -> Seq<u8> {
        self.buf@
    }

    /// How many bytes at the start of the buffer have been received.
    pub closed spec fn filled(self) -> int {
        self.idx as int
    }

    /// The last orientation read.
    pub closed spec fn last_read(self) -> SpatialOrientation {
        self.last_read
    }

    /// A reader with an empty, zeroed buffer that shows a level orientation.
    pub fn new() -> (r: TelemetryReader)
        ensures
            r.buffer() == Seq::new(BUF_SIZE as nat, |i: int| 0u8),
            r.filled() == 0,
            r.last_read() == (SpatialOrientation {
                pitch: F32Bits { bits: 0 },
                roll: F32Bits { bits: 0 },
            }),
    {
        let r = TelemetryReader {
            buf: [0u8; BUF_SIZE],
            idx: 0,
            last_read: SpatialOrientation { pitch: F32Bits::zero(), roll: F32Bits::zero() },
        };
        assert(r.buf@ =~= Seq::new(BUF_SIZE as nat, |i: int| 0u8));
        r
    }

    /// Takes a chunk of which the first `read_len` bytes were read from the
    /// link. The whole chunk is written at `chunk_start` of what the buffer
    /// held, the buffer then holds `read_len` bytes behind that start, and
    /// the returned orientation is the last one read.
    pub fn receive(&mut self, chunk: &[u8; CHUNK_SIZE], read_len: usize) -> (r: SpatialOrientation)
        requires
            read_len <= CHUNK_SIZE,
        ensures
            final(self).buffer() == buffer_after(old(self).buffer(), old(self).filled(), chunk@),
            final(self).filled() == chunk_start(old(self).filled()) + read_len,
            final(self).filled() < BUF_SIZE,
            final(self).buffer().len() == BUF_SIZE,
            final(self).last_read() == reading_after(
                final(self).buffer().subrange(0, final(self).filled()),
                old(self).last_read(),
            ),
            r == final(self).last_read(),
    {
        proof {
            use_type_invariant(&*self);
        }
        let start: usize = if self.idx + CHUNK_SIZE >= BUF_SIZE {
            0
        } else {
            self.idx
        };
        let mut buf = self.buf;
        let mut k: usize = 0;
        while k < CHUNK_SIZE
            invariant
                k <= CHUNK_SIZE,
                start + CHUNK_SIZE <= BUF_SIZE,
                buf@.len() == BUF_SIZE,
                forall|i: int| 0 <= i < start ==> buf@[i] == old(self).buf@[i],
                forall|i: int| start <= i < start + k ==> buf@[i] == chunk@[i - start],
                forall|i: int| start + CHUNK_SIZE <= i < BUF_SIZE ==> buf@[i] == old(self).buf@[i],
            decreases CHUNK_SIZE - k,
        {
            buf[start + k] = chunk[k];
            k = k + 1;
        }
        assert(buf@ =~= buffer_after(old(self).buf@, old(self).idx as int, chunk@));
        let filled = start + read_len;
        let from = after_last_eot(&buf, filled);
        proof {
            lemma_last_eot_bounds(buf@.subrange(0, filled as int));
        }
        let mut reading = self.last_read;
        if filled - from == BUFF_SIZE {
            let piece = slice_of(&buf, from, filled);
            assert(piece@ =~= last_piece(buf@.subrange(0, filled as int)));
            reading = SpatialOrientation::from_byte_slice(piece.as_slice());
        }
        self.buf = buf;
        self.idx = filled;
        self.last_read = reading;
        reading
    }
}

/// The last `EOT` of `s` lies in `s`, or is -1.
proof fn lemma_last_eot_bounds(s: Seq<u8>)
    ensures
        -1 <= last_eot(s) < s.len(),
    decreases s.len(),
{
    if s.len() > 0 {
        lemma_last_eot_bounds(s.drop_last());
    }
}

/// Unfolds `last_eot` on a prefix whose last byte is not `EOT`.
proof fn lemma_last_eot_step(s: Seq<u8>, j: int)
    requires
        0 < j <= s.len(),
        s[j - 1] != EOT,
    ensures
        last_eot(s.subrange(0, j)) == last_eot(s.subrange(0, j - 1)),
{
    assert(s.subrange(0, j).drop_last() =~= s.subrange(0, j - 1));
}

/// Where the last piece of the first `len` bytes of `buf` begins.
fn after_last_eot(buf: &[u8; BUF_SIZE], len: usize) -> (r: usize)
    requires
        len <= BUF_SIZE,
    ensures
        r == last_eot(buf@.subrange(0, len as int)) + 1,
{
    let mut j = len;
    while j > 0
        invariant
            j <= len <= BUF_SIZE,
            buf@.len() == BUF_SIZE,
            last_eot(buf@.subrange(0, len as int)) == last_eot(buf@.subrange(0, j as int)),
        decreases j,
    {
        if buf[j - 1] == EOT {
            assert(buf@.subrange(0, j as int).last() == EOT);
            return j;
        }
        proof {
            lemma_last_eot_step(buf@, j as int);
        }
        j = j - 1;
    }
    assert(buf@.subrange(0, 0).len() == 0);
    0
}

/// The bytes of `buf` from `from` up to `to`.
fn slice_of(buf: &[u8; BUF_SIZE], from: usize, to: usize) -> (r: Vec<u8>)
    requires
        from <= to <= BUF_SIZE,
    ensures
        r@ == buf@.subrange(from as int, to as int),
{
    let mut r: Vec<u8> = Vec::new();
    let mut k = from;
    while k < to
        invariant
            from <= k <= to <= BUF_SIZE,
            buf@.len() == BUF_SIZE,
            r@ == buf@.subrange(from as int, k as int),
        decreases to - k,
    {
        r.push(buf[k]);
        proof {
            assert(buf@.subrange(from as int, k + 1) =~= buf@.subrange(from as int, k as int).push(buf@[k as int]));
        }
        k = k + 1;
    }
    r
}

/// A frame that the board sent, an orientation's bytes behind an `EOT`, is
/// read back as that orientation when it ends what the buffer holds and its
/// bytes hold no `EOT` of their own.
pub proof fn lemma_sent_frame_is_read(prefix: Seq<u8>, o: SpatialOrientation, before: SpatialOrientation)
    requires
        forall|i: int| 0 <= i < BUFF_SIZE ==> #[trigger] orientation_bytes(o)[i] != EOT,
    ensures
        reading_after(prefix.push(EOT) + orientation_bytes(o), before) == o,
{
    lemma_orientation_roundtrip(o);
    let body = orientation_bytes(o);
    let held = prefix.push(EOT) + body;
    lemma_last_eot_of_eot_free_suffix(prefix.push(EOT), body);
    assert(last_piece(held) =~= body);
}

/// While a whole chunk fits behind what the buffer holds (`filled + CHUNK_SIZE
/// < BUF_SIZE`), the chunk is written right behind it: the first `filled`
/// bytes are kept and the bytes held next are the chunk's.
pub proof fn lemma_chunk_appended(buf: Seq<u8>, filled: int, chunk: Seq<u8>, n: int)
    requires
        buf.len() == BUF_SIZE,
        chunk.len() == CHUNK_SIZE,
        0 <= filled,
        filled + CHUNK_SIZE < BUF_SIZE,
        0 <= n <= CHUNK_SIZE,
    ensures
        chunk_start(filled) == filled,
        buffer_after(buf, filled, chunk).len() == BUF_SIZE,
        buffer_after(buf, filled, chunk).subrange(0, filled + n) == buf.subrange(0, filled)
            + chunk.subrange(0, n),
{
    let b = buffer_after(buf, filled, chunk);
    assert(b.subrange(0, filled + n) =~= buf.subrange(0, filled) + chunk.subrange(0, n));
}

/// Once a whole chunk no longer fits behind what the buffer holds, the
/// buffer starts again: the chunk is written at its start.
pub proof fn lemma_chunk_restarts(buf: Seq<u8>, filled: int, chunk: Seq<u8>, n: int)
    requires
        buf.len() == BUF_SIZE,
        chunk.len() == CHUNK_SIZE,
        filled + CHUNK_SIZE >= BUF_SIZE,
        0 <= n <= CHUNK_SIZE,
    ensures
        chunk_start(filled) == 0,
        buffer_after(buf, filled, chunk).subrange(0, n) == chunk.subrange(0, n),
{
    let b = buffer_after(buf, filled, chunk);
    assert(b.subrange(0, n) =~= chunk.subrange(0, n));
}

/// A frame split over two chunks is read: the buffer holds `filled` bytes
/// ending in an `EOT` and the first `k` bytes of an orientation, a whole
/// chunk still fits behind them, and the next chunk starts with the other
/// `BUFF_SIZE - k` bytes; then the reading after that chunk is the
/// orientation (its bytes holding no `EOT`).
pub proof fn lemma_split_frame_is_read(
    buf: Seq<u8>,
    filled: int,
    prefix: Seq<u8>,
    o: SpatialOrientation,
    k: int,
    chunk: Seq<u8>,
    before: SpatialOrientation,
)
    requires
        buf.len() == BUF_SIZE,
        chunk.len() == CHUNK_SIZE,
        0 <= k <= BUFF_SIZE,
        0 <= filled,
        filled + CHUNK_SIZE < BUF_SIZE,
        buf.subrange(0, filled) == prefix.push(EOT) + orientation_bytes(o).subrange(0, k),
        chunk.subrange(0, BUFF_SIZE - k) == orientation_bytes(o).subrange(k, BUFF_SIZE as int),
        forall|i: int| 0 <= i < BUFF_SIZE ==> #[trigger] orientation_bytes(o)[i] != EOT,
    ensures
        chunk_start(filled) == filled,
        reading_after(
            buffer_after(buf, filled, chunk).subrange(0, filled + BUFF_SIZE - k),
            before,
        ) == o,
{
    lemma_orientation_roundtrip(o);
    let ob = orientation_bytes(o);
    assert(filled == prefix.len() + 1 + k) by {
        assert(buf.subrange(0, filled).len() == filled);
    }
    lemma_chunk_appended(buf, filled, chunk, BUFF_SIZE - k);
    assert(ob.subrange(0, k) + ob.subrange(k, BUFF_SIZE as int) =~= ob);
    assert(buffer_after(buf, filled, chunk).subrange(0, filled + BUFF_SIZE - k) =~= prefix.push(EOT)
        + ob);
    lemma_sent_frame_is_read(prefix, o, before);
}

/// An `EOT` ends `head` and none is in `tail`: the last `EOT` of the two is
/// the one that ends `head`.
proof fn lemma_last_eot_of_eot_free_suffix(head: Seq<u8>, tail: Seq<u8>)
    requires
        head.len() > 0,
        head.last() == EOT,
        forall|i: int| 0 <= i < tail.len() ==> tail[i] != EOT,
    ensures
        last_eot(head + tail) == head.len() - 1,
    decreases tail.len(),
{
    if tail.len() == 0 {
        assert(head + tail =~= head);
    } else {
        assert((head + tail).drop_last() =~= head + tail.drop_last());
        lemma_last_eot_of_eot_free_suffix(head, tail.drop_last());
    }
}

} // verus!
