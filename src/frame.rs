//! Framing on a byte stream: each record goes out after its length as four
//! big-endian bytes, and a reader buffers what arrives until whole frames
//! are there, however the stream was cut into reads.
use vstd::prelude::*;
use vstd::slice::{slice_subrange, slice_to_vec};

use crate::codec::{encodable, encode, wire};
use crate::message::ChatrMessage;

verus! {

/// The four big-endian bytes of `n`.
pub open spec fn be32_bytes(n: u32) -> Seq<u8> {
    seq![((n >> 24) & 0xff) as u8, ((n >> 16) & 0xff) as u8, ((n >> 8) & 0xff) as u8, (n & 0xff) as u8]
}

/// The integer held by four big-endian bytes.
pub open spec fn be32_value(b0: u8, b1: u8, b2: u8, b3: u8) -> u32 {
    ((b0 as u32) << 24u32) | ((b1 as u32) << 16u32) | ((b2 as u32) << 8u32) | (b3 as u32)
}

/// A record as it goes on the wire: its length, then the record.
pub open spec fn frame(record: Seq<u8>) -> Seq<u8> {
    be32_bytes(record.len() as u32) + record
}

/// The length that the header at the front of `s` announces.
pub open spec fn announced(s: Seq<u8>) -> int {
    be32_value(s[0], s[1], s[2], s[3]) as int
}

/// Whether `s` starts with a whole frame.
pub open spec fn has_frame(s: Seq<u8>) -> bool {
    s.len() >= 4 && s.len() >= 4 + announced(s)
}

/// The records of the whole frames at the front of `s`, in order, and the
/// bytes after them, which wait for more input.
pub open spec fn split_frames(s: Seq<u8>) -> (Seq<Seq<u8>>, Seq<u8>)
    decreases s.len(),
{
    if has_frame(s) {
        let n = announced(s);
        let next = split_frames(s.subrange(4 + n, s.len() as int));
        (seq![s.subrange(4, 4 + n)] + next.0, next.1)
    } else {
        (Seq::empty(), s)
    }
}

/// What a reader hands out when it starts with `buffered` and is fed
/// `reads` one after the other: the records, and what stays buffered.
pub open spec fn feed_all(buffered: Seq<u8>, reads: Seq<Seq<u8>>) -> (Seq<Seq<u8>>, Seq<u8>)
    decreases reads.len(),
{
    if reads.len() == 0 {
        (Seq::empty(), buffered)
    } else {
        let step = split_frames(buffered + reads[0]);
        let later = feed_all(step.1, reads.drop_first());
        (step.0 + later.0, later.1)
    }
}

/// The header of a frame announces the length it was written with.
pub proof fn lemma_be32_round_trip(n: u32)
    ensures
        be32_value(be32_bytes(n)[0], be32_bytes(n)[1], be32_bytes(n)[2], be32_bytes(n)[3]) == n,
{
    let b0 = ((n >> 24) & 0xff) as u8;
    let b1 = ((n >> 16) & 0xff) as u8;
    let b2 = ((n >> 8) & 0xff) as u8;
    let b3 = (n & 0xff) as u8;
    assert(((b0 as u32) << 24u32) | ((b1 as u32) << 16u32) | ((b2 as u32) << 8u32) | (b3 as u32)
        == n) by (bit_vector)
        requires
            b0 == ((n >> 24) & 0xff) as u8,
            b1 == ((n >> 16) & 0xff) as u8,
            b2 == ((n >> 8) & 0xff) as u8,
            b3 == (n & 0xff) as u8,
    ;
}

/// A frame followed by anything splits off as that frame's record.
pub proof fn lemma_split_frame_front(record: Seq<u8>, rest: Seq<u8>)
    requires
        record.len() <= u32::MAX,
    ensures
        has_frame(frame(record) + rest),
        split_frames(frame(record) + rest).0 == seq![record] + split_frames(rest).0,
        split_frames(frame(record) + rest).1 == split_frames(rest).1,
{
    let s = frame(record) + rest;
    lemma_be32_round_trip(record.len() as u32);
    assert(s[0] == be32_bytes(record.len() as u32)[0] && s[1] == be32_bytes(record.len() as u32)[1]
        && s[2] == be32_bytes(record.len() as u32)[2] && s[3] == be32_bytes(record.len() as u32)[3]);
    assert(announced(s) == record.len());
    assert(s.subrange(4, 4 + record.len() as int) =~= record);
    assert(s.subrange(4 + record.len() as int, s.len() as int) =~= rest);
}

/// Splitting a stream at any point does not change its frames: those of
/// `a + b` are those of `a`, then those of what `a` left over followed by `b`.
pub proof fn lemma_split_frames_append(a: Seq<u8>, b: Seq<u8>)
    ensures
        split_frames(a + b).0 == split_frames(a).0 + split_frames(split_frames(a).1 + b).0,
        split_frames(a + b).1 == split_frames(split_frames(a).1 + b).1,
    decreases a.len(),
{
    if has_frame(a) {
        let n = announced(a);
        let a2 = a.subrange(4 + n, a.len() as int);
        let ab = a + b;
        assert(ab[0] == a[0] && ab[1] == a[1] && ab[2] == a[2] && ab[3] == a[3]);
        assert(ab.subrange(4 + n, ab.len() as int) =~= a2 + b);
        assert(ab.subrange(4, 4 + n) =~= a.subrange(4, 4 + n));
        lemma_split_frames_append(a2, b);
        let x = seq![a.subrange(4, 4 + n)];
        let f2 = split_frames(a2).0;
        let g = split_frames(split_frames(a2).1 + b).0;
        assert(x + (f2 + g) =~= (x + f2) + g);
    } else {
        assert(Seq::<Seq<u8>>::empty() + split_frames(a + b).0 =~= split_frames(a + b).0);
    }
}

/// However a byte stream is cut into reads, a reader that starts empty hands
/// out the frames of the whole stream, in order, and keeps the same unfinished tail.
pub proof fn lemma_reads_do_not_matter(reads: Seq<Seq<u8>>)
    ensures
        feed_all(Seq::empty(), reads) == split_frames(reads.flatten()),
{
    lemma_feed_all(Seq::empty(), reads);
    assert(Seq::<u8>::empty() + reads.flatten() =~= reads.flatten());
}

/// Feeding reads to a reader that holds no whole frame gives the frames of
/// what it held followed by all the reads.
pub proof fn lemma_feed_all(buffered: Seq<u8>, reads: Seq<Seq<u8>>)
    requires
        !has_frame(buffered),
    ensures
        feed_all(buffered, reads) == split_frames(buffered + reads.flatten()),
    decreases reads.len(),
{
    if reads.len() == 0 {
        assert(buffered + reads.flatten() =~= buffered);
    } else {
        let c = reads[0];
        let rest = reads.drop_first();
        let step = split_frames(buffered + c);
        lemma_no_frames_left(buffered + c);
        lemma_feed_all(step.1, rest);
        lemma_split_frames_append(buffered + c, rest.flatten());
        assert(reads.flatten() == c + rest.flatten());
        assert(buffered + reads.flatten() =~= (buffered + c) + rest.flatten());
    }
}

/// What is left after taking the whole frames holds no whole frame.
pub proof fn lemma_no_frames_left(s: Seq<u8>)
    ensures
        split_frames(split_frames(s).1) == (Seq::<Seq<u8>>::empty(), split_frames(s).1),
    decreases s.len(),
{
    if has_frame(s) {
        let n = announced(s);
        lemma_no_frames_left(s.subrange(4 + n, s.len() as int));
    }
}

/// The byte sequences of a list of buffers.
pub open spec fn views_of(v: Seq<Vec<u8>>) -> Seq<Seq<u8>> {
    v.map_values(|b: Vec<u8>| b@)
}

fn read_be32(b: &[u8], at: usize) -> (r: u32)
    requires
        at + 4 <= b@.len(),
    ensures
        r == be32_value(b@[at as int], b@[at + 1], b@[at + 2], b@[at + 3]),
{
    ((b[at] as u32) << 24u32) | ((b[at + 1] as u32) << 16u32) | ((b[at + 2] as u32) << 8u32) | (
    b[at + 3] as u32)
}

/// Writes the frame of a message: its record's length, then the record.
pub fn encode_frame(m: &ChatrMessage) -> (r: Vec<u8>)
    requires
        encodable(m@),
    ensures
        r@ == frame(wire(m@)),
{
    let mut record = encode(m);
    let n = record.len() as u32;
    let mut out: Vec<u8> = Vec::new();
    out.push(((n >> 24u32) & 0xff) as u8);
    out.push(((n >> 16u32) & 0xff) as u8);
    out.push(((n >> 8u32) & 0xff) as u8);
    out.push((n & 0xff) as u8);
    out.append(&mut record);
    assert(out@ =~= frame(wire(m@)));
    out
}

/// Collects a byte stream and hands out the records of its whole frames.
pub struct FrameReader {
    buf: Vec<u8>,
}

impl View for FrameReader {
    type V = Seq<u8>;

    /// The bytes received and not yet handed out.
    closed spec fn view(&self) -> Seq<u8> {
        self.buf@
    }
}

impl FrameReader {
    /// A reader with nothing buffered.
    pub fn new() -> (r: FrameReader)
        ensures
            r@ == Seq::<u8>::empty(),
    {
        FrameReader { buf: Vec::new() }
    }

    /// Takes in the bytes of one read and hands out nothing yet.
    pub fn push(&mut self, chunk: &[u8])
        ensures
            final(self)@ == old(self)@ + chunk@,
    {
        self.buf.extend_from_slice(chunk);
    }

    /// Hands out the record of the first frame, if it is whole; the rest
    /// stays buffered.
    pub fn next_frame(&mut self) -> (r: Option<Vec<u8>>)
        ensures
            has_frame(old(self)@) ==> (r matches Some(record) && record@ == split_frames(
                old(self)@,
            ).0[0]) && final(self)@ == old(self)@.subrange(
                4 + announced(old(self)@),
                old(self)@.len() as int,
            ),
            !has_frame(old(self)@) ==> r is None && final(self)@ == old(self)@,
    {
        let len = self.buf.len();
        if len < 4 {
            return None;
        }
        let n = read_be32(self.buf.as_slice(), 0) as usize;
        if len - 4 < n {
            return None;
        }
        let record = slice_to_vec(slice_subrange(self.buf.as_slice(), 4, 4 + n));
        self.buf = slice_to_vec(slice_subrange(self.buf.as_slice(), 4 + n, len));
        Some(record)
    }

    /// Takes in the bytes of one read and hands out the records of the frames
    /// that are now whole, in order; the rest stays buffered.
    pub fn feed(&mut self, chunk: &[u8]) -> (r: Vec<Vec<u8>>)
        ensures
            views_of(r@) == split_frames(old(self)@ + chunk@).0,
            final(self)@ == split_frames(old(self)@ + chunk@).1,
    {
        self.buf.extend_from_slice(chunk);
        let ghost all = self.buf@;
        assert(all =~= old(self)@ + chunk@);
        let len = self.buf.len();
        let mut frames: Vec<Vec<u8>> = Vec::new();
        let mut pos: usize = 0;
        assert(all.subrange(0, len as int) =~= all);
        assert(views_of(frames@) + split_frames(all).0 =~= split_frames(all).0);
        loop
            invariant
                pos <= len == self.buf@.len(),
                self.buf@ == all,
                split_frames(all).0 == views_of(frames@) + split_frames(
                    all.subrange(pos as int, len as int),
                ).0,
                split_frames(all).1 == split_frames(all.subrange(pos as int, len as int)).1,
            ensures
                pos <= len,
                split_frames(all).0 == views_of(frames@),
                split_frames(all).1 == all.subrange(pos as int, len as int),
            decreases len - pos,
        {
            let ghost rest = all.subrange(pos as int, len as int);
            if len - pos < 4 {
                assert(views_of(frames@) + Seq::empty() =~= views_of(frames@));
                break;
            }
            let n = read_be32(self.buf.as_slice(), pos) as usize;
            assert(rest[0] == all[pos as int] && rest[1] == all[pos + 1] && rest[2] == all[pos + 2]
                && rest[3] == all[pos + 3]);
            if len - pos - 4 < n {
                assert(views_of(frames@) + Seq::empty() =~= views_of(frames@));
                break;
            }
            let record = slice_to_vec(slice_subrange(self.buf.as_slice(), pos + 4, pos + 4 + n));
            assert(rest.subrange(4, 4 + n as int) =~= record@);
            assert(rest.subrange(4 + n as int, rest.len() as int) =~= all.subrange(
                (pos + 4 + n) as int,
                len as int,
            ));
            let ghost before = views_of(frames@);
            frames.push(record);
            assert(views_of(frames@) =~= before + seq![record@]);
            pos = pos + 4 + n;
            assert(before + (seq![record@] + split_frames(all.subrange(pos as int, len as int)).0)
                =~= views_of(frames@) + split_frames(all.subrange(pos as int, len as int)).0);
        }
        self.buf = slice_to_vec(slice_subrange(self.buf.as_slice(), pos, len));
        frames
    }
}

} // verus!
