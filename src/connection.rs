//! The decisions of a connection's two tasks. The reader turns the bytes of
//! each read into messages; the writer turns each outbound message into the
//! bytes to send. Both stop for good once the connection is cancelled.
use vstd::prelude::*;

use crate::codec::{decode, encodable, is_encodable, lemma_parse_wire, parse, wire};
use crate::frame::{
    encode_frame, frame, has_frame, lemma_no_frames_left, lemma_split_frame_front,
    lemma_split_frames_append, split_frames, views_of, FrameReader,
};
use crate::message::{ChatrMessage, MessageView};

verus! {

/// The messages of a list of messages.
pub open spec fn messages_of(v: Seq<ChatrMessage>) -> Seq<MessageView> {
    v.map_values(|m: ChatrMessage| m@)
}

/// The messages that a run of records holds, up to the first record that
/// holds none, and whether there was such a record.
pub open spec fn decode_records(records: Seq<Seq<u8>>) -> (Seq<MessageView>, bool)
    decreases records.len(),
{
    if records.len() == 0 {
        (Seq::empty(), false)
    } else {
        match parse(records[0]) {
            Some(m) => {
                let rest = decode_records(records.drop_first());
                (seq![m] + rest.0, rest.1)
            },
            None => (Seq::empty(), true),
        }
    }
}

/// What the reader forwards for one read while open: the messages of the
/// frames that are now whole and, after an unreadable record, `Disconnect`.
pub open spec fn read_outcome(buffered: Seq<u8>, chunk: Seq<u8>) -> (Seq<MessageView>, bool) {
    let d = decode_records(split_frames(buffered + chunk).0);
    (
        if d.1 {
            d.0.push(MessageView::Disconnect)
        } else {
            d.0
        },
        d.1,
    )
}

/// What an open reader forwards when fed `reads` one after the other,
/// starting with `buffered` held back.
pub open spec fn forwarded_all(buffered: Seq<u8>, reads: Seq<Seq<u8>>) -> Seq<MessageView>
    decreases reads.len(),
{
    if reads.len() == 0 {
        Seq::empty()
    } else {
        read_outcome(buffered, reads[0]).0 + forwarded_all(
            split_frames(buffered + reads[0]).1,
            reads.drop_first(),
        )
    }
}

/// Decoding two runs of records one after the other is decoding their
/// concatenation, unless the first holds an unreadable record.
pub proof fn lemma_decode_records_append(a: Seq<Seq<u8>>, b: Seq<Seq<u8>>)
    ensures
        decode_records(a + b) == if decode_records(a).1 {
            decode_records(a)
        } else {
            (decode_records(a).0 + decode_records(b).0, decode_records(b).1)
        },
    decreases a.len(),
{
    if a.len() == 0 {
        assert(a + b =~= b);
        assert(Seq::<MessageView>::empty() + decode_records(b).0 =~= decode_records(b).0);
    } else {
        assert((a + b)[0] == a[0]);
        assert((a + b).drop_first() =~= a.drop_first() + b);
        lemma_decode_records_append(a.drop_first(), b);
        if let Some(m) = parse(a[0]) {
            let r = decode_records(a.drop_first());
            assert(seq![m] + (r.0 + decode_records(b).0) =~= (seq![m] + r.0) + decode_records(b).0);
        }
    }
}

/// However a stream whose records all decode is cut into reads, the reader
/// forwards the messages of the whole stream, in order.
pub proof fn lemma_messages_whatever_the_reads(reads: Seq<Seq<u8>>)
    requires
        !decode_records(split_frames(reads.flatten()).0).1,
    ensures
        forwarded_all(Seq::empty(), reads) == decode_records(split_frames(reads.flatten()).0).0,
{
    assert(Seq::<u8>::empty() + reads.flatten() =~= reads.flatten());
    lemma_forwarded_all(Seq::empty(), reads);
}

/// The bytes of a stream that carries `ms`, one frame each, in order.
pub open spec fn stream_of(ms: Seq<MessageView>) -> Seq<u8>
    decreases ms.len(),
{
    if ms.len() == 0 {
        Seq::empty()
    } else {
        frame(wire(ms[0])) + stream_of(ms.drop_first())
    }
}

/// However a stream that carries writable messages is cut into reads, an
/// open reader forwards exactly those messages, in the order they were sent.
pub proof fn lemma_reader_gets_every_message(ms: Seq<MessageView>, reads: Seq<Seq<u8>>)
    requires
        forall|i: int| 0 <= i < ms.len() ==> encodable(#[trigger] ms[i]),
        reads.flatten() == stream_of(ms),
    ensures
        forwarded_all(Seq::empty(), reads) == ms,
{
    lemma_stream_records(ms);
    lemma_messages_whatever_the_reads(reads);
}

proof fn lemma_stream_records(ms: Seq<MessageView>)
    requires
        forall|i: int| 0 <= i < ms.len() ==> encodable(#[trigger] ms[i]),
    ensures
        split_frames(stream_of(ms)).1.len() == 0,
        decode_records(split_frames(stream_of(ms)).0) == (ms, false),
    decreases ms.len(),
{
    if ms.len() == 0 {
        assert(!has_frame(Seq::<u8>::empty()));
        assert(Seq::<MessageView>::empty() =~= ms);
    } else {
        let rest = ms.drop_first();
        assert forall|i: int| 0 <= i < rest.len() implies encodable(#[trigger] rest[i]) by {
            assert(rest[i] == ms[i + 1]);
        }
        assert(encodable(ms[0]));
        lemma_stream_records(rest);
        lemma_split_frame_front(wire(ms[0]), stream_of(rest));
        lemma_parse_wire(ms[0]);
        let records = split_frames(stream_of(ms)).0;
        assert(records[0] == wire(ms[0]));
        assert(records.drop_first() =~= split_frames(stream_of(rest)).0);
        assert(seq![ms[0]] + rest =~= ms);
    }
}

proof fn lemma_forwarded_all(buffered: Seq<u8>, reads: Seq<Seq<u8>>)
    requires
        !has_frame(buffered),
        !decode_records(split_frames(buffered + reads.flatten()).0).1,
    ensures
        forwarded_all(buffered, reads) == decode_records(split_frames(buffered + reads.flatten()).0).0,
    decreases reads.len(),
{
    if reads.len() == 0 {
        assert(buffered + reads.flatten() =~= buffered);
    } else {
        let c = reads[0];
        let rest = reads.drop_first();
        let step = split_frames(buffered + c);
        assert(reads.flatten() == c + rest.flatten());
        assert(buffered + reads.flatten() =~= (buffered + c) + rest.flatten());
        lemma_split_frames_append(buffered + c, rest.flatten());
        let later = split_frames(step.1 + rest.flatten()).0;
        lemma_decode_records_append(step.0, later);
        lemma_no_frames_left(buffered + c);
        lemma_forwarded_all(step.1, rest);
    }
}

/// What a reader forwards after a read, and whether it cancels the connection.
pub struct ReadStep {
    pub forward: Vec<ChatrMessage>,
    pub cancel: bool,
}

/// The reading side of a connection.
pub struct ConnectionReader {
    frames: FrameReader,
    open: bool,
}

impl ConnectionReader {
    /// The bytes received and not yet decoded.
    pub closed spec fn buffered(&self) -> Seq<u8> {
        self.frames@
    }

    /// Whether the reader still reads.
    pub closed spec fn is_open_spec(&self) -> bool {
        self.open
    }

    /// A reader at the start of a stream.
    pub fn new() -> (r: ConnectionReader)
        ensures
            r.is_open_spec(),
            r.buffered() == Seq::<u8>::empty(),
    {
        ConnectionReader { frames: FrameReader::new(), open: true }
    }

    /// A reader that goes on with a stream of which `frames` holds what was
    /// received and not yet read (whole frames included, which the next read
    /// hands out).
    pub fn resume(frames: FrameReader) -> (r: ConnectionReader)
        ensures
            r.is_open_spec(),
            r.buffered() == frames@,
    {
        ConnectionReader { frames, open: true }
    }

    /// Whether the reader still reads.
    pub fn is_open(&self) -> (r: bool)
        ensures
            r == self.is_open_spec(),
    {
        self.open
    }

    /// Handles the bytes of one read. Each whole frame is decoded and its
    /// message forwarded, in order. A record that does not decode ends the
    /// connection: what came before it is forwarded, then `Disconnect`, and
    /// the connection is cancelled; nothing is resynchronised.
    pub fn on_bytes(&mut self, chunk: &[u8]) -> (r: ReadStep)
        ensures
            !old(self).is_open_spec() ==> r.forward@.len() == 0 && !r.cancel && *final(self)
                == *old(self),
            old(self).is_open_spec() ==> {
                &&& messages_of(r.forward@) == read_outcome(old(self).buffered(), chunk@).0
                &&& r.cancel == read_outcome(old(self).buffered(), chunk@).1
                &&& final(self).is_open_spec() == !r.cancel
                &&& !r.cancel ==> final(self).buffered() == split_frames(
                    old(self).buffered() + chunk@,
                ).1
            },
    {
        if !self.open {
            return ReadStep { forward: Vec::new(), cancel: false };
        }
        let records = self.frames.feed(chunk);
        let ghost all = views_of(records@);
        let ghost left = self.frames@;
        let mut forward: Vec<ChatrMessage> = Vec::new();
        let mut i: usize = 0;
        assert(all.subrange(0, all.len() as int) =~= all);
        assert(messages_of(forward@) + decode_records(all).0 =~= decode_records(all).0);
        while i < records.len()
            invariant
                i <= records@.len(),
                all == views_of(records@),
                all == split_frames(old(self).buffered() + chunk@).0,
                left == split_frames(old(self).buffered() + chunk@).1,
                self.open,
                old(self).open,
                self.frames@ == left,
                decode_records(all) == (
                    messages_of(forward@) + decode_records(all.subrange(i as int, all.len() as int)).0,
                    decode_records(all.subrange(i as int, all.len() as int)).1,
                ),
            decreases records@.len() - i,
        {
            let ghost rest = all.subrange(i as int, all.len() as int);
            assert(rest[0] == records@[i as int]@);
            match decode(records[i].as_slice()) {
                Ok(m) => {
                    let ghost before = messages_of(forward@);
                    forward.push(m);
                    assert(messages_of(forward@) =~= before.push(m@));
                    assert(rest.drop_first() =~= all.subrange(i + 1, all.len() as int));
                    i = i + 1;
                    assert(before + (seq![m@] + decode_records(
                        all.subrange(i as int, all.len() as int),
                    ).0) =~= messages_of(forward@) + decode_records(
                        all.subrange(i as int, all.len() as int),
                    ).0);
                },
                Err(_) => {
                    assert(messages_of(forward@) + Seq::empty() =~= messages_of(forward@));
                    let ghost before = messages_of(forward@);
                    forward.push(ChatrMessage::Disconnect);
                    assert(messages_of(forward@) =~= before.push(MessageView::Disconnect));
                    self.open = false;
                    return ReadStep { forward, cancel: true };
                },
            }
        }
        assert(all.subrange(i as int, all.len() as int) =~= Seq::<Seq<u8>>::empty());
        assert(messages_of(forward@) + Seq::empty() =~= messages_of(forward@));
        ReadStep { forward, cancel: false }
    }

    /// Handles the end of the stream (a read of zero bytes) or a failed
    /// read: the peer is gone, so `Disconnect` is forwarded and the
    /// connection cancelled. A closed reader does nothing.
    pub fn on_closed(&mut self) -> (r: ReadStep)
        ensures
            !final(self).is_open_spec(),
            old(self).is_open_spec() ==> messages_of(r.forward@) == seq![MessageView::Disconnect]
                && r.cancel,
            !old(self).is_open_spec() ==> r.forward@.len() == 0 && !r.cancel,
    {
        if !self.open {
            return ReadStep { forward: Vec::new(), cancel: false };
        }
        self.open = false;
        let mut forward: Vec<ChatrMessage> = Vec::new();
        forward.push(ChatrMessage::Disconnect);
        assert(messages_of(forward@) =~= seq![MessageView::Disconnect]);
        ReadStep { forward, cancel: true }
    }

    /// Stops the reader because the connection was cancelled elsewhere.
    pub fn cancel(&mut self)
        ensures
            !final(self).is_open_spec(),
            final(self).buffered() == old(self).buffered(),
    {
        self.open = false;
    }
}

/// The writer's state after a cancellation, and whether that cancellation
/// was the first.
pub open spec fn writer_cancel(open: bool) -> (bool, bool) {
    (false, open)
}

/// What the writer sends for an outbound message: its frame while open and
/// when it can be written; after cancellation, nothing.
pub open spec fn writer_outbound(open: bool, m: MessageView) -> Option<Seq<u8>> {
    if open && encodable(m) {
        Some(frame(wire(m)))
    } else {
        None
    }
}

/// Cancelling is idempotent: a second cancellation changes nothing and is
/// not the first; once cancelled, every outbound message is dropped.
pub proof fn lemma_cancel_idempotent(open: bool)
    ensures
        writer_cancel(writer_cancel(open).0) == (writer_cancel(open).0, false),
        forall|m: MessageView| writer_outbound(#[trigger] writer_cancel(open).0, m) is None,
{
}

/// The writing side of a connection.
pub struct ConnectionWriter {
    open: bool,
}

impl ConnectionWriter {
    /// Whether the writer still writes.
    pub closed spec fn is_open_spec(&self) -> bool {
        self.open
    }

    /// A writer at the start of a connection.
    pub fn new() -> (r: ConnectionWriter)
        ensures
            r.is_open_spec(),
    {
        ConnectionWriter { open: true }
    }

    /// Whether the writer still writes.
    pub fn is_open(&self) -> (r: bool)
        ensures
            r == self.is_open_spec(),
    {
        self.open
    }

    /// The bytes to send for an outbound message, in the order the messages
    /// were queued. Nothing after cancellation; a message too long to frame
    /// is dropped too.
    pub fn on_outbound(&self, msg: &ChatrMessage) -> (r: Option<Vec<u8>>)
        ensures
            match r {
                Some(b) => writer_outbound(self.is_open_spec(), msg@) == Some(b@),
                None => writer_outbound(self.is_open_spec(), msg@) is None,
            },
    {
        if self.open && is_encodable(msg) {
            Some(encode_frame(msg))
        } else {
            None
        }
    }

    /// Stops the writer: the connection was cancelled, or its outbound queue
    /// closed. Returns whether the writer was still open, so that the first
    /// trigger is told apart from the later ones.
    pub fn cancel(&mut self) -> (r: bool)
        ensures
            (final(self).is_open_spec(), r) == writer_cancel(old(self).is_open_spec()),
    {
        let was_open = self.open;
        self.open = false;
        was_open
    }
}

} // verus!
