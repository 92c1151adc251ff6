//! Length-prefixed framing over a byte stream: each frame is an eight-byte
//! big-endian length followed by that many payload bytes, and a length of
//! zero is the sender's orderly shutdown. `FrameReader` reassembles frames
//! from whatever chunks the transport delivers and drives the read loop.

use vstd::prelude::*;

use crate::codec::{
    get_answer, handle_request, spec_parse_answer, spec_parse_request, RequestError,
};
use crate::request::{Answer, Request};
use crate::wire::{dec_u64, enc_u64, lemma_dec_enc_u64, spec_dec_u64, spec_enc_u64};
use vstd::string::StrSliceExecFns;
use vstd::utf8::encode_utf8;

verus! {

/// One frame: the payload length, then the payload.
pub open spec fn spec_frame(p: Seq<u8>) -> Seq<u8> {
    spec_enc_u64(p.len() as u64) + p
}

/// Framing round trip: a framed payload, followed by whatever else the stream
/// carries, reads back as its length, the payload, and the rest.
pub proof fn lemma_frame_round_trip(p: Seq<u8>, rest: Seq<u8>)
    requires
        p.len() <= u64::MAX,
    ensures
        spec_dec_u64(spec_frame(p) + rest) == Some((p.len() as u64, p + rest)),
        (p + rest).take(p.len() as int) == p,
        (p + rest).skip(p.len() as int) == rest,
{
    assert(spec_frame(p) + rest =~= spec_enc_u64(p.len() as u64) + (p + rest));
    lemma_dec_enc_u64(p.len() as u64, p + rest);
    assert((p + rest).take(p.len() as int) =~= p);
    assert((p + rest).skip(p.len() as int) =~= rest);
}

/// Wraps one payload in a frame.
pub fn frame_payload(payload: Vec<u8>) -> (out: Vec<u8>)
    ensures
        out@ == spec_frame(payload@),
{
    let mut out: Vec<u8> = Vec::new();
    enc_u64(payload.len() as u64, &mut out);
    let mut p = payload;
    out.append(&mut p);
    out
}

/// Frames the UTF-8 bytes of a textual message, as written to the stream.
pub fn prepare_message(message: String) -> (out: Vec<u8>)
    ensures
        out@ == spec_frame(encode_utf8(message@)),
{
    let bytes = message.as_str().as_bytes_vec();
    frame_payload(bytes)
}

/// What one poll of the reassembly buffer yields.
#[derive(Debug)]
pub enum FrameEvent {
    /// Not enough buffered bytes for a header or a whole frame.
    NeedMore,
    /// A zero length arrived: the peer closed the stream in order.
    Closed,
    /// One whole payload.
    Frame(Vec<u8>),
}

/// Reassembles frames from a byte stream read in arbitrary chunks. Consumed
/// bytes are dropped lazily: `start` marks where the unread suffix begins.
pub struct FrameReader {
    buf: Vec<u8>,
    start: usize,
}

impl FrameReader {
    /// The buffer never shrinks below the read cursor.
    pub closed spec fn wf(&self) -> bool {
        self.start <= self.buf@.len()
    }

    /// The bytes received and not yet consumed.
    pub closed spec fn contents(&self) -> Seq<u8> {
        self.buf@.subrange(self.start as int, self.buf@.len() as int)
    }

    pub fn new() -> (r: FrameReader)
        ensures
            r.wf(),
            r.contents() == Seq::<u8>::empty(),
    {
        let r = FrameReader { buf: Vec::new(), start: 0 };
        assert(r.contents() =~= Seq::<u8>::empty());
        r
    }

    /// Feeds one chunk read from the transport into the buffer.
    pub fn push_bytes(&mut self, chunk: Vec<u8>)
        requires
            old(self).wf(),
        ensures
            final(self).wf(),
            final(self).contents() == old(self).contents() + chunk@,
    {
        let mut c = chunk;
        self.buf.append(&mut c);
        assert(self.contents() =~= old(self).contents() + chunk@);
    }

    /// Copies `count` bytes at `from` out of the buffer.
    fn copy_payload(&self, from: usize, count: usize) -> (out: Vec<u8>)
        requires
            self.wf(),
            self.start <= from,
            from + count <= self.buf@.len(),
        ensures
            out@ == self.buf@.subrange(from as int, from as int + count as int),
    {
        let mut out: Vec<u8> = Vec::new();
        let mut i: usize = 0;
        let total = self.buf.len();
        while i < count
            invariant
                i <= count,
                from + count <= total == self.buf@.len(),
                out@ == self.buf@.subrange(from as int, from as int + i as int),
            decreases count - i,
        {
            let ghost pre = out@;
            out.push(self.buf[from + i]);
            assert(out@ =~= self.buf@.subrange(from as int, from as int + i as int + 1));
            i = i + 1;
        }
        out
    }

    /// Takes the next event out of the buffer: a whole frame if one is
    /// complete, the shutdown mark on a zero length, and `NeedMore` when the
    /// transport must deliver more bytes first.
    pub fn next_event(&mut self) -> (e: FrameEvent)
        requires
            old(self).wf(),
        ensures
            final(self).wf(),
            match spec_dec_u64(old(self).contents()) {
                None => e is NeedMore && final(self).contents() == old(self).contents(),
                Some((n, after)) => {
                    &&& n == 0 ==> e is Closed && final(self).contents() == after
                    &&& n > 0 && after.len() >= n ==> {
                        &&& e matches FrameEvent::Frame(p)
                        &&& p@ == after.take(n as int)
                        &&& final(self).contents() == after.skip(n as int)
                    }
                    &&& n > 0 && after.len() < n ==> e is NeedMore && final(self).contents()
                        == old(self).contents()
                },
            },
    {
        let (n, hdr_end) = match dec_u64(&self.buf, self.start) {
            None => {
                return FrameEvent::NeedMore;
            },
            Some(x) => x,
        };
        let ghost after = self.buf@.subrange(hdr_end as int, self.buf@.len() as int);
        if n == 0 {
            self.start = hdr_end;
            return FrameEvent::Closed;
        }
        let avail = self.buf.len() - hdr_end;
        if (n as usize) > avail || n > (usize::MAX as u64) {
            return FrameEvent::NeedMore;
        }
        let count = n as usize;
        let payload = self.copy_payload(hdr_end, count);
        assert(payload@ =~= after.take(n as int));
        self.start = hdr_end + count;
        assert(self.contents() =~= after.skip(n as int));
        FrameEvent::Frame(payload)
    }
}

/// What one step of a read loop decides.
#[derive(Debug)]
pub enum ReadStep {
    /// Wait for more bytes from the transport.
    NeedMore,
    /// The peer shut the stream down in order; the loop terminates cleanly.
    Closed,
    /// One well-formed request arrived.
    Got(Request),
    /// A whole frame arrived but its payload is malformed: it is dropped and
    /// the loop continues.
    Skipped,
}

/// What one step of a client-side read loop decides.
#[derive(Debug)]
pub enum AnswerStep {
    NeedMore,
    Closed,
    Got(Answer),
    Skipped,
}

/// One step of the server's read loop: takes the next frame, if any, and
/// parses it as a `Request`. A malformed payload is dropped — `Skipped` —
/// and never terminates the connection; a zero-length frame terminates the
/// loop cleanly with `Closed`.
pub fn read_request_step(reader: &mut FrameReader) -> (r: ReadStep)
    requires
        old(reader).wf(),
    ensures
        final(reader).wf(),
        match spec_dec_u64(old(reader).contents()) {
            None => r is NeedMore && final(reader).contents() == old(reader).contents(),
            Some((n, after)) => {
                &&& n == 0 ==> r is Closed
                &&& n > 0 && after.len() >= n ==> {
                    &&& final(reader).contents() == after.skip(n as int)
                    &&& match spec_parse_request(after.take(n as int)) {
                        Some(m) => r matches ReadStep::Got(req) && req@ == m,
                        None => r is Skipped,
                    }
                }
                &&& n > 0 && after.len() < n ==> r is NeedMore && final(reader).contents() == old(
                    reader,
                ).contents()
            },
        },
{
    match reader.next_event() {
        FrameEvent::NeedMore => ReadStep::NeedMore,
        FrameEvent::Closed => ReadStep::Closed,
        FrameEvent::Frame(payload) => match handle_request(&payload) {
            Ok(req) => ReadStep::Got(req),
            Err(RequestError::ParseErr) => ReadStep::Skipped,
        },
    }
}

/// One step of the client's read loop, parsing `Answer` frames under the
/// same rules as `read_request_step`.
pub fn read_answer_step(reader: &mut FrameReader) -> (r: AnswerStep)
    requires
        old(reader).wf(),
    ensures
        final(reader).wf(),
        match spec_dec_u64(old(reader).contents()) {
            None => r is NeedMore && final(reader).contents() == old(reader).contents(),
            Some((n, after)) => {
                &&& n == 0 ==> r is Closed
                &&& n > 0 && after.len() >= n ==> {
                    &&& final(reader).contents() == after.skip(n as int)
                    &&& match spec_parse_answer(after.take(n as int)) {
                        Some(m) => r matches AnswerStep::Got(ans) && ans@ == m,
                        None => r is Skipped,
                    }
                }
                &&& n > 0 && after.len() < n ==> r is NeedMore && final(reader).contents() == old(
                    reader,
                ).contents()
            },
        },
{
    match reader.next_event() {
        FrameEvent::NeedMore => AnswerStep::NeedMore,
        FrameEvent::Closed => AnswerStep::Closed,
        FrameEvent::Frame(payload) => match get_answer(&payload) {
            Ok(ans) => AnswerStep::Got(ans),
            Err(RequestError::ParseErr) => AnswerStep::Skipped,
        },
    }
}

} // verus!
