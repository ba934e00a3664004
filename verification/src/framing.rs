//! Byte-at-a-time frame assembly for the serial-line transports.
//!
//! A transport reads its stream one byte at a time and hands each outcome of
//! a read to a frame reader as a [`FrameEvent`]; the reader says whether to
//! read on, whether the frame is complete, or which error ends the read.
//! Once complete, the reader checks the frame and copies it out.

use vstd::prelude::*;

use crate::ascii::{ascii_adu_roundtrip, hex_encode, lemma_wire_parts, spec_lrc8, AsciiAdu};
use crate::codec::{overwrite, put_bytes};
use crate::rtu::RtuAdu;
use crate::transport::TransportError;

verus! {

/// The outcome of one single-byte read.
#[derive(Debug, Clone, Copy, PartialEq, Eq, Structural)]
pub enum FrameEvent {
    /// One byte arrived.
    Byte(u8),
    /// The stream reached end-of-file.
    EndOfStream,
    /// The read timed out (or would block).
    TimedOut,
}

/// What the transport does after handing a read outcome to a frame reader.
#[derive(Debug)]
pub enum FrameStep {
    /// Read another byte.
    ReadMore,
    /// Stop reading and finish the frame.
    Complete,
    /// Stop reading and fail with this error.
    Failed(TransportError),
}

/// `frame` ends with CR LF.
pub open spec fn ends_with_crlf(frame: Seq<u8>) -> bool {
    frame.len() >= 2 && frame[frame.len() - 2] == 0x0D && frame[frame.len() - 1] == 0x0A
}

/// The frame after taking in `b`: bytes before the start character are
/// dropped.
pub open spec fn ascii_take_byte(frame: Seq<u8>, b: u8) -> Seq<u8> {
    if frame.len() == 0 && b != 0x3A {
        frame
    } else {
        frame.push(b)
    }
}

/// A frame the ASCII transport stops at: it ends with CR LF and decodes.
pub open spec fn ascii_frame_done(frame: Seq<u8>) -> bool {
    ends_with_crlf(frame) && AsciiAdu::spec_decode(frame) is Ok
}

/// The state `(frame, timed_out)` of an ASCII frame reader after `event`,
/// and the step it asks for.
pub open spec fn spec_ascii_step(state: (Seq<u8>, bool), event: FrameEvent) -> ((Seq<u8>, bool), FrameStep) {
    match event {
        FrameEvent::Byte(b) => {
            let f = ascii_take_byte(state.0, b);
            if f.len() > state.0.len() && ascii_frame_done(f) {
                ((f, state.1), FrameStep::Complete)
            } else {
                ((f, state.1), FrameStep::ReadMore)
            }
        },
        FrameEvent::EndOfStream => if state.0.len() == 0 {
            (state, FrameStep::Failed(TransportError::Disconnected))
        } else {
            (state, FrameStep::Complete)
        },
        FrameEvent::TimedOut => if state.0.len() == 0 {
            (state, FrameStep::Failed(TransportError::Timeout))
        } else {
            ((state.0, true), FrameStep::Complete)
        },
    }
}

/// What an ASCII frame reader's `finish` returns for its state, with a
/// receive buffer of `buf_len` bytes.
pub open spec fn spec_ascii_finish(state: (Seq<u8>, bool), buf_len: nat) -> Result<usize, TransportError> {
    if AsciiAdu::spec_decode(state.0) is Err {
        if state.1 {
            Err(TransportError::Timeout)
        } else {
            Err(TransportError::Disconnected)
        }
    } else if buf_len < state.0.len() {
        Err(TransportError::Disconnected)
    } else {
        Ok(state.0.len() as usize)
    }
}

/// What a successful `finish` leaves in the receive buffer.
pub open spec fn finish_copies(
    r: Result<usize, TransportError>,
    frame: Seq<u8>,
    old_buf: Seq<u8>,
    new_buf: Seq<u8>,
) -> bool {
    match r {
        Ok(n) => n == frame.len() && new_buf == overwrite(old_buf, frame),
        Err(_) => new_buf == old_buf,
    }
}

/// Assembles one ASCII frame from single-byte reads.
#[derive(Debug)]
pub struct AsciiFrameReader {
    frame: Vec<u8>,
    timed_out: bool,
}

impl View for AsciiFrameReader {
    type V = (Seq<u8>, bool);

    closed spec fn view(&self) -> (Seq<u8>, bool) {
        (self.frame@, self.timed_out)
    }
}

impl AsciiFrameReader {
    /// A reader that has seen nothing yet.
    pub fn new() -> (r: Self)
        ensures
            r@ == (Seq::<u8>::empty(), false),
    {
        Self { frame: Vec::new(), timed_out: false }
    }

    /// The bytes collected so far.
    pub fn frame(&self) -> (r: &[u8])
        ensures
            r@ == self@.0,
    {
        self.frame.as_slice()
    }

    /// Take in the outcome of one read.
    pub fn step(&mut self, event: FrameEvent) -> (r: FrameStep)
        ensures
            (final(self)@, r) == spec_ascii_step(old(self)@, event),
    {
        match event {
            FrameEvent::Byte(b) => {
                if self.frame.len() == 0 && b != AsciiAdu::START {
                    // Discard leading garbage until the start character.
                    return FrameStep::ReadMore;
                }
                self.frame.push(b);
                let n = self.frame.len();
                if n >= 2 && self.frame[n - 2] == 0x0D && self.frame[n - 1] == 0x0A {
                    if AsciiAdu::decode(self.frame.as_slice()).is_ok() {
                        return FrameStep::Complete;
                    }
                }
                FrameStep::ReadMore
            },
            FrameEvent::EndOfStream => {
                if self.frame.len() == 0 {
                    FrameStep::Failed(TransportError::Disconnected)
                } else {
                    FrameStep::Complete
                }
            },
            FrameEvent::TimedOut => {
                if self.frame.len() == 0 {
                    FrameStep::Failed(TransportError::Timeout)
                } else {
                    self.timed_out = true;
                    FrameStep::Complete
                }
            },
        }
    }

    /// Check the collected frame and copy it to the front of `buf`.
    pub fn finish(&self, buf: &mut [u8]) -> (r: Result<usize, TransportError>)
        ensures
            r == spec_ascii_finish(self@, old(buf)@.len()),
            finish_copies(r, self@.0, old(buf)@, final(buf)@),
    {
        if AsciiAdu::decode(self.frame.as_slice()).is_err() {
            return if self.timed_out {
                Err(TransportError::Timeout)
            } else {
                Err(TransportError::Disconnected)
            };
        }
        if buf.len() < self.frame.len() {
            return Err(TransportError::Disconnected);
        }
        put_bytes(buf, 0, self.frame.as_slice());
        assert(final(buf)@ =~= overwrite(old(buf)@, self@.0));
        Ok(self.frame.len())
    }
}

/// A frame the RTU transport stops at: long enough and with a good CRC.
pub open spec fn rtu_frame_done(frame: Seq<u8>) -> bool {
    frame.len() >= RtuAdu::MIN_FRAME_SIZE && RtuAdu::spec_decode(frame) is Ok
}

/// The collected bytes of an RTU frame reader after `event`, and the step it
/// asks for.
pub open spec fn spec_rtu_step(frame: Seq<u8>, event: FrameEvent) -> (Seq<u8>, FrameStep) {
    match event {
        FrameEvent::Byte(b) => if rtu_frame_done(frame.push(b)) {
            (frame.push(b), FrameStep::Complete)
        } else {
            (frame.push(b), FrameStep::ReadMore)
        },
        FrameEvent::EndOfStream => (frame, FrameStep::Complete),
        FrameEvent::TimedOut => if frame.len() == 0 {
            (frame, FrameStep::Failed(TransportError::Timeout))
        } else {
            (frame, FrameStep::Complete)
        },
    }
}

/// What an RTU frame reader's `finish` returns for its frame, with a receive
/// buffer of `buf_len` bytes.
pub open spec fn spec_rtu_finish(frame: Seq<u8>, buf_len: nat) -> Result<usize, TransportError> {
    if frame.len() < RtuAdu::MIN_FRAME_SIZE || RtuAdu::spec_decode(frame) is Err || buf_len
        < frame.len() {
        Err(TransportError::Disconnected)
    } else {
        Ok(frame.len() as usize)
    }
}

/// Assembles one RTU frame from single-byte reads.
#[derive(Debug)]
pub struct RtuFrameReader {
    frame: Vec<u8>,
}

impl View for RtuFrameReader {
    type V = Seq<u8>;

    closed spec fn view(&self) -> Seq<u8> {
        self.frame@
    }
}

impl RtuFrameReader {
    /// A reader that has seen nothing yet.
    pub fn new() -> (r: Self)
        ensures
            r@ == Seq::<u8>::empty(),
    {
        Self { frame: Vec::new() }
    }

    /// The bytes collected so far.
    pub fn frame(&self) -> (r: &[u8])
        ensures
            r@ == self@,
    {
        self.frame.as_slice()
    }

    /// Take in the outcome of one read.
    pub fn step(&mut self, event: FrameEvent) -> (r: FrameStep)
        ensures
            (final(self)@, r) == spec_rtu_step(old(self)@, event),
    {
        match event {
            FrameEvent::Byte(b) => {
                self.frame.push(b);
                if self.frame.len() >= RtuAdu::MIN_FRAME_SIZE && RtuAdu::decode(
                    self.frame.as_slice(),
                ).is_ok() {
                    FrameStep::Complete
                } else {
                    FrameStep::ReadMore
                }
            },
            FrameEvent::EndOfStream => FrameStep::Complete,
            FrameEvent::TimedOut => {
                if self.frame.len() == 0 {
                    FrameStep::Failed(TransportError::Timeout)
                } else {
                    FrameStep::Complete
                }
            },
        }
    }

    /// Check the collected frame and copy it to the front of `buf`.
    pub fn finish(&self, buf: &mut [u8]) -> (r: Result<usize, TransportError>)
        ensures
            r == spec_rtu_finish(self@, old(buf)@.len()),
            finish_copies(r, self@, old(buf)@, final(buf)@),
    {
        if self.frame.len() < RtuAdu::MIN_FRAME_SIZE {
            return Err(TransportError::Disconnected);
        }
        if RtuAdu::decode(self.frame.as_slice()).is_err() {
            return Err(TransportError::Disconnected);
        }
        if buf.len() < self.frame.len() {
            return Err(TransportError::Disconnected);
        }
        put_bytes(buf, 0, self.frame.as_slice());
        assert(final(buf)@ =~= overwrite(old(buf)@, self@));
        Ok(self.frame.len())
    }
}

/// The state of an ASCII frame reader after taking in `bytes` one at a time
/// from `state`, stopping early where it asks for anything but another byte,
/// and the last step it asked for.
pub open spec fn spec_ascii_feed(state: (Seq<u8>, bool), bytes: Seq<u8>) -> (
    (Seq<u8>, bool),
    FrameStep,
)
    decreases bytes.len(),
{
    if bytes.len() == 0 {
        (state, FrameStep::ReadMore)
    } else {
        let next = spec_ascii_step(state, FrameEvent::Byte(bytes[0]));
        match next.1 {
            FrameStep::ReadMore => spec_ascii_feed(next.0, bytes.skip(1)),
            _ => next,
        }
    }
}

/// No byte of a hex encoding is a CR.
proof fn lemma_hex_no_cr(s: Seq<u8>)
    ensures
        forall|j: int| 0 <= j < hex_encode(s).len() ==> #[trigger] hex_encode(s)[j] != 0x0D,
{
}

/// Inside an encoded frame, CR LF stands only at the end: no shorter prefix
/// ends with it.
pub proof fn lemma_wire_prefix_no_crlf(v: (u8, Seq<u8>), k: int)
    requires
        1 <= k < AsciiAdu::spec_wire(v).len(),
    ensures
        !ends_with_crlf(AsciiAdu::spec_wire(v).take(k)),
{
    let w = AsciiAdu::spec_wire(v);
    let bytes = AsciiAdu::body(v).push(spec_lrc8(AsciiAdu::body(v)));
    lemma_wire_parts(v);
    lemma_hex_no_cr(bytes);
    if k >= 3 {
        assert(w[k - 2] == w.subrange(1, w.len() - 2)[k - 3]);
    }
}

/// Fed the rest of an encoded frame, a reader holding a non-empty proper
/// prefix of it completes exactly at its end.
proof fn lemma_ascii_feed_rest(v: (u8, Seq<u8>), k: int)
    requires
        v.1.len() >= 1,
        1 <= k < AsciiAdu::spec_wire(v).len(),
    ensures
        spec_ascii_feed((AsciiAdu::spec_wire(v).take(k), false), AsciiAdu::spec_wire(v).skip(k))
            == ((AsciiAdu::spec_wire(v), false), FrameStep::Complete),
    decreases AsciiAdu::spec_wire(v).len() - k,
{
    let w = AsciiAdu::spec_wire(v);
    let rest = w.skip(k);
    assert(rest[0] == w[k]);
    assert(w.take(k).push(w[k]) =~= w.take(k + 1));
    if k + 1 == w.len() {
        assert(w.take(k + 1) =~= w);
        lemma_wire_parts(v);
        ascii_adu_roundtrip(v);
    } else {
        lemma_wire_prefix_no_crlf(v, k + 1);
        assert(rest.skip(1) =~= w.skip(k + 1));
        lemma_ascii_feed_rest(v, k + 1);
    }
}

/// Bytes other than the start character, fed to a reader that has nothing
/// yet, leave it as it was.
proof fn lemma_ascii_feed_garbage(garbage: Seq<u8>, rest: Seq<u8>)
    requires
        forall|i: int| 0 <= i < garbage.len() ==> garbage[i] != 0x3A,
    ensures
        spec_ascii_feed((Seq::empty(), false), garbage + rest) == spec_ascii_feed(
            (Seq::empty(), false),
            rest,
        ),
    decreases garbage.len(),
{
    if garbage.len() > 0 {
        assert((garbage + rest)[0] == garbage[0]);
        assert((garbage + rest).skip(1) =~= garbage.skip(1) + rest);
        lemma_ascii_feed_garbage(garbage.skip(1), rest);
    }
}

/// What a transport sends is what the other end's ASCII transport receives:
/// the encoding of an ADU with a non-empty PDU, after any bytes other than
/// the start character, makes the reader complete exactly at its last byte
/// holding the frame, and `finish` then hands the whole frame over.
pub proof fn ascii_receive_roundtrip(v: (u8, Seq<u8>), garbage: Seq<u8>, buf_len: nat)
    requires
        v.1.len() >= 1,
        forall|i: int| 0 <= i < garbage.len() ==> garbage[i] != 0x3A,
        buf_len >= AsciiAdu::spec_wire(v).len(),
    ensures
        spec_ascii_feed((Seq::empty(), false), garbage + AsciiAdu::spec_wire(v)) == (
            (AsciiAdu::spec_wire(v), false),
            FrameStep::Complete,
        ),
        spec_ascii_finish((AsciiAdu::spec_wire(v), false), buf_len) == Ok::<usize, TransportError>(
            AsciiAdu::spec_wire(v).len() as usize,
        ),
{
    let w = AsciiAdu::spec_wire(v);
    lemma_ascii_feed_garbage(garbage, w);
    lemma_wire_parts(v);
    assert(seq![0x3Au8] =~= w.take(1));
    lemma_ascii_feed_rest(v, 1);
    ascii_adu_roundtrip(v);
}

/// An ASCII frame reader only ever holds bytes from a start character on.
pub proof fn ascii_reader_starts_at_colon(state: (Seq<u8>, bool), event: FrameEvent)
    requires
        state.0.len() == 0 || state.0[0] == 0x3A,
    ensures
        spec_ascii_step(state, event).0.0.len() == 0 || spec_ascii_step(state, event).0.0[0]
            == 0x3A,
{
}

/// An RTU frame reader that completes on a byte holds a frame that `finish`
/// accepts, given room for it.
pub proof fn rtu_reader_completes_on_frames(frame: Seq<u8>, b: u8, buf_len: nat)
    requires
        spec_rtu_step(frame, FrameEvent::Byte(b)).1 is Complete,
        buf_len >= frame.len() + 1,
    ensures
        RtuAdu::spec_decode(spec_rtu_step(frame, FrameEvent::Byte(b)).0) is Ok,
        spec_rtu_finish(spec_rtu_step(frame, FrameEvent::Byte(b)).0, buf_len) is Ok,
{
}

/// The bytes collected by an RTU frame reader after taking in `bytes` one at
/// a time from `frame`, stopping early where it asks for anything but
/// another byte, and the last step it asked for.
pub open spec fn spec_rtu_feed(frame: Seq<u8>, bytes: Seq<u8>) -> (Seq<u8>, FrameStep)
    decreases bytes.len(),
{
    if bytes.len() == 0 {
        (frame, FrameStep::ReadMore)
    } else {
        let next = spec_rtu_step(frame, FrameEvent::Byte(bytes[0]));
        match next.1 {
            FrameStep::ReadMore => spec_rtu_feed(next.0, bytes.skip(1)),
            _ => next,
        }
    }
}

proof fn lemma_rtu_feed_rest(v: (u8, Seq<u8>), k: int)
    requires
        v.1.len() >= 1,
        0 <= k < RtuAdu::spec_wire(v).len(),
        forall|j: int|
            RtuAdu::MIN_FRAME_SIZE <= j < RtuAdu::spec_wire(v).len() ==> RtuAdu::spec_decode(
                #[trigger] RtuAdu::spec_wire(v).take(j),
            ) is Err,
    ensures
        spec_rtu_feed(RtuAdu::spec_wire(v).take(k), RtuAdu::spec_wire(v).skip(k)) == (
            RtuAdu::spec_wire(v),
            FrameStep::Complete,
        ),
    decreases RtuAdu::spec_wire(v).len() - k,
{
    let w = RtuAdu::spec_wire(v);
    let rest = w.skip(k);
    assert(rest[0] == w[k]);
    assert(w.take(k).push(w[k]) =~= w.take(k + 1));
    if k + 1 == w.len() {
        assert(w.take(k + 1) =~= w);
        crate::rtu::rtu_adu_roundtrip(v);
    } else {
        assert(rest.skip(1) =~= w.skip(k + 1));
        lemma_rtu_feed_rest(v, k + 1);
    }
}

/// What a transport sends is what the other end's RTU transport receives,
/// unless a shorter prefix of the frame already carries a valid CRC: RTU
/// frames have no end marker, so the reader stops at the first prefix that
/// decodes. Without such a prefix, the encoding of an ADU with a non-empty
/// PDU makes the reader complete exactly at its last byte holding the
/// frame, and `finish` hands the whole frame over.
pub proof fn rtu_receive_roundtrip(v: (u8, Seq<u8>), buf_len: nat)
    requires
        v.1.len() >= 1,
        forall|j: int|
            RtuAdu::MIN_FRAME_SIZE <= j < RtuAdu::spec_wire(v).len() ==> RtuAdu::spec_decode(
                #[trigger] RtuAdu::spec_wire(v).take(j),
            ) is Err,
        buf_len >= RtuAdu::spec_wire(v).len(),
    ensures
        spec_rtu_feed(Seq::empty(), RtuAdu::spec_wire(v)) == (
            RtuAdu::spec_wire(v),
            FrameStep::Complete,
        ),
        spec_rtu_finish(RtuAdu::spec_wire(v), buf_len) == Ok::<usize, TransportError>(
            RtuAdu::spec_wire(v).len() as usize,
        ),
{
    let w = RtuAdu::spec_wire(v);
    assert(w.take(0) =~= Seq::<u8>::empty());
    assert(w.skip(0) =~= w);
    lemma_rtu_feed_rest(v, 0);
    crate::rtu::rtu_adu_roundtrip(v);
}

} // verus!
