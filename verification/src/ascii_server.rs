//! The request side of an ASCII Modbus server: assembling a request frame
//! from the stream, deciding whether and how to answer it, and framing the
//! answer.

use vstd::prelude::*;

use crate::ascii::{ascii_adu_roundtrip, lemma_wire_parts, AsciiAdu};
use crate::codec::{copy_range, view_result};
use crate::error::{DecodeError, EncodeError};
use crate::framing::{ascii_take_byte, ends_with_crlf, lemma_wire_prefix_no_crlf, FrameEvent};

verus! {

/// Errors that can occur while running the ASCII server.
#[derive(Debug)]
pub enum AsciiServerError {
    /// An underlying I/O error.
    Io(std::io::Error),
    /// Failed to encode a response ADU.
    Encode(EncodeError),
    /// Failed to decode a request ADU.
    Decode(DecodeError),
    /// The peer disconnected or the stream reached end-of-file.
    Disconnected,
}

impl From<std::io::Error> for AsciiServerError {
    fn from(e: std::io::Error) -> (r: Self) {
        Self::Io(e)
    }
}

impl vstd::std_specs::convert::FromSpecImpl<std::io::Error> for AsciiServerError {
    open spec fn obeys_from_spec() -> bool {
        true
    }

    open spec fn from_spec(e: std::io::Error) -> Self {
        AsciiServerError::Io(e)
    }
}

impl From<EncodeError> for AsciiServerError {
    fn from(e: EncodeError) -> (r: Self) {
        Self::Encode(e)
    }
}

impl vstd::std_specs::convert::FromSpecImpl<EncodeError> for AsciiServerError {
    open spec fn obeys_from_spec() -> bool {
        true
    }

    open spec fn from_spec(e: EncodeError) -> Self {
        AsciiServerError::Encode(e)
    }
}

impl From<DecodeError> for AsciiServerError {
    fn from(e: DecodeError) -> (r: Self) {
        Self::Decode(e)
    }
}

impl vstd::std_specs::convert::FromSpecImpl<DecodeError> for AsciiServerError {
    open spec fn obeys_from_spec() -> bool {
        true
    }

    open spec fn from_spec(e: DecodeError) -> Self {
        AsciiServerError::Decode(e)
    }
}

/// What the server does after handing a read outcome to a request reader.
#[derive(Debug, Clone, Copy, PartialEq, Eq, Structural)]
pub enum RequestStep {
    /// Read another byte.
    ReadMore,
    /// Stop reading and decode the request.
    Complete,
    /// The peer is gone and no request had begun.
    Disconnected,
}

/// A request frame the server stops reading at: long enough for an ADU and
/// ending with CR LF.
pub open spec fn request_frame_complete(frame: Seq<u8>) -> bool {
    frame.len() >= AsciiAdu::MIN_FRAME_SIZE && ends_with_crlf(frame)
}

/// The state `(frame, eof)` of a request reader after `event`, and the step
/// it asks for.
pub open spec fn spec_request_step(state: (Seq<u8>, bool), event: FrameEvent) -> (
    (Seq<u8>, bool),
    RequestStep,
) {
    match event {
        FrameEvent::Byte(b) => {
            let f = ascii_take_byte(state.0, b);
            if f.len() > state.0.len() && request_frame_complete(f) {
                ((f, state.1), RequestStep::Complete)
            } else {
                ((f, state.1), RequestStep::ReadMore)
            }
        },
        FrameEvent::EndOfStream | FrameEvent::TimedOut => if state.0.len() == 0 {
            (state, RequestStep::Disconnected)
        } else {
            ((state.0, true), RequestStep::Complete)
        },
    }
}

/// The request a reader in state `(frame, eof)` yields: the decoded ADU, or
/// `Disconnected` for a frame cut short by the end of the stream, or the
/// decode error.
pub open spec fn spec_request_finish(state: (Seq<u8>, bool)) -> Result<(u8, Seq<u8>), AsciiServerError> {
    match AsciiAdu::spec_decode(state.0) {
        Ok(v) => Ok(v),
        Err(e) => if state.1 && !request_frame_complete(state.0) {
            Err(AsciiServerError::Disconnected)
        } else {
            Err(AsciiServerError::Decode(e))
        },
    }
}

/// A server-side result taken by its view.
pub open spec fn view_request(r: Result<AsciiAdu, AsciiServerError>) -> Result<
    (u8, Seq<u8>),
    AsciiServerError,
> {
    match r {
        Ok(a) => Ok(a@),
        Err(e) => Err(e),
    }
}

/// Assembles one ASCII request frame from single-byte reads.
#[derive(Debug)]
pub struct AsciiRequestReader {
    frame: Vec<u8>,
    eof: bool,
}

impl View for AsciiRequestReader {
    type V = (Seq<u8>, bool);

    closed spec fn view(&self) -> (Seq<u8>, bool) {
        (self.frame@, self.eof)
    }
}

impl AsciiRequestReader {
    /// A reader that has seen nothing yet.
    pub fn new() -> (r: Self)
        ensures
            r@ == (Seq::<u8>::empty(), false),
    {
        Self { frame: Vec::new(), eof: false }
    }

    /// Take in the outcome of one read.
    pub fn step(&mut self, event: FrameEvent) -> (r: RequestStep)
        ensures
            (final(self)@, r) == spec_request_step(old(self)@, event),
    {
        match event {
            FrameEvent::Byte(b) => {
                if self.frame.len() == 0 && b != AsciiAdu::START {
                    // Discard leading garbage until the start character.
                    return RequestStep::ReadMore;
                }
                self.frame.push(b);
                let n = self.frame.len();
                if n >= AsciiAdu::MIN_FRAME_SIZE && self.frame[n - 2] == 0x0D && self.frame[n - 1]
                    == 0x0A {
                    RequestStep::Complete
                } else {
                    RequestStep::ReadMore
                }
            },
            FrameEvent::EndOfStream | FrameEvent::TimedOut => {
                if self.frame.len() == 0 {
                    RequestStep::Disconnected
                } else {
                    self.eof = true;
                    RequestStep::Complete
                }
            },
        }
    }

    /// Decode the collected request.
    pub fn finish(&self) -> (r: Result<AsciiAdu, AsciiServerError>)
        ensures
            view_request(r) == spec_request_finish(self@),
    {
        let n = self.frame.len();
        let complete = n >= AsciiAdu::MIN_FRAME_SIZE && self.frame[n - 2] == 0x0D && self.frame[n
            - 1] == 0x0A;
        let r = AsciiAdu::decode(self.frame.as_slice());
        assert(view_result(r) == AsciiAdu::spec_decode(self@.0));
        match r {
            Ok(adu) => Ok(adu),
            Err(e) => if self.eof && !complete {
                Err(AsciiServerError::Disconnected)
            } else {
                Err(AsciiServerError::Decode(e))
            },
        }
    }
}

/// The state `(frame, eof)` of an asynchronous request reader after
/// `event`, and the step it asks for: as the synchronous reader, except that
/// a frame is complete only once it also decodes.
pub open spec fn spec_async_request_step(state: (Seq<u8>, bool), event: FrameEvent) -> (
    (Seq<u8>, bool),
    RequestStep,
) {
    match event {
        FrameEvent::Byte(b) => {
            let f = ascii_take_byte(state.0, b);
            if f.len() > state.0.len() && request_frame_complete(f) && AsciiAdu::spec_decode(
                f,
            ) is Ok {
                ((f, state.1), RequestStep::Complete)
            } else {
                ((f, state.1), RequestStep::ReadMore)
            }
        },
        FrameEvent::EndOfStream | FrameEvent::TimedOut => if state.0.len() == 0 {
            (state, RequestStep::Disconnected)
        } else {
            ((state.0, true), RequestStep::Complete)
        },
    }
}

/// Assembles one ASCII request frame from single-byte reads of an
/// asynchronous stream, where the end of the stream is the only way a read
/// stops short.
#[derive(Debug)]
pub struct AsyncAsciiRequestReader {
    frame: Vec<u8>,
    eof: bool,
}

impl View for AsyncAsciiRequestReader {
    type V = (Seq<u8>, bool);

    closed spec fn view(&self) -> (Seq<u8>, bool) {
        (self.frame@, self.eof)
    }
}

impl AsyncAsciiRequestReader {
    /// A reader that has seen nothing yet.
    pub fn new() -> (r: Self)
        ensures
            r@ == (Seq::<u8>::empty(), false),
    {
        Self { frame: Vec::new(), eof: false }
    }

    /// Take in the outcome of one read.
    pub fn step(&mut self, event: FrameEvent) -> (r: RequestStep)
        ensures
            (final(self)@, r) == spec_async_request_step(old(self)@, event),
    {
        match event {
            FrameEvent::Byte(b) => {
                if self.frame.len() == 0 && b != AsciiAdu::START {
                    // Discard leading garbage until the start character.
                    return RequestStep::ReadMore;
                }
                self.frame.push(b);
                let n = self.frame.len();
                if n >= AsciiAdu::MIN_FRAME_SIZE && self.frame[n - 2] == 0x0D && self.frame[n - 1]
                    == 0x0A && AsciiAdu::decode(self.frame.as_slice()).is_ok() {
                    RequestStep::Complete
                } else {
                    RequestStep::ReadMore
                }
            },
            FrameEvent::EndOfStream | FrameEvent::TimedOut => {
                if self.frame.len() == 0 {
                    RequestStep::Disconnected
                } else {
                    self.eof = true;
                    RequestStep::Complete
                }
            },
        }
    }

    /// Decode the collected request.
    pub fn finish(&self) -> (r: Result<AsciiAdu, AsciiServerError>)
        ensures
            view_request(r) == spec_request_finish(self@),
    {
        let n = self.frame.len();
        let complete = n >= AsciiAdu::MIN_FRAME_SIZE && self.frame[n - 2] == 0x0D && self.frame[n
            - 1] == 0x0A;
        let r = AsciiAdu::decode(self.frame.as_slice());
        assert(view_result(r) == AsciiAdu::spec_decode(self@.0));
        match r {
            Ok(adu) => Ok(adu),
            Err(e) => if self.eof && !complete {
                Err(AsciiServerError::Disconnected)
            } else {
                Err(AsciiServerError::Decode(e))
            },
        }
    }
}

/// How the server treats a request addressed to `request_address`.
#[derive(Debug, Clone, Copy, PartialEq, Eq, Structural)]
pub enum ServeAction {
    /// Addressed to another server: leave it alone.
    Ignore,
    /// A broadcast: carry it out, write no response.
    ExecuteSilently,
    /// Addressed to this server: carry it out and write the response.
    Respond,
}

/// The action for a request to `request_address` at a server listening on
/// `server_address`.
pub open spec fn spec_serve_action(request_address: u8, server_address: u8) -> ServeAction {
    if request_address != server_address && request_address != 0 {
        ServeAction::Ignore
    } else if request_address == 0 {
        ServeAction::ExecuteSilently
    } else {
        ServeAction::Respond
    }
}

/// Decide how to treat `request`: requests addressed to a different server
/// (and not broadcast) are ignored, broadcasts are carried out without a
/// response.
pub fn serve_action(request: &AsciiAdu, server_address: u8) -> (r: ServeAction)
    ensures
        r == spec_serve_action(request.address, server_address),
{
    if request.address != server_address && !request.is_broadcast() {
        ServeAction::Ignore
    } else if request.is_broadcast() {
        ServeAction::ExecuteSilently
    } else {
        ServeAction::Respond
    }
}

/// The response frame a server writes for `pdu`: the ASCII ADU echoing the
/// request address, or the encode error when it exceeds the 513-byte
/// transmit buffer.
pub open spec fn spec_response_frame(address: u8, pdu: Seq<u8>) -> Result<Seq<u8>, AsciiServerError> {
    if AsciiAdu::spec_wire((address, pdu)).len() <= 513 {
        Ok(AsciiAdu::spec_wire((address, pdu)))
    } else {
        Err(AsciiServerError::Encode(EncodeError::BufferTooSmall))
    }
}

/// Frame the response PDU `pdu` for a request from `address`.
pub fn response_frame(address: u8, pdu: &[u8]) -> (r: Result<Vec<u8>, AsciiServerError>)
    ensures
        match r {
            Ok(v) => spec_response_frame(address, pdu@) == Ok::<Seq<u8>, AsciiServerError>(v@),
            Err(e) => spec_response_frame(address, pdu@) == Err::<Seq<u8>, AsciiServerError>(e),
        },
{
    let response = AsciiAdu::new(address, copy_range(pdu, 0, pdu.len()));
    assert(pdu@.subrange(0, pdu@.len() as int) =~= pdu@);
    let mut tx = [0u8; 513];
    match response.encode(&mut tx) {
        Ok(m) => {
            let frame = copy_range(&tx, 0, m);
            assert(frame@ =~= AsciiAdu::spec_wire((address, pdu@)));
            Ok(frame)
        },
        Err(e) => Err(AsciiServerError::Encode(e)),
    }
}

/// The state of a request reader after taking in `bytes` one at a time from
/// `state`, stopping early where it asks for anything but another byte, and
/// the last step it asked for.
pub open spec fn spec_request_feed(state: (Seq<u8>, bool), bytes: Seq<u8>) -> (
    (Seq<u8>, bool),
    RequestStep,
)
    decreases bytes.len(),
{
    if bytes.len() == 0 {
        (state, RequestStep::ReadMore)
    } else {
        let next = spec_request_step(state, FrameEvent::Byte(bytes[0]));
        if next.1 == RequestStep::ReadMore {
            spec_request_feed(next.0, bytes.skip(1))
        } else {
            next
        }
    }
}

proof fn lemma_request_feed_rest(v: (u8, Seq<u8>), k: int)
    requires
        v.1.len() >= 1,
        1 <= k < AsciiAdu::spec_wire(v).len(),
    ensures
        spec_request_feed((AsciiAdu::spec_wire(v).take(k), false), AsciiAdu::spec_wire(v).skip(k))
            == ((AsciiAdu::spec_wire(v), false), RequestStep::Complete),
    decreases AsciiAdu::spec_wire(v).len() - k,
{
    let w = AsciiAdu::spec_wire(v);
    let rest = w.skip(k);
    assert(rest[0] == w[k]);
    assert(w.take(k).push(w[k]) =~= w.take(k + 1));
    if k + 1 == w.len() {
        assert(w.take(k + 1) =~= w);
        lemma_wire_parts(v);
    } else {
        lemma_wire_prefix_no_crlf(v, k + 1);
        assert(rest.skip(1) =~= w.skip(k + 1));
        lemma_request_feed_rest(v, k + 1);
    }
}

proof fn lemma_request_feed_garbage(garbage: Seq<u8>, rest: Seq<u8>)
    requires
        forall|i: int| 0 <= i < garbage.len() ==> garbage[i] != 0x3A,
    ensures
        spec_request_feed((Seq::empty(), false), garbage + rest) == spec_request_feed(
            (Seq::empty(), false),
            rest,
        ),
    decreases garbage.len(),
{
    if garbage.len() > 0 {
        assert((garbage + rest)[0] == garbage[0]);
        assert((garbage + rest).skip(1) =~= garbage.skip(1) + rest);
        lemma_request_feed_garbage(garbage.skip(1), rest);
    }
}

/// A request a client sends is the request the server reads: the encoding
/// of an ADU with a non-empty PDU, after any bytes other than the start
/// character, makes the request reader complete exactly at its last byte,
/// and the request it yields is the ADU.
pub proof fn ascii_request_roundtrip(v: (u8, Seq<u8>), garbage: Seq<u8>)
    requires
        v.1.len() >= 1,
        forall|i: int| 0 <= i < garbage.len() ==> garbage[i] != 0x3A,
    ensures
        spec_request_feed((Seq::empty(), false), garbage + AsciiAdu::spec_wire(v)) == (
            (AsciiAdu::spec_wire(v), false),
            RequestStep::Complete,
        ),
        spec_request_finish((AsciiAdu::spec_wire(v), false)) == Ok::<
            (u8, Seq<u8>),
            AsciiServerError,
        >(v),
{
    let w = AsciiAdu::spec_wire(v);
    lemma_request_feed_garbage(garbage, w);
    lemma_wire_parts(v);
    assert(seq![0x3Au8] =~= w.take(1));
    lemma_request_feed_rest(v, 1);
    ascii_adu_roundtrip(v);
}

/// A server answers exactly the requests addressed to it, carries out
/// broadcasts without answering, and leaves all other requests alone.
pub proof fn serve_action_cases(request_address: u8, server_address: u8)
    ensures
        spec_serve_action(request_address, server_address) == ServeAction::Respond <==> (
        request_address == server_address && request_address != 0),
        spec_serve_action(request_address, server_address) == ServeAction::ExecuteSilently
            <==> request_address == 0,
        spec_serve_action(request_address, server_address) == ServeAction::Ignore <==> (
        request_address != server_address && request_address != 0),
{
}

/// The state of an asynchronous request reader after taking in `bytes` one
/// at a time from `state`, stopping early where it asks for anything but
/// another byte, and the last step it asked for.
pub open spec fn spec_async_request_feed(state: (Seq<u8>, bool), bytes: Seq<u8>) -> (
    (Seq<u8>, bool),
    RequestStep,
)
    decreases bytes.len(),
{
    if bytes.len() == 0 {
        (state, RequestStep::ReadMore)
    } else {
        let next = spec_async_request_step(state, FrameEvent::Byte(bytes[0]));
        if next.1 == RequestStep::ReadMore {
            spec_async_request_feed(next.0, bytes.skip(1))
        } else {
            next
        }
    }
}

proof fn lemma_async_request_feed_rest(v: (u8, Seq<u8>), k: int)
    requires
        v.1.len() >= 1,
        1 <= k < AsciiAdu::spec_wire(v).len(),
    ensures
        spec_async_request_feed(
            (AsciiAdu::spec_wire(v).take(k), false),
            AsciiAdu::spec_wire(v).skip(k),
        ) == ((AsciiAdu::spec_wire(v), false), RequestStep::Complete),
    decreases AsciiAdu::spec_wire(v).len() - k,
{
    let w = AsciiAdu::spec_wire(v);
    let rest = w.skip(k);
    assert(rest[0] == w[k]);
    assert(w.take(k).push(w[k]) =~= w.take(k + 1));
    if k + 1 == w.len() {
        assert(w.take(k + 1) =~= w);
        lemma_wire_parts(v);
        ascii_adu_roundtrip(v);
    } else {
        lemma_wire_prefix_no_crlf(v, k + 1);
        assert(rest.skip(1) =~= w.skip(k + 1));
        lemma_async_request_feed_rest(v, k + 1);
    }
}

proof fn lemma_async_request_feed_garbage(garbage: Seq<u8>, rest: Seq<u8>)
    requires
        forall|i: int| 0 <= i < garbage.len() ==> garbage[i] != 0x3A,
    ensures
        spec_async_request_feed((Seq::empty(), false), garbage + rest) == spec_async_request_feed(
            (Seq::empty(), false),
            rest,
        ),
    decreases garbage.len(),
{
    if garbage.len() > 0 {
        assert((garbage + rest)[0] == garbage[0]);
        assert((garbage + rest).skip(1) =~= garbage.skip(1) + rest);
        lemma_async_request_feed_garbage(garbage.skip(1), rest);
    }
}

/// A request a client sends is the request the asynchronous server reads:
/// the encoding of an ADU with a non-empty PDU, after any bytes other than
/// the start character, makes the reader complete exactly at its last byte,
/// and the request it yields is the ADU.
pub proof fn async_ascii_request_roundtrip(v: (u8, Seq<u8>), garbage: Seq<u8>)
    requires
        v.1.len() >= 1,
        forall|i: int| 0 <= i < garbage.len() ==> garbage[i] != 0x3A,
    ensures
        spec_async_request_feed((Seq::empty(), false), garbage + AsciiAdu::spec_wire(v)) == (
            (AsciiAdu::spec_wire(v), false),
            RequestStep::Complete,
        ),
        spec_request_finish((AsciiAdu::spec_wire(v), false)) == Ok::<
            (u8, Seq<u8>),
            AsciiServerError,
        >(v),
{
    let w = AsciiAdu::spec_wire(v);
    lemma_async_request_feed_garbage(garbage, w);
    lemma_wire_parts(v);
    assert(seq![0x3Au8] =~= w.take(1));
    lemma_async_request_feed_rest(v, 1);
    ascii_adu_roundtrip(v);
}

} // verus!
