//! The client side: configuration, errors, response validation and the
//! generic client core that sends request PDUs through an ADU adapter.

use vstd::prelude::*;

use core::time::Duration;

use crate::error::{DecodeError, EncodeError};
use crate::exception::ExceptionResponse;
use crate::helpers::{bytes_words, u16_from_bytes, Endian, HelpersError, WordOrder};
use crate::transport::TransportError;

verus! {

/// The duration `Duration::from_secs` makes of `secs` seconds.
pub uninterp spec fn seconds(secs: u64) -> Duration;

/// The duration `Duration::from_millis` makes of `millis` milliseconds.
pub uninterp spec fn milliseconds(millis: u64) -> Duration;

/// The whole number of nanoseconds a duration spans, as
/// `Duration::as_nanos` reports it.
pub uninterp spec fn nanos(d: Duration) -> u128;

/// The number of nanoseconds in `Duration::MAX`: `u64::MAX` seconds and
/// 999 999 999 nanoseconds.
pub open spec fn max_duration_nanos() -> int {
    18446744073709551615999999999
}

/// `Duration::from_secs`: a duration of `secs` seconds, which depends on
/// `secs` alone and spans `secs * 10^9` nanoseconds.
#[verifier::external_body]
pub(crate) fn duration_from_secs(secs: u64) -> (r: Duration)
    ensures
        r == seconds(secs),
        nanos(r) == secs * 1_000_000_000,
{
    Duration::from_secs(secs)
}

/// `Duration::from_millis`: a duration of `millis` milliseconds, which
/// depends on `millis` alone and spans `millis * 10^6` nanoseconds.
#[verifier::external_body]
pub(crate) fn duration_from_millis(millis: u64) -> (r: Duration)
    ensures
        r == milliseconds(millis),
        nanos(r) == millis * 1_000_000,
{
    Duration::from_millis(millis)
}

/// `Duration::saturating_add`: the sum of the two durations, or
/// `Duration::MAX` where the sum does not fit.
#[verifier::external_body]
fn duration_saturating_add(a: Duration, b: Duration) -> (r: Duration)
    ensures
        nanos(r) == (if nanos(a) + nanos(b) <= max_duration_nanos() {
            nanos(a) + nanos(b)
        } else {
            max_duration_nanos()
        }),
{
    a.saturating_add(b)
}

/// `Ord::min` on durations, which are ordered by the time they span:
/// `b` where it is shorter than `a`, else `a` (the first of two equal ones).
#[verifier::external_body]
fn duration_min(a: Duration, b: Duration) -> (r: Duration)
    ensures
        r == (if nanos(b) < nanos(a) { b } else { a }),
{
    a.min(b)
}

/// The nanoseconds of the delay that follows one of `prev` nanoseconds:
/// twice as long, saturating at the longest duration, and at most `max`.
pub open spec fn next_backoff_nanos(prev: int, max: int) -> int {
    let doubled = if 2 * prev <= max_duration_nanos() {
        2 * prev
    } else {
        max_duration_nanos()
    };
    if max < doubled {
        max
    } else {
        doubled
    }
}

/// The delay before the next retry after one that waited `backoff`: the
/// delay doubles (saturating) and never exceeds `max_backoff`.
pub fn next_backoff(backoff: Duration, max_backoff: Duration) -> (r: Duration)
    ensures
        nanos(r) == next_backoff_nanos(nanos(backoff) as int, nanos(max_backoff) as int),
        nanos(r) <= nanos(max_backoff),
        nanos(max_backoff) < 2 * nanos(backoff) && nanos(max_backoff) < max_duration_nanos()
            ==> r == max_backoff,
{
    let doubled = duration_saturating_add(backoff, backoff);
    duration_min(doubled, max_backoff)
}

/// Configuration shared between clients.
#[derive(Debug, Clone, Copy)]
pub struct ClientConfig {
    /// Maximum time to wait for a response.
    pub timeout: Duration,
    /// Maximum time the connection may remain idle before reads/writes time out.
    ///
    /// When set, the underlying stream's read and write timeouts are configured
    /// to this value so that an idle connection is closed instead of remaining
    /// open indefinitely. If `None`, the response `timeout` is used.
    pub idle_timeout: Option<Duration>,
    /// Byte order used by typed register helpers.
    pub endian: Endian,
    /// Word order used by multi-register typed helpers.
    pub word_order: WordOrder,
}

impl Default for ClientConfig {
    /// Five-second response timeout, no idle timeout, big-endian registers
    /// with the most significant word first.
    fn default() -> (r: Self)
        ensures
            r.timeout == seconds(5),
            nanos(r.timeout) == 5_000_000_000,
            r.idle_timeout is None,
            r.endian == Endian::Big,
            r.word_order == WordOrder::MostSignificantFirst,
    {
        Self {
            timeout: duration_from_secs(5),
            idle_timeout: None,
            endian: Endian::Big,
            word_order: WordOrder::MostSignificantFirst,
        }
    }
}

/// Policy controlling retry behavior for reconnecting adapters.
#[derive(Debug, Clone, Copy)]
pub struct RetryPolicy {
    /// Maximum number of retry attempts before giving up.
    pub max_retries: u32,
    /// Initial delay before the first retry.
    pub initial_backoff: Duration,
    /// Maximum delay between retries.
    pub max_backoff: Duration,
}

impl Default for RetryPolicy {
    /// Three retries, starting at 100 ms and doubling up to 5 s.
    fn default() -> (r: Self)
        ensures
            r.max_retries == 3,
            r.initial_backoff == milliseconds(100),
            nanos(r.initial_backoff) == 100_000_000,
            r.max_backoff == seconds(5),
            nanos(r.max_backoff) == 5_000_000_000,
    {
        Self {
            max_retries: 3,
            initial_backoff: duration_from_millis(100),
            max_backoff: duration_from_secs(5),
        }
    }
}

/// Errors that can occur while using a Modbus client.
#[derive(Debug)]
pub enum ClientError {
    /// Transport-level failure.
    Transport(TransportError),
    /// Failed to encode the request.
    Encode(EncodeError),
    /// Failed to decode the response.
    Decode(DecodeError),
    /// No response was received within the configured timeout.
    Timeout,
    /// The response was malformed or did not match the request.
    InvalidResponse,
    /// The server returned an exception response.
    Exception(ExceptionResponse),
}

/// The client error a transport error becomes: a timeout is reported as
/// such, anything else is wrapped.
pub open spec fn transport_client_error(e: TransportError) -> ClientError {
    match e {
        TransportError::Timeout => ClientError::Timeout,
        other => ClientError::Transport(other),
    }
}

/// The client error a conversion error becomes.
pub open spec fn helpers_client_error(e: HelpersError) -> ClientError {
    match e {
        HelpersError::InvalidLength => ClientError::Decode(DecodeError::InvalidLength),
        HelpersError::InvalidString => ClientError::Decode(DecodeError::InvalidValue),
    }
}

impl From<TransportError> for ClientError {
    fn from(e: TransportError) -> (r: Self) {
        match e {
            TransportError::Timeout => Self::Timeout,
            other => Self::Transport(other),
        }
    }
}

impl vstd::std_specs::convert::FromSpecImpl<TransportError> for ClientError {
    open spec fn obeys_from_spec() -> bool {
        true
    }

    open spec fn from_spec(e: TransportError) -> Self {
        transport_client_error(e)
    }
}

impl From<HelpersError> for ClientError {
    fn from(e: HelpersError) -> (r: Self) {
        match e {
            HelpersError::InvalidLength => Self::Decode(DecodeError::InvalidLength),
            HelpersError::InvalidString => Self::Decode(DecodeError::InvalidValue),
        }
    }
}

impl vstd::std_specs::convert::FromSpecImpl<HelpersError> for ClientError {
    open spec fn obeys_from_spec() -> bool {
        true
    }

    open spec fn from_spec(e: HelpersError) -> Self {
        helpers_client_error(e)
    }
}

/// Default retry predicate: treat transport disconnects as retryable.
pub fn default_retryable(err: &ClientError) -> (r: bool)
    ensures
        r == (*err matches ClientError::Transport(TransportError::Disconnected)),
{
    match err {
        ClientError::Transport(TransportError::Disconnected) => true,
        _ => false,
    }
}

/// What a retrying adapter does after a failed exchange.
#[derive(Debug, Clone, Copy, PartialEq, Eq, Structural)]
pub enum RetryDecision {
    /// Return the error to the caller.
    GiveUp,
    /// Wait, reconnect and try again; this is retry number `attempt`.
    Retry { attempt: u32 },
}

/// What a retrying adapter decides after `attempts` retries so far, for a
/// failure whose error the retry predicate judged `retryable`.
pub open spec fn spec_retry_decision(max_retries: u32, attempts: u32, retryable: bool) -> RetryDecision {
    if attempts >= max_retries || !retryable {
        RetryDecision::GiveUp
    } else {
        RetryDecision::Retry { attempt: (attempts + 1) as u32 }
    }
}

/// Decide, after `attempts` retries so far, whether a failure whose error
/// the policy's predicate judged `retryable` is retried.
pub fn retry_decision(policy: &RetryPolicy, attempts: u32, retryable: bool) -> (r: RetryDecision)
    ensures
        r == spec_retry_decision(policy.max_retries, attempts, retryable),
{
    if attempts >= policy.max_retries || !retryable {
        RetryDecision::GiveUp
    } else {
        RetryDecision::Retry { attempt: attempts + 1 }
    }
}

/// A retrying adapter never retries more often than its policy allows: from
/// any count of retries within the limit, a decision to retry counts one
/// more retry and stays within the limit, and at the limit it gives up.
pub proof fn retries_bounded(max_retries: u32, attempts: u32, retryable: bool)
    requires
        attempts <= max_retries,
    ensures
        match spec_retry_decision(max_retries, attempts, retryable) {
            RetryDecision::Retry { attempt } => attempt == attempts + 1 && attempt <= max_retries,
            RetryDecision::GiveUp => true,
        },
        attempts == max_retries ==> spec_retry_decision(max_retries, attempts, retryable)
            == RetryDecision::GiveUp,
        !retryable ==> spec_retry_decision(max_retries, attempts, retryable)
            == RetryDecision::GiveUp,
{
}

/// What `validate_response_function` returns for a response PDU.
pub open spec fn spec_validate_response(request_function: u8, pdu: Seq<u8>) -> Result<
    (),
    ClientError,
> {
    if pdu.len() == 0 {
        Err(ClientError::InvalidResponse)
    } else if pdu[0] == request_function | 0x80u8 {
        match ExceptionResponse::spec_decode(pdu) {
            Ok(exc) => Err(ClientError::Exception(exc)),
            Err(e) => Err(ClientError::Decode(e)),
        }
    } else if pdu[0] != request_function {
        Err(ClientError::InvalidResponse)
    } else {
        Ok(())
    }
}

/// Validate that `response_pdu` echoes the requested function code.
///
/// If the response begins with the request function code combined with the
/// exception flag, it is decoded as an [`ExceptionResponse`] and returned as
/// [`ClientError::Exception`]. A mismatching or empty response yields
/// [`ClientError::InvalidResponse`].
pub fn validate_response_function(request_function: u8, response_pdu: &[u8]) -> (r: Result<
    (),
    ClientError,
>)
    ensures
        r == spec_validate_response(request_function, response_pdu@),
{
    if response_pdu.len() == 0 {
        return Err(ClientError::InvalidResponse);
    }
    let response_function = response_pdu[0];
    if response_function == request_function | ExceptionResponse::EXCEPTION_FLAG {
        return match ExceptionResponse::decode(response_pdu) {
            Ok(exc) => Err(ClientError::Exception(exc)),
            Err(e) => Err(ClientError::Decode(e)),
        };
    }
    if response_function != request_function {
        return Err(ClientError::InvalidResponse);
    }
    Ok(())
}

/// Seam for synchronous ADU framing and I/O.
///
/// An implementation that keeps a record of its requests says so through
/// `records_requests`, and then promises that each call hands exactly the
/// unit and request PDU it was given on to the device: the record grows by
/// that pair, whatever the outcome.
pub trait AduAdapter {
    /// Whether this adapter keeps the records `requests` and `answers`.
    open spec fn records_requests(&self) -> bool {
        false
    }

    /// The requests handed to the adapter so far, oldest first, as pairs of
    /// unit and request PDU.
    open spec fn requests(&self) -> Seq<(u8, Seq<u8>)> {
        Seq::empty()
    }

    /// The adapter's answers so far, oldest first: the response PDU or the
    /// error each `send_receive` returned.
    open spec fn answers(&self) -> Seq<Result<Seq<u8>, ClientError>> {
        Seq::empty()
    }

    /// Send `request_pdu` to `unit_id` and return the response PDU.
    fn send_receive(&mut self, unit_id: u8, request_pdu: &[u8]) -> (r: Result<Vec<u8>, ClientError>)
        ensures
            final(self).records_requests() == old(self).records_requests(),
            old(self).records_requests() ==> final(self).requests() == old(self).requests().push(
                (unit_id, request_pdu@),
            ),
            old(self).records_requests() ==> final(self).answers() == old(self).answers().push(
                view_response(r),
            ),
    ;
}

/// Bit `j` of `b`.
pub open spec fn bit_at(b: u8, j: int) -> bool {
    (b >> (j as u8)) & 1 == 1
}

/// The bytes that hold `bits` eight to a byte, least significant bit first,
/// with the unused high bits of the last byte clear.
pub open spec fn packs_bits(bytes: Seq<u8>, bits: Seq<bool>) -> bool {
    &&& bytes.len() == (bits.len() + 7) / 8
    &&& forall|i: int| 0 <= i < bits.len() ==> bit_at(#[trigger] bytes[i / 8], i % 8) == bits[i]
    &&& forall|k: int, j: int|
        0 <= k < bytes.len() && 0 <= j < 8 && 8 * k + j >= bits.len() ==> !(#[trigger] bit_at(bytes[k], j))
}

proof fn lemma_set_bit(b: u8, j: u8)
    requires
        j < 8,
    ensures
        forall|t: u8|
            t < 8 ==> #[trigger] bit_at(b | (1u8 << j), t as int) == (t == j || bit_at(b, t as int)),
{
    assert forall|t: u8| t < 8 implies #[trigger] bit_at(b | (1u8 << j), t as int) == (t == j
        || bit_at(b, t as int)) by {
        assert((((b | (1u8 << j)) >> t) & 1 == 1) == (t == j || (b >> t) & 1 == 1)) by (bit_vector)
            requires
                j < 8,
                t < 8,
        ;
        assert((t as int) as u8 == t);
    }
}

proof fn lemma_zero_bits()
    ensures
        forall|t: u8| t < 8 ==> !#[trigger] bit_at(0u8, t as int),
{
    assert forall|t: u8| t < 8 implies !#[trigger] bit_at(0u8, t as int) by {
        assert((0u8 >> t) & 1 != 1) by (bit_vector);
        assert((t as int) as u8 == t);
    }
}

/// Pack `bits` eight to a byte, least significant bit first.
pub fn pack_bits(bits: &[bool]) -> (r: Vec<u8>)
    ensures
        packs_bits(r@, bits@),
{
    let n = bits.len();
    let mut bytes: Vec<u8> = Vec::new();
    let mut i: usize = 0;
    proof {
        lemma_zero_bits();
    }
    while i < n
        invariant
            n == bits@.len(),
            i <= n,
            bytes@.len() == (i + 7) / 8,
            forall|t: u8| t < 8 ==> !#[trigger] bit_at(0u8, t as int),
            forall|p: int| 0 <= p < i ==> bit_at(#[trigger] bytes@[p / 8], p % 8) == bits@[p],
            forall|k: int, j: int|
                0 <= k < bytes@.len() && 0 <= j < 8 && 8 * k + j >= i ==> !(#[trigger] bit_at(bytes@[k], j)),
        decreases n - i,
    {
        if i % 8 == 0 {
            bytes.push(0);
            assert forall|k: int, j: int|
                0 <= k < bytes@.len() && 0 <= j < 8 && 8 * k + j >= i implies !(#[trigger] bit_at(bytes@[k], j)) by {
                if k == bytes@.len() - 1 {
                    assert(bit_at(0u8, (j as u8) as int) == false);
                }
            }
        }
        let last = bytes.len() - 1;
        assert(last == i / 8);
        if bits[i] {
            let old_byte = bytes[last];
            let shift = (i % 8) as u8;
            proof {
                lemma_set_bit(old_byte, shift);
            }
            bytes.set(last, old_byte | (1u8 << shift));
            assert forall|p: int| 0 <= p < i + 1 implies bit_at(#[trigger] bytes@[p / 8], p % 8)
                == bits@[p] by {
                if p / 8 == last as int {
                    assert(bit_at(old_byte | (1u8 << shift), ((p % 8) as u8) as int) == ((p
                        % 8) as u8 == shift || bit_at(old_byte, ((p % 8) as u8) as int)));
                }
            }
            assert forall|k: int, j: int|
                0 <= k < bytes@.len() && 0 <= j < 8 && 8 * k + j >= i + 1 implies !(#[trigger] bit_at(bytes@[k], j)) by {
                if k == last as int {
                    assert(bit_at(old_byte | (1u8 << shift), (j as u8) as int) == ((j as u8)
                        == shift || bit_at(old_byte, (j as u8) as int)));
                }
            }
        }
        i = i + 1;
    }
    bytes
}

/// Split register bytes into words in the given byte order; an odd number
/// of bytes is a decode error.
pub fn bytes_to_words(bytes: &[u8], endian: Endian) -> (r: Result<Vec<u16>, ClientError>)
    ensures
        match r {
            Ok(words) => bytes@.len() % 2 == 0 && words@ == bytes_words(bytes@, endian),
            Err(e) => bytes@.len() % 2 != 0 && e == ClientError::Decode(DecodeError::InvalidLength),
        },
{
    let len = bytes.len();
    if len % 2 != 0 {
        return Err(ClientError::Decode(DecodeError::InvalidLength));
    }
    let half = len / 2;
    let mut words: Vec<u16> = Vec::new();
    let mut j: usize = 0;
    while j < half
        invariant
            len == bytes@.len(),
            len % 2 == 0,
            half == len / 2,
            j <= half,
            words@ == bytes_words(bytes@, endian).take(j as int),
        decreases half - j,
    {
        let w = match u16_from_bytes(&bytes[2 * j..2 * j + 2], endian) {
            Ok(w) => w,
            Err(e) => return Err(ClientError::from(e)),
        };
        words.push(w);
        j = j + 1;
        assert(words@ =~= bytes_words(bytes@, endian).take(j as int));
    }
    assert(words@ =~= bytes_words(bytes@, endian));
    Ok(words)
}

/// What `dispatch` returns once the adapter has answered `response`.
pub open spec fn spec_finish_dispatch(
    request_function: u8,
    response: Result<Seq<u8>, ClientError>,
) -> Result<Seq<u8>, ClientError> {
    match response {
        Err(e) => Err(e),
        Ok(pdu) => match spec_validate_response(request_function, pdu) {
            Ok(()) => Ok(pdu),
            Err(e) => Err(e),
        },
    }
}

/// The outcome of a dispatch, the response PDU taken by its view.
pub open spec fn view_response(r: Result<Vec<u8>, ClientError>) -> Result<Seq<u8>, ClientError> {
    match r {
        Ok(v) => Ok(v@),
        Err(e) => Err(e),
    }
}

/// Check an adapter's answer to a request whose function code is
/// `request_function`: errors pass through, and a response PDU is returned
/// only when it echoes the function code.
pub fn finish_dispatch(request_function: u8, response: Result<Vec<u8>, ClientError>) -> (r: Result<
    Vec<u8>,
    ClientError,
>)
    ensures
        view_response(r) == spec_finish_dispatch(request_function, view_response(response)),
{
    match response {
        Err(e) => Err(e),
        Ok(pdu) => match validate_response_function(request_function, pdu.as_slice()) {
            Ok(()) => Ok(pdu),
            Err(e) => Err(e),
        },
    }
}

/// Generic synchronous Modbus client.
///
/// The client dispatches request PDUs through an [`AduAdapter`], waits for the
/// response, and performs basic response validation.
#[derive(Debug)]
pub struct ClientCore<A: AduAdapter> {
    adapter: A,
    config: ClientConfig,
}

impl<A: AduAdapter> ClientCore<A> {
    /// The configuration the client was made with.
    pub closed spec fn spec_config(&self) -> ClientConfig {
        self.config
    }

    /// The adapter the client sends through.
    pub closed spec fn spec_adapter(&self) -> A {
        self.adapter
    }

    /// Create a client around an adapter with the default configuration.
    pub fn new(adapter: A) -> (r: Self)
        ensures
            r.spec_adapter() == adapter,
            r.spec_config().timeout == seconds(5),
            nanos(r.spec_config().timeout) == 5_000_000_000,
            r.spec_config().endian == Endian::Big,
            r.spec_config().word_order == WordOrder::MostSignificantFirst,
            r.spec_config().idle_timeout is None,
    {
        Self::with_config(adapter, ClientConfig::default())
    }

    /// Create a client around an adapter with a custom configuration.
    pub fn with_config(adapter: A, config: ClientConfig) -> (r: Self)
        ensures
            r.spec_adapter() == adapter,
            r.spec_config() == config,
    {
        Self { adapter, config }
    }

    /// The configuration the client was made with.
    pub fn config(&self) -> (r: &ClientConfig)
        ensures
            *r == self.spec_config(),
    {
        &self.config
    }

    /// Dispatch a request PDU to `unit_id` and return the response PDU.
    ///
    /// The request PDU must begin with the function code. The returned response
    /// PDU also begins with the function code, unless the server replied with
    /// an exception.
    pub fn dispatch(&mut self, unit_id: u8, request_pdu: &[u8]) -> (r: Result<Vec<u8>, ClientError>)
        ensures
            request_pdu@.len() == 0 ==> r matches Err(ClientError::InvalidResponse),
            r matches Ok(pdu) ==> spec_validate_response(request_pdu@[0], pdu@) == Ok::<
                (),
                ClientError,
            >(()),
            request_pdu@.len() == 0 ==> final(self).spec_adapter() == old(self).spec_adapter(),
            request_pdu@.len() > 0 && old(self).spec_adapter().records_requests() ==> final(self).spec_adapter().requests()
                == old(self).spec_adapter().requests().push((unit_id, request_pdu@)),
            request_pdu@.len() > 0 && old(self).spec_adapter().records_requests() ==> {
                let answer = final(self).spec_adapter().answers().last();
                &&& final(self).spec_adapter().answers() == old(self).spec_adapter().answers().push(answer)
                &&& view_response(r) == spec_finish_dispatch(request_pdu@[0], answer)
            },
            request_pdu@.len() > 0 && request_pdu@[0] < 0x80 && old(self).spec_adapter().records_requests()
                ==> forall|pdu: Seq<u8>|
                #![trigger final(self).spec_adapter().answers().push(Ok(pdu))]
                pdu.len() >= 1 && pdu[0] == request_pdu@[0] && final(self).spec_adapter().answers()
                    == old(self).spec_adapter().answers().push(Ok(pdu)) ==> view_response(r) == Ok::<
                    Seq<u8>,
                    ClientError,
                >(pdu),
            final(self).spec_config() == old(self).spec_config(),
    {
        if request_pdu.len() == 0 {
            return Err(ClientError::InvalidResponse);
        }
        let request_function = request_pdu[0];
        let response = self.adapter.send_receive(unit_id, request_pdu);
        let r = finish_dispatch(request_function, response);
        proof {
            if request_function < 0x80 {
                accepted_response_returned_unchanged(request_function, view_response(response));
            }
        }
        r
    }
}

/// What a dispatch returns for the adapter's answer `answer` to a request
/// with function code `request_function`: an adapter error comes back
/// unchanged, a response echoing the function code comes back byte for
/// byte, and any other response is refused.
pub proof fn accepted_response_returned_unchanged(
    request_function: u8,
    answer: Result<Seq<u8>, ClientError>,
)
    requires
        request_function < 0x80,
    ensures
        answer matches Err(e) ==> spec_finish_dispatch(request_function, answer) == Err::<
            Seq<u8>,
            ClientError,
        >(e),
        answer matches Ok(pdu) && pdu.len() >= 1 && pdu[0] == request_function ==> spec_finish_dispatch(
            request_function,
            answer,
        ) == answer,
        answer matches Ok(pdu) && (pdu.len() == 0 || (pdu[0] != request_function && pdu[0]
            != request_function | 0x80u8)) ==> spec_finish_dispatch(request_function, answer)
            == Err::<Seq<u8>, ClientError>(ClientError::InvalidResponse),
        spec_finish_dispatch(request_function, answer) matches Ok(p) ==> answer == Ok::<
            Seq<u8>,
            ClientError,
        >(p) && p.len() >= 1 && p[0] == request_function,
{
    assert(request_function < 0x80 ==> request_function | 0x80u8 != request_function) by (bit_vector);
}

/// A server's exception answer to a request surfaces as that exception, and
/// an answer echoing the request's function code is accepted, for every
/// function code without the exception flag.
pub proof fn response_validation_cases(request_function: u8, exception: ExceptionResponse, pdu: Seq<u8>)
    requires
        request_function < 0x80,
        exception.function_code == request_function,
        pdu.len() >= 1,
        pdu[0] == request_function,
    ensures
        spec_validate_response(request_function, exception.spec_wire()) == Err::<(), ClientError>(
            ClientError::Exception(exception),
        ),
        spec_validate_response(request_function, pdu) == Ok::<(), ClientError>(()),
{
    crate::exception::exception_response_roundtrip(exception);
    assert(request_function < 0x80 ==> request_function | 0x80u8 != request_function) by (bit_vector);
}

} // verus!
