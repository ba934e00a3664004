//! RTU ADU adapter for the client core: frames request PDUs as RTU ADUs,
//! sends them, receives the response, and returns the response PDU.

use vstd::prelude::*;

use std::sync::Arc;

use crate::client::{nanos, seconds, AduAdapter, ClientConfig, ClientCore, ClientError};
use crate::helpers::{Endian, WordOrder};
use crate::codec::copy_range;
use crate::error::EncodeError;
use crate::metrics::Metrics;
use crate::rtu::RtuAdu;
use crate::transport::{Transport, TransportError};

verus! {

/// Size of the transmit and receive buffers of the serial-line adapters.
pub const ADU_BUFFER_SIZE: usize = 512;

/// The RTU frame sent for `pdu` addressed to `unit_id`, or the encode error
/// when it does not fit the transmit buffer.
pub open spec fn spec_rtu_request_frame(unit_id: u8, pdu: Seq<u8>) -> Result<Seq<u8>, ClientError> {
    if RtuAdu::spec_wire((unit_id, pdu)).len() <= ADU_BUFFER_SIZE {
        Ok(RtuAdu::spec_wire((unit_id, pdu)))
    } else {
        Err(ClientError::Encode(EncodeError::BufferTooSmall))
    }
}

/// The response PDU carried by the received RTU frame `rx`, checked against
/// the unit the request went to.
pub open spec fn spec_rtu_response_pdu(unit_id: u8, rx: Seq<u8>) -> Result<Seq<u8>, ClientError> {
    if rx.len() == 0 {
        Err(ClientError::Transport(TransportError::Disconnected))
    } else {
        match RtuAdu::spec_decode(rx) {
            Err(e) => Err(ClientError::Decode(e)),
            Ok(adu) => if adu.0 != unit_id || adu.1.len() == 0 {
                Err(ClientError::InvalidResponse)
            } else {
                Ok(adu.1)
            },
        }
    }
}

/// A byte sequence result taken by its view.
pub open spec fn view_bytes(r: Result<Vec<u8>, ClientError>) -> Result<Seq<u8>, ClientError> {
    match r {
        Ok(v) => Ok(v@),
        Err(e) => Err(e),
    }
}

/// Frame `request_pdu` for `unit_id` as an RTU ADU.
pub fn rtu_request_frame(unit_id: u8, request_pdu: &[u8]) -> (r: Result<Vec<u8>, ClientError>)
    ensures
        view_bytes(r) == spec_rtu_request_frame(unit_id, request_pdu@),
{
    let adu = RtuAdu::new(unit_id, copy_range(request_pdu, 0, request_pdu.len()));
    assert(request_pdu@.subrange(0, request_pdu@.len() as int) =~= request_pdu@);
    let mut tx = [0u8; 512];
    match adu.encode(&mut tx) {
        Ok(n) => {
            let frame = copy_range(&tx, 0, n);
            assert(frame@ =~= RtuAdu::spec_wire((unit_id, request_pdu@)));
            Ok(frame)
        },
        Err(e) => Err(ClientError::Encode(e)),
    }
}

/// Extract the response PDU from the received RTU frame `rx`.
pub fn rtu_response_pdu(unit_id: u8, rx: &[u8]) -> (r: Result<Vec<u8>, ClientError>)
    ensures
        view_bytes(r) == spec_rtu_response_pdu(unit_id, rx@),
{
    if rx.len() == 0 {
        return Err(ClientError::Transport(TransportError::Disconnected));
    }
    let response = match RtuAdu::decode(rx) {
        Ok(a) => a,
        Err(e) => return Err(ClientError::Decode(e)),
    };
    if response.address != unit_id {
        return Err(ClientError::InvalidResponse);
    }
    if response.pdu.len() == 0 {
        return Err(ClientError::InvalidResponse);
    }
    Ok(response.pdu)
}

/// A valid RTU frame from the addressed unit yields exactly the PDU it
/// carries, and a valid frame from any other unit is refused.
pub proof fn rtu_response_of_valid_frame(unit_id: u8, pdu: Seq<u8>)
    requires
        pdu.len() >= 1,
    ensures
        spec_rtu_response_pdu(unit_id, RtuAdu::spec_wire((unit_id, pdu))) == Ok::<Seq<u8>, ClientError>(pdu),
        forall|other: u8|
            other != unit_id ==> #[trigger] spec_rtu_response_pdu(other, RtuAdu::spec_wire((unit_id, pdu)))
                == Err::<Seq<u8>, ClientError>(ClientError::InvalidResponse),
{
    crate::rtu::rtu_adu_roundtrip((unit_id, pdu));
    assert(RtuAdu::spec_wire((unit_id, pdu)).len() > 0);
}

/// Synchronous RTU ADU adapter.
pub struct RtuAduAdapter<T: Transport> {
    transport: T,
    config: ClientConfig,
    log: Ghost<Seq<(u8, Seq<u8>)>>,
    answers: Ghost<Seq<Result<Seq<u8>, ClientError>>>,
    metrics: Option<Arc<Metrics>>,
}

impl<T: Transport> RtuAduAdapter<T> {
    /// Create an adapter with the default configuration.
    pub fn new(transport: T) -> (r: Self)
        ensures
            r.spec_transport() == transport,
            r.spec_config().timeout == seconds(5),
            nanos(r.spec_config().timeout) == 5_000_000_000,
            r.spec_config().idle_timeout is None,
            r.spec_config().endian == Endian::Big,
            r.spec_config().word_order == WordOrder::MostSignificantFirst,
            r.requests() == Seq::<(u8, Seq<u8>)>::empty(),
            r.answers() == Seq::<Result<Seq<u8>, ClientError>>::empty(),
    {
        Self::with_config(transport, ClientConfig::default())
    }

    /// Create an adapter with a custom configuration.
    pub fn with_config(transport: T, config: ClientConfig) -> (r: Self)
        ensures
            r.spec_transport() == transport,
            r.spec_config() == config,
            r.requests() == Seq::<(u8, Seq<u8>)>::empty(),
            r.answers() == Seq::<Result<Seq<u8>, ClientError>>::empty(),
    {
        Self { transport, config, metrics: None, log: Ghost(Seq::empty()), answers: Ghost(Seq::empty()) }
    }

    /// The transport the adapter drives.
    pub closed spec fn spec_transport(&self) -> T {
        self.transport
    }

    /// The configuration the adapter was made with.
    pub closed spec fn spec_config(&self) -> ClientConfig {
        self.config
    }

    /// The metrics the adapter counts its requests and responses in, if any.
    pub closed spec fn spec_metrics(&self) -> Option<Arc<Metrics>> {
        self.metrics
    }

    /// Attach a shared [`Metrics`] instance to this adapter.
    pub fn set_metrics(&mut self, metrics: Arc<Metrics>)
        ensures
            final(self).spec_metrics() == Some(metrics),
            final(self).spec_transport() == old(self).spec_transport(),
            final(self).spec_config() == old(self).spec_config(),
    {
        self.metrics = Some(metrics);
    }

    /// One exchange: frame and send the request; for a unit other than the
    /// broadcast address 0, receive and unframe the response.
    fn exchange(&mut self, unit_id: u8, request_pdu: &[u8]) -> (r: Result<Vec<u8>, ClientError>)
        ensures
            spec_rtu_request_frame(unit_id, request_pdu@) is Err ==> view_bytes(r)
                == spec_rtu_request_frame(unit_id, request_pdu@),
            final(self).spec_config() == old(self).spec_config(),
            old(self).spec_transport().records_traffic() ==> final(self).spec_transport().records_traffic()
                && match spec_rtu_request_frame(unit_id, request_pdu@) {
                Ok(frame) => final(self).spec_transport().sent() == old(self).spec_transport().sent().push(
                    frame,
                ) && (final(self).spec_transport().timeouts() == old(self).spec_transport().timeouts()
                    || (unit_id != 0 && final(self).spec_transport().timeouts() == old(self).spec_transport().timeouts().push(old(self).spec_config().timeout))),
                Err(_) => final(self).spec_transport().sent() == old(self).spec_transport().sent()
                    && final(self).spec_transport().timeouts() == old(self).spec_transport().timeouts(),
            },
            old(self).spec_transport().records_traffic() && unit_id != 0 && r is Ok ==> final(self).spec_transport().timeouts() == old(self).spec_transport().timeouts().push(
                old(self).spec_config().timeout,
            ),
            unit_id == 0 && r is Ok ==> view_bytes(r) == Ok::<Seq<u8>, ClientError>(Seq::empty()),
            unit_id != 0 && r is Ok ==> exists|rx: Seq<u8>|
                #[trigger] spec_rtu_response_pdu(unit_id, rx) == view_bytes(r),
            old(self).spec_transport().records_traffic() ==> final(self).spec_transport().recv_buffers()
                == old(self).spec_transport().recv_buffers() || (unit_id != 0
                && final(self).spec_transport().recv_buffers() == old(self).spec_transport().recv_buffers().push(
                ADU_BUFFER_SIZE as nat,
            )),
            old(self).spec_transport().records_traffic() ==> final(self).spec_transport().received()
                == old(self).spec_transport().received() || (unit_id != 0 && {
                let rx = final(self).spec_transport().received().last();
                &&& final(self).spec_transport().received() == old(self).spec_transport().received().push(rx)
                &&& view_bytes(r) == spec_rtu_response_pdu(unit_id, rx)
            }),
            old(self).spec_transport().records_traffic() && unit_id != 0 && r is Ok ==> final(self).spec_transport().received().len()
                == old(self).spec_transport().received().len() + 1,
            old(self).spec_transport().records_traffic() && unit_id != 0 ==> forall|pdu: Seq<u8>|
                #![trigger RtuAdu::spec_wire((unit_id, pdu))]
                pdu.len() >= 1 && final(self).spec_transport().received() == old(self).spec_transport().received().push(
                    RtuAdu::spec_wire((unit_id, pdu)),
                ) ==> view_bytes(r) == Ok::<Seq<u8>, ClientError>(pdu),
            old(self).spec_transport().records_traffic() && unit_id != 0 && spec_rtu_request_frame(unit_id, request_pdu@) is Ok
                && final(self).spec_transport().sends_completed() > old(self).spec_transport().sends_completed()
                ==> final(self).spec_transport().recv_buffers() == old(self).spec_transport().recv_buffers().push(
                ADU_BUFFER_SIZE as nat,
            ) && final(self).spec_transport().timeouts() == old(self).spec_transport().timeouts().push(
                old(self).spec_config().timeout,
            ),
            final(self).log == old(self).log,
            final(self).answers == old(self).answers,
    {
        let frame = match rtu_request_frame(unit_id, request_pdu) {
            Ok(f) => f,
            Err(e) => return Err(e),
        };
        match &self.metrics {
            Some(metrics) => metrics.record_request_sent(),
            None => {},
        }
        match self.transport.send(frame.as_slice()) {
            Ok(()) => {},
            Err(e) => return Err(ClientError::from(e)),
        }
        // Broadcast requests (unit_id == 0) are sent to all devices and
        // do not produce a response, so skip the receive path.
        if unit_id == 0 {
            return Ok(Vec::new());
        }
        let mut rx = [0u8; 512];
        let m = match self.transport.recv(&mut rx, self.config.timeout) {
            Ok(m) => m,
            Err(e) => return Err(ClientError::from(e)),
        };
        match &self.metrics {
            Some(metrics) => metrics.record_response_received(),
            None => {},
        }
        let r = rtu_response_pdu(unit_id, &rx[0..m]);
        assert(spec_rtu_response_pdu(unit_id, rx@.subrange(0, m as int)) == view_bytes(r));
        proof {
            assert forall|pdu: Seq<u8>| pdu.len() >= 1 implies #[trigger] spec_rtu_response_pdu(
                unit_id,
                RtuAdu::spec_wire((unit_id, pdu)),
            ) == Ok::<Seq<u8>, ClientError>(pdu) by {
                rtu_response_of_valid_frame(unit_id, pdu);
            }
        }
        r
    }

    /// The transport the adapter drives.
    pub fn transport(&self) -> (r: &T)
        ensures
            *r == self.spec_transport(),
    {
        &self.transport
    }
}

impl<T: Transport> AduAdapter for RtuAduAdapter<T> {
    open spec fn records_requests(&self) -> bool {
        true
    }

    closed spec fn requests(&self) -> Seq<(u8, Seq<u8>)> {
        self.log@
    }

    closed spec fn answers(&self) -> Seq<Result<Seq<u8>, ClientError>> {
        self.answers@
    }

    /// Frame and send the request; for a unit other than the broadcast
    /// address 0, receive and unframe the response.
    fn send_receive(&mut self, unit_id: u8, request_pdu: &[u8]) -> (r: Result<Vec<u8>, ClientError>)
        ensures
            spec_rtu_request_frame(unit_id, request_pdu@) is Err ==> view_bytes(r)
                == spec_rtu_request_frame(unit_id, request_pdu@),
            final(self).spec_config() == old(self).spec_config(),
            old(self).spec_transport().records_traffic() ==> final(self).spec_transport().records_traffic()
                && match spec_rtu_request_frame(unit_id, request_pdu@) {
                Ok(frame) => final(self).spec_transport().sent() == old(self).spec_transport().sent().push(
                    frame,
                ) && (final(self).spec_transport().timeouts() == old(self).spec_transport().timeouts()
                    || (unit_id != 0 && final(self).spec_transport().timeouts() == old(self).spec_transport().timeouts().push(old(self).spec_config().timeout))),
                Err(_) => final(self).spec_transport().sent() == old(self).spec_transport().sent()
                    && final(self).spec_transport().timeouts() == old(self).spec_transport().timeouts(),
            },
            old(self).spec_transport().records_traffic() && unit_id != 0 && r is Ok ==> final(self).spec_transport().timeouts() == old(self).spec_transport().timeouts().push(
                old(self).spec_config().timeout,
            ),
            unit_id == 0 && r is Ok ==> view_bytes(r) == Ok::<Seq<u8>, ClientError>(Seq::empty()),
            unit_id != 0 && r is Ok ==> exists|rx: Seq<u8>|
                #[trigger] spec_rtu_response_pdu(unit_id, rx) == view_bytes(r),
            old(self).spec_transport().records_traffic() ==> final(self).spec_transport().recv_buffers()
                == old(self).spec_transport().recv_buffers() || (unit_id != 0
                && final(self).spec_transport().recv_buffers() == old(self).spec_transport().recv_buffers().push(
                ADU_BUFFER_SIZE as nat,
            )),
            old(self).spec_transport().records_traffic() ==> final(self).spec_transport().received()
                == old(self).spec_transport().received() || (unit_id != 0 && {
                let rx = final(self).spec_transport().received().last();
                &&& final(self).spec_transport().received() == old(self).spec_transport().received().push(rx)
                &&& view_bytes(r) == spec_rtu_response_pdu(unit_id, rx)
            }),
            old(self).spec_transport().records_traffic() && unit_id != 0 && r is Ok ==> final(self).spec_transport().received().len()
                == old(self).spec_transport().received().len() + 1,
            old(self).spec_transport().records_traffic() && unit_id != 0 ==> forall|pdu: Seq<u8>|
                #![trigger RtuAdu::spec_wire((unit_id, pdu))]
                pdu.len() >= 1 && final(self).spec_transport().received() == old(self).spec_transport().received().push(
                    RtuAdu::spec_wire((unit_id, pdu)),
                ) ==> view_bytes(r) == Ok::<Seq<u8>, ClientError>(pdu),
            old(self).spec_transport().records_traffic() && unit_id != 0 && spec_rtu_request_frame(unit_id, request_pdu@) is Ok
                && final(self).spec_transport().sends_completed() > old(self).spec_transport().sends_completed()
                ==> final(self).spec_transport().recv_buffers() == old(self).spec_transport().recv_buffers().push(
                ADU_BUFFER_SIZE as nat,
            ) && final(self).spec_transport().timeouts() == old(self).spec_transport().timeouts().push(
                old(self).spec_config().timeout,
            ),
    {
        self.log = Ghost(self.log@.push((unit_id, request_pdu@)));
        let r = self.exchange(unit_id, request_pdu);
        self.answers = Ghost(self.answers@.push(view_bytes(r)));
        r
    }
}

/// Synchronous RTU Modbus client: a [`ClientCore`] paired with an RTU ADU
/// adapter.
pub struct Client<T: Transport>(ClientCore<RtuAduAdapter<T>>);

impl<T: Transport> Client<T> {
    /// The client core this client wraps.
    pub closed spec fn inner(&self) -> ClientCore<RtuAduAdapter<T>> {
        self.0
    }

    /// Create a client with the default configuration.
    pub fn new(transport: T) -> (r: Self)
        ensures
            r.inner().spec_adapter().spec_transport() == transport,
            r.inner().spec_config().endian == crate::helpers::Endian::Big,
            r.inner().spec_config().word_order == crate::helpers::WordOrder::MostSignificantFirst,
            r.inner().spec_config().timeout == seconds(5),
            nanos(r.inner().spec_config().timeout) == 5_000_000_000,
            r.inner().spec_config().idle_timeout is None,
            r.inner().spec_adapter().spec_config() == r.inner().spec_config(),
    {
        Self::with_config(transport, ClientConfig::default())
    }

    /// Create a client with a custom configuration.
    pub fn with_config(transport: T, config: ClientConfig) -> (r: Self)
        ensures
            r.inner().spec_config() == config,
            r.inner().spec_adapter().spec_transport() == transport,
            r.inner().spec_adapter().spec_config() == config,
    {
        Self(ClientCore::with_config(RtuAduAdapter::with_config(transport, config), config))
    }
}

impl<T: Transport> core::ops::Deref for Client<T> {
    type Target = ClientCore<RtuAduAdapter<T>>;

    fn deref(&self) -> (r: &Self::Target)
        ensures
            *r == self.inner(),
    {
        &self.0
    }
}

impl<T: Transport> core::ops::DerefMut for Client<T> {
    fn deref_mut(&mut self) -> (r: &mut Self::Target)
        ensures
            *r == old(self).inner(),
            final(self).inner() == *final(r),
    {
        &mut self.0
    }
}

/// What the adapter sends is what a server reads, and what a server sends
/// back is what the adapter returns: the frame for a non-empty request PDU
/// decodes to the unit and the PDU; a frame answering from the same unit
/// with a non-empty PDU yields that PDU; one from another unit is refused.
pub proof fn rtu_exchange_roundtrip(unit_id: u8, request: Seq<u8>, response: Seq<u8>, other: u8)
    requires
        request.len() >= 1,
        response.len() >= 1,
        other != unit_id,
    ensures
        spec_rtu_request_frame(unit_id, request) matches Ok(frame) ==> RtuAdu::spec_decode(frame)
            == Ok::<(u8, Seq<u8>), crate::error::DecodeError>((unit_id, request)),
        spec_rtu_response_pdu(unit_id, RtuAdu::spec_wire((unit_id, response))) == Ok::<
            Seq<u8>,
            ClientError,
        >(response),
        spec_rtu_response_pdu(unit_id, RtuAdu::spec_wire((other, response))) == Err::<
            Seq<u8>,
            ClientError,
        >(ClientError::InvalidResponse),
{
    crate::rtu::rtu_adu_roundtrip((unit_id, request));
    crate::rtu::rtu_adu_roundtrip((unit_id, response));
    crate::rtu::rtu_adu_roundtrip((other, response));
}

} // verus!
