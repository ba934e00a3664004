use std::time::Duration;

use modbus::client::{
    bytes_to_words, default_retryable, finish_dispatch, next_backoff, pack_bits, retry_decision,
    validate_response_function, AduAdapter, ClientConfig, ClientCore, ClientError, RetryDecision,
    RetryPolicy,
};
use modbus::error::{DecodeError, EncodeError};
use modbus::exception::{ExceptionCode, ExceptionResponse};
use modbus::function_codes::read_coils::{ReadCoilsRequest, ReadCoilsResponse};
use modbus::function_codes::read_discrete_inputs::ReadDiscreteInputsResponse;
use modbus::helpers::{Endian, HelpersError, WordOrder};
use modbus::transport::TransportError;
use std::sync::{Arc, Mutex};

type Handler = Box<dyn Fn(u8, &[u8]) -> Result<Vec<u8>, ClientError>>;

struct MockAduAdapter {
    handler: Handler,
    recorded: Arc<Mutex<Vec<Vec<u8>>>>,
}

impl MockAduAdapter {
    fn new<F>(handler: F) -> Self
    where
        F: Fn(u8, &[u8]) -> Result<Vec<u8>, ClientError> + 'static,
    {
        Self {
            handler: Box::new(handler),
            recorded: Arc::new(Mutex::new(Vec::new())),
        }
    }
}

impl AduAdapter for MockAduAdapter {
    fn send_receive(&mut self, unit_id: u8, request_pdu: &[u8]) -> Result<Vec<u8>, ClientError> {
        self.recorded.lock().unwrap().push(request_pdu.to_vec());
        (self.handler)(unit_id, request_pdu)
    }
}

fn read_coils_request_pdu(quantity: u16) -> Vec<u8> {
    let req = ReadCoilsRequest::new(0x0000, quantity).unwrap();
    let mut buf = [0u8; 5];
    let n = req.encode(&mut buf).unwrap();
    buf[..n].to_vec()
}

#[test]
fn client_core_dispatch_read_coils_roundtrip() {
    let request_pdu = read_coils_request_pdu(10);
    let response_pdu = {
        let resp = ReadCoilsResponse {
            coil_status: vec![0b11001011, 0b00000010],
        };
        let mut buf = [0u8; 4];
        let n = resp.encode(&mut buf).unwrap();
        buf[..n].to_vec()
    };
    let expected = response_pdu.clone();
    let mut client = ClientCore::new(MockAduAdapter::new(move |_, _| Ok(response_pdu.clone())));
    let pdu = client.dispatch(0x01, &request_pdu).unwrap();
    assert_eq!(pdu, expected);
    let decoded = ReadCoilsResponse::decode(&pdu).unwrap();
    assert_eq!(decoded.coil_status, vec![0b11001011, 0b00000010]);
}

#[test]
fn client_core_dispatch_returns_exception() {
    let request_pdu = read_coils_request_pdu(10);
    let exception_pdu = {
        let exc = ExceptionResponse::new(0x01, ExceptionCode::IllegalDataAddress);
        let mut buf = [0u8; 2];
        let n = exc.encode(&mut buf).unwrap();
        buf[..n].to_vec()
    };
    let mut client = ClientCore::new(MockAduAdapter::new(move |_, _| Ok(exception_pdu.clone())));
    let err = client.dispatch(0x01, &request_pdu).unwrap_err();
    match err {
        ClientError::Exception(e) => {
            assert_eq!(e.function_code, 0x01);
            assert_eq!(e.exception_code, ExceptionCode::IllegalDataAddress);
        }
        other => panic!("expected an exception, got {other:?}"),
    }
}

#[test]
fn client_core_dispatch_propagates_timeout() {
    let mut client = ClientCore::new(MockAduAdapter::new(|_, _| Err(ClientError::Timeout)));
    let err = client
        .dispatch(0x01, &[0x01, 0x00, 0x00, 0x00, 0x0A])
        .unwrap_err();
    assert!(matches!(err, ClientError::Timeout));
}

#[test]
fn client_core_dispatch_rejects_mismatched_function() {
    let request_pdu = read_coils_request_pdu(1);
    let response_pdu = {
        let resp = ReadDiscreteInputsResponse {
            input_status: vec![0x01],
        };
        let mut buf = [0u8; 3];
        let n = resp.encode(&mut buf).unwrap();
        buf[..n].to_vec()
    };
    let mut client = ClientCore::new(MockAduAdapter::new(move |_, _| Ok(response_pdu.clone())));
    let err = client.dispatch(0x01, &request_pdu).unwrap_err();
    assert!(matches!(err, ClientError::InvalidResponse));
}

#[test]
fn client_core_dispatch_rejects_empty_request_without_sending() {
    let adapter = MockAduAdapter::new(|_, _| Ok(vec![0x01]));
    let recorded = adapter.recorded.clone();
    let mut client = ClientCore::new(adapter);
    let err = client.dispatch(0x01, &[]).unwrap_err();
    assert!(matches!(err, ClientError::InvalidResponse));
    assert!(recorded.lock().unwrap().is_empty());
}

#[test]
fn client_core_keeps_its_configuration() {
    let mut config = ClientConfig::default();
    config.endian = Endian::Little;
    config.word_order = WordOrder::LeastSignificantFirst;
    let client = ClientCore::with_config(MockAduAdapter::new(|_, _| Ok(vec![])), config);
    assert_eq!(client.config().endian, Endian::Little);
    assert_eq!(client.config().word_order, WordOrder::LeastSignificantFirst);
    let client = ClientCore::new(MockAduAdapter::new(|_, _| Ok(vec![])));
    assert_eq!(client.config().endian, Endian::Big);
    assert_eq!(client.config().word_order, WordOrder::MostSignificantFirst);
    assert!(client.config().idle_timeout.is_none());
}

#[test]
fn validate_response_function_cases() {
    assert!(matches!(
        validate_response_function(0x03, &[]),
        Err(ClientError::InvalidResponse)
    ));
    assert!(validate_response_function(0x03, &[0x03, 0x02, 0x00, 0x01]).is_ok());
    assert!(matches!(
        validate_response_function(0x03, &[0x04, 0x02]),
        Err(ClientError::InvalidResponse)
    ));
    match validate_response_function(0x03, &[0x83, 0x02]) {
        Err(ClientError::Exception(e)) => {
            assert_eq!(e.function_code, 0x03);
            assert_eq!(e.exception_code, ExceptionCode::IllegalDataAddress);
        }
        other => panic!("expected an exception, got {other:?}"),
    }
    assert!(matches!(
        validate_response_function(0x03, &[0x83]),
        Err(ClientError::Decode(DecodeError::InvalidLength))
    ));
    assert!(matches!(
        validate_response_function(0x03, &[0x83, 0x7F]),
        Err(ClientError::Decode(DecodeError::InvalidValue))
    ));
}

#[test]
fn finish_dispatch_passes_errors_through() {
    assert!(matches!(
        finish_dispatch(0x01, Err(ClientError::Encode(EncodeError::BufferTooSmall))),
        Err(ClientError::Encode(EncodeError::BufferTooSmall))
    ));
    assert_eq!(
        finish_dispatch(0x01, Ok(vec![0x01, 0x01, 0x00])).unwrap(),
        vec![0x01, 0x01, 0x00]
    );
}

#[test]
fn default_retryable_accepts_only_disconnects() {
    assert!(default_retryable(&ClientError::Transport(
        TransportError::Disconnected
    )));
    assert!(!default_retryable(&ClientError::Timeout));
    assert!(!default_retryable(&ClientError::InvalidResponse));
    assert!(!default_retryable(&ClientError::Transport(TransportError::Timeout)));
}

#[test]
fn retry_decision_follows_policy() {
    let policy = RetryPolicy::default();
    assert_eq!(policy.max_retries, 3);
    assert_eq!(
        retry_decision(&policy, 0, true),
        RetryDecision::Retry { attempt: 1 }
    );
    assert_eq!(
        retry_decision(&policy, 2, true),
        RetryDecision::Retry { attempt: 3 }
    );
    assert_eq!(retry_decision(&policy, 3, true), RetryDecision::GiveUp);
    assert_eq!(retry_decision(&policy, 0, false), RetryDecision::GiveUp);
}

#[test]
fn retry_decision_gives_up_after_max_retries() {
    let policy = RetryPolicy {
        max_retries: 2,
        ..RetryPolicy::default()
    };
    let mut attempts = 0u32;
    let mut reconnects = 0usize;
    loop {
        match retry_decision(&policy, attempts, true) {
            RetryDecision::Retry { attempt } => {
                attempts = attempt;
                reconnects += 1;
            }
            RetryDecision::GiveUp => break,
        }
    }
    assert_eq!(reconnects, 2);
}

#[test]
fn transport_errors_convert_to_client_errors() {
    assert!(matches!(
        ClientError::from(TransportError::Timeout),
        ClientError::Timeout
    ));
    assert!(matches!(
        ClientError::from(TransportError::Disconnected),
        ClientError::Transport(TransportError::Disconnected)
    ));
    assert!(matches!(
        ClientError::from(HelpersError::InvalidLength),
        ClientError::Decode(DecodeError::InvalidLength)
    ));
    assert!(matches!(
        ClientError::from(HelpersError::InvalidString),
        ClientError::Decode(DecodeError::InvalidValue)
    ));
}

#[test]
fn pack_bits_packs_least_significant_bit_first() {
    assert_eq!(pack_bits(&[]), Vec::<u8>::new());
    assert_eq!(pack_bits(&[true, false, true, true]), vec![0b00001101]);
    let bits = [
        true, true, false, true, false, false, true, true, // 0xCB
        false, true, // 0x02
    ];
    assert_eq!(pack_bits(&bits), vec![0b11001011, 0b00000010]);
    assert_eq!(pack_bits(&[true; 8]), vec![0xFF]);
    assert_eq!(pack_bits(&[true; 9]), vec![0xFF, 0x01]);
}

#[test]
fn bytes_to_words_respects_endianness() {
    assert_eq!(
        bytes_to_words(&[0x12, 0x34, 0x56, 0x78], Endian::Big).unwrap(),
        vec![0x1234, 0x5678]
    );
    assert_eq!(
        bytes_to_words(&[0x12, 0x34, 0x56, 0x78], Endian::Little).unwrap(),
        vec![0x3412, 0x7856]
    );
    assert!(matches!(
        bytes_to_words(&[0x12, 0x34, 0x56], Endian::Big),
        Err(ClientError::Decode(DecodeError::InvalidLength))
    ));
    assert_eq!(bytes_to_words(&[], Endian::Big).unwrap(), Vec::<u16>::new());
}

#[test]
fn next_backoff_doubles_the_delay() {
    let next = next_backoff(Duration::from_millis(100), Duration::from_secs(5));
    assert_eq!(next, Duration::from_millis(200));
}

#[test]
fn next_backoff_is_capped_at_max_backoff() {
    let next = next_backoff(Duration::from_millis(3000), Duration::from_secs(5));
    assert_eq!(next, Duration::from_secs(5));
    let policy = RetryPolicy::default();
    let mut backoff = policy.initial_backoff;
    let mut seen = Vec::new();
    for _ in 0..8 {
        backoff = next_backoff(backoff, policy.max_backoff);
        seen.push(backoff.as_millis());
    }
    assert_eq!(seen, vec![200, 400, 800, 1600, 3200, 5000, 5000, 5000]);
}

#[test]
fn next_backoff_saturates_at_the_longest_duration() {
    let next = next_backoff(Duration::MAX, Duration::MAX);
    assert_eq!(next, Duration::MAX);
    let next = next_backoff(Duration::MAX, Duration::from_secs(1));
    assert_eq!(next, Duration::from_secs(1));
}

#[test]
fn default_durations_agree_in_nanoseconds() {
    assert_eq!(ClientConfig::default().timeout.as_nanos(), 5_000_000_000);
    let policy = RetryPolicy::default();
    assert_eq!(policy.initial_backoff.as_nanos(), 100_000_000);
    assert_eq!(policy.max_backoff, Duration::from_millis(5000));
}
