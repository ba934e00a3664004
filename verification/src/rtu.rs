//! RTU ADU framing (slave address + PDU + CRC-16).

use vstd::prelude::*;

use crate::codec::{encode_outcome, overwrite, put_bytes, copy_range, view_result};
use crate::error::{DecodeError, EncodeError};

verus! {

/// One shift of the CRC-16 register with the reflected polynomial 0xA001.
pub open spec fn crc_shift(crc: u16) -> u16 {
    if crc & 0x0001 != 0 {
        (crc >> 1u16) ^ 0xA001u16
    } else {
        crc >> 1u16
    }
}

/// `k` shifts of the CRC-16 register.
pub open spec fn crc_shifts(crc: u16, k: nat) -> u16
    decreases k,
{
    if k == 0 {
        crc
    } else {
        crc_shift(crc_shifts(crc, (k - 1) as nat))
    }
}

/// The CRC-16 register after taking in one byte.
pub open spec fn crc_update(crc: u16, byte: u8) -> u16 {
    crc_shifts(crc ^ (byte as u16), 8)
}

/// The Modbus RTU CRC-16 of `data`: the register starts at 0xFFFF and takes
/// in the bytes in order.
pub open spec fn spec_crc16(data: Seq<u8>) -> u16
    decreases data.len(),
{
    if data.len() == 0 {
        0xFFFF
    } else {
        crc_update(spec_crc16(data.drop_last()), data.last())
    }
}

/// The two CRC bytes as they are sent: low byte first.
pub open spec fn crc_bytes(crc: u16) -> Seq<u8> {
    seq![(crc % 256) as u8, (crc / 256) as u8]
}

/// Compute the Modbus RTU CRC-16 over `data`.
pub fn crc16(data: &[u8]) -> (r: u16)
    ensures
        r == spec_crc16(data@),
{
    let mut crc: u16 = 0xFFFF;
    let n = data.len();
    let mut i: usize = 0;
    while i < n
        invariant
            n == data@.len(),
            i <= n,
            crc == spec_crc16(data@.take(i as int)),
        decreases n - i,
    {
        let byte = data[i];
        crc = crc ^ (byte as u16);
        let ghost start = crc;
        let mut k: u32 = 0;
        while k < 8
            invariant
                k <= 8,
                crc == crc_shifts(start, k as nat),
            decreases 8 - k,
        {
            if crc & 0x0001 != 0 {
                crc = (crc >> 1) ^ 0xA001;
            } else {
                crc = crc >> 1;
            }
            k = k + 1;
        }
        assert(data@.take(i + 1).drop_last() =~= data@.take(i as int));
        i = i + 1;
    }
    assert(data@.take(n as int) =~= data@);
    crc
}

/// A complete RTU ADU frame.
#[derive(Debug, Clone, PartialEq, Eq)]
pub struct RtuAdu {
    pub address: u8,
    pub pdu: Vec<u8>,
}

impl View for RtuAdu {
    type V = (u8, Seq<u8>);

    open spec fn view(&self) -> (u8, Seq<u8>) {
        (self.address, self.pdu@)
    }
}

impl RtuAdu {
    /// The broadcast address (0). Servers do not respond to broadcast frames.
    pub const BROADCAST_ADDRESS: u8 = 0x00;

    /// Minimum frame size: address + function code + 2 CRC bytes.
    pub const MIN_FRAME_SIZE: usize = 4;

    /// The encoded frame: address, PDU, and the CRC of both, low byte first.
    pub open spec fn spec_wire(v: (u8, Seq<u8>)) -> Seq<u8> {
        seq![v.0] + v.1 + crc_bytes(spec_crc16(seq![v.0] + v.1))
    }

    /// What `decode` gives for the bytes `s`.
    pub open spec fn spec_decode(s: Seq<u8>) -> Result<(u8, Seq<u8>), DecodeError> {
        if s.len() < Self::MIN_FRAME_SIZE {
            Err(DecodeError::InvalidLength)
        } else if s[s.len() - 2] + 256 * s[s.len() - 1] != spec_crc16(s.take(s.len() - 2)) {
            Err(DecodeError::InvalidValue)
        } else {
            Ok((s[0], s.subrange(1, s.len() - 2)))
        }
    }

    /// Create a new ADU.
    pub fn new(address: u8, pdu: Vec<u8>) -> (r: Self)
        ensures
            r@ == (address, pdu@),
    {
        Self { address, pdu }
    }

    /// Returns `true` if this frame is addressed to all slaves (broadcast).
    pub fn is_broadcast(&self) -> (r: bool)
        ensures
            r == (self.address == Self::BROADCAST_ADDRESS),
    {
        self.address == Self::BROADCAST_ADDRESS
    }

    /// Encode the ADU into `buf` and return the number of bytes written.
    pub fn encode(&self, buf: &mut [u8]) -> (r: Result<usize, EncodeError>)
        ensures
            encode_outcome(r, old(buf)@, final(buf)@, true, Self::spec_wire(self@)),
    {
        let pdu_len = self.pdu.len();
        if buf.len() < 3 || buf.len() - 3 < pdu_len {
            return Err(EncodeError::BufferTooSmall);
        }
        let frame_len = Self::MIN_FRAME_SIZE - 1 + pdu_len;
        buf[0] = self.address;
        put_bytes(buf, 1, self.pdu.as_slice());
        let ghost body = seq![self.address] + self@.1;
        assert(buf@.take(1 + pdu_len) =~= body);
        let crc = crc16(&buf[0..1 + pdu_len]);
        let lo = (crc & 0xFF) as u8;
        let hi = ((crc >> 8) & 0xFF) as u8;
        assert(lo == crc % 256 && hi == crc / 256) by (bit_vector)
            requires
                lo == (crc & 0xFF) as u8,
                hi == ((crc >> 8) & 0xFF) as u8,
        ;
        buf[1 + pdu_len] = lo;
        buf[2 + pdu_len] = hi;
        assert(buf@ =~= overwrite(old(buf)@, Self::spec_wire(self@)));
        Ok(frame_len)
    }

    /// Decode an ADU from `buf`, verifying the CRC-16.
    pub fn decode(buf: &[u8]) -> (r: Result<Self, DecodeError>)
        ensures
            view_result(r) == Self::spec_decode(buf@),
    {
        if buf.len() < Self::MIN_FRAME_SIZE {
            return Err(DecodeError::InvalidLength);
        }
        let address = buf[0];
        let pdu_end = buf.len() - 2;
        let pdu = copy_range(buf, 1, pdu_end);
        let received_crc = (buf[pdu_end] as u16) + 256 * (buf[pdu_end + 1] as u16);
        let computed_crc = crc16(&buf[0..pdu_end]);
        if received_crc != computed_crc {
            return Err(DecodeError::InvalidValue);
        }
        Ok(Self::new(address, pdu))
    }
}

/// A frame with a non-empty PDU decodes back from its encoding.
pub proof fn rtu_adu_roundtrip(v: (u8, Seq<u8>))
    requires
        v.1.len() >= 1,
    ensures
        RtuAdu::spec_decode(RtuAdu::spec_wire(v)) == Ok::<(u8, Seq<u8>), DecodeError>(v),
{
    let w = RtuAdu::spec_wire(v);
    let body = seq![v.0] + v.1;
    assert(w.take(w.len() - 2) =~= body);
    assert(w.subrange(1, w.len() - 2) =~= v.1);
}

} // verus!
