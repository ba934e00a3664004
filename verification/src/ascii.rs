//! ASCII ADU framing (colon start, hex-encoded address + PDU + LRC-8, CR/LF end).

use vstd::prelude::*;

use crate::codec::{copy_range, encode_outcome, overwrite, view_result};
use crate::error::{DecodeError, EncodeError};

verus! {

/// The upper-case hex character of a nibble.
pub open spec fn hex_digit(n: u8) -> u8 {
    if n < 10 {
        (48 + n) as u8
    } else {
        (55 + n) as u8
    }
}

/// The two hex characters of a byte, high nibble first.
pub open spec fn hex_pair(b: u8) -> Seq<u8> {
    seq![hex_digit(b / 16), hex_digit(b % 16)]
}

/// Each byte of `s` written as two upper-case hex characters.
pub open spec fn hex_encode(s: Seq<u8>) -> Seq<u8> {
    Seq::new(
        2 * s.len(),
        |i: int|
            if i % 2 == 0 {
                hex_digit(s[i / 2] / 16)
            } else {
                hex_digit(s[i / 2] % 16)
            },
    )
}

/// The value of a hex character in either case, or `None` for any other byte.
pub open spec fn hex_value(c: u8) -> Option<u8> {
    if 48 <= c <= 57 {
        Some((c - 48) as u8)
    } else if 65 <= c <= 70 {
        Some((c - 55) as u8)
    } else if 97 <= c <= 102 {
        Some((c - 87) as u8)
    } else {
        None
    }
}

/// Every byte of `h` is a hex character.
pub open spec fn hex_valid(h: Seq<u8>) -> bool {
    forall|i: int| 0 <= i < h.len() ==> (#[trigger] hex_value(h[i])) is Some
}

/// The bytes that the pairs of hex characters in `h` stand for.
pub open spec fn hex_decode(h: Seq<u8>) -> Seq<u8> {
    Seq::new(
        h.len() / 2,
        |i: int| (hex_value(h[2 * i])->0 * 16 + hex_value(h[2 * i + 1])->0) as u8,
    )
}

/// The sum of the bytes of `s`.
pub open spec fn byte_sum(s: Seq<u8>) -> int
    decreases s.len(),
{
    if s.len() == 0 {
        0
    } else {
        byte_sum(s.drop_last()) + s.last()
    }
}

/// The LRC-8 of `s`: the two's complement of the byte sum, modulo 256.
pub open spec fn spec_lrc8(s: Seq<u8>) -> u8 {
    ((256 - byte_sum(s) % 256) % 256) as u8
}

fn hex_char(n: u8) -> (r: u8)
    requires
        n < 16,
    ensures
        r == hex_digit(n),
{
    if n < 10 {
        48 + n
    } else {
        55 + n
    }
}

fn encode_hex_byte(byte: u8) -> (r: [u8; 2])
    ensures
        r@ == hex_pair(byte),
{
    let r = [hex_char(byte / 16), hex_char(byte % 16)];
    assert(r@ =~= hex_pair(byte));
    r
}

fn decode_hex_char(c: u8) -> (r: Result<u8, DecodeError>)
    ensures
        r == (match hex_value(c) {
            Some(v) => Ok::<u8, DecodeError>(v),
            None => Err(DecodeError::InvalidValue),
        }),
{
    if 48 <= c && c <= 57 {
        Ok(c - 48)
    } else if 65 <= c && c <= 70 {
        Ok(c - 55)
    } else if 97 <= c && c <= 102 {
        Ok(c - 87)
    } else {
        Err(DecodeError::InvalidValue)
    }
}

fn decode_hex_byte(high: u8, low: u8) -> (r: Result<u8, DecodeError>)
    ensures
        r == (if hex_value(high) is Some && hex_value(low) is Some {
            Ok::<u8, DecodeError>((hex_value(high)->0 * 16 + hex_value(low)->0) as u8)
        } else {
            Err(DecodeError::InvalidValue)
        }),
{
    let high = match decode_hex_char(high) {
        Ok(v) => v,
        Err(e) => return Err(e),
    };
    let low = match decode_hex_char(low) {
        Ok(v) => v,
        Err(e) => return Err(e),
    };
    Ok(high * 16 + low)
}

/// Compute the ASCII mode LRC-8 over `data`.
pub fn lrc8(data: &[u8]) -> (r: u8)
    ensures
        r == spec_lrc8(data@),
{
    let n = data.len();
    let mut sum: u8 = 0;
    let mut i: usize = 0;
    while i < n
        invariant
            n == data@.len(),
            i <= n,
            sum == byte_sum(data@.take(i as int)) % 256,
        decreases n - i,
    {
        assert(data@.take(i + 1).drop_last() =~= data@.take(i as int));
        sum = sum.wrapping_add(data[i]);
        i = i + 1;
    }
    assert(data@.take(n as int) =~= data@);
    0u8.wrapping_sub(sum)
}

/// Write the hex encoding of `data` into `buf` from `off` on.
fn put_hex(buf: &mut [u8], off: usize, data: &[u8])
    requires
        off + 2 * data@.len() <= old(buf)@.len(),
    ensures
        final(buf)@ == old(buf)@.take(off as int) + hex_encode(data@) + old(buf)@.skip(
            off + 2 * data@.len(),
        ),
{
    let n = data.len();
    let len = buf.len();
    let mut j: usize = 0;
    while j < n
        invariant
            n == data@.len(),
            len == buf@.len(),
            off + 2 * n <= len,
            buf@.len() == old(buf)@.len(),
            j <= n,
            forall|k: int| 0 <= k < off ==> buf@[k] == old(buf)@[k],
            forall|k: int| off + 2 * n <= k < buf@.len() ==> buf@[k] == old(buf)@[k],
            forall|k: int| 0 <= k < 2 * j ==> buf@[off + k] == #[trigger] hex_encode(data@)[k],
        decreases n - j,
    {
        let hex = encode_hex_byte(data[j]);
        buf[off + 2 * j] = hex[0];
        buf[off + 2 * j + 1] = hex[1];
        assert forall|k: int| 0 <= k < 2 * (j + 1) implies buf@[off + k] == #[trigger] hex_encode(
            data@,
        )[k] by {
            if k == 2 * j {
                assert(k / 2 == j && k % 2 == 0);
            } else if k == 2 * j + 1 {
                assert(k / 2 == j && k % 2 == 1);
            }
        }
        j = j + 1;
    }
    assert(buf@ =~= old(buf)@.take(off as int) + hex_encode(data@) + old(buf)@.skip(
        off + 2 * data@.len(),
    ));
}

/// Decode the hex characters `buf[start..end]` into bytes.
fn decode_hex_range(buf: &[u8], start: usize, end: usize) -> (r: Result<Vec<u8>, DecodeError>)
    requires
        start <= end <= buf@.len(),
        (end - start) % 2 == 0,
    ensures
        match r {
            Ok(v) => hex_valid(buf@.subrange(start as int, end as int)) && v@ == hex_decode(
                buf@.subrange(start as int, end as int),
            ),
            Err(e) => !hex_valid(buf@.subrange(start as int, end as int)) && e
                == DecodeError::InvalidValue,
        },
{
    let ghost h = buf@.subrange(start as int, end as int);
    let half = (end - start) / 2;
    let mut bytes: Vec<u8> = Vec::new();
    let mut j: usize = 0;
    while j < half
        invariant
            h == buf@.subrange(start as int, end as int),
            start <= end <= buf@.len(),
            half == h.len() / 2,
            h.len() % 2 == 0,
            j <= half,
            forall|k: int| 0 <= k < 2 * j ==> (#[trigger] hex_value(h[k])) is Some,
            bytes@ == hex_decode(h).take(j as int),
        decreases half - j,
    {
        let hi_c = buf[start + 2 * j];
        let lo_c = buf[start + 2 * j + 1];
        assert(hi_c == h[2 * j] && lo_c == h[2 * j + 1]);
        let b = match decode_hex_byte(hi_c, lo_c) {
            Ok(b) => b,
            Err(e) => {
                assert(!hex_valid(h)) by {
                    if hex_value(h[2 * j]) is Some {
                        assert(hex_value(h[2 * j + 1]) is None);
                    }
                }
                return Err(e);
            },
        };
        bytes.push(b);
        j = j + 1;
        assert(bytes@ =~= hex_decode(h).take(j as int));
    }
    assert(hex_valid(h)) by {
        assert forall|k: int| 0 <= k < h.len() implies (#[trigger] hex_value(h[k])) is Some by {
            assert(k < 2 * j);
        }
    }
    assert(bytes@ =~= hex_decode(h));
    Ok(bytes)
}

/// A complete ASCII ADU frame.
#[derive(Debug, Clone, PartialEq, Eq)]
pub struct AsciiAdu {
    pub address: u8,
    pub pdu: Vec<u8>,
}

impl View for AsciiAdu {
    type V = (u8, Seq<u8>);

    open spec fn view(&self) -> (u8, Seq<u8>) {
        (self.address, self.pdu@)
    }
}

impl AsciiAdu {
    /// Start-of-frame character.
    pub const START: u8 = 0x3A;

    /// End-of-frame marker.
    pub const END: [u8; 2] = [0x0D, 0x0A];

    /// Shortest frame that can carry an address, a function code and an LRC:
    /// colon, six hex characters, CR, LF.
    pub const MIN_FRAME_SIZE: usize = 9;

    /// Address and PDU, the bytes that the LRC covers.
    pub open spec fn body(v: (u8, Seq<u8>)) -> Seq<u8> {
        seq![v.0] + v.1
    }

    /// The encoded frame: colon, the hex of address, PDU and LRC, CR, LF.
    pub open spec fn spec_wire(v: (u8, Seq<u8>)) -> Seq<u8> {
        seq![0x3Au8] + hex_encode(Self::body(v).push(spec_lrc8(Self::body(v)))) + seq![
            0x0Du8,
            0x0Au8,
        ]
    }

    /// What `decode` gives for the bytes `s`.
    pub open spec fn spec_decode(s: Seq<u8>) -> Result<(u8, Seq<u8>), DecodeError> {
        if s.len() < 9 {
            Err(DecodeError::InvalidLength)
        } else if s[0] != 0x3A {
            Err(DecodeError::InvalidValue)
        } else if !(s[s.len() - 2] == 0x0D && s[s.len() - 1] == 0x0A) {
            Err(DecodeError::InvalidValue)
        } else if (s.len() - 3) % 2 != 0 || s.len() - 3 < 4 {
            Err(DecodeError::InvalidLength)
        } else if !hex_valid(s.subrange(1, s.len() - 2)) {
            Err(DecodeError::InvalidValue)
        } else {
            let bytes = hex_decode(s.subrange(1, s.len() - 2));
            let body = bytes.drop_last();
            if body.len() < 2 {
                Err(DecodeError::InvalidLength)
            } else if bytes.last() != spec_lrc8(body) {
                Err(DecodeError::InvalidValue)
            } else {
                Ok((body[0], body.skip(1)))
            }
        }
    }

    /// Create a new ADU.
    pub fn new(address: u8, pdu: Vec<u8>) -> (r: Self)
        ensures
            r@ == (address, pdu@),
    {
        Self { address, pdu }
    }

    /// Returns `true` if this frame is addressed to all slaves (broadcast).
    pub fn is_broadcast(&self) -> (r: bool)
        ensures
            r == (self.address == 0),
    {
        self.address == 0
    }

    /// Encode the ADU into `buf` and return the number of bytes written.
    pub fn encode(&self, buf: &mut [u8]) -> (r: Result<usize, EncodeError>)
        ensures
            encode_outcome(r, old(buf)@, final(buf)@, true, Self::spec_wire(self@)),
    {
        let pdu_len = self.pdu.len();
        let len = buf.len();
        if len < 7 || (len - 7) / 2 < pdu_len {
            return Err(EncodeError::BufferTooSmall);
        }
        let mut body: Vec<u8> = Vec::new();
        body.push(self.address);
        let mut i: usize = 0;
        while i < pdu_len
            invariant
                pdu_len == self.pdu@.len(),
                i <= pdu_len,
                body@ == seq![self.address] + self.pdu@.take(i as int),
            decreases pdu_len - i,
        {
            body.push(self.pdu[i]);
            i = i + 1;
            assert(body@ =~= seq![self.address] + self.pdu@.take(i as int));
        }
        assert(self.pdu@.take(pdu_len as int) =~= self.pdu@);
        let lrc = lrc8(body.as_slice());
        body.push(lrc);
        buf[0] = Self::START;
        put_hex(buf, 1, body.as_slice());
        let end = 1 + 2 * body.len();
        buf[end] = 0x0D;
        buf[end + 1] = 0x0A;
        assert(buf@ =~= overwrite(old(buf)@, Self::spec_wire(self@)));
        Ok(end + 2)
    }

    /// Decode an ADU from `buf`, verifying the LRC-8.
    pub fn decode(buf: &[u8]) -> (r: Result<Self, DecodeError>)
        ensures
            view_result(r) == Self::spec_decode(buf@),
    {
        let len = buf.len();
        if len < Self::MIN_FRAME_SIZE {
            return Err(DecodeError::InvalidLength);
        }
        if buf[0] != Self::START {
            return Err(DecodeError::InvalidValue);
        }
        if !(buf[len - 2] == 0x0D && buf[len - 1] == 0x0A) {
            return Err(DecodeError::InvalidValue);
        }
        let hex_len = len - 3;
        if hex_len % 2 != 0 {
            return Err(DecodeError::InvalidLength);
        }
        if hex_len < 4 {
            return Err(DecodeError::InvalidLength);
        }
        let mut bytes = match decode_hex_range(buf, 1, len - 2) {
            Ok(b) => b,
            Err(e) => return Err(e),
        };
        let ghost all = bytes@;
        let received_lrc = match bytes.pop() {
            Some(b) => b,
            None => return Err(DecodeError::InvalidLength),
        };
        assert(bytes@ =~= all.drop_last());
        if bytes.len() < 2 {
            return Err(DecodeError::InvalidLength);
        }
        let address = bytes[0];
        let pdu = copy_range(bytes.as_slice(), 1, bytes.len());
        assert(pdu@ =~= bytes@.skip(1));
        let computed_lrc = lrc8(bytes.as_slice());
        if received_lrc != computed_lrc {
            return Err(DecodeError::InvalidValue);
        }
        Ok(Self::new(address, pdu))
    }
}


/// Reading back a hex character gives the nibble it was written from.
proof fn lemma_hex_digit_value(n: u8)
    requires
        n < 16,
    ensures
        hex_value(hex_digit(n)) == Some(n),
{
}

/// Hex decoding undoes hex encoding, and an encoding holds only hex characters.
pub proof fn hex_roundtrip(s: Seq<u8>)
    ensures
        hex_valid(hex_encode(s)),
        hex_decode(hex_encode(s)) == s,
{
    let h = hex_encode(s);
    assert forall|k: int| 0 <= k < h.len() implies (#[trigger] hex_value(h[k])) is Some by {
        lemma_hex_digit_value(s[k / 2] / 16);
        lemma_hex_digit_value(s[k / 2] % 16);
    }
    assert forall|i: int| 0 <= i < s.len() implies #[trigger] hex_decode(h)[i] == s[i] by {
        assert((2 * i) / 2 == i && (2 * i) % 2 == 0);
        assert((2 * i + 1) / 2 == i && (2 * i + 1) % 2 == 1);
        lemma_hex_digit_value(s[i] / 16);
        lemma_hex_digit_value(s[i] % 16);
    }
    assert(hex_decode(h) =~= s);
}

/// The byte sum of a sequence with the LRC appended is a multiple of 256:
/// a receiver that adds up every byte of the frame body, LRC included,
/// gets zero.
pub proof fn lrc8_checksum(s: Seq<u8>)
    ensures
        byte_sum(s.push(spec_lrc8(s))) % 256 == 0,
{
    assert(s.push(spec_lrc8(s)).drop_last() =~= s);
    let t = byte_sum(s);
    let a = t % 256;
    assert((t + (256 - a) % 256) % 256 == 0) by (nonlinear_arith)
        requires
            a == t % 256,
    ;
}

/// The parts of an encoded frame: colon, the hex of address, PDU and LRC,
/// CR, LF.
pub proof fn lemma_wire_parts(v: (u8, Seq<u8>))
    ensures
        ({
            let bytes = AsciiAdu::body(v).push(spec_lrc8(AsciiAdu::body(v)));
            let w = AsciiAdu::spec_wire(v);
            &&& w.len() == 2 * bytes.len() + 3
            &&& w[0] == 0x3A
            &&& w[w.len() - 2] == 0x0D
            &&& w[w.len() - 1] == 0x0A
            &&& w.subrange(1, w.len() - 2) == hex_encode(bytes)
        }),
{
    let bytes = AsciiAdu::body(v).push(spec_lrc8(AsciiAdu::body(v)));
    let w = AsciiAdu::spec_wire(v);
    assert(w.subrange(1, w.len() - 2) =~= hex_encode(bytes));
}

/// An ADU with a non-empty PDU decodes back from its encoding.
pub proof fn ascii_adu_roundtrip(v: (u8, Seq<u8>))
    requires
        v.1.len() >= 1,
    ensures
        AsciiAdu::spec_decode(AsciiAdu::spec_wire(v)) == Ok::<(u8, Seq<u8>), DecodeError>(v),
{
    let body = AsciiAdu::body(v);
    let bytes = body.push(spec_lrc8(body));
    let w = AsciiAdu::spec_wire(v);
    lemma_wire_parts(v);
    hex_roundtrip(bytes);
    assert(bytes.drop_last() =~= body);
    assert(body.skip(1) =~= v.1);
    assert(body[0] == v.0);
}

} // verus!
