//! FC 0x14 Read File Record.

use vstd::prelude::*;

use crate::codec::{be16, check_header, concat, copy_range, encode_outcome, get_be16, lemma_be16_roundtrip, lemma_concat_prefix_len, lemma_concat_push, lemma_part_len_le_concat, overwrite, prepend, put_be16, put_bytes, read_be16, spec_header, view_result};
use crate::error::{DecodeError, EncodeError};
use vstd::slice::slice_subrange;

verus! {

/// Sub-request within a FC 0x14 Read File Record request.
#[derive(Debug, Clone, Copy, PartialEq, Eq, Structural)]
pub struct ReadFileRecordSubRequest {
    pub reference_type: u8,
    pub file_number: u16,
    pub record_number: u16,
    pub record_length: u16,
}

impl ReadFileRecordSubRequest {
    pub const REQUEST_REFERENCE_TYPE: u8 = 0x06;

    /// The seven encoded bytes of this sub-request.
    pub open spec fn spec_wire(&self) -> Seq<u8> {
        seq![self.reference_type] + be16(self.file_number) + be16(self.record_number) + be16(
            self.record_length,
        )
    }

    /// The sub-request whose seven bytes start at `s[i]`.
    pub open spec fn spec_at(s: Seq<u8>, i: int) -> Self {
        ReadFileRecordSubRequest {
            reference_type: s[i],
            file_number: get_be16(s, i + 1),
            record_number: get_be16(s, i + 3),
            record_length: get_be16(s, i + 5),
        }
    }

    /// What `decode` gives for the bytes `s`.
    pub open spec fn spec_decode(s: Seq<u8>) -> Result<Self, DecodeError> {
        if s.len() < 7 {
            Err(DecodeError::InvalidLength)
        } else {
            Ok(Self::spec_at(s, 0))
        }
    }

    /// Create a new sub-request with the request reference type.
    pub fn new(file_number: u16, record_number: u16, record_length: u16) -> (r: Self)
        ensures
            r == (ReadFileRecordSubRequest {
                reference_type: Self::REQUEST_REFERENCE_TYPE,
                file_number,
                record_number,
                record_length,
            }),
    {
        Self {
            reference_type: Self::REQUEST_REFERENCE_TYPE,
            file_number,
            record_number,
            record_length,
        }
    }

    fn write_at(&self, buf: &mut [u8], off: usize)
        requires
            off + 7 <= old(buf)@.len(),
        ensures
            final(buf)@ == old(buf)@.take(off as int) + self.spec_wire() + old(buf)@.skip(off + 7),
    {
        buf[off] = self.reference_type;
        put_be16(buf, off + 1, self.file_number);
        put_be16(buf, off + 3, self.record_number);
        put_be16(buf, off + 5, self.record_length);
        assert(buf@ =~= old(buf)@.take(off as int) + self.spec_wire() + old(buf)@.skip(off + 7));
    }

    fn read_at(buf: &[u8], off: usize) -> (r: Self)
        requires
            off + 7 <= buf@.len(),
        ensures
            r == Self::spec_at(buf@, off as int),
    {
        Self {
            reference_type: buf[off],
            file_number: read_be16(buf, off + 1),
            record_number: read_be16(buf, off + 3),
            record_length: read_be16(buf, off + 5),
        }
    }

    /// Encode this sub-request into `buf` and return bytes written.
    pub fn encode(&self, buf: &mut [u8]) -> (r: Result<usize, EncodeError>)
        ensures
            encode_outcome(r, old(buf)@, final(buf)@, true, self.spec_wire()),
    {
        if buf.len() < 7 {
            return Err(EncodeError::BufferTooSmall);
        }
        self.write_at(buf, 0);
        assert(buf@ =~= overwrite(old(buf)@, self.spec_wire()));
        Ok(7)
    }

    /// Decode a sub-request from `buf`.
    pub fn decode(buf: &[u8]) -> (r: Result<Self, DecodeError>)
        ensures
            r == Self::spec_decode(buf@),
    {
        if buf.len() < 7 {
            return Err(DecodeError::InvalidLength);
        }
        Ok(Self::read_at(buf, 0))
    }
}

/// The sub-requests read one after another from `t`, seven bytes each.
pub open spec fn decode_sub_requests(t: Seq<u8>) -> Seq<ReadFileRecordSubRequest>
    decreases t.len(),
{
    if t.len() < 7 {
        Seq::empty()
    } else {
        seq![ReadFileRecordSubRequest::spec_at(t, 0)] + decode_sub_requests(t.skip(7))
    }
}

/// The encoded sub-requests, one part each.
pub open spec fn sub_request_wires(subs: Seq<ReadFileRecordSubRequest>) -> Seq<Seq<u8>> {
    subs.map_values(|x: ReadFileRecordSubRequest| x.spec_wire())
}

/// Reading back one encoded sub-request gives it.
pub proof fn lemma_sub_request_at(x: ReadFileRecordSubRequest, rest: Seq<u8>)
    ensures
        ReadFileRecordSubRequest::spec_at(x.spec_wire() + rest, 0) == x,
        x.spec_wire().len() == 7,
{
    lemma_be16_roundtrip(x.file_number);
    lemma_be16_roundtrip(x.record_number);
    lemma_be16_roundtrip(x.record_length);
    let w = x.spec_wire() + rest;
    assert(get_be16(w, 1) == x.file_number);
    assert(get_be16(w, 3) == x.record_number);
    assert(get_be16(w, 5) == x.record_length);
}

/// Decoding the encoded sub-requests gives them back.
pub proof fn lemma_decode_sub_requests(subs: Seq<ReadFileRecordSubRequest>)
    ensures
        decode_sub_requests(concat(sub_request_wires(subs))) == subs,
        concat(sub_request_wires(subs)).len() == 7 * subs.len(),
    decreases subs.len(),
{
    let w = concat(sub_request_wires(subs));
    if subs.len() == 0 {
        assert(decode_sub_requests(w) =~= subs);
    } else {
        let rest = subs.skip(1);
        lemma_decode_sub_requests(rest);
        assert(sub_request_wires(subs).skip(1) =~= sub_request_wires(rest));
        lemma_sub_request_at(subs[0], concat(sub_request_wires(rest)));
        assert(w == subs[0].spec_wire() + concat(sub_request_wires(rest)));
        assert(w.skip(7) =~= concat(sub_request_wires(rest)));
        assert(decode_sub_requests(w) =~= subs);
    }
}

/// Request PDU for FC 0x14 Read File Record.
#[derive(Debug, Clone, PartialEq, Eq)]
pub struct ReadFileRecordRequest {
    pub sub_requests: Vec<ReadFileRecordSubRequest>,
}

impl View for ReadFileRecordRequest {
    type V = Seq<ReadFileRecordSubRequest>;

    open spec fn view(&self) -> Seq<ReadFileRecordSubRequest> {
        self.sub_requests@
    }
}

impl ReadFileRecordRequest {
    pub const FUNCTION_CODE: u8 = 0x14;

    /// Whether the sub-requests fit in the byte count.
    pub open spec fn spec_encodable(subs: Seq<ReadFileRecordSubRequest>) -> bool {
        7 * subs.len() <= 255
    }

    /// The encoded PDU.
    pub open spec fn spec_wire(subs: Seq<ReadFileRecordSubRequest>) -> Seq<u8> {
        seq![Self::FUNCTION_CODE, (7 * subs.len()) as u8] + concat(sub_request_wires(subs))
    }

    /// What `decode` gives for the bytes `s`.
    pub open spec fn spec_decode(s: Seq<u8>) -> Result<Seq<ReadFileRecordSubRequest>, DecodeError> {
        match spec_header(s, Self::FUNCTION_CODE, 2) {
            Some(e) => Err(e),
            None => if s.len() < 2 + s[1] || s[1] % 7 != 0 {
                Err(DecodeError::InvalidLength)
            } else {
                Ok(decode_sub_requests(s.subrange(2, 2 + s[1])))
            },
        }
    }

    /// Create a new request.
    pub fn new(sub_requests: Vec<ReadFileRecordSubRequest>) -> (r: Self)
        ensures
            r@ == sub_requests@,
    {
        Self { sub_requests }
    }

    /// Encode the request into `buf` and return the number of bytes written.
    pub fn encode(&self, buf: &mut [u8]) -> (r: Result<usize, EncodeError>)
        ensures
            encode_outcome(
                r,
                old(buf)@,
                final(buf)@,
                Self::spec_encodable(self@),
                Self::spec_wire(self@),
            ),
    {
        let count = self.sub_requests.len();
        proof {
            lemma_decode_sub_requests(self@);
        }
        if count > 36 {
            return Err(EncodeError::BufferTooSmall);
        }
        let byte_count = count * 7;
        if buf.len() < 2 + byte_count {
            return Err(EncodeError::BufferTooSmall);
        }
        buf[0] = Self::FUNCTION_CODE;
        buf[1] = byte_count as u8;
        let ghost wires = sub_request_wires(self@);
        let mut offset: usize = 2;
        let mut i: usize = 0;
        while i < count
            invariant
                count == self@.len(),
                count <= 36,
                i <= count,
                offset == 2 + 7 * i,
                2 + 7 * count <= buf@.len(),
                buf@.len() == old(buf)@.len(),
                wires == sub_request_wires(self@),
                buf@[0] == Self::FUNCTION_CODE,
                buf@[1] == (7 * count) as u8,
                buf@.subrange(2, offset as int) == concat(wires.take(i as int)),
                buf@.skip(offset as int) == old(buf)@.skip(offset as int),
            decreases count - i,
        {
            let ghost before = buf@;
            self.sub_requests[i].write_at(buf, offset);
            proof {
                assert(wires.take(i + 1) =~= wires.take(i as int).push(wires[i as int]));
                lemma_concat_push(wires.take(i as int), wires[i as int]);
                assert(buf@.subrange(2, offset + 7) =~= before.subrange(2, offset as int)
                    + wires[i as int]);
                assert(buf@.skip(offset + 7) =~= before.skip(offset as int).skip(7));
                assert(old(buf)@.skip(offset as int).skip(7) =~= old(buf)@.skip(offset + 7));
            }
            offset = offset + 7;
            i = i + 1;
        }
        assert(wires.take(count as int) =~= wires);
        assert(buf@ =~= overwrite(old(buf)@, Self::spec_wire(self@)));
        Ok(offset)
    }

    /// Decode a request from `buf`.
    pub fn decode(buf: &[u8]) -> (r: Result<Self, DecodeError>)
        ensures
            view_result(r) == Self::spec_decode(buf@),
    {
        if let Err(e) = check_header(buf, Self::FUNCTION_CODE, 2) {
            return Err(e);
        }
        let byte_count = buf[1] as usize;
        if buf.len() < 2 + byte_count {
            return Err(DecodeError::InvalidLength);
        }
        if byte_count % 7 != 0 {
            return Err(DecodeError::InvalidLength);
        }
        let end = 2 + byte_count;
        let ghost full = buf@.subrange(2, end as int);
        let mut sub_requests: Vec<ReadFileRecordSubRequest> = Vec::new();
        let mut offset: usize = 2;
        assert(full.skip(0) =~= full);
        assert(sub_requests@ + decode_sub_requests(full) =~= decode_sub_requests(full));
        while offset < end
            invariant
                2 <= offset <= end,
                end <= buf@.len(),
                (end - offset) % 7 == 0,
                full == buf@.subrange(2, end as int),
                decode_sub_requests(full) == sub_requests@ + decode_sub_requests(
                    full.skip(offset - 2),
                ),
            decreases end - offset,
        {
            let ghost t = full.skip(offset - 2);
            let sub = ReadFileRecordSubRequest::read_at(buf, offset);
            proof {
                assert(t.skip(7) =~= full.skip(offset + 7 - 2));
                assert(ReadFileRecordSubRequest::spec_at(t, 0) == sub);
                assert(sub_requests@.push(sub) + decode_sub_requests(t.skip(7)) =~= sub_requests@
                    + decode_sub_requests(t));
            }
            sub_requests.push(sub);
            offset = offset + 7;
        }
        assert(decode_sub_requests(full.skip(end - 2)) =~= Seq::<ReadFileRecordSubRequest>::empty());
        assert(sub_requests@ =~= decode_sub_requests(full));
        Ok(Self::new(sub_requests))
    }
}

/// A request whose sub-requests fit in the byte count decodes back from its
/// encoding.
pub proof fn read_file_record_request_roundtrip(subs: Seq<ReadFileRecordSubRequest>)
    requires
        ReadFileRecordRequest::spec_encodable(subs),
    ensures
        ReadFileRecordRequest::spec_decode(ReadFileRecordRequest::spec_wire(subs)) == Ok::<
            Seq<ReadFileRecordSubRequest>,
            DecodeError,
        >(subs),
{
    lemma_decode_sub_requests(subs);
    let w = ReadFileRecordRequest::spec_wire(subs);
    assert(w.subrange(2, 2 + w[1]) =~= concat(sub_request_wires(subs)));
}

/// Sub-response within a FC 0x14 Read File Record response.
#[derive(Debug, Clone, PartialEq, Eq)]
pub struct ReadFileRecordSubResponse {
    pub data: Vec<u8>,
}

impl View for ReadFileRecordSubResponse {
    type V = Seq<u8>;

    open spec fn view(&self) -> Seq<u8> {
        self.data@
    }
}

impl ReadFileRecordSubResponse {
    pub const RESPONSE_REFERENCE_TYPE: u8 = 0x06;

    /// Whether the file response length (reference type plus data) fits in a
    /// byte.
    pub open spec fn spec_encodable(data: Seq<u8>) -> bool {
        1 + data.len() <= 255
    }

    /// The encoded sub-response: file response length, reference type, data.
    pub open spec fn spec_wire(data: Seq<u8>) -> Seq<u8> {
        seq![(1 + data.len()) as u8, Self::RESPONSE_REFERENCE_TYPE] + data
    }

    /// What `decode` gives for the bytes `s`; the reference type is not
    /// checked.
    pub open spec fn spec_decode(s: Seq<u8>) -> Result<Seq<u8>, DecodeError> {
        if s.len() < 2 || s[0] < 1 || s.len() < 1 + s[0] {
            Err(DecodeError::InvalidLength)
        } else {
            Ok(s.subrange(2, 1 + s[0]))
        }
    }

    /// Create a new sub-response.
    pub fn new(data: Vec<u8>) -> (r: Self)
        ensures
            r@ == data@,
    {
        Self { data }
    }

    fn write_at(&self, buf: &mut [u8], off: usize)
        requires
            Self::spec_encodable(self@),
            off + 2 + self@.len() <= old(buf)@.len(),
        ensures
            final(buf)@ == old(buf)@.take(off as int) + Self::spec_wire(self@) + old(buf)@.skip(
                off + 2 + self@.len(),
            ),
    {
        let data_len = self.data.len();
        buf[off] = (1 + data_len) as u8;
        buf[off + 1] = Self::RESPONSE_REFERENCE_TYPE;
        put_bytes(buf, off + 2, self.data.as_slice());
        assert(buf@ =~= old(buf)@.take(off as int) + Self::spec_wire(self@) + old(buf)@.skip(
            off + 2 + self@.len(),
        ));
    }

    /// Encode this sub-response into `buf` and return bytes written.
    pub fn encode(&self, buf: &mut [u8]) -> (r: Result<usize, EncodeError>)
        ensures
            encode_outcome(
                r,
                old(buf)@,
                final(buf)@,
                Self::spec_encodable(self@),
                Self::spec_wire(self@),
            ),
    {
        let data_len = self.data.len();
        if data_len > 254 {
            return Err(EncodeError::BufferTooSmall);
        }
        let file_response_length = 1 + data_len;
        if buf.len() < 1 + file_response_length {
            return Err(EncodeError::BufferTooSmall);
        }
        self.write_at(buf, 0);
        assert(buf@ =~= overwrite(old(buf)@, Self::spec_wire(self@)));
        Ok(1 + file_response_length)
    }

    /// Decode a sub-response from `buf`.
    pub fn decode(buf: &[u8]) -> (r: Result<Self, DecodeError>)
        ensures
            view_result(r) == Self::spec_decode(buf@),
    {
        if buf.len() < 2 {
            return Err(DecodeError::InvalidLength);
        }
        let file_response_length = buf[0] as usize;
        if file_response_length < 1 {
            return Err(DecodeError::InvalidLength);
        }
        if buf.len() < 1 + file_response_length {
            return Err(DecodeError::InvalidLength);
        }
        let data = copy_range(buf, 2, 1 + file_response_length);
        Ok(Self::new(data))
    }
}

/// The sub-responses read one after another from `t`.
pub open spec fn decode_sub_responses(t: Seq<u8>) -> Result<Seq<Seq<u8>>, DecodeError>
    decreases t.len(),
{
    if t.len() == 0 {
        Ok(Seq::empty())
    } else if t.len() < 2 || t[0] < 1 || t.len() < 1 + t[0] {
        Err(DecodeError::InvalidLength)
    } else {
        prepend(seq![t.subrange(2, 1 + t[0])], decode_sub_responses(t.skip(1 + t[0])))
    }
}

/// The encoded sub-responses, one part each.
pub open spec fn sub_response_wires(subs: Seq<Seq<u8>>) -> Seq<Seq<u8>> {
    subs.map_values(|d: Seq<u8>| ReadFileRecordSubResponse::spec_wire(d))
}

/// Decoding encoded sub-responses, each small enough, gives them back.
pub proof fn lemma_decode_sub_responses(subs: Seq<Seq<u8>>)
    requires
        forall|i: int| 0 <= i < subs.len() ==> ReadFileRecordSubResponse::spec_encodable(
            #[trigger] subs[i],
        ),
    ensures
        decode_sub_responses(concat(sub_response_wires(subs))) == Ok::<Seq<Seq<u8>>, DecodeError>(
            subs,
        ),
    decreases subs.len(),
{
    let w = concat(sub_response_wires(subs));
    if subs.len() == 0 {
        assert(subs =~= Seq::<Seq<u8>>::empty());
    } else {
        let rest = subs.skip(1);
        assert forall|i: int| 0 <= i < rest.len() implies ReadFileRecordSubResponse::spec_encodable(
            #[trigger] rest[i],
        ) by {
            assert(rest[i] == subs[i + 1]);
        }
        lemma_decode_sub_responses(rest);
        assert(sub_response_wires(subs).skip(1) =~= sub_response_wires(rest));
        let first = ReadFileRecordSubResponse::spec_wire(subs[0]);
        assert(w == first + concat(sub_response_wires(rest)));
        assert(w.subrange(2, 1 + w[0]) =~= subs[0]);
        assert(w.skip(1 + w[0]) =~= concat(sub_response_wires(rest)));
        assert(seq![subs[0]] + rest =~= subs);
    }
}

/// The sum, over the sub-responses, of their encoded lengths.
pub open spec fn sub_responses_len(subs: Seq<Seq<u8>>) -> int {
    concat(sub_response_wires(subs)).len() as int
}

/// Response PDU for FC 0x14 Read File Record.
#[derive(Debug, Clone, PartialEq, Eq)]
pub struct ReadFileRecordResponse {
    pub sub_responses: Vec<ReadFileRecordSubResponse>,
}

impl View for ReadFileRecordResponse {
    type V = Seq<Seq<u8>>;

    open spec fn view(&self) -> Seq<Seq<u8>> {
        self.sub_responses@.map_values(|s: ReadFileRecordSubResponse| s@)
    }
}

impl ReadFileRecordResponse {
    /// Whether the sub-responses fit in the byte count.
    pub open spec fn spec_encodable(subs: Seq<Seq<u8>>) -> bool {
        sub_responses_len(subs) <= 255
    }

    /// The encoded PDU.
    pub open spec fn spec_wire(subs: Seq<Seq<u8>>) -> Seq<u8> {
        seq![ReadFileRecordRequest::FUNCTION_CODE, sub_responses_len(subs) as u8] + concat(
            sub_response_wires(subs),
        )
    }

    /// What `decode` gives for the bytes `s`.
    pub open spec fn spec_decode(s: Seq<u8>) -> Result<Seq<Seq<u8>>, DecodeError> {
        match spec_header(s, ReadFileRecordRequest::FUNCTION_CODE, 2) {
            Some(e) => Err(e),
            None => if s.len() < 2 + s[1] {
                Err(DecodeError::InvalidLength)
            } else {
                decode_sub_responses(s.subrange(2, 2 + s[1]))
            },
        }
    }

    /// Create a new response.
    pub fn new(sub_responses: Vec<ReadFileRecordSubResponse>) -> (r: Self)
        ensures
            r.sub_responses@ == sub_responses@,
    {
        Self { sub_responses }
    }

    /// Encode the response into `buf` and return the number of bytes written.
    pub fn encode(&self, buf: &mut [u8]) -> (r: Result<usize, EncodeError>)
        ensures
            encode_outcome(
                r,
                old(buf)@,
                final(buf)@,
                Self::spec_encodable(self@),
                Self::spec_wire(self@),
            ),
    {
        let count = self.sub_responses.len();
        let ghost wires = sub_response_wires(self@);
        let mut total: usize = 0;
        let mut i: usize = 0;
        while i < count
            invariant
                count == self@.len(),
                i <= count,
                wires == sub_response_wires(self@),
                total == concat(wires.take(i as int)).len(),
                total <= 255,
            decreases count - i,
        {
            let n = self.sub_responses[i].data.len();
            proof {
                assert(wires.take(i + 1) =~= wires.take(i as int).push(wires[i as int]));
                lemma_concat_push(wires.take(i as int), wires[i as int]);
                lemma_concat_prefix_len(wires, i + 1);
            }
            if n > 253 || total + 2 + n > 255 {
                return Err(EncodeError::BufferTooSmall);
            }
            total = total + 2 + n;
            i = i + 1;
        }
        assert(wires.take(count as int) =~= wires);
        if buf.len() < 2 + total {
            return Err(EncodeError::BufferTooSmall);
        }
        buf[0] = ReadFileRecordRequest::FUNCTION_CODE;
        buf[1] = total as u8;
        let mut offset: usize = 2;
        let mut i: usize = 0;
        while i < count
            invariant
                count == self@.len(),
                i <= count,
                wires == sub_response_wires(self@),
                2 + total <= buf@.len(),
                total == concat(wires).len(),
                total <= 255,
                offset == 2 + concat(wires.take(i as int)).len(),
                buf@.len() == old(buf)@.len(),
                buf@[0] == ReadFileRecordRequest::FUNCTION_CODE,
                buf@[1] == total as u8,
                buf@.subrange(2, offset as int) == concat(wires.take(i as int)),
                buf@.skip(offset as int) == old(buf)@.skip(offset as int),
            decreases count - i,
        {
            let ghost before = buf@;
            proof {
                assert(wires.take(i + 1) =~= wires.take(i as int).push(wires[i as int]));
                lemma_concat_push(wires.take(i as int), wires[i as int]);
                lemma_concat_prefix_len(wires, i + 1);
                assert(self.sub_responses@[i as int]@ == self@[i as int]);
            }
            let sub = &self.sub_responses[i];
            sub.write_at(buf, offset);
            proof {
                assert(buf@.subrange(2, offset + 2 + sub@.len()) =~= before.subrange(
                    2,
                    offset as int,
                ) + wires[i as int]);
                assert(buf@.skip(offset + 2 + sub@.len()) =~= before.skip(offset as int).skip(
                    2 + sub@.len() as int,
                ));
                assert(old(buf)@.skip(offset as int).skip(2 + sub@.len() as int) =~= old(buf)@.skip(
                    offset + 2 + sub@.len(),
                ));
            }
            offset = offset + 2 + sub.data.len();
            i = i + 1;
        }
        assert(buf@ =~= overwrite(old(buf)@, Self::spec_wire(self@)));
        Ok(offset)
    }

    /// Decode a response from `buf`.
    pub fn decode(buf: &[u8]) -> (r: Result<Self, DecodeError>)
        ensures
            view_result(r) == Self::spec_decode(buf@),
    {
        if let Err(e) = check_header(buf, ReadFileRecordRequest::FUNCTION_CODE, 2) {
            return Err(e);
        }
        let byte_count = buf[1] as usize;
        if buf.len() < 2 + byte_count {
            return Err(DecodeError::InvalidLength);
        }
        let end = 2 + byte_count;
        let ghost full = buf@.subrange(2, end as int);
        let mut sub_responses: Vec<ReadFileRecordSubResponse> = Vec::new();
        let mut offset: usize = 2;
        assert(full.skip(0) =~= full);
        assert(prepend(Seq::<Seq<u8>>::empty(), decode_sub_responses(full)) =~= decode_sub_responses(
            full,
        ));
        while offset < end
            invariant
                2 <= offset <= end,
                end <= buf@.len(),
                full == buf@.subrange(2, end as int),
                Self::spec_decode(buf@) == decode_sub_responses(full),
                decode_sub_responses(full) == prepend(
                    sub_responses@.map_values(|s: ReadFileRecordSubResponse| s@),
                    decode_sub_responses(full.skip(offset - 2)),
                ),
            decreases end - offset,
        {
            let ghost t = full.skip(offset - 2);
            let ghost acc = sub_responses@.map_values(|s: ReadFileRecordSubResponse| s@);
            let rest = slice_subrange(buf, offset, end);
            assert(rest@ =~= t);
            let sub = match ReadFileRecordSubResponse::decode(rest) {
                Ok(sub) => sub,
                Err(e) => {
                    assert(decode_sub_responses(t) == Err::<Seq<Seq<u8>>, DecodeError>(e));
                    assert(decode_sub_responses(full) == Err::<Seq<Seq<u8>>, DecodeError>(e));
                    assert(Self::spec_decode(buf@) == decode_sub_responses(full));
                    return Err(e);
                },
            };
            let n = 2 + sub.data.len();
            proof {
                let rest_items = decode_sub_responses(t.skip(1 + t[0]));
                assert(decode_sub_responses(t) == prepend(seq![sub@], rest_items));
                match rest_items {
                    Ok(items) => {
                        assert(acc + (seq![sub@] + items) =~= acc.push(sub@) + items);
                    },
                    Err(_) => {},
                }
                assert(t.skip(1 + t[0]) =~= full.skip(offset + n - 2));
                assert(sub_responses@.push(sub).map_values(|s: ReadFileRecordSubResponse| s@)
                    =~= acc.push(sub@));
                assert(acc.push(sub@) =~= acc + seq![sub@]);
            }
            sub_responses.push(sub);
            offset = offset + n;
        }
        assert(decode_sub_responses(full.skip(end - 2)) == Ok::<Seq<Seq<u8>>, DecodeError>(
            Seq::empty(),
        ));
        Ok(Self::new(sub_responses))
    }
}

/// A response whose sub-responses fit in the byte count decodes back from
/// its encoding.
pub proof fn read_file_record_response_roundtrip(subs: Seq<Seq<u8>>)
    requires
        ReadFileRecordResponse::spec_encodable(subs),
    ensures
        ReadFileRecordResponse::spec_decode(ReadFileRecordResponse::spec_wire(subs)) == Ok::<
            Seq<Seq<u8>>,
            DecodeError,
        >(subs),
{
    assert forall|i: int| 0 <= i < subs.len() implies ReadFileRecordSubResponse::spec_encodable(
        #[trigger] subs[i],
    ) by {
        lemma_part_len_le_concat(sub_response_wires(subs), i);
    }
    lemma_decode_sub_responses(subs);
    let w = ReadFileRecordResponse::spec_wire(subs);
    assert(w.subrange(2, 2 + w[1]) =~= concat(sub_response_wires(subs)));
}

/// A response decodes the same with any bytes after it: decoding stops at
/// the byte count.
pub proof fn read_file_record_response_ignores_trailing_bytes(subs: Seq<Seq<u8>>, extra: Seq<u8>)
    requires
        ReadFileRecordResponse::spec_encodable(subs),
    ensures
        ReadFileRecordResponse::spec_decode(ReadFileRecordResponse::spec_wire(subs) + extra) == Ok::<
            Seq<Seq<u8>>,
            DecodeError,
        >(subs),
{
    read_file_record_response_roundtrip(subs);
    let w = ReadFileRecordResponse::spec_wire(subs);
    let s = w + extra;
    assert(s[0] == w[0] && s[1] == w[1]);
    assert(s.subrange(2, 2 + s[1]) =~= w.subrange(2, 2 + w[1]));
}

} // verus!
