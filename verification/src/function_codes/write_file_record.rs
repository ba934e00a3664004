//! FC 0x15 Write File Record.

use vstd::prelude::*;

use crate::codec::{be16, check_header, concat, copy_range, encode_outcome, get_be16, lemma_be16_roundtrip, lemma_concat_prefix_len, lemma_concat_push, overwrite, prepend, put_be16, put_bytes, read_be16, spec_header, view_result};
use crate::error::{DecodeError, EncodeError};
use vstd::slice::slice_subrange;

verus! {

/// Sub-request within a FC 0x15 Write File Record request.
///
/// The response echoes the request, so this type is also used for the
/// sub-response payload.
#[derive(Debug, Clone, PartialEq, Eq)]
pub struct WriteFileRecordSubRequest {
    pub reference_type: u8,
    pub file_number: u16,
    pub record_number: u16,
    pub record_length: u16,
    pub record_data: Vec<u8>,
}

/// Alias for the echoed sub-response in FC 0x15 Write File Record.
pub type WriteFileRecordSubResponse = WriteFileRecordSubRequest;

impl View for WriteFileRecordSubRequest {
    type V = (u8, u16, u16, u16, Seq<u8>);

    open spec fn view(&self) -> (u8, u16, u16, u16, Seq<u8>) {
        (
            self.reference_type,
            self.file_number,
            self.record_number,
            self.record_length,
            self.record_data@,
        )
    }
}

impl WriteFileRecordSubRequest {
    pub const REFERENCE_TYPE: u8 = 0x06;

    /// Whether the sub-request fits in a byte count.
    pub open spec fn spec_encodable(v: (u8, u16, u16, u16, Seq<u8>)) -> bool {
        7 + v.4.len() <= 255
    }

    /// Whether the sub-request is one that decoding can give: the request
    /// reference type, and a record length that counts the data's registers.
    pub open spec fn well_formed(v: (u8, u16, u16, u16, Seq<u8>)) -> bool {
        v.0 == Self::REFERENCE_TYPE && v.4.len() == 2 * v.3
    }

    /// The encoded sub-request.
    pub open spec fn spec_wire(v: (u8, u16, u16, u16, Seq<u8>)) -> Seq<u8> {
        seq![v.0] + be16(v.1) + be16(v.2) + be16(v.3) + v.4
    }

    /// What `decode` gives for the bytes `s`.
    pub open spec fn spec_decode(s: Seq<u8>) -> Result<(u8, u16, u16, u16, Seq<u8>), DecodeError> {
        if s.len() < 7 {
            Err(DecodeError::InvalidLength)
        } else if s[0] != Self::REFERENCE_TYPE {
            Err(DecodeError::InvalidValue)
        } else if s.len() < 7 + 2 * get_be16(s, 5) {
            Err(DecodeError::InvalidLength)
        } else {
            Ok(
                (
                    s[0],
                    get_be16(s, 1),
                    get_be16(s, 3),
                    get_be16(s, 5),
                    s.subrange(7, 7 + 2 * get_be16(s, 5)),
                ),
            )
        }
    }

    /// Create a new sub-request.
    ///
    /// `record_data` must contain an even number of bytes; each pair encodes
    /// one 16-bit register value in big-endian order.
    pub fn new(file_number: u16, record_number: u16, record_data: Vec<u8>) -> (r: Self)
        ensures
            r@ == (
                Self::REFERENCE_TYPE,
                file_number,
                record_number,
                (record_data@.len() / 2) as u16,
                record_data@,
            ),
    {
        let record_length = (record_data.len() / 2) as u16;
        Self {
            reference_type: Self::REFERENCE_TYPE,
            file_number,
            record_number,
            record_length,
            record_data,
        }
    }

    fn write_at(&self, buf: &mut [u8], off: usize)
        requires
            off + 7 + self@.4.len() <= old(buf)@.len(),
        ensures
            final(buf)@ == old(buf)@.take(off as int) + Self::spec_wire(self@) + old(buf)@.skip(
                off + 7 + self@.4.len(),
            ),
    {
        buf[off] = self.reference_type;
        put_be16(buf, off + 1, self.file_number);
        put_be16(buf, off + 3, self.record_number);
        put_be16(buf, off + 5, self.record_length);
        put_bytes(buf, off + 7, self.record_data.as_slice());
        assert(buf@ =~= old(buf)@.take(off as int) + Self::spec_wire(self@) + old(buf)@.skip(
            off + 7 + self@.4.len(),
        ));
    }

    /// Encode this sub-request into `buf` and return bytes written.
    pub fn encode(&self, buf: &mut [u8]) -> (r: Result<usize, EncodeError>)
        ensures
            encode_outcome(
                r,
                old(buf)@,
                final(buf)@,
                Self::spec_encodable(self@),
                Self::spec_wire(self@),
            ),
    {
        let data_len = self.record_data.len();
        if data_len > 248 {
            return Err(EncodeError::BufferTooSmall);
        }
        let sub_len = 7 + data_len;
        if buf.len() < sub_len {
            return Err(EncodeError::BufferTooSmall);
        }
        self.write_at(buf, 0);
        assert(buf@ =~= overwrite(old(buf)@, Self::spec_wire(self@)));
        Ok(sub_len)
    }

    /// Decode a sub-request from `buf`.
    pub fn decode(buf: &[u8]) -> (r: Result<Self, DecodeError>)
        ensures
            view_result(r) == Self::spec_decode(buf@),
    {
        if buf.len() < 7 {
            return Err(DecodeError::InvalidLength);
        }
        let reference_type = buf[0];
        if reference_type != Self::REFERENCE_TYPE {
            return Err(DecodeError::InvalidValue);
        }
        let file_number = read_be16(buf, 1);
        let record_number = read_be16(buf, 3);
        let record_length = read_be16(buf, 5);
        let data_len = record_length as usize * 2;
        if buf.len() < 7 + data_len {
            return Err(DecodeError::InvalidLength);
        }
        let record_data = copy_range(buf, 7, 7 + data_len);
        Ok(Self { reference_type, file_number, record_number, record_length, record_data })
    }
}

/// The sub-requests read one after another from `t`.
pub open spec fn decode_write_sub_requests(t: Seq<u8>) -> Result<
    Seq<(u8, u16, u16, u16, Seq<u8>)>,
    DecodeError,
>
    decreases t.len(),
{
    if t.len() == 0 {
        Ok(Seq::empty())
    } else {
        match WriteFileRecordSubRequest::spec_decode(t) {
            Err(e) => Err(e),
            Ok(v) => if 7 + 2 * get_be16(t, 5) <= t.len() {
                prepend(seq![v], decode_write_sub_requests(t.skip(7 + 2 * get_be16(t, 5))))
            } else {
                Err(DecodeError::InvalidLength)
            },
        }
    }
}

/// The encoded sub-requests, one part each.
pub open spec fn write_sub_request_wires(subs: Seq<(u8, u16, u16, u16, Seq<u8>)>) -> Seq<Seq<u8>> {
    subs.map_values(|v: (u8, u16, u16, u16, Seq<u8>)| WriteFileRecordSubRequest::spec_wire(v))
}

/// The view of a vector of sub-requests.
pub open spec fn write_subs_view(subs: Seq<WriteFileRecordSubRequest>) -> Seq<
    (u8, u16, u16, u16, Seq<u8>),
> {
    subs.map_values(|s: WriteFileRecordSubRequest| s@)
}

/// Whether the sub-requests fit in the byte count.
pub open spec fn write_subs_encodable(subs: Seq<(u8, u16, u16, u16, Seq<u8>)>) -> bool {
    concat(write_sub_request_wires(subs)).len() <= 255
}

/// The encoded FC 0x15 PDU, request or response.
pub open spec fn write_file_record_wire(subs: Seq<(u8, u16, u16, u16, Seq<u8>)>) -> Seq<u8> {
    seq![
        WriteFileRecordRequest::FUNCTION_CODE,
        concat(write_sub_request_wires(subs)).len() as u8,
    ] + concat(write_sub_request_wires(subs))
}

/// What decoding an FC 0x15 PDU, request or response, gives for `s`.
pub open spec fn spec_decode_write_file_record(s: Seq<u8>) -> Result<
    Seq<(u8, u16, u16, u16, Seq<u8>)>,
    DecodeError,
> {
    match spec_header(s, WriteFileRecordRequest::FUNCTION_CODE, 2) {
        Some(e) => Err(e),
        None => if s.len() < 2 + s[1] {
            Err(DecodeError::InvalidLength)
        } else {
            decode_write_sub_requests(s.subrange(2, 2 + s[1]))
        },
    }
}

/// Decoding one encoded well-formed sub-request, followed by any bytes,
/// gives it back and says how far it reached.
pub proof fn lemma_write_sub_request_one(v: (u8, u16, u16, u16, Seq<u8>), tail: Seq<u8>)
    requires
        WriteFileRecordSubRequest::well_formed(v),
    ensures
        ({
            let w = WriteFileRecordSubRequest::spec_wire(v) + tail;
            &&& WriteFileRecordSubRequest::spec_decode(w) == Ok::<
                (u8, u16, u16, u16, Seq<u8>),
                DecodeError,
            >(v)
            &&& get_be16(w, 5) == v.3
            &&& 7 + 2 * v.3 <= w.len()
            &&& w.skip(7 + 2 * v.3) == tail
        }),
{
    let w = WriteFileRecordSubRequest::spec_wire(v) + tail;
    lemma_be16_roundtrip(v.1);
    lemma_be16_roundtrip(v.2);
    lemma_be16_roundtrip(v.3);
    assert(get_be16(w, 1) == v.1);
    assert(get_be16(w, 3) == v.2);
    assert(get_be16(w, 5) == v.3);
    assert(w.subrange(7, 7 + 2 * v.3) =~= v.4);
    assert(w.skip(7 + 2 * v.3) =~= tail);
}

/// Decoding encoded well-formed sub-requests gives them back.
pub proof fn lemma_decode_write_sub_requests(subs: Seq<(u8, u16, u16, u16, Seq<u8>)>)
    requires
        forall|i: int| 0 <= i < subs.len() ==> WriteFileRecordSubRequest::well_formed(
            #[trigger] subs[i],
        ),
    ensures
        decode_write_sub_requests(concat(write_sub_request_wires(subs))) == Ok::<
            Seq<(u8, u16, u16, u16, Seq<u8>)>,
            DecodeError,
        >(subs),
    decreases subs.len(),
{
    let w = concat(write_sub_request_wires(subs));
    if subs.len() == 0 {
        assert(subs =~= Seq::<(u8, u16, u16, u16, Seq<u8>)>::empty());
    } else {
        let rest = subs.skip(1);
        assert forall|i: int| 0 <= i < rest.len() implies WriteFileRecordSubRequest::well_formed(
            #[trigger] rest[i],
        ) by {
            assert(rest[i] == subs[i + 1]);
        }
        lemma_decode_write_sub_requests(rest);
        assert(write_sub_request_wires(subs).skip(1) =~= write_sub_request_wires(rest));
        let v = subs[0];
        let tail = concat(write_sub_request_wires(rest));
        assert(w == WriteFileRecordSubRequest::spec_wire(v) + tail);
        lemma_write_sub_request_one(v, tail);
        assert(seq![v] + rest =~= subs);
    }
}

fn encode_write_file_record(subs: &Vec<WriteFileRecordSubRequest>, buf: &mut [u8]) -> (r: Result<
    usize,
    EncodeError,
>)
    ensures
        encode_outcome(
            r,
            old(buf)@,
            final(buf)@,
            write_subs_encodable(write_subs_view(subs@)),
            write_file_record_wire(write_subs_view(subs@)),
        ),
{
    let count = subs.len();
    let ghost view = write_subs_view(subs@);
    let ghost wires = write_sub_request_wires(view);
    let mut total: usize = 0;
    let mut i: usize = 0;
    while i < count
        invariant
            count == subs@.len(),
            i <= count,
            view == write_subs_view(subs@),
            wires == write_sub_request_wires(view),
            total == concat(wires.take(i as int)).len(),
            total <= 255,
        decreases count - i,
    {
        let n = subs[i].record_data.len();
        proof {
            assert(wires.take(i + 1) =~= wires.take(i as int).push(wires[i as int]));
            lemma_concat_push(wires.take(i as int), wires[i as int]);
            lemma_concat_prefix_len(wires, i + 1);
        }
        if n > 248 || total + 7 + n > 255 {
            return Err(EncodeError::BufferTooSmall);
        }
        total = total + 7 + n;
        i = i + 1;
    }
    assert(wires.take(count as int) =~= wires);
    if buf.len() < 2 + total {
        return Err(EncodeError::BufferTooSmall);
    }
    buf[0] = WriteFileRecordRequest::FUNCTION_CODE;
    buf[1] = total as u8;
    let mut offset: usize = 2;
    let mut i: usize = 0;
    while i < count
        invariant
            count == subs@.len(),
            i <= count,
            view == write_subs_view(subs@),
            wires == write_sub_request_wires(view),
            2 + total <= buf@.len(),
            total == concat(wires).len(),
            total <= 255,
            offset == 2 + concat(wires.take(i as int)).len(),
            buf@.len() == old(buf)@.len(),
            buf@[0] == WriteFileRecordRequest::FUNCTION_CODE,
            buf@[1] == total as u8,
            buf@.subrange(2, offset as int) == concat(wires.take(i as int)),
            buf@.skip(offset as int) == old(buf)@.skip(offset as int),
        decreases count - i,
    {
        let ghost before = buf@;
        proof {
            assert(wires.take(i + 1) =~= wires.take(i as int).push(wires[i as int]));
            lemma_concat_push(wires.take(i as int), wires[i as int]);
            lemma_concat_prefix_len(wires, i + 1);
            assert(view[i as int] == subs@[i as int]@);
        }
        let sub = &subs[i];
        sub.write_at(buf, offset);
        proof {
            assert(buf@.subrange(2, offset + 7 + sub@.4.len()) =~= before.subrange(2, offset as int)
                + wires[i as int]);
            assert(buf@.skip(offset + 7 + sub@.4.len()) =~= before.skip(offset as int).skip(
                7 + sub@.4.len() as int,
            ));
            assert(old(buf)@.skip(offset as int).skip(7 + sub@.4.len() as int) =~= old(buf)@.skip(
                offset + 7 + sub@.4.len(),
            ));
        }
        offset = offset + 7 + sub.record_data.len();
        i = i + 1;
    }
    assert(buf@ =~= overwrite(old(buf)@, write_file_record_wire(view)));
    Ok(offset)
}

fn decode_write_file_record(buf: &[u8]) -> (r: Result<Vec<WriteFileRecordSubRequest>, DecodeError>)
    ensures
        match r {
            Ok(subs) => spec_decode_write_file_record(buf@) == Ok::<
                Seq<(u8, u16, u16, u16, Seq<u8>)>,
                DecodeError,
            >(write_subs_view(subs@)),
            Err(e) => spec_decode_write_file_record(buf@) == Err::<
                Seq<(u8, u16, u16, u16, Seq<u8>)>,
                DecodeError,
            >(e),
        },
{
    if let Err(e) = check_header(buf, WriteFileRecordRequest::FUNCTION_CODE, 2) {
        return Err(e);
    }
    let byte_count = buf[1] as usize;
    if buf.len() < 2 + byte_count {
        return Err(DecodeError::InvalidLength);
    }
    let end = 2 + byte_count;
    let ghost full = buf@.subrange(2, end as int);
    let mut subs: Vec<WriteFileRecordSubRequest> = Vec::new();
    let mut offset: usize = 2;
    assert(full.skip(0) =~= full);
    assert(prepend(Seq::<(u8, u16, u16, u16, Seq<u8>)>::empty(), decode_write_sub_requests(full))
        =~= decode_write_sub_requests(full));
    while offset < end
        invariant
            2 <= offset <= end,
            end <= buf@.len(),
            full == buf@.subrange(2, end as int),
            spec_decode_write_file_record(buf@) == decode_write_sub_requests(full),
            decode_write_sub_requests(full) == prepend(
                write_subs_view(subs@),
                decode_write_sub_requests(full.skip(offset - 2)),
            ),
        decreases end - offset,
    {
        let ghost t = full.skip(offset - 2);
        let ghost acc = write_subs_view(subs@);
        let rest = slice_subrange(buf, offset, end);
        assert(rest@ =~= t);
        let sub = match WriteFileRecordSubRequest::decode(rest) {
            Ok(sub) => sub,
            Err(e) => {
                assert(decode_write_sub_requests(t) == Err::<
                    Seq<(u8, u16, u16, u16, Seq<u8>)>,
                    DecodeError,
                >(e));
                assert(decode_write_sub_requests(full) == Err::<
                    Seq<(u8, u16, u16, u16, Seq<u8>)>,
                    DecodeError,
                >(e));
                return Err(e);
            },
        };
        let n = 7 + sub.record_data.len();
        proof {
            let rest_items = decode_write_sub_requests(t.skip(n as int));
            assert(decode_write_sub_requests(t) == prepend(seq![sub@], rest_items));
            assert(t.skip(n as int) =~= full.skip(offset + n - 2));
            match rest_items {
                Ok(items) => {
                    assert(acc + (seq![sub@] + items) =~= acc.push(sub@) + items);
                },
                Err(_) => {},
            }
            assert(write_subs_view(subs@.push(sub)) =~= acc.push(sub@));
        }
        subs.push(sub);
        offset = offset + n;
    }
    if offset != end {
        return Err(DecodeError::InvalidLength);
    }
    assert(decode_write_sub_requests(full.skip(end - 2)) == Ok::<
        Seq<(u8, u16, u16, u16, Seq<u8>)>,
        DecodeError,
    >(Seq::empty()));
    assert(write_subs_view(subs@) + Seq::<(u8, u16, u16, u16, Seq<u8>)>::empty() =~= write_subs_view(
        subs@,
    ));
    Ok(subs)
}

/// Request PDU for FC 0x15 Write File Record.
#[derive(Debug, Clone, PartialEq, Eq)]
pub struct WriteFileRecordRequest {
    pub sub_requests: Vec<WriteFileRecordSubRequest>,
}

impl View for WriteFileRecordRequest {
    type V = Seq<(u8, u16, u16, u16, Seq<u8>)>;

    open spec fn view(&self) -> Seq<(u8, u16, u16, u16, Seq<u8>)> {
        write_subs_view(self.sub_requests@)
    }
}

impl WriteFileRecordRequest {
    pub const FUNCTION_CODE: u8 = 0x15;

    /// Create a new request.
    pub fn new(sub_requests: Vec<WriteFileRecordSubRequest>) -> (r: Self)
        ensures
            r.sub_requests@ == sub_requests@,
    {
        Self { sub_requests }
    }

    /// Encode the request into `buf` and return the number of bytes written.
    pub fn encode(&self, buf: &mut [u8]) -> (r: Result<usize, EncodeError>)
        ensures
            encode_outcome(
                r,
                old(buf)@,
                final(buf)@,
                write_subs_encodable(self@),
                write_file_record_wire(self@),
            ),
    {
        encode_write_file_record(&self.sub_requests, buf)
    }

    /// Decode a request from `buf`.
    pub fn decode(buf: &[u8]) -> (r: Result<Self, DecodeError>)
        ensures
            view_result(r) == spec_decode_write_file_record(buf@),
    {
        match decode_write_file_record(buf) {
            Ok(sub_requests) => Ok(Self::new(sub_requests)),
            Err(e) => Err(e),
        }
    }
}

/// Response PDU for FC 0x15 Write File Record.
///
/// The normal response is an echo of the request payload, so encoding and
/// decoding are identical to the request aside from the function code.
#[derive(Debug, Clone, PartialEq, Eq)]
pub struct WriteFileRecordResponse {
    pub sub_responses: Vec<WriteFileRecordSubResponse>,
}

impl View for WriteFileRecordResponse {
    type V = Seq<(u8, u16, u16, u16, Seq<u8>)>;

    open spec fn view(&self) -> Seq<(u8, u16, u16, u16, Seq<u8>)> {
        write_subs_view(self.sub_responses@)
    }
}

impl WriteFileRecordResponse {
    /// Create a new response.
    pub fn new(sub_responses: Vec<WriteFileRecordSubResponse>) -> (r: Self)
        ensures
            r.sub_responses@ == sub_responses@,
    {
        Self { sub_responses }
    }

    /// Encode the response into `buf` and return the number of bytes written.
    pub fn encode(&self, buf: &mut [u8]) -> (r: Result<usize, EncodeError>)
        ensures
            encode_outcome(
                r,
                old(buf)@,
                final(buf)@,
                write_subs_encodable(self@),
                write_file_record_wire(self@),
            ),
    {
        encode_write_file_record(&self.sub_responses, buf)
    }

    /// Decode a response from `buf`.
    pub fn decode(buf: &[u8]) -> (r: Result<Self, DecodeError>)
        ensures
            view_result(r) == spec_decode_write_file_record(buf@),
    {
        match decode_write_file_record(buf) {
            Ok(sub_responses) => Ok(Self::new(sub_responses)),
            Err(e) => Err(e),
        }
    }
}

/// A request or response whose sub-requests are well formed and fit in the
/// byte count decodes back from its encoding.
pub proof fn write_file_record_roundtrip(subs: Seq<(u8, u16, u16, u16, Seq<u8>)>)
    requires
        write_subs_encodable(subs),
        forall|i: int| 0 <= i < subs.len() ==> WriteFileRecordSubRequest::well_formed(
            #[trigger] subs[i],
        ),
    ensures
        spec_decode_write_file_record(write_file_record_wire(subs)) == Ok::<
            Seq<(u8, u16, u16, u16, Seq<u8>)>,
            DecodeError,
        >(subs),
{
    lemma_decode_write_sub_requests(subs);
    let w = write_file_record_wire(subs);
    assert(w.subrange(2, 2 + w[1]) =~= concat(write_sub_request_wires(subs)));
}

/// Within encoded well-formed sub-requests, a reference type other than 6
/// put in place of sub-request `j`'s makes decoding fail with
/// `InvalidValue`.
proof fn lemma_bad_reference_type(subs: Seq<(u8, u16, u16, u16, Seq<u8>)>, j: int, b: u8)
    requires
        forall|i: int| 0 <= i < subs.len() ==> WriteFileRecordSubRequest::well_formed(
            #[trigger] subs[i],
        ),
        0 <= j < subs.len(),
        b != WriteFileRecordSubRequest::REFERENCE_TYPE,
    ensures
        concat(write_sub_request_wires(subs).take(j)).len() < concat(
            write_sub_request_wires(subs),
        ).len(),
        decode_write_sub_requests(
            concat(write_sub_request_wires(subs)).update(
                concat(write_sub_request_wires(subs).take(j)).len() as int,
                b,
            ),
        ) == Err::<Seq<(u8, u16, u16, u16, Seq<u8>)>, DecodeError>(DecodeError::InvalidValue),
    decreases subs.len(),
{
    let ws = write_sub_request_wires(subs);
    let t = concat(ws);
    let v = subs[0];
    let rest = subs.skip(1);
    let tail = concat(write_sub_request_wires(rest));
    assert(ws.skip(1) =~= write_sub_request_wires(rest));
    assert(t == WriteFileRecordSubRequest::spec_wire(v) + tail);
    let wv = WriteFileRecordSubRequest::spec_wire(v);
    assert(wv.len() >= 7);
    if j == 0 {
        assert(ws.take(0) =~= Seq::<Seq<u8>>::empty());
        assert(concat(ws.take(0)) =~= Seq::<u8>::empty());
        let u = t.update(0, b);
        assert(u.len() == t.len() && u[0] == b);
    } else {
        assert forall|i: int| 0 <= i < rest.len() implies WriteFileRecordSubRequest::well_formed(
            #[trigger] rest[i],
        ) by {
            assert(rest[i] == subs[i + 1]);
        }
        lemma_bad_reference_type(rest, j - 1, b);
        let pr = concat(write_sub_request_wires(rest).take(j - 1)).len();
        assert(ws.take(j)[0] == wv);
        assert(ws.take(j).skip(1) =~= write_sub_request_wires(rest).take(j - 1));
        assert(concat(ws.take(j)).len() == wv.len() + pr);
        let tu = tail.update(pr as int, b);
        assert(t.update((wv.len() + pr) as int, b) =~= wv + tu);
        lemma_write_sub_request_one(v, tu);
    }
}

/// A request whose sub-requests are well formed, encoded, then given any
/// reference type other than 6 in place of one sub-request's, fails to
/// decode with `InvalidValue`.
pub proof fn write_file_record_rejects_bad_reference_type(
    subs: Seq<(u8, u16, u16, u16, Seq<u8>)>,
    j: int,
    b: u8,
)
    requires
        write_subs_encodable(subs),
        forall|i: int| 0 <= i < subs.len() ==> WriteFileRecordSubRequest::well_formed(
            #[trigger] subs[i],
        ),
        0 <= j < subs.len(),
        b != WriteFileRecordSubRequest::REFERENCE_TYPE,
    ensures
        spec_decode_write_file_record(
            write_file_record_wire(subs).update(
                2 + concat(write_sub_request_wires(subs).take(j)).len() as int,
                b,
            ),
        ) == Err::<Seq<(u8, u16, u16, u16, Seq<u8>)>, DecodeError>(DecodeError::InvalidValue),
{
    lemma_bad_reference_type(subs, j, b);
    let t = concat(write_sub_request_wires(subs));
    let p = concat(write_sub_request_wires(subs).take(j)).len();
    let w = write_file_record_wire(subs);
    let u = w.update(2 + p as int, b);
    assert(u[0] == w[0] && u[1] == w[1]);
    assert(u.subrange(2, 2 + u[1]) =~= t.update(p as int, b));
}

} // verus!
