//! Big-endian field layout shared by every PDU of the protocol, and the
//! byte-level primitives used to read and write it.

use vstd::prelude::*;

use crate::error::{DecodeError, EncodeError};

verus! {

/// The two bytes of `v`, most significant first.
pub open spec fn be16(v: u16) -> Seq<u8> {
    seq![(v / 256) as u8, (v % 256) as u8]
}

/// The big-endian 16-bit value stored at `s[i]`, `s[i + 1]`.
pub open spec fn get_be16(s: Seq<u8>, i: int) -> u16 {
    (s[i] * 256 + s[i + 1]) as u16
}

/// The buffer `old` after `data` has been written over its first bytes.
pub open spec fn overwrite(old: Seq<u8>, data: Seq<u8>) -> Seq<u8> {
    data + old.skip(data.len() as int)
}

/// What an encoder promises: `Ok(n)` exactly when the PDU can be encoded
/// and its `wire` bytes fit in the buffer, with the buffer then holding
/// `wire` in front of its former tail; otherwise `BufferTooSmall` and the
/// buffer untouched.
pub open spec fn encode_outcome(
    r: Result<usize, EncodeError>,
    old_buf: Seq<u8>,
    new_buf: Seq<u8>,
    encodable: bool,
    wire: Seq<u8>,
) -> bool {
    match r {
        Ok(n) => encodable && n == wire.len() && wire.len() <= old_buf.len() && new_buf == overwrite(
            old_buf,
            wire,
        ),
        Err(e) => e == EncodeError::BufferTooSmall && new_buf == old_buf && !(encodable
            && wire.len() <= old_buf.len()),
    }
}

/// Reading back the two bytes of a value gives the value.
pub proof fn lemma_be16_roundtrip(v: u16)
    ensures
        get_be16(be16(v), 0) == v,
        be16(v).len() == 2,
{
}

/// Reading a big-endian value only looks at the two bytes where it stands.
pub proof fn lemma_get_be16_prefix(s: Seq<u8>, t: Seq<u8>, i: int)
    requires
        0 <= i,
        i + 2 <= s.len(),
    ensures
        get_be16(s + t, i) == get_be16(s, i),
{
}

/// High and low byte of `v`.
pub fn be16_bytes(v: u16) -> (r: (u8, u8))
    ensures
        seq![r.0, r.1] == be16(v),
{
    ((v / 256) as u8, (v % 256) as u8)
}

/// Read the big-endian value at `buf[i]`, `buf[i + 1]`.
pub fn read_be16(buf: &[u8], i: usize) -> (r: u16)
    requires
        i + 2 <= buf@.len(),
    ensures
        r == get_be16(buf@, i as int),
{
    let hi = buf[i] as u16;
    let lo = buf[i + 1] as u16;
    hi * 256 + lo
}

/// Store `v` big-endian at `buf[i]`, `buf[i + 1]`.
pub fn put_be16(buf: &mut [u8], i: usize, v: u16)
    requires
        i + 2 <= old(buf)@.len(),
    ensures
        final(buf)@ == old(buf)@.update(i as int, be16(v)[0]).update(i + 1, be16(v)[1]),
{
    let (hi, lo) = be16_bytes(v);
    buf[i] = hi;
    buf[i + 1] = lo;
}

/// Copy `data` into `buf` starting at `off`.
pub fn put_bytes(buf: &mut [u8], off: usize, data: &[u8])
    requires
        off + data@.len() <= old(buf)@.len(),
    ensures
        final(buf)@ == old(buf)@.take(off as int) + data@ + old(buf)@.skip(off + data@.len()),
{
    let n = data.len();
    let len = buf.len();
    let mut j: usize = 0;
    while j < n
        invariant
            n == data@.len(),
            len == buf@.len(),
            off + n <= len,
            buf@.len() == old(buf)@.len(),
            j <= n,
            forall|k: int| 0 <= k < off ==> buf@[k] == old(buf)@[k],
            forall|k: int| off + n <= k < buf@.len() ==> buf@[k] == old(buf)@[k],
            forall|k: int| 0 <= k < j ==> buf@[off + k] == data@[k],
        decreases n - j,
    {
        buf[off + j] = data[j];
        j = j + 1;
    }
    assert(buf@ =~= old(buf)@.take(off as int) + data@ + old(buf)@.skip(off + data@.len()));
}

/// A fresh vector holding `buf[start..end]`.
pub fn copy_range(buf: &[u8], start: usize, end: usize) -> (r: Vec<u8>)
    requires
        start <= end <= buf@.len(),
    ensures
        r@ == buf@.subrange(start as int, end as int),
{
    let mut r: Vec<u8> = Vec::new();
    let mut i: usize = start;
    while i < end
        invariant
            start <= i <= end,
            end <= buf@.len(),
            r@ == buf@.subrange(start as int, i as int),
        decreases end - i,
    {
        r.push(buf[i]);
        i = i + 1;
        assert(r@ =~= buf@.subrange(start as int, i as int));
    }
    r
}

/// A decode result with the decoded value taken by its view.
pub open spec fn view_result<T: View>(r: Result<T, DecodeError>) -> Result<T::V, DecodeError> {
    match r {
        Ok(v) => Ok(v@),
        Err(e) => Err(e),
    }
}

/// The layout `function code, byte count, data` shared by the responses that
/// carry a byte-counted payload.
pub open spec fn counted(function_code: u8, data: Seq<u8>) -> Seq<u8> {
    seq![function_code, data.len() as u8] + data
}

/// Whether a byte-counted payload can be encoded: the count fits in a byte
/// and, for register payloads, it is even.
pub open spec fn counted_encodable(data: Seq<u8>, even: bool) -> bool {
    data.len() <= 255 && (even ==> data.len() % 2 == 0)
}

/// What decoding a byte-counted payload of `function_code` gives for `s`.
pub open spec fn spec_decode_counted(s: Seq<u8>, function_code: u8, even: bool) -> Result<
    Seq<u8>,
    DecodeError,
> {
    if s.len() < 2 {
        Err(DecodeError::InvalidLength)
    } else if s[0] != function_code {
        Err(DecodeError::UnknownFunctionCode)
    } else if even && s[1] % 2 != 0 {
        Err(DecodeError::InvalidLength)
    } else if s.len() < 2 + s[1] {
        Err(DecodeError::InvalidLength)
    } else {
        Ok(s.subrange(2, 2 + s[1]))
    }
}

/// Decoding an encoded byte-counted payload gives the payload back.
pub proof fn lemma_counted_roundtrip(function_code: u8, data: Seq<u8>, even: bool)
    requires
        counted_encodable(data, even),
    ensures
        spec_decode_counted(counted(function_code, data), function_code, even) == Ok::<
            Seq<u8>,
            DecodeError,
        >(data),
{
    assert(counted(function_code, data).subrange(2, 2 + data.len() as int) =~= data);
}

/// Encode `function code, byte count, data` into `buf`.
pub fn encode_counted(buf: &mut [u8], function_code: u8, data: &[u8], even: bool) -> (r: Result<
    usize,
    EncodeError,
>)
    ensures
        encode_outcome(r, old(buf)@, final(buf)@, counted_encodable(data@, even), counted(function_code, data@)),
{
    let byte_count = data.len();
    if byte_count > 255 {
        return Err(EncodeError::BufferTooSmall);
    }
    if even && byte_count % 2 != 0 {
        return Err(EncodeError::BufferTooSmall);
    }
    if buf.len() < 2 + byte_count {
        return Err(EncodeError::BufferTooSmall);
    }
    buf[0] = function_code;
    buf[1] = byte_count as u8;
    put_bytes(buf, 2, data);
    assert(buf@ =~= overwrite(old(buf)@, counted(function_code, data@)));
    Ok(2 + byte_count)
}

/// Decode `function code, byte count, data` from `buf`.
pub fn decode_counted(buf: &[u8], function_code: u8, even: bool) -> (r: Result<
    Vec<u8>,
    DecodeError,
>)
    ensures
        view_result(r) == spec_decode_counted(buf@, function_code, even),
{
    if buf.len() < 2 {
        return Err(DecodeError::InvalidLength);
    }
    if buf[0] != function_code {
        return Err(DecodeError::UnknownFunctionCode);
    }
    let byte_count = buf[1] as usize;
    if even && byte_count % 2 != 0 {
        return Err(DecodeError::InvalidLength);
    }
    if buf.len() < 2 + byte_count {
        return Err(DecodeError::InvalidLength);
    }
    Ok(copy_range(buf, 2, 2 + byte_count))
}

/// The layout `function code, a, b` of the PDUs made of two 16-bit fields.
pub open spec fn wire2(function_code: u8, a: u16, b: u16) -> Seq<u8> {
    seq![function_code] + be16(a) + be16(b)
}

/// The layout `function code, a, b, c` of the PDUs made of three 16-bit fields.
pub open spec fn wire3(function_code: u8, a: u16, b: u16, c: u16) -> Seq<u8> {
    seq![function_code] + be16(a) + be16(b) + be16(c)
}

/// The error, if any, of a PDU of `function_code` that needs `len` bytes.
pub open spec fn spec_header(s: Seq<u8>, function_code: u8, len: nat) -> Option<DecodeError> {
    if s.len() < len {
        Some(DecodeError::InvalidLength)
    } else if s[0] != function_code {
        Some(DecodeError::UnknownFunctionCode)
    } else {
        None
    }
}

/// The fields of a two-field PDU read back.
pub proof fn lemma_wire2(function_code: u8, a: u16, b: u16)
    ensures
        wire2(function_code, a, b).len() == 5,
        wire2(function_code, a, b)[0] == function_code,
        get_be16(wire2(function_code, a, b), 1) == a,
        get_be16(wire2(function_code, a, b), 3) == b,
{
    lemma_be16_roundtrip(a);
    lemma_be16_roundtrip(b);
}

/// The fields of a three-field PDU read back.
pub proof fn lemma_wire3(function_code: u8, a: u16, b: u16, c: u16)
    ensures
        wire3(function_code, a, b, c).len() == 7,
        wire3(function_code, a, b, c)[0] == function_code,
        get_be16(wire3(function_code, a, b, c), 1) == a,
        get_be16(wire3(function_code, a, b, c), 3) == b,
        get_be16(wire3(function_code, a, b, c), 5) == c,
{
    lemma_be16_roundtrip(a);
    lemma_be16_roundtrip(b);
    lemma_be16_roundtrip(c);
}

/// Check the length and the function code of a PDU.
pub fn check_header(buf: &[u8], function_code: u8, len: usize) -> (r: Result<(), DecodeError>)
    requires
        len >= 1,
    ensures
        match spec_header(buf@, function_code, len as nat) {
            Some(e) => r == Err::<(), DecodeError>(e),
            None => r is Ok,
        },
{
    if buf.len() < len {
        return Err(DecodeError::InvalidLength);
    }
    if buf[0] != function_code {
        return Err(DecodeError::UnknownFunctionCode);
    }
    Ok(())
}

/// Encode `function code, a, b` into `buf`.
pub fn encode_wire2(buf: &mut [u8], function_code: u8, a: u16, b: u16) -> (r: Result<
    usize,
    EncodeError,
>)
    ensures
        encode_outcome(r, old(buf)@, final(buf)@, true, wire2(function_code, a, b)),
{
    if buf.len() < 5 {
        return Err(EncodeError::BufferTooSmall);
    }
    buf[0] = function_code;
    put_be16(buf, 1, a);
    put_be16(buf, 3, b);
    assert(buf@ =~= overwrite(old(buf)@, wire2(function_code, a, b)));
    Ok(5)
}

/// Encode `function code, a, b, c` into `buf`.
pub fn encode_wire3(buf: &mut [u8], function_code: u8, a: u16, b: u16, c: u16) -> (r: Result<
    usize,
    EncodeError,
>)
    ensures
        encode_outcome(r, old(buf)@, final(buf)@, true, wire3(function_code, a, b, c)),
{
    if buf.len() < 7 {
        return Err(EncodeError::BufferTooSmall);
    }
    buf[0] = function_code;
    put_be16(buf, 1, a);
    put_be16(buf, 3, b);
    put_be16(buf, 5, c);
    assert(buf@ =~= overwrite(old(buf)@, wire3(function_code, a, b, c)));
    Ok(7)
}

/// The parts laid end to end, first part first.
pub open spec fn concat(parts: Seq<Seq<u8>>) -> Seq<u8>
    decreases parts.len(),
{
    if parts.len() == 0 {
        Seq::empty()
    } else {
        parts[0] + concat(parts.skip(1))
    }
}

/// Appending a part appends its bytes.
pub proof fn lemma_concat_push(parts: Seq<Seq<u8>>, x: Seq<u8>)
    ensures
        concat(parts.push(x)) == concat(parts) + x,
    decreases parts.len(),
{
    if parts.len() == 0 {
        assert(parts.push(x).skip(1) =~= Seq::<Seq<u8>>::empty());
        assert(concat(parts.push(x).skip(1)) == Seq::<u8>::empty());
        assert(parts.push(x)[0] == x);
        assert(concat(parts.push(x)) =~= x);
    } else {
        lemma_concat_push(parts.skip(1), x);
        assert(parts.push(x).skip(1) =~= parts.skip(1).push(x));
        assert(concat(parts.push(x)) =~= concat(parts) + x);
    }
}

/// The bytes of a prefix of the parts never outnumber those of all parts.
pub proof fn lemma_concat_prefix_len(parts: Seq<Seq<u8>>, i: int)
    requires
        0 <= i <= parts.len(),
    ensures
        concat(parts.take(i)).len() <= concat(parts).len(),
    decreases parts.len(),
{
    if i > 0 {
        lemma_concat_prefix_len(parts.skip(1), i - 1);
        assert(parts.take(i).skip(1) =~= parts.skip(1).take(i - 1));
    } else {
        assert(parts.take(i) =~= Seq::<Seq<u8>>::empty());
    }
}

/// Each part is no longer than all the parts together.
pub proof fn lemma_part_len_le_concat(parts: Seq<Seq<u8>>, i: int)
    requires
        0 <= i < parts.len(),
    ensures
        parts[i].len() <= concat(parts).len(),
    decreases parts.len(),
{
    if i > 0 {
        lemma_part_len_le_concat(parts.skip(1), i - 1);
    }
}

/// The decoded items `acc` put in front of the rest of a decode.
pub open spec fn prepend<T>(acc: Seq<T>, rest: Result<Seq<T>, DecodeError>) -> Result<
    Seq<T>,
    DecodeError,
> {
    match rest {
        Ok(items) => Ok(acc + items),
        Err(e) => Err(e),
    }
}

} // verus!
