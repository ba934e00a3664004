//! Data-type conversions between raw register data (`u16` words or byte
//! slices) and common primitive types, with explicit control over byte
//! endianness and register word order.

use vstd::prelude::*;
use vstd::utf8::{decode_utf8, encode_scalar, encode_utf8, valid_utf8};

verus! {

/// Byte endianness used when interpreting register bytes.
#[derive(Debug, Clone, Copy, PartialEq, Eq, Structural)]
pub enum Endian {
    /// Big-endian byte order (most-significant byte first).
    Big,
    /// Little-endian byte order (least-significant byte first).
    Little,
}

/// Word order used when interpreting multi-register values.
#[derive(Debug, Clone, Copy, PartialEq, Eq, Structural)]
pub enum WordOrder {
    /// The first register contains the most-significant word.
    MostSignificantFirst,
    /// The first register contains the least-significant word.
    LeastSignificantFirst,
}

/// Errors that can occur while converting register data.
#[derive(Debug, Clone, Copy, PartialEq, Eq, Structural)]
pub enum HelpersError {
    /// The input does not contain the expected number of registers or bytes.
    InvalidLength,
    /// The input does not represent a valid string.
    InvalidString,
}

impl HelpersError {
    /// Human-readable description of the error.
    pub fn message(&self) -> (s: &'static str)
        ensures
            s@ == match self {
                HelpersError::InvalidLength => "invalid register/byte length"@,
                HelpersError::InvalidString => "invalid string data"@,
            },
    {
        match self {
            HelpersError::InvalidLength => "invalid register/byte length",
            HelpersError::InvalidString => "invalid string data",
        }
    }
}

/// The two bytes of the word `w` in the given byte order.
pub open spec fn word_bytes(w: u16, endian: Endian) -> Seq<u8> {
    match endian {
        Endian::Big => seq![(w / 256) as u8, (w % 256) as u8],
        Endian::Little => seq![(w % 256) as u8, (w / 256) as u8],
    }
}

/// The word that the bytes `b0`, `b1` stand for in the given byte order.
pub open spec fn bytes_word(b0: u8, b1: u8, endian: Endian) -> u16 {
    match endian {
        Endian::Big => (b0 * 256 + b1) as u16,
        Endian::Little => (b1 * 256 + b0) as u16,
    }
}

/// The bytes of the words `ws`, each word in the given byte order.
pub open spec fn register_bytes(ws: Seq<u16>, endian: Endian) -> Seq<u8> {
    Seq::new(2 * ws.len(), |i: int| word_bytes(ws[i / 2], endian)[i % 2])
}

/// The words that the consecutive byte pairs of `b` stand for.
pub open spec fn bytes_words(b: Seq<u8>, endian: Endian) -> Seq<u16> {
    Seq::new(b.len() / 2, |i: int| bytes_word(b[2 * i], b[2 * i + 1], endian))
}

/// The registers `ws` put in most-significant-first order (or back: the
/// reordering is its own inverse).
pub open spec fn in_word_order(ws: Seq<u16>, word_order: WordOrder) -> Seq<u16> {
    match word_order {
        WordOrder::MostSignificantFirst => ws,
        WordOrder::LeastSignificantFirst => ws.reverse(),
    }
}

/// The number that the bytes `b` stand for, most significant byte first.
pub open spec fn be_value(b: Seq<u8>) -> nat
    decreases b.len(),
{
    if b.len() == 0 {
        0
    } else {
        be_value(b.drop_last()) * 256 + b.last() as nat
    }
}

/// The `n` low-order bytes of `v`, most significant first.
pub open spec fn be_bytes(v: nat, n: nat) -> Seq<u8>
    decreases n,
{
    if n == 0 {
        seq![]
    } else {
        be_bytes(v / 256, (n - 1) as nat).push((v % 256) as u8)
    }
}

/// `256` to the power `n`.
pub open spec fn pow256(n: nat) -> nat
    decreases n,
{
    if n == 0 {
        1
    } else {
        256 * pow256((n - 1) as nat)
    }
}

/// The number that the registers `regs` hold: their bytes, in the given
/// byte order, with the registers put most significant first, read as one
/// big-endian number.
pub open spec fn registers_value(regs: Seq<u16>, endian: Endian, word_order: WordOrder) -> nat {
    be_value(register_bytes(in_word_order(regs, word_order), endian))
}

/// The registers that hold the `n` low-order bytes of `v`.
pub open spec fn value_registers(v: nat, n: nat, endian: Endian, word_order: WordOrder) -> Seq<
    u16,
> {
    in_word_order(bytes_words(be_bytes(v, n), endian), word_order)
}

/// The number of bytes that a string of `n` bytes is padded to: `2 * pad_to`
/// when `pad_to` is positive, else `n` rounded up to even.
pub open spec fn padded_len(n: nat, pad_to: nat) -> nat {
    if pad_to > 0 {
        2 * pad_to
    } else {
        n + n % 2
    }
}

/// The bytes `b` followed by NUL bytes up to `padded_len`.
pub open spec fn padded(b: Seq<u8>, pad_to: nat) -> Seq<u8> {
    b + Seq::new((padded_len(b.len(), pad_to) - b.len()) as nat, |i: int| 0u8)
}

/// The length of the longest prefix of `b` without a NUL byte.
pub open spec fn nul_position(b: Seq<u8>) -> nat
    decreases b.len(),
{
    if b.len() == 0 {
        0
    } else {
        let p = nul_position(b.drop_last());
        if p < b.len() - 1 {
            p
        } else if b.last() == 0 {
            (b.len() - 1) as nat
        } else {
            b.len()
        }
    }
}

/// The bytes that `string_from_registers` reads as UTF-8: those of the
/// registers up to the first NUL.
pub open spec fn string_bytes(regs: Seq<u16>, endian: Endian) -> Seq<u8> {
    register_bytes(regs, endian).take(nul_position(register_bytes(regs, endian)) as int)
}

fn u16_to_bytes_inner(value: u16, endian: Endian) -> (r: [u8; 2])
    ensures
        r@ == word_bytes(value, endian),
{
    let hi = (value / 256) as u8;
    let lo = (value % 256) as u8;
    let r = match endian {
        Endian::Big => [hi, lo],
        Endian::Little => [lo, hi],
    };
    assert(r@ =~= word_bytes(value, endian));
    r
}

fn u16_from_bytes_inner(bytes: &[u8], endian: Endian) -> (r: Result<u16, HelpersError>)
    ensures
        r == (if bytes@.len() != 2 {
            Err(HelpersError::InvalidLength)
        } else {
            Ok::<u16, HelpersError>(bytes_word(bytes@[0], bytes@[1], endian))
        }),
{
    if bytes.len() != 2 {
        return Err(HelpersError::InvalidLength);
    }
    let b0 = bytes[0] as u16;
    let b1 = bytes[1] as u16;
    Ok(
        match endian {
            Endian::Big => b0 * 256 + b1,
            Endian::Little => b1 * 256 + b0,
        },
    )
}

/// The registers of `regs` in most-significant-first order.
fn ordered_words(regs: &[u16], word_order: WordOrder) -> (r: Vec<u16>)
    ensures
        r@ == in_word_order(regs@, word_order),
{
    let n = regs.len();
    let mut out: Vec<u16> = Vec::new();
    let mut i: usize = 0;
    while i < n
        invariant
            n == regs@.len(),
            i <= n,
            out@.len() == i,
            forall|k: int|
                0 <= k < i ==> out@[k] == #[trigger] in_word_order(regs@, word_order)[k],
        decreases n - i,
    {
        match word_order {
            WordOrder::MostSignificantFirst => out.push(regs[i]),
            WordOrder::LeastSignificantFirst => out.push(regs[n - 1 - i]),
        }
        i = i + 1;
    }
    assert(out@ =~= in_word_order(regs@, word_order));
    out
}

/// The bytes of the words `words`, each in the given byte order.
fn words_to_bytes(words: &[u16], endian: Endian) -> (r: Vec<u8>)
    ensures
        r@ == register_bytes(words@, endian),
{
    let n = words.len();
    let mut bytes: Vec<u8> = Vec::new();
    let mut i: usize = 0;
    while i < n
        invariant
            n == words@.len(),
            i <= n,
            bytes@.len() == 2 * i,
            forall|k: int|
                0 <= k < 2 * i ==> bytes@[k] == #[trigger] register_bytes(words@, endian)[k],
        decreases n - i,
    {
        let pair = u16_to_bytes_inner(words[i], endian);
        bytes.push(pair[0]);
        bytes.push(pair[1]);
        assert forall|k: int| 0 <= k < 2 * (i + 1) implies bytes@[k] == #[trigger] register_bytes(
            words@,
            endian,
        )[k] by {
            if k == 2 * i {
                assert(k / 2 == i && k % 2 == 0);
            } else if k == 2 * i + 1 {
                assert(k / 2 == i && k % 2 == 1);
            }
        }
        i = i + 1;
    }
    assert(bytes@ =~= register_bytes(words@, endian));
    bytes
}

/// The words that the consecutive byte pairs of `bytes` stand for.
fn bytes_to_words(bytes: &[u8], endian: Endian) -> (r: Vec<u16>)
    requires
        bytes@.len() % 2 == 0,
    ensures
        r@ == bytes_words(bytes@, endian),
{
    let len = bytes.len();
    let half = len / 2;
    let mut words: Vec<u16> = Vec::new();
    let mut j: usize = 0;
    while j < half
        invariant
            len == bytes@.len(),
            half == len / 2,
            bytes@.len() % 2 == 0,
            j <= half,
            words@ == bytes_words(bytes@, endian).take(j as int),
        decreases half - j,
    {
        let w = match u16_from_bytes_inner(&bytes[2 * j..2 * j + 2], endian) {
            Ok(w) => w,
            Err(_) => 0,
        };
        words.push(w);
        j = j + 1;
        assert(words@ =~= bytes_words(bytes@, endian).take(j as int));
    }
    assert(words@ =~= bytes_words(bytes@, endian));
    words
}

fn ordered_register_bytes(regs: &[u16], endian: Endian, word_order: WordOrder) -> (r: Result<
    Vec<u8>,
    HelpersError,
>)
    ensures
        r is Ok,
        r matches Ok(b) ==> b@ == register_bytes(in_word_order(regs@, word_order), endian),
{
    let ordered = ordered_words(regs, word_order);
    Ok(words_to_bytes(ordered.as_slice(), endian))
}

/// `be_value` stays below `256` to the power of the length.
proof fn lemma_be_value_bound(b: Seq<u8>)
    ensures
        be_value(b) < pow256(b.len()),
    decreases b.len(),
{
    if b.len() > 0 {
        lemma_be_value_bound(b.drop_last());
    }
}

proof fn lemma_pow256_small(n: nat)
    requires
        n <= 8,
    ensures
        pow256(n) <= 0x1_0000_0000_0000_0000,
        n == 4 ==> pow256(n) == 0x1_0000_0000,
        n == 8 ==> pow256(n) == 0x1_0000_0000_0000_0000,
{
    reveal_with_fuel(pow256, 9);
}

/// The big-endian number that `bytes` (at most eight of them) stand for.
fn be_value_of(bytes: &[u8]) -> (r: u64)
    requires
        bytes@.len() <= 8,
    ensures
        r == be_value(bytes@),
{
    let n = bytes.len();
    let mut acc: u64 = 0;
    let mut i: usize = 0;
    while i < n
        invariant
            n == bytes@.len(),
            n <= 8,
            i <= n,
            acc == be_value(bytes@.take(i as int)),
        decreases n - i,
    {
        proof {
            lemma_be_value_bound(bytes@.take(i as int));
            lemma_pow256_small((i + 1) as nat);
        }
        assert(bytes@.take(i + 1).drop_last() =~= bytes@.take(i as int));
        acc = acc * 256 + bytes[i] as u64;
        i = i + 1;
    }
    assert(bytes@.take(n as int) =~= bytes@);
    acc
}

proof fn lemma_be_bytes_len(v: nat, n: nat)
    ensures
        be_bytes(v, n).len() == n,
    decreases n,
{
    if n > 0 {
        lemma_be_bytes_len(v / 256, (n - 1) as nat);
    }
}

/// The `n` low-order bytes of `v`, most significant first.
fn be_bytes_of(v: u64, n: usize) -> (r: Vec<u8>)
    ensures
        r@ == be_bytes(v as nat, n as nat),
    decreases n,
{
    if n == 0 {
        Vec::new()
    } else {
        let mut r = be_bytes_of(v / 256, n - 1);
        r.push((v % 256) as u8);
        r
    }
}

/// Decode a `u16` from two bytes using the given endianness.
pub fn u16_from_bytes(bytes: &[u8], endian: Endian) -> (r: Result<u16, HelpersError>)
    ensures
        r == (if bytes@.len() != 2 {
            Err(HelpersError::InvalidLength)
        } else {
            Ok::<u16, HelpersError>(bytes_word(bytes@[0], bytes@[1], endian))
        }),
{
    u16_from_bytes_inner(bytes, endian)
}

/// Encode a `u16` into two bytes using the given endianness.
pub fn u16_to_bytes(value: u16, endian: Endian) -> (r: [u8; 2])
    ensures
        r@ == word_bytes(value, endian),
{
    u16_to_bytes_inner(value, endian)
}

/// Decode an `i16` from two bytes using the given endianness.
pub fn i16_from_bytes(bytes: &[u8], endian: Endian) -> (r: Result<i16, HelpersError>)
    ensures
        r == (if bytes@.len() != 2 {
            Err(HelpersError::InvalidLength)
        } else {
            Ok::<i16, HelpersError>(bytes_word(bytes@[0], bytes@[1], endian) as i16)
        }),
{
    match u16_from_bytes_inner(bytes, endian) {
        Ok(v) => Ok(v as i16),
        Err(e) => Err(e),
    }
}

/// Encode an `i16` into two bytes using the given endianness.
pub fn i16_to_bytes(value: i16, endian: Endian) -> (r: [u8; 2])
    ensures
        r@ == word_bytes(value as u16, endian),
{
    u16_to_bytes_inner(value as u16, endian)
}

/// Decode a `u32` from two registers using the given endianness and word order.
pub fn u32_from_registers(regs: &[u16], endian: Endian, word_order: WordOrder) -> (r: Result<
    u32,
    HelpersError,
>)
    ensures
        r == (if regs@.len() != 2 {
            Err(HelpersError::InvalidLength)
        } else {
            Ok::<u32, HelpersError>(registers_value(regs@, endian, word_order) as u32)
        }),
{
    if regs.len() != 2 {
        return Err(HelpersError::InvalidLength);
    }
    let bytes = match ordered_register_bytes(regs, endian, word_order) {
        Ok(b) => b,
        Err(e) => return Err(e),
    };
    let v = be_value_of(bytes.as_slice());
    proof {
        lemma_be_value_bound(bytes@);
        lemma_pow256_small(4);
    }
    Ok(v as u32)
}

/// Encode a `u32` into two registers using the given endianness and word order.
pub fn u32_to_registers(value: u32, endian: Endian, word_order: WordOrder) -> (r: [u16; 2])
    ensures
        r@ == value_registers(value as nat, 4, endian, word_order),
{
    let bytes = be_bytes_of(value as u64, 4);
    proof {
        lemma_be_bytes_len(value as nat, 4);
    }
    let words = bytes_to_words(bytes.as_slice(), endian);
    let ordered = ordered_words(words.as_slice(), word_order);
    let r = [ordered[0], ordered[1]];
    assert(r@ =~= value_registers(value as nat, 4, endian, word_order));
    r
}

/// Decode an `i32` from two registers using the given endianness and word order.
pub fn i32_from_registers(regs: &[u16], endian: Endian, word_order: WordOrder) -> (r: Result<
    i32,
    HelpersError,
>)
    ensures
        r == (if regs@.len() != 2 {
            Err(HelpersError::InvalidLength)
        } else {
            Ok::<i32, HelpersError>(registers_value(regs@, endian, word_order) as u32 as i32)
        }),
{
    match u32_from_registers(regs, endian, word_order) {
        Ok(v) => Ok(v as i32),
        Err(e) => Err(e),
    }
}

/// Encode an `i32` into two registers using the given endianness and word order.
pub fn i32_to_registers(value: i32, endian: Endian, word_order: WordOrder) -> (r: [u16; 2])
    ensures
        r@ == value_registers(value as u32 as nat, 4, endian, word_order),
{
    u32_to_registers(value as u32, endian, word_order)
}

/// Decode a `u64` from four registers using the given endianness and word order.
pub fn u64_from_registers(regs: &[u16], endian: Endian, word_order: WordOrder) -> (r: Result<
    u64,
    HelpersError,
>)
    ensures
        r == (if regs@.len() != 4 {
            Err(HelpersError::InvalidLength)
        } else {
            Ok::<u64, HelpersError>(registers_value(regs@, endian, word_order) as u64)
        }),
{
    if regs.len() != 4 {
        return Err(HelpersError::InvalidLength);
    }
    let bytes = match ordered_register_bytes(regs, endian, word_order) {
        Ok(b) => b,
        Err(e) => return Err(e),
    };
    let v = be_value_of(bytes.as_slice());
    Ok(v)
}

/// Encode a `u64` into four registers using the given endianness and word order.
pub fn u64_to_registers(value: u64, endian: Endian, word_order: WordOrder) -> (r: [u16; 4])
    ensures
        r@ == value_registers(value as nat, 8, endian, word_order),
{
    let bytes = be_bytes_of(value, 8);
    proof {
        lemma_be_bytes_len(value as nat, 8);
    }
    let words = bytes_to_words(bytes.as_slice(), endian);
    let ordered = ordered_words(words.as_slice(), word_order);
    let r = [ordered[0], ordered[1], ordered[2], ordered[3]];
    assert(r@ =~= value_registers(value as nat, 8, endian, word_order));
    r
}

/// Decode an `i64` from four registers using the given endianness and word order.
pub fn i64_from_registers(regs: &[u16], endian: Endian, word_order: WordOrder) -> (r: Result<
    i64,
    HelpersError,
>)
    ensures
        r == (if regs@.len() != 4 {
            Err(HelpersError::InvalidLength)
        } else {
            Ok::<i64, HelpersError>(registers_value(regs@, endian, word_order) as u64 as i64)
        }),
{
    match u64_from_registers(regs, endian, word_order) {
        Ok(v) => Ok(v as i64),
        Err(e) => Err(e),
    }
}

/// Encode an `i64` into four registers using the given endianness and word order.
pub fn i64_to_registers(value: i64, endian: Endian, word_order: WordOrder) -> (r: [u16; 4])
    ensures
        r@ == value_registers(value as u64 as nat, 8, endian, word_order),
{
    u64_to_registers(value as u64, endian, word_order)
}

/// `String::from_utf8`, with the error dropped: the standard library
/// documents that it succeeds exactly when the bytes are well-formed UTF-8,
/// and that the string then holds the characters the bytes encode.
#[verifier::external_body]
fn string_from_utf8(bytes: Vec<u8>) -> (r: Option<String>)
    ensures
        r is Some <==> valid_utf8(bytes@),
        r matches Some(s) ==> s@ == decode_utf8(bytes@),
{
    String::from_utf8(bytes).ok()
}

/// Decode a NUL-terminated string from registers using the given endianness.
///
/// Each register is decoded into two bytes. Decoding stops at the first NUL
/// byte; trailing NULs are ignored.
pub fn string_from_registers(regs: &[u16], endian: Endian) -> (r: Result<String, HelpersError>)
    ensures
        match r {
            Ok(s) => valid_utf8(string_bytes(regs@, endian)) && s@ == decode_utf8(
                string_bytes(regs@, endian),
            ),
            Err(e) => !valid_utf8(string_bytes(regs@, endian)) && e == HelpersError::InvalidString,
        },
{
    let mut bytes = words_to_bytes(regs, endian);
    let ghost all = bytes@;
    let n = bytes.len();
    let mut end: usize = 0;
    let mut i: usize = 0;
    while i < n
        invariant
            n == bytes@.len(),
            i <= n,
            end <= i,
            end == nul_position(bytes@.take(i as int)),
        decreases n - i,
    {
        assert(bytes@.take(i + 1).drop_last() =~= bytes@.take(i as int));
        if end == i && bytes[i] != 0 {
            end = i + 1;
        }
        i = i + 1;
    }
    assert(bytes@.take(n as int) =~= bytes@);
    bytes.truncate(end);
    assert(bytes@ =~= string_bytes(regs@, endian));
    match string_from_utf8(bytes) {
        Some(s) => Ok(s),
        None => Err(HelpersError::InvalidString),
    }
}

/// Encode a string into registers using the given endianness.
///
/// The string is encoded as UTF-8 bytes. If `pad_to` is greater than zero, the
/// result is padded with NUL registers until it contains exactly `pad_to`
/// registers; otherwise the result is padded only to an even byte count.
pub fn string_to_registers(s: &str, endian: Endian, pad_to: usize) -> (r: Result<
    Vec<u16>,
    HelpersError,
>)
    requires
        pad_to <= usize::MAX / 2,
        encode_utf8(s@).len() < usize::MAX,
    ensures
        match r {
            Ok(regs) => encode_utf8(s@).len() <= padded_len(encode_utf8(s@).len(), pad_to as nat)
                && regs@ == bytes_words(padded(encode_utf8(s@), pad_to as nat), endian),
            Err(e) => encode_utf8(s@).len() > padded_len(encode_utf8(s@).len(), pad_to as nat) && e
                == HelpersError::InvalidLength,
        },
{
    let src = s.as_bytes();
    let len = src.len();
    let min_len: usize = if pad_to > 0 {
        pad_to * 2
    } else {
        len + len % 2
    };
    if len > min_len {
        return Err(HelpersError::InvalidLength);
    }
    let mut bytes: Vec<u8> = Vec::new();
    let mut i: usize = 0;
    while i < min_len
        invariant
            len == src@.len(),
            len <= min_len,
            i <= min_len,
            bytes@ == padded(src@, pad_to as nat).take(i as int),
            min_len == padded_len(len as nat, pad_to as nat),
        decreases min_len - i,
    {
        if i < len {
            bytes.push(src[i]);
        } else {
            bytes.push(0);
        }
        i = i + 1;
        assert(bytes@ =~= padded(src@, pad_to as nat).take(i as int));
    }
    assert(bytes@ =~= padded(src@, pad_to as nat));
    Ok(bytes_to_words(bytes.as_slice(), endian))
}

/// Putting registers in word order twice gives them back.
proof fn lemma_word_order_twice(ws: Seq<u16>, word_order: WordOrder)
    ensures
        in_word_order(in_word_order(ws, word_order), word_order) == ws,
{
    assert(ws.reverse().reverse() =~= ws);
}

/// The bytes of the word that two bytes stand for are those two bytes.
proof fn lemma_word_of_bytes(b0: u8, b1: u8, endian: Endian)
    ensures
        word_bytes(bytes_word(b0, b1, endian), endian) == seq![b0, b1],
{
    assert(word_bytes(bytes_word(b0, b1, endian), endian) =~= seq![b0, b1]);
}

/// Splitting an even number of bytes into words and writing the words back
/// gives the bytes.
proof fn lemma_bytes_words_bytes(b: Seq<u8>, endian: Endian)
    requires
        b.len() % 2 == 0,
    ensures
        register_bytes(bytes_words(b, endian), endian) == b,
{
    let ws = bytes_words(b, endian);
    assert forall|k: int| 0 <= k < b.len() implies #[trigger] register_bytes(ws, endian)[k]
        == b[k] by {
        let j = k / 2;
        lemma_word_of_bytes(b[2 * j], b[2 * j + 1], endian);
        assert(k == 2 * j || k == 2 * j + 1);
    }
    assert(register_bytes(ws, endian) =~= b);
}

/// Reading back the `n` low-order bytes of `v` gives `v` modulo `256^n`.
proof fn lemma_be_value_of_bytes(v: nat, n: nat)
    ensures
        be_value(be_bytes(v, n)) == v % pow256(n),
    decreases n,
{
    if n > 0 {
        let m = (n - 1) as nat;
        lemma_be_value_of_bytes(v / 256, m);
        assert(be_bytes(v, n).drop_last() =~= be_bytes(v / 256, m));
        assert(pow256(m) > 0) by {
            lemma_pow256_positive(m);
        }
        vstd::arithmetic::div_mod::lemma_mod_breakdown(v as int, 256, pow256(m) as int);
    }
}

proof fn lemma_pow256_positive(n: nat)
    ensures
        pow256(n) > 0,
    decreases n,
{
    if n > 0 {
        lemma_pow256_positive((n - 1) as nat);
    }
}

/// A value written to registers and read back, with the same byte order and
/// word order, is the value: for `n` bytes of registers, any value below
/// `256^n`.
proof fn lemma_registers_roundtrip(v: nat, n: nat, endian: Endian, word_order: WordOrder)
    requires
        n % 2 == 0,
        v < pow256(n),
    ensures
        value_registers(v, n, endian, word_order).len() == n / 2,
        registers_value(value_registers(v, n, endian, word_order), endian, word_order) == v,
{
    let b = be_bytes(v, n);
    lemma_be_bytes_len(v, n);
    lemma_word_order_twice(bytes_words(b, endian), word_order);
    lemma_bytes_words_bytes(b, endian);
    lemma_be_value_of_bytes(v, n);
    vstd::arithmetic::div_mod::lemma_small_mod(v, pow256(n));
}

/// `u16_from_bytes` undoes `u16_to_bytes` for either byte order.
pub proof fn u16_bytes_roundtrip(value: u16, endian: Endian)
    ensures
        word_bytes(value, endian).len() == 2,
        bytes_word(word_bytes(value, endian)[0], word_bytes(value, endian)[1], endian) == value,
{
}

/// `u16_to_bytes` undoes `u16_from_bytes` on two bytes, for either byte order.
pub proof fn u16_word_roundtrip(b0: u8, b1: u8, endian: Endian)
    ensures
        word_bytes(bytes_word(b0, b1, endian), endian) == seq![b0, b1],
{
    lemma_word_of_bytes(b0, b1, endian);
}

/// `i16_from_bytes` undoes `i16_to_bytes` for either byte order.
pub proof fn i16_bytes_roundtrip(value: i16, endian: Endian)
    ensures
        bytes_word(word_bytes(value as u16, endian)[0], word_bytes(value as u16, endian)[1], endian)
            as i16 == value,
{
    assert(value as u16 as i16 == value) by (bit_vector);
}

/// `u32_from_registers` undoes `u32_to_registers` for every byte order and
/// word order.
pub proof fn u32_registers_roundtrip(value: u32, endian: Endian, word_order: WordOrder)
    ensures
        value_registers(value as nat, 4, endian, word_order).len() == 2,
        registers_value(value_registers(value as nat, 4, endian, word_order), endian, word_order)
            == value,
{
    lemma_pow256_small(4);
    lemma_registers_roundtrip(value as nat, 4, endian, word_order);
}

/// `i32_from_registers` undoes `i32_to_registers` for every byte order and
/// word order.
pub proof fn i32_registers_roundtrip(value: i32, endian: Endian, word_order: WordOrder)
    ensures
        value_registers(value as u32 as nat, 4, endian, word_order).len() == 2,
        registers_value(value_registers(value as u32 as nat, 4, endian, word_order), endian, word_order)
            as u32 as i32 == value,
{
    u32_registers_roundtrip(value as u32, endian, word_order);
    assert(value as u32 as i32 == value) by (bit_vector);
}

/// `u64_from_registers` undoes `u64_to_registers` for every byte order and
/// word order.
pub proof fn u64_registers_roundtrip(value: u64, endian: Endian, word_order: WordOrder)
    ensures
        value_registers(value as nat, 8, endian, word_order).len() == 4,
        registers_value(value_registers(value as nat, 8, endian, word_order), endian, word_order)
            == value,
{
    lemma_pow256_small(8);
    lemma_registers_roundtrip(value as nat, 8, endian, word_order);
}

/// `i64_from_registers` undoes `i64_to_registers` for every byte order and
/// word order.
pub proof fn i64_registers_roundtrip(value: i64, endian: Endian, word_order: WordOrder)
    ensures
        value_registers(value as u64 as nat, 8, endian, word_order).len() == 4,
        registers_value(value_registers(value as u64 as nat, 8, endian, word_order), endian, word_order)
            as u64 as i64 == value,
{
    u64_registers_roundtrip(value as u64, endian, word_order);
    assert(value as u64 as i64 == value) by (bit_vector);
}

/// The UTF-8 encoding of a character other than NUL holds no NUL byte.
proof fn lemma_encode_scalar_nonzero(c: u32)
    requires
        c != 0,
    ensures
        forall|i: int| 0 <= i < encode_scalar(c).len() ==> #[trigger] encode_scalar(c)[i] != 0,
{
    assert(forall|x: u8| #[trigger] (0xC0u8 | x) != 0) by (bit_vector);
    assert(forall|x: u8| #[trigger] (0xE0u8 | x) != 0) by (bit_vector);
    assert(forall|x: u8| #[trigger] (0xF0u8 | x) != 0) by (bit_vector);
    assert(forall|x: u8| #[trigger] (0x80u8 | x) != 0) by (bit_vector);
    assert(0 < c <= 0x7F ==> (c & 0x7F) as u8 != 0) by (bit_vector);
}

/// A string without NUL characters encodes to bytes without NUL.
proof fn lemma_encode_utf8_nonzero(s: Seq<char>)
    requires
        forall|i: int| 0 <= i < s.len() ==> s[i] != '\0',
    ensures
        forall|i: int| 0 <= i < encode_utf8(s).len() ==> #[trigger] encode_utf8(s)[i] != 0,
    decreases s.len(),
{
    if s.len() > 0 {
        let head = encode_scalar(s[0] as u32);
        let tail = encode_utf8(s.drop_first());
        lemma_encode_utf8_nonzero(s.drop_first());
        assert(s[0] as u32 != 0) by {
            if s[0] as u32 == 0 {
                vstd::utf8::char_u32_cast(s[0], 0u32);
            }
        }
        lemma_encode_scalar_nonzero(s[0] as u32);
        assert forall|i: int| 0 <= i < encode_utf8(s).len() implies #[trigger] encode_utf8(s)[i]
            != 0 by {
            if i < head.len() {
                assert(encode_utf8(s)[i] == head[i]);
            } else {
                assert(encode_utf8(s)[i] == tail[i - head.len()]);
            }
        }
    }
}

/// The first NUL of `b + z` is at the end of `b` when `b` holds none and `z`
/// is empty or starts with one.
proof fn lemma_nul_position_after(b: Seq<u8>, z: Seq<u8>)
    requires
        forall|i: int| 0 <= i < b.len() ==> b[i] != 0,
        z.len() > 0 ==> z[0] == 0,
    ensures
        nul_position(b + z) == b.len(),
    decreases b.len() + z.len(),
{
    if z.len() == 0 {
        assert(b + z =~= b);
        if b.len() > 0 {
            lemma_nul_position_after(b.drop_last(), z);
            assert(b.drop_last() + z =~= b.drop_last());
        }
    } else {
        lemma_nul_position_after(b, z.drop_last());
        assert((b + z).drop_last() =~= b + z.drop_last());
    }
}

/// A string without NUL characters that fits the padding comes back from
/// `string_from_registers` unchanged after `string_to_registers`.
pub proof fn string_registers_roundtrip(s: Seq<char>, endian: Endian, pad_to: nat)
    requires
        forall|i: int| 0 <= i < s.len() ==> s[i] != '\0',
        encode_utf8(s).len() <= padded_len(encode_utf8(s).len(), pad_to),
    ensures
        string_bytes(bytes_words(padded(encode_utf8(s), pad_to), endian), endian) == encode_utf8(s),
        valid_utf8(string_bytes(bytes_words(padded(encode_utf8(s), pad_to), endian), endian)),
        decode_utf8(string_bytes(bytes_words(padded(encode_utf8(s), pad_to), endian), endian)) == s,
{
    let b = encode_utf8(s);
    let p = padded(b, pad_to);
    let z = Seq::new((padded_len(b.len(), pad_to) - b.len()) as nat, |i: int| 0u8);
    assert(p.len() % 2 == 0);
    lemma_bytes_words_bytes(p, endian);
    lemma_encode_utf8_nonzero(s);
    lemma_nul_position_after(b, z);
    assert(p.take(b.len() as int) =~= b);
    vstd::utf8::encode_utf8_valid_utf8(s);
    vstd::utf8::encode_utf8_decode_utf8(s);
}

/// The word `w` with its two bytes swapped.
pub open spec fn swap16(w: u16) -> u16 {
    ((w % 256) * 256 + w / 256) as u16
}

/// The `m` low-order 16-bit words of `v`, most significant first.
pub open spec fn be_words(v: nat, m: nat) -> Seq<u16>
    decreases m,
{
    if m == 0 {
        seq![]
    } else {
        be_words(v / 65536, (m - 1) as nat).push((v % 65536) as u16)
    }
}

proof fn lemma_bytes_words_push2(s: Seq<u8>, a: u8, b: u8, endian: Endian)
    requires
        s.len() % 2 == 0,
    ensures
        bytes_words(s.push(a).push(b), endian) == bytes_words(s, endian).push(
            bytes_word(a, b, endian),
        ),
{
    let t = s.push(a).push(b);
    assert(bytes_words(t, endian) =~= bytes_words(s, endian).push(bytes_word(a, b, endian))) by {
        assert forall|i: int| 0 <= i < t.len() / 2 implies #[trigger] bytes_words(t, endian)[i]
            == bytes_words(s, endian).push(bytes_word(a, b, endian))[i] by {
            if i < s.len() / 2 {
                assert(t[2 * i] == s[2 * i] && t[2 * i + 1] == s[2 * i + 1]);
            } else {
                assert(2 * i == s.len());
            }
        }
    }
}

/// Read big-endian, the bytes of `v` pair up into its 16-bit words.
proof fn lemma_be_bytes_words(v: nat, m: nat)
    ensures
        bytes_words(be_bytes(v, 2 * m), Endian::Big) == be_words(v, m),
    decreases m,
{
    if m > 0 {
        let q = v / 256;
        vstd::arithmetic::div_mod::lemma_div_denominator(v as int, 256, 256);
        assert(be_bytes(v, 2 * m) == be_bytes(q, (2 * m - 1) as nat).push((v % 256) as u8));
        assert(be_bytes(q, (2 * m - 1) as nat) == be_bytes(q / 256, (2 * m - 2) as nat).push(
            (q % 256) as u8,
        ));
        assert(q / 256 == v / 65536);
        assert((2 * m - 2) as nat == 2 * ((m - 1) as nat));
        lemma_be_bytes_len(v / 65536, 2 * ((m - 1) as nat));
        lemma_bytes_words_push2(
            be_bytes(v / 65536, 2 * ((m - 1) as nat)),
            (q % 256) as u8,
            (v % 256) as u8,
            Endian::Big,
        );
        lemma_be_bytes_words(v / 65536, (m - 1) as nat);
        vstd::arithmetic::div_mod::lemma_mod_breakdown(v as int, 256, 256);
    }
}

/// The register layouts of a value are related as the names of the byte
/// orders and word orders say: least-significant-first registers are the
/// most-significant-first ones in reverse, and little-endian registers are
/// the big-endian ones with the bytes of each register swapped.
pub proof fn register_layouts(v: nat, n: nat, word_order: WordOrder)
    requires
        n % 2 == 0,
    ensures
        value_registers(v, n, Endian::Big, WordOrder::LeastSignificantFirst) == value_registers(
            v,
            n,
            Endian::Big,
            WordOrder::MostSignificantFirst,
        ).reverse(),
        value_registers(v, n, Endian::Little, WordOrder::LeastSignificantFirst) == value_registers(
            v,
            n,
            Endian::Little,
            WordOrder::MostSignificantFirst,
        ).reverse(),
        value_registers(v, n, Endian::Little, word_order).len() == value_registers(
            v,
            n,
            Endian::Big,
            word_order,
        ).len(),
        forall|i: int|
            0 <= i < value_registers(v, n, Endian::Big, word_order).len() ==> #[trigger] value_registers(
                v,
                n,
                Endian::Little,
                word_order,
            )[i] == swap16(value_registers(v, n, Endian::Big, word_order)[i]),
{
    let b = be_bytes(v, n);
    let big = bytes_words(b, Endian::Big);
    let little = bytes_words(b, Endian::Little);
    assert forall|k: int| 0 <= k < big.len() implies #[trigger] little[k] == swap16(big[k]) by {
        let b0 = b[2 * k];
        let b1 = b[2 * k + 1];
        assert(((b0 * 256 + b1) as u16) % 256 == b1 && ((b0 * 256 + b1) as u16) / 256 == b0);
    }
    if word_order == WordOrder::LeastSignificantFirst {
        assert forall|i: int| 0 <= i < big.len() implies #[trigger] little.reverse()[i] == swap16(
            big.reverse()[i],
        ) by {
            assert(little.reverse()[i] == little[big.len() - 1 - i]);
        }
    }
}

/// The most-significant-first, big-endian registers of a `u64` are its four
/// 16-bit words from the top down.
pub proof fn u64_registers_layout(value: u64)
    ensures
        value_registers(value as nat, 8, Endian::Big, WordOrder::MostSignificantFirst) == seq![
            ((value / 0x1_0000_0000_0000) % 0x10000) as u16,
            ((value / 0x1_0000_0000) % 0x10000) as u16,
            ((value / 0x10000) % 0x10000) as u16,
            (value % 0x10000) as u16,
        ],
{
    let v = value as nat;
    lemma_be_bytes_words(v, 4);
    reveal_with_fuel(be_words, 5);
    vstd::arithmetic::div_mod::lemma_div_denominator(v as int, 65536, 65536);
    vstd::arithmetic::div_mod::lemma_div_denominator(v as int, 0x1_0000_0000, 65536);
    assert(be_words(v, 4) =~= seq![
        ((value / 0x1_0000_0000_0000) % 0x10000) as u16,
        ((value / 0x1_0000_0000) % 0x10000) as u16,
        ((value / 0x10000) % 0x10000) as u16,
        (value % 0x10000) as u16,
    ]);
}

} // verus!
