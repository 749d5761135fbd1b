//! Byte-level primitives of the wire format: little-endian integers, the vint64 encoding of
//! `usize` values, and bounds-checked cursors over byte slices.

use vstd::prelude::*;
use vstd::bytes::spec_u64_to_le_bytes_open;
use vstd::std_specs::bits::u8_trailing_zeros;
use miden_crypto::utils::ByteWriter;

verus! {

broadcast use vstd::std_specs::bits::group_bits_axioms;

// ERRORS
// ================================================================================================

/// Why a value read from the wire was rejected.
#[derive(Debug, Clone, Copy, PartialEq, Eq, Structural)]
pub enum InvalidValue {
    /// The node tag in the top four bits of a node entry is not a known node kind.
    NodeTag(u8),
    /// A single-id node entry carries a payload that does not fit in 32 bits.
    PayloadTooLarge(u64),
    /// A decoded `usize` does not fit in the platform's `usize`.
    UsizeTooLarge(u64),
    /// A child id is not below the node count.
    ChildOutOfBounds { child_id: u32, node_count: usize },
    /// A child id does not precede its parent (only backward references are allowed).
    ForwardReference { parent_index: usize, child_id: u32 },
    /// A digest element is not a canonical field element.
    NonCanonicalDigest,
    /// A root index is past the number of procedure roots.
    RootIndexOutOfBounds { index: usize, root_count: usize },
    /// A node index is past the number of nodes.
    NodeIndexOutOfBounds { index: usize, node_count: usize },
    /// The header does not start with the magic bytes.
    BadMagic,
    /// The flags byte has a reserved bit set.
    ReservedFlags(u8),
    /// The HASHLESS flag is set without the STRIPPED flag.
    HashlessNotStripped,
    /// HASHLESS input was given to a reader that does not accept it.
    HashlessRejected,
    /// The version bytes are not the supported version.
    UnsupportedVersion,
    /// A section length or offset does not fit in `usize`.
    OffsetOverflow,
    /// A digest slot counter overflowed.
    SlotOverflow,
    /// The basic-block data offset of a node does not fit in 32 bits.
    BlockOffsetTooLarge,
    /// The op groups of a basic block were not supplied for recomputing its digest.
    MissingBlockGroups(usize),
    /// A digest was looked up in the node-hash section of input that has none.
    NodeHashSectionAbsent,
}

/// Error of every reading function of this crate.
#[derive(Debug, Clone, Copy, PartialEq, Eq, Structural)]
pub enum DeserializationError {
    /// Not enough bytes were left to read the value.
    UnexpectedEOF,
    /// The bytes were read but do not form a valid value.
    InvalidValue(InvalidValue),
}

// LITTLE-ENDIAN INTEGERS
// ================================================================================================

/// The integer whose little-endian bytes are `b0, .., b7`.
pub open spec fn le_value(b0: u8, b1: u8, b2: u8, b3: u8, b4: u8, b5: u8, b6: u8, b7: u8) -> u64 {
    (b0 as u64) | (b1 as u64) << 8u64 | (b2 as u64) << 16u64 | (b3 as u64) << 24u64
        | (b4 as u64) << 32u64 | (b5 as u64) << 40u64 | (b6 as u64) << 48u64 | (b7 as u64) << 56u64
}

/// The integer whose little-endian bytes are the eight bytes of `s` from `offset` on.
pub open spec fn le_u64_at(s: Seq<u8>, offset: int) -> u64 {
    le_value(
        s[offset],
        s[offset + 1],
        s[offset + 2],
        s[offset + 3],
        s[offset + 4],
        s[offset + 5],
        s[offset + 6],
        s[offset + 7],
    )
}

/// The little-endian bytes of a `u32`.
pub open spec fn u32_le_bytes(v: u32) -> Seq<u8> {
    spec_u64_to_le_bytes_open(v as u64).take(4)
}

/// The integer whose little-endian bytes are the four bytes of `s` from `offset` on.
pub open spec fn le_u32_at(s: Seq<u8>, offset: int) -> u32 {
    le_value(s[offset], s[offset + 1], s[offset + 2], s[offset + 3], 0, 0, 0, 0) as u32
}

/// Reading back eight little-endian bytes gives the integer that was written.
pub proof fn lemma_le_u64_roundtrip(v: u64, prefix: Seq<u8>, suffix: Seq<u8>)
    ensures
        spec_u64_to_le_bytes_open(v).len() == 8,
        le_u64_at(prefix + spec_u64_to_le_bytes_open(v) + suffix, prefix.len() as int) == v,
{
    let s = prefix + spec_u64_to_le_bytes_open(v) + suffix;
    let o = prefix.len() as int;
    assert(s[o] == (v & 0xff) as u8);
    assert(s[o + 1] == ((v >> 8) & 0xff) as u8);
    assert(s[o + 2] == ((v >> 16) & 0xff) as u8);
    assert(s[o + 3] == ((v >> 24) & 0xff) as u8);
    assert(s[o + 4] == ((v >> 32) & 0xff) as u8);
    assert(s[o + 5] == ((v >> 40) & 0xff) as u8);
    assert(s[o + 6] == ((v >> 48) & 0xff) as u8);
    assert(s[o + 7] == ((v >> 56) & 0xff) as u8);
    assert(v == le_value(
        (v & 0xff) as u8,
        ((v >> 8) & 0xff) as u8,
        ((v >> 16) & 0xff) as u8,
        ((v >> 24) & 0xff) as u8,
        ((v >> 32) & 0xff) as u8,
        ((v >> 40) & 0xff) as u8,
        ((v >> 48) & 0xff) as u8,
        ((v >> 56) & 0xff) as u8,
    )) by (bit_vector);
}

/// Reading back four little-endian bytes gives the integer that was written.
pub proof fn lemma_le_u32_roundtrip(v: u32, prefix: Seq<u8>, suffix: Seq<u8>)
    ensures
        u32_le_bytes(v).len() == 4,
        le_u32_at(prefix + u32_le_bytes(v) + suffix, prefix.len() as int) == v,
{
    let w = v as u64;
    let s = prefix + u32_le_bytes(v) + suffix;
    let o = prefix.len() as int;
    assert(s[o] == (w & 0xff) as u8);
    assert(s[o + 1] == ((w >> 8) & 0xff) as u8);
    assert(s[o + 2] == ((w >> 16) & 0xff) as u8);
    assert(s[o + 3] == ((w >> 24) & 0xff) as u8);
    assert(w < 0x1_0000_0000 ==> w == le_value(
        (w & 0xff) as u8,
        ((w >> 8) & 0xff) as u8,
        ((w >> 16) & 0xff) as u8,
        ((w >> 24) & 0xff) as u8,
        0,
        0,
        0,
        0,
    )) by (bit_vector);
}

// VINT64
// ================================================================================================

/// Number of bytes of the vint64 encoding of `v`.
pub open spec fn vint64_len(v: u64) -> nat {
    if v < 0x80 {
        1
    } else if v < 0x4000 {
        2
    } else if v < 0x20_0000 {
        3
    } else if v < 0x1000_0000 {
        4
    } else if v < 0x8_0000_0000 {
        5
    } else if v < 0x400_0000_0000 {
        6
    } else if v < 0x2_0000_0000_0000 {
        7
    } else if v < 0x100_0000_0000_0000 {
        8
    } else {
        9
    }
}

/// The vint64 encoding of `v`: for a length `n` below 9, the low `n` bytes of
/// `(2v + 1) << (n - 1)` in little-endian order; otherwise a zero byte followed by the eight
/// little-endian bytes of `v`.
pub open spec fn vint64_bytes(v: u64) -> Seq<u8> {
    let n = vint64_len(v);
    if n == 9 {
        seq![0u8] + spec_u64_to_le_bytes_open(v)
    } else {
        spec_u64_to_le_bytes_open(((v << 1u64) | 1u64) << ((n - 1) as u64)).take(n as int)
    }
}

/// Byte `i` of `s` from `offset` on if it lies within the first `n`, else zero.
pub open spec fn padded_byte(s: Seq<u8>, offset: int, n: int, i: int) -> u8 {
    if i < n {
        s[offset + i]
    } else {
        0
    }
}

/// Length of the vint64 value whose first byte is `first`.
pub open spec fn vint64_len_of_first(first: u8) -> nat {
    (u8_trailing_zeros(first) + 1) as nat
}

/// The value of the vint64 encoding that starts at `offset`, assuming enough bytes follow.
pub open spec fn vint64_value_at(s: Seq<u8>, offset: int) -> u64 {
    let n = vint64_len_of_first(s[offset]) as int;
    if n == 9 {
        le_u64_at(s, offset + 1)
    } else {
        le_value(
            padded_byte(s, offset, n, 0),
            padded_byte(s, offset, n, 1),
            padded_byte(s, offset, n, 2),
            padded_byte(s, offset, n, 3),
            padded_byte(s, offset, n, 4),
            padded_byte(s, offset, n, 5),
            padded_byte(s, offset, n, 6),
            padded_byte(s, offset, n, 7),
        ) >> (n as u64)
    }
}

/// Reading a vint64 value at `offset`: `None` when the bytes end too early, else the value and
/// the offset just past it.
pub open spec fn vint64_read(s: Seq<u8>, offset: int) -> Option<(u64, int)> {
    if offset < 0 || offset >= s.len() {
        None
    } else {
        let n = vint64_len_of_first(s[offset]) as int;
        if offset + n > s.len() {
            None
        } else {
            Some((vint64_value_at(s, offset), offset + n))
        }
    }
}

/// Trailing zeros of a byte whose bit `k` is set and whose lower bits are clear.
proof fn lemma_trailing_zeros_exact(b: u8, k: u8)
    requires
        k < 8,
        (b >> k) & 1 == 1,
        b & (((1u8 << k) as u8) - 1) as u8 == 0,
    ensures
        u8_trailing_zeros(b) == k,
{
    let t = u8_trailing_zeros(b);
    assert(b != 0) by (bit_vector)
        requires
            (b >> k) & 1 == 1,
    ;
    if t < k as u32 {
        let tt = t as u8;
        assert((b >> tt) & 1 == 1);
        assert(tt < k ==> b & (((1u8 << k) as u8) - 1) as u8 == 0 ==> (b >> tt) & 1 == 0)
            by (bit_vector);
    } else if t > k as u32 {
        assert((b >> k) & 1u8 == 0u8);
    }
}

/// The bit facts behind the vint64 encoding of a value of `l + 1` bytes: the first byte has
/// exactly `l` trailing zeros, and the first `l + 1` bytes, zero-padded, shift back to `v`.
proof fn lemma_vint64_bits(v: u64, l: u64)
    by (bit_vector)
    requires
        l < 8,
        v < (1u64 << (7 * (l + 1))),
    ensures
        ((((((v << 1u64) | 1u64) << l) & 0xff) as u8) >> (l as u8)) & 1 == 1,
        (((((v << 1u64) | 1u64) << l) & 0xff) as u8) & (((1u8 << (l as u8)) as u8) - 1) as u8
            == 0,
        le_value(
            (if 0 <= l { ((((v << 1u64) | 1u64) << l) & 0xff) as u8 } else { 0u8 }),
            (if 1 <= l { (((((v << 1u64) | 1u64) << l) >> 8) & 0xff) as u8 } else { 0u8 }),
            (if 2 <= l { (((((v << 1u64) | 1u64) << l) >> 16) & 0xff) as u8 } else { 0u8 }),
            (if 3 <= l { (((((v << 1u64) | 1u64) << l) >> 24) & 0xff) as u8 } else { 0u8 }),
            (if 4 <= l { (((((v << 1u64) | 1u64) << l) >> 32) & 0xff) as u8 } else { 0u8 }),
            (if 5 <= l { (((((v << 1u64) | 1u64) << l) >> 40) & 0xff) as u8 } else { 0u8 }),
            (if 6 <= l { (((((v << 1u64) | 1u64) << l) >> 48) & 0xff) as u8 } else { 0u8 }),
            (if 7 <= l { (((((v << 1u64) | 1u64) << l) >> 56) & 0xff) as u8 } else { 0u8 }),
        ) >> (l + 1) == v,
{
}

/// Reading the vint64 encoding of `v` gives back `v` and consumes exactly its bytes.
pub proof fn lemma_vint64_roundtrip(v: u64, prefix: Seq<u8>, suffix: Seq<u8>)
    ensures
        vint64_bytes(v).len() == vint64_len(v),
        vint64_read(prefix + vint64_bytes(v) + suffix, prefix.len() as int) == Some(
            (v, prefix.len() + vint64_len(v) as int),
        ),
{
    let n = vint64_len(v);
    let enc = vint64_bytes(v);
    let s = prefix + enc + suffix;
    let o = prefix.len() as int;
    if n == 9 {
        assert(enc[0] == 0u8);
        assert(s[o] == 0u8);
        assert(u8_trailing_zeros(0u8) == 8);
        lemma_le_u64_roundtrip(v, prefix + seq![0u8], suffix);
        assert(prefix + seq![0u8] + spec_u64_to_le_bytes_open(v) + suffix =~= s);
    } else {
        let l = (n - 1) as u64;
        assert(v < (1u64 << (7 * (l + 1)))) by {
            assert(1u64 << 7u64 == 0x80 && 1u64 << 14u64 == 0x4000 && 1u64 << 21u64 == 0x20_0000
                && 1u64 << 28u64 == 0x1000_0000 && 1u64 << 35u64 == 0x8_0000_0000 && 1u64 << 42u64
                == 0x400_0000_0000 && 1u64 << 49u64 == 0x2_0000_0000_0000 && 1u64 << 56u64
                == 0x100_0000_0000_0000) by (bit_vector);
        }
        lemma_vint64_bits(v, l);
        let x = ((v << 1u64) | 1u64) << l;
        assert(enc =~= spec_u64_to_le_bytes_open(x).take(n as int));
        let b0 = (x & 0xff) as u8;
        assert(s[o] == b0);
        lemma_trailing_zeros_exact(b0, l as u8);
        assert(vint64_len_of_first(s[o]) == n);
        let ln = n as int;
        assert(padded_byte(s, o, ln, 0) == (if 0 <= l { (x & 0xff) as u8 } else { 0u8 }));
        assert(padded_byte(s, o, ln, 1) == (if 1 <= l { ((x >> 8) & 0xff) as u8 } else { 0u8 }));
        assert(padded_byte(s, o, ln, 2) == (if 2 <= l { ((x >> 16) & 0xff) as u8 } else { 0u8 }));
        assert(padded_byte(s, o, ln, 3) == (if 3 <= l { ((x >> 24) & 0xff) as u8 } else { 0u8 }));
        assert(padded_byte(s, o, ln, 4) == (if 4 <= l { ((x >> 32) & 0xff) as u8 } else { 0u8 }));
        assert(padded_byte(s, o, ln, 5) == (if 5 <= l { ((x >> 40) & 0xff) as u8 } else { 0u8 }));
        assert(padded_byte(s, o, ln, 6) == (if 6 <= l { ((x >> 48) & 0xff) as u8 } else { 0u8 }));
        assert(padded_byte(s, o, ln, 7) == (if 7 <= l { ((x >> 56) & 0xff) as u8 } else { 0u8 }));
    }
}

// WRITING
// ================================================================================================

/// Appends one byte through `ByteWriter::write_u8` of miden-crypto's serialization utilities;
/// the claim is that exactly this byte is appended.
#[verifier::external_body]
pub(crate) fn write_u8(target: &mut Vec<u8>, value: u8)
    ensures
        final(target)@ == old(target)@.push(value),
{
    ByteWriter::write_u8(target, value)
}

/// Appends bytes through `ByteWriter::write_bytes`; the claim is that exactly these bytes are
/// appended, in order.
#[verifier::external_body]
pub(crate) fn write_bytes(target: &mut Vec<u8>, values: &[u8])
    ensures
        final(target)@ == old(target)@ + values@,
{
    ByteWriter::write_bytes(target, values)
}

/// Appends a `u32` through `ByteWriter::write_u32`; the claim is that its four little-endian
/// bytes are appended.
#[verifier::external_body]
pub(crate) fn write_u32(target: &mut Vec<u8>, value: u32)
    ensures
        final(target)@ == old(target)@ + u32_le_bytes(value),
{
    ByteWriter::write_u32(target, value)
}

/// Appends a `u64` through `ByteWriter::write_u64`; the claim is that its eight little-endian
/// bytes are appended.
#[verifier::external_body]
pub(crate) fn write_u64(target: &mut Vec<u8>, value: u64)
    ensures
        final(target)@ == old(target)@ + spec_u64_to_le_bytes_open(value),
{
    ByteWriter::write_u64(target, value)
}

/// Appends a `usize` through `ByteWriter::write_usize`; the claim is that its vint64 encoding
/// (see [`vint64_bytes`]) is appended.
#[verifier::external_body]
pub(crate) fn write_usize(target: &mut Vec<u8>, value: usize)
    ensures
        final(target)@ == old(target)@ + vint64_bytes(value as u64),
{
    ByteWriter::write_usize(target, value)
}

// READING
// ================================================================================================

/// The error of a read of `len` bytes at `offset` past the end of the bytes: the end does not
/// fit in `usize`, or the bytes end too early.
pub open spec fn short_read_error(offset: int, len: int) -> DeserializationError {
    if offset + len > usize::MAX {
        DeserializationError::InvalidValue(InvalidValue::OffsetOverflow)
    } else {
        DeserializationError::UnexpectedEOF
    }
}

/// Reads `len` bytes at `*offset` and advances the offset past them.
pub fn read_slice_at<'a>(bytes: &'a [u8], offset: &mut usize, len: usize) -> (r: Result<
    &'a [u8],
    DeserializationError,
>)
    ensures
        *old(offset) + len <= bytes@.len() ==> {
            &&& r matches Ok(s) && s@ == bytes@.subrange(
                *old(offset) as int,
                *old(offset) + len,
            )
            &&& *final(offset) == *old(offset) + len
        },
        *old(offset) + len > bytes@.len() ==> {
            &&& r is Err
            &&& *final(offset) == *old(offset)
            &&& *old(offset) + len <= usize::MAX ==> r == Err::<&[u8], _>(
                DeserializationError::UnexpectedEOF,
            )
            &&& *old(offset) + len > usize::MAX ==> r == Err::<&[u8], _>(
                DeserializationError::InvalidValue(InvalidValue::OffsetOverflow),
            )
        },
{
    let total = bytes.len();
    let end = match offset.checked_add(len) {
        Some(end) => end,
        None => {
            return Err(DeserializationError::InvalidValue(InvalidValue::OffsetOverflow));
        },
    };
    if end > total {
        return Err(DeserializationError::UnexpectedEOF);
    }
    let slice = vstd::slice::slice_subrange(bytes, *offset, end);
    *offset = end;
    Ok(slice)
}

/// Reads one byte at `*offset` and advances the offset past it.
pub fn read_u8_at(bytes: &[u8], offset: &mut usize) -> (r: Result<u8, DeserializationError>)
    ensures
        *old(offset) < bytes@.len() ==> r == Ok::<u8, DeserializationError>(
            bytes@[*old(offset) as int],
        ) && *final(offset) == *old(offset) + 1,
        *old(offset) >= bytes@.len() ==> r == Err::<u8, DeserializationError>(
            DeserializationError::UnexpectedEOF,
        ) && *final(offset) == *old(offset),
{
    if *offset >= bytes.len() {
        return Err(DeserializationError::UnexpectedEOF);
    }
    let slice = read_slice_at(bytes, offset, 1)?;
    Ok(slice[0])
}

/// Reads eight bytes at `*offset` and advances the offset past them.
pub fn read_array_at(bytes: &[u8], offset: &mut usize) -> (r: Result<
    [u8; 8],
    DeserializationError,
>)
    ensures
        *old(offset) + 8 <= bytes@.len() ==> {
            &&& r matches Ok(a) && a@ == bytes@.subrange(*old(offset) as int, *old(offset) + 8)
            &&& *final(offset) == *old(offset) + 8
        },
        *old(offset) + 8 > bytes@.len() ==> r == Err::<[u8; 8], DeserializationError>(
            short_read_error(*old(offset) as int, 8),
        ) && *final(offset) == *old(offset),
{
    let slice = read_slice_at(bytes, offset, 8)?;
    let result: [u8; 8] = [
        slice[0],
        slice[1],
        slice[2],
        slice[3],
        slice[4],
        slice[5],
        slice[6],
        slice[7],
    ];
    assert(result@ =~= slice@);
    Ok(result)
}

/// Reads a little-endian `u64` at `*offset` and advances the offset past it.
pub fn read_u64_at(bytes: &[u8], offset: &mut usize) -> (r: Result<u64, DeserializationError>)
    ensures
        *old(offset) + 8 <= bytes@.len() ==> r == Ok::<u64, DeserializationError>(
            le_u64_at(bytes@, *old(offset) as int),
        ) && *final(offset) == *old(offset) + 8,
        *old(offset) + 8 > bytes@.len() ==> r == Err::<u64, DeserializationError>(
            short_read_error(*old(offset) as int, 8),
        ) && *final(offset) == *old(offset),
{
    let a = read_array_at(bytes, offset)?;
    Ok(
        (a[0] as u64) | (a[1] as u64) << 8u64 | (a[2] as u64) << 16u64 | (a[3] as u64) << 24u64
            | (a[4] as u64) << 32u64 | (a[5] as u64) << 40u64 | (a[6] as u64) << 48u64 | (
        a[7] as u64) << 56u64,
    )
}

/// Reads a little-endian `u32` at `*offset` and advances the offset past it.
pub fn read_u32_at(bytes: &[u8], offset: &mut usize) -> (r: Result<u32, DeserializationError>)
    ensures
        *old(offset) + 4 <= bytes@.len() ==> r == Ok::<u32, DeserializationError>(
            le_u32_at(bytes@, *old(offset) as int),
        ) && *final(offset) == *old(offset) + 4,
        *old(offset) + 4 > bytes@.len() ==> r == Err::<u32, DeserializationError>(
            short_read_error(*old(offset) as int, 4),
        ) && *final(offset) == *old(offset),
{
    let s = read_slice_at(bytes, offset, 4)?;
    let b0 = s[0];
    let b1 = s[1];
    let b2 = s[2];
    let b3 = s[3];
    let z: u8 = 0;
    let v: u64 = (b0 as u64) | (b1 as u64) << 8u64 | (b2 as u64) << 16u64 | (b3 as u64) << 24u64
        | (z as u64) << 32u64 | (z as u64) << 40u64 | (z as u64) << 48u64 | (z as u64) << 56u64;
    assert(le_value(b0, b1, b2, b3, 0, 0, 0, 0) < 0x1_0000_0000) by (bit_vector);
    Ok(v as u32)
}

/// Reading a `usize` at `offset`: an error when the bytes end too early or the value does not
/// fit in `usize`, else the value and the offset just past it.
pub open spec fn spec_read_usize(s: Seq<u8>, offset: int) -> Result<(usize, int), DeserializationError> {
    match vint64_read(s, offset) {
        None => Err(DeserializationError::UnexpectedEOF),
        Some((v, next)) => if v <= usize::MAX {
            Ok((v as usize, next))
        } else {
            Err(DeserializationError::InvalidValue(InvalidValue::UsizeTooLarge(v)))
        },
    }
}

/// Reads a vint64-encoded `usize` at `*offset` and advances the offset past it.
///
/// The first byte's trailing zeros give the encoding length `n`; nine-byte values are a zero
/// marker followed by eight little-endian bytes.
pub fn read_usize_at(bytes: &[u8], offset: &mut usize) -> (r: Result<usize, DeserializationError>)
    ensures
        match spec_read_usize(bytes@, *old(offset) as int) {
            Ok((v, next)) => r == Ok::<usize, DeserializationError>(v) && *final(offset) == next,
            Err(e) => r == Err::<usize, DeserializationError>(e),
        },
        r is Ok ==> *final(offset) > *old(offset),
{
    if *offset >= bytes.len() {
        return Err(DeserializationError::UnexpectedEOF);
    }
    let ghost s = bytes@;
    let ghost o = *offset as int;
    let first_byte = bytes[*offset];
    let length = first_byte.trailing_zeros() as usize + 1;
    if bytes.len() - *offset < length {
        return Err(DeserializationError::UnexpectedEOF);
    }
    let result: u64 = if length == 9 {
        let _marker = read_u8_at(bytes, offset)?;
        let value = read_u64_at(bytes, offset)?;
        value
    } else {
        let slice = read_slice_at(bytes, offset, length)?;
        let p0 = slice[0];
        let p1 = if length > 1 { slice[1] } else { 0 };
        let p2 = if length > 2 { slice[2] } else { 0 };
        let p3 = if length > 3 { slice[3] } else { 0 };
        let p4 = if length > 4 { slice[4] } else { 0 };
        let p5 = if length > 5 { slice[5] } else { 0 };
        let p6 = if length > 6 { slice[6] } else { 0 };
        let p7 = if length > 7 { slice[7] } else { 0 };
        let ghost ln = length as int;
        assert(p0 == padded_byte(s, o, ln, 0));
        assert(p1 == padded_byte(s, o, ln, 1));
        assert(p2 == padded_byte(s, o, ln, 2));
        assert(p3 == padded_byte(s, o, ln, 3));
        assert(p4 == padded_byte(s, o, ln, 4));
        assert(p5 == padded_byte(s, o, ln, 5));
        assert(p6 == padded_byte(s, o, ln, 6));
        assert(p7 == padded_byte(s, o, ln, 7));
        let encoded: u64 = (p0 as u64) | (p1 as u64) << 8u64 | (p2 as u64) << 16u64 | (
        p3 as u64) << 24u64 | (p4 as u64) << 32u64 | (p5 as u64) << 40u64 | (p6 as u64)
            << 48u64 | (p7 as u64) << 56u64;
        encoded >> (length as u64)
    };
    if result > usize::MAX as u64 {
        return Err(DeserializationError::InvalidValue(InvalidValue::UsizeTooLarge(result)));
    }
    Ok(result as usize)
}

} // verus!
