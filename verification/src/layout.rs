//! The layout of a serialized MAST forest: the header checks and the offsets of its sections,
//! found in one pass over the bytes without materializing any node.

use vstd::prelude::*;
use crate::bytes::{
    DeserializationError, InvalidValue, le_u32_at, le_u64_at, read_slice_at, read_u32_at,
    read_usize_at, short_read_error, spec_read_usize,
};
use crate::forest::{FLAG_HASHLESS, FLAG_STRIPPED, FLAGS_RESERVED_MASK, magic_bytes, version_bytes};
use crate::info::{MastNodeEntry, MastNodeType};
use crate::node::MastNodeId;

verus! {

// FLAGS
// ================================================================================================

/// The validated flags byte of a serialized forest.
#[derive(Debug, Clone, Copy)]
pub struct WireFlags {
    bits: u8,
}

impl WireFlags {
    /// The flags byte.
    pub closed spec fn spec_bits(self) -> u8 {
        self.bits
    }

    /// Whether bit 0 (STRIPPED) is set.
    pub open spec fn spec_is_stripped(self) -> bool {
        self.spec_bits() % 2 == 1
    }

    /// Whether bit 1 (HASHLESS) is set.
    pub open spec fn spec_is_hashless(self) -> bool {
        (self.spec_bits() / 2) % 2 == 1
    }

    /// Returns the flags byte.
    pub fn bits(&self) -> (r: u8)
        ensures
            r == self.spec_bits(),
    {
        self.bits
    }

    /// Returns `true` when the debug info section is left out.
    pub fn is_stripped(&self) -> (r: bool)
        ensures
            r == self.spec_is_stripped(),
    {
        let b = self.bits;
        assert((b & 1u8 != 0u8) == (b % 2 == 1)) by (bit_vector);
        b & FLAG_STRIPPED != 0
    }

    /// Returns `true` when the general node-hash section is left out.
    pub fn is_hashless(&self) -> (r: bool)
        ensures
            r == self.spec_is_hashless(),
    {
        let b = self.bits;
        assert((b & 2u8 != 0u8) == ((b / 2) % 2 == 1)) by (bit_vector);
        b & FLAG_HASHLESS != 0
    }
}

// LAYOUT
// ================================================================================================

/// Where the sections of a serialized forest lie.
#[derive(Debug, Clone, Copy)]
pub struct ForestLayout {
    pub node_count: usize,
    pub roots_count: usize,
    pub roots_offset: usize,
    pub basic_block_offset: usize,
    pub basic_block_len: usize,
    pub node_entry_offset: usize,
    pub external_digest_offset: usize,
    pub node_hash_offset: Option<usize>,
    pub advice_map_offset: usize,
}

/// The flags byte of the header, if the header is valid: the magic `MAST`, a flags byte with
/// no reserved bit set and HASHLESS only together with STRIPPED (and only where allowed), and
/// the supported version.
pub open spec fn spec_read_flags(s: Seq<u8>, allow_hashless: bool) -> Result<
    u8,
    DeserializationError,
> {
    if s.len() < 4 {
        Err(DeserializationError::UnexpectedEOF)
    } else if s.subrange(0, 4) != magic_bytes() {
        Err(DeserializationError::InvalidValue(InvalidValue::BadMagic))
    } else if s.len() < 5 {
        Err(DeserializationError::UnexpectedEOF)
    } else if s[4] >= 4 {
        Err(DeserializationError::InvalidValue(InvalidValue::ReservedFlags(s[4])))
    } else if s[4] == 2 {
        Err(DeserializationError::InvalidValue(InvalidValue::HashlessNotStripped))
    } else if s[4] == 3 && !allow_hashless {
        Err(DeserializationError::InvalidValue(InvalidValue::HashlessRejected))
    } else if s.len() < 8 {
        Err(DeserializationError::UnexpectedEOF)
    } else if s.subrange(5, 8) != version_bytes() {
        Err(DeserializationError::InvalidValue(InvalidValue::UnsupportedVersion))
    } else {
        Ok(s[4])
    }
}

/// The end of a section of `count` items of `size` bytes that starts at `offset`, if it fits
/// both `usize` and the bytes.
pub open spec fn spec_section_end(s: Seq<u8>, offset: int, count: int, size: int) -> Result<
    int,
    DeserializationError,
> {
    let end = offset + count * size;
    if end > usize::MAX {
        Err(DeserializationError::InvalidValue(InvalidValue::OffsetOverflow))
    } else if end > s.len() {
        Err(DeserializationError::UnexpectedEOF)
    } else {
        Ok(end)
    }
}

/// Decodes the first `n` node entries at `offset`: the number of external nodes among them,
/// or the error of the first entry that does not decode.
pub open spec fn spec_scan_entries(s: Seq<u8>, offset: int, n: int) -> Result<
    nat,
    DeserializationError,
>
    decreases n,
{
    if n <= 0 {
        Ok(0)
    } else {
        match spec_scan_entries(s, offset, n - 1) {
            Err(e) => Err(e),
            Ok(c) => match MastNodeType::spec_decode(le_u64_at(s, offset + 8 * (n - 1))) {
                Err(e) => Err(e),
                Ok(t) => Ok(
                    c + if t is External {
                        1nat
                    } else {
                        0nat
                    },
                ),
            },
        }
    }
}

/// The digest sections and the advice map offset, given where the node entries end and how many
/// external nodes there are.
pub open spec fn spec_digest_sections(
    s: Seq<u8>,
    flags: u8,
    node_count: usize,
    external_count: nat,
    external_digest_offset: int,
) -> Result<(Option<usize>, usize), DeserializationError> {
    match spec_section_end(s, external_digest_offset, external_count as int, 32) {
        Err(e) => Err(e),
        Ok(after_external) => if flags == 3 {
            Ok((None, after_external as usize))
        } else {
            match spec_section_end(s, after_external, node_count - external_count, 32) {
                Err(e) => Err(e),
                Ok(after_hashes) => Ok((Some(after_external as usize), after_hashes as usize)),
            }
        },
    }
}

/// The flags and layout of a serialized forest, or the first error met while scanning it.
pub open spec fn spec_scan_layout(s: Seq<u8>, allow_hashless: bool) -> Result<
    (u8, ForestLayout),
    DeserializationError,
> {
    match spec_read_flags(s, allow_hashless) {
        Err(e) => Err(e),
        Ok(flags) => match spec_read_usize(s, 8) {
            Err(e) => Err(e),
            Ok((node_count, o1)) => match spec_read_usize(s, o1) {
                Err(e) => Err(e),
                Ok((_decorator_count, o2)) => match spec_read_usize(s, o2) {
                    Err(e) => Err(e),
                    Ok((roots_count, roots_offset)) => match spec_section_end(
                        s,
                        roots_offset,
                        roots_count as int,
                        4,
                    ) {
                        Err(e) => Err(e),
                        Ok(o4) => match spec_read_usize(s, o4) {
                            Err(e) => Err(e),
                            Ok((basic_block_len, basic_block_offset)) => match spec_section_end(
                                s,
                                basic_block_offset,
                                basic_block_len as int,
                                1,
                            ) {
                                Err(e) => Err(e),
                                Ok(node_entry_offset) => match spec_section_end(
                                    s,
                                    node_entry_offset,
                                    node_count as int,
                                    8,
                                ) {
                                    Err(e) => Err(e),
                                    Ok(external_digest_offset) => match spec_scan_entries(
                                        s,
                                        node_entry_offset,
                                        node_count as int,
                                    ) {
                                        Err(e) => Err(e),
                                        Ok(external_count) => match spec_digest_sections(
                                            s,
                                            flags,
                                            node_count,
                                            external_count,
                                            external_digest_offset,
                                        ) {
                                            Err(e) => Err(e),
                                            Ok((node_hash_offset, advice_map_offset)) => Ok(
                                                (
                                                    flags,
                                                    ForestLayout {
                                                        node_count,
                                                        roots_count,
                                                        roots_offset: roots_offset as usize,
                                                        basic_block_offset: basic_block_offset
                                                            as usize,
                                                        basic_block_len,
                                                        node_entry_offset: node_entry_offset
                                                            as usize,
                                                        external_digest_offset:
                                                            external_digest_offset as usize,
                                                        node_hash_offset,
                                                        advice_map_offset,
                                                    },
                                                ),
                                            ),
                                        },
                                    },
                                },
                            },
                        },
                    },
                },
            },
        },
    }
}

// SCANNING
// ================================================================================================

/// Checks the header and returns its flags byte.
fn read_flags(bytes: &[u8], allow_hashless: bool) -> (r: Result<u8, DeserializationError>)
    ensures
        r == spec_read_flags(bytes@, allow_hashless),
{
    if bytes.len() < 4 {
        return Err(DeserializationError::UnexpectedEOF);
    }
    if bytes[0] != 0x4d || bytes[1] != 0x41 || bytes[2] != 0x53 || bytes[3] != 0x54 {
        proof {
            if bytes@.subrange(0, 4) == magic_bytes() {
                assert(bytes@.subrange(0, 4)[0] == bytes@[0]);
                assert(bytes@.subrange(0, 4)[1] == bytes@[1]);
                assert(bytes@.subrange(0, 4)[2] == bytes@[2]);
                assert(bytes@.subrange(0, 4)[3] == bytes@[3]);
            }
        }
        return Err(DeserializationError::InvalidValue(InvalidValue::BadMagic));
    }
    assert(bytes@.subrange(0, 4) =~= magic_bytes());
    if bytes.len() < 5 {
        return Err(DeserializationError::UnexpectedEOF);
    }
    let flags = bytes[4];
    if flags & FLAGS_RESERVED_MASK != 0 {
        assert(flags & 0xfcu8 != 0u8 ==> flags >= 4) by (bit_vector);
        return Err(DeserializationError::InvalidValue(InvalidValue::ReservedFlags(flags)));
    }
    assert(flags & 0xfcu8 == 0u8 ==> flags < 4) by (bit_vector);
    let stripped = flags & FLAG_STRIPPED != 0;
    let hashless = flags & FLAG_HASHLESS != 0;
    assert(flags < 4 ==> ((flags & 2u8 != 0u8 && !(flags & 1u8 != 0u8)) == (flags == 2) && (
    flags & 2u8 != 0u8 && flags & 1u8 != 0u8) == (flags == 3))) by (bit_vector);
    if hashless && !stripped {
        return Err(DeserializationError::InvalidValue(InvalidValue::HashlessNotStripped));
    }
    if hashless && !allow_hashless {
        return Err(DeserializationError::InvalidValue(InvalidValue::HashlessRejected));
    }
    if bytes.len() < 8 {
        return Err(DeserializationError::UnexpectedEOF);
    }
    if bytes[5] != 0 || bytes[6] != 0 || bytes[7] != 4 {
        proof {
            if bytes@.subrange(5, 8) == version_bytes() {
                assert(bytes@.subrange(5, 8)[0] == bytes@[5]);
                assert(bytes@.subrange(5, 8)[1] == bytes@[6]);
                assert(bytes@.subrange(5, 8)[2] == bytes@[7]);
            }
        }
        return Err(DeserializationError::InvalidValue(InvalidValue::UnsupportedVersion));
    }
    assert(bytes@.subrange(5, 8) =~= version_bytes());
    Ok(flags)
}

/// The end of a section of `count` items of `size` bytes that starts at `offset`.
fn section_end(bytes: &[u8], offset: usize, count: usize, size: usize) -> (r: Result<
    usize,
    DeserializationError,
>)
    ensures
        match spec_section_end(bytes@, offset as int, count as int, size as int) {
            Ok(end) => r == Ok::<usize, DeserializationError>(end as usize),
            Err(e) => r == Err::<usize, DeserializationError>(e),
        },
{
    let len = match count.checked_mul(size) {
        Some(len) => len,
        None => {
            return Err(DeserializationError::InvalidValue(InvalidValue::OffsetOverflow));
        },
    };
    let end = match offset.checked_add(len) {
        Some(end) => end,
        None => {
            return Err(DeserializationError::InvalidValue(InvalidValue::OffsetOverflow));
        },
    };
    if end > bytes.len() {
        return Err(DeserializationError::UnexpectedEOF);
    }
    Ok(end)
}

/// Decodes the `node_count` entries at `offset` and counts the external nodes among them.
fn scan_entries(bytes: &[u8], offset: usize, node_count: usize) -> (r: Result<
    usize,
    DeserializationError,
>)
    requires
        offset + 8 * node_count <= bytes@.len(),
    ensures
        match spec_scan_entries(bytes@, offset as int, node_count as int) {
            Ok(c) => r == Ok::<usize, DeserializationError>(c as usize),
            Err(e) => r == Err::<usize, DeserializationError>(e),
        },
{
    let total = bytes.len();
    let mut external_count: usize = 0;
    let mut i: usize = 0;
    while i < node_count
        invariant
            total == bytes@.len(),
            offset + 8 * node_count <= bytes@.len(),
            i <= node_count,
            spec_scan_entries(bytes@, offset as int, i as int) == Ok::<nat, DeserializationError>(
                external_count as nat,
            ),
            external_count <= i,
        decreases node_count - i,
    {
        let mut cursor: usize = offset + 8 * i;
        let entry = match MastNodeEntry::read_from(bytes, &mut cursor) {
            Ok(entry) => entry,
            Err(e) => {
                proof {
                    lemma_scan_entries_err_stable(bytes@, offset as int, i as int + 1, node_count as int);
                }
                return Err(e);
            },
        };
        if let MastNodeType::External = entry.node_type() {
            external_count = external_count + 1;
        }
        i = i + 1;
    }
    Ok(external_count)
}

/// Checks the header of a serialized forest and finds the offsets of its sections.
///
/// The node entries are decoded on the way (to count the external nodes, whose digests have
/// their own section); the digests, the advice map and the debug info are not read.
pub fn read_header_and_scan_layout(bytes: &[u8], allow_hashless: bool) -> (r: Result<
    (WireFlags, ForestLayout),
    DeserializationError,
>)
    ensures
        match spec_scan_layout(bytes@, allow_hashless) {
            Ok((flags, layout)) => r is Ok && r->Ok_0.0.spec_bits() == flags && r->Ok_0.1
                == layout,
            Err(e) => r == Err::<(WireFlags, ForestLayout), DeserializationError>(e),
        },
        r is Ok ==> layout_valid(bytes@, r->Ok_0.0.spec_bits(), r->Ok_0.1),
{
    let _total = bytes.len();
    let flags = read_flags(bytes, allow_hashless)?;
    let mut offset: usize = 8;
    let node_count = read_usize_at(bytes, &mut offset)?;
    let _decorator_count = read_usize_at(bytes, &mut offset)?;
    let roots_count = read_usize_at(bytes, &mut offset)?;
    let roots_offset = offset;
    let basic_block_len_offset = section_end(bytes, roots_offset, roots_count, 4)?;
    offset = basic_block_len_offset;
    let basic_block_len = read_usize_at(bytes, &mut offset)?;
    let basic_block_offset = offset;
    let node_entry_offset = section_end(bytes, basic_block_offset, basic_block_len, 1)?;
    let external_digest_offset = section_end(bytes, node_entry_offset, node_count, 8)?;
    let external_count = scan_entries(bytes, node_entry_offset, node_count)?;
    proof {
        lemma_scan_entries_bound(bytes@, node_entry_offset as int, node_count as int);
    }
    let after_external = section_end(bytes, external_digest_offset, external_count, 32)?;
    let hashless = flags == 3;
    let (node_hash_offset, advice_map_offset) = if hashless {
        (None, after_external)
    } else {
        let after_hashes = section_end(
            bytes,
            after_external,
            node_count - external_count,
            32,
        )?;
        (Some(after_external), after_hashes)
    };
    proof {
        lemma_scan_layout_valid(bytes@, allow_hashless);
    }
    Ok(
        (
            WireFlags { bits: flags },
            ForestLayout {
                node_count,
                roots_count,
                roots_offset,
                basic_block_offset,
                basic_block_len,
                node_entry_offset,
                external_digest_offset,
                node_hash_offset,
                advice_map_offset,
            },
        ),
    )
}

/// Once an entry fails to decode, every longer scan fails with its error.
pub proof fn lemma_scan_entries_err_stable(s: Seq<u8>, offset: int, k: int, m: int)
    requires
        k <= m,
        spec_scan_entries(s, offset, k) is Err,
    ensures
        spec_scan_entries(s, offset, m) == spec_scan_entries(s, offset, k),
    decreases m - k,
{
    if k < m {
        lemma_scan_entries_err_stable(s, offset, k, m - 1);
    }
}

/// The number of external nodes among `n` entries is at most `n`.
pub proof fn lemma_scan_entries_bound(s: Seq<u8>, offset: int, n: int)
    ensures
        spec_scan_entries(s, offset, n) matches Ok(c) ==> c <= if n < 0 {
            0
        } else {
            n
        },
    decreases n,
{
    if n > 0 {
        lemma_scan_entries_bound(s, offset, n - 1);
    }
}

// RANDOM ACCESS
// ================================================================================================

/// The `entry_size` bytes of item `index` of the fixed-width section that starts at
/// `section_offset`.
pub fn read_fixed_section_entry<'a>(
    bytes: &'a [u8],
    section_offset: usize,
    entry_size: usize,
    index: usize,
) -> (r: Result<&'a [u8], DeserializationError>)
    ensures
        ({
            let start = section_offset + index * entry_size;
            let end = start + entry_size;
            &&& end <= bytes@.len() ==> r is Ok && r->Ok_0@ == bytes@.subrange(start, end)
            &&& bytes@.len() < end <= usize::MAX ==> r == Err::<&[u8], DeserializationError>(
                DeserializationError::UnexpectedEOF,
            )
            &&& end > usize::MAX ==> r == Err::<&[u8], DeserializationError>(
                DeserializationError::InvalidValue(InvalidValue::OffsetOverflow),
            )
        }),
{
    let _total = bytes.len();
    let relative = match index.checked_mul(entry_size) {
        Some(relative) => relative,
        None => {
            return Err(DeserializationError::InvalidValue(InvalidValue::OffsetOverflow));
        },
    };
    let mut start = match section_offset.checked_add(relative) {
        Some(start) => start,
        None => {
            return Err(DeserializationError::InvalidValue(InvalidValue::OffsetOverflow));
        },
    };
    read_slice_at(bytes, &mut start, entry_size)
}

/// The little-endian `u32` in the first four bytes of a slice of `bytes` taken at `start`.
proof fn lemma_u32_of_subrange(bytes: Seq<u8>, start: int, t: Seq<u8>)
    requires
        0 <= start,
        start + 4 <= bytes.len(),
        t == bytes.subrange(start, start + 4),
    ensures
        le_u32_at(t, 0) == le_u32_at(bytes, start),
{
    assert(t[0] == bytes[start] && t[1] == bytes[start + 1] && t[2] == bytes[start + 2] && t[3]
        == bytes[start + 3]);
}

/// The little-endian `u64` in the first eight bytes of a slice of `bytes` taken at `start`.
proof fn lemma_u64_of_subrange(bytes: Seq<u8>, start: int, t: Seq<u8>)
    requires
        0 <= start,
        start + 8 <= bytes.len(),
        t == bytes.subrange(start, start + 8),
    ensures
        le_u64_at(t, 0) == le_u64_at(bytes, start),
{
    assert(t[0] == bytes[start] && t[1] == bytes[start + 1] && t[2] == bytes[start + 2] && t[3]
        == bytes[start + 3] && t[4] == bytes[start + 4] && t[5] == bytes[start + 5] && t[6]
        == bytes[start + 6] && t[7] == bytes[start + 7]);
}

impl ForestLayout {
    /// Reads and decodes the entry of node `index`.
    pub fn read_node_entry_at(&self, bytes: &[u8], index: usize) -> (r: Result<
        MastNodeEntry,
        DeserializationError,
    >)
        ensures
            index >= self.node_count ==> r == Err::<MastNodeEntry, DeserializationError>(
                DeserializationError::InvalidValue(
                    InvalidValue::NodeIndexOutOfBounds { index, node_count: self.node_count },
                ),
            ),
            index < self.node_count && self.node_entry_offset + 8 * index + 8 <= bytes@.len()
                ==> match MastNodeType::spec_decode(
                le_u64_at(bytes@, self.node_entry_offset + 8 * index),
            ) {
                Ok(t) => r is Ok && r->Ok_0.spec_node_type() == t,
                Err(e) => r == Err::<MastNodeEntry, DeserializationError>(e),
            },
            index < self.node_count && self.node_entry_offset + 8 * index + 8 > bytes@.len()
                ==> r == Err::<MastNodeEntry, DeserializationError>(
                short_read_error(self.node_entry_offset + 8 * index, 8),
            ),
    {
        if index >= self.node_count {
            return Err(
                DeserializationError::InvalidValue(
                    InvalidValue::NodeIndexOutOfBounds { index, node_count: self.node_count },
                ),
            );
        }
        let slice = read_fixed_section_entry(bytes, self.node_entry_offset, 8, index)?;
        proof {
            lemma_u64_of_subrange(bytes@, self.node_entry_offset + 8 * index, slice@);
        }
        let ty = MastNodeType::read_from_bytes(slice)?;
        Ok(MastNodeEntry::from_node_type(ty))
    }

    /// Reads the procedure root at `index`, checking that it names a node of the forest.
    pub fn read_procedure_root_at(&self, bytes: &[u8], index: usize) -> (r: Result<
        MastNodeId,
        DeserializationError,
    >)
        ensures
            index >= self.roots_count ==> r == Err::<MastNodeId, DeserializationError>(
                DeserializationError::InvalidValue(
                    InvalidValue::RootIndexOutOfBounds { index, root_count: self.roots_count },
                ),
            ),
            index < self.roots_count && self.roots_offset + 4 * index + 4 <= bytes@.len() ==> {
                let id = le_u32_at(bytes@, self.roots_offset + 4 * index);
                &&& id < self.node_count ==> r == Ok::<MastNodeId, DeserializationError>(
                    MastNodeId(id),
                )
                &&& id >= self.node_count ==> r == Err::<MastNodeId, DeserializationError>(
                    DeserializationError::InvalidValue(
                        InvalidValue::ChildOutOfBounds {
                            child_id: id,
                            node_count: self.node_count,
                        },
                    ),
                )
            },
            index < self.roots_count && self.roots_offset + 4 * index + 4 > bytes@.len() ==> r
                == Err::<MastNodeId, DeserializationError>(
                short_read_error(self.roots_offset + 4 * index, 4),
            ),
    {
        if index >= self.roots_count {
            return Err(
                DeserializationError::InvalidValue(
                    InvalidValue::RootIndexOutOfBounds { index, root_count: self.roots_count },
                ),
            );
        }
        let slice = read_fixed_section_entry(bytes, self.roots_offset, 4, index)?;
        proof {
            lemma_u32_of_subrange(bytes@, self.roots_offset + 4 * index, slice@);
        }
        let mut cursor: usize = 0;
        let id = read_u32_at(slice, &mut cursor)?;
        MastNodeId::from_u32_with_node_count(id, self.node_count)
    }
}

// VALID LAYOUTS
// ================================================================================================

/// The decoded type of node entry `i` of a layout.
pub open spec fn entry_type_at(s: Seq<u8>, layout: ForestLayout, i: int) -> Result<
    MastNodeType,
    DeserializationError,
> {
    MastNodeType::spec_decode(le_u64_at(s, layout.node_entry_offset + 8 * i))
}

/// Number of external nodes among the first `i` entries of a layout.
pub open spec fn external_before(s: Seq<u8>, layout: ForestLayout, i: int) -> nat
    decreases i,
{
    if i <= 0 {
        0
    } else {
        external_before(s, layout, i - 1) + if entry_type_at(s, layout, i - 1) matches Ok(
            MastNodeType::External,
        ) {
            1nat
        } else {
            0nat
        }
    }
}

/// The slot of node `i` in its digest section: the number of nodes before it whose digests go
/// to the same section.
pub open spec fn digest_slot(s: Seq<u8>, layout: ForestLayout, i: int) -> nat {
    if entry_type_at(s, layout, i) matches Ok(MastNodeType::External) {
        external_before(s, layout, i)
    } else {
        (i - external_before(s, layout, i)) as nat
    }
}

/// What a successful scan establishes of a layout: every section lies within the bytes, the
/// sections follow each other, every node entry decodes, and the node-hash section is present
/// exactly when the flags do not say HASHLESS.
pub open spec fn layout_valid(s: Seq<u8>, flags: u8, layout: ForestLayout) -> bool {
    let n = layout.node_count as int;
    let ext = external_before(s, layout, n);
    &&& s.len() <= usize::MAX
    &&& flags == 0 || flags == 1 || flags == 3
    &&& layout.roots_offset + 4 * layout.roots_count <= layout.basic_block_offset
    &&& layout.basic_block_offset + layout.basic_block_len == layout.node_entry_offset
    &&& layout.node_entry_offset + 8 * n == layout.external_digest_offset
    &&& layout.external_digest_offset + 32 * ext <= s.len()
    &&& forall|i: int| 0 <= i < n ==> #[trigger] entry_type_at(s, layout, i) is Ok
    &&& ext <= n
    &&& (flags == 3 <==> layout.node_hash_offset is None)
    &&& layout.node_hash_offset matches Some(h) ==> h == layout.external_digest_offset + 32 * ext
        && h + 32 * (n - ext) <= s.len()
}

/// The scan of the entries counts the external nodes among them.
proof fn lemma_scan_entries_ok(s: Seq<u8>, layout: ForestLayout, k: int, c: nat)
    requires
        0 <= k,
        spec_scan_entries(s, layout.node_entry_offset as int, k) == Ok::<nat, DeserializationError>(
            c,
        ),
    ensures
        c == external_before(s, layout, k),
        c <= k,
        forall|i: int| 0 <= i < k ==> #[trigger] entry_type_at(s, layout, i) is Ok,
    decreases k,
{
    if k > 0 {
        let prev = spec_scan_entries(s, layout.node_entry_offset as int, k - 1);
        if prev is Err {
            assert(spec_scan_entries(s, layout.node_entry_offset as int, k) == prev);
        }
        let c1 = prev->Ok_0;
        lemma_scan_entries_ok(s, layout, k - 1, c1);
        assert forall|i: int| 0 <= i < k implies #[trigger] entry_type_at(s, layout, i) is Ok by {
            if i < k - 1 {
                assert(entry_type_at(s, layout, i) is Ok);
            }
        }
    }
}

/// A layout that the scan returns is valid.
pub proof fn lemma_scan_layout_valid(s: Seq<u8>, allow_hashless: bool)
    requires
        s.len() <= usize::MAX,
        spec_scan_layout(s, allow_hashless) is Ok,
    ensures
        ({
            let (flags, layout) = spec_scan_layout(s, allow_hashless)->Ok_0;
            layout_valid(s, flags, layout)
        }),
{
    let (flags, layout) = spec_scan_layout(s, allow_hashless)->Ok_0;
    let n = layout.node_count as int;
    let c = spec_scan_entries(s, layout.node_entry_offset as int, n)->Ok_0;
    lemma_scan_entries_ok(s, layout, n, c);
}

/// The node type of entry `index`, as random access reads it from a valid layout.
pub open spec fn spec_entry_at(s: Seq<u8>, layout: ForestLayout, index: int) -> Result<
    MastNodeType,
    DeserializationError,
> {
    if index < 0 || index >= layout.node_count {
        Err(
            DeserializationError::InvalidValue(
                InvalidValue::NodeIndexOutOfBounds {
                    index: index as usize,
                    node_count: layout.node_count,
                },
            ),
        )
    } else {
        entry_type_at(s, layout, index)
    }
}

/// The procedure root `index`, as random access reads it from a valid layout.
pub open spec fn spec_root_at(s: Seq<u8>, layout: ForestLayout, index: int) -> Result<
    MastNodeId,
    DeserializationError,
> {
    if index < 0 || index >= layout.roots_count {
        Err(
            DeserializationError::InvalidValue(
                InvalidValue::RootIndexOutOfBounds {
                    index: index as usize,
                    root_count: layout.roots_count,
                },
            ),
        )
    } else {
        let id = le_u32_at(s, layout.roots_offset + 4 * index);
        if id < layout.node_count {
            Ok(MastNodeId(id))
        } else {
            Err(
                DeserializationError::InvalidValue(
                    InvalidValue::ChildOutOfBounds { child_id: id, node_count: layout.node_count },
                ),
            )
        }
    }
}

} // verus!
