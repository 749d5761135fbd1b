//! A serialized forest whose digest source has been resolved: digests come from the wire
//! sections, or, for HASHLESS input, from a table rebuilt once by hashing every node.

use vstd::prelude::*;
use miden_crypto::Felt;
use miden_crypto::hash::poseidon2::Poseidon2;
use crate::bytes::{DeserializationError, InvalidValue, short_read_error};
use crate::field::Word;
use crate::info::{MastNodeEntry, MastNodeType, spec_builder};
use crate::layout::{
    ForestLayout, digest_slot, entry_type_at, external_before, layout_valid,
    read_fixed_section_entry, spec_entry_at, spec_root_at,
};
use crate::node::{MastNodeBuilder, MastNodeId};
use crate::word_io::{read_word_at, spec_word_at};

verus! {

// HASHING
// ================================================================================================

/// The Poseidon2 digest of a sequence of base field elements.
pub uninterp spec fn spec_hash_elements(elements: Seq<u64>) -> Word;

/// The Poseidon2 digest of two digests merged in a domain.
pub uninterp spec fn spec_merge_in_domain(values: (Word, Word), domain: u64) -> Word;

/// Hashes field elements with miden-crypto's `Poseidon2::hash_elements`; the claim is only
/// that the digest, read as canonical values, is a function of the elements.
#[verifier::external_body]
fn hash_elements(elements: &[u64]) -> (r: Word)
    ensures
        r == spec_hash_elements(elements@),
{
    let felts: Vec<Felt> = elements.iter().map(|e| Felt::new(*e)).collect();
    let d = Poseidon2::hash_elements(&felts);
    Word {
        a: d[0].as_canonical_u64(),
        b: d[1].as_canonical_u64(),
        c: d[2].as_canonical_u64(),
        d: d[3].as_canonical_u64(),
    }
}

/// Merges two digests in a domain with miden-crypto's `Poseidon2::merge_in_domain`; the claim
/// is only that the digest, read as canonical values, is a function of its arguments.
#[verifier::external_body]
fn merge_in_domain(first: &Word, second: &Word, domain: u64) -> (r: Word)
    ensures
        r == spec_merge_in_domain((*first, *second), domain),
{
    let x = miden_crypto::Word::new([Felt::new(first.a), Felt::new(first.b), Felt::new(first.c), Felt::new(first.d)]);
    let y = miden_crypto::Word::new([Felt::new(second.a), Felt::new(second.b), Felt::new(second.c), Felt::new(second.d)]);
    let d = Poseidon2::merge_in_domain(&[x, y], Felt::new(domain));
    Word {
        a: d[0].as_canonical_u64(),
        b: d[1].as_canonical_u64(),
        c: d[2].as_canonical_u64(),
        d: d[3].as_canonical_u64(),
    }
}

// SECTION ACCESS
// ================================================================================================

/// Reads digest `index` of the digest section at `digest_section_offset`.
pub fn read_digest_entry(bytes: &[u8], digest_section_offset: usize, index: usize) -> (r: Result<
    Word,
    DeserializationError,
>)
    ensures
        digest_section_offset + 32 * index + 32 <= bytes@.len() ==> match spec_word_at(
            bytes@,
            digest_section_offset + 32 * index,
        ) {
            Some(w) => r == Ok::<Word, DeserializationError>(w),
            None => r == Err::<Word, DeserializationError>(
                DeserializationError::InvalidValue(InvalidValue::NonCanonicalDigest),
            ),
        },
        digest_section_offset + 32 * index + 32 > bytes@.len() ==> r == Err::<
            Word,
            DeserializationError,
        >(short_read_error(digest_section_offset + 32 * index, 32)),
{
    let slice = read_fixed_section_entry(bytes, digest_section_offset, 32, index)?;
    let ghost start = digest_section_offset + 32 * index;
    proof {
        assert forall|k: int| 0 <= k < 32 implies #[trigger] slice@[k] == bytes@[start + k] by {}
        assert(spec_word_at(slice@, 0) == spec_word_at(bytes@, start));
    }
    let mut cursor: usize = 0;
    read_word_at(slice, &mut cursor)
}

/// The basic-block data section.
pub fn basic_block_data(bytes: &[u8], basic_block_offset: usize, basic_block_len: usize) -> (r:
    Result<&[u8], DeserializationError>)
    ensures
        basic_block_offset + basic_block_len <= bytes@.len() ==> r is Ok && r->Ok_0@
            == bytes@.subrange(
            basic_block_offset as int,
            basic_block_offset + basic_block_len,
        ),
        bytes@.len() < basic_block_offset + basic_block_len <= usize::MAX ==> r == Err::<
            &[u8],
            DeserializationError,
        >(DeserializationError::UnexpectedEOF),
        basic_block_offset + basic_block_len > usize::MAX ==> r == Err::<
            &[u8],
            DeserializationError,
        >(DeserializationError::InvalidValue(InvalidValue::OffsetOverflow)),
{
    let _total = bytes.len();
    let end = match basic_block_offset.checked_add(basic_block_len) {
        Some(end) => end,
        None => {
            return Err(DeserializationError::InvalidValue(InvalidValue::OffsetOverflow));
        },
    };
    if end > bytes.len() {
        return Err(DeserializationError::UnexpectedEOF);
    }
    Ok(vstd::slice::slice_subrange(bytes, basic_block_offset, end))
}

/// The index of a child of node `parent_index`, which must name an earlier node of the forest.
pub fn checked_child_index(parent_index: usize, child_id: u32, node_count: usize) -> (r: Result<
    usize,
    DeserializationError,
>)
    ensures
        child_id >= node_count ==> r == Err::<usize, DeserializationError>(
            DeserializationError::InvalidValue(InvalidValue::ChildOutOfBounds { child_id, node_count }),
        ),
        child_id < node_count && child_id >= parent_index ==> r == Err::<
            usize,
            DeserializationError,
        >(DeserializationError::InvalidValue(InvalidValue::ForwardReference { parent_index, child_id })),
        child_id < node_count && child_id < parent_index ==> r == Ok::<usize, DeserializationError>(
            child_id as usize,
        ),
{
    let child_index = child_id as usize;
    if child_index >= node_count {
        return Err(
            DeserializationError::InvalidValue(InvalidValue::ChildOutOfBounds { child_id, node_count }),
        );
    }
    if child_index >= parent_index {
        return Err(
            DeserializationError::InvalidValue(
                InvalidValue::ForwardReference { parent_index, child_id },
            ),
        );
    }
    Ok(child_index)
}

// DIGEST SLOTS
// ================================================================================================

/// The count of external nodes never decreases, and grows by at most one per node.
proof fn lemma_external_before_mono(s: Seq<u8>, layout: ForestLayout, i: int, j: int)
    requires
        0 <= i <= j,
    ensures
        external_before(s, layout, i) <= external_before(s, layout, j),
        external_before(s, layout, j) - external_before(s, layout, i) <= j - i,
    decreases j - i,
{
    if i < j {
        lemma_external_before_mono(s, layout, i, j - 1);
    }
}

/// For each node, its slot in its digest section.
fn build_digest_slot_by_node(bytes: &[u8], layout: &ForestLayout, Ghost(flags): Ghost<u8>) -> (r:
    Result<Vec<u32>, DeserializationError>)
    requires
        layout_valid(bytes@, flags, *layout),
    ensures
        ({
            let n = layout.node_count as int;
            let ext = external_before(bytes@, *layout, n);
            &&& ext <= u32::MAX && n - ext <= u32::MAX ==> r is Ok && r->Ok_0@.len() == n && (
            forall|i: int|
                0 <= i < n ==> #[trigger] r->Ok_0@[i] == digest_slot(bytes@, *layout, i))
            &&& !(ext <= u32::MAX && n - ext <= u32::MAX) ==> r == Err::<
                Vec<u32>,
                DeserializationError,
            >(DeserializationError::InvalidValue(InvalidValue::SlotOverflow))
        }),
{
    let ghost s = bytes@;
    let ghost n = layout.node_count as int;
    let mut slots: Vec<u32> = Vec::with_capacity(layout.node_count);
    let mut external_slot: u32 = 0;
    let mut node_hash_slot: u32 = 0;

    let mut index: usize = 0;
    while index < layout.node_count
        invariant
            s == bytes@,
            n == layout.node_count,
            layout_valid(s, flags, *layout),
            index <= n,
            external_slot == external_before(s, *layout, index as int),
            node_hash_slot == index - external_before(s, *layout, index as int),
            slots@.len() == index,
            forall|i: int| 0 <= i < index ==> #[trigger] slots@[i] == digest_slot(s, *layout, i),
        decreases n - index,
    {
        proof {
            lemma_external_before_mono(s, *layout, index as int, n);
            lemma_external_before_mono(s, *layout, index as int + 1, n);
            assert(entry_type_at(s, *layout, index as int) is Ok);
        }
        let entry = layout.read_node_entry_at(bytes, index)?;
        if let MastNodeType::External = entry.node_type() {
            slots.push(external_slot);
            external_slot = match external_slot.checked_add(1) {
                Some(next) => next,
                None => {
                    return Err(DeserializationError::InvalidValue(InvalidValue::SlotOverflow));
                },
            };
        } else {
            slots.push(node_hash_slot);
            node_hash_slot = match node_hash_slot.checked_add(1) {
                Some(next) => next,
                None => {
                    return Err(DeserializationError::InvalidValue(InvalidValue::SlotOverflow));
                },
            };
        }
        index = index + 1;
    }
    Ok(slots)
}

// RECOMPUTING DIGESTS
// ================================================================================================

/// What recomputing the digests of a HASHLESS forest takes besides its bytes: the hashing
/// domain of each control node kind, the digests of the two dynamic node kinds, and the op
/// groups of the basic blocks, each keyed by the offset of the block's data in the basic-block
/// data section.
pub struct HashlessInputs {
    pub join_domain: u64,
    pub split_domain: u64,
    pub loop_domain: u64,
    pub call_domain: u64,
    pub syscall_domain: u64,
    pub dyn_digest: Word,
    pub dyncall_digest: Word,
    pub block_op_groups: Vec<(u32, Vec<u64>)>,
}

/// The op groups of the first of the first `k` entries keyed by `ops_offset`.
pub open spec fn find_block_groups(entries: Seq<(u32, Vec<u64>)>, ops_offset: u32, k: int) -> Option<
    Seq<u64>,
>
    decreases k,
{
    if k <= 0 {
        None
    } else {
        match find_block_groups(entries, ops_offset, k - 1) {
            Some(g) => Some(g),
            None => if entries[k - 1].0 == ops_offset {
                Some(entries[k - 1].1@)
            } else {
                None
            },
        }
    }
}

/// The index of a child, as [`checked_child_index`] checks it.
pub open spec fn spec_child(parent_index: int, child_id: u32, node_count: usize) -> Result<
    int,
    DeserializationError,
> {
    if child_id >= node_count {
        Err(DeserializationError::InvalidValue(InvalidValue::ChildOutOfBounds { child_id, node_count }))
    } else if child_id >= parent_index {
        Err(
            DeserializationError::InvalidValue(
                InvalidValue::ForwardReference { parent_index: parent_index as usize, child_id },
            ),
        )
    } else {
        Ok(child_id as int)
    }
}

/// A digest read from the wire, or the error of a non-canonical one.
pub open spec fn spec_digest_read(s: Seq<u8>, offset: int) -> Result<Word, DeserializationError> {
    match spec_word_at(s, offset) {
        Some(w) => Ok(w),
        None => Err(DeserializationError::InvalidValue(InvalidValue::NonCanonicalDigest)),
    }
}

/// The digest of a control node with one child merged with the zero word in `domain`.
pub open spec fn spec_single_child_digest(
    parent_index: int,
    child_id: u32,
    node_count: usize,
    prev: Seq<Word>,
    domain: u64,
) -> Result<Word, DeserializationError> {
    match spec_child(parent_index, child_id, node_count) {
        Err(e) => Err(e),
        Ok(c) => Ok(spec_merge_in_domain((prev[c], Word { a: 0, b: 0, c: 0, d: 0 }), domain)),
    }
}

/// The digest of a control node with two children merged in `domain`.
pub open spec fn spec_two_children_digest(
    parent_index: int,
    first_id: u32,
    second_id: u32,
    node_count: usize,
    prev: Seq<Word>,
    domain: u64,
) -> Result<Word, DeserializationError> {
    match spec_child(parent_index, first_id, node_count) {
        Err(e) => Err(e),
        Ok(a) => match spec_child(parent_index, second_id, node_count) {
            Err(e) => Err(e),
            Ok(b) => Ok(spec_merge_in_domain((prev[a], prev[b]), domain)),
        },
    }
}

/// The recomputed digest of node `i`, given the digests of the nodes before it.
pub open spec fn spec_recomputed_digest(
    s: Seq<u8>,
    layout: ForestLayout,
    inputs: HashlessInputs,
    i: int,
    prev: Seq<Word>,
) -> Result<Word, DeserializationError> {
    let n = layout.node_count;
    match entry_type_at(s, layout, i) {
        Err(e) => Err(e),
        Ok(t) => match t {
            MastNodeType::Block { ops_offset } => match find_block_groups(
                inputs.block_op_groups@,
                ops_offset,
                inputs.block_op_groups@.len() as int,
            ) {
                None => Err(DeserializationError::InvalidValue(InvalidValue::MissingBlockGroups(i as usize))),
                Some(g) => Ok(spec_hash_elements(g)),
            },
            MastNodeType::Join { left_child_id, right_child_id } => spec_two_children_digest(
                i,
                left_child_id,
                right_child_id,
                n,
                prev,
                inputs.join_domain,
            ),
            MastNodeType::Split { if_branch_id, else_branch_id } => spec_two_children_digest(
                i,
                if_branch_id,
                else_branch_id,
                n,
                prev,
                inputs.split_domain,
            ),
            MastNodeType::Loop { body_id } => spec_single_child_digest(
                i,
                body_id,
                n,
                prev,
                inputs.loop_domain,
            ),
            MastNodeType::Call { callee_id } => spec_single_child_digest(
                i,
                callee_id,
                n,
                prev,
                inputs.call_domain,
            ),
            MastNodeType::SysCall { callee_id } => spec_single_child_digest(
                i,
                callee_id,
                n,
                prev,
                inputs.syscall_domain,
            ),
            MastNodeType::Dyn => Ok(inputs.dyn_digest),
            MastNodeType::Dyncall => Ok(inputs.dyncall_digest),
            MastNodeType::External => spec_digest_read(
                s,
                layout.external_digest_offset + 32 * external_before(s, layout, i),
            ),
        },
    }
}

/// The recomputed digests of the first `k` nodes, or the first error met.
pub open spec fn spec_hash_table(
    s: Seq<u8>,
    layout: ForestLayout,
    inputs: HashlessInputs,
    k: int,
) -> Result<Seq<Word>, DeserializationError>
    decreases k,
{
    if k <= 0 {
        Ok(Seq::empty())
    } else {
        match spec_hash_table(s, layout, inputs, k - 1) {
            Err(e) => Err(e),
            Ok(prev) => match spec_recomputed_digest(s, layout, inputs, k - 1, prev) {
                Err(e) => Err(e),
                Ok(d) => Ok(prev.push(d)),
            },
        }
    }
}

/// Once the table fails, every longer table fails with the same error; a table of `k` nodes
/// has `k` digests.
proof fn lemma_hash_table_shape(s: Seq<u8>, layout: ForestLayout, inputs: HashlessInputs, k: int, m: int)
    requires
        0 <= k <= m,
    ensures
        spec_hash_table(s, layout, inputs, k) is Err ==> spec_hash_table(s, layout, inputs, m)
            == spec_hash_table(s, layout, inputs, k),
        spec_hash_table(s, layout, inputs, k) matches Ok(t) ==> t.len() == k,
    decreases m - k,
{
    if k < m {
        lemma_hash_table_shape(s, layout, inputs, k, m - 1);
    }
    lemma_hash_table_len(s, layout, inputs, k);
}

proof fn lemma_hash_table_len(s: Seq<u8>, layout: ForestLayout, inputs: HashlessInputs, k: int)
    requires
        0 <= k,
    ensures
        spec_hash_table(s, layout, inputs, k) matches Ok(t) ==> t.len() == k,
    decreases k,
{
    if k > 0 {
        lemma_hash_table_len(s, layout, inputs, k - 1);
    }
}

/// The op groups of the block whose data starts at `ops_offset`.
fn find_block_op_groups(inputs: &HashlessInputs, ops_offset: u32) -> (r: Option<&Vec<u64>>)
    ensures
        match find_block_groups(
            inputs.block_op_groups@,
            ops_offset,
            inputs.block_op_groups@.len() as int,
        ) {
            None => r is None,
            Some(g) => r is Some && r->Some_0@ == g,
        },
{
    let ghost entries = inputs.block_op_groups@;
    let mut j: usize = 0;
    while j < inputs.block_op_groups.len()
        invariant
            entries == inputs.block_op_groups@,
            j <= entries.len(),
            find_block_groups(entries, ops_offset, j as int) is None,
        decreases entries.len() - j,
    {
        if inputs.block_op_groups[j].0 == ops_offset {
            proof {
                lemma_find_stable(entries, ops_offset, j as int + 1, entries.len() as int);
            }
            return Some(&inputs.block_op_groups[j].1);
        }
        j = j + 1;
    }
    None
}

proof fn lemma_find_stable(entries: Seq<(u32, Vec<u64>)>, ops_offset: u32, k: int, m: int)
    requires
        k <= m,
        find_block_groups(entries, ops_offset, k) is Some,
    ensures
        find_block_groups(entries, ops_offset, m) == find_block_groups(entries, ops_offset, k),
    decreases m - k,
{
    if k < m {
        lemma_find_stable(entries, ops_offset, k, m - 1);
    }
}

/// Recomputes the digest of every node from the entries, children before parents; external
/// digests are read from their section.
fn recompute_hash_table(
    bytes: &[u8],
    layout: &ForestLayout,
    inputs: &HashlessInputs,
    Ghost(flags): Ghost<u8>,
) -> (r: Result<Vec<Word>, DeserializationError>)
    requires
        layout_valid(bytes@, flags, *layout),
    ensures
        match spec_hash_table(bytes@, *layout, *inputs, layout.node_count as int) {
            Ok(t) => r is Ok && r->Ok_0@ == t,
            Err(e) => r == Err::<Vec<Word>, DeserializationError>(e),
        },
{
    let ghost s = bytes@;
    let ghost n = layout.node_count as int;
    let mut digests: Vec<Word> = Vec::with_capacity(layout.node_count);
    let mut external_digest_index: usize = 0;

    let mut index: usize = 0;
    while index < layout.node_count
        invariant
            s == bytes@,
            n == layout.node_count,
            layout_valid(s, flags, *layout),
            index <= n,
            external_digest_index == external_before(s, *layout, index as int),
            spec_hash_table(s, *layout, *inputs, index as int) == Ok::<
                Seq<Word>,
                DeserializationError,
            >(digests@),
        decreases n - index,
    {
        proof {
            lemma_external_before_mono(s, *layout, index as int, n);
            lemma_external_before_mono(s, *layout, index as int + 1, n);
            lemma_hash_table_shape(s, *layout, *inputs, index as int, index as int);
            assert(entry_type_at(s, *layout, index as int) is Ok);
        }
        let ghost prev = digests@;
        let entry = layout.read_node_entry_at(bytes, index)?;
        let computed: Result<Word, DeserializationError> = match entry.node_type() {
            MastNodeType::Block { ops_offset } => match find_block_op_groups(inputs, ops_offset) {
                Some(op_groups) => Ok(hash_elements(op_groups.as_slice())),
                None => Err(DeserializationError::InvalidValue(InvalidValue::MissingBlockGroups(index))),
            },
            MastNodeType::Join { left_child_id, right_child_id } => {
                match checked_child_index(index, left_child_id, layout.node_count) {
                    Err(e) => Err(e),
                    Ok(left) => match checked_child_index(index, right_child_id, layout.node_count) {
                        Err(e) => Err(e),
                        Ok(right) => Ok(merge_in_domain(&digests[left], &digests[right], inputs.join_domain)),
                    },
                }
            },
            MastNodeType::Split { if_branch_id, else_branch_id } => {
                match checked_child_index(index, if_branch_id, layout.node_count) {
                    Err(e) => Err(e),
                    Ok(on_true) => match checked_child_index(index, else_branch_id, layout.node_count) {
                        Err(e) => Err(e),
                        Ok(on_false) => Ok(merge_in_domain(&digests[on_true], &digests[on_false], inputs.split_domain)),
                    },
                }
            },
            MastNodeType::Loop { body_id } => match checked_child_index(index, body_id, layout.node_count) {
                Err(e) => Err(e),
                Ok(body) => Ok(merge_in_domain(&digests[body], &crate::field::zero_word(), inputs.loop_domain)),
            },
            MastNodeType::Call { callee_id } => match checked_child_index(index, callee_id, layout.node_count) {
                Err(e) => Err(e),
                Ok(callee) => Ok(merge_in_domain(&digests[callee], &crate::field::zero_word(), inputs.call_domain)),
            },
            MastNodeType::SysCall { callee_id } => match checked_child_index(index, callee_id, layout.node_count) {
                Err(e) => Err(e),
                Ok(callee) => Ok(merge_in_domain(&digests[callee], &crate::field::zero_word(), inputs.syscall_domain)),
            },
            MastNodeType::Dyn => Ok(inputs.dyn_digest),
            MastNodeType::Dyncall => Ok(inputs.dyncall_digest),
            MastNodeType::External => {
                let digest = read_digest_entry(bytes, layout.external_digest_offset, external_digest_index);
                external_digest_index = external_digest_index + 1;
                digest
            },
        };
        assert(computed == spec_recomputed_digest(s, *layout, *inputs, index as int, prev));
        match computed {
            Ok(d) => digests.push(d),
            Err(e) => {
                proof {
                    lemma_hash_table_shape(s, *layout, *inputs, index as int + 1, n);
                }
                return Err(e);
            },
        }
        index = index + 1;
    }
    Ok(digests)
}

// RESOLVED FOREST
// ================================================================================================

/// The digest of node `index` of a valid layout: external digests come from their section;
/// the others from the rebuilt table when there is one, else from the node-hash section.
pub open spec fn spec_node_digest(
    s: Seq<u8>,
    layout: ForestLayout,
    table: Option<Seq<Word>>,
    index: int,
) -> Result<Word, DeserializationError> {
    match spec_entry_at(s, layout, index) {
        Err(e) => Err(e),
        Ok(MastNodeType::External) => spec_digest_read(
            s,
            layout.external_digest_offset + 32 * digest_slot(s, layout, index),
        ),
        Ok(_) => match table {
            Some(t) => Ok(t[index]),
            None => spec_digest_read(
                s,
                layout.node_hash_offset->Some_0 + 32 * digest_slot(s, layout, index),
            ),
        },
    }
}

/// The rebuilt digest table that resolving a valid layout gives (`None` when the node-hash
/// section is present), or the error met while resolving.
pub open spec fn spec_resolve(s: Seq<u8>, layout: ForestLayout, inputs: HashlessInputs) -> Result<
    Option<Seq<Word>>,
    DeserializationError,
> {
    let n = layout.node_count as int;
    let ext = external_before(s, layout, n);
    if !(ext <= u32::MAX && n - ext <= u32::MAX) {
        Err(DeserializationError::InvalidValue(InvalidValue::SlotOverflow))
    } else if layout.node_hash_offset is None {
        match spec_hash_table(s, layout, inputs, n) {
            Ok(t) => Ok(Some(t)),
            Err(e) => Err(e),
        }
    } else {
        Ok(None)
    }
}

/// The node builders of the first `k` nodes, or the first error met.
pub open spec fn spec_builders(
    s: Seq<u8>,
    layout: ForestLayout,
    table: Option<Seq<Word>>,
    k: int,
) -> Result<Seq<MastNodeBuilder>, DeserializationError>
    decreases k,
{
    if k <= 0 {
        Ok(Seq::empty())
    } else {
        match spec_builders(s, layout, table, k - 1) {
            Err(e) => Err(e),
            Ok(bs) => match spec_node_digest(s, layout, table, k - 1) {
                Err(e) => Err(e),
                Ok(d) => match spec_builder(
                    entry_type_at(s, layout, k - 1)->Ok_0,
                    layout.node_count,
                    d,
                ) {
                    Err(e) => Err(e),
                    Ok(b) => Ok(bs.push(b)),
                },
            },
        }
    }
}

/// The first `k` procedure roots, or the first error met.
pub open spec fn spec_roots(s: Seq<u8>, layout: ForestLayout, k: int) -> Result<
    Seq<MastNodeId>,
    DeserializationError,
>
    decreases k,
{
    if k <= 0 {
        Ok(Seq::empty())
    } else {
        match spec_roots(s, layout, k - 1) {
            Err(e) => Err(e),
            Ok(rs) => match spec_root_at(s, layout, k - 1) {
                Err(e) => Err(e),
                Ok(r) => Ok(rs.push(r)),
            },
        }
    }
}

/// Digest sources for a parsed serialized forest: the slot of each node in its digest section,
/// and the rebuilt digests when the node-hash section is absent.
struct ForestDigests {
    slot_by_node: Vec<u32>,
    hash_table: Option<Vec<Word>>,
}

/// A serialized forest whose digest source has been resolved.
pub struct ResolvedSerializedForest<'a> {
    bytes: &'a [u8],
    layout: ForestLayout,
    flags: Ghost<u8>,
    digests: ForestDigests,
}

impl<'a> ResolvedSerializedForest<'a> {
    /// The serialized bytes.
    pub closed spec fn spec_bytes(&self) -> Seq<u8> {
        self.bytes@
    }

    /// The layout of the bytes.
    pub closed spec fn spec_layout(&self) -> ForestLayout {
        self.layout
    }

    /// The rebuilt digests, if the node-hash section is absent.
    pub closed spec fn spec_table(&self) -> Option<Seq<Word>> {
        match self.digests.hash_table {
            Some(t) => Some(t@),
            None => None,
        }
    }

    /// The layout is valid, the slots are those of the layout, and a rebuilt table holds one
    /// digest per node exactly when the node-hash section is absent.
    pub closed spec fn wf(&self) -> bool {
        let s = self.bytes@;
        let n = self.layout.node_count as int;
        &&& layout_valid(s, self.flags@, self.layout)
        &&& self.digests.slot_by_node@.len() == n
        &&& forall|i: int|
            0 <= i < n ==> #[trigger] self.digests.slot_by_node@[i] == digest_slot(s, self.layout, i)
        &&& (self.layout.node_hash_offset is None <==> self.digests.hash_table is Some)
        &&& self.digests.hash_table matches Some(t) ==> t@.len() == n
    }

    /// Resolves digest access for a valid layout: computes the digest slots and, for HASHLESS
    /// input, rebuilds the digests of all nodes once.
    pub fn new(
        bytes: &'a [u8],
        layout: ForestLayout,
        inputs: &HashlessInputs,
        Ghost(flags): Ghost<u8>,
    ) -> (r: Result<Self, DeserializationError>)
        requires
            layout_valid(bytes@, flags, layout),
        ensures
            match spec_resolve(bytes@, layout, *inputs) {
                Ok(t) => r is Ok && r->Ok_0.wf() && r->Ok_0.spec_bytes() == bytes@
                    && r->Ok_0.spec_layout() == layout && r->Ok_0.spec_table() == t,
                Err(e) => r is Err && r->Err_0 == e,
            },
    {
        let slot_by_node = build_digest_slot_by_node(bytes, &layout, Ghost(flags))?;
        // If the node-hash section is absent, rebuild all non-external digests once and cache
        // them for later lookups.
        let hash_table = if layout.node_hash_offset.is_none() {
            let table = recompute_hash_table(bytes, &layout, inputs, Ghost(flags))?;
            proof {
                lemma_hash_table_len(bytes@, layout, *inputs, layout.node_count as int);
            }
            Some(table)
        } else {
            None
        };
        Ok(
            ResolvedSerializedForest {
                bytes,
                layout,
                flags: Ghost(flags),
                digests: ForestDigests { slot_by_node, hash_table },
            },
        )
    }

    /// The layout of the bytes.
    pub fn layout(&self) -> (r: ForestLayout)
        ensures
            r == self.spec_layout(),
    {
        self.layout
    }

    /// Number of nodes.
    pub fn node_count(&self) -> (r: usize)
        ensures
            r == self.spec_layout().node_count,
    {
        self.layout.node_count
    }

    /// Number of procedure roots.
    pub fn procedure_root_count(&self) -> (r: usize)
        ensures
            r == self.spec_layout().roots_count,
    {
        self.layout.roots_count
    }

    /// The procedure root at `index`.
    pub fn procedure_root_at(&self, index: usize) -> (r: Result<MastNodeId, DeserializationError>)
        requires
            self.wf(),
        ensures
            r == spec_root_at(self.spec_bytes(), self.spec_layout(), index as int),
    {
        proof {
            if index < self.layout.roots_count {
                assert(self.layout.roots_offset + 4 * index + 4 <= self.layout.roots_offset + 4
                    * self.layout.roots_count) by (nonlinear_arith)
                    requires
                        index < self.layout.roots_count,
                ;
            }
        }
        self.layout.read_procedure_root_at(self.bytes, index)
    }

    /// The entry of node `index`.
    pub fn node_entry_at(&self, index: usize) -> (r: Result<MastNodeEntry, DeserializationError>)
        requires
            self.wf(),
        ensures
            match spec_entry_at(self.spec_bytes(), self.spec_layout(), index as int) {
                Ok(t) => r is Ok && r->Ok_0.spec_node_type() == t,
                Err(e) => r == Err::<MastNodeEntry, DeserializationError>(e),
            },
    {
        proof {
            if index < self.layout.node_count {
                assert(entry_type_at(self.bytes@, self.layout, index as int) is Ok);
                assert(self.layout.node_entry_offset + 8 * index + 8 <= self.layout.node_entry_offset
                    + 8 * self.layout.node_count) by (nonlinear_arith)
                    requires
                        index < self.layout.node_count,
                ;
            }
        }
        self.layout.read_node_entry_at(self.bytes, index)
    }

    /// The digest of node `index`.
    pub fn node_digest_at(&self, index: usize) -> (r: Result<Word, DeserializationError>)
        requires
            self.wf(),
        ensures
            r == spec_node_digest(self.spec_bytes(), self.spec_layout(), self.spec_table(), index as int),
    {
        let entry = self.node_entry_at(index)?;
        self.node_digest_for_entry(index, entry)
    }

    /// The digest of node `index`, whose entry is `entry`.
    fn node_digest_for_entry(&self, index: usize, entry: MastNodeEntry) -> (r: Result<
        Word,
        DeserializationError,
    >)
        requires
            self.wf(),
            index < self.spec_layout().node_count,
            spec_entry_at(self.spec_bytes(), self.spec_layout(), index as int) == Ok::<
                MastNodeType,
                DeserializationError,
            >(entry.spec_node_type()),
        ensures
            r == spec_node_digest(self.spec_bytes(), self.spec_layout(), self.spec_table(), index as int),
    {
        let ghost s = self.bytes@;
        let ghost n = self.layout.node_count as int;
        proof {
            lemma_external_before_mono(s, self.layout, index as int, n);
            lemma_external_before_mono(s, self.layout, index as int + 1, n);
            lemma_external_before_mono(s, self.layout, 0, index as int);
        }
        let slot = self.digests.slot_by_node[index] as usize;
        assert(slot == digest_slot(s, self.layout, index as int));

        if let MastNodeType::External = entry.node_type() {
            return read_digest_entry(self.bytes, self.layout.external_digest_offset, slot);
        }
        match &self.digests.hash_table {
            Some(hash_table) => Ok(hash_table[index]),
            None => {
                proof {
                    assert(!(entry_type_at(s, self.layout, index as int) matches Ok(
                        MastNodeType::External,
                    )));
                    assert(external_before(s, self.layout, index as int + 1) == external_before(
                        s,
                        self.layout,
                        index as int,
                    ));
                    assert(slot as int + 1 <= n - external_before(s, self.layout, n));
                }
                let node_hash_offset = match self.layout.node_hash_offset {
                    Some(offset) => offset,
                    None => {
                        return Err(DeserializationError::InvalidValue(InvalidValue::NodeHashSectionAbsent));
                    },
                };
                read_digest_entry(self.bytes, node_hash_offset, slot)
            },
        }
    }

    /// The slot of node `index` in its digest section.
    pub fn digest_slot_at(&self, index: usize) -> (r: usize)
        requires
            self.wf(),
            index < self.spec_layout().node_count,
        ensures
            r == digest_slot(self.spec_bytes(), self.spec_layout(), index as int),
    {
        self.digests.slot_by_node[index] as usize
    }

    /// Turns every node into a node builder and reads every procedure root.
    pub fn materialize(&self) -> (r: Result<(Vec<MastNodeBuilder>, Vec<MastNodeId>), DeserializationError>)
        requires
            self.wf(),
        ensures
            match spec_builders(self.spec_bytes(), self.spec_layout(), self.spec_table(), self.spec_layout().node_count as int) {
                Err(e) => r == Err::<(Vec<MastNodeBuilder>, Vec<MastNodeId>), DeserializationError>(e),
                Ok(bs) => match spec_roots(self.spec_bytes(), self.spec_layout(), self.spec_layout().roots_count as int) {
                    Err(e) => r == Err::<(Vec<MastNodeBuilder>, Vec<MastNodeId>), DeserializationError>(e),
                    Ok(rs) => r is Ok && r->Ok_0.0@ == bs && r->Ok_0.1@ == rs,
                },
            },
    {
        let ghost s = self.bytes@;
        let ghost layout = self.layout;
        let ghost table = self.spec_table();
        let node_count = self.node_count();
        let mut builders: Vec<MastNodeBuilder> = Vec::with_capacity(node_count);
        let mut index: usize = 0;
        while index < node_count
            invariant
                self.wf(),
                s == self.spec_bytes(),
                layout == self.spec_layout(),
                table == self.spec_table(),
                node_count == layout.node_count,
                index <= node_count,
                spec_builders(s, layout, table, index as int) == Ok::<Seq<MastNodeBuilder>, DeserializationError>(builders@),
            decreases node_count - index,
        {
            let entry = self.node_entry_at(index)?;
            let digest = match self.node_digest_for_entry(index, entry) {
                Ok(d) => d,
                Err(e) => {
                    proof {
                        lemma_builders_err_stable(s, layout, table, index as int + 1, node_count as int);
                    }
                    return Err(e);
                },
            };
            let builder = match entry.try_into_mast_node_builder(node_count, digest) {
                Ok(b) => b,
                Err(e) => {
                    proof {
                        lemma_builders_err_stable(s, layout, table, index as int + 1, node_count as int);
                    }
                    return Err(e);
                },
            };
            builders.push(builder);
            index = index + 1;
        }
        let root_count = self.procedure_root_count();
        let mut roots: Vec<MastNodeId> = Vec::with_capacity(root_count);
        let mut k: usize = 0;
        while k < root_count
            invariant
                self.wf(),
                s == self.spec_bytes(),
                layout == self.spec_layout(),
                root_count == layout.roots_count,
                table == self.spec_table(),
                spec_builders(s, layout, table, layout.node_count as int) == Ok::<
                    Seq<MastNodeBuilder>,
                    DeserializationError,
                >(builders@),
                k <= root_count,
                spec_roots(s, layout, k as int) == Ok::<Seq<MastNodeId>, DeserializationError>(roots@),
            decreases root_count - k,
        {
            let root = match self.procedure_root_at(k) {
                Ok(root) => root,
                Err(e) => {
                    proof {
                        lemma_roots_err_stable(s, layout, k as int + 1, root_count as int);
                    }
                    return Err(e);
                },
            };
            roots.push(root);
            k = k + 1;
        }
        Ok((builders, roots))
    }
}

proof fn lemma_builders_err_stable(
    s: Seq<u8>,
    layout: ForestLayout,
    table: Option<Seq<Word>>,
    k: int,
    m: int,
)
    requires
        k <= m,
        spec_builders(s, layout, table, k) is Err,
    ensures
        spec_builders(s, layout, table, m) == spec_builders(s, layout, table, k),
    decreases m - k,
{
    if k < m {
        lemma_builders_err_stable(s, layout, table, k, m - 1);
    }
}

proof fn lemma_roots_err_stable(s: Seq<u8>, layout: ForestLayout, k: int, m: int)
    requires
        k <= m,
        spec_roots(s, layout, k) is Err,
    ensures
        spec_roots(s, layout, m) == spec_roots(s, layout, k),
    decreases m - k,
{
    if k < m {
        lemma_roots_err_stable(s, layout, k, m - 1);
    }
}

} // verus!
