//! The MAST forest as the wire format sees it, and its serialization.
//!
//! A serialized forest is, in order: the magic `MAST`, a flags byte, the version `[0, 0, 4]`,
//! the node count and the decorator count (vint64), the procedure roots (a vint64 count and
//! one little-endian `u32` each), the basic-block data (a vint64 length and the bytes), one
//! 8-byte entry per node, the digests of the external nodes, the digests of all other nodes
//! (left out in the HASHLESS format), the advice map, and the debug info (left out when
//! stripped).

use vstd::prelude::*;
use crate::bytes::{
    DeserializationError, InvalidValue, u32_le_bytes, vint64_bytes, vint64_len, write_bytes,
    write_u32, write_u8, write_usize,
};
use crate::field::Word;
use crate::info::{MastNodeEntry, MastNodeType};
use crate::node::{MastNode, MastNodeId, basic_block_data_len};
use crate::word_io::{spec_word_bytes, write_word};

verus! {

// CONSTANTS
// ================================================================================================

/// Flags bit: the debug info section is left out.
pub const FLAG_STRIPPED: u8 = 0x01;

/// Flags bit: the general node-hash section is left out. Implies [`FLAG_STRIPPED`].
pub const FLAG_HASHLESS: u8 = 0x02;

/// Flags bits that must be zero.
pub const FLAGS_RESERVED_MASK: u8 = 0xfc;

/// The magic bytes `MAST`.
pub open spec fn magic_bytes() -> Seq<u8> {
    seq![0x4du8, 0x41u8, 0x53u8, 0x54u8]
}

/// The format version `[0, 0, 4]`.
pub open spec fn version_bytes() -> Seq<u8> {
    seq![0u8, 0u8, 4u8]
}

/// The flags byte written for the given options.
pub open spec fn flags_byte(stripped: bool, hashless: bool) -> u8 {
    if hashless {
        3
    } else if stripped {
        1
    } else {
        0
    }
}

// THE FOREST AND ITS SECTIONS
// ================================================================================================

/// A MAST forest: its nodes in index order, its procedure roots, and its advice map and debug
/// info, both held in their serialized form.
pub struct MastForest {
    pub nodes: Vec<MastNode>,
    pub roots: Vec<MastNodeId>,
    pub advice_map: Vec<u8>,
    pub debug_info: Vec<u8>,
    pub num_decorators: usize,
}

/// Offset of the data of node `i` in the basic-block data section: the total data length of the
/// basic blocks before it.
pub open spec fn block_offset(nodes: Seq<MastNode>, i: int) -> nat
    decreases i,
{
    if i <= 0 {
        0
    } else {
        block_offset(nodes, i - 1) + nodes[i - 1].spec_block_data_len()
    }
}

/// The basic-block data of the first `i` nodes.
pub open spec fn block_data(nodes: Seq<MastNode>, i: int) -> Seq<u8>
    decreases i,
{
    if i <= 0 {
        Seq::empty()
    } else {
        block_data(nodes, i - 1) + nodes[i - 1].spec_block_data()
    }
}

/// The node type written in the entry of node `i`.
pub open spec fn entry_type(nodes: Seq<MastNode>, i: int) -> MastNodeType {
    MastNodeType::spec_new(&nodes[i], block_offset(nodes, i) as u32)
}

/// The entries of the first `i` nodes.
pub open spec fn entries_bytes(nodes: Seq<MastNode>, i: int) -> Seq<u8>
    decreases i,
{
    if i <= 0 {
        Seq::empty()
    } else {
        entries_bytes(nodes, i - 1) + entry_type(nodes, i - 1).spec_bytes()
    }
}

/// Number of external nodes among the first `i` nodes.
pub open spec fn external_count(nodes: Seq<MastNode>, i: int) -> nat
    decreases i,
{
    if i <= 0 {
        0
    } else {
        external_count(nodes, i - 1) + if nodes[i - 1] is External {
            1nat
        } else {
            0nat
        }
    }
}

/// The digests of the external nodes among the first `i` nodes.
pub open spec fn external_digest_bytes(nodes: Seq<MastNode>, i: int) -> Seq<u8>
    decreases i,
{
    if i <= 0 {
        Seq::empty()
    } else {
        external_digest_bytes(nodes, i - 1) + if nodes[i - 1] is External {
            spec_word_bytes(nodes[i - 1].spec_digest())
        } else {
            Seq::empty()
        }
    }
}

/// The digests of the non-external nodes among the first `i` nodes.
pub open spec fn node_hash_bytes(nodes: Seq<MastNode>, i: int) -> Seq<u8>
    decreases i,
{
    if i <= 0 {
        Seq::empty()
    } else {
        node_hash_bytes(nodes, i - 1) + if nodes[i - 1] is External {
            Seq::empty()
        } else {
            spec_word_bytes(nodes[i - 1].spec_digest())
        }
    }
}

/// The first `i` roots as little-endian `u32` values.
pub open spec fn roots_bytes(roots: Seq<MastNodeId>, i: int) -> Seq<u8>
    decreases i,
{
    if i <= 0 {
        Seq::empty()
    } else {
        roots_bytes(roots, i - 1) + u32_le_bytes(roots[i - 1].0)
    }
}

/// The bytes of the first `i` words of `words`.
pub open spec fn words_bytes(words: Seq<Word>, i: int) -> Seq<u8>
    decreases i,
{
    if i <= 0 {
        Seq::empty()
    } else {
        words_bytes(words, i - 1) + spec_word_bytes(words[i - 1])
    }
}

impl MastForest {
    /// Whether every node fits the wire format: child ids of Join and Split nodes below `2^30`
    /// and the basic-block data no longer than `u32::MAX` bytes.
    pub open spec fn is_serializable(&self) -> bool {
        &&& forall|i: int|
            0 <= i < self.nodes@.len() ==> #[trigger] entry_type(self.nodes@, i).is_encodable()
        &&& block_offset(self.nodes@, self.nodes@.len() as int) <= u32::MAX
    }

    /// The serialized forest.
    #[verifier::opaque]
    pub open spec fn spec_serialize(&self, stripped: bool, hashless: bool) -> Seq<u8> {
        let nodes = self.nodes@;
        let n = nodes.len() as int;
        magic_bytes() + seq![flags_byte(stripped, hashless)] + version_bytes() + vint64_bytes(
            n as u64,
        ) + vint64_bytes(
            if stripped {
                0
            } else {
                self.num_decorators as u64
            },
        ) + vint64_bytes(self.roots@.len() as u64) + roots_bytes(
            self.roots@,
            self.roots@.len() as int,
        ) + vint64_bytes(block_offset(nodes, n) as u64) + block_data(nodes, n) + entries_bytes(
            nodes,
            n,
        ) + external_digest_bytes(nodes, n) + (if hashless {
            Seq::empty()
        } else {
            node_hash_bytes(nodes, n)
        }) + self.advice_map@ + (if stripped {
            Seq::empty()
        } else {
            self.debug_info@
        })
    }
}

// SERIALIZATION
// ================================================================================================

/// The sections that a pass over the nodes collects: basic-block data, entries, external
/// digests, and (unless hashless) the digests of the other nodes.
struct NodeSections {
    basic_block_data: Vec<u8>,
    entries: Vec<MastNodeEntry>,
    external_digests: Vec<Word>,
    node_hashes: Vec<Word>,
}

impl MastForest {
    /// Writes the forest; `stripped` leaves out the debug info and `hashless` the digests of the
    /// non-external nodes (and sets both flags bits).
    pub fn write_into_with_options(&self, target: &mut Vec<u8>, stripped: bool, hashless: bool)
        requires
            self.is_serializable(),
        ensures
            final(target)@ == old(target)@ + self.spec_serialize(stripped, hashless),
    {
        let ghost start = target@;
        let ghost nodes = self.nodes@;
        let ghost n = nodes.len() as int;

        // magic & flags
        let magic: [u8; 4] = [0x4d, 0x41, 0x53, 0x54];
        write_bytes(target, &magic);
        let flags: u8 = (if stripped || hashless {
            FLAG_STRIPPED
        } else {
            0
        }) | (if hashless {
            FLAG_HASHLESS
        } else {
            0
        });
        assert(0u8 | 0u8 == 0u8 && 1u8 | 0u8 == 1u8 && 1u8 | 2u8 == 3u8) by (bit_vector);
        write_u8(target, flags);

        // version
        let version: [u8; 3] = [0, 0, 4];
        write_bytes(target, &version);
        let ghost header = magic_bytes() + seq![flags_byte(stripped, hashless)] + version_bytes();
        assert(target@ =~= start + header);

        // node & decorator counts
        let ghost decorators: u64 = if stripped {
            0
        } else {
            self.num_decorators as u64
        };
        write_usize(target, self.nodes.len());
        proof {
            vstd::seq_lib::lemma_concat_associative(start, header, vint64_bytes(n as u64));
        }
        write_usize(
            target,
            if stripped {
                0
            } else {
                self.num_decorators
            },
        );
        let ghost counts = header + vint64_bytes(n as u64) + vint64_bytes(decorators);
        proof {
            vstd::seq_lib::lemma_concat_associative(
                start,
                header + vint64_bytes(n as u64),
                vint64_bytes(decorators),
            );
        }

        // roots
        self.write_roots(target);
        let ghost roots_part = vint64_bytes(self.roots@.len() as u64) + roots_bytes(
            self.roots@,
            self.roots@.len() as int,
        );
        proof {
            vstd::seq_lib::lemma_concat_associative(start, counts, roots_part);
            vstd::seq_lib::lemma_concat_associative(
                counts,
                vint64_bytes(self.roots@.len() as u64),
                roots_bytes(self.roots@, self.roots@.len() as int),
            );
        }
        let ghost with_roots = counts + vint64_bytes(self.roots@.len() as u64) + roots_bytes(
            self.roots@,
            self.roots@.len() as int,
        );
        assert(target@ == start + with_roots);

        let sections = self.collect_sections(hashless);

        write_usize(target, sections.basic_block_data.len());
        proof {
            vstd::seq_lib::lemma_concat_associative(
                start,
                with_roots,
                vint64_bytes(block_offset(nodes, n) as u64),
            );
        }
        write_bytes(target, sections.basic_block_data.as_slice());
        let ghost with_blocks = with_roots + vint64_bytes(block_offset(nodes, n) as u64)
            + block_data(nodes, n);
        proof {
            vstd::seq_lib::lemma_concat_associative(
                start,
                with_roots + vint64_bytes(block_offset(nodes, n) as u64),
                block_data(nodes, n),
            );
        }

        write_entries(target, &sections.entries, Ghost(nodes));
        let ghost with_entries = with_blocks + entries_bytes(nodes, n);
        proof {
            vstd::seq_lib::lemma_concat_associative(start, with_blocks, entries_bytes(nodes, n));
        }

        write_words(target, &sections.external_digests);
        let ghost with_external = with_entries + external_digest_bytes(nodes, n);
        proof {
            vstd::seq_lib::lemma_concat_associative(
                start,
                with_entries,
                external_digest_bytes(nodes, n),
            );
        }

        let ghost hashes: Seq<u8> = if hashless {
            Seq::empty()
        } else {
            node_hash_bytes(nodes, n)
        };
        if !hashless {
            write_words(target, &sections.node_hashes);
        }
        proof {
            vstd::seq_lib::lemma_concat_associative(start, with_external, hashes);
            if hashless {
                assert(with_external + hashes =~= with_external);
            }
        }
        let ghost with_hashes = with_external + hashes;

        write_bytes(target, self.advice_map.as_slice());
        proof {
            vstd::seq_lib::lemma_concat_associative(start, with_hashes, self.advice_map@);
        }
        let ghost with_advice = with_hashes + self.advice_map@;

        let ghost debug: Seq<u8> = if stripped {
            Seq::empty()
        } else {
            self.debug_info@
        };
        // Serialize the debug info only if not stripped.
        if !stripped {
            write_bytes(target, self.debug_info.as_slice());
        }
        proof {
            vstd::seq_lib::lemma_concat_associative(start, with_advice, debug);
            if stripped {
                assert(with_advice + debug =~= with_advice);
            }
        }
        assert(with_advice + debug == self.spec_serialize(stripped, hashless)) by {
            reveal(MastForest::spec_serialize);
        }
    }

    /// Writes the roots: their count, then each id as a little-endian `u32`.
    fn write_roots(&self, target: &mut Vec<u8>)
        ensures
            final(target)@ == old(target)@ + vint64_bytes(self.roots@.len() as u64) + roots_bytes(
                self.roots@,
                self.roots@.len() as int,
            ),
    {
        write_usize(target, self.roots.len());
        let ghost before_roots = target@;
        let mut r: usize = 0;
        while r < self.roots.len()
            invariant
                r <= self.roots@.len(),
                target@ == before_roots + roots_bytes(self.roots@, r as int),
            decreases self.roots@.len() - r,
        {
            write_u32(target, self.roots[r].0);
            r = r + 1;
            assert(target@ =~= before_roots + roots_bytes(self.roots@, r as int));
        }
    }

    /// One pass over the nodes that lays out their basic-block data and collects their entries
    /// and digests.
    fn collect_sections(&self, hashless: bool) -> (r: NodeSections)
        requires
            self.is_serializable(),
        ensures
            r.basic_block_data@ == block_data(self.nodes@, self.nodes@.len() as int),
            r.basic_block_data@.len() == block_offset(self.nodes@, self.nodes@.len() as int),
            r.entries@.len() == self.nodes@.len(),
            forall|j: int|
                0 <= j < self.nodes@.len() ==> (#[trigger] r.entries@[j]).spec_node_type()
                    == entry_type(self.nodes@, j),
            words_bytes(r.external_digests@, r.external_digests@.len() as int)
                == external_digest_bytes(self.nodes@, self.nodes@.len() as int),
            !hashless ==> words_bytes(r.node_hashes@, r.node_hashes@.len() as int)
                == node_hash_bytes(self.nodes@, self.nodes@.len() as int),
    {
        let ghost nodes = self.nodes@;
        let ghost n = nodes.len() as int;
        let mut basic_block_data: Vec<u8> = Vec::new();
        let mut mast_node_entries: Vec<MastNodeEntry> = Vec::with_capacity(self.nodes.len());
        let mut external_digests: Vec<Word> = Vec::new();
        let mut node_hashes: Vec<Word> = Vec::new();

        let mut i: usize = 0;
        while i < self.nodes.len()
            invariant
                nodes == self.nodes@,
                n == nodes.len(),
                self.is_serializable(),
                i <= n,
                basic_block_data@ == block_data(nodes, i as int),
                basic_block_data@.len() == block_offset(nodes, i as int),
                mast_node_entries@.len() == i,
                forall|j: int|
                    0 <= j < i ==> (#[trigger] mast_node_entries@[j]).spec_node_type()
                        == entry_type(nodes, j),
                words_bytes(external_digests@, external_digests@.len() as int)
                    == external_digest_bytes(nodes, i as int),
                !hashless ==> words_bytes(node_hashes@, node_hashes@.len() as int)
                    == node_hash_bytes(nodes, i as int),
            decreases n - i,
        {
            let mast_node = &self.nodes[i];
            proof {
                lemma_block_data_len(nodes, i as int);
                lemma_block_offset_mono(nodes, i as int, n);
                lemma_block_offset_mono(nodes, i as int + 1, n);
            }
            let ops_offset: u32 = match mast_node {
                MastNode::Block { data, .. } => {
                    let offset = basic_block_data.len() as u32;
                    basic_block_data.extend_from_slice(data.as_slice());
                    offset
                },
                _ => 0,
            };
            assert(basic_block_data@ =~= block_data(nodes, i + 1));

            mast_node_entries.push(MastNodeEntry::new(mast_node, ops_offset));
            if mast_node.is_external() {
                proof {
                    lemma_words_bytes_push(external_digests@, mast_node.spec_digest());
                }
                external_digests.push(mast_node.digest());
            } else if !hashless {
                proof {
                    lemma_words_bytes_push(node_hashes@, mast_node.spec_digest());
                }
                node_hashes.push(mast_node.digest());
            }
            i = i + 1;
            assert(external_digest_bytes(nodes, i as int) =~= words_bytes(
                external_digests@,
                external_digests@.len() as int,
            ));
            assert(!hashless ==> node_hash_bytes(nodes, i as int) =~= words_bytes(
                node_hashes@,
                node_hashes@.len() as int,
            ));
        }
        NodeSections {
            basic_block_data,
            entries: mast_node_entries,
            external_digests,
            node_hashes,
        }
    }
}

/// Writes the entries collected for `nodes`, in order.
fn write_entries(target: &mut Vec<u8>, entries: &Vec<MastNodeEntry>, Ghost(nodes): Ghost<
    Seq<MastNode>,
>)
    requires
        entries@.len() == nodes.len(),
        forall|j: int|
            0 <= j < nodes.len() ==> (#[trigger] entries@[j]).spec_node_type() == entry_type(
                nodes,
                j,
            ),
        forall|j: int| 0 <= j < nodes.len() ==> #[trigger] entry_type(nodes, j).is_encodable(),
    ensures
        final(target)@ == old(target)@ + entries_bytes(nodes, nodes.len() as int),
{
    let ghost before_entries = target@;
    let mut k: usize = 0;
    while k < entries.len()
        invariant
            entries@.len() == nodes.len(),
            forall|j: int|
                0 <= j < nodes.len() ==> (#[trigger] entries@[j]).spec_node_type() == entry_type(
                    nodes,
                    j,
                ),
            forall|j: int| 0 <= j < nodes.len() ==> #[trigger] entry_type(nodes, j).is_encodable(),
            k <= nodes.len(),
            target@ == before_entries + entries_bytes(nodes, k as int),
        decreases nodes.len() - k,
    {
        assert(entry_type(nodes, k as int).is_encodable());
        entries[k].write_into(target);
        k = k + 1;
        assert(target@ =~= before_entries + entries_bytes(nodes, k as int));
    }
}

/// Writes the words, in order.
fn write_words(target: &mut Vec<u8>, words: &Vec<Word>)
    ensures
        final(target)@ == old(target)@ + words_bytes(words@, words@.len() as int),
{
    let ghost before = target@;
    let mut e: usize = 0;
    while e < words.len()
        invariant
            e <= words@.len(),
            target@ == before + words_bytes(words@, e as int),
        decreases words@.len() - e,
    {
        write_word(target, &words[e]);
        e = e + 1;
        assert(target@ =~= before + words_bytes(words@, e as int));
    }
}

// SIZE HINTS
// ================================================================================================

/// Number of bytes that miden-crypto's `Serializable::get_size_hint` gives for a `usize`; the
/// claim is that it is the length of the vint64 encoding that `write_usize` produces.
#[verifier::external_body]
fn usize_size_hint(value: usize) -> (r: usize)
    ensures
        r == vint64_len(value as u64),
{
    miden_crypto::utils::Serializable::get_size_hint(&value)
}

/// Size of the stripped serialization of `forest`.
pub fn stripped_size_hint(forest: &MastForest) -> (r: usize)
    requires
        forest.spec_serialize(true, false).len() <= usize::MAX,
    ensures
        r == forest.spec_serialize(true, false).len(),
{
    serialized_size_hint(forest, true, false)
}

/// Size of the hashless serialization of `forest`.
pub fn hashless_size_hint(forest: &MastForest) -> (r: usize)
    requires
        forest.spec_serialize(true, true).len() <= usize::MAX,
    ensures
        r == forest.spec_serialize(true, true).len(),
{
    serialized_size_hint(forest, true, true)
}

/// Size of the serialization of `forest` with the given options, computed from the section
/// sizes without writing anything.
pub fn serialized_size_hint(forest: &MastForest, stripped: bool, hashless: bool) -> (r: usize)
    requires
        forest.spec_serialize(stripped, hashless).len() <= usize::MAX,
    ensures
        r == forest.spec_serialize(stripped, hashless).len(),
{
    let ghost nodes = forest.nodes@;
    let ghost n = nodes.len() as int;
    proof {
        lemma_serialize_len(forest, stripped, hashless);
        lemma_digest_sections_len(nodes, n);
    }
    let node_count = forest.nodes.len();
    let mut num_external: usize = 0;
    let mut basic_block_len: usize = 0;
    let mut i: usize = 0;
    while i < node_count
        invariant
            nodes == forest.nodes@,
            n == nodes.len(),
            node_count == n,
            i <= n,
            num_external == external_count(nodes, i as int),
            basic_block_len == block_offset(nodes, i as int),
            block_offset(nodes, n) <= usize::MAX,
        decreases n - i,
    {
        proof {
            lemma_digest_sections_len(nodes, i as int);
            lemma_block_offset_mono(nodes, i as int + 1, n);
        }
        let node = &forest.nodes[i];
        if node.is_external() {
            num_external = num_external + 1;
        }
        if node.is_basic_block() {
            basic_block_len = basic_block_len + basic_block_data_len(node);
        }
        i = i + 1;
    }
    let non_external_count = node_count - num_external;

    let mut size: usize = 4 + 1 + 3;
    size = size + usize_size_hint(node_count);
    size = size + usize_size_hint(
        if stripped {
            0usize
        } else {
            forest.num_decorators
        },
    );

    let roots_len = forest.roots.len();
    size = size + usize_size_hint(roots_len);
    size = size + roots_len * 4;

    size = size + usize_size_hint(basic_block_len) + basic_block_len;

    size = size + node_count * MastNodeEntry::min_serialized_size();
    size = size + num_external * 32;
    if !hashless {
        size = size + non_external_count * 32;
    }
    size = size + forest.advice_map.len();
    if !stripped {
        size = size + forest.debug_info.len();
    }
    size
}

/// The length of a serialized forest, section by section.
pub proof fn lemma_serialize_len(forest: &MastForest, stripped: bool, hashless: bool)
    ensures
        forest.spec_serialize(stripped, hashless).len() == 8 + vint64_len(
            forest.nodes@.len() as u64,
        ) + vint64_len(
            if stripped {
                0
            } else {
                forest.num_decorators as u64
            },
        ) + vint64_len(forest.roots@.len() as u64) + 4 * forest.roots@.len() + vint64_len(
            block_offset(forest.nodes@, forest.nodes@.len() as int) as u64,
        ) + block_offset(forest.nodes@, forest.nodes@.len() as int) + 8 * forest.nodes@.len()
            + 32 * external_count(forest.nodes@, forest.nodes@.len() as int) + (if hashless {
            0
        } else {
            32 * (forest.nodes@.len() - external_count(forest.nodes@, forest.nodes@.len() as int))
        }) + forest.advice_map@.len() + (if stripped {
            0
        } else {
            forest.debug_info@.len()
        }),
{
    reveal(MastForest::spec_serialize);
    let nodes = forest.nodes@;
    let n = nodes.len() as int;
    lemma_vint64_len(n as u64);
    lemma_vint64_len(
        if stripped {
            0
        } else {
            forest.num_decorators as u64
        },
    );
    lemma_vint64_len(forest.roots@.len() as u64);
    lemma_vint64_len(block_offset(nodes, n) as u64);
    lemma_roots_len(forest.roots@, forest.roots@.len() as int);
    lemma_block_data_len(nodes, n);
    lemma_entries_len(nodes, n);
    lemma_digest_sections_len(nodes, n);
}

/// The hashless serialization is the stripped one without the digests of the non-external
/// nodes: 32 bytes shorter for each of them.
pub proof fn lemma_hashless_size_relation(forest: &MastForest)
    ensures
        forest.spec_serialize(true, true).len() + 32 * (forest.nodes@.len() - external_count(
            forest.nodes@,
            forest.nodes@.len() as int,
        )) == forest.spec_serialize(true, false).len(),
{
    lemma_serialize_len(forest, true, true);
    lemma_serialize_len(forest, true, false);
}

/// The vint64 encoding of `v` is `vint64_len(v)` bytes long.
pub proof fn lemma_vint64_len(v: u64)
    ensures
        vint64_bytes(v).len() == vint64_len(v),
{
    crate::bytes::lemma_vint64_roundtrip(v, Seq::empty(), Seq::empty());
}

/// A forest serialized without debug information.
pub struct StrippedMastForest<'a>(pub &'a MastForest);

impl<'a> StrippedMastForest<'a> {
    /// Writes the stripped serialization.
    pub fn write_into(&self, target: &mut Vec<u8>)
        requires
            self.0.is_serializable(),
        ensures
            final(target)@ == old(target)@ + self.0.spec_serialize(true, false),
    {
        self.0.write_into_with_options(target, true, false)
    }

    /// Size of the stripped serialization.
    pub fn get_size_hint(&self) -> (r: usize)
        requires
            self.0.spec_serialize(true, false).len() <= usize::MAX,
        ensures
            r == self.0.spec_serialize(true, false).len(),
    {
        stripped_size_hint(self.0)
    }
}

/// A forest serialized with the HASHLESS flag: no debug information and no digests but those
/// of external nodes.
pub struct HashlessMastForest<'a>(pub &'a MastForest);

impl<'a> HashlessMastForest<'a> {
    /// Writes the hashless serialization.
    pub fn write_into(&self, target: &mut Vec<u8>)
        requires
            self.0.is_serializable(),
        ensures
            final(target)@ == old(target)@ + self.0.spec_serialize(true, true),
    {
        self.0.write_into_with_options(target, true, true)
    }

    /// Size of the hashless serialization.
    pub fn get_size_hint(&self) -> (r: usize)
        requires
            self.0.spec_serialize(true, true).len() <= usize::MAX,
        ensures
            r == self.0.spec_serialize(true, true).len(),
    {
        hashless_size_hint(self.0)
    }
}

impl MastForest {
    /// Writes the full serialization, debug info and all digests included.
    pub fn write_into(&self, target: &mut Vec<u8>)
        requires
            self.is_serializable(),
        ensures
            final(target)@ == old(target)@ + self.spec_serialize(false, false),
    {
        self.write_into_with_options(target, false, false)
    }
}

// RANDOM ACCESS
// ================================================================================================

/// Offset of the data of node `node_index` in the basic-block data section of `nodes`: the total
/// data length of the basic blocks before it (of all blocks when the index is past the end).
pub fn basic_block_offset_for_node_index(nodes: &[MastNode], node_index: usize) -> (r: Result<
    u32,
    DeserializationError,
>)
    ensures
        ({
            let k = if node_index < nodes@.len() {
                node_index as int
            } else {
                nodes@.len() as int
            };
            let total = block_offset(nodes@, k);
            &&& total <= u32::MAX ==> r == Ok::<u32, DeserializationError>(total as u32)
            &&& u32::MAX < total <= usize::MAX ==> r == Err::<u32, DeserializationError>(
                DeserializationError::InvalidValue(InvalidValue::BlockOffsetTooLarge),
            )
            &&& total > usize::MAX ==> r == Err::<u32, DeserializationError>(
                DeserializationError::InvalidValue(InvalidValue::OffsetOverflow),
            )
        }),
{
    let ghost k = if node_index < nodes@.len() {
        node_index as int
    } else {
        nodes@.len() as int
    };
    let end = if node_index < nodes.len() {
        node_index
    } else {
        nodes.len()
    };
    let mut offset: usize = 0;
    let mut i: usize = 0;
    while i < end
        invariant
            end == k,
            k == (if node_index < nodes@.len() {
                node_index as int
            } else {
                nodes@.len() as int
            }),
            0 <= k <= nodes@.len(),
            i <= end,
            offset == block_offset(nodes@, i as int),
        decreases end - i,
    {
        if nodes[i].is_basic_block() {
            let len = basic_block_data_len(&nodes[i]);
            match offset.checked_add(len) {
                Some(next) => {
                    offset = next;
                },
                None => {
                    proof {
                        assert(block_offset(nodes@, i as int + 1) == offset + len);
                        lemma_block_offset_mono(nodes@, i as int + 1, k);
                    }
                    return Err(DeserializationError::InvalidValue(InvalidValue::OffsetOverflow));
                },
            }
        }
        i = i + 1;
    }
    if offset > u32::MAX as usize {
        return Err(DeserializationError::InvalidValue(InvalidValue::BlockOffsetTooLarge));
    }
    Ok(offset as u32)
}

impl MastForest {
    /// Number of nodes.
    pub fn node_count(&self) -> (r: usize)
        ensures
            r == self.nodes@.len(),
    {
        self.nodes.len()
    }

    /// The entry that the serialization writes for node `index`.
    pub fn node_entry_at(&self, index: usize) -> (r: Result<MastNodeEntry, DeserializationError>)
        ensures
            index >= self.nodes@.len() ==> r == Err::<MastNodeEntry, DeserializationError>(
                DeserializationError::InvalidValue(
                    InvalidValue::NodeIndexOutOfBounds {
                        index,
                        node_count: self.nodes@.len() as usize,
                    },
                ),
            ),
            index < self.nodes@.len() && (!(self.nodes@[index as int] is Block) || block_offset(
                self.nodes@,
                index as int,
            ) <= u32::MAX) ==> r is Ok && r->Ok_0.spec_node_type() == entry_type(
                self.nodes@,
                index as int,
            ),
            index < self.nodes@.len() && self.nodes@[index as int] is Block && u32::MAX
                < block_offset(self.nodes@, index as int) <= usize::MAX ==> r == Err::<
                MastNodeEntry,
                DeserializationError,
            >(DeserializationError::InvalidValue(InvalidValue::BlockOffsetTooLarge)),
            index < self.nodes@.len() && self.nodes@[index as int] is Block && block_offset(
                self.nodes@,
                index as int,
            ) > usize::MAX ==> r == Err::<MastNodeEntry, DeserializationError>(
                DeserializationError::InvalidValue(InvalidValue::OffsetOverflow),
            ),
    {
        if index >= self.nodes.len() {
            return Err(
                DeserializationError::InvalidValue(
                    InvalidValue::NodeIndexOutOfBounds { index, node_count: self.nodes.len() },
                ),
            );
        }
        let node = &self.nodes[index];
        let ops_offset = if node.is_basic_block() {
            basic_block_offset_for_node_index(self.nodes.as_slice(), index)?
        } else {
            0
        };
        Ok(MastNodeEntry::new(node, ops_offset))
    }

    /// The digest of node `index`.
    pub fn node_digest_at(&self, index: usize) -> (r: Result<Word, DeserializationError>)
        ensures
            index < self.nodes@.len() ==> r == Ok::<Word, DeserializationError>(
                self.nodes@[index as int].spec_digest(),
            ),
            index >= self.nodes@.len() ==> r == Err::<Word, DeserializationError>(
                DeserializationError::InvalidValue(
                    InvalidValue::NodeIndexOutOfBounds {
                        index,
                        node_count: self.nodes@.len() as usize,
                    },
                ),
            ),
    {
        if index >= self.nodes.len() {
            return Err(
                DeserializationError::InvalidValue(
                    InvalidValue::NodeIndexOutOfBounds { index, node_count: self.nodes.len() },
                ),
            );
        }
        Ok(self.nodes[index].digest())
    }

    /// Number of procedure roots.
    pub fn procedure_root_count(&self) -> (r: usize)
        ensures
            r == self.roots@.len(),
    {
        self.roots.len()
    }

    /// The procedure root at `index`.
    pub fn procedure_root_at(&self, index: usize) -> (r: Result<MastNodeId, DeserializationError>)
        ensures
            index < self.roots@.len() ==> r == Ok::<MastNodeId, DeserializationError>(
                self.roots@[index as int],
            ),
            index >= self.roots@.len() ==> r == Err::<MastNodeId, DeserializationError>(
                DeserializationError::InvalidValue(
                    InvalidValue::RootIndexOutOfBounds {
                        index,
                        root_count: self.roots@.len() as usize,
                    },
                ),
            ),
    {
        if index >= self.roots.len() {
            return Err(
                DeserializationError::InvalidValue(
                    InvalidValue::RootIndexOutOfBounds { index, root_count: self.roots.len() },
                ),
            );
        }
        Ok(self.roots[index])
    }
}

// LENGTHS
// ================================================================================================

/// The basic-block data of the first `i` nodes is `block_offset(nodes, i)` bytes long.
pub proof fn lemma_block_data_len(nodes: Seq<MastNode>, i: int)
    ensures
        block_data(nodes, i).len() == block_offset(nodes, i),
    decreases i,
{
    if i > 0 {
        lemma_block_data_len(nodes, i - 1);
    }
}

/// Block offsets never decrease.
pub proof fn lemma_block_offset_mono(nodes: Seq<MastNode>, i: int, j: int)
    requires
        i <= j,
    ensures
        block_offset(nodes, i) <= block_offset(nodes, j),
    decreases j - i,
{
    if i < j {
        lemma_block_offset_mono(nodes, i, j - 1);
    }
}

/// Each entry takes eight bytes.
pub proof fn lemma_entries_len(nodes: Seq<MastNode>, i: int)
    requires
        0 <= i,
    ensures
        entries_bytes(nodes, i).len() == 8 * i,
    decreases i,
{
    if i > 0 {
        lemma_entries_len(nodes, i - 1);
    }
}

/// Each root takes four bytes.
pub proof fn lemma_roots_len(roots: Seq<MastNodeId>, i: int)
    requires
        0 <= i,
    ensures
        roots_bytes(roots, i).len() == 4 * i,
    decreases i,
{
    if i > 0 {
        lemma_roots_len(roots, i - 1);
    }
}

/// Each digest takes 32 bytes; the external ones go to one section, the others to another.
pub proof fn lemma_digest_sections_len(nodes: Seq<MastNode>, i: int)
    requires
        0 <= i,
    ensures
        external_count(nodes, i) <= i,
        external_digest_bytes(nodes, i).len() == 32 * external_count(nodes, i),
        node_hash_bytes(nodes, i).len() == 32 * (i - external_count(nodes, i)),
    decreases i,
{
    if i > 0 {
        lemma_digest_sections_len(nodes, i - 1);
    }
}

/// Appending a word to a list appends its bytes.
pub proof fn lemma_words_bytes_push(words: Seq<Word>, w: Word)
    ensures
        words_bytes(words.push(w), words.len() + 1int) == words_bytes(words, words.len() as int)
            + spec_word_bytes(w),
{
    lemma_words_bytes_prefix(words, w, words.len() as int);
}

proof fn lemma_words_bytes_prefix(words: Seq<Word>, w: Word, k: int)
    requires
        k <= words.len(),
    ensures
        words_bytes(words.push(w), k) == words_bytes(words, k),
    decreases k,
{
    if k > 0 {
        lemma_words_bytes_prefix(words, w, k - 1);
    }
}

} // verus!
