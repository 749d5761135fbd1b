//! What reading a serialized forest gives back: the scan of the bytes that
//! [`MastForest::write_into_with_options`] writes finds every section where it was written, and
//! random access reads back every entry, digest and root.

use vstd::prelude::*;
use crate::bytes::{
    le_u32_at, le_u64_at, lemma_le_u32_roundtrip, lemma_vint64_roundtrip, u32_le_bytes,
    vint64_bytes, vint64_len, vint64_read,
};
use crate::field::Word;
use crate::forest::{
    MastForest, block_data, block_offset, entries_bytes, entry_type, external_count,
    external_digest_bytes, flags_byte, lemma_block_data_len, lemma_digest_sections_len,
    lemma_entries_len, lemma_roots_len, magic_bytes, node_hash_bytes, roots_bytes, version_bytes,
};
use crate::info::{MastNodeType, lemma_entry_bytes_roundtrip};
use crate::layout::{
    ForestLayout, digest_slot, entry_type_at, external_before, spec_digest_sections,
    spec_entry_at, spec_read_flags, spec_root_at, spec_scan_entries, spec_scan_layout,
    spec_section_end,
};
use crate::resolved::{
    HashlessInputs, find_block_groups, spec_builders, spec_hash_elements,
    spec_hash_table, spec_merge_in_domain, spec_node_digest, spec_recomputed_digest, spec_resolve,
    spec_roots,
};
use crate::info::spec_builder;
use crate::node::{MastNodeBuilder, MastNodeId};
use crate::bytes::spec_read_usize;
use crate::node::MastNode;
use crate::word_io::{canonical_word, lemma_word_roundtrip, spec_word_at, spec_word_bytes};

verus! {

// READING INSIDE A CONCATENATION
// ================================================================================================

/// A vint64 value written at `offset` reads back.
proof fn lemma_vint64_read_at(s: Seq<u8>, offset: int, v: u64)
    requires
        0 <= offset,
        offset + vint64_len(v) <= s.len(),
        s.subrange(offset, offset + vint64_len(v)) == vint64_bytes(v),
    ensures
        vint64_read(s, offset) == Some((v, offset + vint64_len(v))),
{
    lemma_vint64_roundtrip(v, s.subrange(0, offset), s.subrange(offset + vint64_len(v), s.len() as int));
    assert(s =~= s.subrange(0, offset) + vint64_bytes(v) + s.subrange(
        offset + vint64_len(v),
        s.len() as int,
    ));
}

/// The little-endian `u64` at `offset` depends only on the eight bytes there.
proof fn lemma_u64_transfer(s: Seq<u8>, offset: int, t: Seq<u8>)
    requires
        0 <= offset,
        offset + 8 <= s.len(),
        s.subrange(offset, offset + 8) == t,
    ensures
        le_u64_at(s, offset) == le_u64_at(t, 0),
{
    assert(t[0] == s[offset] && t[1] == s[offset + 1] && t[2] == s[offset + 2] && t[3] == s[offset
        + 3] && t[4] == s[offset + 4] && t[5] == s[offset + 5] && t[6] == s[offset + 6] && t[7]
        == s[offset + 7]);
}

/// The little-endian `u32` at `offset` depends only on the four bytes there.
proof fn lemma_u32_transfer(s: Seq<u8>, offset: int, t: Seq<u8>)
    requires
        0 <= offset,
        offset + 4 <= s.len(),
        s.subrange(offset, offset + 4) == t,
    ensures
        le_u32_at(s, offset) == le_u32_at(t, 0),
{
    assert(t[0] == s[offset] && t[1] == s[offset + 1] && t[2] == s[offset + 2] && t[3] == s[offset
        + 3]);
}

/// The word at `offset` depends only on the 32 bytes there.
proof fn lemma_word_transfer(s: Seq<u8>, offset: int, t: Seq<u8>)
    requires
        0 <= offset,
        offset + 32 <= s.len(),
        s.subrange(offset, offset + 32) == t,
    ensures
        spec_word_at(s, offset) == spec_word_at(t, 0),
{
    assert forall|k: int| 0 <= k < 32 implies #[trigger] t[k] == s[offset + k] by {
        assert(t[k] == s.subrange(offset, offset + 32)[k]);
    }
}

/// A part of a part is a part.
proof fn lemma_subrange_of_subrange(s: Seq<u8>, a: int, b: int, t: Seq<u8>, c: int, d: int)
    requires
        0 <= a <= b <= s.len(),
        s.subrange(a, b) == t,
        0 <= c <= d <= b - a,
    ensures
        s.subrange(a + c, a + d) == t.subrange(c, d),
{
    assert(s.subrange(a + c, a + d) =~= t.subrange(c, d));
}

// SECTIONS
// ================================================================================================

/// The entry of node `i` lies at `8 i` in the entries section.
proof fn lemma_entry_in_section(nodes: Seq<MastNode>, k: int, i: int)
    requires
        0 <= i < k,
    ensures
        entries_bytes(nodes, k).subrange(8 * i, 8 * i + 8) == entry_type(nodes, i).spec_bytes(),
    decreases k,
{
    lemma_entries_len(nodes, k - 1);
    crate::bytes::lemma_le_u64_roundtrip(
        entry_type(nodes, k - 1).spec_encoded(),
        Seq::empty(),
        Seq::empty(),
    );
    if i < k - 1 {
        lemma_entries_len(nodes, i + 1);
        lemma_entry_in_section(nodes, k - 1, i);
        assert(entries_bytes(nodes, k).subrange(8 * i, 8 * i + 8) =~= entries_bytes(
            nodes,
            k - 1,
        ).subrange(8 * i, 8 * i + 8));
    } else {
        assert(entries_bytes(nodes, k).subrange(8 * i, 8 * i + 8) =~= entry_type(
            nodes,
            i,
        ).spec_bytes());
    }
}

/// Root `i` lies at `4 i` in the roots section.
proof fn lemma_root_in_section(roots: Seq<crate::node::MastNodeId>, k: int, i: int)
    requires
        0 <= i < k,
    ensures
        roots_bytes(roots, k).subrange(4 * i, 4 * i + 4) == u32_le_bytes(roots[i].0),
    decreases k,
{
    lemma_roots_len(roots, k - 1);
    lemma_le_u32_roundtrip(roots[k - 1].0, Seq::empty(), Seq::empty());
    if i < k - 1 {
        lemma_root_in_section(roots, k - 1, i);
        assert(roots_bytes(roots, k).subrange(4 * i, 4 * i + 4) =~= roots_bytes(
            roots,
            k - 1,
        ).subrange(4 * i, 4 * i + 4));
    } else {
        assert(roots_bytes(roots, k).subrange(4 * i, 4 * i + 4) =~= u32_le_bytes(roots[i].0));
    }
}

/// The digest of external node `i` lies at `32 external_count(i)` in the external digest
/// section.
proof fn lemma_external_digest_in_section(nodes: Seq<MastNode>, k: int, i: int)
    requires
        0 <= i < k,
        nodes[i] is External,
    ensures
        external_digest_bytes(nodes, k).subrange(
            32 * external_count(nodes, i) as int,
            32 * external_count(nodes, i) as int + 32,
        ) == spec_word_bytes(nodes[i].spec_digest()),
    decreases k,
{
    let j = external_count(nodes, i) as int;
    lemma_digest_sections_len(nodes, k - 1);
    lemma_digest_sections_len(nodes, i);
    lemma_word_roundtrip(nodes[k - 1].spec_digest(), Seq::empty(), Seq::empty());
    if i < k - 1 {
        lemma_external_digest_in_section(nodes, k - 1, i);
        lemma_external_count_mono(nodes, i + 1, k - 1);
        assert(external_digest_bytes(nodes, k).subrange(32 * j, 32 * j + 32) =~= external_digest_bytes(
            nodes,
            k - 1,
        ).subrange(32 * j, 32 * j + 32));
    } else {
        assert(external_digest_bytes(nodes, k).subrange(32 * j, 32 * j + 32) =~= spec_word_bytes(
            nodes[i].spec_digest(),
        ));
    }
}

/// The digest of non-external node `i` lies at `32 (i - external_count(i))` in the node-hash
/// section.
proof fn lemma_node_hash_in_section(nodes: Seq<MastNode>, k: int, i: int)
    requires
        0 <= i < k,
        !(nodes[i] is External),
    ensures
        node_hash_bytes(nodes, k).subrange(
            32 * (i - external_count(nodes, i)),
            32 * (i - external_count(nodes, i)) + 32,
        ) == spec_word_bytes(nodes[i].spec_digest()),
    decreases k,
{
    let j = i - external_count(nodes, i);
    lemma_digest_sections_len(nodes, k - 1);
    lemma_digest_sections_len(nodes, i);
    lemma_word_roundtrip(nodes[k - 1].spec_digest(), Seq::empty(), Seq::empty());
    if i < k - 1 {
        lemma_node_hash_in_section(nodes, k - 1, i);
        lemma_external_count_mono(nodes, i + 1, k - 1);
        assert(node_hash_bytes(nodes, k).subrange(32 * j, 32 * j + 32) =~= node_hash_bytes(
            nodes,
            k - 1,
        ).subrange(32 * j, 32 * j + 32));
    } else {
        assert(node_hash_bytes(nodes, k).subrange(32 * j, 32 * j + 32) =~= spec_word_bytes(
            nodes[i].spec_digest(),
        ));
    }
}

/// The number of external nodes never decreases, and grows by at most one per node.
proof fn lemma_external_count_mono(nodes: Seq<MastNode>, i: int, j: int)
    requires
        0 <= i <= j,
    ensures
        external_count(nodes, i) <= external_count(nodes, j),
        external_count(nodes, j) - external_count(nodes, i) <= j - i,
    decreases j - i,
{
    if i < j {
        lemma_external_count_mono(nodes, i, j - 1);
    }
}

// THE WRITTEN LAYOUT
// ================================================================================================

/// The layout of the bytes that the serialization of `f` writes.
pub open spec fn written_layout(f: &MastForest, stripped: bool, hashless: bool) -> ForestLayout {
    let nodes = f.nodes@;
    let n = nodes.len() as int;
    let rc = f.roots@.len() as int;
    let dec: u64 = if stripped {
        0
    } else {
        f.num_decorators as u64
    };
    let bb = block_offset(nodes, n);
    let ext = external_count(nodes, n);
    let roots_offset = 8 + vint64_len(n as u64) + vint64_len(dec) + vint64_len(rc as u64);
    let basic_block_offset = roots_offset + 4 * rc + vint64_len(bb as u64);
    let node_entry_offset = basic_block_offset + bb;
    let external_digest_offset = node_entry_offset + 8 * n;
    let after_external = external_digest_offset + 32 * ext;
    ForestLayout {
        node_count: n as usize,
        roots_count: rc as usize,
        roots_offset: roots_offset as usize,
        basic_block_offset: basic_block_offset as usize,
        basic_block_len: bb as usize,
        node_entry_offset: node_entry_offset as usize,
        external_digest_offset: external_digest_offset as usize,
        node_hash_offset: if hashless {
            None
        } else {
            Some(after_external as usize)
        },
        advice_map_offset: if hashless {
            after_external as usize
        } else {
            (after_external + 32 * (n - ext)) as usize
        },
    }
}

/// Each section of the serialization of `f` lies where [`written_layout`] puts it.
#[verifier::rlimit(50)]
proof fn lemma_written_pieces(f: &MastForest, stripped: bool, hashless: bool)
    requires
        f.spec_serialize(stripped, hashless).len() <= usize::MAX,
    ensures
        ({
            let s = f.spec_serialize(stripped, hashless);
            let l = written_layout(f, stripped, hashless);
            let nodes = f.nodes@;
            let n = nodes.len() as int;
            let rc = f.roots@.len() as int;
            let dec: u64 = if stripped {
                0
            } else {
                f.num_decorators as u64
            };
            let bb = block_offset(nodes, n);
            let ext = external_count(nodes, n);
            let o1: int = 8 + vint64_len(n as u64) as int;
            let o2: int = o1 + vint64_len(dec) as int;
            let o4: int = l.roots_offset + 4 * rc;
            &&& s.subrange(0, 8) == magic_bytes() + seq![flags_byte(stripped, hashless)]
                + version_bytes()
            &&& s.subrange(8, o1) == vint64_bytes(n as u64)
            &&& s.subrange(o1, o2) == vint64_bytes(dec)
            &&& s.subrange(o2, l.roots_offset as int) == vint64_bytes(rc as u64)
            &&& s.subrange(l.roots_offset as int, o4) == roots_bytes(f.roots@, rc)
            &&& s.subrange(o4, l.basic_block_offset as int) == vint64_bytes(bb as u64)
            &&& s.subrange(l.node_entry_offset as int, l.external_digest_offset as int)
                == entries_bytes(nodes, n)
            &&& s.subrange(
                l.external_digest_offset as int,
                l.external_digest_offset + 32 * ext,
            ) == external_digest_bytes(nodes, n)
            &&& !hashless ==> s.subrange(
                l.external_digest_offset + 32 * ext,
                l.advice_map_offset as int,
            ) == node_hash_bytes(nodes, n)
            &&& l.roots_offset == o2 + vint64_len(rc as u64)
            &&& l.basic_block_offset == o4 + vint64_len(bb as u64)
            &&& l.node_hash_offset == if hashless {
                None
            } else {
                Some((l.external_digest_offset + 32 * ext) as usize)
            }
            &&& l.advice_map_offset == l.external_digest_offset + 32 * ext + if hashless {
                0
            } else {
                32 * (n - ext)
            }
            &&& l.advice_map_offset <= s.len()
            &&& l.node_count == n
            &&& l.roots_count == rc
            &&& l.basic_block_len == bb
            &&& l.basic_block_offset + bb == l.node_entry_offset
            &&& l.node_entry_offset + 8 * n == l.external_digest_offset
            &&& ext <= n
        }),
{
    let s = f.spec_serialize(stripped, hashless);
    let l = written_layout(f, stripped, hashless);
    let nodes = f.nodes@;
    let n = nodes.len() as int;
    let rc = f.roots@.len() as int;
    let dec: u64 = if stripped {
        0
    } else {
        f.num_decorators as u64
    };
    let bb = block_offset(nodes, n);
    let ext = external_count(nodes, n);
    crate::forest::lemma_serialize_len(f, stripped, hashless);
    crate::forest::lemma_vint64_len(n as u64);
    crate::forest::lemma_vint64_len(dec);
    crate::forest::lemma_vint64_len(rc as u64);
    crate::forest::lemma_vint64_len(bb as u64);
    lemma_roots_len(f.roots@, rc);
    lemma_block_data_len(nodes, n);
    lemma_entries_len(nodes, n);
    lemma_digest_sections_len(nodes, n);

    let h = magic_bytes() + seq![flags_byte(stripped, hashless)] + version_bytes();
    let v1 = vint64_bytes(n as u64);
    let v2 = vint64_bytes(dec);
    let v3 = vint64_bytes(rc as u64);
    let rb = roots_bytes(f.roots@, rc);
    let v4 = vint64_bytes(bb as u64);
    let bd = block_data(nodes, n);
    let eb = entries_bytes(nodes, n);
    let xb = external_digest_bytes(nodes, n);
    let nb: Seq<u8> = if hashless {
        Seq::empty()
    } else {
        node_hash_bytes(nodes, n)
    };
    let tail = f.advice_map@ + (if stripped {
        Seq::empty()
    } else {
        f.debug_info@
    });
    lemma_serialized_right_assoc(f, stripped, hashless);
    let len = s.len() as int;
    assert(s.subrange(0, len) =~= s);
    lemma_peel(s, 0, h, v1 + (v2 + (v3 + (rb + (v4 + (bd + (eb + (xb + (nb + tail)))))))));
    let o1: int = 8 + v1.len() as int;
    lemma_peel(s, 8, v1, v2 + (v3 + (rb + (v4 + (bd + (eb + (xb + (nb + tail))))))));
    let o2: int = o1 + v2.len() as int;
    lemma_peel(s, o1, v2, v3 + (rb + (v4 + (bd + (eb + (xb + (nb + tail)))))));
    let o3: int = o2 + v3.len() as int;
    lemma_peel(s, o2, v3, rb + (v4 + (bd + (eb + (xb + (nb + tail))))));
    let o4: int = o3 + rb.len() as int;
    lemma_peel(s, o3, rb, v4 + (bd + (eb + (xb + (nb + tail)))));
    let o5: int = o4 + v4.len() as int;
    lemma_peel(s, o4, v4, bd + (eb + (xb + (nb + tail))));
    let o6: int = o5 + bd.len() as int;
    lemma_peel(s, o5, bd, eb + (xb + (nb + tail)));
    let o7: int = o6 + eb.len() as int;
    lemma_peel(s, o6, eb, xb + (nb + tail));
    let o8: int = o7 + xb.len() as int;
    lemma_peel(s, o7, xb, nb + tail);
    lemma_peel(s, o8, nb, tail);
}

/// Splits the part of `s` from `offset` on, which is `a + b`, into `a` and `b`.
proof fn lemma_peel(s: Seq<u8>, offset: int, a: Seq<u8>, b: Seq<u8>)
    requires
        0 <= offset <= s.len(),
        s.subrange(offset, s.len() as int) == a + b,
    ensures
        s.subrange(offset, offset + a.len()) == a,
        s.subrange(offset + a.len(), s.len() as int) == b,
{
    let t = s.subrange(offset, s.len() as int);
    assert(t.len() == s.len() - offset);
    assert((a + b).len() == a.len() + b.len());
    assert(offset + a.len() <= s.len());
    assert(s.subrange(offset, offset + a.len()) =~= a) by {
        assert forall|j: int| 0 <= j < a.len() implies s[offset + j] == a[j] by {
            assert(t[j] == s[offset + j]);
            assert(t[j] == (a + b)[j]);
            assert((a + b)[j] == a[j]);
        }
    }
    assert(s.subrange(offset + a.len(), s.len() as int) =~= b) by {
        assert forall|j: int| 0 <= j < b.len() implies s[offset + a.len() + j] == b[j] by {
            assert(t[a.len() + j] == s[offset + a.len() + j]);
            assert(t[a.len() + j] == (a + b)[a.len() + j]);
            assert((a + b)[a.len() + j] == b[j]);
        }
    }
}

/// The serialization as a right-nested concatenation of its sections.
#[verifier::rlimit(40)]
proof fn lemma_serialized_right_assoc(f: &MastForest, stripped: bool, hashless: bool)
    ensures
        ({
            let nodes = f.nodes@;
            let n = nodes.len() as int;
            let rc = f.roots@.len() as int;
            let dec: u64 = if stripped {
                0
            } else {
                f.num_decorators as u64
            };
            let bb = block_offset(nodes, n);
            f.spec_serialize(stripped, hashless) == (magic_bytes() + seq![
                flags_byte(stripped, hashless),
            ] + version_bytes()) + (vint64_bytes(n as u64) + (vint64_bytes(dec) + (vint64_bytes(
                rc as u64,
            ) + (roots_bytes(f.roots@, rc) + (vint64_bytes(bb as u64) + (block_data(nodes, n) + (
            entries_bytes(nodes, n) + (external_digest_bytes(nodes, n) + ((if hashless {
                Seq::empty()
            } else {
                node_hash_bytes(nodes, n)
            }) + (f.advice_map@ + (if stripped {
                Seq::empty()
            } else {
                f.debug_info@
            })))))))))))
        }),
{
    reveal(MastForest::spec_serialize);
    let nodes = f.nodes@;
    let n = nodes.len() as int;
    let rc = f.roots@.len() as int;
    let dec: u64 = if stripped {
        0
    } else {
        f.num_decorators as u64
    };
    let bb = block_offset(nodes, n);
    let h = magic_bytes() + seq![flags_byte(stripped, hashless)] + version_bytes();
    let v1 = vint64_bytes(n as u64);
    let v2 = vint64_bytes(dec);
    let v3 = vint64_bytes(rc as u64);
    let rb = roots_bytes(f.roots@, rc);
    let v4 = vint64_bytes(bb as u64);
    let bd = block_data(nodes, n);
    let eb = entries_bytes(nodes, n);
    let xb = external_digest_bytes(nodes, n);
    let nb: Seq<u8> = if hashless {
        Seq::empty()
    } else {
        node_hash_bytes(nodes, n)
    };
    let am = f.advice_map@;
    let di: Seq<u8> = if stripped {
        Seq::empty()
    } else {
        f.debug_info@
    };
    vstd::seq_lib::lemma_concat_associative(h + v1 + v2 + v3 + rb + v4 + bd + eb + xb + nb, am, di);
    vstd::seq_lib::lemma_concat_associative(h + v1 + v2 + v3 + rb + v4 + bd + eb + xb, nb, am + di);
    vstd::seq_lib::lemma_concat_associative(h + v1 + v2 + v3 + rb + v4 + bd + eb, xb, nb + (am + di));
    vstd::seq_lib::lemma_concat_associative(h + v1 + v2 + v3 + rb + v4 + bd, eb, xb + (nb + (am + di)));
    vstd::seq_lib::lemma_concat_associative(h + v1 + v2 + v3 + rb + v4, bd, eb + (xb + (nb + (am + di))));
    vstd::seq_lib::lemma_concat_associative(h + v1 + v2 + v3 + rb, v4, bd + (eb + (xb + (nb + (am + di)))));
    vstd::seq_lib::lemma_concat_associative(h + v1 + v2 + v3, rb, v4 + (bd + (eb + (xb + (nb + (am + di))))));
    vstd::seq_lib::lemma_concat_associative(h + v1 + v2, v3, rb + (v4 + (bd + (eb + (xb + (nb + (am + di)))))));
    vstd::seq_lib::lemma_concat_associative(h + v1, v2, v3 + (rb + (v4 + (bd + (eb + (xb + (nb + (am + di))))))));
    vstd::seq_lib::lemma_concat_associative(h, v1, v2 + (v3 + (rb + (v4 + (bd + (eb + (xb + (nb + (am + di)))))))));
}
// THE SCAN OF A WRITTEN FOREST
// ================================================================================================

/// Entry `i` of a written forest decodes to the node type written for node `i`.
#[verifier::rlimit(50)]
proof fn lemma_written_entry(f: &MastForest, stripped: bool, hashless: bool, i: int)
    requires
        f.is_serializable(),
        f.spec_serialize(stripped, hashless).len() <= usize::MAX,
        0 <= i < f.nodes@.len(),
    ensures
        MastNodeType::spec_decode(
            le_u64_at(
                f.spec_serialize(stripped, hashless),
                written_layout(f, stripped, hashless).node_entry_offset + 8 * i,
            ),
        ) == Ok::<MastNodeType, crate::bytes::DeserializationError>(entry_type(f.nodes@, i)),
{
    let s = f.spec_serialize(stripped, hashless);
    let l = written_layout(f, stripped, hashless);
    let nodes = f.nodes@;
    let n = nodes.len() as int;
    let t = entry_type(nodes, i);
    lemma_written_pieces(f, stripped, hashless);
    lemma_entries_len(nodes, n);
    lemma_entry_in_section(nodes, n, i);
    lemma_subrange_of_subrange(
        s,
        l.node_entry_offset as int,
        l.external_digest_offset as int,
        entries_bytes(nodes, n),
        8 * i,
        8 * i + 8,
    );
    lemma_u64_transfer(s, l.node_entry_offset + 8 * i, t.spec_bytes());
    assert(t.is_encodable());
    lemma_entry_bytes_roundtrip(t, Seq::empty(), Seq::empty());
    assert(Seq::<u8>::empty() + t.spec_bytes() + Seq::<u8>::empty() =~= t.spec_bytes());
}

/// Scanning the first `k` entries of a written forest counts its external nodes.
proof fn lemma_written_scan_entries(f: &MastForest, stripped: bool, hashless: bool, k: int)
    requires
        f.is_serializable(),
        f.spec_serialize(stripped, hashless).len() <= usize::MAX,
        0 <= k <= f.nodes@.len(),
    ensures
        spec_scan_entries(
            f.spec_serialize(stripped, hashless),
            written_layout(f, stripped, hashless).node_entry_offset as int,
            k,
        ) == Ok::<nat, crate::bytes::DeserializationError>(external_count(f.nodes@, k)),
        external_before(f.spec_serialize(stripped, hashless), written_layout(f, stripped, hashless), k)
            == external_count(f.nodes@, k),
    decreases k,
{
    if k > 0 {
        lemma_written_scan_entries(f, stripped, hashless, k - 1);
        lemma_written_entry(f, stripped, hashless, k - 1);
    }
}

/// The header of a written forest is valid and carries the flags it was written with.
#[verifier::rlimit(50)]
proof fn lemma_written_header(f: &MastForest, stripped: bool, hashless: bool, allow_hashless: bool)
    requires
        hashless ==> allow_hashless,
        f.spec_serialize(stripped, hashless).len() <= usize::MAX,
    ensures
        spec_read_flags(f.spec_serialize(stripped, hashless), allow_hashless) == Ok::<
            u8,
            crate::bytes::DeserializationError,
        >(flags_byte(stripped, hashless)),
{
    let s = f.spec_serialize(stripped, hashless);
    let fl = flags_byte(stripped, hashless);
    let h = magic_bytes() + seq![fl] + version_bytes();
    lemma_written_pieces(f, stripped, hashless);
    lemma_subrange_of_subrange(s, 0, 8, h, 0, 4);
    assert(h.subrange(0, 4) =~= magic_bytes());
    lemma_subrange_of_subrange(s, 0, 8, h, 5, 8);
    assert(h.subrange(5, 8) =~= version_bytes());
    assert(s[4] == s.subrange(0, 8)[4]);
}

/// The counts and the first sections of a written forest read back.
#[verifier::rlimit(50)]
proof fn lemma_written_counts(f: &MastForest, stripped: bool, hashless: bool)
    requires
        f.spec_serialize(stripped, hashless).len() <= usize::MAX,
    ensures
        ({
            let s = f.spec_serialize(stripped, hashless);
            let l = written_layout(f, stripped, hashless);
            let nodes = f.nodes@;
            let n = nodes.len() as int;
            let rc = f.roots@.len() as int;
            let dec: u64 = if stripped {
                0
            } else {
                f.num_decorators as u64
            };
            let bb = block_offset(nodes, n);
            let o1: int = 8 + vint64_len(n as u64) as int;
            let o2: int = o1 + vint64_len(dec) as int;
            let o4: int = l.roots_offset + 4 * rc;
            &&& spec_read_usize(s, 8) == Ok::<(usize, int), crate::bytes::DeserializationError>(
                (n as usize, o1),
            )
            &&& spec_read_usize(s, o1) == Ok::<(usize, int), crate::bytes::DeserializationError>(
                (dec as usize, o2),
            )
            &&& spec_read_usize(s, o2) == Ok::<(usize, int), crate::bytes::DeserializationError>(
                (rc as usize, l.roots_offset as int),
            )
            &&& spec_section_end(s, l.roots_offset as int, rc, 4) == Ok::<
                int,
                crate::bytes::DeserializationError,
            >(o4)
            &&& spec_read_usize(s, o4) == Ok::<(usize, int), crate::bytes::DeserializationError>(
                (bb as usize, l.basic_block_offset as int),
            )
            &&& spec_section_end(s, l.basic_block_offset as int, bb as int, 1) == Ok::<
                int,
                crate::bytes::DeserializationError,
            >(l.node_entry_offset as int)
            &&& spec_section_end(s, l.node_entry_offset as int, n, 8) == Ok::<
                int,
                crate::bytes::DeserializationError,
            >(l.external_digest_offset as int)
        }),
{
    let s = f.spec_serialize(stripped, hashless);
    let l = written_layout(f, stripped, hashless);
    let nodes = f.nodes@;
    let n = nodes.len() as int;
    let rc = f.roots@.len() as int;
    let dec: u64 = if stripped {
        0
    } else {
        f.num_decorators as u64
    };
    let bb = block_offset(nodes, n);
    let o1: int = 8 + vint64_len(n as u64) as int;
    let o2: int = o1 + vint64_len(dec) as int;
    let o4: int = l.roots_offset + 4 * rc;
    lemma_written_pieces(f, stripped, hashless);
    crate::forest::lemma_vint64_len(n as u64);
    crate::forest::lemma_vint64_len(dec);
    crate::forest::lemma_vint64_len(rc as u64);
    crate::forest::lemma_vint64_len(bb as u64);
    lemma_vint64_read_at(s, 8, n as u64);
    lemma_vint64_read_at(s, o1, dec);
    lemma_vint64_read_at(s, o2, rc as u64);
    lemma_vint64_read_at(s, o4, bb as u64);
}

/// Scanning the serialization of a forest finds the layout it was written with.
#[verifier::rlimit(60)]
pub proof fn lemma_scan_written(f: &MastForest, stripped: bool, hashless: bool, allow_hashless: bool)
    requires
        f.is_serializable(),
        hashless ==> allow_hashless,
        f.spec_serialize(stripped, hashless).len() <= usize::MAX,
    ensures
        spec_scan_layout(f.spec_serialize(stripped, hashless), allow_hashless) == Ok::<
            (u8, ForestLayout),
            crate::bytes::DeserializationError,
        >((flags_byte(stripped, hashless), written_layout(f, stripped, hashless))),
{
    let s = f.spec_serialize(stripped, hashless);
    let l = written_layout(f, stripped, hashless);
    let nodes = f.nodes@;
    let n = nodes.len() as int;
    let ext = external_count(nodes, n);
    let fl = flags_byte(stripped, hashless);
    lemma_written_header(f, stripped, hashless, allow_hashless);
    lemma_written_counts(f, stripped, hashless);
    lemma_written_scan_entries(f, stripped, hashless, n);
    lemma_written_digest_sections(f, stripped, hashless);
}

/// The digest sections of a written forest lie within its bytes.
#[verifier::rlimit(50)]
proof fn lemma_written_digest_sections(f: &MastForest, stripped: bool, hashless: bool)
    requires
        f.spec_serialize(stripped, hashless).len() <= usize::MAX,
    ensures
        spec_digest_sections(
            f.spec_serialize(stripped, hashless),
            flags_byte(stripped, hashless),
            f.nodes@.len() as usize,
            external_count(f.nodes@, f.nodes@.len() as int),
            written_layout(f, stripped, hashless).external_digest_offset as int,
        ) == Ok::<(Option<usize>, usize), crate::bytes::DeserializationError>(
            (
                written_layout(f, stripped, hashless).node_hash_offset,
                written_layout(f, stripped, hashless).advice_map_offset,
            ),
        ),
{
    lemma_written_pieces(f, stripped, hashless);
}
// READING BACK
// ================================================================================================

/// Root `i` of a written forest reads back.
#[verifier::rlimit(50)]
proof fn lemma_written_root(f: &MastForest, stripped: bool, hashless: bool, i: int)
    requires
        f.spec_serialize(stripped, hashless).len() <= usize::MAX,
        0 <= i < f.roots@.len(),
    ensures
        le_u32_at(
            f.spec_serialize(stripped, hashless),
            written_layout(f, stripped, hashless).roots_offset + 4 * i,
        ) == f.roots@[i].0,
{
    let s = f.spec_serialize(stripped, hashless);
    let l = written_layout(f, stripped, hashless);
    let rc = f.roots@.len() as int;
    let v = f.roots@[i].0;
    lemma_written_pieces(f, stripped, hashless);
    lemma_roots_len(f.roots@, rc);
    lemma_root_in_section(f.roots@, rc, i);
    lemma_subrange_of_subrange(
        s,
        l.roots_offset as int,
        l.roots_offset + 4 * rc,
        roots_bytes(f.roots@, rc),
        4 * i,
        4 * i + 4,
    );
    lemma_u32_transfer(s, l.roots_offset + 4 * i, u32_le_bytes(v));
    lemma_le_u32_roundtrip(v, Seq::empty(), Seq::empty());
    assert(Seq::<u8>::empty() + u32_le_bytes(v) + Seq::<u8>::empty() =~= u32_le_bytes(v));
}

/// The digest of external node `i` of a written forest reads back from its section,
/// canonically.
#[verifier::rlimit(50)]
proof fn lemma_written_external_digest(f: &MastForest, stripped: bool, hashless: bool, i: int)
    requires
        f.is_serializable(),
        f.spec_serialize(stripped, hashless).len() <= usize::MAX,
        0 <= i < f.nodes@.len(),
        f.nodes@[i] is External,
    ensures
        spec_word_at(
            f.spec_serialize(stripped, hashless),
            written_layout(f, stripped, hashless).external_digest_offset + 32 * external_count(
                f.nodes@,
                i,
            ),
        ) == Some(canonical_word(f.nodes@[i].spec_digest())),
{
    let s = f.spec_serialize(stripped, hashless);
    let l = written_layout(f, stripped, hashless);
    let nodes = f.nodes@;
    let n = nodes.len() as int;
    let ext = external_count(nodes, n);
    let d = nodes[i].spec_digest();
    let j = external_count(nodes, i) as int;
    lemma_written_pieces(f, stripped, hashless);
    lemma_digest_sections_len(nodes, n);
    lemma_external_count_mono(nodes, i + 1, n);
    lemma_word_roundtrip(d, Seq::empty(), Seq::empty());
    assert(Seq::<u8>::empty() + spec_word_bytes(d) + Seq::<u8>::empty() =~= spec_word_bytes(d));
    lemma_external_digest_in_section(nodes, n, i);
    lemma_subrange_of_subrange(
        s,
        l.external_digest_offset as int,
        l.external_digest_offset + 32 * ext,
        external_digest_bytes(nodes, n),
        32 * j,
        32 * j + 32,
    );
    lemma_word_transfer(s, l.external_digest_offset + 32 * j, spec_word_bytes(d));
}

/// The digest of non-external node `i` of a written forest that is not HASHLESS reads back from
/// the node-hash section, canonically.
#[verifier::rlimit(50)]
proof fn lemma_written_node_hash(f: &MastForest, stripped: bool, i: int)
    requires
        f.is_serializable(),
        f.spec_serialize(stripped, false).len() <= usize::MAX,
        0 <= i < f.nodes@.len(),
        !(f.nodes@[i] is External),
    ensures
        spec_word_at(
            f.spec_serialize(stripped, false),
            written_layout(f, stripped, false).node_hash_offset->Some_0 + 32 * (i - external_count(
                f.nodes@,
                i,
            )),
        ) == Some(canonical_word(f.nodes@[i].spec_digest())),
{
    let s = f.spec_serialize(stripped, false);
    let l = written_layout(f, stripped, false);
    let nodes = f.nodes@;
    let n = nodes.len() as int;
    let ext = external_count(nodes, n);
    let d = nodes[i].spec_digest();
    let j = i - external_count(nodes, i);
    let h = l.external_digest_offset + 32 * ext;
    lemma_written_pieces(f, stripped, false);
    lemma_digest_sections_len(nodes, n);
    lemma_digest_sections_len(nodes, i);
    lemma_external_count_mono(nodes, i + 1, n);
    lemma_word_roundtrip(d, Seq::empty(), Seq::empty());
    assert(Seq::<u8>::empty() + spec_word_bytes(d) + Seq::<u8>::empty() =~= spec_word_bytes(d));
    lemma_node_hash_in_section(nodes, n, i);
    lemma_subrange_of_subrange(
        s,
        h,
        l.advice_map_offset as int,
        node_hash_bytes(nodes, n),
        32 * j,
        32 * j + 32,
    );
    lemma_word_transfer(s, h + 32 * j, spec_word_bytes(d));
}

/// The written layout counts the nodes of the forest.
#[verifier::rlimit(50)]
proof fn lemma_written_node_count(f: &MastForest, stripped: bool, hashless: bool)
    requires
        f.spec_serialize(stripped, hashless).len() <= usize::MAX,
    ensures
        written_layout(f, stripped, hashless).node_count == f.nodes@.len(),
        written_layout(f, stripped, hashless).roots_count == f.roots@.len(),
{
    lemma_written_pieces(f, stripped, hashless);
}

/// The digest of node `i` of a written forest, as random access reads it.
proof fn lemma_written_digest(f: &MastForest, stripped: bool, hashless: bool, i: int, t: Option<
    Seq<Word>,
>)
    requires
        f.is_serializable(),
        f.spec_serialize(stripped, hashless).len() <= usize::MAX,
        0 <= i < f.nodes@.len(),
        f.nodes@[i] is External || (!hashless && t is None),
    ensures
        spec_node_digest(
            f.spec_serialize(stripped, hashless),
            written_layout(f, stripped, hashless),
            t,
            i,
        ) == Ok::<Word, crate::bytes::DeserializationError>(
            canonical_word(f.nodes@[i].spec_digest()),
        ),
{
    let s = f.spec_serialize(stripped, hashless);
    let l = written_layout(f, stripped, hashless);
    lemma_written_entry(f, stripped, hashless, i);
    lemma_written_scan_entries(f, stripped, hashless, i);
    lemma_written_node_count(f, stripped, hashless);
    if f.nodes@[i] is External {
        assert(entry_type(f.nodes@, i) is External);
        assert(entry_type_at(s, l, i) matches Ok(MastNodeType::External));
        assert(digest_slot(s, l, i) == external_count(f.nodes@, i));
        lemma_written_external_digest(f, stripped, hashless, i);
    } else {
        assert(!(entry_type(f.nodes@, i) is External));
        assert(!(entry_type_at(s, l, i) matches Ok(MastNodeType::External)));
        lemma_external_count_mono(f.nodes@, 0, i);
        assert(digest_slot(s, l, i) == i - external_count(f.nodes@, i));
        lemma_written_node_hash(f, stripped, i);
    }
}

/// What a read gives back of a write: scanning the bytes that
/// [`MastForest::write_into_with_options`] writes succeeds (HASHLESS bytes wherever they are
/// allowed) with the flags that were written and the node and root counts of the forest; entry
/// `i` is the entry written for node `i`; every root that names a node reads back; the digest of
/// every external node reads back, and, unless the bytes are HASHLESS, so does the digest of
/// every node, and resolving the digests needs no rebuilt table. Digests read back with
/// canonical elements.
pub proof fn lemma_view_of_written_forest(
    f: &MastForest,
    stripped: bool,
    hashless: bool,
    allow_hashless: bool,
)
    requires
        f.is_serializable(),
        hashless ==> allow_hashless,
        f.spec_serialize(stripped, hashless).len() <= usize::MAX,
    ensures
        ({
            let s = f.spec_serialize(stripped, hashless);
            let nodes = f.nodes@;
            let roots = f.roots@;
            let n = nodes.len() as int;
            let ext = external_count(nodes, n);
            let layout = spec_scan_layout(s, allow_hashless)->Ok_0.1;
            &&& spec_scan_layout(s, allow_hashless) is Ok
            &&& spec_scan_layout(s, allow_hashless)->Ok_0.0 == flags_byte(stripped, hashless)
            &&& layout.node_count == n
            &&& layout.roots_count == roots.len()
            &&& forall|i: int|
                0 <= i < n ==> #[trigger] spec_entry_at(s, layout, i) == Ok::<
                    MastNodeType,
                    crate::bytes::DeserializationError,
                >(entry_type(nodes, i))
            &&& forall|i: int|
                0 <= i < roots.len() && roots[i].0 < n ==> #[trigger] spec_root_at(s, layout, i)
                    == Ok::<crate::node::MastNodeId, crate::bytes::DeserializationError>(roots[i])
            &&& forall|i: int, t: Option<Seq<Word>>|
                0 <= i < n && nodes[i] is External ==> #[trigger] spec_node_digest(s, layout, t, i)
                    == Ok::<Word, crate::bytes::DeserializationError>(
                    canonical_word(nodes[i].spec_digest()),
                )
            &&& !hashless ==> forall|i: int|
                0 <= i < n ==> #[trigger] spec_node_digest(s, layout, None, i) == Ok::<
                    Word,
                    crate::bytes::DeserializationError,
                >(canonical_word(nodes[i].spec_digest()))
            &&& !hashless && ext <= u32::MAX && n - ext <= u32::MAX ==> forall|
                inputs: HashlessInputs,
            | #[trigger] spec_resolve(s, layout, inputs) == Ok::<
                Option<Seq<Word>>,
                crate::bytes::DeserializationError,
            >(None)
        }),
{
    let s = f.spec_serialize(stripped, hashless);
    let nodes = f.nodes@;
    let roots = f.roots@;
    let n = nodes.len() as int;
    lemma_scan_written(f, stripped, hashless, allow_hashless);
    lemma_written_pieces(f, stripped, hashless);
    let layout = written_layout(f, stripped, hashless);
    lemma_written_scan_entries(f, stripped, hashless, n);
    assert forall|i: int| 0 <= i < n implies #[trigger] spec_entry_at(s, layout, i) == Ok::<
        MastNodeType,
        crate::bytes::DeserializationError,
    >(entry_type(nodes, i)) by {
        lemma_written_entry(f, stripped, hashless, i);
    }
    assert forall|i: int| 0 <= i < roots.len() && roots[i].0 < n implies #[trigger] spec_root_at(
        s,
        layout,
        i,
    ) == Ok::<crate::node::MastNodeId, crate::bytes::DeserializationError>(roots[i]) by {
        lemma_written_root(f, stripped, hashless, i);
    }
    assert forall|i: int, t: Option<Seq<Word>>|
        0 <= i < n && nodes[i] is External implies #[trigger] spec_node_digest(s, layout, t, i)
        == Ok::<Word, crate::bytes::DeserializationError>(
        canonical_word(nodes[i].spec_digest()),
    ) by {
        lemma_written_digest(f, stripped, hashless, i, t);
    }
    if !hashless {
        assert forall|i: int| 0 <= i < n implies #[trigger] spec_node_digest(s, layout, None, i)
            == Ok::<Word, crate::bytes::DeserializationError>(
            canonical_word(nodes[i].spec_digest()),
        ) by {
            lemma_written_digest(f, stripped, hashless, i, None);
        }
    }
}

// MATERIALIZING
// ================================================================================================

/// Every child id names a node of the forest, and so does every root.
pub open spec fn ids_in_bounds(f: &MastForest) -> bool {
    let nodes = f.nodes@;
    let n = nodes.len() as int;
    &&& forall|i: int|
        0 <= i < n ==> (#[trigger] spec_builder(
            entry_type(nodes, i),
            n as usize,
            Word { a: 0, b: 0, c: 0, d: 0 },
        )) is Ok
    &&& forall|i: int| 0 <= i < f.roots@.len() ==> (#[trigger] f.roots@[i]).0 < n
}

/// The node builder that reading gives for node `i`: its entry with its canonical digest.
pub open spec fn expected_builder(f: &MastForest, i: int) -> MastNodeBuilder {
    spec_builder(
        entry_type(f.nodes@, i),
        f.nodes@.len() as usize,
        canonical_word(f.nodes@[i].spec_digest()),
    )->Ok_0
}

/// Whether a builder result holds is independent of the digest handed to it.
proof fn lemma_builder_ok_any_digest(t: MastNodeType, n: usize, d: Word)
    ensures
        spec_builder(t, n, d) is Ok == spec_builder(t, n, Word { a: 0, b: 0, c: 0, d: 0 }) is Ok,
{
}

/// The builders of the first `k` nodes of a written forest.
proof fn lemma_written_builders(f: &MastForest, stripped: bool, k: int)
    requires
        f.is_serializable(),
        ids_in_bounds(f),
        f.spec_serialize(stripped, false).len() <= usize::MAX,
        0 <= k <= f.nodes@.len(),
    ensures
        spec_builders(
            f.spec_serialize(stripped, false),
            written_layout(f, stripped, false),
            None,
            k,
        ) == Ok::<Seq<MastNodeBuilder>, crate::bytes::DeserializationError>(
            Seq::new(k as nat, |i: int| expected_builder(f, i)),
        ),
    decreases k,
{
    if k > 0 {
        let s = f.spec_serialize(stripped, false);
        let l = written_layout(f, stripped, false);
        let i = k - 1;
        lemma_written_builders(f, stripped, i);
        lemma_written_digest(f, stripped, false, i, None);
        lemma_written_entry(f, stripped, false, i);
        lemma_written_node_count(f, stripped, false);
        lemma_builder_ok_any_digest(
            entry_type(f.nodes@, i),
            f.nodes@.len() as usize,
            canonical_word(f.nodes@[i].spec_digest()),
        );
        assert(spec_builder(
            entry_type(f.nodes@, i),
            f.nodes@.len() as usize,
            Word { a: 0, b: 0, c: 0, d: 0 },
        ) is Ok);
        assert(spec_node_digest(s, l, None, i) == Ok::<Word, crate::bytes::DeserializationError>(
            canonical_word(f.nodes@[i].spec_digest()),
        ));
        assert(entry_type_at(s, l, i)->Ok_0 == entry_type(f.nodes@, i));
        assert(Seq::new(i as nat, |j: int| expected_builder(f, j)).push(expected_builder(f, i))
            =~= Seq::new(k as nat, |j: int| expected_builder(f, j)));
    } else {
        assert(Seq::new(0, |j: int| expected_builder(f, j)) =~= Seq::<MastNodeBuilder>::empty());
    }
}

/// The first `k` roots of a written forest.
proof fn lemma_written_roots(f: &MastForest, stripped: bool, hashless: bool, k: int)
    requires
        ids_in_bounds(f),
        f.spec_serialize(stripped, hashless).len() <= usize::MAX,
        0 <= k <= f.roots@.len(),
    ensures
        spec_roots(f.spec_serialize(stripped, hashless), written_layout(f, stripped, hashless), k)
            == Ok::<Seq<MastNodeId>, crate::bytes::DeserializationError>(f.roots@.take(k)),
    decreases k,
{
    if k > 0 {
        lemma_written_roots(f, stripped, hashless, k - 1);
        lemma_written_root(f, stripped, hashless, k - 1);
        lemma_written_node_count(f, stripped, hashless);
        let s = f.spec_serialize(stripped, hashless);
        let l = written_layout(f, stripped, hashless);
        assert(f.roots@[k - 1].0 < f.nodes@.len());
        assert(spec_root_at(s, l, k - 1) == Ok::<MastNodeId, crate::bytes::DeserializationError>(
            MastNodeId(f.roots@[k - 1].0),
        ));
        assert(MastNodeId(f.roots@[k - 1].0) == f.roots@[k - 1]);
        assert(f.roots@.take(k - 1).push(f.roots@[k - 1]) =~= f.roots@.take(k));
    } else {
        assert(f.roots@.take(0) =~= Seq::<MastNodeId>::empty());
    }
}

/// The bytes that follow the digest sections of a written forest are its advice map, then its
/// debug information unless the forest was written stripped.
pub proof fn lemma_written_trailing_bytes(f: &MastForest, stripped: bool, hashless: bool)
    requires
        f.spec_serialize(stripped, hashless).len() <= usize::MAX,
    ensures
        crate::serialized::trailing_bytes(
            f.spec_serialize(stripped, hashless),
            written_layout(f, stripped, hashless).advice_map_offset as int,
        ) == f.advice_map@ + (if stripped {
            Seq::empty()
        } else {
            f.debug_info@
        }),
{
    let s = f.spec_serialize(stripped, hashless);
    let t = f.advice_map@ + (if stripped {
        Seq::<u8>::empty()
    } else {
        f.debug_info@
    });
    crate::forest::lemma_serialize_len(f, stripped, hashless);
    lemma_written_pieces(f, stripped, hashless);
    reveal(MastForest::spec_serialize);
    assert(s.subrange(s.len() - t.len(), s.len() as int) =~= t);
}

/// What trusted reading gives back of a write: for a forest whose child ids and roots name its
/// nodes, written without the HASHLESS flag, reading the nodes gives, for each node, the builder
/// of its entry with its canonical digest, reading the roots gives its roots, and the trailing
/// bytes are its advice map (followed by its debug information when not stripped).
pub proof fn lemma_materialize_written_forest(f: &MastForest, stripped: bool)
    requires
        f.is_serializable(),
        ids_in_bounds(f),
        f.spec_serialize(stripped, false).len() <= usize::MAX,
    ensures
        ({
            let s = f.spec_serialize(stripped, false);
            let layout = spec_scan_layout(s, false)->Ok_0.1;
            &&& spec_scan_layout(s, false) is Ok
            &&& spec_builders(s, layout, None, layout.node_count as int) == Ok::<
                Seq<MastNodeBuilder>,
                crate::bytes::DeserializationError,
            >(Seq::new(f.nodes@.len(), |i: int| expected_builder(f, i)))
            &&& spec_roots(s, layout, layout.roots_count as int) == Ok::<
                Seq<MastNodeId>,
                crate::bytes::DeserializationError,
            >(f.roots@)
            &&& crate::serialized::trailing_bytes(s, layout.advice_map_offset as int)
                == f.advice_map@ + (if stripped {
                Seq::empty()
            } else {
                f.debug_info@
            })
        }),
{
    lemma_written_trailing_bytes(f, stripped, false);
    lemma_scan_written(f, stripped, false, false);
    lemma_written_node_count(f, stripped, false);
    lemma_written_builders(f, stripped, f.nodes@.len() as int);
    lemma_written_roots(f, stripped, false, f.roots@.len() as int);
    assert(f.roots@.take(f.roots@.len() as int) =~= f.roots@);
}

// RECOMPUTING THE DIGESTS OF A WRITTEN FOREST
// ================================================================================================

/// The canonical digest of node `i`.
pub open spec fn canonical_digest(f: &MastForest, i: int) -> Word {
    canonical_word(f.nodes@[i].spec_digest())
}

/// The digest of node `i` is what hashing gives from `inputs` and the digests of its children,
/// which precede it: the hash of its op groups for a basic block, its children's digests merged
/// in its kind's domain for a control node, the given digest for a dynamic node. Any digest is
/// consistent for an external node.
pub open spec fn digest_consistent(f: &MastForest, inputs: HashlessInputs, i: int) -> bool {
    let nodes = f.nodes@;
    let d = canonical_digest(f, i);
    let zero = Word { a: 0, b: 0, c: 0, d: 0 };
    match nodes[i] {
        MastNode::Block { .. } => find_block_groups(
            inputs.block_op_groups@,
            block_offset(nodes, i) as u32,
            inputs.block_op_groups@.len() as int,
        ) matches Some(g) && d == spec_hash_elements(g),
        MastNode::Join { first, second, .. } => first.0 < i && second.0 < i && d
            == spec_merge_in_domain(
            (canonical_digest(f, first.0 as int), canonical_digest(f, second.0 as int)),
            inputs.join_domain,
        ),
        MastNode::Split { on_true, on_false, .. } => on_true.0 < i && on_false.0 < i && d
            == spec_merge_in_domain(
            (canonical_digest(f, on_true.0 as int), canonical_digest(f, on_false.0 as int)),
            inputs.split_domain,
        ),
        MastNode::Loop { body, .. } => body.0 < i && d == spec_merge_in_domain(
            (canonical_digest(f, body.0 as int), zero),
            inputs.loop_domain,
        ),
        MastNode::Call { callee, is_syscall, .. } => callee.0 < i && d == spec_merge_in_domain(
            (canonical_digest(f, callee.0 as int), zero),
            if is_syscall {
                inputs.syscall_domain
            } else {
                inputs.call_domain
            },
        ),
        MastNode::Dyn { is_dyncall, .. } => d == if is_dyncall {
            inputs.dyncall_digest
        } else {
            inputs.dyn_digest
        },
        MastNode::External { .. } => true,
    }
}

/// The rebuilt digests of the first `k` nodes of a written HASHLESS forest whose digests are
/// consistent.
proof fn lemma_written_hash_table(f: &MastForest, inputs: HashlessInputs, k: int)
    requires
        f.is_serializable(),
        f.spec_serialize(true, true).len() <= usize::MAX,
        forall|i: int| 0 <= i < f.nodes@.len() ==> #[trigger] digest_consistent(f, inputs, i),
        0 <= k <= f.nodes@.len(),
    ensures
        spec_hash_table(f.spec_serialize(true, true), written_layout(f, true, true), inputs, k)
            == Ok::<Seq<Word>, crate::bytes::DeserializationError>(
            Seq::new(k as nat, |j: int| canonical_digest(f, j)),
        ),
    decreases k,
{
    if k > 0 {
        let s = f.spec_serialize(true, true);
        let l = written_layout(f, true, true);
        let i = k - 1;
        let prev = Seq::new(i as nat, |j: int| canonical_digest(f, j));
        lemma_written_hash_table(f, inputs, i);
        lemma_written_entry(f, true, true, i);
        lemma_written_node_count(f, true, true);
        assert(digest_consistent(f, inputs, i));
        if f.nodes@[i] is External {
            lemma_written_scan_entries(f, true, true, i);
            lemma_written_external_digest(f, true, true, i);
        }
        assert(crate::resolved::spec_recomputed_digest(s, l, inputs, i, prev) == Ok::<
            Word,
            crate::bytes::DeserializationError,
        >(canonical_digest(f, i)));
        assert(prev.push(canonical_digest(f, i)) =~= Seq::new(
            k as nat,
            |j: int| canonical_digest(f, j),
        ));
    } else {
        assert(Seq::new(0, |j: int| canonical_digest(f, j)) =~= Seq::<Word>::empty());
    }
}

/// What a HASHLESS read gives back of a write: when every digest of a forest is what hashing
/// its node gives (see [`digest_consistent`]), the digests rebuilt from its HASHLESS
/// serialization are its digests (canonically), and random access reads them back.
pub proof fn lemma_hashless_view_of_written_forest(f: &MastForest, inputs: HashlessInputs)
    requires
        f.is_serializable(),
        f.spec_serialize(true, true).len() <= usize::MAX,
        forall|i: int| 0 <= i < f.nodes@.len() ==> #[trigger] digest_consistent(f, inputs, i),
    ensures
        ({
            let s = f.spec_serialize(true, true);
            let layout = spec_scan_layout(s, true)->Ok_0.1;
            let n = f.nodes@.len() as int;
            let table = Seq::new(n as nat, |j: int| canonical_digest(f, j));
            &&& spec_scan_layout(s, true) is Ok
            &&& spec_hash_table(s, layout, inputs, n) == Ok::<
                Seq<Word>,
                crate::bytes::DeserializationError,
            >(table)
            &&& forall|i: int|
                0 <= i < n ==> #[trigger] spec_node_digest(s, layout, Some(table), i) == Ok::<
                    Word,
                    crate::bytes::DeserializationError,
                >(canonical_digest(f, i))
        }),
{
    let s = f.spec_serialize(true, true);
    let n = f.nodes@.len() as int;
    let table = Seq::new(n as nat, |j: int| canonical_digest(f, j));
    lemma_scan_written(f, true, true, true);
    let layout = written_layout(f, true, true);
    lemma_written_node_count(f, true, true);
    lemma_written_hash_table(f, inputs, n);
    assert forall|i: int| 0 <= i < n implies #[trigger] spec_node_digest(
        s,
        layout,
        Some(table),
        i,
    ) == Ok::<Word, crate::bytes::DeserializationError>(canonical_digest(f, i)) by {
        lemma_written_digest_or_table(f, i, table);
    }
}

/// Node `i` of a written HASHLESS forest reads its digest from the external section or from a
/// table that holds the canonical digests.
proof fn lemma_written_digest_or_table(f: &MastForest, i: int, table: Seq<Word>)
    requires
        f.is_serializable(),
        f.spec_serialize(true, true).len() <= usize::MAX,
        0 <= i < f.nodes@.len(),
        table == Seq::new(f.nodes@.len(), |j: int| canonical_digest(f, j)),
    ensures
        spec_node_digest(f.spec_serialize(true, true), written_layout(f, true, true), Some(table), i)
            == Ok::<Word, crate::bytes::DeserializationError>(canonical_digest(f, i)),
{
    if f.nodes@[i] is External {
        lemma_written_digest(f, true, true, i, Some(table));
    } else {
        lemma_written_entry(f, true, true, i);
        lemma_written_node_count(f, true, true);
    }
}

// THE TRAILING BYTES DO NOT CHANGE THE VIEW
// ================================================================================================

/// Two forests with the same nodes, roots and decorator count: they may differ only in their
/// advice maps and debug information, the bytes written after the digest sections.
pub open spec fn same_skeleton(f: &MastForest, g: &MastForest) -> bool {
    &&& f.nodes@ == g.nodes@
    &&& f.roots@ == g.roots@
    &&& f.num_decorators == g.num_decorators
}

/// Entry `i` decodes alike in the serializations of two forests with the same skeleton.
proof fn lemma_same_entry(f: &MastForest, g: &MastForest, stripped: bool, hashless: bool, i: int)
    requires
        f.is_serializable(),
        same_skeleton(f, g),
        f.spec_serialize(stripped, hashless).len() <= usize::MAX,
        g.spec_serialize(stripped, hashless).len() <= usize::MAX,
        0 <= i < f.nodes@.len(),
    ensures
        entry_type_at(f.spec_serialize(stripped, hashless), written_layout(f, stripped, hashless), i)
            == entry_type_at(
            g.spec_serialize(stripped, hashless),
            written_layout(f, stripped, hashless),
            i,
        ),
        entry_type_at(f.spec_serialize(stripped, hashless), written_layout(f, stripped, hashless), i)
            == Ok::<MastNodeType, crate::bytes::DeserializationError>(entry_type(f.nodes@, i)),
{
    assert(written_layout(f, stripped, hashless) == written_layout(g, stripped, hashless));
    lemma_written_entry(f, stripped, hashless, i);
    lemma_written_entry(g, stripped, hashless, i);
}

/// The external digest of node `i` reads alike in the serializations of two forests with the
/// same skeleton.
proof fn lemma_same_external_digest(
    f: &MastForest,
    g: &MastForest,
    stripped: bool,
    hashless: bool,
    i: int,
)
    requires
        f.is_serializable(),
        same_skeleton(f, g),
        f.spec_serialize(stripped, hashless).len() <= usize::MAX,
        g.spec_serialize(stripped, hashless).len() <= usize::MAX,
        0 <= i < f.nodes@.len(),
        f.nodes@[i] is External,
    ensures
        ({
            let l = written_layout(f, stripped, hashless);
            let sf = f.spec_serialize(stripped, hashless);
            let sg = g.spec_serialize(stripped, hashless);
            &&& external_before(sf, l, i) == external_before(sg, l, i)
            &&& crate::resolved::spec_digest_read(sf, l.external_digest_offset + 32 * external_before(sf, l, i))
                == crate::resolved::spec_digest_read(sg, l.external_digest_offset + 32 * external_before(sg, l, i))
        }),
{
    assert(written_layout(f, stripped, hashless) == written_layout(g, stripped, hashless));
    lemma_written_scan_entries(f, stripped, hashless, i);
    lemma_written_scan_entries(g, stripped, hashless, i);
    lemma_written_entry(f, stripped, hashless, i);
    lemma_written_entry(g, stripped, hashless, i);
    lemma_written_digest(f, stripped, hashless, i, None);
    lemma_written_digest(g, stripped, hashless, i, None);
}

/// The digest tables rebuilt from the serializations of two forests with the same skeleton
/// agree.
proof fn lemma_same_hash_table(
    f: &MastForest,
    g: &MastForest,
    stripped: bool,
    hashless: bool,
    inputs: HashlessInputs,
    k: int,
)
    requires
        f.is_serializable(),
        same_skeleton(f, g),
        f.spec_serialize(stripped, hashless).len() <= usize::MAX,
        g.spec_serialize(stripped, hashless).len() <= usize::MAX,
        0 <= k <= f.nodes@.len(),
    ensures
        spec_hash_table(f.spec_serialize(stripped, hashless), written_layout(f, stripped, hashless), inputs, k)
            == spec_hash_table(
            g.spec_serialize(stripped, hashless),
            written_layout(f, stripped, hashless),
            inputs,
            k,
        ),
    decreases k,
{
    if k > 0 {
        let l = written_layout(f, stripped, hashless);
        let sf = f.spec_serialize(stripped, hashless);
        let sg = g.spec_serialize(stripped, hashless);
        lemma_same_hash_table(f, g, stripped, hashless, inputs, k - 1);
        lemma_same_entry(f, g, stripped, hashless, k - 1);
        if f.nodes@[k - 1] is External {
            lemma_same_external_digest(f, g, stripped, hashless, k - 1);
        }
        match spec_hash_table(sf, l, inputs, k - 1) {
            Err(_) => {},
            Ok(prev) => {
                assert(spec_recomputed_digest(sf, l, inputs, k - 1, prev) == spec_recomputed_digest(
                    sg,
                    l,
                    inputs,
                    k - 1,
                    prev,
                ));
            },
        }
    }
}

/// Two forests with the same skeleton serialize to the same bytes before the advice map.
#[verifier::rlimit(60)]
proof fn lemma_same_prefix(f: &MastForest, g: &MastForest, stripped: bool, hashless: bool)
    requires
        same_skeleton(f, g),
        f.spec_serialize(stripped, hashless).len() <= usize::MAX,
        g.spec_serialize(stripped, hashless).len() <= usize::MAX,
    ensures
        ({
            let sf = f.spec_serialize(stripped, hashless);
            let sg = g.spec_serialize(stripped, hashless);
            let off = written_layout(f, stripped, hashless).advice_map_offset as int;
            sg == sf.subrange(0, off) + g.advice_map@ + (if stripped {
                Seq::empty()
            } else {
                g.debug_info@
            })
        }),
{
    let sf = f.spec_serialize(stripped, hashless);
    let sg = g.spec_serialize(stripped, hashless);
    assert(written_layout(f, stripped, hashless) == written_layout(g, stripped, hashless));
    let off = written_layout(f, stripped, hashless).advice_map_offset as int;
    let tf = f.advice_map@ + (if stripped {
        Seq::<u8>::empty()
    } else {
        f.debug_info@
    });
    let tg = g.advice_map@ + (if stripped {
        Seq::<u8>::empty()
    } else {
        g.debug_info@
    });
    lemma_written_pieces(f, stripped, hashless);
    lemma_written_pieces(g, stripped, hashless);
    lemma_written_trailing_bytes(f, stripped, hashless);
    lemma_written_trailing_bytes(g, stripped, hashless);
    crate::forest::lemma_serialize_len(f, stripped, hashless);
    crate::forest::lemma_serialize_len(g, stripped, hashless);
    assert(off + tf.len() == sf.len());
    assert(off + tg.len() == sg.len());
    reveal(MastForest::spec_serialize);
    assert(sf.subrange(0, off) =~= sg.subrange(0, off));
    assert(sg =~= sg.subrange(0, off) + tg);
}

/// Random access to entry `i` agrees on two forests with the same skeleton.
proof fn lemma_same_entry_at(f: &MastForest, g: &MastForest, stripped: bool, hashless: bool, i: int)
    requires
        f.is_serializable(),
        same_skeleton(f, g),
        f.spec_serialize(stripped, hashless).len() <= usize::MAX,
        g.spec_serialize(stripped, hashless).len() <= usize::MAX,
    ensures
        spec_entry_at(g.spec_serialize(stripped, hashless), written_layout(f, stripped, hashless), i)
            == spec_entry_at(f.spec_serialize(stripped, hashless), written_layout(f, stripped, hashless), i),
{
    lemma_written_node_count(f, stripped, hashless);
    if 0 <= i < f.nodes@.len() {
        lemma_same_entry(f, g, stripped, hashless, i);
    }
}

/// Random access to root `i` agrees on two forests with the same skeleton.
proof fn lemma_same_root_at(f: &MastForest, g: &MastForest, stripped: bool, hashless: bool, i: int)
    requires
        same_skeleton(f, g),
        f.spec_serialize(stripped, hashless).len() <= usize::MAX,
        g.spec_serialize(stripped, hashless).len() <= usize::MAX,
    ensures
        spec_root_at(g.spec_serialize(stripped, hashless), written_layout(f, stripped, hashless), i)
            == spec_root_at(f.spec_serialize(stripped, hashless), written_layout(f, stripped, hashless), i),
{
    assert(written_layout(f, stripped, hashless) == written_layout(g, stripped, hashless));
    lemma_written_node_count(f, stripped, hashless);
    if 0 <= i < f.roots@.len() {
        lemma_written_root(f, stripped, hashless, i);
        lemma_written_root(g, stripped, hashless, i);
    }
}

/// Random access to the digest of node `i` agrees on two forests with the same skeleton, given
/// a rebuilt table when the forests are written HASHLESS.
proof fn lemma_same_node_digest(
    f: &MastForest,
    g: &MastForest,
    stripped: bool,
    hashless: bool,
    i: int,
    t: Option<Seq<Word>>,
)
    requires
        f.is_serializable(),
        same_skeleton(f, g),
        f.spec_serialize(stripped, hashless).len() <= usize::MAX,
        g.spec_serialize(stripped, hashless).len() <= usize::MAX,
        hashless ==> t is Some,
    ensures
        spec_node_digest(g.spec_serialize(stripped, hashless), written_layout(f, stripped, hashless), t, i)
            == spec_node_digest(f.spec_serialize(stripped, hashless), written_layout(f, stripped, hashless), t, i),
{
    assert(written_layout(f, stripped, hashless) == written_layout(g, stripped, hashless));
    lemma_written_node_count(f, stripped, hashless);
    if 0 <= i < f.nodes@.len() {
        lemma_same_entry(f, g, stripped, hashless, i);
        if f.nodes@[i] is External {
            lemma_written_digest(f, stripped, hashless, i, t);
            lemma_written_digest(g, stripped, hashless, i, t);
        } else if t is None {
            lemma_written_digest(f, stripped, hashless, i, None);
            lemma_written_digest(g, stripped, hashless, i, None);
        }
    }
}

/// Resolving the digests agrees on two forests with the same skeleton.
proof fn lemma_same_resolve(
    f: &MastForest,
    g: &MastForest,
    stripped: bool,
    hashless: bool,
    inputs: HashlessInputs,
)
    requires
        f.is_serializable(),
        same_skeleton(f, g),
        f.spec_serialize(stripped, hashless).len() <= usize::MAX,
        g.spec_serialize(stripped, hashless).len() <= usize::MAX,
    ensures
        spec_resolve(g.spec_serialize(stripped, hashless), written_layout(f, stripped, hashless), inputs)
            == spec_resolve(f.spec_serialize(stripped, hashless), written_layout(f, stripped, hashless), inputs),
{
    let n = f.nodes@.len() as int;
    assert(written_layout(f, stripped, hashless) == written_layout(g, stripped, hashless));
    lemma_written_node_count(f, stripped, hashless);
    lemma_written_scan_entries(f, stripped, hashless, n);
    lemma_written_scan_entries(g, stripped, hashless, n);
    lemma_same_hash_table(f, g, stripped, hashless, inputs, n);
}

/// Random access ignores the bytes after the digest sections: two forests that differ only in
/// their advice maps and debug information (so any trailing bytes can stand after the shared
/// sections) serialize to bytes that share everything before the advice map, scan to the same
/// flags and layout, and give the same entries, roots, digests and rebuilt digest tables.
pub proof fn lemma_view_ignores_trailing_bytes(
    f: &MastForest,
    g: &MastForest,
    stripped: bool,
    hashless: bool,
)
    requires
        f.is_serializable(),
        same_skeleton(f, g),
        f.spec_serialize(stripped, hashless).len() <= usize::MAX,
        g.spec_serialize(stripped, hashless).len() <= usize::MAX,
    ensures
        ({
            let sf = f.spec_serialize(stripped, hashless);
            let sg = g.spec_serialize(stripped, hashless);
            let l = spec_scan_layout(sf, true)->Ok_0.1;
            let off = l.advice_map_offset as int;
            &&& spec_scan_layout(sf, true) is Ok
            &&& spec_scan_layout(sg, true) == spec_scan_layout(sf, true)
            &&& sg == sf.subrange(0, off) + g.advice_map@ + (if stripped {
                Seq::empty()
            } else {
                g.debug_info@
            })
            &&& forall|i: int| #[trigger] spec_entry_at(sg, l, i) == spec_entry_at(sf, l, i)
            &&& forall|i: int| #[trigger] spec_root_at(sg, l, i) == spec_root_at(sf, l, i)
            &&& forall|i: int, t: Option<Seq<Word>>|
                (hashless ==> t is Some) ==> #[trigger] spec_node_digest(sg, l, t, i)
                    == spec_node_digest(sf, l, t, i)
            &&& forall|inputs: HashlessInputs| #[trigger] spec_resolve(sg, l, inputs)
                == spec_resolve(sf, l, inputs)
        }),
{
    let sf = f.spec_serialize(stripped, hashless);
    let sg = g.spec_serialize(stripped, hashless);
    let l = written_layout(f, stripped, hashless);
    assert(written_layout(f, stripped, hashless) == written_layout(g, stripped, hashless));
    lemma_scan_written(f, stripped, hashless, true);
    lemma_scan_written(g, stripped, hashless, true);
    lemma_same_prefix(f, g, stripped, hashless);
    assert forall|i: int| #[trigger] spec_entry_at(sg, l, i) == spec_entry_at(sf, l, i) by {
        lemma_same_entry_at(f, g, stripped, hashless, i);
    }
    assert forall|i: int| #[trigger] spec_root_at(sg, l, i) == spec_root_at(sf, l, i) by {
        lemma_same_root_at(f, g, stripped, hashless, i);
    }
    assert forall|i: int, t: Option<Seq<Word>>|
        (hashless ==> t is Some) implies #[trigger] spec_node_digest(sg, l, t, i)
        == spec_node_digest(sf, l, t, i) by {
        lemma_same_node_digest(f, g, stripped, hashless, i, t);
    }
    assert forall|inputs: HashlessInputs| #[trigger] spec_resolve(sg, l, inputs) == spec_resolve(
        sf,
        l,
        inputs,
    ) by {
        lemma_same_resolve(f, g, stripped, hashless, inputs);
    }
}

} // verus!
