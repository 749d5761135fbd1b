use mast_logup::bytes::{read_usize_at, DeserializationError, InvalidValue};
use mast_logup::field::Word;
use mast_logup::forest::{
    basic_block_offset_for_node_index, hashless_size_hint, serialized_size_hint,
    stripped_size_hint, HashlessMastForest, MastForest, StrippedMastForest,
};
use mast_logup::info::MastNodeType;
use mast_logup::layout::read_header_and_scan_layout;
use mast_logup::node::{MastNode, MastNodeBuilder, MastNodeId};
use mast_logup::resolved::{checked_child_index, HashlessInputs};
use mast_logup::serialized::{
    read_trusted_forest, read_untrusted_with_flags, SerializedMastForest, UntrustedWarning,
};
use miden_crypto::hash::poseidon2::Poseidon2;
use miden_crypto::Felt;

fn word(a: u64) -> Word {
    Word::new([a, a + 1, a + 2, a + 3])
}

/// A forest of a block, an external node, a join of both and a loop around the join.
fn sample_forest() -> MastForest {
    MastForest {
        nodes: vec![
            MastNode::Block { data: vec![1, 2, 3], digest: word(10) },
            MastNode::External { digest: word(20) },
            MastNode::Join { first: MastNodeId(0), second: MastNodeId(1), digest: word(30) },
            MastNode::Block { data: vec![4, 5], digest: word(40) },
            MastNode::Loop { body: MastNodeId(2), digest: word(50) },
        ],
        roots: vec![MastNodeId(4), MastNodeId(2)],
        advice_map: vec![0xaa, 0xbb],
        debug_info: vec![0xcc],
        num_decorators: 3,
    }
}

fn no_inputs() -> HashlessInputs {
    HashlessInputs {
        join_domain: 0,
        split_domain: 0,
        loop_domain: 0,
        call_domain: 0,
        syscall_domain: 0,
        dyn_digest: Word::new([0, 0, 0, 0]),
        dyncall_digest: Word::new([0, 0, 0, 0]),
        block_op_groups: Vec::new(),
    }
}

fn poseidon_merge(a: Word, b: Word, domain: u64) -> Word {
    let to = |w: Word| {
        miden_crypto::Word::new([Felt::new(w.a), Felt::new(w.b), Felt::new(w.c), Felt::new(w.d)])
    };
    let d = Poseidon2::merge_in_domain(&[to(a), to(b)], Felt::new(domain));
    Word::new([
        d[0].as_canonical_u64(),
        d[1].as_canonical_u64(),
        d[2].as_canonical_u64(),
        d[3].as_canonical_u64(),
    ])
}

fn poseidon_hash(elements: &[u64]) -> Word {
    let felts: Vec<Felt> = elements.iter().map(|e| Felt::new(*e)).collect();
    let d = Poseidon2::hash_elements(&felts);
    Word::new([
        d[0].as_canonical_u64(),
        d[1].as_canonical_u64(),
        d[2].as_canonical_u64(),
        d[3].as_canonical_u64(),
    ])
}

#[test]
fn full_serialization_reads_back() {
    let forest = sample_forest();
    let mut bytes = Vec::new();
    forest.write_into(&mut bytes);
    assert_eq!(&bytes[0..4], b"MAST");
    assert_eq!(bytes[4], 0);
    assert_eq!(&bytes[5..8], &[0, 0, 4]);
    assert_eq!(bytes.len(), serialized_size_hint(&forest, false, false));

    let view = SerializedMastForest::new(&bytes, &no_inputs()).unwrap();
    assert_eq!(view.node_count(), 5);
    assert!(!view.is_stripped());
    assert!(!view.is_hashless());
    assert_eq!(view.procedure_root_count(), 2);
    assert_eq!(view.procedure_root_at(0), Ok(MastNodeId(4)));
    assert_eq!(view.procedure_root_at(1), Ok(MastNodeId(2)));
    assert_eq!(
        view.procedure_root_at(2),
        Err(DeserializationError::InvalidValue(InvalidValue::RootIndexOutOfBounds {
            index: 2,
            root_count: 2
        }))
    );
    for i in 0..5 {
        assert_eq!(view.node_entry_at(i).unwrap(), forest.node_entry_at(i).unwrap());
        assert_eq!(view.node_digest_at(i), forest.node_digest_at(i));
        let info = view.node_info_at(i).unwrap();
        assert_eq!(info.digest(), forest.nodes[i].digest());
    }
    assert_eq!(view.node_entry_at(3).unwrap().node_type(), MastNodeType::Block { ops_offset: 3 });
    assert_eq!(
        view.node_entry_at(2).unwrap().node_type(),
        MastNodeType::Join { left_child_id: 0, right_child_id: 1 }
    );
    assert_eq!(view.digest_slot_at(1), 0);
    assert_eq!(view.digest_slot_at(2), 1);
    assert_eq!(view.node_entry_size(), 8);
    // The advice map follows the digests, and the debug info follows the advice map.
    let advice = view.advice_map_offset();
    assert_eq!(&bytes[advice..], &[0xaa, 0xbb, 0xcc]);
    assert_eq!(view.node_hash_offset(), Some(view.node_entry_offset() + 5 * 8 + 32));
    assert_eq!(
        view.node_entry_at(5),
        Err(DeserializationError::InvalidValue(InvalidValue::NodeIndexOutOfBounds {
            index: 5,
            node_count: 5
        }))
    );
}

#[test]
fn stripped_serialization_omits_debug_info() {
    let forest = sample_forest();
    let mut bytes = Vec::new();
    StrippedMastForest(&forest).write_into(&mut bytes);
    assert_eq!(bytes[4], 1);
    assert_eq!(bytes.len(), stripped_size_hint(&forest));
    assert_eq!(bytes.len(), StrippedMastForest(&forest).get_size_hint());
    // decorator count is written as 0
    assert_eq!(bytes[9], 1);
    let view = SerializedMastForest::new(&bytes, &no_inputs()).unwrap();
    assert!(view.is_stripped());
    assert_eq!(&bytes[view.advice_map_offset()..], &[0xaa, 0xbb]);
    for i in 0..5 {
        assert_eq!(view.node_digest_at(i), forest.node_digest_at(i));
    }
}

#[test]
fn hashless_serialization_recomputes_digests() {
    let forest = sample_forest();
    let mut bytes = Vec::new();
    HashlessMastForest(&forest).write_into(&mut bytes);
    assert_eq!(bytes[4], 3);
    assert_eq!(bytes.len(), hashless_size_hint(&forest));
    assert_eq!(bytes.len(), HashlessMastForest(&forest).get_size_hint());

    let inputs = HashlessInputs {
        join_domain: 7,
        split_domain: 8,
        loop_domain: 9,
        call_domain: 10,
        syscall_domain: 11,
        dyn_digest: word(60),
        dyncall_digest: word(70),
        block_op_groups: vec![(0, vec![1, 2, 3]), (3, vec![4, 5])],
    };
    let view = SerializedMastForest::new(&bytes, &inputs).unwrap();
    assert!(view.is_hashless());
    assert_eq!(view.node_hash_offset(), None);
    let block0 = poseidon_hash(&[1, 2, 3]);
    let block3 = poseidon_hash(&[4, 5]);
    assert_eq!(view.node_digest_at(0), Ok(block0));
    // External digests still come from the wire.
    assert_eq!(view.node_digest_at(1), Ok(word(20)));
    let join = poseidon_merge(block0, word(20), 7);
    assert_ne!(join, block0);
    assert_eq!(view.node_digest_at(2), Ok(join));
    assert_eq!(view.node_digest_at(3), Ok(block3));
    assert_eq!(view.node_digest_at(4), Ok(poseidon_merge(join, Word::new([0, 0, 0, 0]), 9)));

    // Without the op groups of its blocks, a hashless forest cannot be read.
    assert_eq!(
        SerializedMastForest::new(&bytes, &no_inputs()).err(),
        Some(DeserializationError::InvalidValue(InvalidValue::MissingBlockGroups(0)))
    );
}

#[test]
fn trusted_reading_rejects_hashless_input() {
    let forest = sample_forest();
    let mut bytes = Vec::new();
    HashlessMastForest(&forest).write_into(&mut bytes);
    assert_eq!(
        read_trusted_forest(&bytes).err(),
        Some(DeserializationError::InvalidValue(InvalidValue::HashlessRejected))
    );
}

#[test]
fn trusted_reading_materializes_builders() {
    let forest = sample_forest();
    let mut bytes = Vec::new();
    forest.write_into(&mut bytes);
    let (builders, roots, trailing) = read_trusted_forest(&bytes).unwrap();
    assert_eq!(roots, vec![MastNodeId(4), MastNodeId(2)]);
    // The full format keeps the advice map, then the debug info.
    assert_eq!(trailing, vec![0xaa, 0xbb, 0xcc]);
    assert_eq!(builders.len(), 5);
    assert_eq!(builders[0], MastNodeBuilder::BasicBlock { ops_offset: 0, digest: word(10) });
    assert_eq!(builders[1], MastNodeBuilder::External { digest: word(20) });
    assert_eq!(
        builders[2],
        MastNodeBuilder::Join { left: MastNodeId(0), right: MastNodeId(1), digest: word(30) }
    );
    assert_eq!(builders[3], MastNodeBuilder::BasicBlock { ops_offset: 3, digest: word(40) });
    assert_eq!(builders[4], MastNodeBuilder::Loop { body: MastNodeId(2), digest: word(50) });
}

#[test]
fn trusted_reading_of_stripped_input_gives_back_the_advice_map() {
    let forest = sample_forest();
    let mut bytes = Vec::new();
    StrippedMastForest(&forest).write_into(&mut bytes);
    let (builders, roots, trailing) = read_trusted_forest(&bytes).unwrap();
    assert_eq!(builders.len(), 5);
    assert_eq!(roots, vec![MastNodeId(4), MastNodeId(2)]);
    assert_eq!(trailing, forest.advice_map);
}

#[test]
fn hashless_size_is_stripped_size_without_the_node_hashes() {
    let forest = sample_forest();
    // Four of the five nodes are not external.
    assert_eq!(hashless_size_hint(&forest) + 32 * 4, stripped_size_hint(&forest));
}

#[test]
fn untrusted_reading_reports_overspecification() {
    let forest = sample_forest();
    let mut full = Vec::new();
    forest.write_into(&mut full);
    let (untrusted, flags, warnings) = read_untrusted_with_flags(&full).unwrap();
    assert_eq!(flags, 0);
    assert_eq!(
        warnings,
        vec![UntrustedWarning::NodeHashesIgnored, UntrustedWarning::DebugInfoIncluded]
    );
    let (builders, roots) = untrusted.into_materialized(&no_inputs()).unwrap();
    assert_eq!(builders.len(), 5);
    assert_eq!(roots.len(), 2);

    let mut hashless = Vec::new();
    HashlessMastForest(&forest).write_into(&mut hashless);
    let (_untrusted, flags, warnings) = read_untrusted_with_flags(&hashless).unwrap();
    assert_eq!(flags, 3);
    assert!(warnings.is_empty());
}

#[test]
fn header_errors() {
    let forest = sample_forest();
    let mut bytes = Vec::new();
    StrippedMastForest(&forest).write_into(&mut bytes);

    let mut bad_magic = bytes.clone();
    bad_magic[0] = b'N';
    assert_eq!(
        read_header_and_scan_layout(&bad_magic, true).err(),
        Some(DeserializationError::InvalidValue(InvalidValue::BadMagic))
    );

    let mut reserved = bytes.clone();
    reserved[4] = 0x05;
    assert_eq!(
        read_header_and_scan_layout(&reserved, true).err(),
        Some(DeserializationError::InvalidValue(InvalidValue::ReservedFlags(0x05)))
    );

    let mut hashless_only = bytes.clone();
    hashless_only[4] = 0x02;
    assert_eq!(
        read_header_and_scan_layout(&hashless_only, true).err(),
        Some(DeserializationError::InvalidValue(InvalidValue::HashlessNotStripped))
    );

    let mut version = bytes.clone();
    version[7] = 3;
    assert_eq!(
        read_header_and_scan_layout(&version, true).err(),
        Some(DeserializationError::InvalidValue(InvalidValue::UnsupportedVersion))
    );

    assert_eq!(
        read_header_and_scan_layout(&bytes[..6], true).err(),
        Some(DeserializationError::UnexpectedEOF)
    );

    // Cutting the bytes inside the node entries fails the scan.
    let view = SerializedMastForest::new(&bytes, &no_inputs()).unwrap();
    let cut = view.node_entry_offset() + 4;
    assert_eq!(
        read_header_and_scan_layout(&bytes[..cut], true).err(),
        Some(DeserializationError::UnexpectedEOF)
    );
}

#[test]
fn bad_root_is_reported_on_access() {
    let mut forest = sample_forest();
    forest.roots = vec![MastNodeId(9)];
    let mut bytes = Vec::new();
    forest.write_into(&mut bytes);
    let view = SerializedMastForest::new(&bytes, &no_inputs()).unwrap();
    assert_eq!(
        view.procedure_root_at(0),
        Err(DeserializationError::InvalidValue(InvalidValue::ChildOutOfBounds {
            child_id: 9,
            node_count: 5
        }))
    );
}

#[test]
fn vint64_round_trips() {
    let values: [usize; 9] =
        [0, 1, 0x7f, 0x80, 0x3fff, 0x4000, 0x1f_ffff, 0xffff_ffff, usize::MAX];
    for v in values {
        let forest = MastForest {
            nodes: Vec::new(),
            roots: Vec::new(),
            advice_map: Vec::new(),
            debug_info: Vec::new(),
            num_decorators: v,
        };
        let mut bytes = Vec::new();
        forest.write_into(&mut bytes);
        let mut offset = 9usize;
        assert_eq!(read_usize_at(&bytes, &mut offset), Ok(v));
    }
}

#[test]
fn block_offsets() {
    let forest = sample_forest();
    assert_eq!(basic_block_offset_for_node_index(&forest.nodes, 0), Ok(0));
    assert_eq!(basic_block_offset_for_node_index(&forest.nodes, 3), Ok(3));
    assert_eq!(basic_block_offset_for_node_index(&forest.nodes, 10), Ok(5));
}

#[test]
fn child_index_checks() {
    assert_eq!(checked_child_index(3, 1, 5), Ok(1));
    assert_eq!(
        checked_child_index(3, 3, 5),
        Err(DeserializationError::InvalidValue(InvalidValue::ForwardReference {
            parent_index: 3,
            child_id: 3
        }))
    );
    assert_eq!(
        checked_child_index(3, 5, 5),
        Err(DeserializationError::InvalidValue(InvalidValue::ChildOutOfBounds {
            child_id: 5,
            node_count: 5
        }))
    );
}

#[test]
fn forward_reference_in_hashless_input_is_rejected() {
    let forest = MastForest {
        nodes: vec![
            MastNode::Loop { body: MastNodeId(1), digest: word(1) },
            MastNode::Dyn { is_dyncall: false, digest: word(2) },
        ],
        roots: Vec::new(),
        advice_map: Vec::new(),
        debug_info: Vec::new(),
        num_decorators: 0,
    };
    let mut bytes = Vec::new();
    HashlessMastForest(&forest).write_into(&mut bytes);
    assert_eq!(
        SerializedMastForest::new(&bytes, &no_inputs()).err(),
        Some(DeserializationError::InvalidValue(InvalidValue::ForwardReference {
            parent_index: 0,
            child_id: 1
        }))
    );
}

#[test]
fn non_canonical_digest_is_rejected_on_read() {
    let forest = MastForest {
        nodes: vec![MastNode::External { digest: Word::new([0, 0, 0, 0]) }],
        roots: Vec::new(),
        advice_map: Vec::new(),
        debug_info: Vec::new(),
        num_decorators: 0,
    };
    let mut bytes = Vec::new();
    StrippedMastForest(&forest).write_into(&mut bytes);
    let view = SerializedMastForest::new(&bytes, &no_inputs()).unwrap();
    let offset = view.advice_map_offset() - 32;
    for b in &mut bytes[offset..offset + 8] {
        *b = 0xff;
    }
    let view = SerializedMastForest::new(&bytes, &no_inputs()).unwrap();
    assert_eq!(
        view.node_digest_at(0),
        Err(DeserializationError::InvalidValue(InvalidValue::NonCanonicalDigest))
    );
}

#[test]
fn oversized_section_is_an_offset_overflow() {
    let mut bytes: Vec<u8> = b"MAST".to_vec();
    bytes.extend_from_slice(&[0, 0, 0, 4]);
    bytes.push(0x01); // no nodes
    bytes.push(0x01); // no decorators
    bytes.push(0x00); // a nine-byte root count
    bytes.extend_from_slice(&(1u64 << 62).to_le_bytes());
    assert_eq!(
        read_header_and_scan_layout(&bytes, true).err(),
        Some(DeserializationError::InvalidValue(InvalidValue::OffsetOverflow))
    );
}

#[test]
fn vint64_exact_bytes() {
    // 300 takes two bytes: (2 * 300 + 1) << 1, little-endian.
    let bytes = [0xb2u8, 0x04];
    let mut offset = 0usize;
    assert_eq!(read_usize_at(&bytes, &mut offset), Ok(300));
    assert_eq!(offset, 2);
    // The first byte announces two bytes, but only one is there.
    let mut offset = 0usize;
    assert_eq!(read_usize_at(&bytes[..1], &mut offset), Err(DeserializationError::UnexpectedEOF));
    let mut offset = 2usize;
    assert_eq!(read_usize_at(&bytes, &mut offset), Err(DeserializationError::UnexpectedEOF));
}

#[test]
fn replacing_the_trailing_bytes_leaves_the_view_unchanged() {
    let forest = sample_forest();
    let mut bytes = Vec::new();
    StrippedMastForest(&forest).write_into(&mut bytes);
    let view = SerializedMastForest::new(&bytes, &no_inputs()).unwrap();
    let mut other = bytes[..view.advice_map_offset()].to_vec();
    other.extend_from_slice(&[1, 2, 3, 4, 5, 6, 7]);
    let other_view = SerializedMastForest::new(&other, &no_inputs()).unwrap();
    assert_eq!(other_view.node_count(), view.node_count());
    assert_eq!(other_view.procedure_root_count(), view.procedure_root_count());
    for i in 0..view.procedure_root_count() + 1 {
        assert_eq!(other_view.procedure_root_at(i), view.procedure_root_at(i));
    }
    for i in 0..view.node_count() + 1 {
        assert_eq!(other_view.node_entry_at(i).ok(), view.node_entry_at(i).ok());
        assert_eq!(other_view.node_digest_at(i), view.node_digest_at(i));
    }
}
