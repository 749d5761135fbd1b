use mast_logup::bytes::{DeserializationError, InvalidValue};
use mast_logup::field::Word;
use mast_logup::info::{MastNodeEntry, MastNodeInfo, MastNodeType};
use mast_logup::node::{MastNodeBuilder, MastNodeId};

/// Tag of a `Call` node in the top four bits of an entry.
const CALL: u8 = 4;

#[test]
fn serialize_deserialize_60_bit_payload() {
    // each child needs 30 bits
    let mast_node_type = MastNodeType::Join {
        left_child_id: 0x3f_ff_ff_ff,
        right_child_id: 0x3f_ff_ff_ff,
    };

    let serialized = mast_node_type.to_bytes();
    let deserialized = MastNodeType::read_from_bytes(&serialized).unwrap();

    assert_eq!(mast_node_type, deserialized);
}

#[test]
fn deserialize_large_payloads_fails() {
    // Serialized `CALL` with a 33-bit payload
    let serialized = {
        let serialized_value = ((CALL as u64) << 60) | (u32::MAX as u64 + 1_u64);
        serialized_value.to_le_bytes().to_vec()
    };

    let deserialized_result = MastNodeType::read_from_bytes(&serialized);

    assert!(matches!(deserialized_result, Err(DeserializationError::InvalidValue(_))));
    assert_eq!(
        deserialized_result,
        Err(DeserializationError::InvalidValue(InvalidValue::PayloadTooLarge(u32::MAX as u64 + 1)))
    );
}

#[test]
fn every_node_type_round_trips() {
    let types = [
        MastNodeType::Join { left_child_id: 1, right_child_id: 2 },
        MastNodeType::Split { if_branch_id: 3, else_branch_id: 4 },
        MastNodeType::Loop { body_id: u32::MAX },
        MastNodeType::Block { ops_offset: 77 },
        MastNodeType::Call { callee_id: 5 },
        MastNodeType::SysCall { callee_id: 6 },
        MastNodeType::Dyn,
        MastNodeType::Dyncall,
        MastNodeType::External,
    ];
    for (tag, t) in types.iter().enumerate() {
        let bytes = t.to_bytes();
        assert_eq!(bytes.len(), 8);
        assert_eq!(bytes[7] >> 4, tag as u8);
        assert_eq!(MastNodeType::read_from_bytes(&bytes), Ok(*t));
    }
}

#[test]
fn join_payload_layout() {
    let t = MastNodeType::Join { left_child_id: 1, right_child_id: 2 };
    // tag 0, payload 1 * 2^30 + 2
    assert_eq!(t.to_u64(), (1u64 << 30) + 2);
    assert_eq!(MastNodeType::encode_u32_pair(1, 2), (1u64 << 30) + 2);
    assert_eq!(MastNodeType::decode_u32_pair((1u64 << 30) + 2), (1, 2));
    let call = MastNodeType::Call { callee_id: 9 };
    assert_eq!(call.to_u64(), (4u64 << 60) + 9);
}

#[test]
fn decode_u32_payload_checks_the_width() {
    assert_eq!(MastNodeType::decode_u32_payload(7), Ok(7));
    assert_eq!(
        MastNodeType::decode_u32_payload(1u64 << 32),
        Err(DeserializationError::InvalidValue(InvalidValue::PayloadTooLarge(1u64 << 32)))
    );
}

#[test]
fn unknown_tag_is_rejected() {
    let bytes = (9u64 << 60).to_le_bytes();
    assert_eq!(
        MastNodeType::read_from_bytes(&bytes),
        Err(DeserializationError::InvalidValue(InvalidValue::NodeTag(9)))
    );
}

#[test]
fn short_entry_is_eof() {
    assert_eq!(MastNodeType::read_from_bytes(&[0u8; 7]), Err(DeserializationError::UnexpectedEOF));
}

#[test]
fn entry_to_builder_checks_child_ids() {
    let digest = Word::new([1, 2, 3, 4]);
    let ok = MastNodeEntry::from_node_type(MastNodeType::Split { if_branch_id: 0, else_branch_id: 1 });
    assert_eq!(
        ok.try_into_mast_node_builder(2, digest),
        Ok(MastNodeBuilder::Split { on_true: MastNodeId(0), on_false: MastNodeId(1), digest })
    );
    let bad = MastNodeEntry::from_node_type(MastNodeType::Loop { body_id: 2 });
    assert_eq!(
        bad.try_into_mast_node_builder(2, digest),
        Err(DeserializationError::InvalidValue(InvalidValue::ChildOutOfBounds {
            child_id: 2,
            node_count: 2
        }))
    );
    let syscall = MastNodeEntry::from_node_type(MastNodeType::SysCall { callee_id: 0 });
    assert_eq!(
        syscall.try_into_mast_node_builder(1, digest),
        Ok(MastNodeBuilder::Call { callee: MastNodeId(0), is_syscall: true, digest })
    );
}

#[test]
fn node_info_round_trips() {
    let digest = Word::new([10, 20, 30, 40]);
    let info = MastNodeInfo::from_entry(
        MastNodeEntry::from_node_type(MastNodeType::Block { ops_offset: 12 }),
        digest,
    );
    let mut bytes = Vec::new();
    info.write_into(&mut bytes);
    assert_eq!(bytes.len(), MastNodeInfo::min_serialized_size());
    let mut offset = 0usize;
    let read = MastNodeInfo::read_from(&bytes, &mut offset).unwrap();
    assert_eq!(offset, 40);
    assert_eq!(read.node_type(), MastNodeType::Block { ops_offset: 12 });
    assert_eq!(read.digest(), digest);
    assert_eq!(
        read.try_into_mast_node_builder(1),
        Ok(MastNodeBuilder::BasicBlock { ops_offset: 12, digest })
    );
}
