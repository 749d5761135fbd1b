//! Fixed-width node entries of the serialized MAST forest.
//!
//! Every node is one 8-byte entry: a 4-bit node tag in the top bits and a 60-bit payload. Join
//! and Split nodes pack two 30-bit child ids into the payload; Loop, Block, Call and SysCall
//! nodes store one 32-bit value; Dyn, Dyncall and External nodes store nothing.

use vstd::prelude::*;
use vstd::bytes::spec_u64_to_le_bytes_open;
use crate::bytes::{
    DeserializationError, InvalidValue, le_u64_at, lemma_le_u64_roundtrip, read_u64_at,
    short_read_error, write_u64,
};
use crate::field::Word;
use crate::node::{MastNode, MastNodeBuilder, MastNodeId};
use crate::word_io::{read_word_at, spec_word_at, spec_word_bytes, write_word};

verus! {

/// `2^30`: bound of a child id packed into a pair payload.
pub open spec fn pow30() -> int {
    0x4000_0000
}

/// `2^60`: bound of a payload.
pub open spec fn pow60() -> int {
    0x1000_0000_0000_0000
}

// MAST NODE TYPE
// ================================================================================================

/// The kind of a MAST node together with its inline structural payload.
#[derive(Debug, Clone, Copy, PartialEq, Eq, Structural)]
pub enum MastNodeType {
    Join { left_child_id: u32, right_child_id: u32 },
    Split { if_branch_id: u32, else_branch_id: u32 },
    Loop { body_id: u32 },
    Block { ops_offset: u32 },
    Call { callee_id: u32 },
    SysCall { callee_id: u32 },
    Dyn,
    Dyncall,
    External,
}

impl MastNodeType {
    /// The 4-bit tag of each kind on the wire.
    pub open spec fn spec_discriminant(self) -> u8 {
        match self {
            MastNodeType::Join { .. } => 0,
            MastNodeType::Split { .. } => 1,
            MastNodeType::Loop { .. } => 2,
            MastNodeType::Block { .. } => 3,
            MastNodeType::Call { .. } => 4,
            MastNodeType::SysCall { .. } => 5,
            MastNodeType::Dyn => 6,
            MastNodeType::Dyncall => 7,
            MastNodeType::External => 8,
        }
    }

    /// Whether the node fits the wire format: the two child ids of a Join or Split fit in 30 bits.
    pub open spec fn is_encodable(self) -> bool {
        match self {
            MastNodeType::Join { left_child_id, right_child_id } => left_child_id < pow30()
                && right_child_id < pow30(),
            MastNodeType::Split { if_branch_id, else_branch_id } => if_branch_id < pow30()
                && else_branch_id < pow30(),
            _ => true,
        }
    }

    /// The 60-bit payload.
    pub open spec fn spec_payload(self) -> int {
        match self {
            MastNodeType::Join { left_child_id, right_child_id } => left_child_id * pow30()
                + right_child_id,
            MastNodeType::Split { if_branch_id, else_branch_id } => if_branch_id * pow30()
                + else_branch_id,
            MastNodeType::Loop { body_id } => body_id as int,
            MastNodeType::Block { ops_offset } => ops_offset as int,
            MastNodeType::Call { callee_id } => callee_id as int,
            MastNodeType::SysCall { callee_id } => callee_id as int,
            _ => 0,
        }
    }

    /// The 64-bit wire value: tag times `2^60` plus payload.
    pub open spec fn spec_encoded(self) -> u64 {
        (self.spec_discriminant() * pow60() + self.spec_payload()) as u64
    }

    /// The 8 bytes of the node entry on the wire.
    pub open spec fn spec_bytes(self) -> Seq<u8> {
        spec_u64_to_le_bytes_open(self.spec_encoded())
    }

    /// Decoding of a 64-bit wire value.
    pub open spec fn spec_decode(value: u64) -> Result<MastNodeType, DeserializationError> {
        let tag = value as int / pow60();
        let payload = value as int % pow60();
        if tag == 0 {
            Ok(
                MastNodeType::Join {
                    left_child_id: (payload / pow30()) as u32,
                    right_child_id: (payload % pow30()) as u32,
                },
            )
        } else if tag == 1 {
            Ok(
                MastNodeType::Split {
                    if_branch_id: (payload / pow30()) as u32,
                    else_branch_id: (payload % pow30()) as u32,
                },
            )
        } else if 2 <= tag <= 5 && payload > u32::MAX {
            Err(DeserializationError::InvalidValue(InvalidValue::PayloadTooLarge(payload as u64)))
        } else if tag == 2 {
            Ok(MastNodeType::Loop { body_id: payload as u32 })
        } else if tag == 3 {
            Ok(MastNodeType::Block { ops_offset: payload as u32 })
        } else if tag == 4 {
            Ok(MastNodeType::Call { callee_id: payload as u32 })
        } else if tag == 5 {
            Ok(MastNodeType::SysCall { callee_id: payload as u32 })
        } else if tag == 6 {
            Ok(MastNodeType::Dyn)
        } else if tag == 7 {
            Ok(MastNodeType::Dyncall)
        } else if tag == 8 {
            Ok(MastNodeType::External)
        } else {
            Err(DeserializationError::InvalidValue(InvalidValue::NodeTag(tag as u8)))
        }
    }

    /// Constructs the node type of `mast_node`; `ops_offset` is used for basic blocks only.
    pub fn new(mast_node: &MastNode, ops_offset: u32) -> (r: MastNodeType)
        ensures
            r == Self::spec_new(mast_node, ops_offset),
    {
        match mast_node {
            MastNode::Block { .. } => MastNodeType::Block { ops_offset },
            MastNode::Join { first, second, .. } => MastNodeType::Join {
                left_child_id: first.0,
                right_child_id: second.0,
            },
            MastNode::Split { on_true, on_false, .. } => MastNodeType::Split {
                if_branch_id: on_true.0,
                else_branch_id: on_false.0,
            },
            MastNode::Loop { body, .. } => MastNodeType::Loop { body_id: body.0 },
            MastNode::Call { callee, is_syscall, .. } => {
                if *is_syscall {
                    MastNodeType::SysCall { callee_id: callee.0 }
                } else {
                    MastNodeType::Call { callee_id: callee.0 }
                }
            },
            MastNode::Dyn { is_dyncall, .. } => {
                if *is_dyncall {
                    MastNodeType::Dyncall
                } else {
                    MastNodeType::Dyn
                }
            },
            MastNode::External { .. } => MastNodeType::External,
        }
    }

    /// The node type of a node: its kind and child ids, or `ops_offset` for a basic block.
    pub open spec fn spec_new(mast_node: &MastNode, ops_offset: u32) -> MastNodeType {
        match mast_node {
            MastNode::Block { .. } => MastNodeType::Block { ops_offset },
            MastNode::Join { first, second, .. } => MastNodeType::Join {
                left_child_id: first.0,
                right_child_id: second.0,
            },
            MastNode::Split { on_true, on_false, .. } => MastNodeType::Split {
                if_branch_id: on_true.0,
                else_branch_id: on_false.0,
            },
            MastNode::Loop { body, .. } => MastNodeType::Loop { body_id: body.0 },
            MastNode::Call { callee, is_syscall, .. } => if *is_syscall {
                MastNodeType::SysCall { callee_id: callee.0 }
            } else {
                MastNodeType::Call { callee_id: callee.0 }
            },
            MastNode::Dyn { is_dyncall, .. } => if *is_dyncall {
                MastNodeType::Dyncall
            } else {
                MastNodeType::Dyn
            },
            MastNode::External { .. } => MastNodeType::External,
        }
    }

    /// Returns the wire tag of this node kind.
    pub fn discriminant(&self) -> (r: u8)
        ensures
            r == self.spec_discriminant(),
    {
        match self {
            MastNodeType::Join { .. } => 0,
            MastNodeType::Split { .. } => 1,
            MastNodeType::Loop { .. } => 2,
            MastNodeType::Block { .. } => 3,
            MastNodeType::Call { .. } => 4,
            MastNodeType::SysCall { .. } => 5,
            MastNodeType::Dyn => 6,
            MastNodeType::Dyncall => 7,
            MastNodeType::External => 8,
        }
    }

    /// Packs two 30-bit values into a 60-bit payload, the left one in the high bits.
    pub fn encode_u32_pair(left_value: u32, right_value: u32) -> (r: u64)
        requires
            left_value < pow30(),
            right_value < pow30(),
        ensures
            r == left_value * pow30() + right_value,
            r < pow60(),
    {
        let l = left_value as u64;
        let rv = right_value as u64;
        assert(l < 0x4000_0000 && rv < 0x4000_0000 ==> (l << 30u64) | rv == l * 0x4000_0000 + rv
            && l * 0x4000_0000 + rv < 0x1000_0000_0000_0000) by (bit_vector);
        (l << 30u64) | rv
    }

    /// Widens a single 32-bit value into a payload.
    pub fn encode_u32_payload(payload: u32) -> (r: u64)
        ensures
            r == payload,
    {
        payload as u64
    }

    /// Splits a 60-bit payload into the two 30-bit values packed by [`Self::encode_u32_pair`].
    pub fn decode_u32_pair(payload: u64) -> (r: (u32, u32))
        requires
            payload < pow60(),
        ensures
            r.0 == payload as int / pow30(),
            r.1 == payload as int % pow30(),
    {
        assert(payload < 0x1000_0000_0000_0000 ==> payload >> 30u64 == payload / 0x4000_0000
            && payload & 0x3fff_ffff == payload % 0x4000_0000 && payload >> 30u64 < 0x4000_0000)
            by (bit_vector);
        let left_value = (payload >> 30u64) as u32;
        let right_value = (payload & 0x3fff_ffff) as u32;
        (left_value, right_value)
    }

    /// Narrows a payload to a 32-bit value, rejecting payloads that do not fit.
    pub fn decode_u32_payload(payload: u64) -> (r: Result<u32, DeserializationError>)
        ensures
            payload <= u32::MAX ==> r == Ok::<u32, DeserializationError>(payload as u32),
            payload > u32::MAX ==> r == Err::<u32, DeserializationError>(
                DeserializationError::InvalidValue(InvalidValue::PayloadTooLarge(payload)),
            ),
    {
        if payload <= u32::MAX as u64 {
            Ok(payload as u32)
        } else {
            Err(DeserializationError::InvalidValue(InvalidValue::PayloadTooLarge(payload)))
        }
    }

    /// The 64-bit wire value of this node type.
    pub fn to_u64(&self) -> (r: u64)
        requires
            self.is_encodable(),
        ensures
            r == self.spec_encoded(),
    {
        let discriminant = self.discriminant() as u64;
        let payload = match *self {
            MastNodeType::Join { left_child_id, right_child_id } => Self::encode_u32_pair(
                left_child_id,
                right_child_id,
            ),
            MastNodeType::Split { if_branch_id, else_branch_id } => Self::encode_u32_pair(
                if_branch_id,
                else_branch_id,
            ),
            MastNodeType::Loop { body_id } => Self::encode_u32_payload(body_id),
            MastNodeType::Block { ops_offset } => Self::encode_u32_payload(ops_offset),
            MastNodeType::Call { callee_id } => Self::encode_u32_payload(callee_id),
            MastNodeType::SysCall { callee_id } => Self::encode_u32_payload(callee_id),
            MastNodeType::Dyn => 0,
            MastNodeType::Dyncall => 0,
            MastNodeType::External => 0,
        };
        assert(payload == self.spec_payload());
        assert(discriminant <= 8 && payload < 0x1000_0000_0000_0000 ==> (discriminant << 60u64)
            | payload == discriminant * 0x1000_0000_0000_0000 + payload) by (bit_vector);
        (discriminant << 60u64) | payload
    }

    /// Decodes a 64-bit wire value: the tag is the top four bits, the payload the other 60.
    pub fn from_u64(value: u64) -> (r: Result<MastNodeType, DeserializationError>)
        ensures
            r == Self::spec_decode(value),
    {
        assert(value >> 60u64 == value / 0x1000_0000_0000_0000 && value & 0x0fff_ffff_ffff_ffff
            == value % 0x1000_0000_0000_0000 && value >> 60u64 < 16) by (bit_vector);
        let discriminant = (value >> 60u64) as u8;
        let payload = value & 0x0fff_ffff_ffff_ffff;
        if discriminant == 0 {
            let (left_child_id, right_child_id) = Self::decode_u32_pair(payload);
            Ok(MastNodeType::Join { left_child_id, right_child_id })
        } else if discriminant == 1 {
            let (if_branch_id, else_branch_id) = Self::decode_u32_pair(payload);
            Ok(MastNodeType::Split { if_branch_id, else_branch_id })
        } else if discriminant == 2 {
            let body_id = Self::decode_u32_payload(payload)?;
            Ok(MastNodeType::Loop { body_id })
        } else if discriminant == 3 {
            let ops_offset = Self::decode_u32_payload(payload)?;
            Ok(MastNodeType::Block { ops_offset })
        } else if discriminant == 4 {
            let callee_id = Self::decode_u32_payload(payload)?;
            Ok(MastNodeType::Call { callee_id })
        } else if discriminant == 5 {
            let callee_id = Self::decode_u32_payload(payload)?;
            Ok(MastNodeType::SysCall { callee_id })
        } else if discriminant == 6 {
            Ok(MastNodeType::Dyn)
        } else if discriminant == 7 {
            Ok(MastNodeType::Dyncall)
        } else if discriminant == 8 {
            Ok(MastNodeType::External)
        } else {
            Err(DeserializationError::InvalidValue(InvalidValue::NodeTag(discriminant)))
        }
    }

    /// Appends the 8-byte entry of this node type: its wire value in little-endian order.
    pub fn write_into(&self, target: &mut Vec<u8>)
        requires
            self.is_encodable(),
        ensures
            final(target)@ == old(target)@ + self.spec_bytes(),
    {
        let value = self.to_u64();
        write_u64(target, value);
    }

    /// Returns the 8-byte entry of this node type.
    pub fn to_bytes(&self) -> (r: Vec<u8>)
        requires
            self.is_encodable(),
        ensures
            r@ == self.spec_bytes(),
    {
        let mut target: Vec<u8> = Vec::new();
        self.write_into(&mut target);
        assert(target@ =~= self.spec_bytes());
        target
    }

    /// Reads an 8-byte entry at `*offset` and advances the offset past it.
    pub fn read_from(bytes: &[u8], offset: &mut usize) -> (r: Result<
        MastNodeType,
        DeserializationError,
    >)
        ensures
            *old(offset) + 8 <= bytes@.len() ==> r == Self::spec_decode(
                le_u64_at(bytes@, *old(offset) as int),
            ),
            *old(offset) + 8 <= bytes@.len() && r is Ok ==> *final(offset) == *old(offset) + 8,
            *old(offset) + 8 > bytes@.len() ==> r == Err::<MastNodeType, DeserializationError>(
                short_read_error(*old(offset) as int, 8),
            ),
    {
        let value = read_u64_at(bytes, offset)?;
        Self::from_u64(value)
    }

    /// Reads a node type from the first 8 bytes of `bytes`.
    pub fn read_from_bytes(bytes: &[u8]) -> (r: Result<MastNodeType, DeserializationError>)
        ensures
            8 <= bytes@.len() ==> r == Self::spec_decode(le_u64_at(bytes@, 0)),
            8 > bytes@.len() ==> r == Err::<MastNodeType, DeserializationError>(
                DeserializationError::UnexpectedEOF,
            ),
    {
        let mut offset: usize = 0;
        if bytes.len() < 8 {
            return Err(DeserializationError::UnexpectedEOF);
        }
        Self::read_from(bytes, &mut offset)
    }

    /// The fixed serialized size of a node type: always 8 bytes.
    pub fn min_serialized_size() -> (r: usize)
        ensures
            r == 8,
    {
        8
    }
}

/// Decoding the wire value of an encodable node type gives the node type back.
pub proof fn lemma_node_type_roundtrip(t: MastNodeType)
    requires
        t.is_encodable(),
    ensures
        MastNodeType::spec_decode(t.spec_encoded()) == Ok::<MastNodeType, DeserializationError>(t),
{
    let d = t.spec_discriminant() as int;
    let p = t.spec_payload();
    assert(0 <= p < pow60()) by {
        match t {
            MastNodeType::Join { left_child_id, right_child_id } => {
                assert(left_child_id * pow30() + right_child_id < pow60()) by (nonlinear_arith)
                    requires
                        left_child_id < pow30(),
                        right_child_id < pow30(),
                ;
            },
            MastNodeType::Split { if_branch_id, else_branch_id } => {
                assert(if_branch_id * pow30() + else_branch_id < pow60()) by (nonlinear_arith)
                    requires
                        if_branch_id < pow30(),
                        else_branch_id < pow30(),
                ;
            },
            _ => {},
        }
    }
    let v = d * pow60() + p;
    assert(v / pow60() == d && v % pow60() == p) by (nonlinear_arith)
        requires
            v == d * pow60() + p,
            0 <= p < pow60(),
            0 <= d,
    ;
    match t {
        MastNodeType::Join { left_child_id, right_child_id } => {
            assert(p / pow30() == left_child_id && p % pow30() == right_child_id)
                by (nonlinear_arith)
                requires
                    p == left_child_id * pow30() + right_child_id,
                    0 <= right_child_id < pow30(),
                    0 <= left_child_id,
            ;
        },
        MastNodeType::Split { if_branch_id, else_branch_id } => {
            assert(p / pow30() == if_branch_id && p % pow30() == else_branch_id)
                by (nonlinear_arith)
                requires
                    p == if_branch_id * pow30() + else_branch_id,
                    0 <= else_branch_id < pow30(),
                    0 <= if_branch_id,
            ;
        },
        _ => {},
    }
}

/// A wire value whose payload holds no bits that its kind ignores is the encoding of what it
/// decodes to.
pub proof fn lemma_node_type_decode_encode(value: u64)
    requires
        MastNodeType::spec_decode(value) is Ok,
        value as int / pow60() >= 6 ==> value as int % pow60() == 0,
    ensures
        MastNodeType::spec_decode(value)->Ok_0.is_encodable(),
        MastNodeType::spec_decode(value)->Ok_0.spec_encoded() == value,
{
    let t = MastNodeType::spec_decode(value)->Ok_0;
    let tag = value as int / pow60();
    let payload = value as int % pow60();
    assert(value == tag * pow60() + payload && 0 <= payload < pow60()) by (nonlinear_arith)
        requires
            tag == value as int / pow60(),
            payload == value as int % pow60(),
    ;
    assert(payload == (payload / pow30()) * pow30() + payload % pow30() && payload / pow30()
        < pow30()) by (nonlinear_arith)
        requires
            0 <= payload < pow60(),
    ;
}

// MAST NODE ENTRY
// ================================================================================================

/// The fixed-width structural metadata of a serialized node.
#[derive(Debug, Clone, Copy, PartialEq, Eq, Structural)]
pub struct MastNodeEntry {
    ty: MastNodeType,
}

impl MastNodeEntry {
    /// The node type of the entry.
    pub closed spec fn spec_node_type(self) -> MastNodeType {
        self.ty
    }

    /// Builds an entry from a node type.
    pub fn from_node_type(ty: MastNodeType) -> (r: MastNodeEntry)
        ensures
            r.spec_node_type() == ty,
    {
        MastNodeEntry { ty }
    }

    /// Constructs the entry of `mast_node`; `ops_offset` is used for basic blocks only and is 0
    /// for every other node.
    pub fn new(mast_node: &MastNode, ops_offset: u32) -> (r: MastNodeEntry)
        requires
            !(mast_node is Block) ==> ops_offset == 0,
        ensures
            r.spec_node_type() == MastNodeType::spec_new(mast_node, ops_offset),
    {
        let ty = MastNodeType::new(mast_node, ops_offset);
        MastNodeEntry { ty }
    }

    /// Converts this entry into a node builder of a forest that will hold `node_count` nodes,
    /// checking that every child id is below `node_count`.
    pub fn try_into_mast_node_builder(self, node_count: usize, digest: Word) -> (r: Result<
        MastNodeBuilder,
        DeserializationError,
    >)
        ensures
            r == spec_builder(self.spec_node_type(), node_count, digest),
    {
        match self.ty {
            MastNodeType::Block { ops_offset } => Ok(
                MastNodeBuilder::BasicBlock { ops_offset, digest },
            ),
            MastNodeType::Join { left_child_id, right_child_id } => {
                let left_child = MastNodeId::from_u32_with_node_count(left_child_id, node_count)?;
                let right_child = MastNodeId::from_u32_with_node_count(right_child_id, node_count)?;
                Ok(MastNodeBuilder::Join { left: left_child, right: right_child, digest })
            },
            MastNodeType::Split { if_branch_id, else_branch_id } => {
                let if_branch = MastNodeId::from_u32_with_node_count(if_branch_id, node_count)?;
                let else_branch = MastNodeId::from_u32_with_node_count(else_branch_id, node_count)?;
                Ok(MastNodeBuilder::Split { on_true: if_branch, on_false: else_branch, digest })
            },
            MastNodeType::Loop { body_id } => {
                let body = MastNodeId::from_u32_with_node_count(body_id, node_count)?;
                Ok(MastNodeBuilder::Loop { body, digest })
            },
            MastNodeType::Call { callee_id } => {
                let callee = MastNodeId::from_u32_with_node_count(callee_id, node_count)?;
                Ok(MastNodeBuilder::Call { callee, is_syscall: false, digest })
            },
            MastNodeType::SysCall { callee_id } => {
                let callee = MastNodeId::from_u32_with_node_count(callee_id, node_count)?;
                Ok(MastNodeBuilder::Call { callee, is_syscall: true, digest })
            },
            MastNodeType::Dyn => Ok(MastNodeBuilder::Dyn { is_dyncall: false, digest }),
            MastNodeType::Dyncall => Ok(MastNodeBuilder::Dyn { is_dyncall: true, digest }),
            MastNodeType::External => Ok(MastNodeBuilder::External { digest }),
        }
    }

    /// Returns the serialized node type metadata.
    pub fn node_type(&self) -> (r: MastNodeType)
        ensures
            r == self.spec_node_type(),
    {
        self.ty
    }

    /// Appends the 8-byte entry.
    pub fn write_into(&self, target: &mut Vec<u8>)
        requires
            self.spec_node_type().is_encodable(),
        ensures
            final(target)@ == old(target)@ + self.spec_node_type().spec_bytes(),
    {
        self.ty.write_into(target)
    }

    /// Reads an 8-byte entry at `*offset` and advances the offset past it.
    pub fn read_from(bytes: &[u8], offset: &mut usize) -> (r: Result<
        MastNodeEntry,
        DeserializationError,
    >)
        ensures
            *old(offset) + 8 <= bytes@.len() ==> match MastNodeType::spec_decode(
                le_u64_at(bytes@, *old(offset) as int),
            ) {
                Ok(t) => r matches Ok(e) && e.spec_node_type() == t && *final(offset)
                    == *old(offset) + 8,
                Err(err) => r == Err::<MastNodeEntry, DeserializationError>(err),
            },
            *old(offset) + 8 > bytes@.len() ==> r == Err::<MastNodeEntry, DeserializationError>(
                short_read_error(*old(offset) as int, 8),
            ),
    {
        let ty = MastNodeType::read_from(bytes, offset)?;
        Ok(MastNodeEntry { ty })
    }

    /// The serialized size of an entry: 8 bytes.
    pub fn min_serialized_size() -> (r: usize)
        ensures
            r == 8,
    {
        MastNodeType::min_serialized_size()
    }
}

/// The node builder an entry of type `t` becomes in a forest of `node_count` nodes.
pub open spec fn spec_builder(t: MastNodeType, node_count: usize, digest: Word) -> Result<
    MastNodeBuilder,
    DeserializationError,
> {
    let bad = |id: u32|
        DeserializationError::InvalidValue(
            InvalidValue::ChildOutOfBounds { child_id: id, node_count },
        );
    match t {
        MastNodeType::Block { ops_offset } => Ok(MastNodeBuilder::BasicBlock { ops_offset, digest }),
        MastNodeType::Join { left_child_id, right_child_id } => if left_child_id >= node_count {
            Err(bad(left_child_id))
        } else if right_child_id >= node_count {
            Err(bad(right_child_id))
        } else {
            Ok(
                MastNodeBuilder::Join {
                    left: MastNodeId(left_child_id),
                    right: MastNodeId(right_child_id),
                    digest,
                },
            )
        },
        MastNodeType::Split { if_branch_id, else_branch_id } => if if_branch_id >= node_count {
            Err(bad(if_branch_id))
        } else if else_branch_id >= node_count {
            Err(bad(else_branch_id))
        } else {
            Ok(
                MastNodeBuilder::Split {
                    on_true: MastNodeId(if_branch_id),
                    on_false: MastNodeId(else_branch_id),
                    digest,
                },
            )
        },
        MastNodeType::Loop { body_id } => if body_id >= node_count {
            Err(bad(body_id))
        } else {
            Ok(MastNodeBuilder::Loop { body: MastNodeId(body_id), digest })
        },
        MastNodeType::Call { callee_id } => if callee_id >= node_count {
            Err(bad(callee_id))
        } else {
            Ok(MastNodeBuilder::Call { callee: MastNodeId(callee_id), is_syscall: false, digest })
        },
        MastNodeType::SysCall { callee_id } => if callee_id >= node_count {
            Err(bad(callee_id))
        } else {
            Ok(MastNodeBuilder::Call { callee: MastNodeId(callee_id), is_syscall: true, digest })
        },
        MastNodeType::Dyn => Ok(MastNodeBuilder::Dyn { is_dyncall: false, digest }),
        MastNodeType::Dyncall => Ok(MastNodeBuilder::Dyn { is_dyncall: true, digest }),
        MastNodeType::External => Ok(MastNodeBuilder::External { digest }),
    }
}

// MAST NODE INFO
// ================================================================================================

/// A node entry together with the node's digest.
#[derive(Debug, Clone, Copy, PartialEq, Eq, Structural)]
pub struct MastNodeInfo {
    entry: MastNodeEntry,
    digest: Word,
}

impl MastNodeInfo {
    /// The node entry.
    pub closed spec fn spec_entry(self) -> MastNodeEntry {
        self.entry
    }

    /// The node digest.
    pub closed spec fn spec_digest(self) -> Word {
        self.digest
    }

    /// Constructs the info of `mast_node`; `ops_offset` is used for basic blocks only.
    pub fn new(mast_node: &MastNode, ops_offset: u32) -> (r: MastNodeInfo)
        requires
            !(mast_node is Block) ==> ops_offset == 0,
        ensures
            r.spec_entry().spec_node_type() == MastNodeType::spec_new(mast_node, ops_offset),
            r.spec_digest() == mast_node.spec_digest(),
    {
        MastNodeInfo { entry: MastNodeEntry::new(mast_node, ops_offset), digest: mast_node.digest() }
    }

    /// Converts this info into a node builder of a forest that will hold `node_count` nodes.
    pub fn try_into_mast_node_builder(self, node_count: usize) -> (r: Result<
        MastNodeBuilder,
        DeserializationError,
    >)
        ensures
            r == spec_builder(self.spec_entry().spec_node_type(), node_count, self.spec_digest()),
    {
        self.entry.try_into_mast_node_builder(node_count, self.digest)
    }

    /// Returns the fixed-width structural node entry.
    pub fn node_entry(&self) -> (r: MastNodeEntry)
        ensures
            r == self.spec_entry(),
    {
        self.entry
    }

    /// Returns the serialized node type metadata.
    pub fn node_type(&self) -> (r: MastNodeType)
        ensures
            r == self.spec_entry().spec_node_type(),
    {
        self.entry.node_type()
    }

    /// Returns the stored node digest.
    pub fn digest(&self) -> (r: Word)
        ensures
            r == self.spec_digest(),
    {
        self.digest
    }

    /// Builds node metadata directly from serialized components.
    pub fn from_entry(entry: MastNodeEntry, digest: Word) -> (r: MastNodeInfo)
        ensures
            r.spec_entry() == entry,
            r.spec_digest() == digest,
    {
        MastNodeInfo { entry, digest }
    }

    /// Appends the entry followed by the digest (40 bytes).
    pub fn write_into(&self, target: &mut Vec<u8>)
        requires
            self.spec_entry().spec_node_type().is_encodable(),
        ensures
            final(target)@ == old(target)@ + self.spec_entry().spec_node_type().spec_bytes()
                + spec_word_bytes(self.spec_digest()),
    {
        self.entry.write_into(target);
        write_word(target, &self.digest);
    }

    /// Reads an entry and a digest at `*offset` and advances the offset past them.
    pub fn read_from(bytes: &[u8], offset: &mut usize) -> (r: Result<
        MastNodeInfo,
        DeserializationError,
    >)
        ensures
            *old(offset) + 40 <= bytes@.len() ==> match MastNodeType::spec_decode(
                le_u64_at(bytes@, *old(offset) as int),
            ) {
                Err(e) => r == Err::<MastNodeInfo, DeserializationError>(e),
                Ok(t) => match spec_word_at(bytes@, *old(offset) + 8) {
                    None => r == Err::<MastNodeInfo, DeserializationError>(
                        DeserializationError::InvalidValue(InvalidValue::NonCanonicalDigest),
                    ),
                    Some(w) => {
                        &&& r is Ok
                        &&& r->Ok_0.spec_entry().spec_node_type() == t
                        &&& r->Ok_0.spec_digest() == w
                        &&& *final(offset) == *old(offset) + 40
                    },
                },
            },
            *old(offset) + 8 > bytes@.len() ==> r == Err::<MastNodeInfo, DeserializationError>(
                short_read_error(*old(offset) as int, 8),
            ),
            *old(offset) + 8 <= bytes@.len() < *old(offset) + 40 ==> match MastNodeType::spec_decode(
                le_u64_at(bytes@, *old(offset) as int),
            ) {
                Err(e) => r == Err::<MastNodeInfo, DeserializationError>(e),
                Ok(_) => r == Err::<MastNodeInfo, DeserializationError>(
                    short_read_error(*old(offset) + 8, 32),
                ),
            },
    {
        let entry = MastNodeEntry::read_from(bytes, offset)?;
        let digest = read_word_at(bytes, offset)?;
        Ok(MastNodeInfo { entry, digest })
    }

    /// The serialized size of an info: 8 bytes of entry plus 32 bytes of digest.
    pub fn min_serialized_size() -> (r: usize)
        ensures
            r == 40,
    {
        MastNodeEntry::min_serialized_size() + 32
    }
}

/// Reading back the entry of an encodable node type gives that node type.
pub proof fn lemma_entry_bytes_roundtrip(t: MastNodeType, prefix: Seq<u8>, suffix: Seq<u8>)
    requires
        t.is_encodable(),
    ensures
        t.spec_bytes().len() == 8,
        MastNodeType::spec_decode(le_u64_at(prefix + t.spec_bytes() + suffix, prefix.len() as int))
            == Ok::<MastNodeType, DeserializationError>(t),
{
    lemma_le_u64_roundtrip(t.spec_encoded(), prefix, suffix);
    lemma_node_type_roundtrip(t);
}

} // verus!
