//! MAST node identifiers, the node values that a forest holds, and the node builders that
//! deserialization produces.

use vstd::prelude::*;
use crate::bytes::{DeserializationError, InvalidValue};
use crate::field::Word;

verus! {

/// Index of a node in a MAST forest.
#[derive(Debug, Clone, Copy, PartialEq, Eq, Structural)]
pub struct MastNodeId(pub u32);

impl MastNodeId {
    /// The id as a `u32`.
    pub fn as_u32(&self) -> (r: u32)
        ensures
            r == self.0,
    {
        self.0
    }

    /// Converts a `u32` into a node id of a forest of `node_count` nodes, rejecting ids that are
    /// not below `node_count`.
    pub fn from_u32_with_node_count(id: u32, node_count: usize) -> (r: Result<
        MastNodeId,
        DeserializationError,
    >)
        ensures
            (id as int) < node_count ==> r == Ok::<MastNodeId, DeserializationError>(
                MastNodeId(id),
            ),
            (id as int) >= node_count ==> r == Err::<MastNodeId, DeserializationError>(
                DeserializationError::InvalidValue(
                    InvalidValue::ChildOutOfBounds { child_id: id, node_count },
                ),
            ),
    {
        if (id as usize) < node_count {
            Ok(MastNodeId(id))
        } else {
            Err(
                DeserializationError::InvalidValue(
                    InvalidValue::ChildOutOfBounds { child_id: id, node_count },
                ),
            )
        }
    }
}

/// A node of a MAST forest, as far as the wire format reads it.
///
/// A basic block is held by its encoded operation data (the bytes it contributes to the
/// basic-block data section) and its digest; every other node by its child ids and digest.
#[derive(Debug)]
pub enum MastNode {
    Block { data: Vec<u8>, digest: Word },
    Join { first: MastNodeId, second: MastNodeId, digest: Word },
    Split { on_true: MastNodeId, on_false: MastNodeId, digest: Word },
    Loop { body: MastNodeId, digest: Word },
    Call { callee: MastNodeId, is_syscall: bool, digest: Word },
    Dyn { is_dyncall: bool, digest: Word },
    External { digest: Word },
}

impl MastNode {
    /// The digest of the node.
    pub open spec fn spec_digest(&self) -> Word {
        match self {
            MastNode::Block { digest, .. } => *digest,
            MastNode::Join { digest, .. } => *digest,
            MastNode::Split { digest, .. } => *digest,
            MastNode::Loop { digest, .. } => *digest,
            MastNode::Call { digest, .. } => *digest,
            MastNode::Dyn { digest, .. } => *digest,
            MastNode::External { digest } => *digest,
        }
    }

    /// The bytes the node contributes to the basic-block data section.
    pub open spec fn spec_block_data(&self) -> Seq<u8> {
        match self {
            MastNode::Block { data, .. } => data@,
            _ => Seq::empty(),
        }
    }

    /// Number of bytes the node contributes to the basic-block data section.
    pub open spec fn spec_block_data_len(&self) -> nat {
        self.spec_block_data().len()
    }

    /// Returns the digest of the node.
    pub fn digest(&self) -> (r: Word)
        ensures
            r == self.spec_digest(),
    {
        match self {
            MastNode::Block { digest, .. } => *digest,
            MastNode::Join { digest, .. } => *digest,
            MastNode::Split { digest, .. } => *digest,
            MastNode::Loop { digest, .. } => *digest,
            MastNode::Call { digest, .. } => *digest,
            MastNode::Dyn { digest, .. } => *digest,
            MastNode::External { digest } => *digest,
        }
    }

    /// Returns `true` for an external node.
    pub fn is_external(&self) -> (r: bool)
        ensures
            r == (self is External),
    {
        match self {
            MastNode::External { .. } => true,
            _ => false,
        }
    }

    /// Returns `true` for a basic block.
    pub fn is_basic_block(&self) -> (r: bool)
        ensures
            r == (self is Block),
    {
        match self {
            MastNode::Block { .. } => true,
            _ => false,
        }
    }
}

/// Number of bytes a basic block contributes to the basic-block data section.
pub fn basic_block_data_len(node: &MastNode) -> (r: usize)
    ensures
        r == node.spec_block_data_len(),
{
    match node {
        MastNode::Block { data, .. } => data.len(),
        _ => 0,
    }
}

/// A node reconstructed from its serialized entry and digest, ready to be added to a forest.
///
/// A basic block is carried by the offset of its operations in the basic-block data section.
#[derive(Debug, Clone, Copy, PartialEq, Eq, Structural)]
pub enum MastNodeBuilder {
    BasicBlock { ops_offset: u32, digest: Word },
    Join { left: MastNodeId, right: MastNodeId, digest: Word },
    Split { on_true: MastNodeId, on_false: MastNodeId, digest: Word },
    Loop { body: MastNodeId, digest: Word },
    Call { callee: MastNodeId, is_syscall: bool, digest: Word },
    Dyn { is_dyncall: bool, digest: Word },
    External { digest: Word },
}

} // verus!
