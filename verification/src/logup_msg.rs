//! Messages of the LogUp buses.
//!
//! Each message is a list of base-field elements that encodes, under the verifier challenges, as
//! the reduced denominator `alpha + sum_i beta^i * elem_i`. Chiplet messages (hasher, memory,
//! bitwise) bake their operation label into the first element.

use vstd::prelude::*;
use crate::challenges::{Challenges, MAX_MESSAGE_WIDTH, spec_encode};
use crate::field::{QuadFelt, felt_sub, fmod, is_canonical};

verus! {

// LABELS
// ================================================================================================

/// Hasher transition label of a linear hash (also used by control blocks).
pub const LINEAR_HASH_LABEL: u8 = 3;
/// Hasher transition label of a Merkle path verification.
pub const MP_VERIFY_LABEL: u8 = 11;
/// Hasher transition label of a Merkle update, old path.
pub const MR_UPDATE_OLD_LABEL: u8 = 7;
/// Hasher transition label of a Merkle update, new path.
pub const MR_UPDATE_NEW_LABEL: u8 = 15;
/// Hasher transition label of a digest return.
pub const RETURN_HASH_LABEL: u8 = 1;
/// Hasher transition label of a full-state return.
pub const RETURN_STATE_LABEL: u8 = 9;
/// Offset added to a hasher label for an input message.
pub const HASHER_INPUT_OFFSET: u16 = 16;
/// Offset added to a hasher label for an output message.
pub const HASHER_OUTPUT_OFFSET: u16 = 32;

/// Memory label of a single-element write (`4 + 8 * is_read + 16 * is_word`).
pub const MEMORY_WRITE_ELEMENT_LABEL: u8 = 4;
/// Memory label of a single-element read.
pub const MEMORY_READ_ELEMENT_LABEL: u8 = 12;
/// Memory label of a word write.
pub const MEMORY_WRITE_WORD_LABEL: u8 = 20;
/// Memory label of a word read.
pub const MEMORY_READ_WORD_LABEL: u8 = 28;

/// Bitwise chiplet label of AND.
pub const BITWISE_AND_LABEL: u16 = 2;
/// Bitwise chiplet label of XOR.
pub const BITWISE_XOR_LABEL: u16 = 6;
/// Kernel ROM label of a procedure call.
pub const KERNEL_PROC_CALL_LABEL: u16 = 16;
/// ACE label of a circuit evaluation init.
pub const ACE_INIT_LABEL: u16 = 8;
/// Label of the log-precompile capacity message.
pub const LOG_PRECOMPILE_LABEL: u16 = 14;

// TRAIT
// ================================================================================================

/// A bus message that encodes into a reduced denominator `alpha + sum_i beta^i * elem_i`.
pub trait LogUpMessage {
    /// The elements of the message, in encoding order.
    spec fn spec_elements(&self) -> Seq<u64>;

    /// Returns the elements of the message, in encoding order.
    fn elements(&self) -> (r: Vec<u64>)
        ensures
            r@ == self.spec_elements(),
            r@.len() <= MAX_MESSAGE_WIDTH,
    ;

    /// Encodes this message under the given challenges.
    fn encode_with(&self, challenges: &Challenges) -> (r: QuadFelt)
        requires
            challenges.wf(),
        ensures
            r == spec_encode(challenges.spec_alpha(), challenges.spec_beta(), self.spec_elements()),
            r.wf(),
    {
        let elems = self.elements();
        challenges.encode(elems.as_slice())
    }
}

// HASHER MESSAGES
// ================================================================================================

/// Hasher chiplet message: `[label, addr, node_index, ..payload]`, with a 12-element state, an
/// 8-element rate or a 4-element word as payload.
#[derive(Debug, Clone, Copy)]
pub enum HasherMsg {
    State { label_value: u16, addr: u64, node_index: u64, state: [u64; 12] },
    Rate { label_value: u16, addr: u64, node_index: u64, rate: [u64; 8] },
    Word { label_value: u16, addr: u64, node_index: u64, word: [u64; 4] },
}

impl HasherMsg {
    /// Linear hash init: the full 12-lane sponge state, label `LINEAR_HASH_LABEL + 16`.
    pub fn linear_hash_init(addr: u64, state: [u64; 12]) -> (r: HasherMsg)
        ensures
            r == (HasherMsg::State {
                label_value: (LINEAR_HASH_LABEL as u16 + HASHER_INPUT_OFFSET) as u16,
                addr,
                node_index: 0,
                state,
            }),
    {
        HasherMsg::State {
            label_value: (LINEAR_HASH_LABEL as u16 + HASHER_INPUT_OFFSET) as u16,
            addr,
            node_index: 0,
            state,
        }
    }

    /// Control block init: the 8 rate lanes, then `[0, opcode, 0, 0]` as capacity, label
    /// `LINEAR_HASH_LABEL + 16`.
    pub fn control_block(addr: u64, rate: &[u64; 8], opcode: u8) -> (r: HasherMsg)
        ensures
            r matches HasherMsg::State { label_value, addr: a, node_index, state } && label_value
                == (LINEAR_HASH_LABEL as u16 + HASHER_INPUT_OFFSET) as u16 && a == addr && node_index == 0
                && state@ == rate@ + seq![0u64, opcode as u64, 0u64, 0u64],
    {
        let state: [u64; 12] = [
            rate[0],
            rate[1],
            rate[2],
            rate[3],
            rate[4],
            rate[5],
            rate[6],
            rate[7],
            0,
            opcode as u64,
            0,
            0,
        ];
        assert(state@ =~= rate@ + seq![0u64, opcode as u64, 0u64, 0u64]);
        HasherMsg::State {
            label_value: (LINEAR_HASH_LABEL as u16 + HASHER_INPUT_OFFSET) as u16,
            addr,
            node_index: 0,
            state,
        }
    }

    /// Full sponge state after a permutation, label `RETURN_STATE_LABEL + 32`.
    pub fn return_state(addr: u64, state: [u64; 12]) -> (r: HasherMsg)
        ensures
            r == (HasherMsg::State {
                label_value: (RETURN_STATE_LABEL as u16 + HASHER_OUTPUT_OFFSET) as u16,
                addr,
                node_index: 0,
                state,
            }),
    {
        HasherMsg::State {
            label_value: (RETURN_STATE_LABEL as u16 + HASHER_OUTPUT_OFFSET) as u16,
            addr,
            node_index: 0,
            state,
        }
    }

    /// Absorption of a new rate into a running hash, label `LINEAR_HASH_LABEL + 32`.
    pub fn absorption(addr: u64, rate: [u64; 8]) -> (r: HasherMsg)
        ensures
            r == (HasherMsg::Rate {
                label_value: (LINEAR_HASH_LABEL as u16 + HASHER_OUTPUT_OFFSET) as u16,
                addr,
                node_index: 0,
                rate,
            }),
    {
        HasherMsg::Rate {
            label_value: (LINEAR_HASH_LABEL as u16 + HASHER_OUTPUT_OFFSET) as u16,
            addr,
            node_index: 0,
            rate,
        }
    }

    /// Digest return (node index 0), label `RETURN_HASH_LABEL + 32`.
    pub fn return_hash(addr: u64, word: [u64; 4]) -> (r: HasherMsg)
        ensures
            r == (HasherMsg::Word {
                label_value: (RETURN_HASH_LABEL as u16 + HASHER_OUTPUT_OFFSET) as u16,
                addr,
                node_index: 0,
                word,
            }),
    {
        HasherMsg::Word { label_value: (RETURN_HASH_LABEL as u16 + HASHER_OUTPUT_OFFSET) as u16, addr, node_index: 0, word }
    }

    /// Start of a Merkle path verification, label `MP_VERIFY_LABEL + 16`.
    pub fn merkle_verify_init(addr: u64, node_index: u64, word: [u64; 4]) -> (r: HasherMsg)
        ensures
            r == (HasherMsg::Word {
                label_value: (MP_VERIFY_LABEL as u16 + HASHER_INPUT_OFFSET) as u16,
                addr,
                node_index: node_index,
                word,
            }),
    {
        HasherMsg::Word { label_value: (MP_VERIFY_LABEL as u16 + HASHER_INPUT_OFFSET) as u16, addr, node_index: node_index, word }
    }

    /// Start of a Merkle update on the old path, label `MR_UPDATE_OLD_LABEL + 16`.
    pub fn merkle_old_init(addr: u64, node_index: u64, word: [u64; 4]) -> (r: HasherMsg)
        ensures
            r == (HasherMsg::Word {
                label_value: (MR_UPDATE_OLD_LABEL as u16 + HASHER_INPUT_OFFSET) as u16,
                addr,
                node_index: node_index,
                word,
            }),
    {
        HasherMsg::Word { label_value: (MR_UPDATE_OLD_LABEL as u16 + HASHER_INPUT_OFFSET) as u16, addr, node_index: node_index, word }
    }

    /// Start of a Merkle update on the new path, label `MR_UPDATE_NEW_LABEL + 16`.
    pub fn merkle_new_init(addr: u64, node_index: u64, word: [u64; 4]) -> (r: HasherMsg)
        ensures
            r == (HasherMsg::Word {
                label_value: (MR_UPDATE_NEW_LABEL as u16 + HASHER_INPUT_OFFSET) as u16,
                addr,
                node_index: node_index,
                word,
            }),
    {
        HasherMsg::Word { label_value: (MR_UPDATE_NEW_LABEL as u16 + HASHER_INPUT_OFFSET) as u16, addr, node_index: node_index, word }
    }

}

impl LogUpMessage for HasherMsg {
    open spec fn spec_elements(&self) -> Seq<u64> {
        match *self {
            HasherMsg::State { label_value, addr, node_index, state } => seq![
                label_value as u64,
                addr,
                node_index,
            ] + state@,
            HasherMsg::Rate { label_value, addr, node_index, rate } => seq![
                label_value as u64,
                addr,
                node_index,
            ] + rate@,
            HasherMsg::Word { label_value, addr, node_index, word } => seq![
                label_value as u64,
                addr,
                node_index,
            ] + word@,
        }
    }

    fn elements(&self) -> (r: Vec<u64>) {
        let r = match *self {
            HasherMsg::State { label_value, addr, node_index, state } => vec![
                label_value as u64,
                addr,
                node_index,
                state[0],
                state[1],
                state[2],
                state[3],
                state[4],
                state[5],
                state[6],
                state[7],
                state[8],
                state[9],
                state[10],
                state[11],
            ],
            HasherMsg::Rate { label_value, addr, node_index, rate } => vec![
                label_value as u64,
                addr,
                node_index,
                rate[0],
                rate[1],
                rate[2],
                rate[3],
                rate[4],
                rate[5],
                rate[6],
                rate[7],
            ],
            HasherMsg::Word { label_value, addr, node_index, word } => vec![
                label_value as u64,
                addr,
                node_index,
                word[0],
                word[1],
                word[2],
                word[3],
            ],
        };
        assert(r@ =~= self.spec_elements());
        r
    }
}

impl HasherMsg {
    /// Encodes this message under the given challenges.
    pub fn encode(&self, challenges: &Challenges) -> (r: QuadFelt)
        requires
            challenges.wf(),
        ensures
            r == spec_encode(challenges.spec_alpha(), challenges.spec_beta(), self.spec_elements()),
    {
        self.encode_with(challenges)
    }
}

// MEMORY MESSAGES
// ================================================================================================

/// Common header of memory messages: `[ctx, addr, clk]`.
#[derive(Debug, Clone, Copy)]
pub struct MemoryHeader {
    pub ctx: u64,
    pub addr: u64,
    pub clk: u64,
}

impl MemoryHeader {
    /// Reads a single element.
    pub fn read_element(&self, element: u64) -> (r: MemoryMsg)
        ensures
            r == (MemoryMsg::Element { op_value: MEMORY_READ_ELEMENT_LABEL as u16, header: *self, element }),
    {
        MemoryMsg::Element { op_value: MEMORY_READ_ELEMENT_LABEL as u16, header: *self, element }
    }

    /// Writes a single element.
    pub fn write_element(&self, element: u64) -> (r: MemoryMsg)
        ensures
            r == (MemoryMsg::Element { op_value: MEMORY_WRITE_ELEMENT_LABEL as u16, header: *self, element }),
    {
        MemoryMsg::Element { op_value: MEMORY_WRITE_ELEMENT_LABEL as u16, header: *self, element }
    }

    /// Reads a 4-element word.
    pub fn read_word(&self, word: [u64; 4]) -> (r: MemoryMsg)
        ensures
            r == (MemoryMsg::Word { op_value: MEMORY_READ_WORD_LABEL as u16, header: *self, word }),
    {
        MemoryMsg::Word { op_value: MEMORY_READ_WORD_LABEL as u16, header: *self, word }
    }

    /// Writes a 4-element word.
    pub fn write_word(&self, word: [u64; 4]) -> (r: MemoryMsg)
        ensures
            r == (MemoryMsg::Word { op_value: MEMORY_WRITE_WORD_LABEL as u16, header: *self, word }),
    {
        MemoryMsg::Word { op_value: MEMORY_WRITE_WORD_LABEL as u16, header: *self, word }
    }

}

/// Memory chiplet message: `[op_label, ctx, addr, clk, ..payload]`, with one element or a word.
#[derive(Debug, Clone, Copy)]
pub enum MemoryMsg {
    Element { op_value: u16, header: MemoryHeader, element: u64 },
    Word { op_value: u16, header: MemoryHeader, word: [u64; 4] },
}

impl LogUpMessage for MemoryMsg {
    open spec fn spec_elements(&self) -> Seq<u64> {
        match *self {
            MemoryMsg::Element { op_value, header, element } => seq![
                op_value as u64,
                header.ctx,
                header.addr,
                header.clk,
                element,
            ],
            MemoryMsg::Word { op_value, header, word } => seq![
                op_value as u64,
                header.ctx,
                header.addr,
                header.clk,
            ] + word@,
        }
    }

    fn elements(&self) -> (r: Vec<u64>) {
        let r = match *self {
            MemoryMsg::Element { op_value, header, element } => vec![
                op_value as u64,
                header.ctx,
                header.addr,
                header.clk,
                element,
            ],
            MemoryMsg::Word { op_value, header, word } => vec![
                op_value as u64,
                header.ctx,
                header.addr,
                header.clk,
                word[0],
                word[1],
                word[2],
                word[3],
            ],
        };
        assert(r@ =~= self.spec_elements());
        r
    }
}

impl MemoryMsg {
    /// Encodes this message under the given challenges.
    pub fn encode(&self, challenges: &Challenges) -> (r: QuadFelt)
        requires
            challenges.wf(),
        ensures
            r == spec_encode(challenges.spec_alpha(), challenges.spec_beta(), self.spec_elements()),
    {
        self.encode_with(challenges)
    }
}

// BITWISE MESSAGE
// ================================================================================================

/// Bitwise chiplet message: `[label, a, b, result]`.
#[derive(Debug, Clone, Copy)]
pub struct BitwiseMsg {
    op_value: u16,
    pub a: u64,
    pub b: u64,
    pub result: u64,
}

impl BitwiseMsg {
    /// The operation label of the message.
    pub closed spec fn spec_op_value(&self) -> u16 {
        self.op_value
    }

    /// The first operand.
    pub closed spec fn spec_a(&self) -> u64 {
        self.a
    }

    /// The second operand.
    pub closed spec fn spec_b(&self) -> u64 {
        self.b
    }

    /// The result of the operation.
    pub closed spec fn spec_result(&self) -> u64 {
        self.result
    }

    /// Bitwise AND message (label 2).
    pub fn and(a: u64, b: u64, result: u64) -> (r: BitwiseMsg)
        ensures
            r.spec_op_value() == BITWISE_AND_LABEL,
            r.spec_a() == a,
            r.spec_b() == b,
            r.spec_result() == result,
            r.spec_elements() == seq![BITWISE_AND_LABEL as u64, a, b, result],
    {
        BitwiseMsg { op_value: BITWISE_AND_LABEL, a, b, result }
    }

    /// Bitwise XOR message (label 6).
    pub fn xor(a: u64, b: u64, result: u64) -> (r: BitwiseMsg)
        ensures
            r.spec_op_value() == BITWISE_XOR_LABEL,
            r.spec_a() == a,
            r.spec_b() == b,
            r.spec_result() == result,
            r.spec_elements() == seq![BITWISE_XOR_LABEL as u64, a, b, result],
    {
        BitwiseMsg { op_value: BITWISE_XOR_LABEL, a, b, result }
    }
}

impl LogUpMessage for BitwiseMsg {
    closed spec fn spec_elements(&self) -> Seq<u64> {
        seq![self.op_value as u64, self.a, self.b, self.result]
    }

    fn elements(&self) -> (r: Vec<u64>) {
        let r = vec![self.op_value as u64, self.a, self.b, self.result];
        assert(r@ =~= self.spec_elements());
        r
    }
}

impl BitwiseMsg {
    /// Encodes this message under the given challenges.
    pub fn encode(&self, challenges: &Challenges) -> (r: QuadFelt)
        requires
            challenges.wf(),
        ensures
            r == spec_encode(challenges.spec_alpha(), challenges.spec_beta(), self.spec_elements()),
    {
        self.encode_with(challenges)
    }
}

// DECODER MESSAGES
// ================================================================================================

/// Block stack message: `[block_id, parent_id, is_loop, ctx, fmp, depth, fn_hash[4]]`; a simple
/// message encodes the context fields as zeros.
#[derive(Debug, Clone, Copy)]
pub enum BlockStackMsg {
    Simple { block_id: u64, parent_id: u64, is_loop: u64 },
    Full {
        block_id: u64,
        parent_id: u64,
        is_loop: u64,
        ctx: u64,
        fmp: u64,
        depth: u64,
        fn_hash: [u64; 4],
    },
}

impl LogUpMessage for BlockStackMsg {
    open spec fn spec_elements(&self) -> Seq<u64> {
        match *self {
            BlockStackMsg::Simple { block_id, parent_id, is_loop } => seq![
                block_id,
                parent_id,
                is_loop,
                0u64,
                0u64,
                0u64,
                0u64,
                0u64,
                0u64,
                0u64,
            ],
            BlockStackMsg::Full { block_id, parent_id, is_loop, ctx, fmp, depth, fn_hash } => seq![
                block_id,
                parent_id,
                is_loop,
                ctx,
                fmp,
                depth,
            ] + fn_hash@,
        }
    }

    fn elements(&self) -> (r: Vec<u64>) {
        let r = match *self {
            BlockStackMsg::Simple { block_id, parent_id, is_loop } => vec![
                block_id,
                parent_id,
                is_loop,
                0,
                0,
                0,
                0,
                0,
                0,
                0,
            ],
            BlockStackMsg::Full { block_id, parent_id, is_loop, ctx, fmp, depth, fn_hash } => vec![
                block_id,
                parent_id,
                is_loop,
                ctx,
                fmp,
                depth,
                fn_hash[0],
                fn_hash[1],
                fn_hash[2],
                fn_hash[3],
            ],
        };
        assert(r@ =~= self.spec_elements());
        r
    }
}

impl BlockStackMsg {
    /// Encodes this message under the given challenges.
    pub fn encode(&self, challenges: &Challenges) -> (r: QuadFelt)
        requires
            challenges.wf(),
        ensures
            r == spec_encode(challenges.spec_alpha(), challenges.spec_beta(), self.spec_elements()),
    {
        self.encode_with(challenges)
    }
}

/// Block hash queue message: `[parent, child_hash[4], is_first_child, is_loop_body]`.
#[derive(Debug, Clone, Copy)]
pub enum BlockHashMsg {
    FirstChild { parent: u64, child_hash: [u64; 4] },
    Child { parent: u64, child_hash: [u64; 4] },
    LoopBody { parent: u64, child_hash: [u64; 4] },
    End { parent: u64, child_hash: [u64; 4], is_first_child: u64, is_loop_body: u64 },
}

impl LogUpMessage for BlockHashMsg {
    open spec fn spec_elements(&self) -> Seq<u64> {
        match *self {
            BlockHashMsg::FirstChild { parent, child_hash } => seq![parent] + child_hash@ + seq![
                1u64,
                0u64,
            ],
            BlockHashMsg::Child { parent, child_hash } => seq![parent] + child_hash@ + seq![
                0u64,
                0u64,
            ],
            BlockHashMsg::LoopBody { parent, child_hash } => seq![parent] + child_hash@ + seq![
                0u64,
                1u64,
            ],
            BlockHashMsg::End { parent, child_hash, is_first_child, is_loop_body } => seq![parent]
                + child_hash@ + seq![is_first_child, is_loop_body],
        }
    }

    fn elements(&self) -> (r: Vec<u64>) {
        let r = match *self {
            BlockHashMsg::FirstChild { parent, child_hash } => vec![
                parent,
                child_hash[0],
                child_hash[1],
                child_hash[2],
                child_hash[3],
                1,
                0,
            ],
            BlockHashMsg::Child { parent, child_hash } => vec![
                parent,
                child_hash[0],
                child_hash[1],
                child_hash[2],
                child_hash[3],
                0,
                0,
            ],
            BlockHashMsg::LoopBody { parent, child_hash } => vec![
                parent,
                child_hash[0],
                child_hash[1],
                child_hash[2],
                child_hash[3],
                0,
                1,
            ],
            BlockHashMsg::End { parent, child_hash, is_first_child, is_loop_body } => vec![
                parent,
                child_hash[0],
                child_hash[1],
                child_hash[2],
                child_hash[3],
                is_first_child,
                is_loop_body,
            ],
        };
        assert(r@ =~= self.spec_elements());
        r
    }
}

impl BlockHashMsg {
    /// Encodes this message under the given challenges.
    pub fn encode(&self, challenges: &Challenges) -> (r: QuadFelt)
        requires
            challenges.wf(),
        ensures
            r == spec_encode(challenges.spec_alpha(), challenges.spec_beta(), self.spec_elements()),
    {
        self.encode_with(challenges)
    }
}

/// Op group table message: `[batch_id, group_pos, group_value]`.
#[derive(Debug, Clone, Copy)]
pub struct OpGroupMsg {
    pub batch_id: u64,
    pub group_pos: u64,
    pub group_value: u64,
}

impl OpGroupMsg {
    /// Creates an op group message with `group_pos = group_count - offset` in the field.
    pub fn new(batch_id: &u64, group_count: u64, offset: u16, group_value: u64) -> (r: OpGroupMsg)
        requires
            is_canonical(group_count),
        ensures
            r.batch_id == *batch_id,
            r.group_pos == fmod(group_count - offset),
            r.group_value == group_value,
    {
        OpGroupMsg {
            batch_id: *batch_id,
            group_pos: felt_sub(group_count, offset as u64),
            group_value,
        }
    }
}

impl LogUpMessage for OpGroupMsg {
    open spec fn spec_elements(&self) -> Seq<u64> {
        seq![self.batch_id, self.group_pos, self.group_value]
    }

    fn elements(&self) -> (r: Vec<u64>) {
        let r = vec![self.batch_id, self.group_pos, self.group_value];
        assert(r@ =~= self.spec_elements());
        r
    }
}

impl OpGroupMsg {
    /// Encodes this message under the given challenges.
    pub fn encode(&self, challenges: &Challenges) -> (r: QuadFelt)
        requires
            challenges.wf(),
        ensures
            r == spec_encode(challenges.spec_alpha(), challenges.spec_beta(), self.spec_elements()),
    {
        self.encode_with(challenges)
    }
}

// STACK MESSAGE
// ================================================================================================

/// Stack overflow table message: `[clk, val, prev]`.
#[derive(Debug, Clone, Copy)]
pub struct OverflowMsg {
    pub clk: u64,
    pub val: u64,
    pub prev: u64,
}

impl LogUpMessage for OverflowMsg {
    open spec fn spec_elements(&self) -> Seq<u64> {
        seq![self.clk, self.val, self.prev]
    }

    fn elements(&self) -> (r: Vec<u64>) {
        let r = vec![self.clk, self.val, self.prev];
        assert(r@ =~= self.spec_elements());
        r
    }
}

impl OverflowMsg {
    /// Encodes this message under the given challenges.
    pub fn encode(&self, challenges: &Challenges) -> (r: QuadFelt)
        requires
            challenges.wf(),
        ensures
            r == spec_encode(challenges.spec_alpha(), challenges.spec_beta(), self.spec_elements()),
    {
        self.encode_with(challenges)
    }
}

// KERNEL ROM, ACE, RANGE AND LOG-PRECOMPILE MESSAGES
// ================================================================================================

/// Kernel ROM message: `[KERNEL_PROC_CALL_LABEL, digest[4]]`.
#[derive(Debug, Clone, Copy)]
pub struct KernelRomMsg {
    pub digest: [u64; 4],
}

impl LogUpMessage for KernelRomMsg {
    open spec fn spec_elements(&self) -> Seq<u64> {
        seq![KERNEL_PROC_CALL_LABEL as u64] + self.digest@
    }

    fn elements(&self) -> (r: Vec<u64>) {
        let r = vec![
            KERNEL_PROC_CALL_LABEL as u64,
            self.digest[0],
            self.digest[1],
            self.digest[2],
            self.digest[3],
        ];
        assert(r@ =~= self.spec_elements());
        r
    }
}

impl KernelRomMsg {
    /// Encodes this message under the given challenges.
    pub fn encode(&self, challenges: &Challenges) -> (r: QuadFelt)
        requires
            challenges.wf(),
        ensures
            r == spec_encode(challenges.spec_alpha(), challenges.spec_beta(), self.spec_elements()),
    {
        self.encode_with(challenges)
    }
}

/// ACE circuit evaluation init message: `[ACE_INIT_LABEL, clk, ctx, ptr, num_read, num_eval]`.
#[derive(Debug, Clone, Copy)]
pub struct AceInitMsg {
    pub clk: u64,
    pub ctx: u64,
    pub ptr: u64,
    pub num_read: u64,
    pub num_eval: u64,
}

impl LogUpMessage for AceInitMsg {
    open spec fn spec_elements(&self) -> Seq<u64> {
        seq![ACE_INIT_LABEL as u64, self.clk, self.ctx, self.ptr, self.num_read, self.num_eval]
    }

    fn elements(&self) -> (r: Vec<u64>) {
        let r = vec![ACE_INIT_LABEL as u64, self.clk, self.ctx, self.ptr, self.num_read, self.num_eval];
        assert(r@ =~= self.spec_elements());
        r
    }
}

impl AceInitMsg {
    /// Encodes this message under the given challenges.
    pub fn encode(&self, challenges: &Challenges) -> (r: QuadFelt)
        requires
            challenges.wf(),
        ensures
            r == spec_encode(challenges.spec_alpha(), challenges.spec_beta(), self.spec_elements()),
    {
        self.encode_with(challenges)
    }
}

/// Range check message: `[value]`.
#[derive(Debug, Clone, Copy)]
pub struct RangeMsg {
    pub value: u64,
}

impl LogUpMessage for RangeMsg {
    open spec fn spec_elements(&self) -> Seq<u64> {
        seq![self.value]
    }

    fn elements(&self) -> (r: Vec<u64>) {
        let r = vec![self.value];
        assert(r@ =~= self.spec_elements());
        r
    }
}

impl RangeMsg {
    /// Encodes this message under the given challenges.
    pub fn encode(&self, challenges: &Challenges) -> (r: QuadFelt)
        requires
            challenges.wf(),
        ensures
            r == spec_encode(challenges.spec_alpha(), challenges.spec_beta(), self.spec_elements()),
    {
        self.encode_with(challenges)
    }
}

/// Log-precompile capacity message: `[LOG_PRECOMPILE_LABEL, capacity[4]]`.
#[derive(Debug, Clone, Copy)]
pub struct LogCapacityMsg {
    pub capacity: [u64; 4],
}

impl LogUpMessage for LogCapacityMsg {
    open spec fn spec_elements(&self) -> Seq<u64> {
        seq![LOG_PRECOMPILE_LABEL as u64] + self.capacity@
    }

    fn elements(&self) -> (r: Vec<u64>) {
        let r = vec![
            LOG_PRECOMPILE_LABEL as u64,
            self.capacity[0],
            self.capacity[1],
            self.capacity[2],
            self.capacity[3],
        ];
        assert(r@ =~= self.spec_elements());
        r
    }
}

impl LogCapacityMsg {
    /// Encodes this message under the given challenges.
    pub fn encode(&self, challenges: &Challenges) -> (r: QuadFelt)
        requires
            challenges.wf(),
        ensures
            r == spec_encode(challenges.spec_alpha(), challenges.spec_beta(), self.spec_elements()),
    {
        self.encode_with(challenges)
    }
}

} // verus!
