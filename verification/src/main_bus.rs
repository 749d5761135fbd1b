//! The LogUp bus columns of the main trace (M1 to M5): which decoder, stack and range messages
//! feed which column, under which operation selectors.
//!
//! - M1: the block stack table, with the range table response always active.
//! - M2: the block hash queue.
//! - M3: the requests to the chiplets.
//! - M4: the range checks of u32 operations, with the log-precompile capacity.
//! - M5: the op group table.

use vstd::prelude::*;
use crate::bus_values::{
    lemma_fe_units, lemma_remove_then_add, lemma_steps_active_on_empty, lemma_steps_inactive, lemma_steps_wf,
    all_canonical, batch_add, batch_insert, batch_remove, column_add, concat12, empty_batch,
    empty_set, enc, fadd, fe_add, fe_mul, fe_sub, first12, fmul, fsub, gate_add, gate_remove,
    hasher_elems, mem_element_elems, mem_word_elems, word16, word8, word_at,
};
use crate::challenges::Challenges;
use crate::field::{QuadFelt, fmod, is_canonical, q_mul, q_sub};
use crate::logup::{
    Batch, Column, ColumnConstraints, RationalSet, all_wf, cross_sum, frac_fold, q_prod, set_step,
    lemma_frac_fold_closed_form,
};
use crate::logup_msg::{
    AceInitMsg, BitwiseMsg, BlockHashMsg, BlockStackMsg, HasherMsg, KernelRomMsg, LogCapacityMsg, LogUpMessage,
    MemoryHeader, OpGroupMsg, RangeMsg, ACE_INIT_LABEL, BITWISE_AND_LABEL, BITWISE_XOR_LABEL,
    HASHER_INPUT_OFFSET, HASHER_OUTPUT_OFFSET, KERNEL_PROC_CALL_LABEL, LINEAR_HASH_LABEL,
    LOG_PRECOMPILE_LABEL, MEMORY_READ_ELEMENT_LABEL, MEMORY_READ_WORD_LABEL,
    MEMORY_WRITE_ELEMENT_LABEL, MEMORY_WRITE_WORD_LABEL, MP_VERIFY_LABEL, MR_UPDATE_NEW_LABEL,
    MR_UPDATE_OLD_LABEL, RETURN_HASH_LABEL, RETURN_STATE_LABEL,
};

verus! {

// INPUTS
// ================================================================================================

/// The values of one main-trace row that the bus columns read.
#[derive(Debug, Clone, Copy)]
pub struct MainRowValues {
    /// System clock.
    pub clk: u64,
    /// Execution context.
    pub ctx: u64,
    /// Hash of the function that is executing.
    pub fn_hash: [u64; 4],
    /// Decoder block address.
    pub addr: u64,
    /// The eight decoder hasher-state lanes `h0..h7`.
    pub hasher_state: [u64; 8],
    /// The seven opcode bits, lowest first.
    pub op_bits: [u64; 7],
    /// Whether the decoder is inside a basic block.
    pub in_span: u64,
    /// Number of op groups left in the basic block.
    pub group_count: u64,
    /// The three op batch flags `c0, c1, c2`.
    pub op_batch_flags: [u64; 3],
    /// Block flags of the decoder.
    pub is_loop_body: u64,
    pub is_loop: u64,
    pub is_call: u64,
    pub is_syscall: u64,
    /// The first four user-op helper registers.
    pub user_helpers: [u64; 4],
    /// The helper registers that LOGPRECOMPILE reads: the hasher address and the previous
    /// capacity.
    pub lp_addr: u64,
    pub lp_cap_prev: [u64; 4],
    /// The stack words that LOGPRECOMPILE reads on its own row (commitment and tag) and writes
    /// on the next one (the two rate words and the next capacity).
    pub lp_comm: [u64; 4],
    pub lp_tag: [u64; 4],
    pub lp_r0: [u64; 4],
    pub lp_r1: [u64; 4],
    pub lp_cap_next: [u64; 4],
    /// The address operand of MSTREAM and PIPE and the two words they move between memory and
    /// the stack: the word at the address, then the word at the address plus 4.
    pub stream_addr: u64,
    pub stream_words: [u64; 8],
    /// CRYPTOSTREAM: the source and destination addresses, the two plaintext words it reads and
    /// the two ciphertext words it writes, each at the address and the address plus 4.
    pub crypto_src: u64,
    pub crypto_dst: u64,
    pub crypto_plain: [u64; 8],
    pub crypto_cipher: [u64; 8],
    /// HORNERBASE and HORNEREXT: the address of the evaluation point, the two base elements that
    /// HORNERBASE reads at the address and the address plus 1, and the word that HORNEREXT
    /// reads at the address.
    pub horner_addr: u64,
    pub horner_elems: [u64; 2],
    pub horner_word: [u64; 4],
    /// The top sixteen stack elements.
    pub stack: [u64; 16],
    /// Stack bookkeeping columns: depth and overflow address.
    pub b0: u64,
    pub b1: u64,
    /// Range table multiplicity and value.
    pub range_m: u64,
    pub range_v: u64,
    /// The five main bus accumulators `M1..M5` on this row.
    pub bus_acc: [QuadFelt; 5],
}

impl MainRowValues {
    /// Every value is a canonical field element.
    pub open spec fn is_canonical(&self) -> bool {
        &&& is_canonical(self.clk)
        &&& is_canonical(self.ctx)
        &&& all_canonical(self.fn_hash@)
        &&& is_canonical(self.addr)
        &&& all_canonical(self.hasher_state@)
        &&& all_canonical(self.op_bits@)
        &&& is_canonical(self.in_span)
        &&& is_canonical(self.group_count)
        &&& all_canonical(self.op_batch_flags@)
        &&& is_canonical(self.is_loop_body)
        &&& is_canonical(self.is_loop)
        &&& is_canonical(self.is_call)
        &&& is_canonical(self.is_syscall)
        &&& all_canonical(self.user_helpers@)
        &&& is_canonical(self.lp_addr)
        &&& all_canonical(self.lp_cap_prev@)
        &&& all_canonical(self.lp_comm@)
        &&& all_canonical(self.lp_tag@)
        &&& all_canonical(self.lp_r0@)
        &&& all_canonical(self.lp_r1@)
        &&& all_canonical(self.lp_cap_next@)
        &&& is_canonical(self.stream_addr)
        &&& all_canonical(self.stream_words@)
        &&& is_canonical(self.crypto_src)
        &&& is_canonical(self.crypto_dst)
        &&& all_canonical(self.crypto_plain@)
        &&& all_canonical(self.crypto_cipher@)
        &&& is_canonical(self.horner_addr)
        &&& all_canonical(self.horner_elems@)
        &&& all_canonical(self.horner_word@)
        &&& all_canonical(self.stack@)
        &&& is_canonical(self.b0)
        &&& is_canonical(self.b1)
        &&& is_canonical(self.range_m)
        &&& is_canonical(self.range_v)
        &&& forall|k: int| 0 <= k < 5 ==> (#[trigger] self.bus_acc@[k]).wf()
    }
}

/// The values of the operation flags on one row.
#[derive(Debug, Clone, Copy)]
pub struct OpFlagValues {
    pub join: u64,
    pub split: u64,
    pub span: u64,
    pub dyn_op: u64,
    pub loop_op: u64,
    pub dyncall: u64,
    pub call: u64,
    pub syscall: u64,
    pub end: u64,
    pub respan: u64,
    pub repeat: u64,
    pub halt: u64,
    pub hperm: u64,
    pub mpverify: u64,
    pub mrupdate: u64,
    pub mload: u64,
    pub mstore: u64,
    pub mloadw: u64,
    pub mstorew: u64,
    pub u32and: u64,
    pub u32xor: u64,
    pub evalcircuit: u64,
    pub log_precompile: u64,
    pub push: u64,
    pub mstream: u64,
    pub pipe: u64,
    pub cryptostream: u64,
    pub hornerbase: u64,
    pub hornerext: u64,
}

impl OpFlagValues {
    /// Every flag is a canonical field element.
    pub open spec fn is_canonical(&self) -> bool {
        &&& is_canonical(self.join) && is_canonical(self.split) && is_canonical(self.span)
        &&& is_canonical(self.dyn_op) && is_canonical(self.loop_op) && is_canonical(self.dyncall)
        &&& is_canonical(self.call) && is_canonical(self.syscall) && is_canonical(self.end)
        &&& is_canonical(self.respan) && is_canonical(self.repeat) && is_canonical(self.halt)
        &&& is_canonical(self.hperm) && is_canonical(self.mpverify) && is_canonical(self.mrupdate)
        &&& is_canonical(self.mload) && is_canonical(self.mstore) && is_canonical(self.mloadw)
        &&& is_canonical(self.mstorew) && is_canonical(self.u32and) && is_canonical(self.u32xor)
        &&& is_canonical(self.evalcircuit) && is_canonical(self.log_precompile)
        &&& is_canonical(self.push) && is_canonical(self.mstream) && is_canonical(self.pipe)
        &&& is_canonical(self.cryptostream) && is_canonical(self.hornerbase)
        &&& is_canonical(self.hornerext)
    }
}

/// Constants of the virtual machine that the bus messages carry: the opcodes of the control
/// blocks, the frame-pointer cell and its initial value, and the length of a hasher cycle.
#[derive(Debug, Clone, Copy)]
pub struct VmConstants {
    pub op_join: u8,
    pub op_split: u8,
    pub op_loop: u8,
    pub op_call: u8,
    pub op_syscall: u8,
    pub op_dyn: u8,
    pub op_dyncall: u8,
    pub fmp_addr: u64,
    pub fmp_init_value: u64,
    pub hash_cycle_len: u64,
}

impl VmConstants {
    /// The field-valued constants are canonical.
    pub open spec fn is_canonical(&self) -> bool {
        is_canonical(self.fmp_addr) && is_canonical(self.fmp_init_value) && is_canonical(
            self.hash_cycle_len,
        )
    }
}

// MESSAGE ELEMENTS
// ================================================================================================

/// A block stack entry without context: `[block, parent, is_loop, 0, .., 0]`.
pub open spec fn bstack_simple(block: u64, parent: u64, is_loop: u64) -> Seq<u64> {
    seq![block, parent, is_loop, 0u64, 0u64, 0u64, 0u64, 0u64, 0u64, 0u64]
}

/// A block stack entry with context: `[block, parent, is_loop, ctx, fmp, depth, ..fn_hash]`.
pub open spec fn bstack_full(
    block: u64,
    parent: u64,
    is_loop: u64,
    ctx: u64,
    fmp: u64,
    depth: u64,
    fn_hash: Seq<u64>,
) -> Seq<u64> {
    seq![block, parent, is_loop, ctx, fmp, depth] + fn_hash
}

/// A block hash queue entry: `[parent, ..child_hash, is_first_child, is_loop_body]`.
pub open spec fn bhash(parent: u64, child: Seq<u64>, is_first_child: u64, is_loop_body: u64) -> Seq<
    u64,
> {
    seq![parent] + child + seq![is_first_child, is_loop_body]
}

/// The label of a hasher input message with transition label `l`.
pub open spec fn in_label(l: u8) -> u16 {
    (l as u16 + HASHER_INPUT_OFFSET) as u16
}

/// The label of a hasher output message with transition label `l`.
pub open spec fn out_label(l: u8) -> u16 {
    (l as u16 + HASHER_OUTPUT_OFFSET) as u16
}

/// The hasher request of a control block: the rate, then `[0, opcode, 0, 0]`.
pub open spec fn control_elems(addr: u64, rate: Seq<u64>, opcode: u8) -> Seq<u64> {
    hasher_elems(
        in_label(LINEAR_HASH_LABEL),
        addr,
        0,
        rate + seq![0u64, opcode as u64, 0u64, 0u64],
    )
}

/// Eight zeros.
pub open spec fn zero_rate() -> Seq<u64> {
    seq![0u64, 0u64, 0u64, 0u64, 0u64, 0u64, 0u64, 0u64]
}

/// The child hash that SPLIT selects: `s0 * h[i] + (1 - s0) * h[i + 4]`.
pub open spec fn split_child(h: Seq<u64>, s0: u64) -> Seq<u64> {
    seq![
        fe_add(fe_mul(s0, h[0]), fe_mul(fe_sub(1, s0), h[4])),
        fe_add(fe_mul(s0, h[1]), fe_mul(fe_sub(1, s0), h[5])),
        fe_add(fe_mul(s0, h[2]), fe_mul(fe_sub(1, s0), h[6])),
        fe_add(fe_mul(s0, h[3]), fe_mul(fe_sub(1, s0), h[7])),
    ]
}

/// `sum_{i < k} bits[i] * 2^i`, accumulated in the field from the lowest bit.
pub open spec fn bits_value(bits: Seq<u64>, k: nat) -> u64
    decreases k,
{
    if k == 0 {
        0
    } else {
        fe_add(bits_value(bits, (k - 1) as nat), fe_mul(bits[k - 1], pow2_u64((k - 1) as nat)))
    }
}

/// `2^i` for the opcode bit weights.
pub open spec fn pow2_u64(i: nat) -> u64
    decreases i,
{
    if i == 0 {
        1
    } else {
        (2 * pow2_u64((i - 1) as nat)) as u64
    }
}

// THE SETS OF THE MAIN TRACE
// ================================================================================================

/// G_bstack: pushes on JOIN/SPLIT/SPAN/DYN, LOOP, DYNCALL and CALL/SYSCALL, pops on END, and a
/// simultaneous push and pop on RESPAN.
#[verifier::opaque]
pub open spec fn spec_g_bstack(
    row: MainRowValues,
    next: MainRowValues,
    fl: OpFlagValues,
    ch: Challenges,
) -> (QuadFelt, QuadFelt) {
    let h = row.hasher_state@;
    let a = gate_add(
        empty_set(),
        fe_add(fe_add(fe_add(fl.join, fl.split), fl.span), fl.dyn_op),
        enc(ch, bstack_simple(next.addr, row.addr, 0)),
    );
    let a = gate_add(a, fl.loop_op, enc(ch, bstack_simple(next.addr, row.addr, row.stack@[0])));
    let a = gate_add(
        a,
        fl.dyncall,
        enc(ch, bstack_full(next.addr, row.addr, 0, row.ctx, h[4], h[5], row.fn_hash@)),
    );
    let a = gate_add(
        a,
        fe_add(fl.call, fl.syscall),
        enc(ch, bstack_full(next.addr, row.addr, 0, row.ctx, row.b0, row.b1, row.fn_hash@)),
    );
    let a = gate_remove(
        a,
        fe_mul(fl.end, fe_sub(fe_sub(1, row.is_call), row.is_syscall)),
        enc(ch, bstack_simple(row.addr, next.addr, row.is_loop)),
    );
    let a = gate_remove(
        a,
        fe_mul(fl.end, fe_add(row.is_call, row.is_syscall)),
        enc(
            ch,
            bstack_full(row.addr, next.addr, row.is_loop, next.ctx, next.b0, next.b1, next.fn_hash@),
        ),
    );
    set_step(
        a,
        fl.respan,
        batch_remove(
            batch_add(empty_batch(), enc(ch, bstack_simple(next.addr, next.hasher_state@[1], 0))),
            enc(ch, bstack_simple(row.addr, next.hasher_state@[1], 0)),
        ),
    )
}

/// G_rtable: the range table response `range_m / [range_v]`, always active.
#[verifier::opaque]
pub open spec fn spec_g_rtable(row: MainRowValues, ch: Challenges) -> (QuadFelt, QuadFelt) {
    let b = batch_insert(empty_batch(), row.range_m, enc(ch, seq![row.range_v]));
    (b.1, b.0)
}

/// G_bqueue: children enqueued by JOIN, SPLIT, LOOP/REPEAT and DYN/DYNCALL/CALL/SYSCALL, and
/// dequeued by END.
#[verifier::opaque]
pub open spec fn spec_g_bqueue(
    row: MainRowValues,
    next: MainRowValues,
    fl: OpFlagValues,
    fl_next: OpFlagValues,
    ch: Challenges,
) -> (QuadFelt, QuadFelt) {
    let h = row.hasher_state@;
    let parent = next.addr;
    let s0 = row.stack@[0];
    let a = set_step(
        empty_set(),
        fl.join,
        batch_add(
            batch_add(empty_batch(), enc(ch, bhash(parent, word_at(h, 0), 1, 0))),
            enc(ch, bhash(parent, word_at(h, 4), 0, 0)),
        ),
    );
    let a = gate_add(a, fl.split, enc(ch, bhash(parent, split_child(h, s0), 0, 0)));
    let a = gate_add(
        a,
        fe_add(fe_mul(fl.loop_op, s0), fl.repeat),
        enc(ch, bhash(parent, word_at(h, 0), 0, 1)),
    );
    let a = gate_add(
        a,
        fe_add(fe_add(fe_add(fl.dyn_op, fl.dyncall), fl.call), fl.syscall),
        enc(ch, bhash(parent, word_at(h, 0), 0, 0)),
    );
    gate_remove(
        a,
        fl.end,
        enc(
            ch,
            bhash(
                parent,
                word_at(h, 0),
                fe_sub(fe_sub(fe_sub(1, fl_next.end), fl_next.repeat), fl_next.halt),
                row.is_loop_body,
            ),
        ),
    )
}

/// G_creq, control blocks: the hasher request of JOIN, SPLIT, LOOP, SPAN, RESPAN and END.
#[verifier::opaque]
pub open spec fn spec_creq_blocks(
    acc: (QuadFelt, QuadFelt),
    row: MainRowValues,
    next: MainRowValues,
    fl: OpFlagValues,
    c: VmConstants,
    ch: Challenges,
) -> (QuadFelt, QuadFelt) {
    let h = row.hasher_state@;
    let an = next.addr;
    let last_off = fe_sub(c.hash_cycle_len, 1);
    let a = gate_remove(acc, fl.join, enc(ch, control_elems(an, h, c.op_join)));
    let a = gate_remove(a, fl.split, enc(ch, control_elems(an, h, c.op_split)));
    let a = gate_remove(a, fl.loop_op, enc(ch, control_elems(an, h, c.op_loop)));
    let a = gate_remove(a, fl.span, enc(ch, control_elems(an, h, 0)));
    let a = gate_remove(
        a,
        fl.respan,
        enc(ch, hasher_elems(out_label(LINEAR_HASH_LABEL), fe_sub(an, 1), 0, h)),
    );
    gate_remove(
        a,
        fl.end,
        enc(
            ch,
            hasher_elems(out_label(RETURN_HASH_LABEL), fe_add(row.addr, last_off), 0, word_at(h, 0)),
        ),
    )
}

/// G_creq, calls: the hasher, memory and kernel ROM requests of CALL, SYSCALL, DYN and DYNCALL.
/// The write of the initial frame pointer into the new context of a call.
pub open spec fn fmp_write_elems(row: MainRowValues, next: MainRowValues, c: VmConstants) -> Seq<
    u64,
> {
    mem_element_elems(MEMORY_WRITE_ELEMENT_LABEL, next.ctx, c.fmp_addr, row.clk, c.fmp_init_value)
}

/// The read of the callee hash of a dynamic call from the address on top of the stack.
pub open spec fn callee_read_elems(row: MainRowValues) -> Seq<u64> {
    mem_word_elems(
        MEMORY_READ_WORD_LABEL,
        row.ctx,
        row.stack@[0],
        row.clk,
        word_at(row.hasher_state@, 0),
    )
}

/// The batch of CALL: the control block request and the frame-pointer write.
#[verifier::opaque]
pub open spec fn spec_call_batch(row: MainRowValues, next: MainRowValues, c: VmConstants, ch: Challenges) -> (QuadFelt, QuadFelt) {
    batch_remove(
        batch_remove(empty_batch(), enc(ch, control_elems(next.addr, row.hasher_state@, c.op_call))),
        enc(ch, fmp_write_elems(row, next, c)),
    )
}

/// The batch of SYSCALL: the control block request and the kernel ROM lookup.
#[verifier::opaque]
pub open spec fn spec_syscall_batch(row: MainRowValues, next: MainRowValues, c: VmConstants, ch: Challenges) -> (QuadFelt, QuadFelt) {
    batch_remove(
        batch_remove(empty_batch(), enc(ch, control_elems(next.addr, row.hasher_state@, c.op_syscall))),
        enc(ch, seq![KERNEL_PROC_CALL_LABEL as u64] + word_at(row.hasher_state@, 0)),
    )
}

/// The batch of DYN: the control block request over a zero rate and the callee read.
#[verifier::opaque]
pub open spec fn spec_dyn_batch(row: MainRowValues, next: MainRowValues, c: VmConstants, ch: Challenges) -> (QuadFelt, QuadFelt) {
    batch_remove(
        batch_remove(empty_batch(), enc(ch, control_elems(next.addr, zero_rate(), c.op_dyn))),
        enc(ch, callee_read_elems(row)),
    )
}

/// The batch of DYNCALL: the control block request over a zero rate, the callee read and the
/// frame-pointer write.
#[verifier::opaque]
pub open spec fn spec_dyncall_batch(row: MainRowValues, next: MainRowValues, c: VmConstants, ch: Challenges) -> (QuadFelt, QuadFelt) {
    batch_remove(
        batch_remove(
            batch_remove(empty_batch(), enc(ch, control_elems(next.addr, zero_rate(), c.op_dyncall))),
            enc(ch, callee_read_elems(row)),
        ),
        enc(ch, fmp_write_elems(row, next, c)),
    )
}

/// G_creq, calls: the batches of CALL, SYSCALL, DYN and DYNCALL.
#[verifier::opaque]
pub open spec fn spec_creq_calls(
    acc: (QuadFelt, QuadFelt),
    row: MainRowValues,
    next: MainRowValues,
    fl: OpFlagValues,
    c: VmConstants,
    ch: Challenges,
) -> (QuadFelt, QuadFelt) {
    let a = set_step(acc, fl.call, spec_call_batch(row, next, c, ch));
    let a = set_step(a, fl.syscall, spec_syscall_batch(row, next, c, ch));
    let a = set_step(a, fl.dyn_op, spec_dyn_batch(row, next, c, ch));
    set_step(a, fl.dyncall, spec_dyncall_batch(row, next, c, ch))
}

/// G_creq, hasher operations: HPERM, MPVERIFY and MRUPDATE.
#[verifier::opaque]
pub open spec fn spec_creq_hasher(
    acc: (QuadFelt, QuadFelt),
    row: MainRowValues,
    next: MainRowValues,
    fl: OpFlagValues,
    c: VmConstants,
    ch: Challenges,
) -> (QuadFelt, QuadFelt) {
    let s = row.stack@;
    let helper0 = row.user_helpers@[0];
    let last_off = fe_sub(c.hash_cycle_len, 1);
    let cl = c.hash_cycle_len;
    let a = set_step(
        acc,
        fl.hperm,
        batch_remove(
            batch_remove(
                empty_batch(),
                enc(ch, hasher_elems(in_label(LINEAR_HASH_LABEL), helper0, 0, s.subrange(0, 12))),
            ),
            enc(
                ch,
                hasher_elems(
                    out_label(RETURN_STATE_LABEL),
                    fe_add(helper0, last_off),
                    0,
                    next.stack@.subrange(0, 12),
                ),
            ),
        ),
    );
    let a = set_step(
        a,
        fl.mpverify,
        batch_remove(
            batch_remove(
                empty_batch(),
                enc(ch, hasher_elems(in_label(MP_VERIFY_LABEL), helper0, s[5], word_at(s, 0))),
            ),
            enc(
                ch,
                hasher_elems(
                    out_label(RETURN_HASH_LABEL),
                    fe_sub(fe_add(helper0, fe_mul(s[4], cl)), 1),
                    0,
                    word_at(s, 6),
                ),
            ),
        ),
    );
    set_step(
        a,
        fl.mrupdate,
        batch_remove(
            batch_remove(
                batch_remove(
                    batch_remove(
                        empty_batch(),
                        enc(
                            ch,
                            hasher_elems(
                                in_label(MR_UPDATE_OLD_LABEL),
                                helper0,
                                s[5],
                                word_at(s, 0),
                            ),
                        ),
                    ),
                    enc(
                        ch,
                        hasher_elems(
                            out_label(RETURN_HASH_LABEL),
                            fe_sub(fe_add(helper0, fe_mul(s[4], cl)), 1),
                            0,
                            word_at(s, 6),
                        ),
                    ),
                ),
                enc(
                    ch,
                    hasher_elems(
                        in_label(MR_UPDATE_NEW_LABEL),
                        fe_add(helper0, fe_mul(s[4], cl)),
                        s[5],
                        word_at(s, 10),
                    ),
                ),
            ),
            enc(
                ch,
                hasher_elems(
                    out_label(RETURN_HASH_LABEL),
                    fe_sub(fe_add(helper0, fe_mul(s[4], fe_add(cl, cl))), 1),
                    0,
                    word_at(next.stack@, 0),
                ),
            ),
        ),
    )
}

/// G_creq, the rest: memory, bitwise, circuit evaluation and log-precompile requests.
#[verifier::opaque]
pub open spec fn spec_creq_rest(
    acc: (QuadFelt, QuadFelt),
    row: MainRowValues,
    next: MainRowValues,
    fl: OpFlagValues,
    c: VmConstants,
    ch: Challenges,
) -> (QuadFelt, QuadFelt) {
    let s = row.stack@;
    let sn = next.stack@;
    let last_off = fe_sub(c.hash_cycle_len, 1);
    let a = gate_remove(
        acc,
        fl.mload,
        enc(ch, mem_element_elems(MEMORY_READ_ELEMENT_LABEL, row.ctx, s[0], row.clk, sn[0])),
    );
    let a = gate_remove(
        a,
        fl.mstore,
        enc(ch, mem_element_elems(MEMORY_WRITE_ELEMENT_LABEL, row.ctx, s[0], row.clk, s[1])),
    );
    let a = gate_remove(
        a,
        fl.mloadw,
        enc(ch, mem_word_elems(MEMORY_READ_WORD_LABEL, row.ctx, s[0], row.clk, word_at(sn, 0))),
    );
    let a = gate_remove(
        a,
        fl.mstorew,
        enc(ch, mem_word_elems(MEMORY_WRITE_WORD_LABEL, row.ctx, s[0], row.clk, word_at(s, 1))),
    );
    let a = gate_remove(
        a,
        fl.u32and,
        enc(ch, seq![BITWISE_AND_LABEL as u64, s[0], s[1], sn[0]]),
    );
    let a = gate_remove(
        a,
        fl.u32xor,
        enc(ch, seq![BITWISE_XOR_LABEL as u64, s[0], s[1], sn[0]]),
    );
    let a = gate_remove(
        a,
        fl.evalcircuit,
        enc(ch, seq![ACE_INIT_LABEL as u64, row.clk, row.ctx, s[0], s[1], s[2]]),
    );
    set_step(
        a,
        fl.log_precompile,
        batch_remove(
            batch_remove(
                empty_batch(),
                enc(
                    ch,
                    hasher_elems(
                        in_label(LINEAR_HASH_LABEL),
                        row.lp_addr,
                        0,
                        row.lp_comm@ + row.lp_tag@ + row.lp_cap_prev@,
                    ),
                ),
            ),
            enc(
                ch,
                hasher_elems(
                    out_label(RETURN_STATE_LABEL),
                    fe_add(row.lp_addr, last_off),
                    0,
                    next.lp_r0@ + next.lp_r1@ + next.lp_cap_next@,
                ),
            ),
        ),
    )
}

/// The batch of MSTREAM: reads of the word at the address and of the word 4 above it.
#[verifier::opaque]
pub open spec fn spec_mstream_batch(row: MainRowValues, ch: Challenges) -> (QuadFelt, QuadFelt) {
    let w = row.stream_words@;
    batch_remove(
        batch_remove(
            empty_batch(),
            enc(ch, mem_word_elems(MEMORY_READ_WORD_LABEL, row.ctx, row.stream_addr, row.clk, word_at(w, 0))),
        ),
        enc(
            ch,
            mem_word_elems(
                MEMORY_READ_WORD_LABEL,
                row.ctx,
                fe_add(row.stream_addr, 4),
                row.clk,
                word_at(w, 4),
            ),
        ),
    )
}

/// The batch of PIPE: writes of the word at the address and of the word 4 above it.
#[verifier::opaque]
pub open spec fn spec_pipe_batch(row: MainRowValues, ch: Challenges) -> (QuadFelt, QuadFelt) {
    let w = row.stream_words@;
    batch_remove(
        batch_remove(
            empty_batch(),
            enc(ch, mem_word_elems(MEMORY_WRITE_WORD_LABEL, row.ctx, row.stream_addr, row.clk, word_at(w, 0))),
        ),
        enc(
            ch,
            mem_word_elems(
                MEMORY_WRITE_WORD_LABEL,
                row.ctx,
                fe_add(row.stream_addr, 4),
                row.clk,
                word_at(w, 4),
            ),
        ),
    )
}

/// The batch of CRYPTOSTREAM: reads of the two plaintext words at the source and writes of the
/// two ciphertext words at the destination.
#[verifier::opaque]
pub open spec fn spec_crypto_batch(row: MainRowValues, ch: Challenges) -> (QuadFelt, QuadFelt) {
    let p = row.crypto_plain@;
    let c = row.crypto_cipher@;
    batch_remove(
        batch_remove(
            batch_remove(
                batch_remove(
                    empty_batch(),
                    enc(ch, mem_word_elems(MEMORY_READ_WORD_LABEL, row.ctx, row.crypto_src, row.clk, word_at(p, 0))),
                ),
                enc(
                    ch,
                    mem_word_elems(
                        MEMORY_READ_WORD_LABEL,
                        row.ctx,
                        fe_add(row.crypto_src, 4),
                        row.clk,
                        word_at(p, 4),
                    ),
                ),
            ),
            enc(ch, mem_word_elems(MEMORY_WRITE_WORD_LABEL, row.ctx, row.crypto_dst, row.clk, word_at(c, 0))),
        ),
        enc(
            ch,
            mem_word_elems(
                MEMORY_WRITE_WORD_LABEL,
                row.ctx,
                fe_add(row.crypto_dst, 4),
                row.clk,
                word_at(c, 4),
            ),
        ),
    )
}

/// The batch of HORNERBASE: reads of the two base elements of the evaluation point.
#[verifier::opaque]
pub open spec fn spec_hornerbase_batch(row: MainRowValues, ch: Challenges) -> (QuadFelt, QuadFelt) {
    batch_remove(
        batch_remove(
            empty_batch(),
            enc(
                ch,
                mem_element_elems(
                    MEMORY_READ_ELEMENT_LABEL,
                    row.ctx,
                    row.horner_addr,
                    row.clk,
                    row.horner_elems@[0],
                ),
            ),
        ),
        enc(
            ch,
            mem_element_elems(
                MEMORY_READ_ELEMENT_LABEL,
                row.ctx,
                fe_add(row.horner_addr, 1),
                row.clk,
                row.horner_elems@[1],
            ),
        ),
    )
}

/// G_creq, memory streams and Horner evaluation: MSTREAM, PIPE, CRYPTOSTREAM, HORNERBASE and
/// HORNEREXT.
#[verifier::opaque]
pub open spec fn spec_creq_streams(
    acc: (QuadFelt, QuadFelt),
    row: MainRowValues,
    fl: OpFlagValues,
    ch: Challenges,
) -> (QuadFelt, QuadFelt) {
    let a = set_step(acc, fl.mstream, spec_mstream_batch(row, ch));
    let a = set_step(a, fl.pipe, spec_pipe_batch(row, ch));
    let a = set_step(a, fl.cryptostream, spec_crypto_batch(row, ch));
    let a = set_step(a, fl.hornerbase, spec_hornerbase_batch(row, ch));
    gate_remove(
        a,
        fl.hornerext,
        enc(
            ch,
            mem_word_elems(MEMORY_READ_WORD_LABEL, row.ctx, row.horner_addr, row.clk, row.horner_word@),
        ),
    )
}

/// G_creq: all requests of the decoder and stack to the chiplets.
pub open spec fn spec_g_creq(
    row: MainRowValues,
    next: MainRowValues,
    fl: OpFlagValues,
    c: VmConstants,
    ch: Challenges,
) -> (QuadFelt, QuadFelt) {
    spec_creq_streams(
        spec_creq_rest(
            spec_creq_hasher(
                spec_creq_calls(spec_creq_blocks(empty_set(), row, next, fl, c, ch), row, next, fl, c, ch),
                row,
                next,
                fl,
                c,
                ch,
            ),
            row,
            next,
            fl,
            c,
            ch,
        ),
        row,
        fl,
        ch,
    )
}

/// The op group message at `offset` below the group count: `[batch, gc - offset, value]`.
pub open spec fn opgrp_elems(batch: u64, gc: u64, offset: int, value: u64) -> Seq<u64> {
    seq![batch, fmod(gc - offset), value]
}

/// The batch that enqueues groups `1..=k` of a basic block.
pub open spec fn opgrp_batch(
    batch: u64,
    gc: u64,
    h: Seq<u64>,
    ch: Challenges,
    k: nat,
) -> (QuadFelt, QuadFelt)
    decreases k,
{
    if k == 0 {
        empty_batch()
    } else {
        batch_add(
            opgrp_batch(batch, gc, h, ch, (k - 1) as nat),
            enc(ch, opgrp_elems(batch, gc, k as int, h[k as int])),
        )
    }
}

/// The value of the op group that the decoder dequeues: the next row's top of stack for PUSH,
/// else `h0' * 128 + opcode'`.
pub open spec fn group_value(next: MainRowValues, fl: OpFlagValues) -> u64 {
    fe_add(
        fe_mul(fl.push, next.stack@[0]),
        fe_mul(
            fe_sub(1, fl.push),
            fe_add(fe_mul(next.hasher_state@[0], 128), bits_value(next.op_bits@, 7)),
        ),
    )
}

/// G_opgrp: groups enqueued by a basic block of 8, 4 or 2 groups, and dequeued while the
/// decoder is inside the block and the group count drops.
#[verifier::opaque]
pub open spec fn spec_g_opgrp(
    row: MainRowValues,
    next: MainRowValues,
    fl: OpFlagValues,
    ch: Challenges,
) -> (QuadFelt, QuadFelt) {
    let h = row.hasher_state@;
    let gc = row.group_count;
    let batch = next.addr;
    let c0 = row.op_batch_flags@[0];
    let c1 = row.op_batch_flags@[1];
    let c2 = row.op_batch_flags@[2];
    let a = set_step(empty_set(), c0, opgrp_batch(batch, gc, h, ch, 7));
    let a = set_step(a, fe_mul(fe_mul(fe_sub(1, c0), c1), fe_sub(1, c2)), opgrp_batch(batch, gc, h, ch, 3));
    let a = gate_add(
        a,
        fe_mul(fe_mul(fe_sub(1, c0), fe_sub(1, c1)), c2),
        enc(ch, opgrp_elems(batch, gc, 1, h[1])),
    );
    gate_remove(
        a,
        fe_mul(row.in_span, fe_sub(gc, next.group_count)),
        enc(ch, seq![row.addr, gc, group_value(next, fl)]),
    )
}

/// The batch that removes the four helper registers from the range table.
pub open spec fn range_batch(helpers: Seq<u64>, ch: Challenges, k: nat) -> (QuadFelt, QuadFelt)
    decreases k,
{
    if k == 0 {
        empty_batch()
    } else {
        batch_remove(range_batch(helpers, ch, (k - 1) as nat), enc(ch, seq![helpers[k - 1]]))
    }
}

/// G_rstack and G_logcap: the range checks of u32 operations (`op_bit6 * !op_bit5 * !op_bit4`)
/// and the capacity hand-over of LOGPRECOMPILE.
#[verifier::opaque]
pub open spec fn spec_g_rstack_logcap(
    row: MainRowValues,
    next: MainRowValues,
    fl: OpFlagValues,
    ch: Challenges,
) -> (QuadFelt, QuadFelt) {
    let b = row.op_bits@;
    let a = set_step(
        empty_set(),
        fe_mul(fe_mul(b[6], fe_sub(1, b[5])), fe_sub(1, b[4])),
        range_batch(row.user_helpers@, ch, 4),
    );
    set_step(
        a,
        fl.log_precompile,
        batch_add(
            batch_remove(empty_batch(), enc(ch, seq![LOG_PRECOMPILE_LABEL as u64] + row.lp_cap_prev@)),
            enc(ch, seq![LOG_PRECOMPILE_LABEL as u64] + next.lp_cap_next@),
        ),
    )
}

/// The constraints of a column with accumulators `acc`, `acc_next` and fraction `(U, V)`.
pub open spec fn column_constraints(acc: QuadFelt, acc_next: QuadFelt, uv: (QuadFelt, QuadFelt)) -> ColumnConstraints {
    ColumnConstraints {
        first_row: acc,
        transition: crate::field::q_sub(
            crate::field::q_mul(crate::field::q_sub(acc_next, acc), uv.0),
            uv.1,
        ),
        last_row: acc,
    }
}

/// The fraction `(U, V)` of main column `k`.
pub open spec fn spec_main_fraction(
    k: int,
    row: MainRowValues,
    next: MainRowValues,
    fl: OpFlagValues,
    fl_next: OpFlagValues,
    c: VmConstants,
    ch: Challenges,
) -> (QuadFelt, QuadFelt) {
    if k == 0 {
        column_add(spec_g_bstack(row, next, fl, ch), spec_g_rtable(row, ch))
    } else if k == 1 {
        spec_g_bqueue(row, next, fl, fl_next, ch)
    } else if k == 2 {
        spec_g_creq(row, next, fl, c, ch)
    } else if k == 3 {
        spec_g_rstack_logcap(row, next, fl, ch)
    } else {
        spec_g_opgrp(row, next, fl, ch)
    }
}

/// The constraints of main column `k` (M1 to M5).
pub open spec fn spec_main_column(
    k: int,
    row: MainRowValues,
    next: MainRowValues,
    fl: OpFlagValues,
    fl_next: OpFlagValues,
    c: VmConstants,
    ch: Challenges,
) -> ColumnConstraints {
    column_constraints(
        row.bus_acc@[k],
        next.bus_acc@[k],
        spec_main_fraction(k, row, next, fl, fl_next, c, ch),
    )
}

// BUILDERS
// ================================================================================================

/// The hasher request of a control block.
fn control_msg(addr: u64, rate: &[u64; 8], opcode: u8) -> (r: HasherMsg)
    ensures
        r.spec_elements() == control_elems(addr, rate@, opcode),
{
    HasherMsg::control_block(addr, rate, opcode)
}

/// The child hash that SPLIT selects.
fn split_child_word(h: &[u64; 8], s0: u64) -> (r: [u64; 4])
    requires
        all_canonical(h@),
        is_canonical(s0),
    ensures
        r@ == split_child(h@, s0),
{
    let t = fsub(1, s0);
    let r = [
        fadd(fmul(s0, h[0]), fmul(t, h[4])),
        fadd(fmul(s0, h[1]), fmul(t, h[5])),
        fadd(fmul(s0, h[2]), fmul(t, h[6])),
        fadd(fmul(s0, h[3]), fmul(t, h[7])),
    ];
    assert(r@ =~= split_child(h@, s0));
    r
}

/// Builds G_bstack.
fn g_bstack<'c>(
    row: &MainRowValues,
    next: &MainRowValues,
    fl: &OpFlagValues,
    ch: &'c Challenges,
) -> (r: RationalSet<'c>)
    requires
        ch.wf(),
        row.is_canonical(),
        next.is_canonical(),
        fl.is_canonical(),
    ensures
        r.wf(),
        r.spec_challenges() == *ch,
        (r.spec_u(), r.spec_v()) == spec_g_bstack(*row, *next, *fl, *ch),
{
    proof {
        reveal(spec_g_bstack);
    }
    let mut set = RationalSet::new(ch);
    let f = fadd(fadd(fadd(fl.join, fl.split), fl.span), fl.dyn_op);
    set.add_single(f, BlockStackMsg::Simple { block_id: next.addr, parent_id: row.addr, is_loop: 0 });
    set.add_single(
        fl.loop_op,
        BlockStackMsg::Simple { block_id: next.addr, parent_id: row.addr, is_loop: row.stack[0] },
    );
    set.add_single(
        fl.dyncall,
        BlockStackMsg::Full {
            block_id: next.addr,
            parent_id: row.addr,
            is_loop: 0,
            ctx: row.ctx,
            fmp: row.hasher_state[4],
            depth: row.hasher_state[5],
            fn_hash: row.fn_hash,
        },
    );
    let f = fadd(fl.call, fl.syscall);
    set.add_single(
        f,
        BlockStackMsg::Full {
            block_id: next.addr,
            parent_id: row.addr,
            is_loop: 0,
            ctx: row.ctx,
            fmp: row.b0,
            depth: row.b1,
            fn_hash: row.fn_hash,
        },
    );
    let f = fmul(fl.end, fsub(fsub(1, row.is_call), row.is_syscall));
    set.remove_single(
        f,
        BlockStackMsg::Simple { block_id: row.addr, parent_id: next.addr, is_loop: row.is_loop },
    );
    let f = fmul(fl.end, fadd(row.is_call, row.is_syscall));
    set.remove_single(
        f,
        BlockStackMsg::Full {
            block_id: row.addr,
            parent_id: next.addr,
            is_loop: row.is_loop,
            ctx: next.ctx,
            fmp: next.b0,
            depth: next.b1,
            fn_hash: next.fn_hash,
        },
    );
    let mut b = Batch::new(ch);
    b.add(BlockStackMsg::Simple { block_id: next.addr, parent_id: next.hasher_state[1], is_loop: 0 });
    b.remove(BlockStackMsg::Simple { block_id: row.addr, parent_id: next.hasher_state[1], is_loop: 0 });
    set.add_batch(fl.respan, b);
    set
}

/// Builds G_rtable.
fn g_rtable<'c>(row: &MainRowValues, ch: &'c Challenges) -> (r: RationalSet<'c>)
    requires
        ch.wf(),
        row.is_canonical(),
    ensures
        r.wf(),
        r.spec_challenges() == *ch,
        (r.spec_u(), r.spec_v()) == spec_g_rtable(*row, *ch),
{
    proof {
        reveal(spec_g_rtable);
    }
    let mut b = Batch::new(ch);
    b.insert(row.range_m, RangeMsg { value: row.range_v });
    RationalSet::always(ch, b)
}

/// Builds G_bqueue.
fn g_bqueue<'c>(
    row: &MainRowValues,
    next: &MainRowValues,
    fl: &OpFlagValues,
    fl_next: &OpFlagValues,
    ch: &'c Challenges,
) -> (r: RationalSet<'c>)
    requires
        ch.wf(),
        row.is_canonical(),
        next.is_canonical(),
        fl.is_canonical(),
        fl_next.is_canonical(),
    ensures
        r.wf(),
        r.spec_challenges() == *ch,
        (r.spec_u(), r.spec_v()) == spec_g_bqueue(*row, *next, *fl, *fl_next, *ch),
{
    proof {
        reveal(spec_g_bqueue);
    }
    let mut set = RationalSet::new(ch);
    let parent = next.addr;
    let h_first = word8(&row.hasher_state, 0);
    let h_second = word8(&row.hasher_state, 4);
    let mut b = Batch::new(ch);
    b.add(BlockHashMsg::FirstChild { parent, child_hash: h_first });
    b.add(BlockHashMsg::Child { parent, child_hash: h_second });
    set.add_batch(fl.join, b);
    let s0 = row.stack[0];
    let split_h = split_child_word(&row.hasher_state, s0);
    set.add_single(fl.split, BlockHashMsg::Child { parent, child_hash: split_h });
    let f = fadd(fmul(fl.loop_op, s0), fl.repeat);
    set.add_single(f, BlockHashMsg::LoopBody { parent, child_hash: h_first });
    let f = fadd(fadd(fadd(fl.dyn_op, fl.dyncall), fl.call), fl.syscall);
    set.add_single(f, BlockHashMsg::Child { parent, child_hash: h_first });
    let is_first_child = fsub(fsub(fsub(1, fl_next.end), fl_next.repeat), fl_next.halt);
    set.remove_single(
        fl.end,
        BlockHashMsg::End {
            parent,
            child_hash: h_first,
            is_first_child,
            is_loop_body: row.is_loop_body,
        },
    );
    set
}

/// Adds the control-block requests of JOIN, SPLIT, LOOP, SPAN, RESPAN and END to G_creq.
fn creq_blocks<'c>(
    set: &mut RationalSet<'c>,
    row: &MainRowValues,
    next: &MainRowValues,
    fl: &OpFlagValues,
    c: &VmConstants,
    ch: &'c Challenges,
)
    requires
        ch.wf(),
        old(set).wf(),
        old(set).spec_challenges() == *ch,
        row.is_canonical(),
        next.is_canonical(),
        fl.is_canonical(),
        c.is_canonical(),
    ensures
        final(set).wf(),
        final(set).spec_challenges() == *ch,
        (final(set).spec_u(), final(set).spec_v()) == spec_creq_blocks(
            (old(set).spec_u(), old(set).spec_v()),
            *row,
            *next,
            *fl,
            *c,
            *ch,
        ),
{
    proof {
        reveal(spec_creq_blocks);
    }
    let h = &row.hasher_state;
    let an = next.addr;
    let last_off = fsub(c.hash_cycle_len, 1);
    set.remove_single(fl.join, control_msg(an, h, c.op_join));
    set.remove_single(fl.split, control_msg(an, h, c.op_split));
    set.remove_single(fl.loop_op, control_msg(an, h, c.op_loop));
    set.remove_single(fl.span, control_msg(an, h, 0));
    set.remove_single(fl.respan, HasherMsg::absorption(fsub(an, 1), row.hasher_state));
    set.remove_single(fl.end, HasherMsg::return_hash(fadd(row.addr, last_off), word8(h, 0)));
}

/// Builds the batch of CALL.
fn call_batch<'c>(row: &MainRowValues, next: &MainRowValues, c: &VmConstants, ch: &'c Challenges) -> (r: Batch<'c>)
    requires
        ch.wf(),
    ensures
        r.wf(),
        r.spec_challenges() == *ch,
        (r.spec_n(), r.spec_d()) == spec_call_batch(*row, *next, *c, *ch),
{
    proof {
        reveal(spec_call_batch);
    }
    let fmp_hdr = MemoryHeader { ctx: next.ctx, addr: c.fmp_addr, clk: row.clk };
    let mut b = Batch::new(ch);
    b.remove(control_msg(next.addr, &row.hasher_state, c.op_call));
    b.remove(fmp_hdr.write_element(c.fmp_init_value));
    b
}

/// Builds the batch of SYSCALL.
fn syscall_batch<'c>(row: &MainRowValues, next: &MainRowValues, c: &VmConstants, ch: &'c Challenges) -> (r: Batch<'c>)
    requires
        ch.wf(),
    ensures
        r.wf(),
        r.spec_challenges() == *ch,
        (r.spec_n(), r.spec_d()) == spec_syscall_batch(*row, *next, *c, *ch),
{
    proof {
        reveal(spec_syscall_batch);
    }
    let mut b = Batch::new(ch);
    b.remove(control_msg(next.addr, &row.hasher_state, c.op_syscall));
    b.remove(KernelRomMsg { digest: word8(&row.hasher_state, 0) });
    b
}

/// Eight zeros.
fn zeros8() -> (r: [u64; 8])
    ensures
        r@ == zero_rate(),
{
    let zeros: [u64; 8] = [0, 0, 0, 0, 0, 0, 0, 0];
    assert(zeros@ =~= zero_rate());
    zeros
}

/// Builds the batch of DYN.
fn dyn_batch<'c>(row: &MainRowValues, next: &MainRowValues, c: &VmConstants, ch: &'c Challenges) -> (r: Batch<'c>)
    requires
        ch.wf(),
    ensures
        r.wf(),
        r.spec_challenges() == *ch,
        (r.spec_n(), r.spec_d()) == spec_dyn_batch(*row, *next, *c, *ch),
{
    proof {
        reveal(spec_dyn_batch);
    }
    let mem = MemoryHeader { ctx: row.ctx, addr: row.stack[0], clk: row.clk };
    let mut b = Batch::new(ch);
    b.remove(control_msg(next.addr, &zeros8(), c.op_dyn));
    b.remove(mem.read_word(word8(&row.hasher_state, 0)));
    b
}

/// Builds the batch of DYNCALL.
fn dyncall_batch<'c>(row: &MainRowValues, next: &MainRowValues, c: &VmConstants, ch: &'c Challenges) -> (r: Batch<'c>)
    requires
        ch.wf(),
    ensures
        r.wf(),
        r.spec_challenges() == *ch,
        (r.spec_n(), r.spec_d()) == spec_dyncall_batch(*row, *next, *c, *ch),
{
    proof {
        reveal(spec_dyncall_batch);
    }
    let mem = MemoryHeader { ctx: row.ctx, addr: row.stack[0], clk: row.clk };
    let fmp_hdr = MemoryHeader { ctx: next.ctx, addr: c.fmp_addr, clk: row.clk };
    let mut b = Batch::new(ch);
    b.remove(control_msg(next.addr, &zeros8(), c.op_dyncall));
    b.remove(mem.read_word(word8(&row.hasher_state, 0)));
    b.remove(fmp_hdr.write_element(c.fmp_init_value));
    b
}

/// Adds the requests of CALL, SYSCALL, DYN and DYNCALL to G_creq.
fn creq_calls<'c>(
    set: &mut RationalSet<'c>,
    row: &MainRowValues,
    next: &MainRowValues,
    fl: &OpFlagValues,
    c: &VmConstants,
    ch: &'c Challenges,
)
    requires
        ch.wf(),
        old(set).wf(),
        old(set).spec_challenges() == *ch,
        fl.is_canonical(),
    ensures
        final(set).wf(),
        final(set).spec_challenges() == *ch,
        (final(set).spec_u(), final(set).spec_v()) == spec_creq_calls(
            (old(set).spec_u(), old(set).spec_v()),
            *row,
            *next,
            *fl,
            *c,
            *ch,
        ),
{
    proof {
        reveal(spec_creq_calls);
    }
    set.add_batch(fl.call, call_batch(row, next, c, ch));
    set.add_batch(fl.syscall, syscall_batch(row, next, c, ch));
    set.add_batch(fl.dyn_op, dyn_batch(row, next, c, ch));
    set.add_batch(fl.dyncall, dyncall_batch(row, next, c, ch));
}

/// Adds the hasher-operation requests of G_creq.
fn creq_hasher<'c>(
    set: &mut RationalSet<'c>,
    row: &MainRowValues,
    next: &MainRowValues,
    fl: &OpFlagValues,
    c: &VmConstants,
    ch: &'c Challenges,
)
    requires
        ch.wf(),
        old(set).wf(),
        old(set).spec_challenges() == *ch,
        row.is_canonical(),
        next.is_canonical(),
        fl.is_canonical(),
        c.is_canonical(),
    ensures
        final(set).wf(),
        final(set).spec_challenges() == *ch,
        (final(set).spec_u(), final(set).spec_v()) == spec_creq_hasher(
            (old(set).spec_u(), old(set).spec_v()),
            *row,
            *next,
            *fl,
            *c,
            *ch,
        ),
{
    proof {
        reveal(spec_creq_hasher);
    }
    let s = &row.stack;
    let helper0 = row.user_helpers[0];
    let last_off = fsub(c.hash_cycle_len, 1);
    let cl = c.hash_cycle_len;
    let mut b = Batch::new(ch);
    b.remove(HasherMsg::linear_hash_init(helper0, first12(s)));
    b.remove(HasherMsg::return_state(fadd(helper0, last_off), first12(&next.stack)));
    set.add_batch(fl.hperm, b);
    let depth_off = fadd(helper0, fmul(s[4], cl));
    let mut b = Batch::new(ch);
    b.remove(HasherMsg::merkle_verify_init(helper0, s[5], word16(s, 0)));
    b.remove(HasherMsg::return_hash(fsub(depth_off, 1), word16(s, 6)));
    set.add_batch(fl.mpverify, b);
    let mut b = Batch::new(ch);
    b.remove(HasherMsg::merkle_old_init(helper0, s[5], word16(s, 0)));
    b.remove(HasherMsg::return_hash(fsub(depth_off, 1), word16(s, 6)));
    b.remove(HasherMsg::merkle_new_init(depth_off, s[5], word16(s, 10)));
    b.remove(
        HasherMsg::return_hash(
            fsub(fadd(helper0, fmul(s[4], fadd(cl, cl))), 1),
            word16(&next.stack, 0),
        ),
    );
    set.add_batch(fl.mrupdate, b);
}

/// Adds the memory, bitwise, circuit and log-precompile requests of G_creq.
fn creq_rest<'c>(
    set: &mut RationalSet<'c>,
    row: &MainRowValues,
    next: &MainRowValues,
    fl: &OpFlagValues,
    c: &VmConstants,
    ch: &'c Challenges,
)
    requires
        ch.wf(),
        old(set).wf(),
        old(set).spec_challenges() == *ch,
        row.is_canonical(),
        next.is_canonical(),
        fl.is_canonical(),
        c.is_canonical(),
    ensures
        final(set).wf(),
        final(set).spec_challenges() == *ch,
        (final(set).spec_u(), final(set).spec_v()) == spec_creq_rest(
            (old(set).spec_u(), old(set).spec_v()),
            *row,
            *next,
            *fl,
            *c,
            *ch,
        ),
{
    proof {
        reveal(spec_creq_rest);
    }
    let s = &row.stack;
    let sn = &next.stack;
    let last_off = fsub(c.hash_cycle_len, 1);
    let mem = MemoryHeader { ctx: row.ctx, addr: s[0], clk: row.clk };
    set.remove_single(fl.mload, mem.read_element(sn[0]));
    set.remove_single(fl.mstore, mem.write_element(s[1]));
    set.remove_single(fl.mloadw, mem.read_word(word16(sn, 0)));
    set.remove_single(fl.mstorew, mem.write_word(word16(s, 1)));
    set.remove_single(fl.u32and, BitwiseMsg::and(s[0], s[1], sn[0]));
    set.remove_single(fl.u32xor, BitwiseMsg::xor(s[0], s[1], sn[0]));
    set.remove_single(
        fl.evalcircuit,
        AceInitMsg { clk: row.clk, ctx: row.ctx, ptr: s[0], num_read: s[1], num_eval: s[2] },
    );
    let mut b = Batch::new(ch);
    b.remove(
        HasherMsg::linear_hash_init(
            row.lp_addr,
            concat12(&row.lp_comm, &row.lp_tag, &row.lp_cap_prev),
        ),
    );
    b.remove(
        HasherMsg::return_state(
            fadd(row.lp_addr, last_off),
            concat12(&next.lp_r0, &next.lp_r1, &next.lp_cap_next),
        ),
    );
    set.add_batch(fl.log_precompile, b);
}

/// Builds the batch of MSTREAM.
fn mstream_batch<'c>(row: &MainRowValues, ch: &'c Challenges) -> (r: Batch<'c>)
    requires
        ch.wf(),
        row.is_canonical(),
    ensures
        r.wf(),
        r.spec_challenges() == *ch,
        (r.spec_n(), r.spec_d()) == spec_mstream_batch(*row, *ch),
{
    proof {
        reveal(spec_mstream_batch);
    }
    let lo = MemoryHeader { ctx: row.ctx, addr: row.stream_addr, clk: row.clk };
    let hi = MemoryHeader { ctx: row.ctx, addr: fadd(row.stream_addr, 4), clk: row.clk };
    let mut b = Batch::new(ch);
    b.remove(lo.read_word(word8(&row.stream_words, 0)));
    b.remove(hi.read_word(word8(&row.stream_words, 4)));
    b
}

/// Builds the batch of PIPE.
fn pipe_batch<'c>(row: &MainRowValues, ch: &'c Challenges) -> (r: Batch<'c>)
    requires
        ch.wf(),
        row.is_canonical(),
    ensures
        r.wf(),
        r.spec_challenges() == *ch,
        (r.spec_n(), r.spec_d()) == spec_pipe_batch(*row, *ch),
{
    proof {
        reveal(spec_pipe_batch);
    }
    let lo = MemoryHeader { ctx: row.ctx, addr: row.stream_addr, clk: row.clk };
    let hi = MemoryHeader { ctx: row.ctx, addr: fadd(row.stream_addr, 4), clk: row.clk };
    let mut b = Batch::new(ch);
    b.remove(lo.write_word(word8(&row.stream_words, 0)));
    b.remove(hi.write_word(word8(&row.stream_words, 4)));
    b
}

/// Builds the batch of CRYPTOSTREAM.
fn crypto_batch<'c>(row: &MainRowValues, ch: &'c Challenges) -> (r: Batch<'c>)
    requires
        ch.wf(),
        row.is_canonical(),
    ensures
        r.wf(),
        r.spec_challenges() == *ch,
        (r.spec_n(), r.spec_d()) == spec_crypto_batch(*row, *ch),
{
    proof {
        reveal(spec_crypto_batch);
    }
    let src_lo = MemoryHeader { ctx: row.ctx, addr: row.crypto_src, clk: row.clk };
    let src_hi = MemoryHeader { ctx: row.ctx, addr: fadd(row.crypto_src, 4), clk: row.clk };
    let dst_lo = MemoryHeader { ctx: row.ctx, addr: row.crypto_dst, clk: row.clk };
    let dst_hi = MemoryHeader { ctx: row.ctx, addr: fadd(row.crypto_dst, 4), clk: row.clk };
    let mut b = Batch::new(ch);
    b.remove(src_lo.read_word(word8(&row.crypto_plain, 0)));
    b.remove(src_hi.read_word(word8(&row.crypto_plain, 4)));
    b.remove(dst_lo.write_word(word8(&row.crypto_cipher, 0)));
    b.remove(dst_hi.write_word(word8(&row.crypto_cipher, 4)));
    b
}

/// Builds the batch of HORNERBASE.
fn hornerbase_batch<'c>(row: &MainRowValues, ch: &'c Challenges) -> (r: Batch<'c>)
    requires
        ch.wf(),
        row.is_canonical(),
    ensures
        r.wf(),
        r.spec_challenges() == *ch,
        (r.spec_n(), r.spec_d()) == spec_hornerbase_batch(*row, *ch),
{
    proof {
        reveal(spec_hornerbase_batch);
    }
    let lo = MemoryHeader { ctx: row.ctx, addr: row.horner_addr, clk: row.clk };
    let hi = MemoryHeader { ctx: row.ctx, addr: fadd(row.horner_addr, 1), clk: row.clk };
    let mut b = Batch::new(ch);
    b.remove(lo.read_element(row.horner_elems[0]));
    b.remove(hi.read_element(row.horner_elems[1]));
    b
}

/// Adds the requests of MSTREAM, PIPE, CRYPTOSTREAM, HORNERBASE and HORNEREXT to G_creq.
fn creq_streams<'c>(set: &mut RationalSet<'c>, row: &MainRowValues, fl: &OpFlagValues, ch: &'c Challenges)
    requires
        ch.wf(),
        old(set).wf(),
        old(set).spec_challenges() == *ch,
        row.is_canonical(),
        fl.is_canonical(),
    ensures
        final(set).wf(),
        final(set).spec_challenges() == *ch,
        (final(set).spec_u(), final(set).spec_v()) == spec_creq_streams(
            (old(set).spec_u(), old(set).spec_v()),
            *row,
            *fl,
            *ch,
        ),
{
    proof {
        reveal(spec_creq_streams);
    }
    set.add_batch(fl.mstream, mstream_batch(row, ch));
    set.add_batch(fl.pipe, pipe_batch(row, ch));
    set.add_batch(fl.cryptostream, crypto_batch(row, ch));
    set.add_batch(fl.hornerbase, hornerbase_batch(row, ch));
    let header = MemoryHeader { ctx: row.ctx, addr: row.horner_addr, clk: row.clk };
    set.remove_single(fl.hornerext, header.read_word(row.horner_word));
}

/// The batch that enqueues groups `1..=k` of a basic block.
fn opgrp_batch_of<'c>(ch: &'c Challenges, batch: u64, gc: u64, h: &[u64; 8], k: u16) -> (r: Batch<'c>)
    requires
        ch.wf(),
        k <= 7,
        is_canonical(gc),
    ensures
        r.wf(),
        r.spec_challenges() == *ch,
        (r.spec_n(), r.spec_d()) == opgrp_batch(batch, gc, h@, *ch, k as nat),
{
    let mut b = Batch::new(ch);
    let mut i: u16 = 1;
    while i <= k
        invariant
            1 <= i <= k + 1,
            k <= 7,
            ch.wf(),
            is_canonical(gc),
            b.wf(),
            b.spec_challenges() == *ch,
            (b.spec_n(), b.spec_d()) == opgrp_batch(batch, gc, h@, *ch, (i - 1) as nat),
        decreases k + 1 - i,
    {
        b.add(OpGroupMsg::new(&batch, gc, i, h[i as usize]));
        i = i + 1;
    }
    b
}

/// The value of the op group that the decoder dequeues.
fn group_value_of(next: &MainRowValues, fl: &OpFlagValues) -> (r: u64)
    requires
        next.is_canonical(),
        fl.is_canonical(),
    ensures
        r == group_value(*next, *fl),
{
    let bits = &next.op_bits;
    let weights: [u64; 7] = [1, 2, 4, 8, 16, 32, 64];
    proof {
        reveal_with_fuel(pow2_u64, 8);
        assert(forall|j: int| 0 <= j < 7 ==> #[trigger] weights@[j] == pow2_u64(j as nat));
    }
    let mut opcode: u64 = 0;
    let mut i: usize = 0;
    while i < 7
        invariant
            i <= 7,
            all_canonical(bits@),
            bits@ == next.op_bits@,
            forall|j: int| 0 <= j < 7 ==> #[trigger] weights@[j] == pow2_u64(j as nat),
            forall|j: int| 0 <= j < 7 ==> is_canonical(#[trigger] weights@[j]),
            opcode == bits_value(bits@, i as nat),
            is_canonical(opcode),
        decreases 7 - i,
    {
        opcode = fadd(opcode, fmul(bits[i], weights[i]));
        i = i + 1;
    }
    fadd(
        fmul(fl.push, next.stack[0]),
        fmul(fsub(1, fl.push), fadd(fmul(next.hasher_state[0], 128), opcode)),
    )
}

/// Builds G_opgrp.
fn g_opgrp<'c>(
    row: &MainRowValues,
    next: &MainRowValues,
    fl: &OpFlagValues,
    ch: &'c Challenges,
) -> (r: RationalSet<'c>)
    requires
        ch.wf(),
        row.is_canonical(),
        next.is_canonical(),
        fl.is_canonical(),
    ensures
        r.wf(),
        r.spec_challenges() == *ch,
        (r.spec_u(), r.spec_v()) == spec_g_opgrp(*row, *next, *fl, *ch),
{
    proof {
        reveal(spec_g_opgrp);
    }
    let mut set = RationalSet::new(ch);
    let gc = row.group_count;
    let batch = next.addr;
    let c0 = row.op_batch_flags[0];
    let c1 = row.op_batch_flags[1];
    let c2 = row.op_batch_flags[2];
    set.add_batch(c0, opgrp_batch_of(ch, batch, gc, &row.hasher_state, 7));
    let f = fmul(fmul(fsub(1, c0), c1), fsub(1, c2));
    set.add_batch(f, opgrp_batch_of(ch, batch, gc, &row.hasher_state, 3));
    let f = fmul(fmul(fsub(1, c0), fsub(1, c1)), c2);
    set.add_single(f, OpGroupMsg::new(&batch, gc, 1, row.hasher_state[1]));
    let f = fmul(row.in_span, fsub(gc, next.group_count));
    let group_value = group_value_of(next, fl);
    set.remove_single(f, OpGroupMsg { batch_id: row.addr, group_pos: gc, group_value });
    set
}

/// Builds G_rstack and G_logcap.
fn g_rstack_logcap<'c>(
    row: &MainRowValues,
    next: &MainRowValues,
    fl: &OpFlagValues,
    ch: &'c Challenges,
) -> (r: RationalSet<'c>)
    requires
        ch.wf(),
        row.is_canonical(),
        next.is_canonical(),
        fl.is_canonical(),
    ensures
        r.wf(),
        r.spec_challenges() == *ch,
        (r.spec_u(), r.spec_v()) == spec_g_rstack_logcap(*row, *next, *fl, *ch),
{
    proof {
        reveal(spec_g_rstack_logcap);
    }
    let mut set = RationalSet::new(ch);
    let bits = &row.op_bits;
    let f = fmul(fmul(bits[6], fsub(1, bits[5])), fsub(1, bits[4]));
    let helpers = &row.user_helpers;
    let mut b = Batch::new(ch);
    b.remove(RangeMsg { value: helpers[0] });
    b.remove(RangeMsg { value: helpers[1] });
    b.remove(RangeMsg { value: helpers[2] });
    b.remove(RangeMsg { value: helpers[3] });
    proof {
        reveal_with_fuel(range_batch, 5);
    }
    set.add_batch(f, b);
    let mut b = Batch::new(ch);
    b.remove(LogCapacityMsg { capacity: row.lp_cap_prev });
    b.add(LogCapacityMsg { capacity: next.lp_cap_next });
    set.add_batch(fl.log_precompile, b);
    set
}

/// The constraints of the five main-trace bus columns M1 to M5 on one row: M1 holds the block
/// stack table and the range table response, M2 the block hash queue, M3 the chiplet requests,
/// M4 the u32 range checks and the log-precompile capacity, M5 the op group table.
pub fn main_bus_columns(
    row: &MainRowValues,
    next: &MainRowValues,
    flags: &OpFlagValues,
    flags_next: &OpFlagValues,
    consts: &VmConstants,
    ch: &Challenges,
) -> (r: [ColumnConstraints; 5])
    requires
        ch.wf(),
        row.is_canonical(),
        next.is_canonical(),
        flags.is_canonical(),
        flags_next.is_canonical(),
        consts.is_canonical(),
    ensures
        forall|k: int|
            0 <= k < 5 ==> #[trigger] r@[k] == spec_main_column(
                k,
                *row,
                *next,
                *flags,
                *flags_next,
                *consts,
                *ch,
            ),
{
    let mut m1 = Column::from_set(row.bus_acc[0], next.bus_acc[0], g_bstack(row, next, flags, ch));
    m1.add_set(g_rtable(row, ch));
    let c1 = m1.constrain();
    let c2 = Column::from_set(
        row.bus_acc[1],
        next.bus_acc[1],
        g_bqueue(row, next, flags, flags_next, ch),
    ).constrain();
    let mut creq = RationalSet::new(ch);
    creq_blocks(&mut creq, row, next, flags, consts, ch);
    creq_calls(&mut creq, row, next, flags, consts, ch);
    creq_hasher(&mut creq, row, next, flags, consts, ch);
    creq_rest(&mut creq, row, next, flags, consts, ch);
    creq_streams(&mut creq, row, flags, ch);
    let c3 = Column::from_set(row.bus_acc[2], next.bus_acc[2], creq).constrain();
    let c4 = Column::from_set(
        row.bus_acc[3],
        next.bus_acc[3],
        g_rstack_logcap(row, next, flags, ch),
    ).constrain();
    let c5 = Column::from_set(row.bus_acc[4], next.bus_acc[4], g_opgrp(row, next, flags, ch)).constrain();
    let r = [c1, c2, c3, c4, c5];
    assert(r@[0] == spec_main_column(0, *row, *next, *flags, *flags_next, *consts, *ch));
    assert(r@[1] == spec_main_column(1, *row, *next, *flags, *flags_next, *consts, *ch));
    assert(r@[2] == spec_main_column(2, *row, *next, *flags, *flags_next, *consts, *ch));
    assert(r@[3] == spec_main_column(3, *row, *next, *flags, *flags_next, *consts, *ch));
    assert(r@[4] == spec_main_column(4, *row, *next, *flags, *flags_next, *consts, *ch));
    r
}

// LAWS
// ================================================================================================

/// SPLIT's child word is the first half of the rate when `s0 = 1` and the second when `s0 = 0`.
proof fn lemma_split_child_selects(h: Seq<u64>, s0: u64)
    requires
        h.len() == 8,
        all_canonical(h),
        s0 == 0 || s0 == 1,
    ensures
        split_child(h, s0) == (if s0 == 1 {
            h.subrange(0, 4)
        } else {
            h.subrange(4, 8)
        }),
{
    lemma_fe_units(s0);
    lemma_fe_units(fe_sub(1, s0));
    lemma_fe_units(h[0]);
    lemma_fe_units(h[1]);
    lemma_fe_units(h[2]);
    lemma_fe_units(h[3]);
    lemma_fe_units(h[4]);
    lemma_fe_units(h[5]);
    lemma_fe_units(h[6]);
    lemma_fe_units(h[7]);
    if s0 == 1 {
        assert(split_child(h, s0) =~= h.subrange(0, 4));
    } else {
        assert(split_child(h, s0) =~= h.subrange(4, 8));
    }
}

/// On a SPLIT row (no other block hash queue selector active, `s0` boolean), M2 holds exactly one
/// enqueued child under the parent `addr'`: `h[0..4]` when `s0 = 1` (the true branch) and
/// `h[4..8]` when `s0 = 0` (the false branch), so `(U, V) = (v, 1)` for its encoding `v`.
#[verifier::rlimit(40)]
pub proof fn lemma_split_enqueues_the_taken_branch(
    row: MainRowValues,
    next: MainRowValues,
    fl: OpFlagValues,
    fl_next: OpFlagValues,
    c: VmConstants,
    ch: Challenges,
)
    requires
        row.is_canonical(),
        fl.is_canonical(),
        fl.split == 1,
        fl.join == 0,
        fl.loop_op == 0,
        fl.repeat == 0,
        fl.dyn_op == 0,
        fl.dyncall == 0,
        fl.call == 0,
        fl.syscall == 0,
        fl.end == 0,
        row.stack@[0] == 0 || row.stack@[0] == 1,
    ensures
        spec_main_fraction(1, row, next, fl, fl_next, c, ch) == (
            enc(
                ch,
                seq![next.addr] + (if row.stack@[0] == 1 {
                    row.hasher_state@.subrange(0, 4)
                } else {
                    row.hasher_state@.subrange(4, 8)
                }) + seq![0u64, 0u64],
            ),
            QuadFelt::spec_one(),
        ),
{
    reveal(spec_g_bqueue);
    lemma_steps_wf();
    lemma_steps_inactive();
    lemma_steps_active_on_empty();
    let h = row.hasher_state@;
    lemma_split_child_selects(h, row.stack@[0]);
    let empty = empty_set();
    let join_batch = batch_add(
        batch_add(empty_batch(), enc(ch, bhash(next.addr, word_at(h, 0), 1, 0))),
        enc(ch, bhash(next.addr, word_at(h, 4), 0, 0)),
    );
    assert(set_step(empty, fl.join, join_batch) == empty);
    assert(word_at(h, 0) == h.subrange(0, 4));
}

/// On a LOGPRECOMPILE row outside the u32 operations (`op_bit6 = 0`), M4 hands the capacity
/// over: it removes the previous capacity and inserts the next one, so
/// `(U, V) = (v_prev * v_next, v_prev - v_next)` with `v_prev`, `v_next` the encodings of
/// `[LOG_PRECOMPILE_LABEL, ..cap_prev]` and `[LOG_PRECOMPILE_LABEL, ..cap_next']`.
#[verifier::rlimit(40)]
pub proof fn lemma_log_precompile_hands_over_capacity(
    row: MainRowValues,
    next: MainRowValues,
    fl: OpFlagValues,
    fl_next: OpFlagValues,
    c: VmConstants,
    ch: Challenges,
)
    requires
        row.is_canonical(),
        fl.is_canonical(),
        fl.log_precompile == 1,
        row.op_bits@[6] == 0,
    ensures
        ({
            let vp = enc(ch, seq![LOG_PRECOMPILE_LABEL as u64] + row.lp_cap_prev@);
            let vn = enc(ch, seq![LOG_PRECOMPILE_LABEL as u64] + next.lp_cap_next@);
            spec_main_fraction(3, row, next, fl, fl_next, c, ch) == (q_mul(vp, vn), q_sub(vp, vn))
        }),
{
    reveal(spec_g_rstack_logcap);
    lemma_steps_wf();
    lemma_steps_inactive();
    lemma_steps_active_on_empty();
    let b = row.op_bits@;
    assert(is_canonical(b[4]) && is_canonical(b[5]));
    lemma_fe_units(fe_sub(1, b[5]));
    lemma_fe_units(fe_sub(1, b[4]));
    crate::field::lemma_fmod_canonical(1 - b[5]);
    crate::field::lemma_fmod_canonical(1 - b[4]);
    let rb = range_batch(row.user_helpers@, ch, 4);
    assert(rb == batch_remove(range_batch(row.user_helpers@, ch, 3), enc(ch, seq![row.user_helpers@[3]])));
    let vp = enc(ch, seq![LOG_PRECOMPILE_LABEL as u64] + row.lp_cap_prev@);
    let vn = enc(ch, seq![LOG_PRECOMPILE_LABEL as u64] + next.lp_cap_next@);
    lemma_remove_then_add(vp, vn);
    crate::field::lemma_q_wf(vp, vn);
}

/// The encodings of the seven op groups that an 8-group batch enqueues: group `i` (for
/// `i = 1..=7`) is `[batch, gc - i, h[i]]`, at index `i - 1`.
pub open spec fn group_encodings(batch: u64, gc: u64, h: Seq<u64>, ch: Challenges) -> Seq<QuadFelt> {
    Seq::new(7, |j: int| enc(ch, seq![batch, fmod(gc - (j + 1)), h[j + 1]]))
}

/// Seven insert multiplicities.
pub open spec fn seven_ones() -> Seq<QuadFelt> {
    Seq::new(7, |j: int| QuadFelt::spec_from_base(1))
}

/// The batch that enqueues groups `1..=k` adds, in order, `1 / v_i` for the group encodings
/// `v_1, .., v_k`.
proof fn lemma_opgrp_batch_is_fold(batch: u64, gc: u64, h: Seq<u64>, ch: Challenges, k: nat)
    requires
        k <= 7,
    ensures
        opgrp_batch(batch, gc, h, ch, k) == frac_fold(
            seven_ones().take(k as int),
            group_encodings(batch, gc, h, ch).take(k as int),
        ),
    decreases k,
{
    let ms = seven_ones().take(k as int);
    let vs = group_encodings(batch, gc, h, ch).take(k as int);
    if k > 0 {
        lemma_opgrp_batch_is_fold(batch, gc, h, ch, (k - 1) as nat);
        assert(ms.drop_last() =~= seven_ones().take(k - 1));
        assert(vs.drop_last() =~= group_encodings(batch, gc, h, ch).take(k - 1));
        assert(vs.last() == enc(ch, opgrp_elems(batch, gc, k as int, h[k as int])));
    } else {
        assert(vs.len() == 0);
    }
}

/// On the first row of a basic block of 8 op groups (`c = [1, 0, 0]`, not decoding inside a
/// block), M5 enqueues the seven groups `h[1..8]` and nothing else, group `i` at position
/// `gc - i` under the batch id `addr'`: with `v_i` the encoding of `[addr', gc - i, h[i]]`,
/// `U = prod_i v_i` and `V = sum_i prod_{j != i} v_j`.
#[verifier::rlimit(40)]
pub proof fn lemma_eight_group_batch_enqueues_seven_groups(
    row: MainRowValues,
    next: MainRowValues,
    fl: OpFlagValues,
    fl_next: OpFlagValues,
    c: VmConstants,
    ch: Challenges,
)
    requires
        row.is_canonical(),
        row.op_batch_flags@ == seq![1u64, 0u64, 0u64],
        row.in_span == 0,
    ensures
        ({
            let vs = group_encodings(next.addr, row.group_count, row.hasher_state@, ch);
            spec_main_fraction(4, row, next, fl, fl_next, c, ch) == (
                q_prod(vs),
                cross_sum(seven_ones(), vs, 7),
            )
        }),
{
    reveal(spec_g_opgrp);
    lemma_steps_wf();
    lemma_steps_inactive();
    lemma_steps_active_on_empty();
    let h = row.hasher_state@;
    let gc = row.group_count;
    let batch = next.addr;
    let vs = group_encodings(batch, gc, h, ch);
    let ms = seven_ones();
    assert(row.op_batch_flags@[0] == 1 && row.op_batch_flags@[1] == 0 && row.op_batch_flags@[2] == 0);
    lemma_fe_units(0);
    lemma_fe_units(1);
    crate::field::lemma_fmod_canonical(gc - next.group_count);
    lemma_fe_units(fe_sub(gc, next.group_count));
    lemma_opgrp_batch_is_fold(batch, gc, h, ch, 7);
    lemma_opgrp_batch_is_fold(batch, gc, h, ch, 3);
    assert(ms.take(7) =~= ms);
    assert(vs.take(7) =~= vs);
    crate::logup::lemma_from_base_small();
    assert(all_wf(ms));
    assert(all_wf(vs));
    lemma_frac_fold_closed_form(ms, vs);
    let b3 = opgrp_batch(batch, gc, h, ch, 3);
    assert(b3 == batch_add(opgrp_batch(batch, gc, h, ch, 2), enc(ch, opgrp_elems(batch, gc, 3, h[3]))));
    let b7 = opgrp_batch(batch, gc, h, ch, 7);
    assert(b7 == batch_add(opgrp_batch(batch, gc, h, ch, 6), enc(ch, opgrp_elems(batch, gc, 7, h[7]))));
}

/// No control-block request is active: the control-block part of G_creq changes nothing.
proof fn lemma_creq_control_idle(
    acc: (QuadFelt, QuadFelt),
    row: MainRowValues,
    next: MainRowValues,
    fl: OpFlagValues,
    c: VmConstants,
    ch: Challenges,
)
    requires
        acc.0.wf(),
        acc.1.wf(),
        fl.join == 0 && fl.split == 0 && fl.loop_op == 0 && fl.span == 0 && fl.respan == 0,
        fl.end == 0 && fl.call == 0 && fl.syscall == 0 && fl.dyn_op == 0 && fl.dyncall == 0,
    ensures
        spec_creq_calls(spec_creq_blocks(acc, row, next, fl, c, ch), row, next, fl, c, ch) == acc,
{
    reveal(spec_creq_blocks);
    reveal(spec_creq_calls);
    reveal(spec_call_batch);
    reveal(spec_syscall_batch);
    reveal(spec_dyn_batch);
    reveal(spec_dyncall_batch);
    lemma_steps_wf();
    lemma_steps_inactive();
}

/// No memory, bitwise, circuit, log-precompile, stream or Horner request is active: the rest of
/// G_creq changes nothing.
proof fn lemma_creq_rest_idle(
    acc: (QuadFelt, QuadFelt),
    row: MainRowValues,
    next: MainRowValues,
    fl: OpFlagValues,
    c: VmConstants,
    ch: Challenges,
)
    requires
        acc.0.wf(),
        acc.1.wf(),
        fl.mload == 0 && fl.mstore == 0 && fl.mloadw == 0 && fl.mstorew == 0,
        fl.u32and == 0 && fl.u32xor == 0 && fl.evalcircuit == 0 && fl.log_precompile == 0,
        fl.mstream == 0 && fl.pipe == 0 && fl.cryptostream == 0 && fl.hornerbase == 0,
        fl.hornerext == 0,
    ensures
        spec_creq_streams(spec_creq_rest(acc, row, next, fl, c, ch), row, fl, ch) == acc,
{
    reveal(spec_creq_rest);
    reveal(spec_creq_streams);
    reveal(spec_mstream_batch);
    reveal(spec_pipe_batch);
    reveal(spec_crypto_batch);
    reveal(spec_hornerbase_batch);
    lemma_steps_wf();
    lemma_steps_inactive();
}

/// The hasher part of G_creq on an MPVERIFY row.
#[verifier::rlimit(40)]
proof fn lemma_hasher_part_mpverify(
    row: MainRowValues,
    next: MainRowValues,
    fl: OpFlagValues,
    c: VmConstants,
    ch: Challenges,
)
    requires
        fl.mpverify == 1,
        fl.hperm == 0 && fl.mrupdate == 0,
    ensures
        ({
            let s = row.stack@;
            let helper0 = row.user_helpers@[0];
            let v_path = enc(
                ch,
                seq![(MP_VERIFY_LABEL as u16 + HASHER_INPUT_OFFSET) as u64, helper0, s[5]]
                    + s.subrange(0, 4),
            );
            let v_root = enc(
                ch,
                seq![
                    (RETURN_HASH_LABEL as u16 + HASHER_OUTPUT_OFFSET) as u64,
                    fe_sub(fe_add(helper0, fe_mul(s[4], c.hash_cycle_len)), 1),
                    0u64,
                ] + s.subrange(6, 10),
            );
            let b = batch_remove(batch_remove(empty_batch(), v_path), v_root);
            spec_creq_hasher(empty_set(), row, next, fl, c, ch) == (b.1, b.0)
        }),
{
    reveal(spec_creq_hasher);
    lemma_steps_wf();
    lemma_steps_inactive();
    lemma_steps_active_on_empty();
    let s = row.stack@;
    assert(word_at(s, 0) == s.subrange(0, 4));
    assert(word_at(s, 6) == s.subrange(6, 10));
}

/// On an MPVERIFY row (no other chiplet request active), M3 holds exactly the verification's
/// two hasher requests: the start of the path, carrying the node index `s[5]` and the leaf
/// `s[0..4]`, and the return of the root `s[6..10]` at the address that the depth `s[4]` gives,
/// `helper0 + s[4] * cycle_len - 1`.
#[verifier::rlimit(80)]
pub proof fn lemma_mpverify_requests_index_leaf_and_root(
    row: MainRowValues,
    next: MainRowValues,
    fl: OpFlagValues,
    fl_next: OpFlagValues,
    c: VmConstants,
    ch: Challenges,
)
    requires
        fl.mpverify == 1,
        fl.hperm == 0 && fl.mrupdate == 0,
        fl.join == 0 && fl.split == 0 && fl.loop_op == 0 && fl.span == 0 && fl.respan == 0,
        fl.end == 0 && fl.call == 0 && fl.syscall == 0 && fl.dyn_op == 0 && fl.dyncall == 0,
        fl.mload == 0 && fl.mstore == 0 && fl.mloadw == 0 && fl.mstorew == 0,
        fl.u32and == 0 && fl.u32xor == 0 && fl.evalcircuit == 0 && fl.log_precompile == 0,
        fl.mstream == 0 && fl.pipe == 0 && fl.cryptostream == 0 && fl.hornerbase == 0,
        fl.hornerext == 0,
    ensures
        ({
            let s = row.stack@;
            let helper0 = row.user_helpers@[0];
            let v_path = enc(
                ch,
                seq![(MP_VERIFY_LABEL as u16 + HASHER_INPUT_OFFSET) as u64, helper0, s[5]]
                    + s.subrange(0, 4),
            );
            let v_root = enc(
                ch,
                seq![
                    (RETURN_HASH_LABEL as u16 + HASHER_OUTPUT_OFFSET) as u64,
                    fe_sub(fe_add(helper0, fe_mul(s[4], c.hash_cycle_len)), 1),
                    0u64,
                ] + s.subrange(6, 10),
            );
            let b = batch_remove(batch_remove(empty_batch(), v_path), v_root);
            spec_main_fraction(2, row, next, fl, fl_next, c, ch) == (b.1, b.0)
        }),
{
    lemma_creq_from_hasher(row, next, fl, c, ch);
    lemma_hasher_part_mpverify(row, next, fl, c, ch);
}

/// No request of the decoder or the stack to the chiplets is active on the row.
pub open spec fn creq_idle(fl: OpFlagValues) -> bool {
    &&& fl.join == 0 && fl.split == 0 && fl.loop_op == 0 && fl.span == 0 && fl.respan == 0
    &&& fl.end == 0 && fl.call == 0 && fl.syscall == 0 && fl.dyn_op == 0 && fl.dyncall == 0
    &&& fl.hperm == 0 && fl.mpverify == 0 && fl.mrupdate == 0
    &&& fl.mload == 0 && fl.mstore == 0 && fl.mloadw == 0 && fl.mstorew == 0
    &&& fl.u32and == 0 && fl.u32xor == 0 && fl.evalcircuit == 0 && fl.log_precompile == 0
    &&& fl.mstream == 0 && fl.pipe == 0 && fl.cryptostream == 0 && fl.hornerbase == 0
    &&& fl.hornerext == 0
}

/// G_creq with every request but the memory, bitwise and circuit ones idle is the part that
/// holds those requests, started from the empty set.
proof fn lemma_creq_from_rest(
    row: MainRowValues,
    next: MainRowValues,
    fl: OpFlagValues,
    c: VmConstants,
    ch: Challenges,
)
    requires
        fl.join == 0 && fl.split == 0 && fl.loop_op == 0 && fl.span == 0 && fl.respan == 0,
        fl.end == 0 && fl.call == 0 && fl.syscall == 0 && fl.dyn_op == 0 && fl.dyncall == 0,
        fl.hperm == 0 && fl.mpverify == 0 && fl.mrupdate == 0,
        fl.log_precompile == 0,
        fl.mstream == 0 && fl.pipe == 0 && fl.cryptostream == 0 && fl.hornerbase == 0,
        fl.hornerext == 0,
    ensures
        spec_g_creq(row, next, fl, c, ch) == spec_creq_streams(
            spec_creq_rest(empty_set(), row, next, fl, c, ch),
            row,
            fl,
            ch,
        ),
        spec_creq_rest(empty_set(), row, next, fl, c, ch).0.wf(),
        spec_creq_rest(empty_set(), row, next, fl, c, ch).1.wf(),
{
    reveal(spec_creq_hasher);
    reveal(spec_creq_rest);
    lemma_steps_wf();
    lemma_steps_inactive();
    let e = empty_set();
    lemma_creq_control_idle(e, row, next, fl, c, ch);
}

/// The memory-stream and Horner part of G_creq changes nothing when idle.
proof fn lemma_creq_streams_idle(acc: (QuadFelt, QuadFelt), row: MainRowValues, fl: OpFlagValues, ch: Challenges)
    requires
        acc.0.wf(),
        acc.1.wf(),
        fl.mstream == 0 && fl.pipe == 0 && fl.cryptostream == 0 && fl.hornerbase == 0,
        fl.hornerext == 0,
    ensures
        spec_creq_streams(acc, row, fl, ch) == acc,
{
    reveal(spec_creq_streams);
    reveal(spec_mstream_batch);
    reveal(spec_pipe_batch);
    reveal(spec_crypto_batch);
    reveal(spec_hornerbase_batch);
    lemma_steps_wf();
    lemma_steps_inactive();
}

/// The memory, bitwise and circuit part of G_creq when only mload is active.
#[verifier::rlimit(40)]
proof fn lemma_rest_part_mload(row: MainRowValues, next: MainRowValues, fl: OpFlagValues, c: VmConstants, ch: Challenges)
    requires
        fl.mload == 1,
        fl.mstore == 0 && fl.mloadw == 0 && fl.mstorew == 0 && fl.u32and == 0 && fl.u32xor == 0 && fl.evalcircuit == 0 && fl.log_precompile == 0,
    ensures
        spec_creq_rest(empty_set(), row, next, fl, c, ch) == (
            enc(ch, seq![
                (MEMORY_READ_ELEMENT_LABEL as u16) as u64,
                row.ctx,
                row.stack@[0],
                row.clk,
                next.stack@[0],
            ]),
            QuadFelt::spec_from_base(crate::field::neg_one()),
        ),
{
    reveal(spec_creq_rest);
    lemma_steps_wf();
    lemma_steps_inactive();
    lemma_steps_active_on_empty();
}

/// On an MLOAD row (no other chiplet request active), M3 holds exactly one removed request: the
/// read of the element at address `s[0]` in the current context and clock, whose value is the
/// next row's top of stack.
#[verifier::rlimit(40)]
pub proof fn lemma_mload_requests_element_read(
    row: MainRowValues,
    next: MainRowValues,
    fl: OpFlagValues,
    fl_next: OpFlagValues,
    c: VmConstants,
    ch: Challenges,
)
    requires
        fl.mload == 1,
        creq_idle(OpFlagValues { mload: 0, ..fl }),
    ensures
        spec_main_fraction(2, row, next, fl, fl_next, c, ch) == (
            enc(
                ch,
                seq![
                    (MEMORY_READ_ELEMENT_LABEL as u16) as u64,
                    row.ctx,
                    row.stack@[0],
                    row.clk,
                    next.stack@[0],
                ],
            ),
            QuadFelt::spec_from_base(crate::field::neg_one()),
        ),
{
    lemma_creq_from_rest(row, next, fl, c, ch);
    lemma_rest_part_mload(row, next, fl, c, ch);
    lemma_creq_streams_idle(spec_creq_rest(empty_set(), row, next, fl, c, ch), row, fl, ch);
}

/// The memory, bitwise and circuit part of G_creq when only mstorew is active.
#[verifier::rlimit(40)]
proof fn lemma_rest_part_mstorew(row: MainRowValues, next: MainRowValues, fl: OpFlagValues, c: VmConstants, ch: Challenges)
    requires
        fl.mstorew == 1,
        fl.mload == 0 && fl.mstore == 0 && fl.mloadw == 0 && fl.u32and == 0 && fl.u32xor == 0 && fl.evalcircuit == 0 && fl.log_precompile == 0,
    ensures
        spec_creq_rest(empty_set(), row, next, fl, c, ch) == (
            enc(ch, seq![(MEMORY_WRITE_WORD_LABEL as u16) as u64, row.ctx, row.stack@[0], row.clk]
                + row.stack@.subrange(1, 5)),
            QuadFelt::spec_from_base(crate::field::neg_one()),
        ),
{
    reveal(spec_creq_rest);
    lemma_steps_wf();
    lemma_steps_inactive();
    lemma_steps_active_on_empty();
    assert(word_at(row.stack@, 1) == row.stack@.subrange(1, 5));
}

/// On an MSTOREW row (no other chiplet request active), M3 holds exactly one removed request:
/// the write of the word `s[1..5]` at address `s[0]` in the current context and clock.
#[verifier::rlimit(40)]
pub proof fn lemma_mstorew_requests_word_write(
    row: MainRowValues,
    next: MainRowValues,
    fl: OpFlagValues,
    fl_next: OpFlagValues,
    c: VmConstants,
    ch: Challenges,
)
    requires
        fl.mstorew == 1,
        creq_idle(OpFlagValues { mstorew: 0, ..fl }),
    ensures
        spec_main_fraction(2, row, next, fl, fl_next, c, ch) == (
            enc(
                ch,
                seq![(MEMORY_WRITE_WORD_LABEL as u16) as u64, row.ctx, row.stack@[0], row.clk]
                    + row.stack@.subrange(1, 5),
            ),
            QuadFelt::spec_from_base(crate::field::neg_one()),
        ),
{
    lemma_creq_from_rest(row, next, fl, c, ch);
    lemma_rest_part_mstorew(row, next, fl, c, ch);
    lemma_creq_streams_idle(spec_creq_rest(empty_set(), row, next, fl, c, ch), row, fl, ch);
}

/// The memory, bitwise and circuit part of G_creq when only u32and is active.
#[verifier::rlimit(40)]
proof fn lemma_rest_part_u32and(row: MainRowValues, next: MainRowValues, fl: OpFlagValues, c: VmConstants, ch: Challenges)
    requires
        fl.u32and == 1,
        fl.mload == 0 && fl.mstore == 0 && fl.mloadw == 0 && fl.mstorew == 0 && fl.u32xor == 0 && fl.evalcircuit == 0 && fl.log_precompile == 0,
    ensures
        spec_creq_rest(empty_set(), row, next, fl, c, ch) == (
            enc(ch, seq![2u64, row.stack@[0], row.stack@[1], next.stack@[0]]),
            QuadFelt::spec_from_base(crate::field::neg_one()),
        ),
{
    reveal(spec_creq_rest);
    lemma_steps_wf();
    lemma_steps_inactive();
    lemma_steps_active_on_empty();
}

/// On a U32AND row (no other chiplet request active), M3 holds exactly one removed request: the
/// bitwise AND of `s[0]` and `s[1]` with result the next row's top of stack, under label 2.
#[verifier::rlimit(40)]
pub proof fn lemma_u32and_requests_bitwise_and(
    row: MainRowValues,
    next: MainRowValues,
    fl: OpFlagValues,
    fl_next: OpFlagValues,
    c: VmConstants,
    ch: Challenges,
)
    requires
        fl.u32and == 1,
        creq_idle(OpFlagValues { u32and: 0, ..fl }),
    ensures
        spec_main_fraction(2, row, next, fl, fl_next, c, ch) == (
            enc(ch, seq![2u64, row.stack@[0], row.stack@[1], next.stack@[0]]),
            QuadFelt::spec_from_base(crate::field::neg_one()),
        ),
{
    lemma_creq_from_rest(row, next, fl, c, ch);
    lemma_rest_part_u32and(row, next, fl, c, ch);
    lemma_creq_streams_idle(spec_creq_rest(empty_set(), row, next, fl, c, ch), row, fl, ch);
}

/// G_creq with only hasher-operation requests possibly active is the hasher part started from
/// the empty set.
proof fn lemma_creq_from_hasher(
    row: MainRowValues,
    next: MainRowValues,
    fl: OpFlagValues,
    c: VmConstants,
    ch: Challenges,
)
    requires
        fl.join == 0 && fl.split == 0 && fl.loop_op == 0 && fl.span == 0 && fl.respan == 0,
        fl.end == 0 && fl.call == 0 && fl.syscall == 0 && fl.dyn_op == 0 && fl.dyncall == 0,
        fl.mload == 0 && fl.mstore == 0 && fl.mloadw == 0 && fl.mstorew == 0,
        fl.u32and == 0 && fl.u32xor == 0 && fl.evalcircuit == 0 && fl.log_precompile == 0,
        fl.mstream == 0 && fl.pipe == 0 && fl.cryptostream == 0 && fl.hornerbase == 0,
        fl.hornerext == 0,
    ensures
        spec_g_creq(row, next, fl, c, ch) == spec_creq_hasher(empty_set(), row, next, fl, c, ch),
{
    reveal(spec_creq_hasher);
    lemma_steps_wf();
    lemma_steps_inactive();
    let e = empty_set();
    lemma_creq_control_idle(e, row, next, fl, c, ch);
    let a = spec_creq_hasher(e, row, next, fl, c, ch);
    lemma_creq_rest_idle(a, row, next, fl, c, ch);
}

/// The hasher part of G_creq on an HPERM row.
#[verifier::rlimit(40)]
proof fn lemma_hasher_part_hperm(
    row: MainRowValues,
    next: MainRowValues,
    fl: OpFlagValues,
    c: VmConstants,
    ch: Challenges,
)
    requires
        fl.hperm == 1,
        fl.mpverify == 0 && fl.mrupdate == 0,
    ensures
        ({
            let helper0 = row.user_helpers@[0];
            let v_in = enc(
                ch,
                seq![(LINEAR_HASH_LABEL as u16 + HASHER_INPUT_OFFSET) as u64, helper0, 0u64]
                    + row.stack@.subrange(0, 12),
            );
            let v_out = enc(
                ch,
                seq![
                    (RETURN_STATE_LABEL as u16 + HASHER_OUTPUT_OFFSET) as u64,
                    fe_add(helper0, fe_sub(c.hash_cycle_len, 1)),
                    0u64,
                ] + next.stack@.subrange(0, 12),
            );
            let b = batch_remove(batch_remove(empty_batch(), v_in), v_out);
            spec_creq_hasher(empty_set(), row, next, fl, c, ch) == (b.1, b.0)
        }),
{
    reveal(spec_creq_hasher);
    lemma_steps_wf();
    lemma_steps_inactive();
    lemma_steps_active_on_empty();
}

/// On an HPERM row (no other chiplet request active), M3 holds the permutation's two hasher
/// requests: the linear-hash start over the stack state `s[0..12]` at address `helper0`, and
/// the state return of the next row's `s'[0..12]` at `helper0 + cycle_len - 1`.
#[verifier::rlimit(80)]
pub proof fn lemma_hperm_requests_state_in_and_out(
    row: MainRowValues,
    next: MainRowValues,
    fl: OpFlagValues,
    fl_next: OpFlagValues,
    c: VmConstants,
    ch: Challenges,
)
    requires
        fl.hperm == 1,
        creq_idle(OpFlagValues { hperm: 0, ..fl }),
    ensures
        ({
            let helper0 = row.user_helpers@[0];
            let v_in = enc(
                ch,
                seq![(LINEAR_HASH_LABEL as u16 + HASHER_INPUT_OFFSET) as u64, helper0, 0u64]
                    + row.stack@.subrange(0, 12),
            );
            let v_out = enc(
                ch,
                seq![
                    (RETURN_STATE_LABEL as u16 + HASHER_OUTPUT_OFFSET) as u64,
                    fe_add(helper0, fe_sub(c.hash_cycle_len, 1)),
                    0u64,
                ] + next.stack@.subrange(0, 12),
            );
            let b = batch_remove(batch_remove(empty_batch(), v_in), v_out);
            spec_main_fraction(2, row, next, fl, fl_next, c, ch) == (b.1, b.0)
        }),
{
    lemma_creq_from_hasher(row, next, fl, c, ch);
    lemma_hasher_part_hperm(row, next, fl, c, ch);
}

/// The hasher part of G_creq on an MRUPDATE row.
#[verifier::rlimit(60)]
proof fn lemma_hasher_part_mrupdate(
    row: MainRowValues,
    next: MainRowValues,
    fl: OpFlagValues,
    c: VmConstants,
    ch: Challenges,
)
    requires
        fl.mrupdate == 1,
        fl.hperm == 0 && fl.mpverify == 0,
    ensures
        ({
            let s = row.stack@;
            let helper0 = row.user_helpers@[0];
            let cl = c.hash_cycle_len;
            let new_start = fe_add(helper0, fe_mul(s[4], cl));
            let v_old = enc(
                ch,
                seq![(MR_UPDATE_OLD_LABEL as u16 + HASHER_INPUT_OFFSET) as u64, helper0, s[5]]
                    + s.subrange(0, 4),
            );
            let v_old_root = enc(
                ch,
                seq![(RETURN_HASH_LABEL as u16 + HASHER_OUTPUT_OFFSET) as u64, fe_sub(new_start, 1), 0u64]
                    + s.subrange(6, 10),
            );
            let v_new = enc(
                ch,
                seq![(MR_UPDATE_NEW_LABEL as u16 + HASHER_INPUT_OFFSET) as u64, new_start, s[5]]
                    + s.subrange(10, 14),
            );
            let v_new_root = enc(
                ch,
                seq![
                    (RETURN_HASH_LABEL as u16 + HASHER_OUTPUT_OFFSET) as u64,
                    fe_sub(fe_add(helper0, fe_mul(s[4], fe_add(cl, cl))), 1),
                    0u64,
                ] + next.stack@.subrange(0, 4),
            );
            let b = batch_remove(
                batch_remove(batch_remove(batch_remove(empty_batch(), v_old), v_old_root), v_new),
                v_new_root,
            );
            spec_creq_hasher(empty_set(), row, next, fl, c, ch) == (b.1, b.0)
        }),
{
    reveal(spec_creq_hasher);
    lemma_steps_wf();
    lemma_steps_inactive();
    lemma_steps_active_on_empty();
}

/// On an MRUPDATE row (no other chiplet request active), M3 holds the update's four hasher
/// requests: the old path's start (node index `s[5]`, old leaf `s[0..4]`) and root return
/// (`s[6..10]` at `helper0 + s[4] * cycle_len - 1`), then the new path's start (new leaf
/// `s[10..14]` at `helper0 + s[4] * cycle_len`) and root return (the next row's `s'[0..4]` at
/// `helper0 + 2 * s[4] * cycle_len - 1`).
#[verifier::rlimit(80)]
pub proof fn lemma_mrupdate_requests_both_paths(
    row: MainRowValues,
    next: MainRowValues,
    fl: OpFlagValues,
    fl_next: OpFlagValues,
    c: VmConstants,
    ch: Challenges,
)
    requires
        fl.mrupdate == 1,
        creq_idle(OpFlagValues { mrupdate: 0, ..fl }),
    ensures
        ({
            let s = row.stack@;
            let helper0 = row.user_helpers@[0];
            let cl = c.hash_cycle_len;
            let new_start = fe_add(helper0, fe_mul(s[4], cl));
            let v_old = enc(
                ch,
                seq![(MR_UPDATE_OLD_LABEL as u16 + HASHER_INPUT_OFFSET) as u64, helper0, s[5]]
                    + s.subrange(0, 4),
            );
            let v_old_root = enc(
                ch,
                seq![(RETURN_HASH_LABEL as u16 + HASHER_OUTPUT_OFFSET) as u64, fe_sub(new_start, 1), 0u64]
                    + s.subrange(6, 10),
            );
            let v_new = enc(
                ch,
                seq![(MR_UPDATE_NEW_LABEL as u16 + HASHER_INPUT_OFFSET) as u64, new_start, s[5]]
                    + s.subrange(10, 14),
            );
            let v_new_root = enc(
                ch,
                seq![
                    (RETURN_HASH_LABEL as u16 + HASHER_OUTPUT_OFFSET) as u64,
                    fe_sub(fe_add(helper0, fe_mul(s[4], fe_add(cl, cl))), 1),
                    0u64,
                ] + next.stack@.subrange(0, 4),
            );
            let b = batch_remove(
                batch_remove(batch_remove(batch_remove(empty_batch(), v_old), v_old_root), v_new),
                v_new_root,
            );
            spec_main_fraction(2, row, next, fl, fl_next, c, ch) == (b.1, b.0)
        }),
{
    lemma_creq_from_hasher(row, next, fl, c, ch);
    lemma_hasher_part_mrupdate(row, next, fl, c, ch);
}

/// On a JOIN row (no other block hash queue selector active), M2 enqueues both children under
/// the parent `addr'` as one batch: the first child `h[0..4]` (marked as first) and the second
/// child `h[4..8]`.
#[verifier::rlimit(40)]
pub proof fn lemma_join_enqueues_both_children(
    row: MainRowValues,
    next: MainRowValues,
    fl: OpFlagValues,
    fl_next: OpFlagValues,
    c: VmConstants,
    ch: Challenges,
)
    requires
        fl.join == 1,
        fl.split == 0 && fl.loop_op == 0 && fl.repeat == 0 && fl.dyn_op == 0,
        fl.dyncall == 0 && fl.call == 0 && fl.syscall == 0 && fl.end == 0,
    ensures
        ({
            let h = row.hasher_state@;
            let b = batch_add(
                batch_add(
                    empty_batch(),
                    enc(ch, seq![next.addr] + h.subrange(0, 4) + seq![1u64, 0u64]),
                ),
                enc(ch, seq![next.addr] + h.subrange(4, 8) + seq![0u64, 0u64]),
            );
            spec_main_fraction(1, row, next, fl, fl_next, c, ch) == (b.1, b.0)
        }),
{
    reveal(spec_g_bqueue);
    lemma_steps_wf();
    lemma_steps_inactive();
    lemma_steps_active_on_empty();
    let h = row.hasher_state@;
    assert(word_at(h, 0) == h.subrange(0, 4));
    assert(word_at(h, 4) == h.subrange(4, 8));
}

/// On a u32 arithmetic row (`op_bit6 = 1`, `op_bit5 = op_bit4 = 0`) without LOGPRECOMPILE, M4
/// removes the four helper registers from the range table, as one batch.
#[verifier::rlimit(40)]
pub proof fn lemma_u32_row_range_checks_helpers(
    row: MainRowValues,
    next: MainRowValues,
    fl: OpFlagValues,
    fl_next: OpFlagValues,
    c: VmConstants,
    ch: Challenges,
)
    requires
        row.op_bits@[6] == 1 && row.op_bits@[5] == 0 && row.op_bits@[4] == 0,
        fl.log_precompile == 0,
    ensures
        ({
            let hp = row.user_helpers@;
            let b = batch_remove(
                batch_remove(
                    batch_remove(batch_remove(empty_batch(), enc(ch, seq![hp[0]])), enc(ch, seq![hp[1]])),
                    enc(ch, seq![hp[2]]),
                ),
                enc(ch, seq![hp[3]]),
            );
            spec_main_fraction(3, row, next, fl, fl_next, c, ch) == (b.1, b.0)
        }),
{
    reveal(spec_g_rstack_logcap);
    reveal_with_fuel(range_batch, 5);
    lemma_steps_wf();
    lemma_steps_inactive();
    lemma_steps_active_on_empty();
    lemma_fe_units(0);
    lemma_fe_units(1);
}

} // verus!
