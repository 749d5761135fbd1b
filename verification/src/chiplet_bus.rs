//! The LogUp bus columns of the chiplet trace (C1 to C3).
//!
//! - C1: the responses of the chiplets (hasher, bitwise, memory, ACE init, kernel ROM).
//! - C2: the hash-kernel virtual table: the Merkle sibling table and the ACE memory reads.
//! - C3: the ACE wiring bus.

use vstd::prelude::*;
use crate::bus::{
    MemoryColumns, compute_memory_response_msg, leaf_word, spec_leaf_word, spec_memory_element,
    spec_memory_label,
};
use crate::bus_values::{
    lemma_fe_units, lemma_steps_active_on_empty, lemma_steps_inactive, lemma_steps_wf,
    all_canonical, batch_insert, batch_remove, empty_batch, empty_set, enc, fadd, fe_add, fe_mul,
    fe_sub, fmul, fsub, gate_add, gate_remove, hasher_elems, mem_element_elems, mem_word_elems,
    word_at,
};
use crate::challenges::Challenges;
use crate::field::{QuadFelt, fmod, is_canonical, q_add, q_mul, q_sub};
use crate::logup::{Batch, Column, ColumnConstraints, RationalSet, set_step};
use crate::logup_msg::{
    AceInitMsg, HasherMsg, LogUpMessage, MemoryHeader, ACE_INIT_LABEL, BITWISE_AND_LABEL, BITWISE_XOR_LABEL,
    HASHER_INPUT_OFFSET, HASHER_OUTPUT_OFFSET, KERNEL_PROC_CALL_LABEL, LINEAR_HASH_LABEL, MEMORY_READ_ELEMENT_LABEL, MEMORY_READ_WORD_LABEL,
    MP_VERIFY_LABEL, MR_UPDATE_NEW_LABEL, MR_UPDATE_OLD_LABEL, RETURN_HASH_LABEL,
    RETURN_STATE_LABEL,
};
use crate::main_bus::{column_constraints, in_label, out_label};

verus! {

// MESSAGES
// ================================================================================================

/// Bitwise chiplet response: `[label, a, b, z]`.
#[derive(Debug, Clone, Copy)]
pub struct BitwiseResponseMsg {
    pub label: u64,
    pub a: u64,
    pub b: u64,
    pub z: u64,
}

impl LogUpMessage for BitwiseResponseMsg {
    open spec fn spec_elements(&self) -> Seq<u64> {
        seq![self.label, self.a, self.b, self.z]
    }

    fn elements(&self) -> (r: Vec<u64>) {
        let r = vec![self.label, self.a, self.b, self.z];
        assert(r@ =~= self.spec_elements());
        r
    }
}

/// Kernel ROM response: `[label, digest[4]]`.
#[derive(Debug, Clone, Copy)]
pub struct KernelRomResponseMsg {
    pub label: u64,
    pub digest: [u64; 4],
}

impl LogUpMessage for KernelRomResponseMsg {
    open spec fn spec_elements(&self) -> Seq<u64> {
        seq![self.label] + self.digest@
    }

    fn elements(&self) -> (r: Vec<u64>) {
        let r = vec![self.label, self.digest[0], self.digest[1], self.digest[2], self.digest[3]];
        assert(r@ =~= self.spec_elements());
        r
    }
}

/// ACE wire: `[clk, ctx, id, v0, v1]`, a node of the circuit and its extension-field value.
#[derive(Debug, Clone, Copy)]
pub struct AceWireMsg {
    pub clk: u64,
    pub ctx: u64,
    pub id: u64,
    pub v0: u64,
    pub v1: u64,
}

impl LogUpMessage for AceWireMsg {
    open spec fn spec_elements(&self) -> Seq<u64> {
        seq![self.clk, self.ctx, self.id, self.v0, self.v1]
    }

    fn elements(&self) -> (r: Vec<u64>) {
        let r = vec![self.clk, self.ctx, self.id, self.v0, self.v1];
        assert(r@ =~= self.spec_elements());
        r
    }
}

/// The sibling of a Merkle path step: `h_hi[i]` when `bit = 0`, `h_lo[i]` when `bit = 1`,
/// written `(1 - bit) * h_hi[i] + bit * h_lo[i]`.
pub open spec fn sibling_word(h_lo: Seq<u64>, h_hi: Seq<u64>, bit: u64) -> Seq<u64> {
    seq![
        fe_add(fe_mul(fe_sub(1, bit), h_hi[0]), fe_mul(bit, h_lo[0])),
        fe_add(fe_mul(fe_sub(1, bit), h_hi[1]), fe_mul(bit, h_lo[1])),
        fe_add(fe_mul(fe_sub(1, bit), h_hi[2]), fe_mul(bit, h_lo[2])),
        fe_add(fe_mul(fe_sub(1, bit), h_hi[3]), fe_mul(bit, h_lo[3])),
    ]
}

/// Merkle sibling table entry: `[node_index, ..sibling]`. Its encoding is
/// `(1 - bit) * enc([node_index, ..h_hi]) + bit * enc([node_index, ..h_lo])`, which by
/// linearity is the encoding of the selected sibling word.
#[derive(Debug, Clone, Copy)]
pub struct SiblingMsg {
    pub node_index: u64,
    pub sibling: [u64; 4],
}

impl SiblingMsg {
    /// The entry of the sibling selected by `bit` from the two rate words.
    pub fn select(node_index: u64, bit: u64, h_lo: &[u64; 4], h_hi: &[u64; 4]) -> (r: SiblingMsg)
        requires
            is_canonical(bit),
            all_canonical(h_lo@),
            all_canonical(h_hi@),
        ensures
            r.node_index == node_index,
            r.sibling@ == sibling_word(h_lo@, h_hi@, bit),
    {
        let nb = fsub(1, bit);
        let sibling = [
            fadd(fmul(nb, h_hi[0]), fmul(bit, h_lo[0])),
            fadd(fmul(nb, h_hi[1]), fmul(bit, h_lo[1])),
            fadd(fmul(nb, h_hi[2]), fmul(bit, h_lo[2])),
            fadd(fmul(nb, h_hi[3]), fmul(bit, h_lo[3])),
        ];
        assert(sibling@ =~= sibling_word(h_lo@, h_hi@, bit));
        SiblingMsg { node_index, sibling }
    }
}

impl LogUpMessage for SiblingMsg {
    open spec fn spec_elements(&self) -> Seq<u64> {
        seq![self.node_index] + self.sibling@
    }

    fn elements(&self) -> (r: Vec<u64>) {
        let r = vec![
            self.node_index,
            self.sibling[0],
            self.sibling[1],
            self.sibling[2],
            self.sibling[3],
        ];
        assert(r@ =~= self.spec_elements());
        r
    }
}

// INPUTS
// ================================================================================================

/// The ACE chiplet columns that the buses read.
#[derive(Debug, Clone, Copy)]
pub struct AceColumns {
    /// Set on the first row of a circuit evaluation.
    pub selector_start: u64,
    /// 0 on READ rows, 1 on EVAL rows.
    pub selector_block: u64,
    pub clk: u64,
    pub ctx: u64,
    pub ptr: u64,
    pub eval_op: u64,
    pub read_num_eval: u64,
    /// The ids of the three wires of the row.
    pub id: [u64; 3],
    /// The two coefficients of each wire's value.
    pub v0: [u64; 3],
    pub v1: [u64; 3],
    /// Fan-out multiplicities of wires 0 and 1.
    pub m0: u64,
    pub m1: u64,
}

/// The values of one chiplet-trace row that the bus columns read.
#[derive(Debug, Clone, Copy)]
pub struct ChipletRowValues {
    /// System clock; the hasher row address is `clk + 1`.
    pub clk: u64,
    /// The chiplet selectors `s0..s4`.
    pub selectors: [u64; 5],
    /// The twelve hasher state lanes and the Merkle node index.
    pub hasher_state: [u64; 12],
    pub node_index: u64,
    /// The bitwise chiplet: AND/XOR selector, operands, result, and the periodic column that is 1
    /// except on the last row of a cycle.
    pub bitwise_sel: u64,
    pub bitwise_a: u64,
    pub bitwise_b: u64,
    pub bitwise_z: u64,
    pub k_transition: u64,
    /// The memory chiplet.
    pub memory: MemoryColumns,
    /// The ACE chiplet.
    pub ace: AceColumns,
    /// The kernel ROM: first-row flag and procedure root.
    pub kernel_first: u64,
    pub kernel_root: [u64; 4],
    /// The three chiplet bus accumulators `C1..C3` on this row.
    pub bus_acc: [QuadFelt; 3],
}

impl ChipletRowValues {
    /// Every value is a canonical field element.
    pub open spec fn is_canonical(&self) -> bool {
        &&& is_canonical(self.clk)
        &&& all_canonical(self.selectors@)
        &&& all_canonical(self.hasher_state@)
        &&& is_canonical(self.node_index)
        &&& is_canonical(self.bitwise_sel)
        &&& is_canonical(self.bitwise_a)
        &&& is_canonical(self.bitwise_b)
        &&& is_canonical(self.bitwise_z)
        &&& is_canonical(self.k_transition)
        &&& self.memory.is_canonical()
        &&& is_canonical(self.ace.selector_start)
        &&& is_canonical(self.ace.selector_block)
        &&& is_canonical(self.ace.clk)
        &&& is_canonical(self.ace.ctx)
        &&& is_canonical(self.ace.ptr)
        &&& is_canonical(self.ace.eval_op)
        &&& is_canonical(self.ace.read_num_eval)
        &&& all_canonical(self.ace.id@)
        &&& all_canonical(self.ace.v0@)
        &&& all_canonical(self.ace.v1@)
        &&& is_canonical(self.ace.m0)
        &&& is_canonical(self.ace.m1)
        &&& is_canonical(self.kernel_first)
        &&& all_canonical(self.kernel_root@)
        &&& forall|k: int| 0 <= k < 3 ==> (#[trigger] self.bus_acc@[k]).wf()
    }
}

/// The values of the hasher chiplet's response flags on one row (each without the
/// `is_hasher` factor): linear hash init, Merkle verify, old and new Merkle update paths at the
/// start of a cycle; digest return, state return and absorption at its end; and the sibling
/// flags of the Merkle update paths at the end of a cycle.
#[derive(Debug, Clone, Copy)]
pub struct HasherFlagValues {
    pub f_bp: u64,
    pub f_mp: u64,
    pub f_mv: u64,
    pub f_mu: u64,
    pub f_hout: u64,
    pub f_sout: u64,
    pub f_abp: u64,
    pub f_mva: u64,
    pub f_mua: u64,
}

impl HasherFlagValues {
    /// Every flag is a canonical field element.
    pub open spec fn is_canonical(&self) -> bool {
        &&& is_canonical(self.f_bp) && is_canonical(self.f_mp) && is_canonical(self.f_mv)
        &&& is_canonical(self.f_mu) && is_canonical(self.f_hout) && is_canonical(self.f_sout)
        &&& is_canonical(self.f_abp) && is_canonical(self.f_mva) && is_canonical(self.f_mua)
    }
}

/// Constants of the chiplets that the responses carry: the kernel ROM label of a procedure
/// init, and the offsets that pack an ACE instruction into one element.
#[derive(Debug, Clone, Copy)]
pub struct ChipletConstants {
    pub kernel_proc_init_label: u64,
    pub ace_id1_offset: u64,
    pub ace_id2_offset: u64,
}

impl ChipletConstants {
    /// The constants are canonical.
    pub open spec fn is_canonical(&self) -> bool {
        is_canonical(self.kernel_proc_init_label) && is_canonical(self.ace_id1_offset)
            && is_canonical(self.ace_id2_offset)
    }
}

// SELECTORS
// ================================================================================================

/// `1 - s0`: the row belongs to the hasher.
pub open spec fn is_hasher(row: ChipletRowValues) -> u64 {
    fe_sub(1, row.selectors@[0])
}

/// `s0 * s1 * s2 * (1 - s3)`: the row belongs to the ACE chiplet.
pub open spec fn is_ace_row(row: ChipletRowValues) -> u64 {
    let s = row.selectors@;
    fe_mul(fe_mul(fe_mul(s[0], s[1]), s[2]), fe_sub(1, s[3]))
}

/// `node_index - 2 * node_index'`: which half of the rate the path goes through.
pub open spec fn path_bit(row: ChipletRowValues, next: ChipletRowValues) -> u64 {
    fe_sub(row.node_index, fe_add(next.node_index, next.node_index))
}

/// The leaf word selected by `bit`: `(1 - bit) * h[i] + bit * h[i + 4]`.
pub open spec fn leaf_seq(h: Seq<u64>, bit: u64) -> Seq<u64> {
    seq![
        spec_leaf_word(h, bit, 0),
        spec_leaf_word(h, bit, 1),
        spec_leaf_word(h, bit, 2),
        spec_leaf_word(h, bit, 3),
    ]
}

// THE SETS OF THE CHIPLET TRACE
// ================================================================================================

/// C1, hasher responses: the seven hasher flags, each with its message.
#[verifier::opaque]
pub open spec fn spec_resp_hasher(
    row: ChipletRowValues,
    next: ChipletRowValues,
    hf: HasherFlagValues,
    ch: Challenges,
) -> (QuadFelt, QuadFelt) {
    let h = row.hasher_state@;
    let ih = is_hasher(row);
    let addr = fe_add(row.clk, 1);
    let ni = row.node_index;
    let leaf = leaf_seq(h, path_bit(row, next));
    let a = gate_add(
        empty_set(),
        fe_mul(ih, hf.f_bp),
        enc(ch, hasher_elems(in_label(LINEAR_HASH_LABEL), addr, ni, h)),
    );
    let a = gate_add(
        a,
        fe_mul(ih, hf.f_mp),
        enc(ch, hasher_elems(in_label(MP_VERIFY_LABEL), addr, ni, leaf)),
    );
    let a = gate_add(
        a,
        fe_mul(ih, hf.f_mv),
        enc(ch, hasher_elems(in_label(MR_UPDATE_OLD_LABEL), addr, ni, leaf)),
    );
    let a = gate_add(
        a,
        fe_mul(ih, hf.f_mu),
        enc(ch, hasher_elems(in_label(MR_UPDATE_NEW_LABEL), addr, ni, leaf)),
    );
    let a = gate_add(
        a,
        fe_mul(ih, hf.f_hout),
        enc(ch, hasher_elems(out_label(RETURN_HASH_LABEL), addr, ni, word_at(h, 0))),
    );
    let a = gate_add(
        a,
        fe_mul(ih, hf.f_sout),
        enc(ch, hasher_elems(out_label(RETURN_STATE_LABEL), addr, ni, h)),
    );
    gate_add(
        a,
        fe_mul(ih, hf.f_abp),
        enc(
            ch,
            hasher_elems(out_label(LINEAR_HASH_LABEL), addr, ni, next.hasher_state@.subrange(0, 8)),
        ),
    )
}

/// The response of the memory chiplet, as the elements of the request it answers.
pub open spec fn mem_response_elems(m: MemoryColumns) -> Seq<u64> {
    let header = seq![
        spec_memory_label(m.is_read, m.is_word),
        m.ctx,
        fmod(m.word + 2 * m.idx1 + m.idx0),
        m.clk,
    ];
    if m.is_word == 1 {
        header + m.values@
    } else {
        header.push(spec_memory_element(m.values@, m.idx0, m.idx1))
    }
}

/// The memory chiplet's response to a word access is the request it answers: a read (or a
/// write) of the values at address `word` in context `ctx` at clock `clk`.
pub proof fn lemma_memory_response_answers_word_request(m: MemoryColumns)
    requires
        m.is_canonical(),
        m.is_word == 1,
        m.is_read == 0 || m.is_read == 1,
        m.idx0 == 0,
        m.idx1 == 0,
    ensures
        mem_response_elems(m) == mem_word_elems(
            if m.is_read == 1 {
                MEMORY_READ_WORD_LABEL
            } else {
                crate::logup_msg::MEMORY_WRITE_WORD_LABEL
            },
            m.ctx,
            m.word,
            m.clk,
            m.values@,
        ),
{
    crate::field::lemma_fmod_of_canonical(m.word);
    crate::field::lemma_fmod_of_canonical(20);
    crate::field::lemma_fmod_of_canonical(28);
}

/// The memory chiplet's response to an element access is the request it answers: a read (or a
/// write) of element `2 * idx1 + idx0` of the word, at that offset from address `word`.
pub proof fn lemma_memory_response_answers_element_request(m: MemoryColumns)
    requires
        m.is_canonical(),
        m.is_word == 0,
        m.is_read == 0 || m.is_read == 1,
        m.idx0 == 0 || m.idx0 == 1,
        m.idx1 == 0 || m.idx1 == 1,
        m.word + 3 < crate::field::pm(),
    ensures
        mem_response_elems(m) == mem_element_elems(
            if m.is_read == 1 {
                MEMORY_READ_ELEMENT_LABEL
            } else {
                crate::logup_msg::MEMORY_WRITE_ELEMENT_LABEL
            },
            m.ctx,
            (m.word + 2 * m.idx1 + m.idx0) as u64,
            m.clk,
            m.values@[2 * m.idx1 + m.idx0],
        ),
{
    let v = m.values@;
    let k = 2 * m.idx1 + m.idx0;
    crate::field::lemma_fmod_of_canonical(4);
    crate::field::lemma_fmod_of_canonical(12);
    crate::field::lemma_fmod_of_canonical((m.word + k) as u64);
    crate::field::lemma_fmod_of_canonical(v[0]);
    crate::field::lemma_fmod_of_canonical(v[1]);
    crate::field::lemma_fmod_of_canonical(v[2]);
    crate::field::lemma_fmod_of_canonical(v[3]);
    if m.is_read == 1 {
        assert(spec_memory_label(m.is_read, m.is_word) == 12);
    } else {
        assert(spec_memory_label(m.is_read, m.is_word) == 4);
    }
    let (a, b, c, d, i0, i1) = (v[0] as int, v[1] as int, v[2] as int, v[3] as int, m.idx0 as int, m.idx1 as int);
    let sum = a * (1 - i0) * (1 - i1) + b * i0 * (1 - i1) + c * (1 - i0) * i1 + d * i0 * i1;
    assert(sum == (if i1 == 0 {
        if i0 == 0 {
            a
        } else {
            b
        }
    } else if i0 == 0 {
        c
    } else {
        d
    })) by (nonlinear_arith)
        requires
            sum == a * (1 - i0) * (1 - i1) + b * i0 * (1 - i1) + c * (1 - i0) * i1 + d * i0 * i1,
            i0 == 0 || i0 == 1,
            i1 == 0 || i1 == 1,
    ;
}

/// C1, the other chiplets: bitwise on the last row of its cycle, memory on every row, ACE on
/// the start row of an evaluation, kernel ROM on every row.
#[verifier::opaque]
pub open spec fn spec_resp_others(
    acc: (QuadFelt, QuadFelt),
    row: ChipletRowValues,
    c: ChipletConstants,
    ch: Challenges,
) -> (QuadFelt, QuadFelt) {
    let s = row.selectors@;
    let bw_label = fe_add(
        fe_mul(fe_sub(1, row.bitwise_sel), BITWISE_AND_LABEL as u64),
        fe_mul(row.bitwise_sel, BITWISE_XOR_LABEL as u64),
    );
    let a = gate_add(
        acc,
        fe_mul(fe_mul(s[0], fe_sub(1, s[1])), fe_sub(1, row.k_transition)),
        enc(ch, seq![bw_label, row.bitwise_a, row.bitwise_b, row.bitwise_z]),
    );
    let a = gate_add(
        a,
        fe_mul(fe_mul(s[0], s[1]), fe_sub(1, s[2])),
        enc(ch, mem_response_elems(row.memory)),
    );
    let ace = row.ace;
    let num_eval = fe_add(ace.read_num_eval, 1);
    let num_read = fe_sub(fe_add(ace.id@[0], 1), num_eval);
    let a = gate_add(
        a,
        fe_mul(is_ace_row(row), ace.selector_start),
        enc(ch, seq![ACE_INIT_LABEL as u64, ace.clk, ace.ctx, ace.ptr, num_read, num_eval]),
    );
    let kr_label = fe_add(
        fe_mul(row.kernel_first, c.kernel_proc_init_label),
        fe_mul(fe_sub(1, row.kernel_first), KERNEL_PROC_CALL_LABEL as u64),
    );
    gate_add(
        a,
        fe_mul(fe_mul(fe_mul(fe_mul(s[0], s[1]), s[2]), s[3]), fe_sub(1, s[4])),
        enc(ch, seq![kr_label] + row.kernel_root@),
    )
}

/// A set after the virtual-table pattern: `+1 / v` under `f_add`, `-1 / v` under `f_remove`.
pub open spec fn gate_replace(acc: (QuadFelt, QuadFelt), f_add: u64, f_remove: u64, v: QuadFelt) -> (
    QuadFelt,
    QuadFelt,
) {
    (
        q_add(
            acc.0,
            q_mul(q_sub(v, QuadFelt::spec_one()), QuadFelt::spec_from_base(fmod(f_add + f_remove))),
        ),
        q_add(acc.1, QuadFelt::spec_from_base(fmod(f_add - f_remove))),
    )
}

/// The element that an ACE EVAL row reads: `id1 + id2 * off1 + (eval_op + 1) * off2`.
pub open spec fn ace_instruction(ace: AceColumns, c: ChipletConstants) -> u64 {
    fe_add(
        fe_add(ace.id@[1], fe_mul(ace.id@[2], c.ace_id1_offset)),
        fe_mul(fe_add(ace.eval_op, 1), c.ace_id2_offset),
    )
}

/// C2: the sibling table (stored on the old path, MV and MVA; retrieved on the new path, MU and
/// MUA) and the ACE memory reads (a word on READ rows, an instruction on EVAL rows).
#[verifier::opaque]
pub open spec fn spec_g_hash_kernel(
    row: ChipletRowValues,
    next: ChipletRowValues,
    hf: HasherFlagValues,
    c: ChipletConstants,
    ch: Challenges,
) -> (QuadFelt, QuadFelt) {
    let ih = is_hasher(row);
    let bit = path_bit(row, next);
    let h = row.hasher_state@;
    let hn = next.hasher_state@;
    let a = gate_replace(
        empty_set(),
        fe_mul(ih, hf.f_mv),
        fe_mul(ih, hf.f_mu),
        enc(ch, seq![row.node_index] + sibling_word(word_at(h, 0), word_at(h, 4), bit)),
    );
    let a = gate_replace(
        a,
        fe_mul(ih, hf.f_mva),
        fe_mul(ih, hf.f_mua),
        enc(ch, seq![row.node_index] + sibling_word(word_at(hn, 0), word_at(hn, 4), bit)),
    );
    let ace = row.ace;
    let a = gate_remove(
        a,
        fe_mul(is_ace_row(row), fe_sub(1, ace.selector_block)),
        enc(
            ch,
            mem_word_elems(
                MEMORY_READ_WORD_LABEL,
                ace.ctx,
                ace.ptr,
                ace.clk,
                seq![ace.v0@[0], ace.v1@[0], ace.v0@[1], ace.v1@[1]],
            ),
        ),
    );
    gate_remove(
        a,
        fe_mul(is_ace_row(row), ace.selector_block),
        enc(
            ch,
            mem_element_elems(MEMORY_READ_ELEMENT_LABEL, ace.ctx, ace.ptr, ace.clk, ace_instruction(ace, c)),
        ),
    )
}

/// The elements of ACE wire `i` of a row.
pub open spec fn wire_elems(ace: AceColumns, i: int) -> Seq<u64> {
    seq![ace.clk, ace.ctx, ace.id@[i], ace.v0@[i], ace.v1@[i]]
}

/// C3: on READ rows wires 0 and 1 are inserted with their fan-outs; on EVAL rows wire 0 (the
/// gate output) is inserted with its fan-out and wires 1 and 2 (the inputs) are removed.
#[verifier::opaque]
pub open spec fn spec_g_wiring(row: ChipletRowValues, ch: Challenges) -> (QuadFelt, QuadFelt) {
    let ace = row.ace;
    let is_read = fe_mul(is_ace_row(row), fe_sub(1, ace.selector_block));
    let is_eval = fe_mul(is_ace_row(row), ace.selector_block);
    let a = set_step(
        empty_set(),
        is_read,
        batch_insert(
            batch_insert(empty_batch(), ace.m0, enc(ch, wire_elems(ace, 0))),
            ace.m1,
            enc(ch, wire_elems(ace, 1)),
        ),
    );
    set_step(
        a,
        is_eval,
        batch_remove(
            batch_remove(
                batch_insert(empty_batch(), ace.m0, enc(ch, wire_elems(ace, 0))),
                enc(ch, wire_elems(ace, 1)),
            ),
            enc(ch, wire_elems(ace, 2)),
        ),
    )
}

/// The fraction `(U, V)` of chiplet column `k`.
pub open spec fn spec_chiplet_fraction(
    k: int,
    row: ChipletRowValues,
    next: ChipletRowValues,
    hf: HasherFlagValues,
    c: ChipletConstants,
    ch: Challenges,
) -> (QuadFelt, QuadFelt) {
    if k == 0 {
        spec_resp_others(spec_resp_hasher(row, next, hf, ch), row, c, ch)
    } else if k == 1 {
        spec_g_hash_kernel(row, next, hf, c, ch)
    } else {
        spec_g_wiring(row, ch)
    }
}

/// The constraints of chiplet column `k` (C1 to C3).
pub open spec fn spec_chiplet_column(
    k: int,
    row: ChipletRowValues,
    next: ChipletRowValues,
    hf: HasherFlagValues,
    c: ChipletConstants,
    ch: Challenges,
) -> ColumnConstraints {
    column_constraints(
        row.bus_acc@[k],
        next.bus_acc@[k],
        spec_chiplet_fraction(k, row, next, hf, c, ch),
    )
}

// BUILDERS
// ================================================================================================

/// The word of the hasher state at `off`.
fn state_word(h: &[u64; 12], off: usize) -> (r: [u64; 4])
    requires
        off + 4 <= 12,
    ensures
        r@ == word_at(h@, off as int),
{
    let r = [h[off], h[off + 1], h[off + 2], h[off + 3]];
    assert(r@ =~= word_at(h@, off as int));
    r
}

/// The rate: the first eight lanes of the hasher state.
fn state_rate(h: &[u64; 12]) -> (r: [u64; 8])
    ensures
        r@ == h@.subrange(0, 8),
{
    let r = [h[0], h[1], h[2], h[3], h[4], h[5], h[6], h[7]];
    assert(r@ =~= h@.subrange(0, 8));
    r
}

/// Builds the hasher part of C1.
fn resp_hasher<'c>(
    row: &ChipletRowValues,
    next: &ChipletRowValues,
    hf: &HasherFlagValues,
    ch: &'c Challenges,
) -> (r: RationalSet<'c>)
    requires
        ch.wf(),
        row.is_canonical(),
        next.is_canonical(),
        hf.is_canonical(),
    ensures
        r.wf(),
        r.spec_challenges() == *ch,
        (r.spec_u(), r.spec_v()) == spec_resp_hasher(*row, *next, *hf, *ch),
{
    proof {
        reveal(spec_resp_hasher);
    }
    let ih = fsub(1, row.selectors[0]);
    let addr = fadd(row.clk, 1);
    let ni = row.node_index;
    let bit = fsub(ni, fadd(next.node_index, next.node_index));
    let leaf = leaf_word(&row.hasher_state, bit);
    assert(leaf@ =~= leaf_seq(row.hasher_state@, bit));
    let mut set = RationalSet::new(ch);
    set.add_single(
        fmul(ih, hf.f_bp),
        HasherMsg::State {
            label_value: LINEAR_HASH_LABEL as u16 + HASHER_INPUT_OFFSET,
            addr,
            node_index: ni,
            state: row.hasher_state,
        },
    );
    set.add_single(
        fmul(ih, hf.f_mp),
        HasherMsg::Word {
            label_value: MP_VERIFY_LABEL as u16 + HASHER_INPUT_OFFSET,
            addr,
            node_index: ni,
            word: leaf,
        },
    );
    set.add_single(
        fmul(ih, hf.f_mv),
        HasherMsg::Word {
            label_value: MR_UPDATE_OLD_LABEL as u16 + HASHER_INPUT_OFFSET,
            addr,
            node_index: ni,
            word: leaf,
        },
    );
    set.add_single(
        fmul(ih, hf.f_mu),
        HasherMsg::Word {
            label_value: MR_UPDATE_NEW_LABEL as u16 + HASHER_INPUT_OFFSET,
            addr,
            node_index: ni,
            word: leaf,
        },
    );
    set.add_single(
        fmul(ih, hf.f_hout),
        HasherMsg::Word {
            label_value: RETURN_HASH_LABEL as u16 + HASHER_OUTPUT_OFFSET,
            addr,
            node_index: ni,
            word: state_word(&row.hasher_state, 0),
        },
    );
    set.add_single(
        fmul(ih, hf.f_sout),
        HasherMsg::State {
            label_value: RETURN_STATE_LABEL as u16 + HASHER_OUTPUT_OFFSET,
            addr,
            node_index: ni,
            state: row.hasher_state,
        },
    );
    set.add_single(
        fmul(ih, hf.f_abp),
        HasherMsg::Rate {
            label_value: LINEAR_HASH_LABEL as u16 + HASHER_OUTPUT_OFFSET,
            addr,
            node_index: ni,
            rate: state_rate(&next.hasher_state),
        },
    );
    set
}

/// Adds the bitwise, memory, ACE and kernel ROM responses of C1.
fn resp_others<'c>(
    set: &mut RationalSet<'c>,
    row: &ChipletRowValues,
    c: &ChipletConstants,
    ch: &'c Challenges,
)
    requires
        ch.wf(),
        old(set).wf(),
        old(set).spec_challenges() == *ch,
        row.is_canonical(),
        c.is_canonical(),
    ensures
        final(set).wf(),
        final(set).spec_challenges() == *ch,
        (final(set).spec_u(), final(set).spec_v()) == spec_resp_others(
            (old(set).spec_u(), old(set).spec_v()),
            *row,
            *c,
            *ch,
        ),
{
    proof {
        reveal(spec_resp_others);
    }
    let s = &row.selectors;
    let bw_label = fadd(
        fmul(fsub(1, row.bitwise_sel), BITWISE_AND_LABEL as u64),
        fmul(row.bitwise_sel, BITWISE_XOR_LABEL as u64),
    );
    set.add_single(
        fmul(fmul(s[0], fsub(1, s[1])), fsub(1, row.k_transition)),
        BitwiseResponseMsg { label: bw_label, a: row.bitwise_a, b: row.bitwise_b, z: row.bitwise_z },
    );
    let mem = compute_memory_response_msg(&row.memory);
    assert(mem.spec_elements() =~= mem_response_elems(row.memory));
    set.add_single(fmul(fmul(s[0], s[1]), fsub(1, s[2])), mem);
    let ace = &row.ace;
    let num_eval = fadd(ace.read_num_eval, 1);
    let num_read = fsub(fadd(ace.id[0], 1), num_eval);
    let is_ace = fmul(fmul(fmul(s[0], s[1]), s[2]), fsub(1, s[3]));
    set.add_single(
        fmul(is_ace, ace.selector_start),
        AceInitMsg { clk: ace.clk, ctx: ace.ctx, ptr: ace.ptr, num_read, num_eval },
    );
    let kr_label = fadd(
        fmul(row.kernel_first, c.kernel_proc_init_label),
        fmul(fsub(1, row.kernel_first), KERNEL_PROC_CALL_LABEL as u64),
    );
    set.add_single(
        fmul(fmul(fmul(fmul(s[0], s[1]), s[2]), s[3]), fsub(1, s[4])),
        KernelRomResponseMsg { label: kr_label, digest: row.kernel_root },
    );
}

/// Builds C2's set.
fn g_hash_kernel<'c>(
    row: &ChipletRowValues,
    next: &ChipletRowValues,
    hf: &HasherFlagValues,
    c: &ChipletConstants,
    ch: &'c Challenges,
) -> (r: RationalSet<'c>)
    requires
        ch.wf(),
        row.is_canonical(),
        next.is_canonical(),
        hf.is_canonical(),
        c.is_canonical(),
    ensures
        r.wf(),
        r.spec_challenges() == *ch,
        (r.spec_u(), r.spec_v()) == spec_g_hash_kernel(*row, *next, *hf, *c, *ch),
{
    proof {
        reveal(spec_g_hash_kernel);
    }
    let s = &row.selectors;
    let ih = fsub(1, s[0]);
    let bit = fsub(row.node_index, fadd(next.node_index, next.node_index));
    let h = &row.hasher_state;
    let hn = &next.hasher_state;
    let mut set = RationalSet::new(ch);
    let sibling = SiblingMsg::select(row.node_index, bit, &state_word(h, 0), &state_word(h, 4));
    set.replace(fmul(ih, hf.f_mv), fmul(ih, hf.f_mu), sibling);
    let sibling_next = SiblingMsg::select(
        row.node_index,
        bit,
        &state_word(hn, 0),
        &state_word(hn, 4),
    );
    set.replace(fmul(ih, hf.f_mva), fmul(ih, hf.f_mua), sibling_next);
    let ace = &row.ace;
    let is_ace = fmul(fmul(fmul(s[0], s[1]), s[2]), fsub(1, s[3]));
    let header = MemoryHeader { ctx: ace.ctx, addr: ace.ptr, clk: ace.clk };
    let word = [ace.v0[0], ace.v1[0], ace.v0[1], ace.v1[1]];
    assert(word@ =~= seq![ace.v0@[0], ace.v1@[0], ace.v0@[1], ace.v1@[1]]);
    set.remove_single(fmul(is_ace, fsub(1, ace.selector_block)), header.read_word(word));
    let element = fadd(
        fadd(ace.id[1], fmul(ace.id[2], c.ace_id1_offset)),
        fmul(fadd(ace.eval_op, 1), c.ace_id2_offset),
    );
    set.remove_single(fmul(is_ace, ace.selector_block), header.read_element(element));
    set
}

/// Builds C3's set.
fn g_wiring<'c>(row: &ChipletRowValues, ch: &'c Challenges) -> (r: RationalSet<'c>)
    requires
        ch.wf(),
        row.is_canonical(),
    ensures
        r.wf(),
        r.spec_challenges() == *ch,
        (r.spec_u(), r.spec_v()) == spec_g_wiring(*row, *ch),
{
    proof {
        reveal(spec_g_wiring);
    }
    let s = &row.selectors;
    let ace = &row.ace;
    let is_ace = fmul(fmul(fmul(s[0], s[1]), s[2]), fsub(1, s[3]));
    let is_read = fmul(is_ace, fsub(1, ace.selector_block));
    let is_eval = fmul(is_ace, ace.selector_block);
    let wire0 = AceWireMsg { clk: ace.clk, ctx: ace.ctx, id: ace.id[0], v0: ace.v0[0], v1: ace.v1[0] };
    let wire1 = AceWireMsg { clk: ace.clk, ctx: ace.ctx, id: ace.id[1], v0: ace.v0[1], v1: ace.v1[1] };
    let wire2 = AceWireMsg { clk: ace.clk, ctx: ace.ctx, id: ace.id[2], v0: ace.v0[2], v1: ace.v1[2] };
    let mut set = RationalSet::new(ch);
    let mut b = Batch::new(ch);
    b.insert(ace.m0, wire0);
    b.insert(ace.m1, wire1);
    set.add_batch(is_read, b);
    let mut b = Batch::new(ch);
    b.insert(ace.m0, wire0);
    b.remove(wire1);
    b.remove(wire2);
    set.add_batch(is_eval, b);
    set
}

/// The constraints of the three chiplet-trace bus columns C1 to C3 on one row: C1 holds the
/// chiplet responses, C2 the sibling table and the ACE memory reads, C3 the ACE wiring.
pub fn chiplet_bus_columns(
    row: &ChipletRowValues,
    next: &ChipletRowValues,
    hasher_flags: &HasherFlagValues,
    consts: &ChipletConstants,
    ch: &Challenges,
) -> (r: [ColumnConstraints; 3])
    requires
        ch.wf(),
        row.is_canonical(),
        next.is_canonical(),
        hasher_flags.is_canonical(),
        consts.is_canonical(),
    ensures
        forall|k: int|
            0 <= k < 3 ==> #[trigger] r@[k] == spec_chiplet_column(
                k,
                *row,
                *next,
                *hasher_flags,
                *consts,
                *ch,
            ),
{
    let mut resp = resp_hasher(row, next, hasher_flags, ch);
    resp_others(&mut resp, row, consts, ch);
    let c1 = Column::from_set(row.bus_acc[0], next.bus_acc[0], resp).constrain();
    let c2 = Column::from_set(
        row.bus_acc[1],
        next.bus_acc[1],
        g_hash_kernel(row, next, hasher_flags, consts, ch),
    ).constrain();
    let c3 = Column::from_set(row.bus_acc[2], next.bus_acc[2], g_wiring(row, ch)).constrain();
    let r = [c1, c2, c3];
    assert(r@[0] == spec_chiplet_column(0, *row, *next, *hasher_flags, *consts, *ch));
    assert(r@[1] == spec_chiplet_column(1, *row, *next, *hasher_flags, *consts, *ch));
    assert(r@[2] == spec_chiplet_column(2, *row, *next, *hasher_flags, *consts, *ch));
    r
}

// LAWS
// ================================================================================================

/// On a hasher row (`s0 = 0`) where only the digest-return flag is set, C1 holds exactly one
/// response: the digest `h[0..4]` (the first rate word) under the label `RETURN_HASH_LABEL + 32`,
/// at the hasher address `clk + 1` and the row's node index, so `(U, V) = (v, 1)` for its
/// encoding `v`. This is the word that the decoder's digest-return request on END carries.
#[verifier::rlimit(40)]
pub proof fn lemma_return_hash_response_carries_the_digest(
    row: ChipletRowValues,
    next: ChipletRowValues,
    hf: HasherFlagValues,
    c: ChipletConstants,
    ch: Challenges,
)
    requires
        row.is_canonical(),
        hf.is_canonical(),
        row.selectors@[0] == 0,
        hf.f_hout == 1,
        hf.f_bp == 0 && hf.f_mp == 0 && hf.f_mv == 0 && hf.f_mu == 0 && hf.f_sout == 0,
        hf.f_abp == 0,
    ensures
        spec_chiplet_fraction(0, row, next, hf, c, ch) == (
            enc(
                ch,
                seq![
                    (RETURN_HASH_LABEL as u16 + HASHER_OUTPUT_OFFSET) as u64,
                    fe_add(row.clk, 1),
                    row.node_index,
                ] + row.hasher_state@.subrange(0, 4),
            ),
            QuadFelt::spec_one(),
        ),
{
    reveal(spec_resp_hasher);
    reveal(spec_resp_others);
    lemma_steps_wf();
    lemma_steps_inactive();
    lemma_steps_active_on_empty();
    let s = row.selectors@;
    assert(is_canonical(s[1]) && is_canonical(s[2]) && is_canonical(s[3]) && is_canonical(s[4]));
    lemma_fe_units(0);
    lemma_fe_units(1);
    lemma_fe_units(s[1]);
    lemma_fe_units(s[2]);
    lemma_fe_units(s[3]);
    crate::field::lemma_fmod_canonical(1 - s[1]);
    crate::field::lemma_fmod_canonical(1 - s[2]);
    crate::field::lemma_fmod_canonical(1 - s[3]);
    crate::field::lemma_fmod_canonical(1 - s[4]);
    crate::field::lemma_fmod_canonical(1 - row.k_transition);
    lemma_fe_units(fe_sub(1, s[1]));
    lemma_fe_units(fe_sub(1, s[2]));
    lemma_fe_units(fe_sub(1, s[3]));
    lemma_fe_units(fe_sub(1, s[4]));
    lemma_fe_units(fe_sub(1, row.k_transition));
    lemma_fe_units(row.ace.selector_start);
    assert(fe_mul(fe_mul(s[0], s[1]), s[2]) == 0);
    assert(fe_mul(fe_mul(fe_mul(s[0], s[1]), s[2]), s[3]) == 0);
    assert(is_ace_row(row) == 0);
    assert(word_at(row.hasher_state@, 0) == row.hasher_state@.subrange(0, 4));
}

/// On the last row of a bitwise cycle (`s0 = 1`, `s1 = 0`, `k_transition = 0`, boolean
/// operation selector), C1 holds exactly the bitwise chiplet's response `[label, a, b, z]`, with
/// label 2 (AND) when the selector is 0 and 6 (XOR) when it is 1.
#[verifier::rlimit(40)]
pub proof fn lemma_bitwise_row_responds_with_its_operation(
    row: ChipletRowValues,
    next: ChipletRowValues,
    hf: HasherFlagValues,
    c: ChipletConstants,
    ch: Challenges,
)
    requires
        row.is_canonical(),
        hf.is_canonical(),
        row.selectors@[0] == 1,
        row.selectors@[1] == 0,
        row.k_transition == 0,
        row.bitwise_sel == 0 || row.bitwise_sel == 1,
    ensures
        spec_chiplet_fraction(0, row, next, hf, c, ch) == (
            enc(
                ch,
                seq![
                    if row.bitwise_sel == 0 {
                        2u64
                    } else {
                        6u64
                    },
                    row.bitwise_a,
                    row.bitwise_b,
                    row.bitwise_z,
                ],
            ),
            QuadFelt::spec_one(),
        ),
{
    reveal(spec_resp_hasher);
    reveal(spec_resp_others);
    lemma_steps_wf();
    lemma_steps_inactive();
    lemma_steps_active_on_empty();
    let s = row.selectors@;
    assert(is_canonical(s[2]) && is_canonical(s[3]) && is_canonical(s[4]));
    lemma_fe_units(0);
    lemma_fe_units(1);
    lemma_fe_units(2);
    lemma_fe_units(6);
    lemma_fe_units(s[2]);
    lemma_fe_units(s[3]);
    crate::field::lemma_fmod_canonical(1 - s[2]);
    crate::field::lemma_fmod_canonical(1 - s[4]);
    lemma_fe_units(fe_sub(1, s[2]));
    lemma_fe_units(fe_sub(1, s[4]));
    lemma_fe_units(row.ace.selector_start);
    lemma_fe_units(hf.f_bp);
    lemma_fe_units(hf.f_mp);
    lemma_fe_units(hf.f_mv);
    lemma_fe_units(hf.f_mu);
    lemma_fe_units(hf.f_hout);
    lemma_fe_units(hf.f_sout);
    lemma_fe_units(hf.f_abp);
    assert(is_ace_row(row) == 0);
}

/// The sibling of a path step is the second rate word when the bit is 0 and the first when
/// it is 1.
proof fn lemma_sibling_selects(h: Seq<u64>, bit: u64)
    requires
        h.len() == 12,
        all_canonical(h),
        bit == 0 || bit == 1,
    ensures
        sibling_word(word_at(h, 0), word_at(h, 4), bit) == (if bit == 0 {
            h.subrange(4, 8)
        } else {
            h.subrange(0, 4)
        }),
{
    lemma_fe_units(bit);
    lemma_fe_units(fe_sub(1, bit));
    assert forall|i: int| 0 <= i < 8 implies fe_mul(1, #[trigger] h[i]) == h[i] && fe_mul(0, h[i])
        == 0 && fe_add(0, h[i]) == h[i] && fe_add(h[i], 0) == h[i] by {
        lemma_fe_units(h[i]);
    }
    if bit == 0 {
        assert(sibling_word(word_at(h, 0), word_at(h, 4), bit) =~= h.subrange(4, 8));
    } else {
        assert(sibling_word(word_at(h, 0), word_at(h, 4), bit) =~= h.subrange(0, 4));
    }
}

/// A row with `s0 = 0` is not an ACE row, and neither of its ACE flags is active.
proof fn lemma_not_ace_row(row: ChipletRowValues)
    requires
        row.is_canonical(),
        row.selectors@[0] == 0,
    ensures
        is_ace_row(row) == 0,
        fe_mul(is_ace_row(row), row.ace.selector_block) == 0,
        fe_mul(is_ace_row(row), fe_sub(1, row.ace.selector_block)) == 0,
{
    let s = row.selectors@;
    assert(is_canonical(s[1]) && is_canonical(s[2]) && is_canonical(s[3]));
    lemma_fe_units(s[1]);
    lemma_fe_units(s[2]);
    crate::field::lemma_fmod_canonical(1 - s[3]);
    lemma_fe_units(fe_sub(1, s[3]));
    assert(fe_mul(s[0], s[1]) == 0);
    assert(fe_mul(fe_mul(s[0], s[1]), s[2]) == 0);
    lemma_fe_units(row.ace.selector_block);
    crate::field::lemma_fmod_canonical(1 - row.ace.selector_block);
    lemma_fe_units(fe_sub(1, row.ace.selector_block));
}

/// On the first row of a Merkle-update old path (`s0 = 0`, only `f_mv` set, boolean path bit),
/// C2 stores the sibling of the path step under the node index: the second rate word
/// `h[4..8]` when the bit is 0 and the first `h[0..4]` when it is 1.
#[verifier::rlimit(60)]
pub proof fn lemma_old_path_stores_the_sibling(
    row: ChipletRowValues,
    next: ChipletRowValues,
    hf: HasherFlagValues,
    c: ChipletConstants,
    ch: Challenges,
)
    requires
        row.is_canonical(),
        next.is_canonical(),
        row.selectors@[0] == 0,
        hf.f_mv == 1 && hf.f_mu == 0 && hf.f_mva == 0 && hf.f_mua == 0,
        path_bit(row, next) == 0 || path_bit(row, next) == 1,
    ensures
        spec_chiplet_fraction(1, row, next, hf, c, ch) == (
            enc(
                ch,
                seq![row.node_index] + (if path_bit(row, next) == 0 {
                    row.hasher_state@.subrange(4, 8)
                } else {
                    row.hasher_state@.subrange(0, 4)
                }),
            ),
            QuadFelt::spec_one(),
        ),
{
    reveal(spec_g_hash_kernel);
    lemma_steps_wf();
    lemma_steps_inactive();
    lemma_steps_active_on_empty();
    let h = row.hasher_state@;
    let bit = path_bit(row, next);
    lemma_sibling_selects(h, bit);
    lemma_not_ace_row(row);
    lemma_fe_units(0);
    lemma_fe_units(1);
    crate::field::lemma_fmod_of_canonical(1);
    crate::field::lemma_fmod_of_canonical(0);
    let v = enc(ch, seq![row.node_index] + sibling_word(word_at(h, 0), word_at(h, 4), bit));
    assert(gate_replace(empty_set(), 1, 0, v) == gate_add(empty_set(), 1, v));
    let a = gate_add(empty_set(), 1, v);
    let vn = enc(
        ch,
        seq![row.node_index] + sibling_word(
            word_at(next.hasher_state@, 0),
            word_at(next.hasher_state@, 4),
            bit,
        ),
    );
    assert(gate_replace(a, 0, 0, vn) == gate_add(a, 0, vn));
}

/// On an ACE READ row (`s0 = s1 = s2 = 1`, `s3 = 0`, block selector 0), C3 inserts wires 0 and
/// 1 of the row, `[clk, ctx, id_i, v0_i, v1_i]`, with their fan-outs `m0` and `m1`; on an EVAL row
/// (block selector 1) it inserts wire 0 with fan-out `m0` and removes wires 1 and 2.
#[verifier::rlimit(40)]
pub proof fn lemma_ace_rows_wire_their_nodes(
    row: ChipletRowValues,
    ch: Challenges,
)
    requires
        row.is_canonical(),
        row.selectors@[0] == 1 && row.selectors@[1] == 1 && row.selectors@[2] == 1,
        row.selectors@[3] == 0,
        row.ace.selector_block == 0 || row.ace.selector_block == 1,
    ensures
        ({
            let a = row.ace;
            let w0 = enc(ch, seq![a.clk, a.ctx, a.id@[0], a.v0@[0], a.v1@[0]]);
            let w1 = enc(ch, seq![a.clk, a.ctx, a.id@[1], a.v0@[1], a.v1@[1]]);
            let w2 = enc(ch, seq![a.clk, a.ctx, a.id@[2], a.v0@[2], a.v1@[2]]);
            let b = if a.selector_block == 0 {
                batch_insert(batch_insert(empty_batch(), a.m0, w0), a.m1, w1)
            } else {
                batch_remove(batch_remove(batch_insert(empty_batch(), a.m0, w0), w1), w2)
            };
            spec_g_wiring(row, ch) == (b.1, b.0)
        }),
{
    reveal(spec_g_wiring);
    lemma_steps_wf();
    lemma_steps_inactive();
    lemma_steps_active_on_empty();
    lemma_fe_units(0);
    lemma_fe_units(1);
    assert(is_ace_row(row) == 1);
}

} // verus!
