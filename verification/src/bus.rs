//! Field-level helpers of the chiplet bus responses: the conditional leaf word of Merkle path
//! operations and the memory chiplet's response message, computed from column values.

use vstd::prelude::*;
use vstd::arithmetic::div_mod::{lemma_add_mod_noop, lemma_mul_mod_noop, lemma_sub_mod_noop};
use crate::field::{felt_add, felt_mul, felt_sub, fmod, is_canonical, lemma_fmod_canonical, lemma_fmod_of_canonical, pm};
use crate::logup_msg::{
    LogUpMessage,
    MEMORY_READ_ELEMENT_LABEL, MEMORY_READ_WORD_LABEL, MEMORY_WRITE_ELEMENT_LABEL,
    MEMORY_WRITE_WORD_LABEL,
};

verus! {

// FIELD STEPS
// ================================================================================================

/// Adding reduced values reduces to the reduced sum.
proof fn lemma_fmod_add(x: int, y: int)
    ensures
        fmod(fmod(x) + fmod(y)) == fmod(x + y),
{
    lemma_fmod_canonical(x);
    lemma_fmod_canonical(y);
    lemma_add_mod_noop(x, y, pm());
}

/// Subtracting reduced values reduces to the reduced difference.
proof fn lemma_fmod_sub(x: int, y: int)
    ensures
        fmod(fmod(x) - fmod(y)) == fmod(x - y),
{
    lemma_fmod_canonical(x);
    lemma_fmod_canonical(y);
    lemma_sub_mod_noop(x, y, pm());
}

/// Multiplying reduced values reduces to the reduced product.
proof fn lemma_fmod_mul(x: int, y: int)
    ensures
        fmod(fmod(x) * fmod(y)) == fmod(x * y),
{
    lemma_fmod_canonical(x);
    lemma_fmod_canonical(y);
    lemma_mul_mod_noop(x, y, pm());
}

/// `a + b` in the field, with the integer it reduces.
fn f_add(a: u64, b: u64, Ghost(x): Ghost<int>, Ghost(y): Ghost<int>) -> (r: u64)
    requires
        a == fmod(x),
        b == fmod(y),
    ensures
        r == fmod(x + y),
{
    proof {
        lemma_fmod_canonical(x);
        lemma_fmod_canonical(y);
        lemma_fmod_add(x, y);
    }
    felt_add(a, b)
}

/// `a - b` in the field, with the integer it reduces.
fn f_sub(a: u64, b: u64, Ghost(x): Ghost<int>, Ghost(y): Ghost<int>) -> (r: u64)
    requires
        a == fmod(x),
        b == fmod(y),
    ensures
        r == fmod(x - y),
{
    proof {
        lemma_fmod_canonical(x);
        lemma_fmod_canonical(y);
        lemma_fmod_sub(x, y);
    }
    felt_sub(a, b)
}

/// `a * b` in the field, with the integer it reduces.
fn f_mul(a: u64, b: u64, Ghost(x): Ghost<int>, Ghost(y): Ghost<int>) -> (r: u64)
    requires
        a == fmod(x),
        b == fmod(y),
    ensures
        r == fmod(x * y),
{
    proof {
        lemma_fmod_canonical(x);
        lemma_fmod_canonical(y);
        lemma_fmod_mul(x, y);
    }
    felt_mul(a, b)
}

/// A canonical value is the reduction of itself.
proof fn lemma_canonical_is_fmod(a: u64)
    requires
        is_canonical(a),
    ensures
        a == fmod(a as int),
{
    lemma_fmod_of_canonical(a);
}

// LEAF WORD
// ================================================================================================

/// The leaf word of a Merkle path step: `(1 - bit) * h[i] + bit * h[i + 4]` for each `i`,
/// which selects the first rate word when `bit` is 0 and the second when it is 1.
pub open spec fn spec_leaf_word(h: Seq<u64>, bit: u64, i: int) -> u64 {
    fmod((1 - bit) * h[i] + bit * h[i + 4])
}

/// The conditional leaf word of a Merkle path operation from the hasher state `h`.
pub fn leaf_word(h: &[u64; 12], bit: u64) -> (r: [u64; 4])
    requires
        forall|i: int| 0 <= i < 12 ==> is_canonical(#[trigger] h@[i]),
        is_canonical(bit),
    ensures
        forall|i: int| 0 <= i < 4 ==> #[trigger] r@[i] == spec_leaf_word(h@, bit, i),
{
    let mut out: [u64; 4] = [0, 0, 0, 0];
    let one: u64 = 1;
    proof {
        lemma_canonical_is_fmod(bit);
        lemma_canonical_is_fmod(one);
    }
    let not_bit = f_sub(one, bit, Ghost(1int), Ghost(bit as int));
    let mut i: usize = 0;
    while i < 4
        invariant
            i <= 4,
            forall|k: int| 0 <= k < 12 ==> is_canonical(#[trigger] h@[k]),
            is_canonical(bit),
            bit == fmod(bit as int),
            not_bit == fmod(1 - bit),
            forall|k: int| 0 <= k < i ==> #[trigger] out@[k] == spec_leaf_word(h@, bit, k),
        decreases 4 - i,
    {
        proof {
            lemma_canonical_is_fmod(h@[i as int]);
            lemma_canonical_is_fmod(h@[i + 4]);
        }
        let first = f_mul(not_bit, h[i], Ghost(1 - bit), Ghost(h@[i as int] as int));
        let second = f_mul(bit, h[i + 4], Ghost(bit as int), Ghost(h@[i + 4] as int));
        let value = f_add(
            first,
            second,
            Ghost((1 - bit) * h@[i as int]),
            Ghost(bit * h@[i + 4]),
        );
        out[i] = value;
        i = i + 1;
    }
    out
}

// MEMORY RESPONSE
// ================================================================================================

/// The memory chiplet columns that its response message reads.
#[derive(Debug, Clone, Copy)]
pub struct MemoryColumns {
    pub is_read: u64,
    pub is_word: u64,
    pub ctx: u64,
    pub word: u64,
    pub idx0: u64,
    pub idx1: u64,
    pub clk: u64,
    pub values: [u64; 4],
}

impl MemoryColumns {
    /// Every column holds a canonical field element.
    pub open spec fn is_canonical(&self) -> bool {
        &&& is_canonical(self.is_read)
        &&& is_canonical(self.is_word)
        &&& is_canonical(self.ctx)
        &&& is_canonical(self.word)
        &&& is_canonical(self.idx0)
        &&& is_canonical(self.idx1)
        &&& is_canonical(self.clk)
        &&& forall|i: int| 0 <= i < 4 ==> is_canonical(#[trigger] self.values@[i])
    }
}

/// The memory chiplet's response message: `[label, ctx, addr, clk, data...]`, where the data is
/// one element or a whole word.
#[derive(Debug, Clone, Copy)]
pub struct MemoryResponseMsg {
    pub label: u64,
    pub ctx: u64,
    pub addr: u64,
    pub clk: u64,
    pub is_word: u64,
    pub element: u64,
    pub word: [u64; 4],
}

/// The label: write or read, element or word, selected by the flags.
pub open spec fn spec_memory_label(is_read: u64, is_word: u64) -> u64 {
    fmod(
        (1 - is_read) * ((1 - is_word) * MEMORY_WRITE_ELEMENT_LABEL + is_word
            * MEMORY_WRITE_WORD_LABEL) + is_read * ((1 - is_word) * MEMORY_READ_ELEMENT_LABEL
            + is_word * MEMORY_READ_WORD_LABEL),
    )
}

/// The element selected from the word by the two index bits.
pub open spec fn spec_memory_element(v: Seq<u64>, idx0: u64, idx1: u64) -> u64 {
    fmod(
        v[0] * (1 - idx0) * (1 - idx1) + v[1] * idx0 * (1 - idx1) + v[2] * (1 - idx0) * idx1 + v[3]
            * idx0 * idx1,
    )
}

/// Computes the memory chiplet response message from its columns: the label from the read and
/// word flags, the address `word + 2 * idx1 + idx0`, and the element selected by the index bits.
pub fn compute_memory_response_msg(cols: &MemoryColumns) -> (r: MemoryResponseMsg)
    requires
        cols.is_canonical(),
    ensures
        r.label == spec_memory_label(cols.is_read, cols.is_word),
        r.ctx == cols.ctx,
        r.addr == fmod(cols.word + 2 * cols.idx1 + cols.idx0),
        r.clk == cols.clk,
        r.is_word == cols.is_word,
        r.element == spec_memory_element(cols.values@, cols.idx0, cols.idx1),
        r.word@ == cols.values@,
{
    let is_read = cols.is_read;
    let is_word = cols.is_word;
    let idx0 = cols.idx0;
    let idx1 = cols.idx1;
    let v = cols.values;
    let ghost r_ = is_read as int;
    let ghost w_ = is_word as int;
    let ghost i0 = idx0 as int;
    let ghost i1 = idx1 as int;
    proof {
        lemma_canonical_is_fmod(is_read);
        lemma_canonical_is_fmod(is_word);
        lemma_canonical_is_fmod(cols.word);
        lemma_canonical_is_fmod(idx0);
        lemma_canonical_is_fmod(idx1);
        lemma_canonical_is_fmod(1);
        lemma_canonical_is_fmod(2);
        lemma_canonical_is_fmod(4);
        lemma_canonical_is_fmod(12);
        lemma_canonical_is_fmod(20);
        lemma_canonical_is_fmod(28);
        lemma_canonical_is_fmod(v@[0]);
        lemma_canonical_is_fmod(v@[1]);
        lemma_canonical_is_fmod(v@[2]);
        lemma_canonical_is_fmod(v@[3]);
    }

    // Address: word + 2 * idx1 + idx0.
    let two_idx1 = f_mul(idx1, 2, Ghost(i1), Ghost(2int));
    let partial = f_add(cols.word, two_idx1, Ghost(cols.word as int), Ghost(i1 * 2));
    let addr = f_add(partial, idx0, Ghost(cols.word + i1 * 2), Ghost(i0));
    assert(cols.word + i1 * 2 + i0 == cols.word + 2 * cols.idx1 + cols.idx0);

    // Label from the flags.
    let write_element_label = MEMORY_WRITE_ELEMENT_LABEL as u64;
    let write_word_label = MEMORY_WRITE_WORD_LABEL as u64;
    let read_element_label = MEMORY_READ_ELEMENT_LABEL as u64;
    let read_word_label = MEMORY_READ_WORD_LABEL as u64;
    let not_word = f_sub(1, is_word, Ghost(1int), Ghost(w_));
    let not_read = f_sub(1, is_read, Ghost(1int), Ghost(r_));
    let we = f_mul(not_word, write_element_label, Ghost(1 - w_), Ghost(4int));
    let ww = f_mul(is_word, write_word_label, Ghost(w_), Ghost(20int));
    let write_label = f_add(we, ww, Ghost((1 - w_) * 4), Ghost(w_ * 20));
    let re = f_mul(not_word, read_element_label, Ghost(1 - w_), Ghost(12int));
    let rw = f_mul(is_word, read_word_label, Ghost(w_), Ghost(28int));
    let read_label = f_add(re, rw, Ghost((1 - w_) * 12), Ghost(w_ * 28));
    let lw = f_mul(not_read, write_label, Ghost(1 - r_), Ghost((1 - w_) * 4 + w_ * 20));
    let lr = f_mul(is_read, read_label, Ghost(r_), Ghost((1 - w_) * 12 + w_ * 28));
    let label = f_add(
        lw,
        lr,
        Ghost((1 - r_) * ((1 - w_) * 4 + w_ * 20)),
        Ghost(r_ * ((1 - w_) * 12 + w_ * 28)),
    );

    // Element selected by the index bits.
    let not_idx0 = f_sub(1, idx0, Ghost(1int), Ghost(i0));
    let not_idx1 = f_sub(1, idx1, Ghost(1int), Ghost(i1));
    let s00 = f_mul(not_idx0, not_idx1, Ghost(1 - i0), Ghost(1 - i1));
    let s10 = f_mul(idx0, not_idx1, Ghost(i0), Ghost(1 - i1));
    let s01 = f_mul(not_idx0, idx1, Ghost(1 - i0), Ghost(i1));
    let s11 = f_mul(idx0, idx1, Ghost(i0), Ghost(i1));
    let t0 = f_mul(v[0], s00, Ghost(v@[0] as int), Ghost((1 - i0) * (1 - i1)));
    let t1 = f_mul(v[1], s10, Ghost(v@[1] as int), Ghost(i0 * (1 - i1)));
    let t2 = f_mul(v[2], s01, Ghost(v@[2] as int), Ghost((1 - i0) * i1));
    let t3 = f_mul(v[3], s11, Ghost(v@[3] as int), Ghost(i0 * i1));
    let a01 = f_add(t0, t1, Ghost(v@[0] * ((1 - i0) * (1 - i1))), Ghost(v@[1] * (i0 * (1 - i1))));
    let a012 = f_add(
        a01,
        t2,
        Ghost(v@[0] * ((1 - i0) * (1 - i1)) + v@[1] * (i0 * (1 - i1))),
        Ghost(v@[2] * ((1 - i0) * i1)),
    );
    let element = f_add(
        a012,
        t3,
        Ghost(v@[0] * ((1 - i0) * (1 - i1)) + v@[1] * (i0 * (1 - i1)) + v@[2] * ((1 - i0) * i1)),
        Ghost(v@[3] * (i0 * i1)),
    );
    assert(v@[0] * ((1 - i0) * (1 - i1)) + v@[1] * (i0 * (1 - i1)) + v@[2] * ((1 - i0) * i1)
        + v@[3] * (i0 * i1) == v@[0] * (1 - i0) * (1 - i1) + v@[1] * i0 * (1 - i1) + v@[2] * (1
        - i0) * i1 + v@[3] * i0 * i1) by (nonlinear_arith);

    MemoryResponseMsg { label, ctx: cols.ctx, addr, clk: cols.clk, is_word, element, word: v }
}

/// With `is_word = 1` the data is the word, otherwise the one element.
impl LogUpMessage for MemoryResponseMsg {
    open spec fn spec_elements(&self) -> Seq<u64> {
        if self.is_word == 1 {
            seq![self.label, self.ctx, self.addr, self.clk] + self.word@
        } else {
            seq![self.label, self.ctx, self.addr, self.clk, self.element]
        }
    }

    fn elements(&self) -> (r: Vec<u64>) {
        let r = if self.is_word == 1 {
            vec![
                self.label,
                self.ctx,
                self.addr,
                self.clk,
                self.word[0],
                self.word[1],
                self.word[2],
                self.word[3],
            ]
        } else {
            vec![self.label, self.ctx, self.addr, self.clk, self.element]
        };
        assert(r@ =~= self.spec_elements());
        r
    }
}

} // verus!
