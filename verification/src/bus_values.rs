//! Base-field arithmetic on canonical values and the set and batch steps of the bus builders,
//! stated over the fractions that `RationalSet` and `Batch` hold.

use vstd::prelude::*;
use crate::challenges::{Challenges, spec_encode};
use crate::field::{
    QuadFelt, felt_add, felt_mul, felt_sub, fmod, is_canonical, lemma_fmod_canonical, neg_one,
    q_add, q_mul, q_sub, lemma_q_wf, lemma_q_add_laws, lemma_q_mul_laws, lemma_q_sub_add,
    lemma_fmod_of_canonical,
};
use crate::logup::{
    frac_step, set_step, lemma_from_base_small, lemma_set_step_inactive, lemma_set_step_active,
};

verus! {

// FIELD ARITHMETIC ON CANONICAL VALUES
// ================================================================================================

/// `a + b` in the base field.
pub open spec fn fe_add(a: u64, b: u64) -> u64 {
    fmod(a + b)
}

/// `a - b` in the base field.
pub open spec fn fe_sub(a: u64, b: u64) -> u64 {
    fmod(a - b)
}

/// `a * b` in the base field.
pub open spec fn fe_mul(a: u64, b: u64) -> u64 {
    fmod(a * b)
}

/// `a + b` in the base field.
pub fn fadd(a: u64, b: u64) -> (r: u64)
    requires
        is_canonical(a),
        is_canonical(b),
    ensures
        r == fe_add(a, b),
        is_canonical(r),
{
    proof {
        lemma_fmod_canonical(a + b);
    }
    felt_add(a, b)
}

/// `a - b` in the base field.
pub fn fsub(a: u64, b: u64) -> (r: u64)
    requires
        is_canonical(a),
        is_canonical(b),
    ensures
        r == fe_sub(a, b),
        is_canonical(r),
{
    proof {
        lemma_fmod_canonical(a - b);
    }
    felt_sub(a, b)
}

/// `a * b` in the base field.
pub fn fmul(a: u64, b: u64) -> (r: u64)
    requires
        is_canonical(a),
        is_canonical(b),
    ensures
        r == fe_mul(a, b),
        is_canonical(r),
{
    proof {
        lemma_fmod_canonical(a * b);
    }
    felt_mul(a, b)
}

// WORDS
// ================================================================================================

/// The four elements of `s` starting at `off`.
pub open spec fn word_at(s: Seq<u64>, off: int) -> Seq<u64> {
    s.subrange(off, off + 4)
}

/// Every element of `s` is canonical.
pub open spec fn all_canonical(s: Seq<u64>) -> bool {
    forall|i: int| 0 <= i < s.len() ==> is_canonical(#[trigger] s[i])
}

/// The word of an 8-element array at `off`.
pub fn word8(h: &[u64; 8], off: usize) -> (r: [u64; 4])
    requires
        off + 4 <= 8,
    ensures
        r@ == word_at(h@, off as int),
{
    let r = [h[off], h[off + 1], h[off + 2], h[off + 3]];
    assert(r@ =~= word_at(h@, off as int));
    r
}

/// The word of a 16-element array at `off`.
pub fn word16(s: &[u64; 16], off: usize) -> (r: [u64; 4])
    requires
        off + 4 <= 16,
    ensures
        r@ == word_at(s@, off as int),
{
    let r = [s[off], s[off + 1], s[off + 2], s[off + 3]];
    assert(r@ =~= word_at(s@, off as int));
    r
}

/// The first twelve elements of a 16-element array.
pub fn first12(s: &[u64; 16]) -> (r: [u64; 12])
    ensures
        r@ == s@.subrange(0, 12),
{
    let r = [s[0], s[1], s[2], s[3], s[4], s[5], s[6], s[7], s[8], s[9], s[10], s[11]];
    assert(r@ =~= s@.subrange(0, 12));
    r
}

/// Three words side by side.
pub fn concat12(a: &[u64; 4], b: &[u64; 4], c: &[u64; 4]) -> (r: [u64; 12])
    ensures
        r@ == a@ + b@ + c@,
{
    let r = [a[0], a[1], a[2], a[3], b[0], b[1], b[2], b[3], c[0], c[1], c[2], c[3]];
    assert(r@ =~= a@ + b@ + c@);
    r
}

// SET AND BATCH STEPS
// ================================================================================================

/// The encoding of the elements `e` under the challenges `ch`.
pub open spec fn enc(ch: Challenges, e: Seq<u64>) -> QuadFelt {
    spec_encode(ch.spec_alpha(), ch.spec_beta(), e)
}

/// The fraction `(U, V) = (1, 0)` of an empty set.
pub open spec fn empty_set() -> (QuadFelt, QuadFelt) {
    (QuadFelt::spec_one(), QuadFelt::spec_zero())
}

/// The fraction `(N, D) = (0, 1)` of an empty batch.
pub open spec fn empty_batch() -> (QuadFelt, QuadFelt) {
    (QuadFelt::spec_zero(), QuadFelt::spec_one())
}

/// A set after a selector-gated insert `+1 / v`: `U + (v - 1) * s`, `V + s`.
pub open spec fn gate_add(acc: (QuadFelt, QuadFelt), s: u64, v: QuadFelt) -> (QuadFelt, QuadFelt) {
    (
        q_add(acc.0, q_mul(q_sub(v, QuadFelt::spec_one()), QuadFelt::spec_from_base(s))),
        q_add(acc.1, QuadFelt::spec_from_base(s)),
    )
}

/// A set after a selector-gated remove `-1 / v`: `U + (v - 1) * s`, `V - s`.
pub open spec fn gate_remove(acc: (QuadFelt, QuadFelt), s: u64, v: QuadFelt) -> (
    QuadFelt,
    QuadFelt,
) {
    (
        q_add(acc.0, q_mul(q_sub(v, QuadFelt::spec_one()), QuadFelt::spec_from_base(s))),
        q_sub(acc.1, QuadFelt::spec_from_base(s)),
    )
}

/// A batch after an insert `+1 / v`.
pub open spec fn batch_add(acc: (QuadFelt, QuadFelt), v: QuadFelt) -> (QuadFelt, QuadFelt) {
    frac_step(acc, QuadFelt::spec_from_base(1), v)
}

/// A batch after a remove `-1 / v`.
pub open spec fn batch_remove(acc: (QuadFelt, QuadFelt), v: QuadFelt) -> (QuadFelt, QuadFelt) {
    frac_step(acc, QuadFelt::spec_from_base(neg_one()), v)
}

/// A batch after an interaction `m / v`.
pub open spec fn batch_insert(acc: (QuadFelt, QuadFelt), m: u64, v: QuadFelt) -> (
    QuadFelt,
    QuadFelt,
) {
    frac_step(acc, QuadFelt::spec_from_base(m), v)
}

/// A column's fraction after adding a set: `V <- V * U_s + V_s * U`, `U <- U * U_s`.
pub open spec fn column_add(col: (QuadFelt, QuadFelt), set: (QuadFelt, QuadFelt)) -> (
    QuadFelt,
    QuadFelt,
) {
    (q_mul(col.0, set.0), q_add(q_mul(col.1, set.0), q_mul(set.1, col.0)))
}

// MESSAGE ELEMENTS
// ================================================================================================

/// `[label, addr, node_index, ..payload]`: a hasher chiplet message.
pub open spec fn hasher_elems(label: u16, addr: u64, node_index: u64, payload: Seq<u64>) -> Seq<
    u64,
> {
    seq![label as u64, addr, node_index] + payload
}

/// `[label, ctx, addr, clk, element]`: a memory message of one element.
pub open spec fn mem_element_elems(label: u8, ctx: u64, addr: u64, clk: u64, element: u64) -> Seq<
    u64,
> {
    seq![(label as u16) as u64, ctx, addr, clk, element]
}

/// `[label, ctx, addr, clk, ..word]`: a memory message of one word.
pub open spec fn mem_word_elems(label: u8, ctx: u64, addr: u64, clk: u64, word: Seq<u64>) -> Seq<
    u64,
> {
    seq![(label as u16) as u64, ctx, addr, clk] + word
}

// FACTS ABOUT THE STEPS
// ================================================================================================

/// Every set and batch step yields well-formed elements, and so does every encoding.
pub proof fn lemma_steps_wf()
    ensures
        empty_set().0.wf() && empty_set().1.wf(),
        empty_batch().0.wf() && empty_batch().1.wf(),
        forall|ch: Challenges, e: Seq<u64>| (#[trigger] enc(ch, e)).wf(),
        forall|acc: (QuadFelt, QuadFelt), s: u64, v: QuadFelt|
            (#[trigger] gate_add(acc, s, v)).0.wf() && gate_add(acc, s, v).1.wf(),
        forall|acc: (QuadFelt, QuadFelt), s: u64, v: QuadFelt|
            (#[trigger] gate_remove(acc, s, v)).0.wf() && gate_remove(acc, s, v).1.wf(),
        forall|acc: (QuadFelt, QuadFelt), s: u64, nd: (QuadFelt, QuadFelt)|
            (#[trigger] set_step(acc, s, nd)).0.wf() && set_step(acc, s, nd).1.wf(),
        forall|acc: (QuadFelt, QuadFelt), m: QuadFelt, v: QuadFelt|
            (#[trigger] frac_step(acc, m, v)).0.wf() && frac_step(acc, m, v).1.wf(),
{
    assert forall|ch: Challenges, e: Seq<u64>| (#[trigger] enc(ch, e)).wf() by {
        lemma_q_wf(ch.spec_alpha(), crate::challenges::encode_sum(ch.spec_beta(), e, e.len()));
    }
    assert forall|acc: (QuadFelt, QuadFelt), s: u64, v: QuadFelt|
        (#[trigger] gate_add(acc, s, v)).0.wf() && gate_add(acc, s, v).1.wf() by {
        lemma_q_wf(acc.0, q_mul(q_sub(v, QuadFelt::spec_one()), QuadFelt::spec_from_base(s)));
        lemma_q_wf(acc.1, QuadFelt::spec_from_base(s));
    }
    assert forall|acc: (QuadFelt, QuadFelt), s: u64, v: QuadFelt|
        (#[trigger] gate_remove(acc, s, v)).0.wf() && gate_remove(acc, s, v).1.wf() by {
        lemma_q_wf(acc.0, q_mul(q_sub(v, QuadFelt::spec_one()), QuadFelt::spec_from_base(s)));
        lemma_q_wf(acc.1, QuadFelt::spec_from_base(s));
    }
    assert forall|acc: (QuadFelt, QuadFelt), s: u64, nd: (QuadFelt, QuadFelt)|
        (#[trigger] set_step(acc, s, nd)).0.wf() && set_step(acc, s, nd).1.wf() by {
        lemma_q_wf(acc.0, q_mul(q_sub(nd.1, QuadFelt::spec_one()), QuadFelt::spec_from_base(s)));
        lemma_q_wf(acc.1, q_mul(nd.0, QuadFelt::spec_from_base(s)));
    }
    assert forall|acc: (QuadFelt, QuadFelt), m: QuadFelt, v: QuadFelt|
        (#[trigger] frac_step(acc, m, v)).0.wf() && frac_step(acc, m, v).1.wf() by {
        lemma_q_wf(q_mul(acc.0, v), q_mul(acc.1, m));
        lemma_q_wf(acc.1, v);
    }
}

/// A step gated by 0 leaves a well-formed set unchanged.
pub proof fn lemma_steps_inactive()
    ensures
        forall|acc: (QuadFelt, QuadFelt), s: u64, v: QuadFelt|
            s == 0 && acc.0.wf() && acc.1.wf() ==> #[trigger] gate_add(acc, s, v) == acc,
        forall|acc: (QuadFelt, QuadFelt), s: u64, v: QuadFelt|
            s == 0 && acc.0.wf() && acc.1.wf() ==> #[trigger] gate_remove(acc, s, v) == acc,
        forall|acc: (QuadFelt, QuadFelt), s: u64, nd: (QuadFelt, QuadFelt)|
            s == 0 && acc.0.wf() && acc.1.wf() && nd.0.wf() && nd.1.wf() ==> #[trigger] set_step(
                acc,
                s,
                nd,
            ) == acc,
{
    lemma_from_base_small();
    let zero = QuadFelt::spec_zero();
    assert forall|acc: (QuadFelt, QuadFelt), s: u64, v: QuadFelt|
        s == 0 && acc.0.wf() && acc.1.wf() implies #[trigger] gate_add(acc, s, v) == acc by {
        lemma_q_wf(v, QuadFelt::spec_one());
        lemma_q_mul_laws(q_sub(v, QuadFelt::spec_one()), zero, zero);
        lemma_q_add_laws(acc.0, zero, zero);
        lemma_q_add_laws(acc.1, zero, zero);
    }
    assert forall|acc: (QuadFelt, QuadFelt), s: u64, v: QuadFelt|
        s == 0 && acc.0.wf() && acc.1.wf() implies #[trigger] gate_remove(acc, s, v) == acc by {
        lemma_q_wf(v, QuadFelt::spec_one());
        lemma_q_mul_laws(q_sub(v, QuadFelt::spec_one()), zero, zero);
        lemma_q_add_laws(acc.0, zero, zero);
        lemma_fmod_of_canonical(acc.1.c0);
        lemma_fmod_of_canonical(acc.1.c1);
    }
    assert forall|acc: (QuadFelt, QuadFelt), s: u64, nd: (QuadFelt, QuadFelt)|
        s == 0 && acc.0.wf() && acc.1.wf() && nd.0.wf() && nd.1.wf() implies #[trigger] set_step(
        acc,
        s,
        nd,
    ) == acc by {
        lemma_set_step_inactive(acc, nd);
    }
}

/// A step gated by 1 on the empty set gives the fraction of what it adds: `1 / v` for an insert,
/// `-1 / v` for a remove, `N / D` for a batch.
pub proof fn lemma_steps_active_on_empty()
    ensures
        forall|s: u64, v: QuadFelt|
            s == 1 && v.wf() ==> #[trigger] gate_add(empty_set(), s, v) == (v, QuadFelt::spec_one()),
        forall|s: u64, v: QuadFelt|
            s == 1 && v.wf() ==> #[trigger] gate_remove(empty_set(), s, v) == (
                v,
                QuadFelt::spec_from_base(neg_one()),
            ),
        forall|s: u64, nd: (QuadFelt, QuadFelt)|
            s == 1 && nd.0.wf() && nd.1.wf() ==> #[trigger] set_step(empty_set(), s, nd) == (
                nd.1,
                nd.0,
            ),
{
    lemma_from_base_small();
    let zero = QuadFelt::spec_zero();
    let one = QuadFelt::spec_one();
    assert forall|s: u64, v: QuadFelt|
        s == 1 && v.wf() implies #[trigger] gate_add(empty_set(), s, v) == (v, one) by {
        lemma_q_wf(v, one);
        lemma_q_mul_laws(q_sub(v, one), one, zero);
        lemma_q_add_laws(one, q_sub(v, one), zero);
        lemma_q_sub_add(v, one);
        lemma_q_add_laws(zero, one, zero);
        lemma_q_add_laws(one, zero, zero);
    }
    assert forall|s: u64, v: QuadFelt|
        s == 1 && v.wf() implies #[trigger] gate_remove(empty_set(), s, v) == (
            v,
            QuadFelt::spec_from_base(neg_one()),
        ) by {
        lemma_q_wf(v, one);
        lemma_q_mul_laws(q_sub(v, one), one, zero);
        lemma_q_add_laws(one, q_sub(v, one), zero);
        lemma_q_sub_add(v, one);
        lemma_fmod_canonical(0 - 1);
        lemma_fmod_of_canonical(neg_one());
    }
    assert forall|s: u64, nd: (QuadFelt, QuadFelt)|
        s == 1 && nd.0.wf() && nd.1.wf() implies #[trigger] set_step(empty_set(), s, nd) == (
            nd.1,
            nd.0,
        ) by {
        lemma_set_step_active(nd);
    }
}

/// The field operations on 0, 1 and a canonical value.
pub proof fn lemma_fe_units(x: u64)
    requires
        is_canonical(x),
    ensures
        fe_mul(1, x) == x,
        fe_mul(x, 1) == x,
        fe_mul(0, x) == 0,
        fe_mul(x, 0) == 0,
        fe_add(0, x) == x,
        fe_add(x, 0) == x,
        fe_sub(x, 0) == x,
        fe_sub(1, 0) == 1,
        fe_sub(1, 1) == 0,
{
    lemma_fmod_of_canonical(x);
    lemma_fmod_of_canonical(0);
    lemma_fmod_of_canonical(1);
    assert(1 * x == x && x * 1 == x && 0 * x == 0 && x * 0 == 0) by (nonlinear_arith);
}

/// `fmod(fmod((P - 1) * c) + p) == fmod(p - c)`: adding `-c` is subtracting `c`.
proof fn lemma_fmod_neg_add(c: u64, p: u64)
    requires
        is_canonical(c),
        is_canonical(p),
    ensures
        fmod(fmod((neg_one() as int) * c) as int + p) == fmod(p - c),
{
    let x = (neg_one() as int) * c;
    crate::field::lemma_fmod_linear(x, p as int, 1, 1);
    lemma_fmod_canonical(x);
    vstd::arithmetic::div_mod::lemma_small_mod(p as nat, crate::field::P as nat);
    assert(x + p == crate::field::pm() * c + (p - c)) by (nonlinear_arith)
        requires
            x == (neg_one() as int) * c,
            neg_one() as int == crate::field::pm() - 1,
    ;
    vstd::arithmetic::div_mod::lemma_mod_multiples_vanish(c as int, p - c, crate::field::pm());
    assert(fmod(x) as int * 1 + p * 1 == (x % crate::field::pm()) * 1 + (p as int % crate::field::pm()) * 1);
}

/// Removing `v_p` and then adding `v_n` gives the fraction `(v_p - v_n) / (v_p * v_n)`, that is
/// `-1 / v_p + 1 / v_n`.
pub proof fn lemma_remove_then_add(vp: QuadFelt, vn: QuadFelt)
    requires
        vp.wf(),
        vn.wf(),
    ensures
        batch_add(batch_remove(empty_batch(), vp), vn) == (q_sub(vp, vn), q_mul(vp, vn)),
{
    lemma_from_base_small();
    let zero = QuadFelt::spec_zero();
    let one = QuadFelt::spec_one();
    let nb = QuadFelt::spec_from_base(neg_one());
    lemma_fmod_canonical(0 - 1);
    lemma_fmod_of_canonical(neg_one());
    lemma_fmod_of_canonical(0);
    assert(nb.wf());
    lemma_q_mul_laws(vp, zero, one);
    lemma_q_mul_laws(zero, vp, one);
    lemma_q_mul_laws(nb, one, zero);
    lemma_q_mul_laws(one, nb, zero);
    lemma_q_mul_laws(vp, one, zero);
    lemma_q_mul_laws(one, vp, zero);
    lemma_q_add_laws(zero, nb, zero);
    lemma_q_add_laws(nb, zero, zero);
    assert(batch_remove(empty_batch(), vp) == (nb, vp));
    let t = q_mul(nb, vn);
    assert(t.c0 == fmod((neg_one() as int) * vn.c0)) by {
        assert((neg_one() as int) * vn.c0 + 7 * 0 * vn.c1 == (neg_one() as int) * vn.c0) by (nonlinear_arith);
    }
    assert(t.c1 == fmod((neg_one() as int) * vn.c1)) by {
        assert((neg_one() as int) * vn.c1 + 0 * vn.c0 == (neg_one() as int) * vn.c1) by (nonlinear_arith);
    }
    lemma_fmod_neg_add(vn.c0, vp.c0);
    lemma_fmod_neg_add(vn.c1, vp.c1);
    assert(q_add(t, vp) == q_sub(vp, vn));
}

} // verus!
