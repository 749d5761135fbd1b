//! LogUp rational-fraction algebra for bus constraint packing.
//!
//! 1. [`Batch`]: simultaneous interactions `(m_i, v_i)` normalized to one fraction `N / D`.
//! 2. [`RationalSet`]: mutually exclusive batches compressed to `V / U` by selector gating.
//! 3. [`Column`]: independent sets combined by clearing cross-denominators.
//!
//! The constraint of a column is `delta * U - V = 0` with `delta = acc_next - acc`.

use vstd::prelude::*;
use crate::challenges::{Challenges, spec_encode};
use crate::field::{
    P, QuadFelt, felt_add, felt_mul, felt_sub, fmod, is_canonical, lemma_fmod_canonical,
    lemma_fmod_of_canonical, lemma_q_add_laws, lemma_q_distrib, lemma_q_mul_laws,
    lemma_q_sub_add, lemma_q_wf, neg_one, q_add, q_mul, q_sub, qf_add, qf_mul, qf_sub,
};
use crate::logup_msg::LogUpMessage;

verus! {

// FRACTION ALGEBRA
// ================================================================================================

/// Adds the fraction `m / v` to the fraction `num / den`: `(num * v + den * m, den * v)`.
pub open spec fn frac_step(acc: (QuadFelt, QuadFelt), m: QuadFelt, v: QuadFelt) -> (
    QuadFelt,
    QuadFelt,
) {
    (q_add(q_mul(acc.0, v), q_mul(acc.1, m)), q_mul(acc.1, v))
}

/// The fraction built from `0 / 1` by adding `ms[i] / vs[i]` in order.
pub open spec fn frac_fold(ms: Seq<QuadFelt>, vs: Seq<QuadFelt>) -> (QuadFelt, QuadFelt)
    decreases vs.len(),
{
    if vs.len() == 0 || ms.len() == 0 {
        (QuadFelt::spec_zero(), QuadFelt::spec_one())
    } else {
        frac_step(frac_fold(ms.drop_last(), vs.drop_last()), ms.last(), vs.last())
    }
}

/// Product of all elements.
pub open spec fn q_prod(vs: Seq<QuadFelt>) -> QuadFelt
    decreases vs.len(),
{
    if vs.len() == 0 {
        QuadFelt::spec_one()
    } else {
        q_mul(q_prod(vs.drop_last()), vs.last())
    }
}

/// `sum_{i < k} ms[i] * prod_{j != i} vs[j]`.
pub open spec fn cross_sum(ms: Seq<QuadFelt>, vs: Seq<QuadFelt>, k: nat) -> QuadFelt
    decreases k,
{
    if k == 0 {
        QuadFelt::spec_zero()
    } else {
        q_add(
            cross_sum(ms, vs, (k - 1) as nat),
            q_mul(ms[k - 1], q_prod(vs.remove(k - 1))),
        )
    }
}

/// Every element is well formed.
pub open spec fn all_wf(s: Seq<QuadFelt>) -> bool {
    forall|i: int| 0 <= i < s.len() ==> (#[trigger] s[i]).wf()
}

/// A product of well-formed elements is well formed.
pub proof fn lemma_prod_wf(vs: Seq<QuadFelt>)
    requires
        all_wf(vs),
    ensures
        q_prod(vs).wf(),
    decreases vs.len(),
{
    if vs.len() > 0 {
        lemma_prod_wf(vs.drop_last());
        lemma_q_wf(q_prod(vs.drop_last()), vs.last());
    }
}

/// A cross sum of well-formed elements is well formed.
proof fn lemma_cross_sum_wf(ms: Seq<QuadFelt>, vs: Seq<QuadFelt>, k: nat)
    requires
        all_wf(ms),
        all_wf(vs),
        k <= ms.len(),
        k <= vs.len(),
    ensures
        cross_sum(ms, vs, k).wf(),
    decreases k,
{
    if k > 0 {
        lemma_cross_sum_wf(ms, vs, (k - 1) as nat);
        let r = vs.remove(k - 1);
        assert(all_wf(r));
        lemma_prod_wf(r);
        lemma_q_wf(ms[k - 1], q_prod(r));
        lemma_q_wf(cross_sum(ms, vs, (k - 1) as nat), q_mul(ms[k - 1], q_prod(r)));
    }
}

/// Appending one more factor `v` multiplies every term `ms[i] * prod_{j != i} vs[j]` with
/// `i < k` by `v`.
proof fn lemma_cross_sum_push(ms: Seq<QuadFelt>, vs: Seq<QuadFelt>, m: QuadFelt, v: QuadFelt, k: nat)
    requires
        all_wf(ms),
        all_wf(vs),
        m.wf(),
        v.wf(),
        ms.len() == vs.len(),
        k <= vs.len(),
    ensures
        cross_sum(ms.push(m), vs.push(v), k) == q_mul(cross_sum(ms, vs, k), v),
    decreases k,
{
    if k == 0 {
        lemma_q_mul_laws(v, QuadFelt::spec_zero(), QuadFelt::spec_zero());
    } else {
        let i = k - 1;
        lemma_cross_sum_push(ms, vs, m, v, (k - 1) as nat);
        assert(vs.push(v).remove(i) =~= vs.remove(i).push(v));
        assert(ms.push(m)[i] == ms[i]);
        let r = vs.remove(i);
        assert(all_wf(r));
        lemma_prod_wf(r);
        assert(r.push(v).drop_last() =~= r);
        // ms[i] * (prod(r) * v) == (ms[i] * prod(r)) * v
        lemma_q_mul_laws(ms[i], q_prod(r), v);
        let prev = cross_sum(ms, vs, (k - 1) as nat);
        lemma_cross_sum_wf(ms, vs, (k - 1) as nat);
        lemma_q_wf(ms[i], q_prod(r));
        let t = q_mul(ms[i], q_prod(r));
        // (prev + t) * v == prev * v + t * v
        lemma_q_distrib(v, prev, t);
        lemma_q_mul_laws(v, q_add(prev, t), QuadFelt::spec_one());
        lemma_q_mul_laws(v, prev, QuadFelt::spec_one());
        lemma_q_mul_laws(v, t, QuadFelt::spec_one());
    }
}

/// Fraction-sum law: adding `m_1 / v_1, .., m_k / v_k` one at a time to `0 / 1` gives
/// `D = prod_i v_i` and `N = sum_i m_i * prod_{j != i} v_j`.
pub proof fn lemma_frac_fold_closed_form(ms: Seq<QuadFelt>, vs: Seq<QuadFelt>)
    requires
        ms.len() == vs.len(),
        all_wf(ms),
        all_wf(vs),
    ensures
        frac_fold(ms, vs) == (cross_sum(ms, vs, vs.len()), q_prod(vs)),
    decreases vs.len(),
{
    if vs.len() > 0 {
        let k = (vs.len() - 1) as nat;
        let ms0 = ms.drop_last();
        let vs0 = vs.drop_last();
        assert(all_wf(ms0));
        assert(all_wf(vs0));
        lemma_frac_fold_closed_form(ms0, vs0);
        assert(ms0.push(ms.last()) =~= ms);
        assert(vs0.push(vs.last()) =~= vs);
        lemma_cross_sum_push(ms0, vs0, ms.last(), vs.last(), k);
        assert(vs.remove(k as int) =~= vs0);
        lemma_prod_wf(vs0);
        lemma_q_mul_laws(q_prod(vs0), ms.last(), QuadFelt::spec_one());
    }
}

// BATCH OF SIMULTANEOUS INTERACTIONS
// ================================================================================================

/// A batch of simultaneously active interactions, normalized to the fraction `N / D`.
///
/// Starts at `N = 0, D = 1`; each interaction `(m, v)` updates `N <- N * v + D * m` and
/// `D <- D * v`, where `v` is the encoded message.
pub struct Batch<'c> {
    challenges: &'c Challenges,
    n: QuadFelt,
    d: QuadFelt,
}

impl<'c> Batch<'c> {
    /// The numerator `N`.
    pub closed spec fn spec_n(&self) -> QuadFelt {
        self.n
    }

    /// The denominator `D`.
    pub closed spec fn spec_d(&self) -> QuadFelt {
        self.d
    }

    /// The challenges that messages are encoded with.
    pub closed spec fn spec_challenges(&self) -> Challenges {
        *self.challenges
    }

    /// The challenges and both halves of the fraction are well formed.
    pub closed spec fn wf(&self) -> bool {
        self.challenges.wf() && self.n.wf() && self.d.wf()
    }

    /// The empty batch: `N = 0, D = 1`.
    pub fn new(challenges: &'c Challenges) -> (r: Batch<'c>)
        requires
            challenges.wf(),
        ensures
            r.wf(),
            r.spec_challenges() == *challenges,
            r.spec_n() == QuadFelt::spec_zero(),
            r.spec_d() == QuadFelt::spec_one(),
    {
        Batch { challenges, n: QuadFelt::zero(), d: QuadFelt::one() }
    }

    /// Returns the numerator `N`.
    pub fn numerator(&self) -> (r: QuadFelt)
        ensures
            r == self.spec_n(),
    {
        self.n
    }

    /// Returns the denominator `D`.
    pub fn denominator(&self) -> (r: QuadFelt)
        ensures
            r == self.spec_d(),
    {
        self.d
    }

    /// Absorbs an interaction with multiplicity `m`: `N <- N * v + D * m`, `D <- D * v`.
    pub fn insert<M: LogUpMessage>(&mut self, m: u64, msg: M)
        requires
            old(self).wf(),
            is_canonical(m),
        ensures
            final(self).wf(),
            final(self).spec_challenges() == old(self).spec_challenges(),
            (final(self).spec_n(), final(self).spec_d()) == frac_step(
                (old(self).spec_n(), old(self).spec_d()),
                QuadFelt::spec_from_base(m),
                spec_encode(
                    old(self).spec_challenges().spec_alpha(),
                    old(self).spec_challenges().spec_beta(),
                    msg.spec_elements(),
                ),
            ),
    {
        let v = msg.encode_with(self.challenges);
        let d_prev = self.d;
        let mq = QuadFelt::from_base(m);
        proof {
            lemma_q_wf(self.n, v);
            lemma_q_wf(d_prev, mq);
            lemma_q_wf(q_mul(self.n, v), q_mul(d_prev, mq));
            lemma_q_wf(self.d, v);
        }
        self.n = qf_add(qf_mul(self.n, v), qf_mul(d_prev, mq));
        self.d = qf_mul(self.d, v);
    }

    /// Absorbs an insert interaction (multiplicity `+1`).
    pub fn add<M: LogUpMessage>(&mut self, msg: M)
        requires
            old(self).wf(),
        ensures
            final(self).wf(),
            final(self).spec_challenges() == old(self).spec_challenges(),
            (final(self).spec_n(), final(self).spec_d()) == frac_step(
                (old(self).spec_n(), old(self).spec_d()),
                QuadFelt::spec_from_base(1),
                spec_encode(
                    old(self).spec_challenges().spec_alpha(),
                    old(self).spec_challenges().spec_beta(),
                    msg.spec_elements(),
                ),
            ),
    {
        self.insert(1, msg)
    }

    /// Absorbs a remove interaction (multiplicity `-1`).
    pub fn remove<M: LogUpMessage>(&mut self, msg: M)
        requires
            old(self).wf(),
        ensures
            final(self).wf(),
            final(self).spec_challenges() == old(self).spec_challenges(),
            (final(self).spec_n(), final(self).spec_d()) == frac_step(
                (old(self).spec_n(), old(self).spec_d()),
                QuadFelt::spec_from_base(neg_one()),
                spec_encode(
                    old(self).spec_challenges().spec_alpha(),
                    old(self).spec_challenges().spec_beta(),
                    msg.spec_elements(),
                ),
            ),
    {
        self.insert(P - 1, msg)
    }
}

// SET OF MUTUALLY EXCLUSIVE BATCHES
// ================================================================================================

/// Adds a batch `(N, D)` gated by selector `s` to a set `(U, V)`:
/// `U <- U + (D - 1) * s`, `V <- V + N * s`.
pub open spec fn set_step(acc: (QuadFelt, QuadFelt), s: u64, nd: (QuadFelt, QuadFelt)) -> (
    QuadFelt,
    QuadFelt,
) {
    (
        q_add(acc.0, q_mul(q_sub(nd.1, QuadFelt::spec_one()), QuadFelt::spec_from_base(s))),
        q_add(acc.1, q_mul(nd.0, QuadFelt::spec_from_base(s))),
    )
}

/// The set built from `U = 1, V = 0` by adding batch `batches[i] = (N_i, D_i)` gated by `ss[i]`.
pub open spec fn set_fold(ss: Seq<u64>, batches: Seq<(QuadFelt, QuadFelt)>) -> (QuadFelt, QuadFelt)
    decreases batches.len(),
{
    if batches.len() == 0 || ss.len() == 0 {
        (QuadFelt::spec_one(), QuadFelt::spec_zero())
    } else {
        set_step(set_fold(ss.drop_last(), batches.drop_last()), ss.last(), batches.last())
    }
}

/// The fraction `(N, D)` of a batch holding the single interaction `m / v`.
pub open spec fn single_batch(m: u64, v: QuadFelt) -> (QuadFelt, QuadFelt) {
    frac_step((QuadFelt::spec_zero(), QuadFelt::spec_one()), QuadFelt::spec_from_base(m), v)
}

/// `sum_{i < k}` of the first components, taken in the field.
pub open spec fn flag_sum(entries: Seq<(u64, u64)>, k: nat) -> u64
    decreases k,
{
    if k == 0 {
        0
    } else {
        fmod(flag_sum(entries, (k - 1) as nat) + entries[k - 1].0)
    }
}

/// `sum_{i < k} flag_i * m_i`, taken in the field.
pub open spec fn weighted_flag_sum(entries: Seq<(u64, u64)>, k: nat) -> u64
    decreases k,
{
    if k == 0 {
        0
    } else {
        fmod(weighted_flag_sum(entries, (k - 1) as nat) + fmod(entries[k - 1].1 * entries[k - 1].0))
    }
}

/// Both components of every entry are canonical.
pub open spec fn entries_canonical(entries: Seq<(u64, u64)>) -> bool {
    forall|i: int| 0 <= i < entries.len() ==> is_canonical(#[trigger] entries[i].0) && is_canonical(
        entries[i].1,
    )
}

/// A set of mutually exclusive batches, compressed into the fraction `V / U`.
///
/// `U = 1 + sum_r s_r * (D_r - 1)` and `V = sum_r s_r * N_r`; with no selector active the set
/// contributes `0 / 1`, with selector `s_r = 1` it contributes `N_r / D_r`.
pub struct RationalSet<'c> {
    challenges: &'c Challenges,
    u: QuadFelt,
    v: QuadFelt,
}

impl<'c> RationalSet<'c> {
    /// The denominator `U`.
    pub closed spec fn spec_u(&self) -> QuadFelt {
        self.u
    }

    /// The numerator `V`.
    pub closed spec fn spec_v(&self) -> QuadFelt {
        self.v
    }

    /// The challenges that messages are encoded with.
    pub closed spec fn spec_challenges(&self) -> Challenges {
        *self.challenges
    }

    /// The challenges and both halves of the fraction are well formed.
    pub closed spec fn wf(&self) -> bool {
        self.challenges.wf() && self.u.wf() && self.v.wf()
    }

    /// The encoding of a message under this set's challenges.
    pub open spec fn spec_msg<M: LogUpMessage>(&self, msg: M) -> QuadFelt {
        spec_encode(
            self.spec_challenges().spec_alpha(),
            self.spec_challenges().spec_beta(),
            msg.spec_elements(),
        )
    }

    /// The empty set: `U = 1, V = 0`.
    pub fn new(challenges: &'c Challenges) -> (r: RationalSet<'c>)
        requires
            challenges.wf(),
        ensures
            r.wf(),
            r.spec_challenges() == *challenges,
            r.spec_u() == QuadFelt::spec_one(),
            r.spec_v() == QuadFelt::spec_zero(),
    {
        RationalSet { challenges, u: QuadFelt::one(), v: QuadFelt::zero() }
    }

    /// Returns the denominator `U`.
    pub fn denominator(&self) -> (r: QuadFelt)
        ensures
            r == self.spec_u(),
    {
        self.u
    }

    /// Returns the numerator `V`.
    pub fn numerator(&self) -> (r: QuadFelt)
        ensures
            r == self.spec_v(),
    {
        self.v
    }

    /// Adds `(v - 1) * gate` to `U`, where `v` encodes `msg`; returns the encoding.
    fn gate_denominator<M: LogUpMessage>(&mut self, gate: u64, msg: M) -> (enc: QuadFelt)
        requires
            old(self).wf(),
            is_canonical(gate),
        ensures
            final(self).wf(),
            final(self).spec_challenges() == old(self).spec_challenges(),
            final(self).spec_v() == old(self).spec_v(),
            enc == old(self).spec_msg(msg),
            final(self).spec_u() == q_add(
                old(self).spec_u(),
                q_mul(q_sub(enc, QuadFelt::spec_one()), QuadFelt::spec_from_base(gate)),
            ),
    {
        let v = msg.encode_with(self.challenges);
        let g = QuadFelt::from_base(gate);
        let one = QuadFelt::one();
        proof {
            lemma_q_wf(v, one);
            lemma_q_wf(q_sub(v, one), g);
            lemma_q_wf(self.u, q_mul(q_sub(v, one), g));
        }
        self.u = qf_add(self.u, qf_mul(qf_sub(v, one), g));
        v
    }

    /// Adds a selector-gated single insert interaction `+1 / v`.
    pub fn add_single<M: LogUpMessage>(&mut self, selector: u64, msg: M)
        requires
            old(self).wf(),
            is_canonical(selector),
        ensures
            final(self).wf(),
            final(self).spec_challenges() == old(self).spec_challenges(),
            final(self).spec_u() == q_add(
                old(self).spec_u(),
                q_mul(
                    q_sub(old(self).spec_msg(msg), QuadFelt::spec_one()),
                    QuadFelt::spec_from_base(selector),
                ),
            ),
            final(self).spec_v() == q_add(old(self).spec_v(), QuadFelt::spec_from_base(selector)),
    {
        self.gate_denominator(selector, msg);
        let s = QuadFelt::from_base(selector);
        proof {
            lemma_q_wf(self.v, s);
        }
        self.v = qf_add(self.v, s);
    }

    /// Adds a selector-gated single remove interaction `-1 / v`.
    pub fn remove_single<M: LogUpMessage>(&mut self, selector: u64, msg: M)
        requires
            old(self).wf(),
            is_canonical(selector),
        ensures
            final(self).wf(),
            final(self).spec_challenges() == old(self).spec_challenges(),
            final(self).spec_u() == q_add(
                old(self).spec_u(),
                q_mul(
                    q_sub(old(self).spec_msg(msg), QuadFelt::spec_one()),
                    QuadFelt::spec_from_base(selector),
                ),
            ),
            final(self).spec_v() == q_sub(old(self).spec_v(), QuadFelt::spec_from_base(selector)),
    {
        self.gate_denominator(selector, msg);
        let s = QuadFelt::from_base(selector);
        proof {
            lemma_q_wf(self.v, s);
        }
        self.v = qf_sub(self.v, s);
    }

    /// Adds a selector-gated single interaction with multiplicity `m`: `m / v`.
    pub fn insert_single<M: LogUpMessage>(&mut self, selector: u64, m: u64, msg: M)
        requires
            old(self).wf(),
            is_canonical(selector),
            is_canonical(m),
        ensures
            final(self).wf(),
            final(self).spec_challenges() == old(self).spec_challenges(),
            final(self).spec_u() == q_add(
                old(self).spec_u(),
                q_mul(
                    q_sub(old(self).spec_msg(msg), QuadFelt::spec_one()),
                    QuadFelt::spec_from_base(selector),
                ),
            ),
            final(self).spec_v() == q_add(
                old(self).spec_v(),
                QuadFelt::spec_from_base(fmod(selector * m)),
            ),
    {
        self.gate_denominator(selector, msg);
        let sm = felt_mul(selector, m);
        proof {
            lemma_fmod_canonical(selector * m);
        }
        let t = QuadFelt::from_base(sm);
        proof {
            lemma_q_wf(self.v, t);
        }
        self.v = qf_add(self.v, t);
    }

    /// Accumulates a shared-denominator interaction from several mutually exclusive flags with
    /// their multiplicities: `U` is gated by `sum flag_i`, `V` grows by `sum m_i * flag_i`.
    pub fn insert_me<M: LogUpMessage>(&mut self, entries: &[(u64, u64)], msg: M)
        requires
            old(self).wf(),
            entries@.len() > 0,
            entries_canonical(entries@),
        ensures
            final(self).wf(),
            final(self).spec_challenges() == old(self).spec_challenges(),
            final(self).spec_u() == q_add(
                old(self).spec_u(),
                q_mul(
                    q_sub(old(self).spec_msg(msg), QuadFelt::spec_one()),
                    QuadFelt::spec_from_base(flag_sum(entries@, entries@.len())),
                ),
            ),
            final(self).spec_v() == q_add(
                old(self).spec_v(),
                QuadFelt::spec_from_base(weighted_flag_sum(entries@, entries@.len())),
            ),
    {
        let mut gate: u64 = 0;
        let mut numerator: u64 = 0;
        let mut i: usize = 0;
        while i < entries.len()
            invariant
                i <= entries@.len(),
                entries_canonical(entries@),
                gate == flag_sum(entries@, i as nat),
                numerator == weighted_flag_sum(entries@, i as nat),
                is_canonical(gate),
                is_canonical(numerator),
            decreases entries@.len() - i,
        {
            let (flag, m) = entries[i];
            assert(is_canonical(entries@[i as int].0) && is_canonical(entries@[i as int].1));
            let mf = felt_mul(m, flag);
            proof {
                lemma_fmod_canonical(m * flag);
                lemma_fmod_canonical(gate + flag);
                lemma_fmod_canonical(numerator + mf);
            }
            gate = felt_add(gate, flag);
            numerator = felt_add(numerator, mf);
            i = i + 1;
        }
        self.gate_denominator(gate, msg);
        let t = QuadFelt::from_base(numerator);
        proof {
            lemma_q_wf(self.v, t);
        }
        self.v = qf_add(self.v, t);
    }

    /// The virtual-table pattern: `+1 / v` when `f_add = 1`, `-1 / v` when `f_remove = 1`; `U` is
    /// gated by `f_add + f_remove`, `V` grows by `f_add - f_remove`.
    pub fn replace<M: LogUpMessage>(&mut self, f_add: u64, f_remove: u64, msg: M)
        requires
            old(self).wf(),
            is_canonical(f_add),
            is_canonical(f_remove),
        ensures
            final(self).wf(),
            final(self).spec_challenges() == old(self).spec_challenges(),
            final(self).spec_u() == q_add(
                old(self).spec_u(),
                q_mul(
                    q_sub(old(self).spec_msg(msg), QuadFelt::spec_one()),
                    QuadFelt::spec_from_base(fmod(f_add + f_remove)),
                ),
            ),
            final(self).spec_v() == q_add(
                old(self).spec_v(),
                QuadFelt::spec_from_base(fmod(f_add - f_remove)),
            ),
    {
        let gate = felt_add(f_add, f_remove);
        let numerator = felt_sub(f_add, f_remove);
        proof {
            lemma_fmod_canonical(f_add + f_remove);
            lemma_fmod_canonical(f_add - f_remove);
        }
        self.gate_denominator(gate, msg);
        let t = QuadFelt::from_base(numerator);
        proof {
            lemma_q_wf(self.v, t);
        }
        self.v = qf_add(self.v, t);
    }

    /// Adds a selector-gated batch of simultaneous interactions `(N, D)`:
    /// `U <- U + (D - 1) * s`, `V <- V + N * s`.
    pub fn add_batch(&mut self, selector: u64, batch: Batch)
        requires
            old(self).wf(),
            batch.wf(),
            batch.spec_challenges() == old(self).spec_challenges(),
            is_canonical(selector),
        ensures
            final(self).wf(),
            final(self).spec_challenges() == old(self).spec_challenges(),
            (final(self).spec_u(), final(self).spec_v()) == set_step(
                (old(self).spec_u(), old(self).spec_v()),
                selector,
                (batch.spec_n(), batch.spec_d()),
            ),
    {
        let s = QuadFelt::from_base(selector);
        let one = QuadFelt::one();
        let d = batch.denominator();
        let n = batch.numerator();
        proof {
            lemma_q_wf(d, one);
            lemma_q_wf(q_sub(d, one), s);
            lemma_q_wf(self.u, q_mul(q_sub(d, one), s));
            lemma_q_wf(n, s);
            lemma_q_wf(self.v, q_mul(n, s));
        }
        self.u = qf_add(self.u, qf_mul(qf_sub(d, one), s));
        self.v = qf_add(self.v, qf_mul(n, s));
    }

    /// A set holding one always-active batch: `U = D`, `V = N`.
    pub fn always(challenges: &'c Challenges, batch: Batch) -> (r: RationalSet<'c>)
        requires
            challenges.wf(),
            batch.wf(),
            batch.spec_challenges() == *challenges,
        ensures
            r.wf(),
            r.spec_challenges() == *challenges,
            r.spec_u() == batch.spec_d(),
            r.spec_v() == batch.spec_n(),
    {
        RationalSet { challenges, u: batch.denominator(), v: batch.numerator() }
    }
}

/// `from_base(0)` is zero and `from_base(1)` is one.
pub proof fn lemma_from_base_small()
    ensures
        QuadFelt::spec_from_base(0) == QuadFelt::spec_zero(),
        QuadFelt::spec_from_base(1) == QuadFelt::spec_one(),
{
    lemma_fmod_of_canonical(0);
    lemma_fmod_of_canonical(1);
}

/// A batch gated by selector 0 leaves a well-formed set unchanged.
pub proof fn lemma_set_step_inactive(acc: (QuadFelt, QuadFelt), nd: (QuadFelt, QuadFelt))
    requires
        acc.0.wf(),
        acc.1.wf(),
        nd.0.wf(),
        nd.1.wf(),
    ensures
        set_step(acc, 0, nd) == acc,
{
    lemma_from_base_small();
    lemma_q_wf(nd.1, QuadFelt::spec_one());
    lemma_q_mul_laws(q_sub(nd.1, QuadFelt::spec_one()), QuadFelt::spec_zero(), QuadFelt::spec_zero());
    lemma_q_mul_laws(nd.0, QuadFelt::spec_zero(), QuadFelt::spec_zero());
    lemma_q_add_laws(acc.0, QuadFelt::spec_zero(), QuadFelt::spec_zero());
    lemma_q_add_laws(acc.1, QuadFelt::spec_zero(), QuadFelt::spec_zero());
}

/// A batch gated by selector 1 turns the empty set into that batch's fraction.
pub proof fn lemma_set_step_active(nd: (QuadFelt, QuadFelt))
    requires
        nd.0.wf(),
        nd.1.wf(),
    ensures
        set_step((QuadFelt::spec_one(), QuadFelt::spec_zero()), 1, nd) == (nd.1, nd.0),
{
    lemma_from_base_small();
    let one = QuadFelt::spec_one();
    let zero = QuadFelt::spec_zero();
    lemma_q_wf(nd.1, one);
    lemma_q_mul_laws(q_sub(nd.1, one), one, zero);
    lemma_q_mul_laws(nd.0, one, zero);
    lemma_q_add_laws(one, q_sub(nd.1, one), zero);
    lemma_q_sub_add(nd.1, one);
    lemma_q_add_laws(zero, nd.0, zero);
    lemma_q_add_laws(nd.0, zero, zero);
}

/// A set that always holds a batch is the empty set with that batch added under selector 1:
/// `RationalSet::always(ch, b)` equals `RationalSet::new(ch)` followed by `add_batch(1, b)`.
pub proof fn lemma_always_is_active_batch(batch: Batch)
    requires
        batch.wf(),
    ensures
        set_step((QuadFelt::spec_one(), QuadFelt::spec_zero()), 1, (batch.spec_n(), batch.spec_d()))
            == (batch.spec_d(), batch.spec_n()),
{
    lemma_set_step_active((batch.n, batch.d));
}

/// Every selector is 0 or 1 and at most one is 1.
pub open spec fn selectors_exclusive(ss: Seq<u64>) -> bool {
    &&& forall|i: int| 0 <= i < ss.len() ==> #[trigger] ss[i] == 0 || ss[i] == 1
    &&& forall|i: int, j: int|
        0 <= i < ss.len() && 0 <= j < ss.len() && i != j ==> !(#[trigger] ss[i] == 1 && #[trigger] ss[j]
            == 1)
}

/// Every batch fraction is well formed.
pub open spec fn batches_wf(batches: Seq<(QuadFelt, QuadFelt)>) -> bool {
    forall|i: int| 0 <= i < batches.len() ==> (#[trigger] batches[i]).0.wf() && batches[i].1.wf()
}

/// Selector gating law: when the selectors are mutually exclusive booleans, a set of batches
/// contributes `0 / 1` if no selector is active, and exactly the active batch's `N_r / D_r`
/// (as `U = D_r`, `V = N_r`) if selector `r` is active.
pub proof fn lemma_set_mutually_exclusive(ss: Seq<u64>, batches: Seq<(QuadFelt, QuadFelt)>)
    requires
        ss.len() == batches.len(),
        selectors_exclusive(ss),
        batches_wf(batches),
    ensures
        (forall|i: int| 0 <= i < ss.len() ==> #[trigger] ss[i] == 0) ==> set_fold(ss, batches) == (
            QuadFelt::spec_one(),
            QuadFelt::spec_zero(),
        ),
        forall|r: int|
            0 <= r < ss.len() && #[trigger] ss[r] == 1 ==> set_fold(ss, batches) == (
                batches[r].1,
                batches[r].0,
            ),
    decreases ss.len(),
{
    if ss.len() > 0 {
        let k = ss.len() - 1;
        let ss0 = ss.drop_last();
        let b0 = batches.drop_last();
        assert(selectors_exclusive(ss0)) by {
            assert forall|i: int, j: int|
                0 <= i < ss0.len() && 0 <= j < ss0.len() && i != j implies !(#[trigger] ss0[i] == 1
                && #[trigger] ss0[j] == 1) by {
                assert(ss0[i] == ss[i] && ss0[j] == ss[j]);
            }
        }
        assert(batches_wf(b0));
        lemma_set_mutually_exclusive(ss0, b0);
        let prev = set_fold(ss0, b0);
        let last = batches[k];
        assert(last.0.wf() && last.1.wf());
        lemma_q_wf(QuadFelt::spec_one(), QuadFelt::spec_one());
        if ss[k] == 1 {
            assert forall|i: int| 0 <= i < ss0.len() implies #[trigger] ss0[i] == 0 by {
                assert(ss0[i] == ss[i]);
                assert(!(ss[i] == 1 && ss[k] == 1));
            }
            assert(prev == (QuadFelt::spec_one(), QuadFelt::spec_zero()));
            lemma_set_step_active(last);
        } else {
            assert(ss[k] == 0);
            if exists|r: int| 0 <= r < ss0.len() && #[trigger] ss0[r] == 1 {
                let r = choose|r: int| 0 <= r < ss0.len() && #[trigger] ss0[r] == 1;
                assert(prev == (b0[r].1, b0[r].0));
                assert(b0[r].0.wf() && b0[r].1.wf());
                lemma_set_step_inactive(prev, last);
                assert forall|r2: int| 0 <= r2 < ss.len() && #[trigger] ss[r2] == 1 implies r2 == r by {
                    assert(ss0[r] == ss[r]);
                }
            } else {
                assert forall|i: int| 0 <= i < ss0.len() implies #[trigger] ss0[i] == 0 by {
                    assert(ss0[i] == 0 || ss0[i] == 1);
                }
                lemma_from_base_small();
                lemma_set_step_inactive((QuadFelt::spec_one(), QuadFelt::spec_zero()), last);
                assert forall|r2: int| 0 <= r2 < ss.len() implies #[trigger] ss[r2] != 1 by {
                    if r2 < k {
                        assert(ss0[r2] == ss[r2]);
                    }
                }
            }
        }
    }
}

/// A gated single interaction is the gated one-interaction batch: `add_single` adds the batch
/// `1 / v`, `remove_single` the batch `-1 / v`, `insert_single` the batch `m / v`.
pub proof fn lemma_single_is_batch(acc: (QuadFelt, QuadFelt), s: u64, m: u64, v: QuadFelt)
    requires
        acc.0.wf(),
        acc.1.wf(),
        v.wf(),
        is_canonical(s),
        is_canonical(m),
    ensures
        single_batch(m, v) == (QuadFelt::spec_from_base(m), v),
        set_step(acc, s, single_batch(m, v)) == (
            q_add(
                acc.0,
                q_mul(q_sub(v, QuadFelt::spec_one()), QuadFelt::spec_from_base(s)),
            ),
            q_add(acc.1, QuadFelt::spec_from_base(fmod(s * m))),
        ),
        set_step(acc, s, single_batch(1, v)).1 == q_add(acc.1, QuadFelt::spec_from_base(s)),
{
    let zero = QuadFelt::spec_zero();
    let one = QuadFelt::spec_one();
    let mb = QuadFelt::spec_from_base(m);
    let sb = QuadFelt::spec_from_base(s);
    lemma_fmod_of_canonical(m);
    lemma_fmod_of_canonical(s);
    lemma_q_mul_laws(zero, v, zero);
    lemma_q_mul_laws(v, zero, zero);
    lemma_q_mul_laws(one, mb, zero);
    lemma_q_mul_laws(mb, one, zero);
    lemma_q_mul_laws(one, v, zero);
    lemma_q_mul_laws(v, one, zero);
    lemma_q_add_laws(zero, mb, zero);
    lemma_q_add_laws(mb, zero, zero);
    // mb * sb is the embedding of s * m
    lemma_fmod_canonical(m * s);
    lemma_fmod_canonical(s * m);
    assert(m * s == s * m) by (nonlinear_arith);
    assert(m * 0 + 7 * 0 * 0 == 0 && m * 0 + 0 * s == 0) by (nonlinear_arith);
    assert(m * s + 7 * 0 * 0 == s * m) by (nonlinear_arith);
    vstd::arithmetic::div_mod::lemma_small_mod(0, P as nat);
    lemma_from_base_small();
    lemma_q_mul_laws(QuadFelt::spec_from_base(1), sb, zero);
    lemma_q_mul_laws(sb, one, zero);
}

// COLUMN ACCUMULATOR
// ================================================================================================

/// The three constraints of a column: `acc` on the first row, `delta * U - V` on transitions, and
/// `acc` on the last row.
#[derive(Debug, Clone, Copy, PartialEq, Eq, Structural)]
pub struct ColumnConstraints {
    pub first_row: QuadFelt,
    pub transition: QuadFelt,
    pub last_row: QuadFelt,
}

/// A column accumulator combining independent sets `(U_g, V_g)` into `U = prod U_g` and
/// `V = sum_g V_g * prod_{h != g} U_h`, bound to the accumulator values `acc` and `acc_next`.
pub struct Column {
    acc: QuadFelt,
    acc_next: QuadFelt,
    u: QuadFelt,
    v: QuadFelt,
}

impl Column {
    /// The accumulator value on the current row.
    pub closed spec fn spec_acc(&self) -> QuadFelt {
        self.acc
    }

    /// The accumulator value on the next row.
    pub closed spec fn spec_acc_next(&self) -> QuadFelt {
        self.acc_next
    }

    /// The denominator `U`.
    pub closed spec fn spec_u(&self) -> QuadFelt {
        self.u
    }

    /// The numerator `V`.
    pub closed spec fn spec_v(&self) -> QuadFelt {
        self.v
    }

    /// All four values are well formed.
    pub closed spec fn wf(&self) -> bool {
        self.acc.wf() && self.acc_next.wf() && self.u.wf() && self.v.wf()
    }

    /// Creates a column bound to accumulator values, holding exactly one set.
    pub fn from_set(acc: QuadFelt, acc_next: QuadFelt, set: RationalSet) -> (r: Column)
        requires
            acc.wf(),
            acc_next.wf(),
            set.wf(),
        ensures
            r.wf(),
            r.spec_acc() == acc,
            r.spec_acc_next() == acc_next,
            r.spec_u() == set.spec_u(),
            r.spec_v() == set.spec_v(),
    {
        Column { acc, acc_next, u: set.denominator(), v: set.numerator() }
    }

    /// Creates a column with zero accumulator values from a single set.
    pub fn from_set_unbound(set: RationalSet) -> (r: Column)
        requires
            set.wf(),
        ensures
            r.wf(),
            r.spec_acc() == QuadFelt::spec_zero(),
            r.spec_acc_next() == QuadFelt::spec_zero(),
            r.spec_u() == set.spec_u(),
            r.spec_v() == set.spec_v(),
    {
        Column { acc: QuadFelt::zero(), acc_next: QuadFelt::zero(), u: set.denominator(), v: set.numerator() }
    }

    /// Returns the denominator `U`.
    pub fn denominator(&self) -> (r: QuadFelt)
        ensures
            r == self.spec_u(),
    {
        self.u
    }

    /// Returns the numerator `V`.
    pub fn numerator(&self) -> (r: QuadFelt)
        ensures
            r == self.spec_v(),
    {
        self.v
    }

    /// Adds an independent set: `V <- V * U_s + V_s * U`, `U <- U * U_s`.
    pub fn add_set(&mut self, set: RationalSet)
        requires
            old(self).wf(),
            set.wf(),
        ensures
            final(self).wf(),
            final(self).spec_acc() == old(self).spec_acc(),
            final(self).spec_acc_next() == old(self).spec_acc_next(),
            final(self).spec_v() == q_add(
                q_mul(old(self).spec_v(), set.spec_u()),
                q_mul(set.spec_v(), old(self).spec_u()),
            ),
            final(self).spec_u() == q_mul(old(self).spec_u(), set.spec_u()),
    {
        let su = set.denominator();
        let sv = set.numerator();
        proof {
            lemma_q_wf(self.v, su);
            lemma_q_wf(sv, self.u);
            lemma_q_wf(q_mul(self.v, su), q_mul(sv, self.u));
            lemma_q_wf(self.u, su);
        }
        self.v = qf_add(qf_mul(self.v, su), qf_mul(sv, self.u));
        self.u = qf_mul(self.u, su);
    }

    /// Returns the constraint expression `delta * U - V`.
    pub fn constraint(&self, delta: QuadFelt) -> (r: QuadFelt)
        requires
            self.wf(),
            delta.wf(),
        ensures
            r == q_sub(q_mul(delta, self.spec_u()), self.spec_v()),
    {
        proof {
            lemma_q_wf(delta, self.u);
        }
        qf_sub(qf_mul(delta, self.u), self.v)
    }

    /// Evaluates the constraints of this column: `acc` on the first row, `delta * U - V` with
    /// `delta = acc_next - acc` on transitions, and `acc` on the last row.
    pub fn constrain(self) -> (r: ColumnConstraints)
        requires
            self.wf(),
        ensures
            r.first_row == self.spec_acc(),
            r.transition == q_sub(
                q_mul(q_sub(self.spec_acc_next(), self.spec_acc()), self.spec_u()),
                self.spec_v(),
            ),
            r.last_row == self.spec_acc(),
    {
        let delta = qf_sub(self.acc_next, self.acc);
        proof {
            lemma_q_wf(self.acc_next, self.acc);
        }
        let transition = self.constraint(delta);
        ColumnConstraints { first_row: self.acc, transition, last_row: self.acc }
    }
}

/// Adding a set to a column is adding the fraction `V_s / U_s` to the fraction `V / U`, so a
/// column built from sets `(U_g, V_g)` has `U = prod_g U_g` and
/// `V = sum_g V_g * prod_{h != g} U_h`.
pub proof fn lemma_column_is_fraction_sum(
    acc: (QuadFelt, QuadFelt),
    set_u: QuadFelt,
    set_v: QuadFelt,
    us: Seq<QuadFelt>,
    vs: Seq<QuadFelt>,
)
    requires
        acc.0.wf(),
        acc.1.wf(),
        set_u.wf(),
        set_v.wf(),
        us.len() == vs.len(),
        all_wf(us),
        all_wf(vs),
    ensures
        frac_step(acc, set_v, set_u) == (
            q_add(q_mul(acc.0, set_u), q_mul(set_v, acc.1)),
            q_mul(acc.1, set_u),
        ),
        frac_fold(vs, us) == (cross_sum(vs, us, us.len()), q_prod(us)),
{
    lemma_q_mul_laws(acc.1, set_v, set_v);
    lemma_frac_fold_closed_form(vs, us);
}

/// The transition constraint vanishes exactly when `delta * U == V`.
pub proof fn lemma_constraint_zero(delta: QuadFelt, u: QuadFelt, v: QuadFelt)
    requires
        delta.wf(),
        u.wf(),
        v.wf(),
    ensures
        q_sub(q_mul(delta, u), v) == QuadFelt::spec_zero() <==> q_mul(delta, u) == v,
{
    lemma_q_wf(delta, u);
    let x = q_mul(delta, u);
    lemma_q_sub_add(x, v);
    lemma_q_add_laws(QuadFelt::spec_zero(), v, v);
    lemma_q_add_laws(v, QuadFelt::spec_zero(), v);
    lemma_q_sub_add(v, v);
}

} // verus!
