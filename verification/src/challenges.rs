//! Verifier challenges of the auxiliary trace and the encoding of bus messages into reduced
//! denominators `alpha + sum_i beta^i * elem_i`.

use vstd::prelude::*;
use crate::field::{
    P, QuadFelt, fmod, lemma_fmod_canonical, lemma_q_wf, q_add, q_mul, qf_add,
    qf_mul,
};

verus! {

/// Maximum number of elements in one bus message.
pub const MAX_MESSAGE_WIDTH: usize = 16;

/// `beta^i` in the extension field.
pub open spec fn q_pow(beta: QuadFelt, i: nat) -> QuadFelt
    decreases i,
{
    if i == 0 {
        QuadFelt::spec_one()
    } else {
        q_mul(q_pow(beta, (i - 1) as nat), beta)
    }
}

/// `sum_{i < k} beta^i * elems[i]`, each element taken modulo `P`.
pub open spec fn encode_sum(beta: QuadFelt, elems: Seq<u64>, k: nat) -> QuadFelt
    decreases k,
{
    if k == 0 {
        QuadFelt::spec_zero()
    } else {
        q_add(
            encode_sum(beta, elems, (k - 1) as nat),
            q_mul(q_pow(beta, (k - 1) as nat), QuadFelt::spec_from_base(elems[k - 1])),
        )
    }
}

/// The reduced denominator of a message: `alpha + sum_i beta^i * elems[i]`.
pub open spec fn spec_encode(alpha: QuadFelt, beta: QuadFelt, elems: Seq<u64>) -> QuadFelt {
    q_add(alpha, encode_sum(beta, elems, elems.len()))
}

/// Powers of `beta` stay well formed.
pub proof fn lemma_q_pow_wf(beta: QuadFelt, i: nat)
    requires
        beta.wf(),
    ensures
        q_pow(beta, i).wf(),
    decreases i,
{
    if i > 0 {
        lemma_q_pow_wf(beta, (i - 1) as nat);
        lemma_q_wf(q_pow(beta, (i - 1) as nat), beta);
    }
}

/// The random challenges `alpha` and `beta`, with the powers `beta^0 .. beta^15` precomputed.
pub struct Challenges {
    alpha: QuadFelt,
    beta: QuadFelt,
    beta_powers: Vec<QuadFelt>,
}

impl Challenges {
    /// The challenge `alpha`.
    pub closed spec fn spec_alpha(&self) -> QuadFelt {
        self.alpha
    }

    /// The challenge `beta`.
    pub closed spec fn spec_beta(&self) -> QuadFelt {
        self.beta
    }

    /// Both challenges are well formed and the powers of `beta` are precomputed.
    pub closed spec fn wf(&self) -> bool {
        &&& self.alpha.wf()
        &&& self.beta.wf()
        &&& self.beta_powers@.len() == MAX_MESSAGE_WIDTH
        &&& forall|i: int|
            0 <= i < MAX_MESSAGE_WIDTH ==> #[trigger] self.beta_powers@[i] == q_pow(
                self.beta,
                i as nat,
            )
    }

    /// Creates the challenges from `alpha` and `beta`.
    pub fn new(alpha: QuadFelt, beta: QuadFelt) -> (r: Challenges)
        requires
            alpha.wf(),
            beta.wf(),
        ensures
            r.wf(),
            r.spec_alpha() == alpha,
            r.spec_beta() == beta,
    {
        let mut beta_powers: Vec<QuadFelt> = Vec::new();
        let mut power = QuadFelt::one();
        let mut i: usize = 0;
        while i < MAX_MESSAGE_WIDTH
            invariant
                beta.wf(),
                i <= MAX_MESSAGE_WIDTH,
                beta_powers@.len() == i,
                power == q_pow(beta, i as nat),
                forall|j: int| 0 <= j < i ==> #[trigger] beta_powers@[j] == q_pow(beta, j as nat),
            decreases MAX_MESSAGE_WIDTH - i,
        {
            proof {
                lemma_q_pow_wf(beta, i as nat);
            }
            beta_powers.push(power);
            power = qf_mul(power, beta);
            i = i + 1;
        }
        Challenges { alpha, beta, beta_powers }
    }

    /// Encodes a message of at most 16 elements as `alpha + sum_i beta^i * elems[i]`.
    pub fn encode(&self, elems: &[u64]) -> (r: QuadFelt)
        requires
            self.wf(),
            elems@.len() <= MAX_MESSAGE_WIDTH,
        ensures
            r == spec_encode(self.spec_alpha(), self.spec_beta(), elems@),
            r.wf(),
    {
        let mut sum = QuadFelt::zero();
        let mut i: usize = 0;
        while i < elems.len()
            invariant
                self.wf(),
                elems@.len() <= MAX_MESSAGE_WIDTH,
                i <= elems@.len(),
                sum == encode_sum(self.beta, elems@, i as nat),
                sum.wf(),
            decreases elems@.len() - i,
        {
            let e = elems[i] % P;
            proof {
                lemma_fmod_canonical(elems@[i as int] as int);
                lemma_q_pow_wf(self.beta, i as nat);
                assert(fmod(e as int) == fmod(elems@[i as int] as int)) by {
                    lemma_fmod_canonical(elems@[i as int] as int);
                }
            }
            let term = qf_mul(self.beta_powers[i], QuadFelt::from_base(e));
            proof {
                lemma_q_wf(self.beta_powers@[i as int], QuadFelt::spec_from_base(e));
                lemma_q_wf(sum, term);
            }
            sum = qf_add(sum, term);
            i = i + 1;
        }
        proof {
            lemma_q_wf(self.alpha, sum);
        }
        qf_add(self.alpha, sum)
    }
}

} // verus!
