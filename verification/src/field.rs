//! Goldilocks field elements (`Felt`) held as canonical `u64` values, elements of its quadratic
//! extension `F[x] / (x^2 - 7)` (`QuadFelt`), and words of four base-field elements.
//!
//! The arithmetic itself is done by miden-crypto's `Felt` and Plonky3's binomial extension field;
//! the functions here state what each operation computes, as integers modulo `P`.

use vstd::prelude::*;
use vstd::arithmetic::div_mod::{
    lemma_add_mod_noop, lemma_mul_mod_noop_left, lemma_small_mod, lemma_mod_bound, lemma_mod_twice,
};
use miden_crypto::field::{BasedVectorSpace, BinomialExtensionField, Field};
use miden_crypto::Felt;

verus! {

/// The Goldilocks prime `2^64 - 2^32 + 1`, the order of the base field.
pub const P: u64 = 0xffff_ffff_0000_0001;

/// `P` as an integer.
pub open spec fn pm() -> int {
    P as int
}

/// Reduction of an integer to its canonical representative modulo `P`.
pub open spec fn fmod(x: int) -> u64 {
    (x % pm()) as u64
}

/// Whether a `u64` is the canonical representative of a field element.
pub open spec fn is_canonical(x: u64) -> bool {
    x < P
}

// BASE FIELD
// ================================================================================================

/// Adds two base-field elements with miden-crypto's `Felt`; the claim is that the result is the
/// canonical value of `a + b` modulo `P`.
#[verifier::external_body]
pub(crate) fn felt_add(a: u64, b: u64) -> (r: u64)
    requires
        is_canonical(a),
        is_canonical(b),
    ensures
        r == fmod(a + b),
{
    (Felt::new(a) + Felt::new(b)).as_canonical_u64()
}

/// Subtracts two base-field elements with miden-crypto's `Felt`; the claim is that the result
/// is the canonical value of `a - b` modulo `P`.
#[verifier::external_body]
pub(crate) fn felt_sub(a: u64, b: u64) -> (r: u64)
    requires
        is_canonical(a),
        is_canonical(b),
    ensures
        r == fmod(a - b),
{
    (Felt::new(a) - Felt::new(b)).as_canonical_u64()
}

/// Multiplies two base-field elements with miden-crypto's `Felt`; the claim is that the result
/// is the canonical value of `a * b` modulo `P`.
#[verifier::external_body]
pub(crate) fn felt_mul(a: u64, b: u64) -> (r: u64)
    requires
        is_canonical(a),
        is_canonical(b),
    ensures
        r == fmod(a * b),
{
    (Felt::new(a) * Felt::new(b)).as_canonical_u64()
}

/// The base-field element `-1`.
pub open spec fn neg_one() -> u64 {
    (P - 1) as u64
}

// QUADRATIC EXTENSION
// ================================================================================================

/// An element `c0 + c1 * x` of the quadratic extension `F[x] / (x^2 - 7)`.
#[derive(Debug, Clone, Copy, PartialEq, Eq, Structural)]
pub struct QuadFelt {
    pub c0: u64,
    pub c1: u64,
}

impl QuadFelt {
    /// Both coefficients are canonical.
    pub open spec fn wf(self) -> bool {
        is_canonical(self.c0) && is_canonical(self.c1)
    }

    /// The zero element.
    pub open spec fn spec_zero() -> QuadFelt {
        QuadFelt { c0: 0, c1: 0 }
    }

    /// The unit element.
    pub open spec fn spec_one() -> QuadFelt {
        QuadFelt { c0: 1, c1: 0 }
    }

    /// A base-field element embedded in the extension.
    pub open spec fn spec_from_base(e: u64) -> QuadFelt {
        QuadFelt { c0: fmod(e as int), c1: 0 }
    }

    /// Returns the zero element.
    pub fn zero() -> (r: QuadFelt)
        ensures
            r == Self::spec_zero(),
    {
        QuadFelt { c0: 0, c1: 0 }
    }

    /// Returns the unit element.
    pub fn one() -> (r: QuadFelt)
        ensures
            r == Self::spec_one(),
    {
        QuadFelt { c0: 1, c1: 0 }
    }

    /// Embeds a canonical base-field element in the extension.
    pub fn from_base(e: u64) -> (r: QuadFelt)
        requires
            is_canonical(e),
        ensures
            r == Self::spec_from_base(e),
    {
        proof {
            lemma_small_mod(e as nat, P as nat);
        }
        QuadFelt { c0: e, c1: 0 }
    }

    /// Returns the multiplicative inverse, or `None` for zero.
    pub fn inverse(&self) -> (r: Option<QuadFelt>)
        requires
            self.wf(),
        ensures
            *self == Self::spec_zero() <==> r is None,
            r matches Some(inv) ==> inv.wf() && q_mul(*self, inv) == Self::spec_one(),
    {
        qf_inverse(*self)
    }
}

/// Sum in the extension.
pub open spec fn q_add(a: QuadFelt, b: QuadFelt) -> QuadFelt {
    QuadFelt { c0: fmod(a.c0 + b.c0), c1: fmod(a.c1 + b.c1) }
}

/// Difference in the extension.
pub open spec fn q_sub(a: QuadFelt, b: QuadFelt) -> QuadFelt {
    QuadFelt { c0: fmod(a.c0 - b.c0), c1: fmod(a.c1 - b.c1) }
}

/// Product in the extension, using `x^2 = 7`.
pub open spec fn q_mul(a: QuadFelt, b: QuadFelt) -> QuadFelt {
    QuadFelt { c0: fmod(a.c0 * b.c0 + 7 * a.c1 * b.c1), c1: fmod(a.c0 * b.c1 + a.c1 * b.c0) }
}

/// Adds two extension elements with Plonky3's `BinomialExtensionField<Felt, 2>`; the claim is
/// coefficient-wise addition modulo `P`.
#[verifier::external_body]
pub(crate) fn qf_add(a: QuadFelt, b: QuadFelt) -> (r: QuadFelt)
    requires
        a.wf(),
        b.wf(),
    ensures
        r == q_add(a, b),
{
    let x = BinomialExtensionField::<Felt, 2>::new([Felt::new(a.c0), Felt::new(a.c1)]);
    let y = BinomialExtensionField::<Felt, 2>::new([Felt::new(b.c0), Felt::new(b.c1)]);
    let z = x + y;
    let c: &[Felt] = z.as_basis_coefficients_slice();
    QuadFelt { c0: c[0].as_canonical_u64(), c1: c[1].as_canonical_u64() }
}

/// Subtracts two extension elements with Plonky3's `BinomialExtensionField<Felt, 2>`; the claim
/// is coefficient-wise subtraction modulo `P`.
#[verifier::external_body]
pub(crate) fn qf_sub(a: QuadFelt, b: QuadFelt) -> (r: QuadFelt)
    requires
        a.wf(),
        b.wf(),
    ensures
        r == q_sub(a, b),
{
    let x = BinomialExtensionField::<Felt, 2>::new([Felt::new(a.c0), Felt::new(a.c1)]);
    let y = BinomialExtensionField::<Felt, 2>::new([Felt::new(b.c0), Felt::new(b.c1)]);
    let z = x - y;
    let c: &[Felt] = z.as_basis_coefficients_slice();
    QuadFelt { c0: c[0].as_canonical_u64(), c1: c[1].as_canonical_u64() }
}

/// Multiplies two extension elements with Plonky3's `BinomialExtensionField<Felt, 2>`; the claim
/// is the product modulo `x^2 - 7` with coefficients modulo `P` (the field's `W` is 7).
#[verifier::external_body]
pub(crate) fn qf_mul(a: QuadFelt, b: QuadFelt) -> (r: QuadFelt)
    requires
        a.wf(),
        b.wf(),
    ensures
        r == q_mul(a, b),
{
    let x = BinomialExtensionField::<Felt, 2>::new([Felt::new(a.c0), Felt::new(a.c1)]);
    let y = BinomialExtensionField::<Felt, 2>::new([Felt::new(b.c0), Felt::new(b.c1)]);
    let z = x * y;
    let c: &[Felt] = z.as_basis_coefficients_slice();
    QuadFelt { c0: c[0].as_canonical_u64(), c1: c[1].as_canonical_u64() }
}

/// Inverts an extension element with Plonky3's `try_inverse`; the claim is that it fails exactly
/// for zero and otherwise returns an element whose product with `a` is one.
#[verifier::external_body]
fn qf_inverse(a: QuadFelt) -> (r: Option<QuadFelt>)
    requires
        a.wf(),
    ensures
        a == QuadFelt::spec_zero() <==> r is None,
        r matches Some(inv) ==> inv.wf() && q_mul(a, inv) == QuadFelt::spec_one(),
{
    let x = BinomialExtensionField::<Felt, 2>::new([Felt::new(a.c0), Felt::new(a.c1)]);
    match x.try_inverse() {
        Some(z) => {
            let c: &[Felt] = z.as_basis_coefficients_slice();
            Some(QuadFelt { c0: c[0].as_canonical_u64(), c1: c[1].as_canonical_u64() })
        },
        None => None,
    }
}

// RING LAWS
// ================================================================================================

/// A reduced value is canonical and reducing it again changes nothing.
pub proof fn lemma_fmod_canonical(x: int)
    ensures
        is_canonical(fmod(x)),
        fmod(x) as int == x % pm(),
        fmod(fmod(x) as int) == fmod(x),
{
    lemma_mod_bound(x, pm());
    lemma_mod_twice(x, pm());
}

/// A canonical value reduces to itself.
pub proof fn lemma_fmod_of_canonical(x: u64)
    requires
        is_canonical(x),
    ensures
        fmod(x as int) == x,
{
    lemma_small_mod(x as nat, P as nat);
}

/// Reducing inside a linear combination does not change the result.
pub proof fn lemma_fmod_linear(x: int, y: int, c: int, d: int)
    ensures
        fmod((x % pm()) * c + (y % pm()) * d) == fmod(x * c + y * d),
{
    lemma_mul_mod_noop_left(x, c, pm());
    lemma_mul_mod_noop_left(y, d, pm());
    lemma_add_mod_noop((x % pm()) * c, (y % pm()) * d, pm());
    lemma_add_mod_noop(x * c, y * d, pm());
}

/// Every operation keeps elements well formed.
pub proof fn lemma_q_wf(a: QuadFelt, b: QuadFelt)
    ensures
        q_add(a, b).wf(),
        q_sub(a, b).wf(),
        q_mul(a, b).wf(),
{
    lemma_fmod_canonical(a.c0 + b.c0);
    lemma_fmod_canonical(a.c1 + b.c1);
    lemma_fmod_canonical(a.c0 - b.c0);
    lemma_fmod_canonical(a.c1 - b.c1);
    lemma_fmod_canonical(a.c0 * b.c0 + 7 * a.c1 * b.c1);
    lemma_fmod_canonical(a.c0 * b.c1 + a.c1 * b.c0);
}

/// Addition is commutative and associative, with zero as identity.
pub proof fn lemma_q_add_laws(a: QuadFelt, b: QuadFelt, c: QuadFelt)
    requires
        a.wf(),
        b.wf(),
        c.wf(),
    ensures
        q_add(a, b) == q_add(b, a),
        q_add(q_add(a, b), c) == q_add(a, q_add(b, c)),
        q_add(a, QuadFelt::spec_zero()) == a,
{
    lemma_fmod_linear(a.c0 + b.c0, c.c0 as int, 1, 1);
    lemma_fmod_linear(a.c0 as int, b.c0 + c.c0, 1, 1);
    lemma_fmod_linear(a.c1 + b.c1, c.c1 as int, 1, 1);
    lemma_fmod_linear(a.c1 as int, b.c1 + c.c1, 1, 1);
    lemma_fmod_of_canonical(c.c0);
    lemma_fmod_of_canonical(c.c1);
    lemma_fmod_of_canonical(a.c0);
    lemma_fmod_of_canonical(a.c1);
    assert(fmod(a.c0 + b.c0) as int + c.c0 == (a.c0 + b.c0) % pm() * 1 + (c.c0 as int % pm()) * 1) by {
        lemma_fmod_canonical(a.c0 + b.c0);
    }
    assert(a.c0 + fmod(b.c0 + c.c0) as int == (a.c0 as int % pm()) * 1 + ((b.c0 + c.c0) % pm()) * 1)
        by {
        lemma_fmod_canonical(b.c0 + c.c0);
    }
    assert(fmod(a.c1 + b.c1) as int + c.c1 == (a.c1 + b.c1) % pm() * 1 + (c.c1 as int % pm()) * 1) by {
        lemma_fmod_canonical(a.c1 + b.c1);
    }
    assert(a.c1 + fmod(b.c1 + c.c1) as int == (a.c1 as int % pm()) * 1 + ((b.c1 + c.c1) % pm()) * 1)
        by {
        lemma_fmod_canonical(b.c1 + c.c1);
    }
}

/// Multiplication is commutative and associative, with one as identity and zero as absorbing
/// element.
pub proof fn lemma_q_mul_laws(a: QuadFelt, b: QuadFelt, c: QuadFelt)
    requires
        a.wf(),
        b.wf(),
        c.wf(),
    ensures
        q_mul(a, b) == q_mul(b, a),
        q_mul(q_mul(a, b), c) == q_mul(a, q_mul(b, c)),
        q_mul(a, QuadFelt::spec_one()) == a,
        q_mul(a, QuadFelt::spec_zero()) == QuadFelt::spec_zero(),
{
    assert(a.c0 * b.c0 + 7 * a.c1 * b.c1 == b.c0 * a.c0 + 7 * b.c1 * a.c1) by (nonlinear_arith);
    assert(a.c0 * b.c1 + a.c1 * b.c0 == b.c0 * a.c1 + b.c1 * a.c0) by (nonlinear_arith);
    let ab0 = a.c0 * b.c0 + 7 * a.c1 * b.c1;
    let ab1 = a.c0 * b.c1 + a.c1 * b.c0;
    let bc0 = b.c0 * c.c0 + 7 * b.c1 * c.c1;
    let bc1 = b.c0 * c.c1 + b.c1 * c.c0;
    lemma_fmod_canonical(ab0);
    lemma_fmod_canonical(ab1);
    lemma_fmod_canonical(bc0);
    lemma_fmod_canonical(bc1);
    // left-hand side, coefficient 0 and 1
    lemma_fmod_linear(ab0, ab1, c.c0 as int, 7 * c.c1);
    lemma_fmod_linear(ab0, ab1, c.c1 as int, c.c0 as int);
    // right-hand side, coefficient 0 and 1
    lemma_fmod_linear(bc0, bc1, a.c0 as int, 7 * a.c1);
    lemma_fmod_linear(bc1, bc0, a.c0 as int, a.c1 as int);
    assert(fmod(ab0) * c.c0 + 7 * fmod(ab1) * c.c1 == (ab0 % pm()) * c.c0 + (ab1 % pm()) * (7
        * c.c1)) by (nonlinear_arith)
        requires
            fmod(ab0) as int == ab0 % pm(),
            fmod(ab1) as int == ab1 % pm(),
    ;
    assert(fmod(ab0) * c.c1 + fmod(ab1) * c.c0 == (ab0 % pm()) * c.c1 + (ab1 % pm()) * c.c0)
        by (nonlinear_arith)
        requires
            fmod(ab0) as int == ab0 % pm(),
            fmod(ab1) as int == ab1 % pm(),
    ;
    assert(a.c0 * fmod(bc0) + 7 * a.c1 * fmod(bc1) == (bc0 % pm()) * a.c0 + (bc1 % pm()) * (7
        * a.c1)) by (nonlinear_arith)
        requires
            fmod(bc0) as int == bc0 % pm(),
            fmod(bc1) as int == bc1 % pm(),
    ;
    assert(a.c0 * fmod(bc1) + a.c1 * fmod(bc0) == (bc1 % pm()) * a.c0 + (bc0 % pm()) * a.c1)
        by (nonlinear_arith)
        requires
            fmod(bc0) as int == bc0 % pm(),
            fmod(bc1) as int == bc1 % pm(),
    ;
    let (a0, a1, b0, b1, c0, c1) = (a.c0 as int, a.c1 as int, b.c0 as int, b.c1 as int, c.c0 as int, c.c1 as int);
    assert(ab0 * c0 == a0 * b0 * c0 + 7 * (a1 * b1 * c0)) by (nonlinear_arith)
        requires
            ab0 == a0 * b0 + 7 * a1 * b1,
    ;
    assert(ab1 * (7 * c1) == 7 * (a0 * b1 * c1) + 7 * (a1 * b0 * c1)) by (nonlinear_arith)
        requires
            ab1 == a0 * b1 + a1 * b0,
    ;
    assert(bc0 * a0 == a0 * b0 * c0 + 7 * (a0 * b1 * c1)) by (nonlinear_arith)
        requires
            bc0 == b0 * c0 + 7 * b1 * c1,
    ;
    assert(bc1 * (7 * a1) == 7 * (a1 * b0 * c1) + 7 * (a1 * b1 * c0)) by (nonlinear_arith)
        requires
            bc1 == b0 * c1 + b1 * c0,
    ;
    assert(ab0 * c.c0 + ab1 * (7 * c.c1) == bc0 * a.c0 + bc1 * (7 * a.c1));
    assert(ab0 * c1 == a0 * b0 * c1 + 7 * (a1 * b1 * c1)) by (nonlinear_arith)
        requires
            ab0 == a0 * b0 + 7 * a1 * b1,
    ;
    assert(ab1 * c0 == a0 * b1 * c0 + a1 * b0 * c0) by (nonlinear_arith)
        requires
            ab1 == a0 * b1 + a1 * b0,
    ;
    assert(bc1 * a0 == a0 * b0 * c1 + a0 * b1 * c0) by (nonlinear_arith)
        requires
            bc1 == b0 * c1 + b1 * c0,
    ;
    assert(bc0 * a1 == a1 * b0 * c0 + 7 * (a1 * b1 * c1)) by (nonlinear_arith)
        requires
            bc0 == b0 * c0 + 7 * b1 * c1,
    ;
    assert(ab0 * c.c1 + ab1 * c.c0 == bc1 * a.c0 + bc0 * a.c1);
    lemma_fmod_of_canonical(a.c0);
    lemma_fmod_of_canonical(a.c1);
    assert(a.c0 * 1 + 7 * a.c1 * 0 == a.c0 && a.c0 * 0 + a.c1 * 1 == a.c1) by (nonlinear_arith);
    assert(a.c0 * 0 + 7 * a.c1 * 0 == 0 && a.c0 * 0 + a.c1 * 0 == 0) by (nonlinear_arith);
    lemma_small_mod(0, P as nat);
}

/// Multiplication distributes over addition.
pub proof fn lemma_q_distrib(a: QuadFelt, b: QuadFelt, c: QuadFelt)
    requires
        a.wf(),
        b.wf(),
        c.wf(),
    ensures
        q_mul(a, q_add(b, c)) == q_add(q_mul(a, b), q_mul(a, c)),
{
    let s0 = b.c0 + c.c0;
    let s1 = b.c1 + c.c1;
    lemma_fmod_canonical(s0);
    lemma_fmod_canonical(s1);
    lemma_fmod_linear(s0, s1, a.c0 as int, 7 * a.c1);
    lemma_fmod_linear(s1, s0, a.c0 as int, a.c1 as int);
    assert(a.c0 * fmod(s0) + 7 * a.c1 * fmod(s1) == (s0 % pm()) * a.c0 + (s1 % pm()) * (7
        * a.c1)) by (nonlinear_arith)
        requires
            fmod(s0) as int == s0 % pm(),
            fmod(s1) as int == s1 % pm(),
    ;
    assert(a.c0 * fmod(s1) + a.c1 * fmod(s0) == (s1 % pm()) * a.c0 + (s0 % pm()) * a.c1)
        by (nonlinear_arith)
        requires
            fmod(s0) as int == s0 % pm(),
            fmod(s1) as int == s1 % pm(),
    ;
    let x0 = a.c0 * b.c0 + 7 * a.c1 * b.c1;
    let x1 = a.c0 * b.c1 + a.c1 * b.c0;
    let y0 = a.c0 * c.c0 + 7 * a.c1 * c.c1;
    let y1 = a.c0 * c.c1 + a.c1 * c.c0;
    lemma_fmod_canonical(x0);
    lemma_fmod_canonical(x1);
    lemma_fmod_canonical(y0);
    lemma_fmod_canonical(y1);
    lemma_fmod_linear(x0, y0, 1, 1);
    lemma_fmod_linear(x1, y1, 1, 1);
    assert(s0 * a.c0 + s1 * (7 * a.c1) == x0 * 1 + y0 * 1) by (nonlinear_arith)
        requires
            s0 == b.c0 + c.c0,
            s1 == b.c1 + c.c1,
            x0 == a.c0 * b.c0 + 7 * a.c1 * b.c1,
            y0 == a.c0 * c.c0 + 7 * a.c1 * c.c1,
    ;
    assert(s1 * a.c0 + s0 * a.c1 == x1 * 1 + y1 * 1) by (nonlinear_arith)
        requires
            s0 == b.c0 + c.c0,
            s1 == b.c1 + c.c1,
            x1 == a.c0 * b.c1 + a.c1 * b.c0,
            y1 == a.c0 * c.c1 + a.c1 * c.c0,
    ;
    assert(fmod(x0) as int + fmod(y0) as int == (x0 % pm()) * 1 + (y0 % pm()) * 1);
    assert(fmod(x1) as int + fmod(y1) as int == (x1 % pm()) * 1 + (y1 % pm()) * 1);
}

/// Subtraction is addition of the difference: `(a - b) + b == a`.
pub proof fn lemma_q_sub_add(a: QuadFelt, b: QuadFelt)
    requires
        a.wf(),
        b.wf(),
    ensures
        q_add(q_sub(a, b), b) == a,
        q_sub(a, a) == QuadFelt::spec_zero(),
{
    lemma_fmod_canonical(a.c0 - b.c0);
    lemma_fmod_canonical(a.c1 - b.c1);
    lemma_fmod_linear(a.c0 - b.c0, b.c0 as int, 1, 1);
    lemma_fmod_linear(a.c1 - b.c1, b.c1 as int, 1, 1);
    lemma_fmod_of_canonical(a.c0);
    lemma_fmod_of_canonical(a.c1);
    lemma_fmod_of_canonical(b.c0);
    lemma_fmod_of_canonical(b.c1);
    assert(fmod(a.c0 - b.c0) as int + b.c0 == ((a.c0 - b.c0) % pm()) * 1 + (b.c0 as int % pm()) * 1);
    assert(fmod(a.c1 - b.c1) as int + b.c1 == ((a.c1 - b.c1) % pm()) * 1 + (b.c1 as int % pm()) * 1);
    lemma_small_mod(0, P as nat);
}

// WORDS
// ================================================================================================

/// A word of four base-field elements (a digest), each held as its canonical `u64` value.
#[derive(Debug, Clone, Copy, PartialEq, Eq, Structural)]
pub struct Word {
    pub a: u64,
    pub b: u64,
    pub c: u64,
    pub d: u64,
}

impl Word {
    /// Builds a word from its four elements.
    pub fn new(elements: [u64; 4]) -> (w: Word)
        ensures
            w == (Word { a: elements[0], b: elements[1], c: elements[2], d: elements[3] }),
    {
        Word { a: elements[0], b: elements[1], c: elements[2], d: elements[3] }
    }

    /// The four elements in order.
    pub open spec fn spec_elements(self) -> Seq<u64> {
        seq![self.a, self.b, self.c, self.d]
    }

    /// Returns the four elements in order.
    pub fn elements(&self) -> (r: [u64; 4])
        ensures
            r@ == self.spec_elements(),
    {
        let r = [self.a, self.b, self.c, self.d];
        assert(r@ =~= self.spec_elements());
        r
    }
}

/// Whether every element of a word is canonical.
pub open spec fn word_is_canonical(w: Word) -> bool {
    &&& is_canonical(w.a)
    &&& is_canonical(w.b)
    &&& is_canonical(w.c)
    &&& is_canonical(w.d)
}

/// The all-zero word.
pub fn zero_word() -> (w: Word)
    ensures
        w == (Word { a: 0, b: 0, c: 0, d: 0 }),
{
    Word { a: 0, b: 0, c: 0, d: 0 }
}

} // verus!
