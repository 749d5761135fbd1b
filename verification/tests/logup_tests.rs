use mast_logup::challenges::Challenges;
use mast_logup::field::QuadFelt;
use mast_logup::logup::{Batch, Column, RationalSet};
use mast_logup::logup_msg::RangeMsg;
use miden_crypto::Felt;
use miden_crypto::field::{BasedVectorSpace, BinomialExtensionField, Field, PrimeCharacteristicRing};

type EF = BinomialExtensionField<Felt, 2>;

fn ef(a: u64) -> QuadFelt {
    QuadFelt::from_base(a)
}

fn challenges() -> Challenges {
    Challenges::new(ef(100), ef(7))
}

fn ext(q: QuadFelt) -> EF {
    EF::new([Felt::new(q.c0), Felt::new(q.c1)])
}

fn quad(e: EF) -> QuadFelt {
    let c: &[Felt] = e.as_basis_coefficients_slice();
    QuadFelt { c0: c[0].as_canonical_u64(), c1: c[1].as_canonical_u64() }
}

/// A message that encodes a single field element.
fn msg(val: u64) -> RangeMsg {
    RangeMsg { value: val }
}

#[test]
fn empty_batch() {
    let ch = challenges();
    let batch = Batch::new(&ch);
    assert_eq!(batch.numerator(), QuadFelt::zero());
    assert_eq!(batch.denominator(), QuadFelt::one());
}

#[test]
fn single_add() {
    let ch = challenges();
    let mut batch = Batch::new(&ch);
    batch.add(msg(42));
    // D should equal the encoded value of 42
    let expected_d = ch.encode(&[42]);
    assert_eq!(batch.denominator(), expected_d);
    assert_eq!(batch.numerator(), QuadFelt::one());
}

#[test]
fn add_then_remove() {
    let ch = challenges();
    let mut batch = Batch::new(&ch);
    batch.add(msg(3));
    batch.remove(msg(5));
    let v1 = ext(ch.encode(&[3]));
    let v2 = ext(ch.encode(&[5]));
    assert_eq!(ext(batch.denominator()), v1 * v2);
    assert_eq!(ext(batch.numerator()), v2 - v1);
}

#[test]
fn set_add_single() {
    let ch = challenges();
    let mut set = RationalSet::new(&ch);
    set.add_single(1, msg(10));
    let v = ch.encode(&[10]);
    assert_eq!(set.denominator(), v);
    assert_eq!(set.numerator(), QuadFelt::one());
}

#[test]
fn set_inactive() {
    let ch = challenges();
    let mut set = RationalSet::new(&ch);
    set.add_single(0, msg(10));
    assert_eq!(set.denominator(), QuadFelt::one());
    assert_eq!(set.numerator(), QuadFelt::zero());
}

#[test]
fn set_add_batch_closure() {
    let ch = challenges();
    let mut set = RationalSet::new(&ch);
    let mut b = Batch::new(&ch);
    b.add(msg(3));
    b.remove(msg(5));
    set.add_batch(1, b);
    let v1 = ext(ch.encode(&[3]));
    let v2 = ext(ch.encode(&[5]));
    assert_eq!(ext(set.denominator()), v1 * v2);
    assert_eq!(ext(set.numerator()), v2 - v1);
}

#[test]
fn column_two_sets() {
    let ch = challenges();
    let v1 = ext(ch.encode(&[3]));
    let v2 = ext(ch.encode(&[7]));

    let mut set1 = RationalSet::new(&ch);
    set1.add_single(1, msg(3));
    let mut set2 = RationalSet::new(&ch);
    set2.add_single(1, msg(7));

    let mut col = Column::from_set_unbound(set1);
    col.add_set(set2);

    assert_eq!(ext(col.denominator()), v1 * v2);
    assert_eq!(ext(col.numerator()), v1 + v2);
}

#[test]
fn column_constraint_zero() {
    let ch = challenges();
    let v = ch.encode(&[5]);
    let mut set = RationalSet::new(&ch);
    set.add_single(1, msg(5));
    let col = Column::from_set_unbound(set);
    assert_eq!(col.constraint(v.inverse().unwrap()), QuadFelt::zero());
}

#[test]
fn three_interactions_rational_identity() {
    let ch = challenges();
    let v1 = ext(ch.encode(&[2]));
    let v2 = ext(ch.encode(&[3]));
    let v3 = ext(ch.encode(&[5]));

    let mut batch = Batch::new(&ch);
    batch.add(msg(2));
    batch.add(msg(3));
    batch.remove(msg(5));

    assert_eq!(ext(batch.denominator()), v1 * v2 * v3);
    let lhs = ext(batch.numerator()) * ext(batch.denominator()).inverse();
    let rhs = v1.inverse() + v2.inverse() - v3.inverse();
    assert_eq!(lhs, rhs);
}

#[test]
fn end_to_end() {
    let ch = challenges();
    let v1 = ext(ch.encode(&[3]));
    let v2 = ext(ch.encode(&[7]));

    let mut b = Batch::new(&ch);
    b.add(msg(3));
    let set1 = RationalSet::always(&ch, b);
    let mut set2 = RationalSet::new(&ch);
    set2.add_single(1, msg(7));

    let mut col = Column::from_set_unbound(set1);
    col.add_set(set2);

    let delta = quad(v1.inverse() + v2.inverse());
    assert_eq!(col.constraint(delta), QuadFelt::zero());
}

#[test]
fn encode_is_alpha_plus_weighted_sum() {
    let ch = challenges();
    let alpha = ext(ef(100));
    let beta = ext(ef(7));
    let expected = alpha + ext(ef(11)) + beta * ext(ef(13)) + beta * beta * ext(ef(17));
    assert_eq!(ext(ch.encode(&[11, 13, 17])), expected);
}

#[test]
fn set_remove_single_and_replace() {
    let ch = challenges();
    let v = ext(ch.encode(&[9]));
    let one = EF::ONE;

    let mut removed = RationalSet::new(&ch);
    removed.remove_single(1, msg(9));
    assert_eq!(ext(removed.denominator()), v);
    assert_eq!(ext(removed.numerator()), -one);

    // Add and remove gated by the same flag cancel out to an identity fraction.
    let mut replaced = RationalSet::new(&ch);
    replaced.replace(1, 0, msg(9));
    assert_eq!(ext(replaced.denominator()), v);
    assert_eq!(ext(replaced.numerator()), one);
}

#[test]
fn insert_me_picks_the_active_multiplicity() {
    let ch = challenges();
    let v = ext(ch.encode(&[4]));
    let mut set = RationalSet::new(&ch);
    // Mutually exclusive flags: only the second entry is active, with multiplicity 3.
    set.insert_me(&[(0, 5), (1, 3)], msg(4));
    assert_eq!(ext(set.denominator()), v);
    assert_eq!(ext(set.numerator()), ext(ef(3)));
}

#[test]
fn constrain_reports_three_rows() {
    let ch = challenges();
    let v = ch.encode(&[5]);
    let mut set = RationalSet::new(&ch);
    set.add_single(1, msg(5));
    let acc = ef(2);
    let acc_next = quad(ext(ef(2)) + ext(v).inverse());
    let col = Column::from_set(acc, acc_next, set);
    let constraints = col.constrain();
    assert_eq!(constraints.first_row, acc);
    assert_eq!(constraints.last_row, acc);
    assert_eq!(constraints.transition, QuadFelt::zero());
}

#[test]
fn mutually_exclusive_batches_give_the_active_fraction() {
    let ch = challenges();
    let mut first = Batch::new(&ch);
    first.add(msg(3));
    let mut second = Batch::new(&ch);
    second.add(msg(5));
    second.remove(msg(6));
    let mut third = Batch::new(&ch);
    third.remove(msg(8));
    let (n2, d2) = (second.numerator(), second.denominator());

    let mut set = RationalSet::new(&ch);
    set.add_batch(0, first);
    set.add_batch(1, second);
    set.add_batch(0, third);
    assert_eq!(set.denominator(), d2);
    assert_eq!(set.numerator(), n2);
}

#[test]
fn single_interaction_is_a_one_interaction_batch() {
    let ch = challenges();
    let mut single = RationalSet::new(&ch);
    single.add_single(1, msg(12));
    single.insert_single(1, 4, msg(13));

    let mut batched = RationalSet::new(&ch);
    let mut b1 = Batch::new(&ch);
    b1.add(msg(12));
    batched.add_batch(1, b1);
    let mut b2 = Batch::new(&ch);
    b2.insert(4, msg(13));
    batched.add_batch(1, b2);

    let v12 = ext(ch.encode(&[12]));
    let v13 = ext(ch.encode(&[13]));
    let one = EF::ONE;
    let expected_u = one + (v12 - one) + (v13 - one);
    assert_eq!(ext(single.denominator()), expected_u);
    assert_eq!(single.denominator(), batched.denominator());
    assert_eq!(single.numerator(), batched.numerator());
    assert_eq!(ext(single.numerator()), ext(ef(5)));
}

#[test]
fn always_is_an_active_batch_on_the_empty_set() {
    let ch = challenges();
    let mut b1 = Batch::new(&ch);
    b1.insert(3, msg(5));
    b1.remove(msg(9));
    let mut b2 = Batch::new(&ch);
    b2.insert(3, msg(5));
    b2.remove(msg(9));
    let always = RationalSet::always(&ch, b1);
    let mut gated = RationalSet::new(&ch);
    gated.add_batch(1, b2);
    assert_eq!(always.numerator(), gated.numerator());
    assert_eq!(always.denominator(), gated.denominator());
}
