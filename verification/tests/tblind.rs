//! Unblinding partial signatures one by one: the unblinded partial
//! signatures aggregate into a signature on the message itself.

use std::collections::BTreeMap;
use std::marker::PhantomData;

use rand::rngs::ThreadRng;
use rand::{thread_rng, Rng};

use dkg_core::poly::Eval;
use dkg_core::tblind::{
    reattach, BlindThresholdError, BlindThresholdScheme, Blinder, Partial, ThresholdScheme,
};
use dkg_core::types::{Idx, Share};

// ---------------------------------------------------------------------------
// A pair of groups of prime order with a pairing, small enough to compute by
// hand: scalars and points are residues modulo `Q`, a point is a multiple of
// its group's generator, and the pairing of two points is their product.
//
// There are two orders, a large one and a small one, and each comes with the
// keys in the first group and the signatures in the second, and the other
// way round.
// ---------------------------------------------------------------------------

trait Params: Clone + std::fmt::Debug + PartialEq {
    /// The order of the groups.
    const Q: u64;
    /// Generator of the group of public keys.
    const KEY_GEN: u64;
    /// Generator of the group of signatures.
    const SIG_GEN: u64;
}

#[derive(Clone, Debug, PartialEq)]
struct Large1;

#[derive(Clone, Debug, PartialEq)]
struct Large2;

#[derive(Clone, Debug, PartialEq)]
struct Small1;

#[derive(Clone, Debug, PartialEq)]
struct Small2;

impl Params for Large1 {
    const Q: u64 = 2305843009213693951;
    const KEY_GEN: u64 = 7;
    const SIG_GEN: u64 = 11;
}

impl Params for Large2 {
    const Q: u64 = 2305843009213693951;
    const KEY_GEN: u64 = 11;
    const SIG_GEN: u64 = 7;
}

impl Params for Small1 {
    const Q: u64 = 2147483647;
    const KEY_GEN: u64 = 3;
    const SIG_GEN: u64 = 5;
}

impl Params for Small2 {
    const Q: u64 = 2147483647;
    const KEY_GEN: u64 = 5;
    const SIG_GEN: u64 = 3;
}

fn add_mod(a: u64, b: u64, q: u64) -> u64 {
    ((a as u128 + b as u128) % q as u128) as u64
}

fn sub_mod(a: u64, b: u64, q: u64) -> u64 {
    ((a as u128 + q as u128 - (b % q) as u128) % q as u128) as u64
}

fn mul_mod(a: u64, b: u64, q: u64) -> u64 {
    ((a as u128 * b as u128) % q as u128) as u64
}

fn pow_mod(base: u64, mut exp: u64, q: u64) -> u64 {
    let mut acc: u64 = 1;
    let mut base = base % q;
    while exp > 0 {
        if exp & 1 == 1 {
            acc = mul_mod(acc, base, q);
        }
        base = mul_mod(base, base, q);
        exp >>= 1;
    }
    acc
}

fn inv_mod(a: u64, q: u64) -> u64 {
    pow_mod(a, q - 2, q)
}

/// The evaluation point of the participant with index `idx`.
fn point_of(idx: Idx) -> u64 {
    idx as u64 + 1
}

fn eval_poly(coeffs: &[u64], idx: Idx, q: u64) -> u64 {
    let x = point_of(idx) % q;
    let mut acc: u64 = 0;
    for c in coeffs.iter().rev() {
        acc = add_mod(mul_mod(acc, x, q), *c, q);
    }
    acc
}

fn point_bytes(p: u64) -> Vec<u8> {
    p.to_le_bytes().to_vec()
}

fn point_from(bytes: &[u8]) -> Option<u64> {
    if bytes.len() != 8 {
        return None;
    }
    let mut raw = [0u8; 8];
    raw.copy_from_slice(bytes);
    Some(u64::from_le_bytes(raw))
}

#[derive(Clone, Debug, PartialEq)]
struct Toy<P: Params>(PhantomData<P>);

#[derive(Clone, Debug, PartialEq)]
enum SchemeError {
    Malformed,
    NotEnoughPartials(usize, usize),
    InvalidSignature,
}

impl<P: Params> Toy<P> {
    fn keypair(rng: &mut ThreadRng) -> (u64, u64) {
        let private = rng.gen_range(1..P::Q);
        (private, mul_mod(private, P::KEY_GEN, P::Q))
    }

    fn hash(msg: &[u8]) -> u64 {
        let mut h: u64 = 1469598103934665603 % P::Q;
        for b in msg {
            h = add_mod(mul_mod(h, 1099511628211 % P::Q, P::Q), *b as u64 + 1, P::Q);
        }
        mul_mod(h.max(1), P::SIG_GEN, P::Q)
    }

    fn partial_sign_without_hashing(
        private: &Share<u64>,
        msg: &[u8],
    ) -> Result<Partial, SchemeError> {
        let point = point_from(msg).ok_or(SchemeError::Malformed)?;
        let sig = mul_mod(private.private, point, P::Q);
        bincode::serialize(&(point_bytes(sig), private.index)).map_err(|_| SchemeError::Malformed)
    }
}

impl<P: Params> ThresholdScheme for Toy<P> {
    type Private = u64;
    type Public = u64;
    type Error = SchemeError;

    fn partial_sign(private: &Share<u64>, msg: &[u8]) -> Result<Partial, SchemeError> {
        Self::partial_sign_without_hashing(private, &point_bytes(Self::hash(msg)))
    }

    fn aggregate(threshold: usize, partials: &[Partial]) -> Result<Vec<u8>, SchemeError> {
        if partials.len() < threshold {
            return Err(SchemeError::NotEnoughPartials(partials.len(), threshold));
        }
        let mut evals: BTreeMap<Idx, u64> = BTreeMap::new();
        for partial in partials {
            let (value, index): (Vec<u8>, Idx) =
                bincode::deserialize(partial).map_err(|_| SchemeError::Malformed)?;
            let sig = point_from(&value).ok_or(SchemeError::Malformed)?;
            if evals.len() < threshold {
                evals.insert(index, sig);
            }
        }
        if evals.len() < threshold {
            return Err(SchemeError::NotEnoughPartials(evals.len(), threshold));
        }
        let mut acc: u64 = 0;
        for (i, sig) in evals.iter() {
            let mut num: u64 = 1;
            let mut den: u64 = 1;
            for j in evals.keys() {
                if j != i {
                    num = mul_mod(num, point_of(*j) % P::Q, P::Q);
                    den = mul_mod(den, sub_mod(point_of(*j), point_of(*i), P::Q), P::Q);
                }
            }
            let lambda = mul_mod(num, inv_mod(den, P::Q), P::Q);
            acc = add_mod(acc, mul_mod(lambda, *sig, P::Q), P::Q);
        }
        Ok(point_bytes(acc))
    }

    fn verify(public: &u64, msg: &[u8], sig: &[u8]) -> Result<(), SchemeError> {
        let sig = point_from(sig).ok_or(SchemeError::Malformed)?;
        if mul_mod(P::KEY_GEN, sig, P::Q) == mul_mod(*public, Self::hash(msg), P::Q) {
            Ok(())
        } else {
            Err(SchemeError::InvalidSignature)
        }
    }
}

impl<P: Params> Blinder for Toy<P> {
    type Token = u64;
    type Error = SchemeError;
    type Rng = ThreadRng;

    fn blind(msg: &[u8], rng: &mut ThreadRng) -> (u64, Vec<u8>) {
        let token = rng.gen_range(1..P::Q);
        (token, point_bytes(mul_mod(token, Self::hash(msg), P::Q)))
    }

    fn unblind(token: &u64, sig: &[u8]) -> Result<Vec<u8>, SchemeError> {
        let sig = point_from(sig).ok_or(SchemeError::Malformed)?;
        Ok(point_bytes(mul_mod(inv_mod(*token, P::Q), sig, P::Q)))
    }
}


/// A random polynomial of degree `t - 1`, its evaluations for `n`
/// participants and its commitment.
fn shares<P: Params>(n: usize, t: usize) -> (Vec<Share<u64>>, Vec<u64>) {
    let rng = &mut thread_rng();
    let private: Vec<u64> = (0..t).map(|_| rng.gen_range(1..P::Q)).collect();
    let shares = (0..n)
        .map(|i| Eval { value: eval_poly(&private, i as Idx, P::Q), index: i as Idx })
        .map(|e| Share { index: e.index, private: e.value })
        .collect();
    let public = private.iter().map(|c| mul_mod(*c, P::KEY_GEN, P::Q)).collect();
    (shares, public)
}

fn aggregate_partially_unblinded<P: Params>() {
    let n = 5;
    let thr = 4;
    let (shares, public) = shares::<P>(n, thr);
    let msg = vec![1, 9, 6, 9];

    // blind the msg
    let (token, blinded) = Toy::<P>::blind(&msg, &mut thread_rng());

    // partially sign it
    let partials: Vec<_> = shares
        .iter()
        .map(|share| Toy::<P>::partial_sign_without_hashing(share, &blinded).unwrap())
        .collect();

    // unblind each partial sig
    let unblindeds: Vec<_> = partials
        .iter()
        .map(|p| Toy::<P>::unblind_partial(&token, p).unwrap())
        .collect();

    // aggregate
    let final_sig = Toy::<P>::aggregate(thr, &unblindeds).unwrap();

    Toy::<P>::verify(&public[0], &msg, &final_sig).unwrap();
}

#[test]
fn tblind_g1_zexe_unblind() {
    aggregate_partially_unblinded::<Small1>();
}

#[test]
fn tblind_g2_zexe_unblind() {
    aggregate_partially_unblinded::<Small2>();
}

#[test]
fn tblind_g1_bellman_unblind() {
    aggregate_partially_unblinded::<Large1>();
}

#[test]
fn tblind_g2_bellman_unblind() {
    aggregate_partially_unblinded::<Large2>();
}

// ---------------------------------------------------------------------------
// The byte form, with a scheme whose unblinding can be followed by eye: it
// adds the token to every byte, and refuses an empty signature.
// ---------------------------------------------------------------------------

struct Shift;

#[derive(Clone, Debug, PartialEq)]
enum ShiftError {
    Empty,
}

impl ThresholdScheme for Shift {
    type Private = u8;
    type Public = u8;
    type Error = ShiftError;

    fn partial_sign(_: &Share<u8>, _: &[u8]) -> Result<Partial, ShiftError> {
        Err(ShiftError::Empty)
    }

    fn aggregate(_: usize, _: &[Partial]) -> Result<Vec<u8>, ShiftError> {
        Err(ShiftError::Empty)
    }

    fn verify(_: &u8, _: &[u8], _: &[u8]) -> Result<(), ShiftError> {
        Err(ShiftError::Empty)
    }
}

impl Blinder for Shift {
    type Token = u8;
    type Error = ShiftError;
    type Rng = u8;

    fn blind(msg: &[u8], rng: &mut u8) -> (u8, Vec<u8>) {
        (*rng, msg.iter().map(|b| b.wrapping_sub(*rng)).collect())
    }

    fn unblind(token: &u8, sig: &[u8]) -> Result<Vec<u8>, ShiftError> {
        if sig.is_empty() {
            return Err(ShiftError::Empty);
        }
        Ok(sig.iter().map(|b| b.wrapping_add(*token)).collect())
    }
}

#[test]
fn unblind_partial_rewrites_the_value_and_keeps_the_index() {
    let partial = [3, 0, 0, 0, 0, 0, 0, 0, 10, 20, 250, 7, 0, 0, 0];
    let out = Shift::unblind_partial(&6, &partial).unwrap();
    assert_eq!(out, vec![3, 0, 0, 0, 0, 0, 0, 0, 16, 26, 0, 7, 0, 0, 0]);
}

#[test]
fn unblind_partial_writes_the_index_least_significant_byte_first() {
    let partial = [1, 0, 0, 0, 0, 0, 0, 0, 9, 0x78, 0x56, 0x34, 0x12];
    let out = Shift::unblind_partial(&1, &partial).unwrap();
    assert_eq!(out, vec![1, 0, 0, 0, 0, 0, 0, 0, 10, 0x78, 0x56, 0x34, 0x12]);
    let (value, index): (Vec<u8>, u32) = bincode::deserialize(&out).unwrap();
    assert_eq!(value, vec![10]);
    assert_eq!(index, 0x12345678);
}

#[test]
fn unblind_partial_keeps_the_largest_index() {
    let partial = bincode::serialize(&(vec![1u8, 2], u32::MAX)).unwrap();
    let out = Shift::unblind_partial(&1, &partial).unwrap();
    assert_eq!(out, vec![2, 0, 0, 0, 0, 0, 0, 0, 2, 3, 255, 255, 255, 255]);
}

#[test]
fn unblind_partial_of_a_long_value() {
    let value: Vec<u8> = (0..300u32).map(|i| (i % 251) as u8).collect();
    let partial = bincode::serialize(&(value.clone(), 4u32)).unwrap();
    assert_eq!(&partial[..8], &[44, 1, 0, 0, 0, 0, 0, 0]);
    let out = Shift::unblind_partial(&3, &partial).unwrap();
    let expected: Vec<u8> = value.iter().map(|b| b.wrapping_add(3)).collect();
    assert_eq!(out, bincode::serialize(&(expected, 4u32)).unwrap());
    assert_eq!(out.len(), 8 + 300 + 4);
}

#[test]
fn unblind_partial_ignores_what_follows_the_partial() {
    let partial = [2, 0, 0, 0, 0, 0, 0, 0, 1, 2, 5, 0, 0, 0, 99, 98, 97];
    let out = Shift::unblind_partial(&1, &partial).unwrap();
    assert_eq!(out, vec![2, 0, 0, 0, 0, 0, 0, 0, 2, 3, 5, 0, 0, 0]);
}

#[test]
fn unblind_partial_reads_what_it_wrote() {
    let partial = bincode::serialize(&(vec![7u8, 8, 9], 2u32)).unwrap();
    let once = Shift::unblind_partial(&10, &partial).unwrap();
    let twice = Shift::unblind_partial(&20, &once).unwrap();
    assert_eq!(twice, bincode::serialize(&(vec![37u8, 38, 39], 2u32)).unwrap());
}

#[test]
fn unblind_partial_is_a_function_of_token_and_bytes() {
    let partial = bincode::serialize(&(vec![7u8, 8, 9], 2u32)).unwrap();
    assert_eq!(
        Shift::unblind_partial(&10, &partial).unwrap(),
        Shift::unblind_partial(&10, &partial).unwrap()
    );
}

fn is_bincode_error<T: std::fmt::Debug>(res: Result<T, BlindThresholdError<ShiftError>>) -> bool {
    matches!(res, Err(BlindThresholdError::BincodeError(_)))
}

#[test]
fn unblind_partial_rejects_bytes_too_short_for_a_length() {
    assert!(is_bincode_error(Shift::unblind_partial(&1, &[])));
    assert!(is_bincode_error(Shift::unblind_partial(&1, &[1, 0, 0, 0, 0, 0, 0])));
}

#[test]
fn unblind_partial_rejects_a_value_cut_short() {
    assert!(is_bincode_error(Shift::unblind_partial(&1, &[3, 0, 0, 0, 0, 0, 0, 0, 1, 2])));
    // the value takes what would have been the index
    assert!(is_bincode_error(Shift::unblind_partial(
        &1,
        &[3, 0, 0, 0, 0, 0, 0, 0, 1, 2, 3, 0, 0, 0]
    )));
}

#[test]
fn unblind_partial_rejects_a_missing_index() {
    assert!(is_bincode_error(Shift::unblind_partial(&1, &[1, 0, 0, 0, 0, 0, 0, 0, 5])));
    assert!(is_bincode_error(Shift::unblind_partial(&1, &[1, 0, 0, 0, 0, 0, 0, 0, 5, 1, 0, 0])));
}

#[test]
fn unblind_partial_rejects_a_length_beyond_the_bytes() {
    let huge = [255, 255, 255, 255, 255, 255, 255, 255, 1, 2, 3, 4, 5, 6];
    assert!(is_bincode_error(Shift::unblind_partial(&1, &huge)));
    let large = [0, 0, 0, 0, 1, 0, 0, 0, 1, 2, 3, 4, 5, 6];
    assert!(is_bincode_error(Shift::unblind_partial(&1, &large)));
}

#[test]
fn unblind_partial_hands_on_the_failure_of_the_scheme() {
    // an evaluation with an empty value, which the scheme refuses
    let partial = [0, 0, 0, 0, 0, 0, 0, 0, 4, 0, 0, 0];
    match Shift::unblind_partial(&1, &partial) {
        Err(BlindThresholdError::BlinderError(e)) => assert_eq!(e, ShiftError::Empty),
        _ => panic!("the scheme refused"),
    }
}

#[test]
fn unblind_partial_reads_before_it_unblinds() {
    // too short to hold an evaluation: the scheme is never asked
    assert!(is_bincode_error(Shift::unblind_partial(&1, &[0, 0, 0, 0, 0, 0, 0, 0, 4, 0, 0])));
}

#[test]
fn reattach_puts_the_index_back() {
    let eval = reattach::<ShiftError>(9, Ok(vec![1, 2, 3])).unwrap();
    assert_eq!(eval, Eval { value: vec![1, 2, 3], index: 9 });
    match reattach(9, Err(ShiftError::Empty)) {
        Err(BlindThresholdError::BlinderError(e)) => assert_eq!(e, ShiftError::Empty),
        _ => panic!("the scheme refused"),
    }
}

#[test]
fn undecodable_bytes_convert_into_the_error() {
    let e = bincode::deserialize::<(Vec<u8>, u32)>(&[1, 2, 3]).unwrap_err();
    assert!(matches!(
        BlindThresholdError::<ShiftError>::from(e),
        BlindThresholdError::BincodeError(_)
    ));
}

#[test]
fn partial_signatures_come_in_the_byte_form() {
    let share = Share { index: 3, private: 5u64 };
    let point = point_bytes(11);
    let partial = Toy::<Small1>::partial_sign_without_hashing(&share, &point).unwrap();
    assert_eq!(partial, vec![8, 0, 0, 0, 0, 0, 0, 0, 55, 0, 0, 0, 0, 0, 0, 0, 3, 0, 0, 0]);
    let token = 2u64;
    let out = Toy::<Small1>::unblind_partial(&token, &partial).unwrap();
    let (value, index): (Vec<u8>, Idx) = bincode::deserialize(&out).unwrap();
    assert_eq!(index, 3);
    // half of 55 modulo the group order
    assert_eq!(point_from(&value), Some((55 + 2147483647) / 2));
}

#[test]
fn fewer_partials_than_the_threshold_do_not_aggregate() {
    let (shares, _) = shares::<Large1>(5, 4);
    let msg = vec![1, 9, 6, 9];
    let (token, blinded) = Toy::<Large1>::blind(&msg, &mut thread_rng());
    let unblindeds: Vec<_> = shares[..3]
        .iter()
        .map(|share| Toy::<Large1>::partial_sign_without_hashing(share, &blinded).unwrap())
        .map(|p| Toy::<Large1>::unblind_partial(&token, &p).unwrap())
        .collect();
    assert_eq!(
        Toy::<Large1>::aggregate(4, &unblindeds),
        Err(SchemeError::NotEnoughPartials(3, 4))
    );
}

#[test]
fn any_threshold_of_unblinded_partials_aggregates() {
    let (shares, public) = shares::<Large2>(5, 3);
    let msg = vec![4, 2];
    let (token, blinded) = Toy::<Large2>::blind(&msg, &mut thread_rng());
    let unblindeds: Vec<_> = shares
        .iter()
        .map(|share| Toy::<Large2>::partial_sign_without_hashing(share, &blinded).unwrap())
        .map(|p| Toy::<Large2>::unblind_partial(&token, &p).unwrap())
        .collect();
    for subset in [[0, 1, 2], [0, 2, 4], [1, 3, 4], [4, 3, 2]] {
        let chosen: Vec<_> = subset.iter().map(|i| unblindeds[*i].clone()).collect();
        let sig = Toy::<Large2>::aggregate(3, &chosen).unwrap();
        Toy::<Large2>::verify(&public[0], &msg, &sig).unwrap();
    }
}
