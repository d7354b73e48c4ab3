//! Unblinding of partial signatures, derived for every threshold scheme that
//! can blind.
//!
//! A partial signature travels as the byte form of an [`Eval`]: the signature
//! made with one share, and the index of that share. Unblinding it unblinds
//! the signature and leaves the index alone, so that unblinded partial
//! signatures aggregate as blinded ones do.
use vstd::prelude::*;
use vstd::std_specs::convert::FromSpecImpl;
use crate::poly::{decoded, encoded, lemma_decode_encoded, Eval};
use crate::types::{Idx, Share};

verus! {

/// A partial signature in its byte form.
pub type Partial = Vec<u8>;

#[verifier::external_type_specification]
#[verifier::external_body]
pub struct ExBincodeErrorKind(bincode::ErrorKind);

/// Why a partial signature could not be unblinded.
#[derive(Debug)]
pub enum BlindThresholdError<E> {
    /// The scheme could not unblind the signature.
    BlinderError(E),
    /// The bytes are not the byte form of a partial signature.
    BincodeError(bincode::Error),
}

impl<E> From<bincode::Error> for BlindThresholdError<E> {
    fn from(e: bincode::Error) -> (err: Self) {
        BlindThresholdError::BincodeError(e)
    }
}

impl<E> FromSpecImpl<bincode::Error> for BlindThresholdError<E> {
    open spec fn obeys_from_spec() -> bool {
        true
    }

    open spec fn from_spec(e: bincode::Error) -> Self {
        BlindThresholdError::BincodeError(e)
    }
}

/// A scheme whose signatures are made from shares of the private key and
/// aggregated. What the operations compute is the scheme's own business.
pub trait ThresholdScheme {
    /// The private key, and the kind of its shares.
    type Private;

    /// The public key.
    type Public;

    /// Why an operation of the scheme failed.
    type Error;

    /// Signs `msg` with one share of the private key.
    fn partial_sign(private: &Share<Self::Private>, msg: &[u8]) -> Result<Partial, Self::Error>;

    /// Combines `threshold` or more partial signatures into a signature.
    fn aggregate(threshold: usize, partials: &[Partial]) -> Result<Vec<u8>, Self::Error>;

    /// Checks `sig` on `msg` against the public key.
    fn verify(public: &Self::Public, msg: &[u8], sig: &[u8]) -> Result<(), Self::Error>;
}

/// A scheme that signs messages it cannot read: the message is blinded
/// before signing, and the signature unblinded by whoever holds the token.
pub trait Blinder {
    /// What blinding keeps back and unblinding needs.
    type Token;

    /// Why unblinding failed.
    type Error;

    /// The source of randomness that blinding draws from.
    type Rng;

    /// Whether unblinding `sig` with `token` may give `res`. An implementation
    /// that says nothing admits every result.
    open spec fn unblinds(
        token: Self::Token,
        sig: Seq<u8>,
        res: Result<Seq<u8>, Self::Error>,
    ) -> bool {
        true
    }

    /// Blinds `msg`, and returns the token with it.
    fn blind(msg: &[u8], rng: &mut Self::Rng) -> (Self::Token, Vec<u8>);

    /// Unblinds a signature made on a blinded message.
    fn unblind(token: &Self::Token, sig: &[u8]) -> (res: Result<Vec<u8>, Self::Error>)
        ensures
            Self::unblinds(*token, sig@, bytes_of(res)),
    ;
}

/// The bytes of the vector that a result holds.
pub open spec fn bytes_of<E>(res: Result<Vec<u8>, E>) -> Result<Seq<u8>, E> {
    match res {
        Ok(bytes) => Ok(bytes@),
        Err(e) => Err(e),
    }
}

/// Reads a partial signature from its byte form with `bincode::deserialize`,
/// as a pair of a byte vector and an index. That function reads integers of
/// fixed width, least significant byte first (a length takes eight bytes, a
/// `u32` four), sets no size limit and allows bytes after the value: it
/// succeeds exactly when `bytes` begin with an evaluation, and returns that
/// evaluation.
#[verifier::external_body]
fn deserialize_partial(bytes: &[u8]) -> (res: Result<Eval<Vec<u8>>, bincode::Error>)
    ensures
        match res {
            Ok(eval) => decoded(bytes@) == Some((eval.value@, eval.index)),
            Err(_) => decoded(bytes@) is None,
        },
{
    match bincode::deserialize::<(Vec<u8>, Idx)>(bytes) {
        Ok((value, index)) => Ok(Eval { value, index }),
        Err(e) => Err(e),
    }
}

/// Writes a partial signature in its byte form with `bincode::serialize`, as
/// a pair of a byte vector and an index, in the same layout. That function
/// fails on a size limit, on a sequence of unknown length and on a failing
/// writer; it sets no limit, a vector knows its length and it writes to
/// memory, which leaves it no reason to fail here.
#[verifier::external_body]
fn serialize_partial(eval: &Eval<Vec<u8>>) -> (res: Result<Vec<u8>, bincode::Error>)
    ensures
        match res {
            Ok(bytes) => bytes@ == encoded(eval.value@, eval.index),
            Err(_) => false,
        },
{
    bincode::serialize(&(&eval.value, eval.index))
}

/// Whether `res` is what unblinding a partial signature at `index` returns
/// once the scheme has answered `unblinded` for its value: the byte form of
/// the unblinded value at the same index, or the scheme's failure unchanged.
pub open spec fn rewrapped<E>(
    index: Idx,
    unblinded: Result<Seq<u8>, E>,
    res: Result<Partial, BlindThresholdError<E>>,
) -> bool {
    match unblinded {
        Ok(clear) => res matches Ok(bytes) && bytes@ == encoded(clear, index),
        Err(e) => res matches Err(BlindThresholdError::BlinderError(f)) && f == e,
    }
}

/// Puts what the scheme's unblinding returned back at the index that the
/// blinded partial signature came with.
pub fn reattach<E>(index: Idx, unblinded: Result<Vec<u8>, E>) -> (res: Result<
    Eval<Vec<u8>>,
    BlindThresholdError<E>,
>)
    ensures
        match unblinded {
            Ok(clear) => res matches Ok(eval) && eval.value == clear && eval.index == index,
            Err(e) => res matches Err(BlindThresholdError::BlinderError(f)) && f == e,
        },
{
    match unblinded {
        Ok(value) => Ok(Eval { value, index }),
        Err(e) => Err(BlindThresholdError::BlinderError(e)),
    }
}

/// A threshold scheme whose partial signatures can be unblinded one by one.
pub trait BlindThresholdScheme: ThresholdScheme + Blinder {
    /// Why unblinding a partial signature failed.
    type Error;

    /// Unblinds the partial signature `partial`, given in its byte form and
    /// returned in it.
    fn unblind_partial(token: &Self::Token, partial: &[u8]) -> Result<
        Partial,
        <Self as BlindThresholdScheme>::Error,
    >;
}

impl<T> BlindThresholdScheme for T where T: ThresholdScheme + Blinder {
    type Error = BlindThresholdError<<T as Blinder>::Error>;

    /// Bytes that do not begin with an evaluation are reported as such.
    /// Otherwise the scheme unblinds the value of the evaluation, and its
    /// answer decides: the byte form of the unblinded value at the same index
    /// is returned, or the scheme's failure handed on unchanged.
    fn unblind_partial(token: &Self::Token, partial: &[u8]) -> (res: Result<
        Partial,
        BlindThresholdError<<T as Blinder>::Error>,
    >)
        ensures
            match decoded(partial@) {
                None => res matches Err(BlindThresholdError::BincodeError(_)),
                Some((value, index)) => exists|unblinded: Result<Seq<u8>, <T as Blinder>::Error>|
                    #[trigger] T::unblinds(*token, value, unblinded) && rewrapped(
                        index,
                        unblinded,
                        res,
                    ),
            },
    {
        let blinded = match deserialize_partial(partial) {
            Ok(eval) => eval,
            Err(e) => {
                return Err(BlindThresholdError::from(e));
            },
        };
        let answer = T::unblind(token, blinded.value.as_slice());
        let ghost unblinded = bytes_of(answer);
        let res = match reattach(blinded.index, answer) {
            Ok(unblinded) => match serialize_partial(&unblinded) {
                Ok(bytes) => Ok(bytes),
                Err(e) => Err(BlindThresholdError::from(e)),
            },
            Err(e) => Err(e),
        };
        proof {
            let read = decoded(partial@).unwrap();
            assert(T::unblinds(*token, read.0, unblinded) && rewrapped(read.1, unblinded, res));
        }
        res
    }
}

/// Unblinding a partial signature keeps its index. The byte form of `value`
/// at `index` reads back as that pair; and whatever is returned for it when
/// the scheme unblinds `value` to `clear` reads back as `clear` at `index`.
pub proof fn lemma_unblind_partial_keeps_index<E>(
    value: Seq<u8>,
    index: Idx,
    clear: Seq<u8>,
    res: Result<Partial, BlindThresholdError<E>>,
)
    requires
        value.len() <= u64::MAX,
        clear.len() <= u64::MAX,
        rewrapped(index, Ok::<Seq<u8>, E>(clear), res),
    ensures
        decoded(encoded(value, index)) == Some((value, index)),
        res matches Ok(bytes) && decoded(bytes@) == Some((clear, index)),
{
    lemma_decode_encoded(value, index, Seq::empty());
    lemma_decode_encoded(clear, index, Seq::empty());
    assert(encoded(value, index) + Seq::<u8>::empty() == encoded(value, index));
    assert(encoded(clear, index) + Seq::<u8>::empty() == encoded(clear, index));
}

} // verus!
