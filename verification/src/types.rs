//! Messages exchanged over the board, the final output and the protocol's
//! errors.
use vstd::prelude::*;
use crate::group::Curve;

verus! {

/// Position of a participant in the group, also the point at which secret
/// polynomials are evaluated for it.
pub type Idx = u32;

/// Failure of the protocol logic itself.
#[derive(Debug, Clone, Copy, PartialEq, Eq)]
pub enum DKGError {
    /// The threshold (first) exceeds the number of participants (second).
    InvalidThreshold(usize, usize),
    /// The node at the given position (first) carries another index (second).
    InvalidIndex(usize, Idx),
    /// Fewer valid contributions were observed (first) than the threshold
    /// requires (second). Dealers that never broadcast and dealers whose
    /// shares failed verification are counted alike.
    NotEnoughValidShares(usize, usize),
}

pub type DKGResult<T> = Result<T, DKGError>;

/// One share of a dealer's secret, encrypted to the recipient `share_idx`.
#[derive(Debug, Clone, PartialEq, Eq)]
pub struct EncryptedShare {
    pub share_idx: Idx,
    pub secret: Vec<u8>,
}

/// Everything a dealer hands out: one encrypted share per recipient and the
/// commitment to its secret polynomial.
#[derive(Debug, Clone, PartialEq)]
pub struct BundledShares<C: Curve> {
    pub dealer_idx: Idx,
    pub shares: Vec<EncryptedShare>,
    pub public: Vec<C::Point>,
}

/// A share holder's verdict on one dealer's share.
#[derive(Debug, Clone, Copy, PartialEq, Eq, Structural)]
pub enum Status {
    Success,
    Complaint,
}

/// The verdict `status` on the share dealt by `dealer_idx`.
#[derive(Debug, Clone, Copy, PartialEq, Eq, Structural)]
pub struct Response {
    pub dealer_idx: Idx,
    pub status: Status,
}

/// The verdicts of the share holder `share_idx`. A holder with no complaint
/// publishes none, and is read as approving every deal.
#[derive(Debug, Clone, PartialEq, Eq)]
pub struct BundledResponses {
    pub share_idx: Idx,
    pub responses: Vec<Response>,
}

/// A share revealed in the clear for the holder `share_idx` who contested it.
#[derive(Debug, Clone, PartialEq)]
pub struct Justification<C: Curve> {
    pub share_idx: Idx,
    pub share: C::Scalar,
}

/// A contested dealer's answer: the contested shares, revealed, and the
/// commitment they are to be checked against.
#[derive(Debug, Clone, PartialEq)]
pub struct BundledJustification<C: Curve> {
    pub dealer_idx: Idx,
    pub justifications: Vec<Justification<C>>,
    pub public: Vec<C::Point>,
}

/// A participant's share of the distributed secret.
#[derive(Debug, Clone, PartialEq)]
pub struct Share<S> {
    pub index: Idx,
    pub private: S,
}

/// What a participant holds when the protocol ends.
#[derive(Debug, Clone, PartialEq)]
pub struct DKGOutput<C: Curve> {
    /// Indices of the dealers whose deals were accepted.
    pub qual: Vec<Idx>,
    /// Commitment to the distributed secret; its first entry is the joint
    /// public key.
    pub public: Vec<C::Point>,
    /// This participant's share of the distributed secret.
    pub share: Share<C::Scalar>,
}

} // verus!
