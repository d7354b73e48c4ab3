//! The four phases of the key generation, as seen by the driver.
//!
//! Each phase is a type of its own that offers the one operation legal in it.
//! The operation consumes the phase value, so a phase cannot be run twice nor
//! run again once the next one exists.
//!
//! What an operation computes is the implementation's to say, through the
//! relation that accompanies it: the relation holds of every outcome that the
//! operation can return. An implementation that says nothing admits every
//! outcome.
use vstd::prelude::*;
use crate::group::Curve;
use crate::types::{
    BundledJustification,
    BundledResponses,
    BundledShares,
    DKGOutput,
    DKGResult,
};

verus! {

/// What reading the responses yields: the output when no deal is
/// contested, else the phase that awaits justifications, with this
/// participant's own justifications when its deal is among the contested, or
/// the error that ends the protocol for this participant.
pub type ResponsesOutcome<C, N> = Result<
    DKGOutput<C>,
    DKGResult<(N, Option<BundledJustification<C>>)>,
>;

/// A dealer about to hand out shares of its secret.
pub trait Phase0<C: Curve>: Sized {
    /// The phase that follows.
    type Next: Phase1<C>;

    /// The source of randomness that dealing draws from.
    type Rng;

    /// Whether dealing from this phase value may give `out`. Dealing is
    /// randomised, so many outcomes may be possible.
    open spec fn may_encrypt(self, out: DKGResult<(Self::Next, Option<BundledShares<C>>)>) -> bool {
        true
    }

    /// Draws the secret polynomial, evaluates it at every participant's index
    /// and encrypts each evaluation to its recipient. The bundle is absent
    /// where the dealer withholds its shares.
    fn encrypt_shares(self, rng: &mut Self::Rng) -> (out: DKGResult<
        (Self::Next, Option<BundledShares<C>>),
    >)
        ensures
            self.may_encrypt(out),
    ;
}

/// A share holder waiting for the dealers' shares.
pub trait Phase1<C: Curve>: Sized {
    /// The phase that follows.
    type Next: Phase2<C>;

    /// Whether processing `bundles` in this phase value may give `out`.
    open spec fn may_process_shares(
        self,
        bundles: Seq<BundledShares<C>>,
        publish_all: bool,
        out: DKGResult<(Self::Next, Option<BundledResponses>)>,
    ) -> bool {
        true
    }

    /// Decrypts and verifies the share that each bundle holds for this
    /// participant. The responses are present when there is a complaint to
    /// publish, or when `publish_all` asks for the approvals too.
    fn process_shares(self, bundles: &[BundledShares<C>], publish_all: bool) -> (out: DKGResult<
        (Self::Next, Option<BundledResponses>),
    >)
        ensures
            self.may_process_shares(bundles@, publish_all, out),
    ;
}

/// A participant waiting for the share holders' responses.
pub trait Phase2<C: Curve>: Sized {
    /// The phase that follows when some deal is contested.
    type Next: Phase3<C>;

    /// Whether processing `responses` in this phase value may give `out`.
    open spec fn may_process_responses(
        self,
        responses: Seq<BundledResponses>,
        out: ResponsesOutcome<C, Self::Next>,
    ) -> bool {
        true
    }

    /// Reads the complaints and either finishes or asks for justifications.
    fn process_responses(self, responses: &[BundledResponses]) -> (out: ResponsesOutcome<
        C,
        Self::Next,
    >)
        ensures
            self.may_process_responses(responses@, out),
    ;
}

/// A participant waiting for the contested dealers' justifications.
pub trait Phase3<C: Curve>: Sized {
    /// Whether processing `justifications` in this phase value may give
    /// `out`.
    open spec fn may_process_justifications(
        self,
        justifications: Seq<BundledJustification<C>>,
        out: DKGResult<DKGOutput<C>>,
    ) -> bool {
        true
    }

    /// Settles every contested deal and finishes with the dealers that remain.
    fn process_justifications(self, justifications: &[BundledJustification<C>]) -> (out:
        DKGResult<DKGOutput<C>>)
        ensures
            self.may_process_justifications(justifications@, out),
    ;
}

} // verus!
