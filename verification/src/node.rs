//! The driver that advances a participant from phase to phase.
//!
//! Running a phase applies the phase's own operation, publishes to the board
//! what the operation produced, if anything, and returns the next phase. A
//! failure of the board is reported apart from a failure of the protocol, so
//! that a caller may retry the one and give up on the other.
use vstd::prelude::*;
use vstd::std_specs::convert::FromSpecImpl;
use crate::board::BoardPublisher;
use crate::group::Curve;
use crate::phases::{Phase0, Phase1, Phase2, Phase3, ResponsesOutcome};
use crate::types::{
    BundledJustification,
    BundledResponses,
    BundledShares,
    DKGError,
    DKGOutput,
    DKGResult,
};

verus! {

/// Why running a phase failed.
#[derive(Debug, Clone, Copy, PartialEq, Eq)]
pub enum NodeError {
    /// The board could not publish.
    PublisherError,
    /// The protocol itself failed.
    DKGError(DKGError),
}

impl From<DKGError> for NodeError {
    fn from(e: DKGError) -> (err: NodeError) {
        NodeError::DKGError(e)
    }
}

impl FromSpecImpl<DKGError> for NodeError {
    open spec fn obeys_from_spec() -> bool {
        true
    }

    open spec fn from_spec(e: DKGError) -> NodeError {
        NodeError::DKGError(e)
    }
}

pub type NodeResult<T> = Result<T, NodeError>;

/// How the second round of messages ends: with the output, or with the need
/// for a round of justifications.
#[derive(Debug, Clone)]
pub enum Phase2Result<C: Curve, P: Phase3<C>> {
    /// No deal is contested: the protocol is over.
    Output(DKGOutput<C>),
    /// Some deal is contested: the protocol goes on.
    GoToPhase3(P),
}

/// What a run returns once the board has answered: the next phase if the
/// bundle was published, the publisher's failure if not.
pub open spec fn published<N, E>(next: N, answer: Result<(), E>) -> NodeResult<N> {
    match answer {
        Ok(_) => Ok(next),
        Err(_) => Err(NodeError::PublisherError),
    }
}

/// Turns the board's answer into the result of the run.
pub fn after_publication<N, E>(next: N, answer: Result<(), E>) -> (res: NodeResult<N>)
    ensures
        res == published(next, answer),
{
    match answer {
        Ok(_) => Ok(next),
        Err(_) => Err(NodeError::PublisherError),
    }
}

/// The three ways in which reading the responses can end, side by side: where
/// the protocol goes next and what is left to publish, or the fatal error.
pub open spec fn branch<C: Curve, P: Phase3<C>>(out: ResponsesOutcome<C, P>) -> DKGResult<
    (Phase2Result<C, P>, Option<BundledJustification<C>>),
> {
    match out {
        Ok(output) => Ok((Phase2Result::Output(output), None)),
        Err(Ok((next, justifications))) => Ok((Phase2Result::GoToPhase3(next), justifications)),
        Err(Err(e)) => Err(e),
    }
}

/// Sorts the outcome of reading the responses into the three ways in which it
/// can end. A fatal error is never read as a continuation.
pub fn phase2_branch<C: Curve, P: Phase3<C>>(out: ResponsesOutcome<C, P>) -> (step: DKGResult<
    (Phase2Result<C, P>, Option<BundledJustification<C>>),
>)
    ensures
        step == branch(out),
{
    match out {
        Ok(output) => Ok((Phase2Result::Output(output), None)),
        Err(Ok((next, justifications))) => Ok((Phase2Result::GoToPhase3(next), justifications)),
        Err(Err(e)) => Err(e),
    }
}

/// A phase of the key generation that a board and an argument drive forward.
/// `T` is what the phase reads: a source of randomness for the first, the
/// bundles of the round before for the others.
pub trait DKGPhase<C: Curve, B: BoardPublisher<C>, T>: Sized {
    /// What running the phase yields.
    type Next;

    /// Whether running this phase on `arg` with the board `before` may leave
    /// the board as `after` and return `res`.
    spec fn runs(self, before: B, arg: T, after: B, res: NodeResult<Self::Next>) -> bool;

    /// Executes the phase and publishes what it produced to the board.
    fn run(self, board: &mut B, arg: T) -> (res: NodeResult<Self::Next>)
        ensures
            self.runs(*old(board), arg, *final(board), res),
    ;
}

impl<C, B, P> DKGPhase<C, B, &mut P::Rng> for P where C: Curve, B: BoardPublisher<C>, P: Phase0<C> {
    type Next = P::Next;

    /// Some outcome of dealing decides: a protocol error is returned as it is
    /// and the board is not touched; with no bundle the next phase is returned
    /// and the board is not touched; a bundle is published, and the board's
    /// answer decides between the next phase and the publisher's failure.
    open spec fn runs(self, before: B, rng: &mut P::Rng, after: B, res: NodeResult<P::Next>) -> bool {
        exists|out: DKGResult<(P::Next, Option<BundledShares<C>>)>| #[trigger]
            self.may_encrypt(out) && match out {
                Err(e) => res == Err::<P::Next, _>(NodeError::DKGError(e)) && after == before,
                Ok((next, None)) => res == Ok::<_, NodeError>(next) && after == before,
                Ok((next, Some(shares))) => exists|answer: Result<(), B::Error>| #[trigger]
                    before.shares_published(shares, after, answer) && res == published(
                        next,
                        answer,
                    ),
            }
    }

    fn run(self, board: &mut B, rng: &mut P::Rng) -> (res: NodeResult<P::Next>) {
        match self.encrypt_shares(rng) {
            Err(e) => Err(NodeError::from(e)),
            Ok((next, None)) => Ok(next),
            Ok((next, Some(shares))) => {
                let answer = board.publish_shares(shares);
                after_publication(next, answer)
            },
        }
    }
}

impl<C, B, P> DKGPhase<C, B, &[BundledShares<C>]> for P where
    C: Curve,
    B: BoardPublisher<C>,
    P: Phase1<C>,
 {
    type Next = P::Next;

    /// Some outcome of processing `shares`, approvals left implicit, decides
    /// in the same way; what is published is the responses.
    open spec fn runs(
        self,
        before: B,
        shares: &[BundledShares<C>],
        after: B,
        res: NodeResult<P::Next>,
    ) -> bool {
        exists|out: DKGResult<(P::Next, Option<BundledResponses>)>| #[trigger]
            self.may_process_shares(shares@, false, out) && match out {
                Err(e) => res == Err::<P::Next, _>(NodeError::DKGError(e)) && after == before,
                Ok((next, None)) => res == Ok::<_, NodeError>(next) && after == before,
                Ok((next, Some(responses))) => exists|answer: Result<(), B::Error>| #[trigger]
                    before.responses_published(responses, after, answer) && res == published(
                        next,
                        answer,
                    ),
            }
    }

    fn run(self, board: &mut B, shares: &[BundledShares<C>]) -> (res: NodeResult<P::Next>) {
        match self.process_shares(shares, false) {
            Err(e) => Err(NodeError::from(e)),
            Ok((next, None)) => Ok(next),
            Ok((next, Some(responses))) => {
                let answer = board.publish_responses(responses);
                after_publication(next, answer)
            },
        }
    }
}

impl<C, B, P> DKGPhase<C, B, &[BundledResponses]> for P where
    C: Curve,
    B: BoardPublisher<C>,
    P: Phase2<C>,
 {
    type Next = Phase2Result<C, P::Next>;

    /// Some outcome of processing `responses` decides. The output ends the
    /// run at once. The need for justifications is returned after this
    /// participant's own justifications, if it has any, were published. A
    /// protocol error is returned as it is.
    open spec fn runs(
        self,
        before: B,
        responses: &[BundledResponses],
        after: B,
        res: NodeResult<Phase2Result<C, P::Next>>,
    ) -> bool {
        exists|out: ResponsesOutcome<C, P::Next>| #[trigger]
            self.may_process_responses(responses@, out) && match branch(out) {
                Err(e) => res == Err::<Phase2Result<C, P::Next>, _>(NodeError::DKGError(e))
                    && after == before,
                Ok((next, None)) => res == Ok::<_, NodeError>(next) && after == before,
                Ok((next, Some(justifications))) => exists|answer: Result<(), B::Error>| #[trigger]
                    before.justifications_published(justifications, after, answer) && res
                        == published(next, answer),
            }
    }

    fn run(self, board: &mut B, responses: &[BundledResponses]) -> (res: NodeResult<
        Phase2Result<C, P::Next>,
    >) {
        match phase2_branch(self.process_responses(responses)) {
            Err(e) => Err(NodeError::from(e)),
            Ok((next, None)) => Ok(next),
            Ok((next, Some(justifications))) => {
                let answer = board.publish_justifications(justifications);
                after_publication(next, answer)
            },
        }
    }
}

impl<C, B, P> DKGPhase<C, B, &[BundledJustification<C>]> for P where
    C: Curve,
    B: BoardPublisher<C>,
    P: Phase3<C>,
 {
    type Next = DKGOutput<C>;

    /// Some outcome of processing `justifications` is the result; nothing is
    /// published.
    open spec fn runs(
        self,
        before: B,
        justifications: &[BundledJustification<C>],
        after: B,
        res: NodeResult<DKGOutput<C>>,
    ) -> bool {
        &&& after == before
        &&& exists|out: DKGResult<DKGOutput<C>>| #[trigger]
            self.may_process_justifications(justifications@, out) && res == match out {
                Ok(output) => Ok::<_, NodeError>(output),
                Err(e) => Err(NodeError::DKGError(e)),
            }
    }

    fn run(self, board: &mut B, justifications: &[BundledJustification<C>]) -> (res: NodeResult<
        DKGOutput<C>,
    >) {
        match self.process_justifications(justifications) {
            Ok(output) => Ok(output),
            Err(e) => Err(NodeError::from(e)),
        }
    }
}

/// Finishing is idempotent. Take a phase value whose processing of
/// `responses` has one outcome only. Where one run over them ended with the
/// output, every run of that phase value over the same responses ends with
/// the same output, whatever board it is given, and publishes nothing.
pub proof fn lemma_finalize_idempotent<C, B, P>(
    phase: P,
    responses: &[BundledResponses],
    before: B,
    after: B,
    res: NodeResult<Phase2Result<C, P::Next>>,
    before_again: B,
    after_again: B,
    again: NodeResult<Phase2Result<C, P::Next>>,
) where C: Curve, B: BoardPublisher<C>, P: Phase2<C>
    requires
        forall|one: ResponsesOutcome<C, P::Next>, other: ResponsesOutcome<C, P::Next>|
            #[trigger] phase.may_process_responses(responses@, one)
                && #[trigger] phase.may_process_responses(responses@, other) ==> one == other,
        phase.runs(before, responses, after, res),
        phase.runs(before_again, responses, after_again, again),
        res matches Ok(Phase2Result::Output(_)),
    ensures
        again == res,
        after == before,
        after_again == before_again,
{
    let one = choose|out: ResponsesOutcome<C, P::Next>| #[trigger]
        phase.may_process_responses(responses@, out) && match branch(out) {
            Err(e) => res == Err::<Phase2Result<C, P::Next>, _>(NodeError::DKGError(e)) && after
                == before,
            Ok((next, None)) => res == Ok::<_, NodeError>(next) && after == before,
            Ok((next, Some(justifications))) => exists|answer: Result<(), B::Error>| #[trigger]
                before.justifications_published(justifications, after, answer) && res
                    == published(next, answer),
        };
    let other = choose|out: ResponsesOutcome<C, P::Next>| #[trigger]
        phase.may_process_responses(responses@, out) && match branch(out) {
            Err(e) => again == Err::<Phase2Result<C, P::Next>, _>(NodeError::DKGError(e))
                && after_again == before_again,
            Ok((next, None)) => again == Ok::<_, NodeError>(next) && after_again == before_again,
            Ok((next, Some(justifications))) => exists|answer: Result<(), B::Error>| #[trigger]
                before_again.justifications_published(justifications, after_again, answer)
                    && again == published(next, answer),
        };
    assert(one == other);
}

} // verus!
