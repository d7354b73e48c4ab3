//! The shared board to which participants publish.
use vstd::prelude::*;
use crate::group::Curve;
use crate::types::{BundledJustification, BundledResponses, BundledShares};

verus! {

/// The publishing side of the board. Transport, ordering and persistence are
/// the implementation's; reading back what was published is not part of this
/// trait.
///
/// Each operation either succeeds or fails with the implementation's error.
/// What a call may do to the board and answer is the implementation's to say,
/// through the relation that accompanies the operation. An implementation
/// that says nothing admits everything; the library assumes nothing of a
/// board, and states what it published in the board's own terms.
pub trait BoardPublisher<C: Curve>: Sized {
    /// Why the board could not publish.
    type Error;

    /// Whether publishing `shares` on this board may leave it as `after` and
    /// answer `answer`.
    open spec fn shares_published(
        self,
        shares: BundledShares<C>,
        after: Self,
        answer: Result<(), Self::Error>,
    ) -> bool {
        true
    }

    /// Whether publishing `responses` on this board may leave it as `after`
    /// and answer `answer`.
    open spec fn responses_published(
        self,
        responses: BundledResponses,
        after: Self,
        answer: Result<(), Self::Error>,
    ) -> bool {
        true
    }

    /// Whether publishing `justifications` on this board may leave it as
    /// `after` and answer `answer`.
    open spec fn justifications_published(
        self,
        justifications: BundledJustification<C>,
        after: Self,
        answer: Result<(), Self::Error>,
    ) -> bool {
        true
    }

    /// Publishes a dealer's shares.
    fn publish_shares(&mut self, shares: BundledShares<C>) -> (answer: Result<(), Self::Error>)
        ensures
            old(self).shares_published(shares, *final(self), answer),
    ;

    /// Publishes a share holder's complaints.
    fn publish_responses(&mut self, responses: BundledResponses) -> (answer: Result<
        (),
        Self::Error,
    >)
        ensures
            old(self).responses_published(responses, *final(self), answer),
    ;

    /// Publishes a contested dealer's justifications.
    fn publish_justifications(&mut self, justifications: BundledJustification<C>) -> (answer:
        Result<(), Self::Error>)
        ensures
            old(self).justifications_published(justifications, *final(self), answer),
    ;
}

/// A board that keeps everything in memory, in the order of publication. It
/// accepts every bundle.
pub struct InMemoryBoard<C: Curve> {
    pub shares: Vec<BundledShares<C>>,
    pub responses: Vec<BundledResponses>,
    pub justifs: Vec<BundledJustification<C>>,
}

impl<C: Curve> InMemoryBoard<C> {
    /// The board with nothing on it.
    pub fn new() -> (board: Self)
        ensures
            board.shares@.len() == 0,
            board.responses@.len() == 0,
            board.justifs@.len() == 0,
    {
        InMemoryBoard { shares: Vec::new(), responses: Vec::new(), justifs: Vec::new() }
    }
}

impl<C: Curve> BoardPublisher<C> for InMemoryBoard<C> {
    type Error = ();

    open spec fn shares_published(
        self,
        shares: BundledShares<C>,
        after: Self,
        answer: Result<(), ()>,
    ) -> bool {
        &&& answer is Ok
        &&& after.shares@ == self.shares@.push(shares)
        &&& after.responses@ == self.responses@
        &&& after.justifs@ == self.justifs@
    }

    open spec fn responses_published(
        self,
        responses: BundledResponses,
        after: Self,
        answer: Result<(), ()>,
    ) -> bool {
        &&& answer is Ok
        &&& after.shares@ == self.shares@
        &&& after.responses@ == self.responses@.push(responses)
        &&& after.justifs@ == self.justifs@
    }

    open spec fn justifications_published(
        self,
        justifications: BundledJustification<C>,
        after: Self,
        answer: Result<(), ()>,
    ) -> bool {
        &&& answer is Ok
        &&& after.shares@ == self.shares@
        &&& after.responses@ == self.responses@
        &&& after.justifs@ == self.justifs@.push(justifications)
    }

    fn publish_shares(&mut self, shares: BundledShares<C>) -> (answer: Result<(), ()>) {
        self.shares.push(shares);
        Ok(())
    }

    fn publish_responses(&mut self, responses: BundledResponses) -> (answer: Result<(), ()>) {
        self.responses.push(responses);
        Ok(())
    }

    fn publish_justifications(&mut self, justifications: BundledJustification<C>) -> (answer:
        Result<(), ()>) {
        self.justifs.push(justifications);
        Ok(())
    }
}

} // verus!
