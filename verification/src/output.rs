//! What a participant holds when the protocol ends: the sum of the deals that
//! count for it.
//!
//! The deals of the qualified dealers count, and the participant's own deal
//! always does. A participant that qualifies thus adds up exactly the
//! qualified deals, as every other such participant does; one that does not
//! qualify adds its own deal to them and ends with a key of its own.
use vstd::prelude::*;
use crate::group::{Curve, Group};
use crate::types::{DKGOutput, Idx, Share};

verus! {

/// What a participant keeps of one dealer: the commitment that the dealer
/// published, and the share that the dealer dealt to this participant.
#[derive(Debug, Clone, PartialEq)]
pub struct Deal<C: Curve> {
    pub dealer_idx: Idx,
    pub public: Vec<C::Point>,
    pub share: C::Scalar,
}

/// Whether the deal of the dealer `d` counts for `me`.
pub open spec fn counts(me: Idx, qual: Seq<Idx>, d: Idx) -> bool {
    d == me || qual.contains(d)
}

/// The position of the first deal of the dealer `d`, or the number of deals
/// when `d` has none among them.
pub open spec fn first_deal<C: Curve>(deals: Seq<Deal<C>>, d: Idx) -> int
    decreases deals.len(),
{
    if deals.len() == 0 || deals[0].dealer_idx == d {
        0
    } else {
        1 + first_deal(deals.drop_first(), d)
    }
}

/// The commitment `acc` with `public` added to it, entry by entry. Entries of
/// `acc` that `public` lacks stay as they are; entries of `public` beyond the
/// length of `acc` are not read.
pub open spec fn plus_commitment<C: Curve>(acc: Seq<C::Point>, public: Seq<C::Point>) -> Seq<
    C::Point,
> {
    Seq::new(
        acc.len(),
        |k: int|
            if k < public.len() {
                C::point_sum(acc[k], public[k])
            } else {
                acc[k]
            },
    )
}

/// The sum of the commitments that count for `me`, of `t` entries, over the
/// dealers with an index below `upto`, in the order of their indices. Of a
/// dealer with several deals the first is taken.
pub open spec fn joint_public<C: Curve>(
    me: Idx,
    qual: Seq<Idx>,
    deals: Seq<Deal<C>>,
    t: nat,
    upto: nat,
) -> Seq<C::Point>
    recommends
        upto <= u32::MAX + 1,
    decreases upto,
{
    if upto == 0 {
        Seq::new(t, |k: int| C::point_zero())
    } else {
        let d = (upto - 1) as Idx;
        let before = joint_public(me, qual, deals, t, (upto - 1) as nat);
        let at = first_deal(deals, d);
        if counts(me, qual, d) && at < deals.len() {
            plus_commitment::<C>(before, deals[at].public@)
        } else {
            before
        }
    }
}

/// The sum of the shares that count for `me`, over the dealers with an index
/// below `upto`, in the order of their indices.
pub open spec fn joint_share<C: Curve>(
    me: Idx,
    qual: Seq<Idx>,
    deals: Seq<Deal<C>>,
    upto: nat,
) -> C::Scalar
    recommends
        upto <= u32::MAX + 1,
    decreases upto,
{
    if upto == 0 {
        C::scalar_zero()
    } else {
        let d = (upto - 1) as Idx;
        let before = joint_share(me, qual, deals, (upto - 1) as nat);
        let at = first_deal(deals, d);
        if counts(me, qual, d) && at < deals.len() {
            C::scalar_sum(before, deals[at].share)
        } else {
            before
        }
    }
}

/// Where the first deal of a dealer is, seen from a position that no deal of
/// the dealer precedes.
proof fn lemma_first_deal_from<C: Curve>(deals: Seq<Deal<C>>, d: Idx, i: int)
    requires
        0 <= i <= deals.len(),
        forall|j: int| 0 <= j < i ==> (#[trigger] deals[j]).dealer_idx != d,
    ensures
        first_deal(deals, d) == i + first_deal(deals.skip(i), d),
        0 <= first_deal(deals, d) <= deals.len(),
    decreases deals.len(),
{
    if deals.len() > 0 {
        let rest = deals.drop_first();
        if deals[0].dealer_idx == d {
            assert(i == 0);
            assert(deals.skip(0) == deals);
        } else if i == 0 {
            assert(deals.skip(0) == deals);
            assert forall|j: int| 0 <= j < 0 implies (#[trigger] rest[j]).dealer_idx != d by {}
            lemma_first_deal_from(rest, d, 0);
        } else {
            assert forall|j: int| 0 <= j < i - 1 implies (#[trigger] rest[j]).dealer_idx != d by {
                assert(rest[j] == deals[j + 1]);
            }
            lemma_first_deal_from(rest, d, i - 1);
            assert(rest.skip(i - 1) == deals.skip(i));
        }
    } else {
        assert(deals.skip(0) == deals);
    }
}

/// The position of the first deal of the dealer `d`, or the number of deals.
fn find_deal<C: Curve>(deals: &[Deal<C>], d: Idx) -> (at: usize)
    ensures
        at == first_deal(deals@, d),
        at <= deals.len(),
{
    let mut i: usize = 0;
    while i < deals.len() && deals[i].dealer_idx != d
        invariant
            i <= deals.len(),
            forall|j: int| 0 <= j < i ==> (#[trigger] deals[j]).dealer_idx != d,
        decreases deals.len() - i,
    {
        i += 1;
    }
    proof {
        lemma_first_deal_from(deals@, d, i as int);
        if i < deals.len() {
            assert(deals@.skip(i as int)[0] == deals[i as int]);
        }
    }
    i
}

/// Whether `d` occurs in `list`.
fn occurs(list: &[Idx], d: Idx) -> (found: bool)
    ensures
        found == list@.contains(d),
{
    let mut i: usize = 0;
    while i < list.len()
        invariant
            i <= list.len(),
            forall|j: int| 0 <= j < i ==> list[j] != d,
        decreases list.len() - i,
    {
        if list[i] == d {
            return true;
        }
        i += 1;
    }
    false
}

/// Adds `public` to `acc`, entry by entry.
fn add_commitment<C: Curve>(acc: &mut Vec<C::Point>, public: &[C::Point])
    ensures
        final(acc)@.len() == old(acc)@.len(),
        C::obeys_sum_spec() ==> final(acc)@ == plus_commitment::<C>(old(acc)@, public@),
{
    let ghost start = acc@;
    let mut k: usize = 0;
    while k < acc.len() && k < public.len()
        invariant
            acc@.len() == start.len(),
            k <= acc.len(),
            k <= public.len(),
            C::obeys_sum_spec() ==> forall|j: int|
                0 <= j < k ==> #[trigger] acc@[j] == C::point_sum(start[j], public[j]),
            forall|j: int| k <= j < acc.len() ==> #[trigger] acc@[j] == start[j],
        decreases acc.len() - k,
    {
        let sum = C::add_points(&acc[k], &public[k]);
        acc.set(k, sum);
        k += 1;
    }
}

/// Assembles the output of the participant `me` from the deals it holds and
/// the qualified dealers.
///
/// The commitment has as many entries as the threshold, and the joint public
/// key is the first of them. Deals of dealers outside the group are not read.
pub fn finalize<C: Curve>(group: &Group<C>, me: Idx, deals: &[Deal<C>], qual: Vec<Idx>) -> (out:
    DKGOutput<C>)
    ensures
        out.qual == qual,
        out.share.index == me,
        out.public@.len() == group.required(),
        C::obeys_sum_spec() ==> out.public@ == joint_public(
            me,
            qual@,
            deals@,
            group.required(),
            group.members().len(),
        ),
        C::obeys_sum_spec() ==> out.share.private == joint_share(
            me,
            qual@,
            deals@,
            group.members().len(),
        ),
{
    let n = group.len();
    let t = group.threshold();
    let mut public: Vec<C::Point> = Vec::new();
    let mut k: usize = 0;
    while k < t
        invariant
            k <= t,
            public@.len() == k,
            C::obeys_sum_spec() ==> forall|j: int|
                0 <= j < k ==> #[trigger] public@[j] == C::point_zero(),
        decreases t - k,
    {
        public.push(C::zero_point());
        k += 1;
    }
    let mut share = C::zero_scalar();
    let mut d: usize = 0;
    while d < n
        invariant
            d <= n <= u32::MAX + 1,
            public@.len() == t,
            C::obeys_sum_spec() ==> public@ == joint_public(me, qual@, deals@, t as nat, d as nat),
            C::obeys_sum_spec() ==> share == joint_share(me, qual@, deals@, d as nat),
        decreases n - d,
    {
        let dealer = d as Idx;
        if dealer == me || occurs(qual.as_slice(), dealer) {
            let at = find_deal(deals, dealer);
            if at < deals.len() {
                add_commitment::<C>(&mut public, deals[at].public.as_slice());
                share = C::add_scalars(&share, &deals[at].share);
            }
        }
        d += 1;
    }
    DKGOutput { qual, public, share: Share { index: me, private: share } }
}

/// The commitment of the first deal of the dealer `d`, if it has one.
pub open spec fn commitment_of<C: Curve>(deals: Seq<Deal<C>>, d: Idx) -> Option<Seq<C::Point>> {
    if first_deal(deals, d) < deals.len() {
        Some(deals[first_deal(deals, d)].public@)
    } else {
        None
    }
}

/// Participants who qualify, who agree on who qualifies and who hold the same
/// commitment of every qualified dealer compute the same joint commitment,
/// and with it the same joint public key.
pub proof fn lemma_consistent_public<C: Curve>(
    me: Idx,
    mine: Seq<Deal<C>>,
    you: Idx,
    yours: Seq<Deal<C>>,
    qual: Seq<Idx>,
    t: nat,
    n: nat,
)
    requires
        n <= u32::MAX + 1,
        qual.contains(me),
        qual.contains(you),
        forall|d: Idx| qual.contains(d) ==> commitment_of(mine, d) == commitment_of(yours, d),
    ensures
        joint_public(me, qual, mine, t, n) == joint_public(you, qual, yours, t, n),
    decreases n,
{
    if n > 0 {
        lemma_consistent_public(me, mine, you, yours, qual, t, (n - 1) as nat);
        let d = (n - 1) as Idx;
        if qual.contains(d) {
            assert(commitment_of(mine, d) == commitment_of(yours, d));
        }
    }
}

} // verus!
