//! The bookkeeping of the protocol: who contributed, who is contested and who
//! qualifies.
//!
//! Whether a share decrypts and matches its dealer's commitment, and whether a
//! justification holds, is for the curve to decide. What follows from those
//! verdicts is counted here, over indices alone, so that every participant
//! who reads the same board reaches the same conclusion.
use vstd::prelude::*;
use crate::group::{Curve, Group};
use crate::types::{BundledResponses, DKGError, DKGResult, Idx, Response, Status};

verus! {

/// Whether the indices grow from each entry to the next.
pub open spec fn increasing(list: Seq<Idx>) -> bool {
    forall|i: int, j: int| 0 <= i < j < list.len() ==> list[i] < list[j]
}

/// An increasing list has as many entries as the set of its entries has
/// members.
pub proof fn lemma_increasing_len(list: Seq<Idx>, members: Set<Idx>)
    requires
        increasing(list),
        forall|d: Idx| list.contains(d) <==> members.contains(d),
    ensures
        members.finite(),
        members.len() == list.len(),
{
    broadcast use vstd::seq_lib::seq_to_set_is_finite;

    assert(list.to_set() =~= members);
    list.unique_seq_to_set();
}

/// Two increasing lists with the same entries are the same list: who is
/// contested and who qualifies is settled by the board alone, not by the
/// order in which it is read.
pub proof fn lemma_increasing_unique(one: Seq<Idx>, other: Seq<Idx>)
    requires
        increasing(one),
        increasing(other),
        forall|d: Idx| one.contains(d) <==> other.contains(d),
    ensures
        one == other,
    decreases one.len(),
{
    lemma_increasing_len(one, one.to_set());
    lemma_increasing_len(other, one.to_set());
    if one.len() > 0 {
        let last = one.last();
        assert(one.contains(last));
        let at = choose|k: int| 0 <= k < other.len() && other[k] == last;
        if at < other.len() - 1 {
            let above = other.last();
            assert(other.contains(above));
            let back = choose|k: int| 0 <= k < one.len() && one[k] == above;
            assert(one[back] <= last);
        }
        let rest = one.drop_last();
        let rest_other = other.drop_last();
        assert forall|d: Idx| rest.contains(d) <==> rest_other.contains(d) by {
            if rest.contains(d) {
                let k = choose|k: int| 0 <= k < rest.len() && rest[k] == d;
                assert(one[k] == d);
                assert(one.contains(d));
                let j = choose|j: int| 0 <= j < other.len() && other[j] == d;
                assert(rest_other[j] == d);
            }
            if rest_other.contains(d) {
                let k = choose|k: int| 0 <= k < rest_other.len() && rest_other[k] == d;
                assert(other[k] == d);
                assert(other.contains(d));
                let j = choose|j: int| 0 <= j < one.len() && one[j] == d;
                assert(rest[j] == d);
            }
        }
        lemma_increasing_unique(rest, rest_other);
        assert(one == rest.push(last));
        assert(other == rest_other.push(last));
    }
}

/// The dealers among the `n` participants whose bundle is on the board with
/// a share that verified. A participant does not doubt its own deal: it is
/// one of them when its own bundle is on the board.
pub open spec fn contributors(n: nat, verified: Seq<Idx>) -> Set<Idx> {
    Set::new(|d: Idx| d < n && verified.contains(d))
}

/// Whether `me` has to complain about the dealer `d`: another participant
/// whose share for `me` did not verify, or never came.
pub open spec fn complained_of(n: nat, me: Idx, verified: Seq<Idx>, d: Idx) -> bool {
    d < n && d != me && !verified.contains(d)
}

/// Whether `responses` is the list of `me`'s complaints: one complaint for
/// each dealer complained of, in the order of the dealers' indices.
pub open spec fn lists_complaints(
    responses: Seq<Response>,
    n: nat,
    me: Idx,
    verified: Seq<Idx>,
) -> bool {
    let dealers = responses.map_values(|r: Response| r.dealer_idx);
    &&& increasing(dealers)
    &&& forall|i: int| 0 <= i < responses.len() ==> (#[trigger] responses[i]).status
        == Status::Complaint
    &&& forall|d: Idx| dealers.contains(d) <==> complained_of(n, me, verified, d)
}

/// The error of a share holder who saw too few contributions, if it saw too
/// few: contributors fewer than the threshold. The error tells how many
/// dealers other than `me` contributed, and the threshold.
pub open spec fn shortfall(required: nat, n: nat, me: Idx, verified: Seq<Idx>) -> Option<
    DKGError,
> {
    if contributors(n, verified).len() < required {
        Some(
            DKGError::NotEnoughValidShares(
                contributors(n, verified).remove(me).len() as usize,
                required as usize,
            ),
        )
    } else {
        None
    }
}

/// For each of the `n` indices, whether it occurs in `list`.
fn mark(n: usize, list: &[Idx]) -> (mask: Vec<bool>)
    ensures
        mask.len() == n,
        forall|d: int| 0 <= d < n ==> (#[trigger] mask[d] <==> exists|k: int|
            0 <= k < list.len() && list[k] == d),
{
    let mut mask: Vec<bool> = Vec::new();
    let mut d: usize = 0;
    while d < n
        invariant
            d <= n,
            mask.len() == d,
            forall|e: int| 0 <= e < d ==> !(#[trigger] mask[e]),
        decreases n - d,
    {
        mask.push(false);
        d += 1;
    }
    let mut k: usize = 0;
    while k < list.len()
        invariant
            k <= list.len(),
            mask.len() == n,
            forall|d: int| 0 <= d < n ==> (#[trigger] mask[d] <==> exists|j: int|
                0 <= j < k && list[j] == d),
        decreases list.len() - k,
    {
        let at = list[k] as usize;
        if at < n {
            mask.set(at, true);
        }
        assert forall|d: int| 0 <= d < n implies (#[trigger] mask[d] <==> exists|j: int|
            0 <= j < k + 1 && list[j] == d) by {
            if d == at {
                assert(list[k as int] == d);
            }
        }
        k += 1;
    }
    mask
}

/// The indices at which `mask` holds, in increasing order.
fn select(mask: &Vec<bool>) -> (list: Vec<Idx>)
    requires
        mask.len() <= u32::MAX + 1,
    ensures
        increasing(list@),
        forall|d: Idx| list@.contains(d) <==> (d < mask.len() && mask[d as int]),
{
    let mut list: Vec<Idx> = Vec::new();
    let mut i: usize = 0;
    while i < mask.len()
        invariant
            i <= mask.len() <= u32::MAX + 1,
            increasing(list@),
            forall|d: Idx| list@.contains(d) <==> (d < i && mask[d as int]),
        decreases mask.len() - i,
    {
        if mask[i] {
            let ghost before = list@;
            assert forall|k: int| 0 <= k < before.len() implies #[trigger] before[k] < i by {
                assert(before.contains(before[k]));
            }
            list.push(i as Idx);
            assert forall|d: Idx| list@.contains(d) <==> (d < i + 1 && mask[d as int]) by {
                vstd::seq_lib::lemma_seq_contains_after_push(before, i as Idx, d);
            }
        }
        i += 1;
    }
    list
}

/// What a share holder makes of the round of shares.
///
/// `verified` names the dealers whose bundle on the board held a share for
/// `me` that decrypted and matched the dealer's commitment, in any order,
/// and `me` itself if its own bundle is on the board. Indices outside the
/// group and repetitions do not count.
///
/// Fails when fewer dealers contributed than the threshold requires, with the
/// number of other dealers that did. Otherwise returns the complaints to
/// publish: one for each other participant that did not contribute, or
/// nothing when all did.
pub fn tally_shares<C: Curve>(group: &Group<C>, me: Idx, verified: &[Idx]) -> (res: DKGResult<
    Option<BundledResponses>,
>)
    ensures
        match res {
            Ok(Some(bundle)) => {
                &&& shortfall(group.required(), group.members().len(), me, verified@) is None
                &&& bundle.share_idx == me
                &&& bundle.responses@.len() > 0
                &&& lists_complaints(bundle.responses@, group.members().len(), me, verified@)
            },
            Ok(None) => {
                &&& shortfall(group.required(), group.members().len(), me, verified@) is None
                &&& forall|d: Idx| !complained_of(group.members().len(), me, verified@, d)
            },
            Err(e) => shortfall(group.required(), group.members().len(), me, verified@)
                == Some(e),
        },
{
    let n = group.len();
    let ghost size = group.members().len();
    let seen = mark(n, verified);
    let mut valid: Vec<bool> = Vec::new();
    let mut missing: Vec<bool> = Vec::new();
    let mut d: usize = 0;
    while d < n
        invariant
            d <= n <= u32::MAX + 1,
            n == size,
            seen.len() == n,
            valid.len() == d,
            missing.len() == d,
            forall|e: int| 0 <= e < n ==> (#[trigger] seen[e] <==> exists|k: int|
                0 <= k < verified.len() && verified[k] == e),
            forall|e: Idx| e < d ==> (#[trigger] valid[e as int] <==> contributors(
                size,
                verified@,
            ).remove(me).contains(e)),
            forall|e: Idx| e < d ==> (#[trigger] missing[e as int] <==> complained_of(
                size,
                me,
                verified@,
                e,
            )),
        decreases n - d,
    {
        let other = d != me as usize;
        assert(seen[d as int] <==> verified@.contains(d as Idx)) by {
            if seen[d as int] {
                let k = choose|k: int| 0 <= k < verified.len() && verified[k] == d;
                assert(verified@[k] == d as Idx);
            }
        }
        valid.push(other && seen[d]);
        missing.push(other && !seen[d]);
        d += 1;
    }
    let dealers = select(&seen);
    let others = select(&valid);
    proof {
        assert forall|e: Idx| dealers@.contains(e) <==> contributors(size, verified@).contains(
            e,
        ) by {
            if e < n && seen[e as int] {
                let k = choose|k: int| 0 <= k < verified.len() && verified[k] == e;
                assert(verified@[k] == e);
            }
            if contributors(size, verified@).contains(e) {
                let k = choose|k: int| 0 <= k < verified@.len() && verified@[k] == e;
                assert(verified[k] == e);
            }
        }
        lemma_increasing_len(dealers@, contributors(size, verified@));
        lemma_increasing_len(others@, contributors(size, verified@).remove(me));
    }
    let required = group.threshold();
    if dealers.len() < required {
        return Err(DKGError::NotEnoughValidShares(others.len(), required));
    }
    let complained = select(&missing);
    let mut responses: Vec<Response> = Vec::new();
    let mut i: usize = 0;
    while i < complained.len()
        invariant
            i <= complained.len(),
            responses.len() == i,
            forall|k: int| 0 <= k < i ==> #[trigger] responses[k] == (Response {
                dealer_idx: complained[k],
                status: Status::Complaint,
            }),
        decreases complained.len() - i,
    {
        responses.push(Response { dealer_idx: complained[i], status: Status::Complaint });
        i += 1;
    }
    proof {
        let listed = responses@.map_values(|r: Response| r.dealer_idx);
        assert(listed == complained@);
        if complained.len() == 0 {
            assert forall|d: Idx| !complained_of(size, me, verified@, d) by {
                assert(!complained@.contains(d));
            }
        }
    }
    if responses.len() == 0 {
        Ok(None)
    } else {
        Ok(Some(BundledResponses { share_idx: me, responses }))
    }
}

/// When some dealers never publish, every share holder falls short by them.
///
/// `published` names each dealer that published once; all their shares
/// verify. Where the publishers number fewer than the threshold, and only
/// then, a share holder fails, with the number of publishers other than
/// itself: all of them if it withheld its own shares, one fewer if it
/// published.
pub proof fn lemma_missing_dealers(required: nat, n: nat, me: Idx, published: Seq<Idx>)
    requires
        published.no_duplicates(),
        forall|k: int| 0 <= k < published.len() ==> published[k] < n,
    ensures
        shortfall(required, n, me, published) == if published.len() < required {
            Some(
                DKGError::NotEnoughValidShares(
                    if published.contains(me) {
                        (published.len() - 1) as usize
                    } else {
                        published.len() as usize
                    },
                    required as usize,
                ),
            )
        } else {
            None
        },
{
    broadcast use vstd::seq_lib::seq_to_set_is_finite;

    published.unique_seq_to_set();
    assert(contributors(n, published) =~= published.to_set());
}

/// Whether the share holder behind `bundle` files a valid complaint about
/// `dealer`: the holder is one of the `n` participants and the bundle holds a
/// complaint about the dealer.
pub open spec fn accuses(bundle: BundledResponses, n: nat, dealer: Idx) -> bool {
    &&& bundle.share_idx < n
    &&& bundle.responses@.contains(Response { dealer_idx: dealer, status: Status::Complaint })
}

/// Whether the deal of `dealer` is contested: the dealer is one of the `n`
/// participants and some bundle accuses it.
pub open spec fn contested(n: nat, responses: Seq<BundledResponses>, dealer: Idx) -> bool {
    &&& dealer < n
    &&& exists|i: int| 0 <= i < responses.len() && accuses(#[trigger] responses[i], n, dealer)
}

/// The dealers whose deals are contested, in increasing order.
///
/// The round of responses ends the protocol when there is none; otherwise
/// those listed owe a justification.
pub fn contested_dealers<C: Curve>(group: &Group<C>, responses: &[BundledResponses]) -> (list:
    Vec<Idx>)
    ensures
        increasing(list@),
        forall|d: Idx| list@.contains(d) <==> contested(group.members().len(), responses@, d),
{
    let n = group.len();
    let mut mask: Vec<bool> = Vec::new();
    let mut d: usize = 0;
    while d < n
        invariant
            d <= n,
            mask.len() == d,
            forall|e: int| 0 <= e < d ==> !(#[trigger] mask[e]),
        decreases n - d,
    {
        mask.push(false);
        d += 1;
    }
    let mut i: usize = 0;
    while i < responses.len()
        invariant
            i <= responses.len(),
            n == group.members().len(),
            n <= u32::MAX + 1,
            mask.len() == n,
            forall|e: int| 0 <= e < n ==> (#[trigger] mask[e] <==> exists|k: int|
                0 <= k < i && accuses(#[trigger] responses[k], n as nat, e as Idx)),
        decreases responses.len() - i,
    {
        let bundle = &responses[i];
        let ghost before = mask@;
        if (bundle.share_idx as usize) < n {
            let mut j: usize = 0;
            while j < bundle.responses.len()
                invariant
                    j <= bundle.responses.len(),
                    mask.len() == n,
                    before.len() == n,
                    n <= u32::MAX + 1,
                    forall|e: int| 0 <= e < n ==> (#[trigger] mask[e] <==> before[e] || exists|
                        k: int,
                    |
                        0 <= k < j && #[trigger] bundle.responses[k] == (Response {
                            dealer_idx: e as Idx,
                            status: Status::Complaint,
                        })),
                decreases bundle.responses.len() - j,
            {
                let response = &bundle.responses[j];
                let at = response.dealer_idx as usize;
                let complaint = match response.status {
                    Status::Complaint => true,
                    Status::Success => false,
                };
                if complaint && at < n {
                    mask.set(at, true);
                }
                assert forall|e: int| 0 <= e < n implies (#[trigger] mask[e] <==> before[e]
                    || exists|k: int|
                    0 <= k < j + 1 && #[trigger] bundle.responses[k] == (Response {
                        dealer_idx: e as Idx,
                        status: Status::Complaint,
                    })) by {
                    if complaint && e == at {
                        assert(bundle.responses[j as int] == (Response {
                            dealer_idx: e as Idx,
                            status: Status::Complaint,
                        }));
                    }
                }
                j += 1;
            }
        }
        assert forall|e: int| 0 <= e < n implies (#[trigger] mask[e] <==> exists|k: int|
            0 <= k < i + 1 && accuses(#[trigger] responses[k], n as nat, e as Idx)) by {
            if accuses(responses[i as int], n as nat, e as Idx) {
                let accusation = Response { dealer_idx: e as Idx, status: Status::Complaint };
                let k = choose|k: int|
                    0 <= k < bundle.responses@.len() && bundle.responses@[k] == accusation;
                assert(bundle.responses[k] == accusation);
            }
            if mask[e] && !before[e] {
                let k = choose|k: int|
                    0 <= k < bundle.responses.len() && #[trigger] bundle.responses[k] == (Response {
                        dealer_idx: e as Idx,
                        status: Status::Complaint,
                    });
                assert(bundle.responses@[k] == (Response {
                    dealer_idx: e as Idx,
                    status: Status::Complaint,
                }));
                assert(accuses(responses[i as int], n as nat, e as Idx));
            }
        }
        i += 1;
    }
    select(&mask)
}

/// Whether the share holder `holder` accuses `dealer`: both are among the
/// `n` participants and some bundle of the holder accuses the dealer.
pub open spec fn accused_by(
    n: nat,
    responses: Seq<BundledResponses>,
    dealer: Idx,
    holder: Idx,
) -> bool {
    &&& dealer < n
    &&& exists|i: int|
        0 <= i < responses.len() && (#[trigger] responses[i]).share_idx == holder && accuses(
            responses[i],
            n,
            dealer,
        )
}

/// Whether `bundle` holds a complaint about `dealer`.
fn complains_of(bundle: &BundledResponses, dealer: Idx) -> (found: bool)
    ensures
        found == bundle.responses@.contains(
            Response { dealer_idx: dealer, status: Status::Complaint },
        ),
{
    let ghost complaint = Response { dealer_idx: dealer, status: Status::Complaint };
    let mut j: usize = 0;
    while j < bundle.responses.len()
        invariant
            j <= bundle.responses.len(),
            complaint == (Response { dealer_idx: dealer, status: Status::Complaint }),
            forall|k: int| 0 <= k < j ==> bundle.responses@[k] != complaint,
        decreases bundle.responses.len() - j,
    {
        let response = &bundle.responses[j];
        let is_complaint = match response.status {
            Status::Complaint => true,
            Status::Success => false,
        };
        if is_complaint && response.dealer_idx == dealer {
            assert(bundle.responses@[j as int] == complaint);
            return true;
        }
        j += 1;
    }
    false
}

/// The share holders that accuse `dealer`, in increasing order: those to
/// whom a contested dealer owes the share it dealt them, in the clear.
pub fn accusers<C: Curve>(group: &Group<C>, responses: &[BundledResponses], dealer: Idx) -> (list:
    Vec<Idx>)
    ensures
        increasing(list@),
        forall|h: Idx|
            list@.contains(h) <==> accused_by(group.members().len(), responses@, dealer, h),
{
    let n = group.len();
    let mut mask: Vec<bool> = Vec::new();
    let mut d: usize = 0;
    while d < n
        invariant
            d <= n,
            mask.len() == d,
            forall|e: int| 0 <= e < d ==> !(#[trigger] mask[e]),
        decreases n - d,
    {
        mask.push(false);
        d += 1;
    }
    let mut i: usize = 0;
    while i < responses.len()
        invariant
            i <= responses.len(),
            n == group.members().len(),
            n <= u32::MAX + 1,
            mask.len() == n,
            forall|e: int|
                0 <= e < n ==> (#[trigger] mask[e] <==> dealer < n && exists|k: int|
                    0 <= k < i && (#[trigger] responses[k]).share_idx == e && accuses(
                        responses[k],
                        n as nat,
                        dealer,
                    )),
        decreases responses.len() - i,
    {
        let bundle = &responses[i];
        let holder = bundle.share_idx as usize;
        if holder < n && (dealer as usize) < n && complains_of(bundle, dealer) {
            mask.set(holder, true);
        }
        assert forall|e: int| 0 <= e < n implies (#[trigger] mask[e] <==> dealer < n && exists|
            k: int,
        |
            0 <= k < i + 1 && (#[trigger] responses[k]).share_idx == e && accuses(
                responses[k],
                n as nat,
                dealer,
            )) by {
            if e == holder && accuses(*bundle, n as nat, dealer) {
                assert(responses[i as int].share_idx == e);
            }
        }
        i += 1;
    }
    let list = select(&mask);
    proof {
        assert forall|h: Idx| list@.contains(h) <==> accused_by(
            n as nat,
            responses@,
            dealer,
            h,
        ) by {
            if accused_by(n as nat, responses@, dealer, h) {
                let k = choose|k: int|
                    0 <= k < responses@.len() && (#[trigger] responses@[k]).share_idx == h
                        && accuses(responses@[k], n as nat, dealer);
                assert(responses[k].share_idx == h);
            }
        }
    }
    list
}

/// Whether the dealer `d` qualifies: one of the `n` participants whose deal
/// is uncontested, or contested and justified.
pub open spec fn qualifies(n: nat, contested: Seq<Idx>, justified: Seq<Idx>, d: Idx) -> bool {
    d < n && (contested.contains(d) ==> justified.contains(d))
}

/// The dealers that qualify.
pub open spec fn qualified_set(n: nat, contested: Seq<Idx>, justified: Seq<Idx>) -> Set<Idx> {
    Set::new(|d: Idx| qualifies(n, contested, justified, d))
}

/// The qualified dealers, in increasing order.
///
/// `contested` names the dealers whose deals are contested and `justified`
/// those whose justification held; indices outside the group do not count.
/// Fails when fewer dealers qualify than the threshold requires, with the
/// number that do.
pub fn qualified<C: Curve>(group: &Group<C>, contested: &[Idx], justified: &[Idx]) -> (res:
    DKGResult<Vec<Idx>>)
    ensures
        match res {
            Ok(qual) => {
                &&& increasing(qual@)
                &&& forall|d: Idx|
                    qual@.contains(d) <==> qualifies(
                        group.members().len(),
                        contested@,
                        justified@,
                        d,
                    )
                &&& qual.len() >= group.required()
            },
            Err(e) => {
                let observed = qualified_set(group.members().len(), contested@, justified@).len();
                &&& observed < group.required()
                &&& e == DKGError::NotEnoughValidShares(
                    observed as usize,
                    group.required() as usize,
                )
            },
        },
{
    let n = group.len();
    let ghost size = group.members().len();
    let doubted = mark(n, contested);
    let cleared = mark(n, justified);
    let mut mask: Vec<bool> = Vec::new();
    let mut d: usize = 0;
    while d < n
        invariant
            d <= n <= u32::MAX + 1,
            n == size,
            doubted.len() == n,
            cleared.len() == n,
            mask.len() == d,
            forall|e: int| 0 <= e < n ==> (#[trigger] doubted[e] <==> exists|k: int|
                0 <= k < contested.len() && contested[k] == e),
            forall|e: int| 0 <= e < n ==> (#[trigger] cleared[e] <==> exists|k: int|
                0 <= k < justified.len() && justified[k] == e),
            forall|e: Idx| e < d ==> (#[trigger] mask[e as int] <==> qualifies(
                size,
                contested@,
                justified@,
                e,
            )),
        decreases n - d,
    {
        assert(doubted[d as int] <==> contested@.contains(d as Idx)) by {
            if doubted[d as int] {
                let k = choose|k: int| 0 <= k < contested.len() && contested[k] == d;
                assert(contested@[k] == d as Idx);
            }
        }
        assert(cleared[d as int] <==> justified@.contains(d as Idx)) by {
            if cleared[d as int] {
                let k = choose|k: int| 0 <= k < justified.len() && justified[k] == d;
                assert(justified@[k] == d as Idx);
            }
        }
        mask.push(!doubted[d] || cleared[d]);
        d += 1;
    }
    let qual = select(&mask);
    proof {
        lemma_increasing_len(qual@, qualified_set(size, contested@, justified@));
    }
    let required = group.threshold();
    if qual.len() < required {
        Err(DKGError::NotEnoughValidShares(qual.len(), required))
    } else {
        Ok(qual)
    }
}

} // verus!
