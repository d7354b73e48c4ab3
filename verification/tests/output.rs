//! Assembling the output from the deals that count.

use dkg_core::group::{Curve, Group, Node};
use dkg_core::output::{finalize, Deal};
use dkg_core::types::Share;

/// Points and scalars are numbers, and a sum remembers the order in which it
/// was made: adding `b` to `a` gives `31 * a + b`.
#[derive(Clone, Debug, PartialEq)]
struct Ordered;

impl Curve for Ordered {
    type Scalar = u64;
    type Point = u64;

    fn zero_scalar() -> u64 {
        0
    }

    fn add_scalars(a: &u64, b: &u64) -> u64 {
        a.wrapping_mul(31).wrapping_add(*b)
    }

    fn zero_point() -> u64 {
        0
    }

    fn add_points(a: &u64, b: &u64) -> u64 {
        a.wrapping_mul(31).wrapping_add(*b)
    }
}

fn group(n: u32, t: usize) -> Group<Ordered> {
    Group::new((0..n).map(|i| Node::new(i, i as u64)).collect(), t).unwrap()
}

fn deal(dealer_idx: u32, public: &[u64], share: u64) -> Deal<Ordered> {
    Deal { dealer_idx, public: public.to_vec(), share }
}

#[test]
fn finalize_adds_the_qualified_deals_in_index_order() {
    let deals = vec![deal(2, &[5, 6], 7), deal(0, &[1, 2], 3), deal(1, &[10, 20], 30)];
    let out = finalize(&group(3, 2), 1, &deals, vec![0, 1, 2]);
    assert_eq!(out.qual, vec![0, 1, 2]);
    // ((0 * 31 + 1) * 31 + 10) * 31 + 5, and so on
    assert_eq!(out.public, vec![(1 * 31 + 10) * 31 + 5, (2 * 31 + 20) * 31 + 6]);
    assert_eq!(out.share, Share { index: 1, private: (3 * 31 + 30) * 31 + 7 });
}

#[test]
fn finalize_is_the_same_for_every_qualified_holder_of_the_same_commitments() {
    let mine = vec![deal(0, &[1, 2], 3), deal(1, &[10, 20], 30), deal(3, &[5, 6], 7)];
    let yours = vec![deal(3, &[5, 6], 70), deal(1, &[10, 20], 300), deal(0, &[1, 2], 3000)];
    let a = finalize(&group(4, 2), 0, &mine, vec![0, 1, 3]);
    let b = finalize(&group(4, 2), 3, &yours, vec![0, 1, 3]);
    assert_eq!(a.public, b.public);
    assert_eq!(a.qual, b.qual);
    assert_ne!(a.share, b.share);
}

#[test]
fn finalize_leaves_out_the_unqualified() {
    let deals = vec![deal(0, &[1, 2], 3), deal(1, &[10, 20], 30), deal(2, &[5, 6], 7)];
    let out = finalize(&group(3, 2), 0, &deals, vec![0, 2]);
    assert_eq!(out.public, vec![1 * 31 + 5, 2 * 31 + 6]);
    assert_eq!(out.share.private, 3 * 31 + 7);
    assert_eq!(out.qual, vec![0, 2]);
}

#[test]
fn finalize_always_counts_the_own_deal() {
    let deals = vec![deal(0, &[1, 2], 3), deal(1, &[10, 20], 30), deal(2, &[5, 6], 7)];
    // 0 does not qualify, yet adds its own deal to the qualified ones
    let outside = finalize(&group(3, 2), 0, &deals, vec![1, 2]);
    let inside = finalize(&group(3, 2), 1, &deals, vec![1, 2]);
    assert_eq!(inside.public, vec![10 * 31 + 5, 20 * 31 + 6]);
    assert_eq!(outside.public, vec![(1 * 31 + 10) * 31 + 5, (2 * 31 + 20) * 31 + 6]);
    assert_eq!(outside.qual, inside.qual);
    assert_ne!(outside.public, inside.public);
}

#[test]
fn finalize_skips_qualified_dealers_it_holds_no_deal_of() {
    let deals = vec![deal(1, &[10, 20], 30)];
    let out = finalize(&group(3, 2), 1, &deals, vec![0, 1, 2]);
    assert_eq!(out.public, vec![10, 20]);
    assert_eq!(out.share.private, 30);
}

#[test]
fn finalize_takes_the_first_deal_of_a_dealer() {
    let deals = vec![deal(1, &[10, 20], 30), deal(1, &[11, 21], 31)];
    let out = finalize(&group(2, 2), 0, &deals, vec![1]);
    assert_eq!(out.public, vec![10, 20]);
    assert_eq!(out.share.private, 30);
}

#[test]
fn finalize_does_not_read_deals_from_outside_the_group() {
    let deals = vec![deal(7, &[9, 9], 9), deal(0, &[1, 2], 3)];
    let out = finalize(&group(2, 2), 0, &deals, vec![0, 7]);
    assert_eq!(out.public, vec![1, 2]);
    assert_eq!(out.share.private, 3);
    assert_eq!(out.qual, vec![0, 7]);
}

#[test]
fn finalize_commitment_has_as_many_entries_as_the_threshold() {
    let deals = vec![deal(0, &[1], 3), deal(1, &[10, 20, 30, 40], 30)];
    let out = finalize(&group(2, 2), 0, &deals, vec![0, 1]);
    // the short commitment leaves the second entry alone, the long one is cut
    assert_eq!(out.public, vec![1 * 31 + 10, 20]);
    let out = finalize(&group(2, 0), 0, &deals, vec![0, 1]);
    assert_eq!(out.public, Vec::<u64>::new());
    assert_eq!(out.share.private, 3 * 31 + 30);
}

#[test]
fn finalize_with_no_deals_is_all_zero() {
    let out = finalize(&group(3, 2), 2, &[], vec![0, 1, 2]);
    assert_eq!(out.public, vec![0, 0]);
    assert_eq!(out.share, Share { index: 2, private: 0 });
}
