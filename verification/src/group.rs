//! The fixed set of participants and the reconstruction threshold.
use vstd::prelude::*;
use crate::types::{DKGError, Idx};

verus! {

/// The group in which keys and shares live. The library adds in it and
/// nothing more: polynomials, encryption and signatures are the caller's.
///
/// The sums may be given a meaning: an implementation that sets
/// `obeys_sum_spec` says that its four operations compute the four functions
/// named beside them, and what the library adds up is then stated in those
/// functions. An implementation that does not promises nothing.
pub trait Curve: Clone + core::fmt::Debug + PartialEq {
    /// Secret material: polynomial coefficients, shares.
    type Scalar: Clone + core::fmt::Debug + PartialEq;

    /// Public material: keys, commitments.
    type Point: Clone + core::fmt::Debug + PartialEq;

    /// Whether the operations compute the functions named beside them.
    open spec fn obeys_sum_spec() -> bool {
        false
    }

    /// The scalar that adds nothing.
    open spec fn scalar_zero() -> Self::Scalar {
        arbitrary()
    }

    /// The sum of two scalars.
    open spec fn scalar_sum(a: Self::Scalar, b: Self::Scalar) -> Self::Scalar {
        arbitrary()
    }

    /// The point that adds nothing.
    open spec fn point_zero() -> Self::Point {
        arbitrary()
    }

    /// The sum of two points.
    open spec fn point_sum(a: Self::Point, b: Self::Point) -> Self::Point {
        arbitrary()
    }

    /// The scalar that adds nothing.
    fn zero_scalar() -> (zero: Self::Scalar)
        ensures
            Self::obeys_sum_spec() ==> zero == Self::scalar_zero(),
    ;

    /// Adds two scalars.
    fn add_scalars(a: &Self::Scalar, b: &Self::Scalar) -> (sum: Self::Scalar)
        ensures
            Self::obeys_sum_spec() ==> sum == Self::scalar_sum(*a, *b),
    ;

    /// The point that adds nothing.
    fn zero_point() -> (zero: Self::Point)
        ensures
            Self::obeys_sum_spec() ==> zero == Self::point_zero(),
    ;

    /// Adds two points.
    fn add_points(a: &Self::Point, b: &Self::Point) -> (sum: Self::Point)
        ensures
            Self::obeys_sum_spec() ==> sum == Self::point_sum(*a, *b),
    ;
}

/// A participant: its index and its public key.
#[derive(Debug, PartialEq)]
pub struct Node<C: Curve> {
    id: Idx,
    key: C::Point,
}

impl<C: Curve> Node<C> {
    /// The node's index.
    pub closed spec fn index(&self) -> Idx {
        self.id
    }

    /// The node's public key.
    pub closed spec fn public_key(&self) -> C::Point {
        self.key
    }

    /// The participant with the given index and public key.
    pub fn new(index: Idx, public: C::Point) -> (node: Self)
        ensures
            node.index() == index,
            node.public_key() == public,
    {
        Node { id: index, key: public }
    }

    /// The node's index.
    pub fn id(&self) -> (id: Idx)
        ensures
            id == self.index(),
    {
        self.id
    }

    /// The node's public key.
    pub fn key(&self) -> (key: &C::Point)
        ensures
            *key == self.public_key(),
    {
        &self.key
    }
}

impl<C: Curve> Clone for Node<C> {
    /// A node with the same index and a clone of the key.
    fn clone(&self) -> (node: Self)
        ensures
            node.index() == self.index(),
    {
        Node { id: self.id, key: self.key.clone() }
    }
}

/// Whether every node sits at the position that its index names.
pub open spec fn indexed_in_order<C: Curve>(nodes: Seq<Node<C>>) -> bool {
    forall|i: int| 0 <= i < nodes.len() ==> (#[trigger] nodes[i]).index() == i
}

/// The participants, ordered by index, and the threshold.
#[derive(Debug, PartialEq)]
pub struct Group<C: Curve> {
    nodes: Vec<Node<C>>,
    threshold: usize,
}

impl<C: Curve> Group<C> {
    /// The participants in index order.
    pub closed spec fn members(&self) -> Seq<Node<C>> {
        self.nodes@
    }

    /// The least number of valid contributions that reconstructs.
    pub closed spec fn required(&self) -> nat {
        self.threshold as nat
    }

    /// The threshold does not exceed the number of participants, and the
    /// participant with index `i` sits at position `i`.
    pub open spec fn wf(&self) -> bool {
        &&& self.required() <= self.members().len()
        &&& indexed_in_order(self.members())
    }

    #[verifier::type_invariant]
    spec fn inv(self) -> bool {
        self.wf()
    }

    /// Whether `idx` names a participant.
    pub open spec fn has_index(&self, idx: Idx) -> bool {
        idx < self.members().len()
    }

    /// Forms the group, or says what is wrong with it: a threshold above the
    /// number of participants first, then the first node out of place.
    pub fn new(nodes: Vec<Node<C>>, threshold: usize) -> (res: Result<Self, DKGError>)
        ensures
            match res {
                Ok(group) => {
                    &&& group.wf()
                    &&& group.members() == nodes@
                    &&& group.required() == threshold
                },
                Err(DKGError::InvalidThreshold(t, n)) => {
                    &&& threshold > nodes.len()
                    &&& t == threshold
                    &&& n == nodes.len()
                },
                Err(DKGError::InvalidIndex(pos, idx)) => {
                    &&& threshold <= nodes.len()
                    &&& pos < nodes.len()
                    &&& indexed_in_order(nodes@.take(pos as int))
                    &&& idx == nodes[pos as int].index()
                    &&& idx != pos
                },
                Err(_) => false,
            },
    {
        if threshold > nodes.len() {
            return Err(DKGError::InvalidThreshold(threshold, nodes.len()));
        }
        let mut i: usize = 0;
        while i < nodes.len()
            invariant
                threshold <= nodes.len(),
                i <= nodes.len(),
                indexed_in_order(nodes@.take(i as int)),
            decreases nodes.len() - i,
        {
            if i > u32::MAX as usize || nodes[i].id != i as u32 {
                return Err(DKGError::InvalidIndex(i, nodes[i].id));
            }
            assert forall|j: int| 0 <= j < i + 1 implies (#[trigger] nodes@.take(i + 1)[j]).index()
                == j by {
                if j < i {
                    assert(nodes@.take(i as int)[j] == nodes@[j]);
                }
            }
            i += 1;
        }
        assert(nodes@.take(i as int) == nodes@);
        Ok(Group { nodes, threshold })
    }

    /// The number of participants.
    pub fn len(&self) -> (n: usize)
        ensures
            n == self.members().len(),
            n <= u32::MAX + 1,
    {
        proof {
            use_type_invariant(self);
            if self.nodes@.len() > 0 {
                assert(self.nodes@[self.nodes@.len() - 1].index() == self.nodes@.len() - 1);
            }
        }
        self.nodes.len()
    }

    /// The threshold.
    pub fn threshold(&self) -> (t: usize)
        ensures
            t == self.required(),
            t <= self.members().len(),
    {
        proof {
            use_type_invariant(self);
        }
        self.threshold
    }

    /// Whether `idx` names a participant.
    pub fn contains_index(&self, idx: Idx) -> (found: bool)
        ensures
            found == self.has_index(idx),
    {
        (idx as usize) < self.nodes.len()
    }

    /// The participant with index `idx`.
    pub fn node(&self, idx: Idx) -> (found: Option<&Node<C>>)
        ensures
            match found {
                Some(node) => self.has_index(idx) && *node == self.members()[idx as int]
                    && node.index() == idx,
                None => !self.has_index(idx),
            },
    {
        proof {
            use_type_invariant(self);
        }
        if (idx as usize) < self.nodes.len() {
            Some(&self.nodes[idx as usize])
        } else {
            None
        }
    }

    /// The public key of the participant with index `idx`.
    pub fn public_key(&self, idx: Idx) -> (found: Option<&C::Point>)
        ensures
            match found {
                Some(key) => self.has_index(idx) && *key == self.members()[idx as int].public_key(),
                None => !self.has_index(idx),
            },
    {
        match self.node(idx) {
            Some(node) => Some(node.key()),
            None => None,
        }
    }
}

impl<C: Curve> Clone for Group<C> {
    /// A group of as many participants, with the same indices and threshold
    /// and clones of the keys.
    fn clone(&self) -> (group: Self)
        ensures
            group.wf(),
            group.required() == self.required(),
            group.members().len() == self.members().len(),
    {
        proof {
            use_type_invariant(self);
        }
        let mut nodes: Vec<Node<C>> = Vec::new();
        let mut i: usize = 0;
        while i < self.nodes.len()
            invariant
                i <= self.nodes.len(),
                nodes.len() == i,
                indexed_in_order(self.nodes@),
                indexed_in_order(nodes@),
            decreases self.nodes.len() - i,
        {
            let node = self.nodes[i].clone();
            nodes.push(node);
            i += 1;
        }
        Group { nodes, threshold: self.threshold }
    }
}

} // verus!
