//! Construction of the bounding volume hierarchy.
//!
//! The build recursively partitions the elements: the collection is sorted
//! by each element's box minimum along the axis of widest total extent (a
//! deterministic choice, preferred over a random axis for reproducibility),
//! split at the midpoint, and the halves built into child nodes. Every node
//! caches the union of its children's boxes, which establishes the
//! covering invariant (`wf_bvh_node`) that the traversal equivalence rests
//! on. The sort permutes the input in place (its multiset is unchanged),
//! and the built tree holds exactly the input elements as its leaves: a
//! one-element collection is duplicated into both children, so leaf
//! containment is stated as support equality (which elements occur), not
//! count equality. An empty collection builds the explicit empty hierarchy
//! whose box is absent and whose query always misses; an element without a
//! box simply contributes nothing to the cached boxes.

use vstd::prelude::*;

verus! {

use crate::aabb::{calc_surrounding_box, AxisAlignedBoundingBox};
use crate::equivalence::{fb_seq, fully_boxed};
use crate::hitable::{det_seq, spec_box, spec_box_seq, wf_seq, BvhNode, Hitable, HitableList};
use crate::num::COORD_LIMIT;
use std::sync::Arc;
use vstd::multiset::Multiset;

/// Relies on `Arc::clone` of the standard library: the returned handle
/// refers to the same shared entity.
#[verifier::external_body]
pub(crate) fn clone_hitable(h: &Arc<Hitable>) -> (r: Arc<Hitable>)
    ensures
        r == *h,
{
    Arc::clone(h)
}

/// Whether a scene element is deterministic and fully boxed — the class
/// of elements the pruning-equivalence theorem covers.
pub open spec fn det_and_boxed(a: Arc<Hitable>) -> bool {
    (*a).deterministic() && fully_boxed(*a)
}

/// The fold of two optional boxes: the union where both exist, the one
/// that exists otherwise.
pub open spec fn spec_box_pair(
    a: Option<AxisAlignedBoundingBox>,
    b: Option<AxisAlignedBoundingBox>,
) -> Option<AxisAlignedBoundingBox> {
    match (a, b) {
        (Some(x), Some(y)) => Some(crate::aabb::spec_surrounding_box(x, y)),
        (Some(x), None) => Some(x),
        (None, Some(y)) => Some(y),
        (None, None) => None,
    }
}

/// Determinism and boxedness carry across a permutation.
proof fn lemma_det_fb_transfer(s0: Seq<Arc<Hitable>>, s1: Seq<Arc<Hitable>>)
    requires
        s0.to_multiset() == s1.to_multiset(),
        forall|q: int| 0 <= q < s0.len() ==> det_and_boxed(#[trigger] s0[q]),
    ensures
        forall|q: int| 0 <= q < s1.len() ==> det_and_boxed(#[trigger] s1[q]),
{
    broadcast use vstd::seq_lib::group_to_multiset_ensures;

    assert forall|q: int| 0 <= q < s1.len() implies det_and_boxed(s1[q]) by {
        assert(s1.contains(s1[q]));
        assert(s0.to_multiset().count(s1[q]) > 0);
        assert(s0.contains(s1[q]));
        let i = choose|i: int| 0 <= i < s0.len() && s0[i] == s1[q];
        assert(det_and_boxed(s0[i]));
    }
}

/// Whether a scene element counts as one leaf of a built hierarchy: a
/// hierarchy node flattens into its children and an empty collection
/// carries nothing, so only the other elements are counted.
pub open spec fn counted_leaf(a: Arc<Hitable>) -> bool {
    match *a {
        Hitable::Bvh(_) => false,
        Hitable::List(l) => l.list@.len() > 0,
        _ => true,
    }
}

/// The leaves beneath a shared scene handle: hierarchy nodes flatten into
/// their children, empty collections contribute nothing, and anything
/// else is itself one leaf.
pub open spec fn leaves_of(a: Arc<Hitable>) -> Multiset<Arc<Hitable>>
    decreases a,
{
    match *a {
        Hitable::Bvh(n) => leaves_of(n.left).add(leaves_of(n.right)),
        Hitable::List(l) => if l.list@.len() == 0 {
            Multiset::empty()
        } else {
            Multiset::empty().insert(a)
        },
        _ => Multiset::empty().insert(a),
    }
}

/// The leaves beneath a hierarchy node: those of both children.
pub open spec fn node_leaves(n: BvhNode) -> Multiset<Arc<Hitable>> {
    leaves_of(n.left).add(leaves_of(n.right))
}

/// A counted element flattens to exactly itself.
proof fn lemma_counted_leaf_leaves(a: Arc<Hitable>)
    requires
        counted_leaf(a),
    ensures
        leaves_of(a) == Multiset::empty().insert(a),
{
}

/// Countedness carries across a permutation (multiset equality).
proof fn lemma_counted_transfer(s0: Seq<Arc<Hitable>>, s1: Seq<Arc<Hitable>>)
    requires
        s0.to_multiset() == s1.to_multiset(),
        forall|q: int| 0 <= q < s0.len() ==> counted_leaf(#[trigger] s0[q]),
    ensures
        forall|q: int| 0 <= q < s1.len() ==> counted_leaf(#[trigger] s1[q]),
{
    broadcast use vstd::seq_lib::group_to_multiset_ensures;

    assert forall|q: int| 0 <= q < s1.len() implies counted_leaf(s1[q]) by {
        assert(s1.contains(s1[q]));
        assert(s0.to_multiset().count(s1[q]) > 0);
        assert(s0.contains(s1[q]));
        let i = choose|i: int| 0 <= i < s0.len() && s0[i] == s1[q];
        assert(counted_leaf(s0[i]));
    }
}

/// Swapping two positions of a sequence leaves its multiset unchanged.
proof fn lemma_swap_multiset(s: Seq<Arc<Hitable>>, i: int, j: int)
    requires
        0 <= i < s.len(),
        0 <= j < s.len(),
        i != j,
    ensures
        s.update(i, s[j]).update(j, s[i]).to_multiset() == s.to_multiset(),
{
    broadcast use vstd::seq_lib::group_to_multiset_ensures;
    broadcast use vstd::multiset::group_multiset_axioms;

    let s1 = s.update(i, s[j]);
    vstd::seq_lib::to_multiset_update(s, i, s[j]);
    vstd::seq_lib::to_multiset_update(s1, j, s[i]);
    assert(s1[j] == s[j]);
    assert(s.contains(s[i]));
    assert(s.contains(s[j]));
    assert(s1.update(j, s[i]).to_multiset() =~= s.to_multiset());
}

/// A sequence's multiset is the sum of the multisets of any prefix/suffix
/// split of it.
proof fn lemma_split_multiset(s: Seq<Arc<Hitable>>, mid: int)
    requires
        0 <= mid <= s.len(),
    ensures
        s.take(mid).to_multiset().add(s.skip(mid).to_multiset()) == s.to_multiset(),
{
    assert(s.take(mid) + s.skip(mid) =~= s);
    vstd::seq_lib::lemma_multiset_commutative(s.take(mid), s.skip(mid));
}

/// Elementwise form of sequence well-formedness.
pub proof fn lemma_wf_seq_equiv(s: Seq<Arc<Hitable>>)
    ensures
        wf_seq(s) <==> (forall|i: int| 0 <= i < s.len() ==> (#[trigger] (*s[i])).wf()),
    decreases s.len(),
{
    if s.len() > 0 {
        lemma_wf_seq_equiv(s.drop_first());
        if forall|i: int| 0 <= i < s.len() ==> (#[trigger] (*s[i])).wf() {
            assert forall|i: int|
                0 <= i < s.drop_first().len() implies (#[trigger] (*(s.drop_first()[i]))).wf() by {
                assert(s.drop_first()[i] == s[i + 1]);
            }
            assert(wf_seq(s));
        }
        if wf_seq(s) {
            assert forall|i: int| 0 <= i < s.len() implies (#[trigger] (*s[i])).wf() by {
                crate::hitable::lemma_wf_seq_index(s, i);
            }
        }
    }
}

impl BvhNode {
    /// Creates a new hierarchy node containing the elements of the
    /// provided list. The list is sorted in place (a permutation: its
    /// multiset is unchanged) and split; the result is well-formed, the
    /// small cases are split exactly as stated, and for collections of
    /// counted elements the tree's leaves are exactly the input elements
    /// (as sets: a singleton input is duplicated into both children).
    pub fn new(hitable_list: &mut HitableList, start_time: i64, end_time: i64) -> (n: BvhNode)
        requires
            wf_seq(old(hitable_list).list@),
            -COORD_LIMIT <= start_time <= COORD_LIMIT,
            -COORD_LIMIT <= end_time <= COORD_LIMIT,
        ensures
            crate::hitable::wf_bvh_node(n),
            final(hitable_list).list@.to_multiset() == old(hitable_list).list@.to_multiset(),
            old(hitable_list).list@.len() == 0 ==> n.bounding_box is None && ((*n.left)
                matches Hitable::List(le) && le.list@.len() == 0) && ((*n.right)
                matches Hitable::List(re) && re.list@.len() == 0),
            old(hitable_list).list@.len() == 1 ==> n.left == old(hitable_list).list@[0] && n.right
                == old(hitable_list).list@[0],
            old(hitable_list).list@.len() == 2 ==> ((n.left == old(hitable_list).list@[0]
                && n.right == old(hitable_list).list@[1]) || (n.left == old(
                hitable_list,
            ).list@[1] && n.right == old(hitable_list).list@[0])),
            (forall|q: int|
                0 <= q < old(hitable_list).list@.len() ==> counted_leaf(
                    #[trigger] old(hitable_list).list@[q],
                )) ==> (forall|e: Arc<Hitable>|
                (#[trigger] node_leaves(n).count(e)) > 0 <==> old(
                    hitable_list,
                ).list@.to_multiset().count(e) > 0),
            (forall|q: int|
                0 <= q < old(hitable_list).list@.len() ==> det_and_boxed(
                    #[trigger] old(hitable_list).list@[q],
                )) ==> ({
                &&& Hitable::Bvh(n).deterministic()
                &&& fully_boxed(Hitable::Bvh(n))
                &&& n.bounding_box == spec_box_pair(spec_box(*n.left), spec_box(*n.right))
            }),
        decreases old(hitable_list).list@.len(),
    {
        let ghost s0 = hitable_list.list@;
        proof {
            lemma_wf_seq_equiv(s0);
            broadcast use vstd::seq_lib::group_to_multiset_ensures;
            broadcast use vstd::multiset::group_multiset_axioms;

        }
        let len = hitable_list.list.len();
        if len == 0 {
            let empty_left: Vec<Arc<Hitable>> = Vec::new();
            let empty_right: Vec<Arc<Hitable>> = Vec::new();
            proof {
                assert(wf_seq(empty_left@));
                assert(wf_seq(empty_right@));
            }
            let n = BvhNode {
                left: Arc::new(Hitable::List(HitableList { list: empty_left })),
                right: Arc::new(Hitable::List(HitableList { list: empty_right })),
                bounding_box: None,
            };
            proof {
                assert((*n.left).wf());
                assert((*n.right).wf());
                assert(crate::hitable::wf_bvh_node(n));
                broadcast use vstd::seq_lib::group_to_multiset_ensures;
                broadcast use vstd::multiset::group_multiset_axioms;

                assert(leaves_of(n.left) =~= Multiset::<Arc<Hitable>>::empty());
                assert(leaves_of(n.right) =~= Multiset::<Arc<Hitable>>::empty());
                assert forall|e: Arc<Hitable>| !(s0.to_multiset().count(e) > 0) by {
                    if s0.to_multiset().count(e) > 0 {
                        assert(s0.contains(e));
                    }
                }
                assert(det_seq(Seq::<Arc<Hitable>>::empty()));
                assert((*n.left).deterministic());
                assert((*n.right).deterministic());
                assert(Hitable::Bvh(n).deterministic());
                assert(fb_seq(Seq::<Arc<Hitable>>::empty()));
                assert(fully_boxed(*n.left));
                assert(fully_boxed(*n.right));
                assert(spec_box_seq(Seq::<Arc<Hitable>>::empty()) is None);
                assert(spec_box(*n.left) is None);
                assert(spec_box(*n.right) is None);
                assert(fully_boxed(Hitable::Bvh(n)));
            }
            return n;
        }
        // Pick the axis of the widest total extent.
        let mut total: Option<AxisAlignedBoundingBox> = None;
        let mut i: usize = 0;
        while i < hitable_list.list.len()
            invariant
                hitable_list.list@ == s0,
                i <= s0.len(),
                forall|k: int| 0 <= k < s0.len() ==> (#[trigger] (*s0[k])).wf(),
                -COORD_LIMIT <= start_time <= COORD_LIMIT,
                -COORD_LIMIT <= end_time <= COORD_LIMIT,
                match total {
                    Some(b) => b.wf(),
                    None => true,
                },
            decreases s0.len() - i,
        {
            match (&*hitable_list.list[i]).bounding_box(start_time, end_time) {
                None => {},
                Some(bb) => {
                    total = match total {
                        None => Some(bb),
                        Some(acc) => Some(calc_surrounding_box(&acc, &bb)),
                    };
                },
            }
            i = i + 1;
        }
        let axis: u8 = match &total {
            None => 0,
            Some(bb) => {
                let ex = bb.max_bound.x - bb.min_bound.x;
                let ey = bb.max_bound.y - bb.min_bound.y;
                let ez = bb.max_bound.z - bb.min_bound.z;
                if ex >= ey && ex >= ez {
                    0
                } else if ey >= ez {
                    1
                } else {
                    2
                }
            },
        };
        // Sort the elements by their box minimum along the chosen axis
        // (selection sort; an element without a box keys at zero).
        let mut j: usize = 0;
        while j < hitable_list.list.len()
            invariant
                hitable_list.list@.len() == s0.len(),
                j <= s0.len(),
                forall|k: int|
                    0 <= k < hitable_list.list@.len() ==> (#[trigger] (*(hitable_list.list@[k]))).wf(),
                -COORD_LIMIT <= start_time <= COORD_LIMIT,
                -COORD_LIMIT <= end_time <= COORD_LIMIT,
                hitable_list.list@.to_multiset() == s0.to_multiset(),
                s0.len() == 1 ==> hitable_list.list@ == s0,
                s0.len() == 2 ==> (hitable_list.list@ == s0 || (hitable_list.list@.len() == 2
                    && hitable_list.list@[0] == s0[1] && hitable_list.list@[1] == s0[0])),
            decreases s0.len() - j,
        {
            let mut best = j;
            let mut best_key = element_key(&hitable_list.list[j], axis, start_time, end_time);
            let mut k = j + 1;
            while k < hitable_list.list.len()
                invariant
                    hitable_list.list@.len() == s0.len(),
                    j <= best < s0.len(),
                    j < k <= s0.len(),
                    j < s0.len(),
                    forall|q: int|
                        0 <= q < hitable_list.list@.len() ==> (#[trigger] (*(hitable_list.list@[q]))).wf(),
                    -COORD_LIMIT <= start_time <= COORD_LIMIT,
                    -COORD_LIMIT <= end_time <= COORD_LIMIT,
                decreases s0.len() - k,
            {
                let key = element_key(&hitable_list.list[k], axis, start_time, end_time);
                if key < best_key {
                    best = k;
                    best_key = key;
                }
                k = k + 1;
            }
            if best != j {
                let ghost before = hitable_list.list@;
                let a = clone_hitable(&hitable_list.list[j]);
                let b = clone_hitable(&hitable_list.list[best]);
                hitable_list.list.set(j, b);
                hitable_list.list.set(best, a);
                proof {
                    lemma_swap_multiset(before, j as int, best as int);
                    assert(hitable_list.list@ == before.update(j as int, before[best as int]).update(
                        best as int,
                        before[j as int],
                    ));
                    if s0.len() == 2 {
                        assert(hitable_list.list@ =~= seq![before[1], before[0]]);
                        if before == s0 {
                            assert(hitable_list.list@[0] == s0[1] && hitable_list.list@[1]
                                == s0[0]);
                        } else {
                            assert(hitable_list.list@ =~= s0);
                        }
                    }
                }
            }
            j = j + 1;
        }
        let ghost fs = hitable_list.list@;
        proof {
            if forall|q: int| 0 <= q < s0.len() ==> counted_leaf(#[trigger] s0[q]) {
                lemma_counted_transfer(s0, fs);
            }
            if forall|q: int| 0 <= q < s0.len() ==> det_and_boxed(#[trigger] s0[q]) {
                lemma_det_fb_transfer(s0, fs);
            }
        }
        // Split and recurse.
        let (left, right): (Arc<Hitable>, Arc<Hitable>) = if hitable_list.list.len() == 1 {
            let a = clone_hitable(&hitable_list.list[0]);
            let b = clone_hitable(&hitable_list.list[0]);
            (a, b)
        } else if hitable_list.list.len() == 2 {
            let a = clone_hitable(&hitable_list.list[0]);
            let b = clone_hitable(&hitable_list.list[1]);
            (a, b)
        } else {
            let mid = hitable_list.list.len() / 2;
            let mut left_vec: Vec<Arc<Hitable>> = Vec::new();
            let mut right_vec: Vec<Arc<Hitable>> = Vec::new();
            let mut p: usize = 0;
            while p < hitable_list.list.len()
                invariant
                    hitable_list.list@ == fs,
                    fs.len() == s0.len(),
                    p <= s0.len(),
                    mid == s0.len() / 2,
                    s0.len() >= 3,
                    forall|q: int|
                        0 <= q < hitable_list.list@.len() ==> (#[trigger] (*(hitable_list.list@[q]))).wf(),
                    forall|q: int|
                        0 <= q < left_vec@.len() ==> #[trigger] left_vec@[q] == fs[q],
                    forall|q: int|
                        0 <= q < right_vec@.len() ==> #[trigger] right_vec@[q] == fs[mid + q],
                    left_vec@.len() == (if p as int <= mid as int {
                        p as int
                    } else {
                        mid as int
                    }),
                    right_vec@.len() == p as int - left_vec@.len(),
                decreases s0.len() - p,
            {
                let e = clone_hitable(&hitable_list.list[p]);
                if p < mid {
                    left_vec.push(e);
                } else {
                    right_vec.push(e);
                }
                p = p + 1;
            }
            proof {
                assert(left_vec@ =~= fs.take(mid as int));
                assert(right_vec@ =~= fs.skip(mid as int));
                assert forall|q: int|
                    0 <= q < left_vec@.len() implies (#[trigger] (*(left_vec@[q]))).wf() by {
                    assert(left_vec@[q] == fs[q]);
                }
                assert forall|q: int|
                    0 <= q < right_vec@.len() implies (#[trigger] (*(right_vec@[q]))).wf() by {
                    assert(right_vec@[q] == fs[mid + q]);
                }
                lemma_wf_seq_equiv(left_vec@);
                lemma_wf_seq_equiv(right_vec@);
                if forall|q: int| 0 <= q < s0.len() ==> counted_leaf(#[trigger] s0[q]) {
                    assert forall|q: int|
                        0 <= q < left_vec@.len() implies counted_leaf(
                        #[trigger] left_vec@[q],
                    ) by {
                        assert(left_vec@[q] == fs[q]);
                    }
                    assert forall|q: int|
                        0 <= q < right_vec@.len() implies counted_leaf(
                        #[trigger] right_vec@[q],
                    ) by {
                        assert(right_vec@[q] == fs[mid + q]);
                    }
                }
                if forall|q: int| 0 <= q < s0.len() ==> det_and_boxed(#[trigger] s0[q]) {
                    assert forall|q: int|
                        0 <= q < left_vec@.len() implies det_and_boxed(
                        #[trigger] left_vec@[q],
                    ) by {
                        assert(left_vec@[q] == fs[q]);
                    }
                    assert forall|q: int|
                        0 <= q < right_vec@.len() implies det_and_boxed(
                        #[trigger] right_vec@[q],
                    ) by {
                        assert(right_vec@[q] == fs[mid + q]);
                    }
                }
            }
            let ghost lh = left_vec@;
            let ghost rh = right_vec@;
            let mut left_list = HitableList { list: left_vec };
            let mut right_list = HitableList { list: right_vec };
            let ln = BvhNode::new(&mut left_list, start_time, end_time);
            let rn = BvhNode::new(&mut right_list, start_time, end_time);
            let la: Arc<Hitable> = Arc::new(Hitable::Bvh(ln));
            let ra: Arc<Hitable> = Arc::new(Hitable::Bvh(rn));
            proof {
                assert(leaves_of(la) == node_leaves(ln));
                assert(leaves_of(ra) == node_leaves(rn));
                if forall|q: int| 0 <= q < s0.len() ==> counted_leaf(#[trigger] s0[q]) {
                    lemma_split_multiset(fs, mid as int);
                    assert forall|e: Arc<Hitable>|
                        (#[trigger] leaves_of(la).add(leaves_of(ra)).count(e)) > 0 <==> s0.to_multiset().count(
                        e,
                    ) > 0 by {
                        assert(node_leaves(ln).count(e) > 0 <==> lh.to_multiset().count(e) > 0);
                        assert(node_leaves(rn).count(e) > 0 <==> rh.to_multiset().count(e) > 0);
                        assert(lh.to_multiset().add(rh.to_multiset()).count(e) == lh.to_multiset().count(
                            e,
                        ) + rh.to_multiset().count(e));
                        assert(lh.to_multiset().add(rh.to_multiset()) == fs.to_multiset());
                    }
                }
            }
            (la, ra)
        };
        proof {
            if forall|q: int| 0 <= q < s0.len() ==> counted_leaf(#[trigger] s0[q]) {
                if s0.len() == 1 {
                    lemma_counted_leaf_leaves(left);
                    assert forall|e: Arc<Hitable>|
                        (#[trigger] leaves_of(left).add(leaves_of(right)).count(e)) > 0
                            <==> s0.to_multiset().count(e) > 0 by {
                        if s0.to_multiset().count(e) > 0 {
                            assert(s0.contains(e));
                            let w = choose|w: int| 0 <= w < s0.len() && s0[w] == e;
                            assert(e == s0[0]);
                        }
                        if leaves_of(left).add(leaves_of(right)).count(e) > 0 {
                            assert(e == s0[0]);
                            assert(s0.contains(e));
                        } else {
                            if e == s0[0] {
                                assert(leaves_of(left).count(e) > 0);
                            }
                        }
                    }
                } else if s0.len() == 2 {
                    lemma_counted_leaf_leaves(left);
                    lemma_counted_leaf_leaves(right);
                    assert forall|e: Arc<Hitable>|
                        (#[trigger] leaves_of(left).add(leaves_of(right)).count(e)) > 0
                            <==> s0.to_multiset().count(e) > 0 by {
                        if s0.to_multiset().count(e) > 0 {
                            assert(s0.contains(e));
                            let w = choose|w: int| 0 <= w < s0.len() && s0[w] == e;
                            assert(e == s0[0] || e == s0[1]);
                        }
                        if e == s0[0] || e == s0[1] {
                            assert(leaves_of(left).count(e) > 0 || leaves_of(right).count(e) > 0);
                            assert(s0.contains(e));
                        }
                    }
                }
            }
        }
        proof {
            if forall|q: int| 0 <= q < s0.len() ==> det_and_boxed(#[trigger] s0[q]) {
                if s0.len() <= 2 {
                    assert(det_and_boxed(fs[0]));
                    if s0.len() == 2 {
                        assert(det_and_boxed(fs[1]));
                    }
                }
                assert((*left).deterministic() && fully_boxed(*left));
                assert((*right).deterministic() && fully_boxed(*right));
            }
        }
        let left_box = (&*left).bounding_box(start_time, end_time);
        let right_box = (&*right).bounding_box(start_time, end_time);
        let bounding_box = match (left_box, right_box) {
            (Some(lb), Some(rb)) => Some(calc_surrounding_box(&lb, &rb)),
            (Some(lb), None) => Some(lb),
            (None, Some(rb)) => Some(rb),
            (None, None) => None,
        };
        let n = BvhNode { left, right, bounding_box };
        proof {
            if forall|q: int| 0 <= q < s0.len() ==> det_and_boxed(#[trigger] s0[q]) {
                assert(Hitable::Bvh(n).deterministic());
                assert(n.bounding_box == spec_box_pair(spec_box(*n.left), spec_box(*n.right)));
                assert(fully_boxed(Hitable::Bvh(n)));
            }
        }
        n
    }
}

/// The sort key of one element: its box minimum along the chosen axis, or
/// zero when it has no box.
fn element_key(h: &Arc<Hitable>, axis: u8, start_time: i64, end_time: i64) -> (k: i64)
    requires
        (**h).wf(),
        -COORD_LIMIT <= start_time <= COORD_LIMIT,
        -COORD_LIMIT <= end_time <= COORD_LIMIT,
{
    match (&**h).bounding_box(start_time, end_time) {
        None => 0,
        Some(bb) => if axis == 0 {
            bb.min_bound.x
        } else if axis == 1 {
            bb.min_bound.y
        } else {
            bb.min_bound.z
        },
    }
}

} // verus!
