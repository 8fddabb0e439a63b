//! Parent/child topology over densely allocated node indices.

use vstd::prelude::*;

verus! {

/// An index into the node arena of one serialized tree.
pub type ProofNodeIdx = usize;

/// An append-only relation between tree nodes: each non-root node has one
/// parent, and each node keeps the ordered list of its children.  Nothing is
/// ever removed, so indices stay valid for the lifetime of the tree.
pub struct TreeTopology {
    /// `parent[i]` is the parent of node `i`, `None` for roots.
    pub parent: Vec<Option<ProofNodeIdx>>,
    /// `children[i]` are the children of node `i`, in insertion order.
    pub children: Vec<Vec<ProofNodeIdx>>,
}

impl TreeTopology {
    /// Both index maps cover the same nodes, every parent was allocated
    /// before its children, and `children` lists exactly the registered
    /// parent edges.
    pub open spec fn wf(self) -> bool {
        &&& self.parent@.len() == self.children@.len()
        &&& forall|i: int|
            0 <= i < self.parent@.len() && self.parent@[i] is Some ==> self.parent@[i]->0 < i
        &&& forall|p: int, k: int|
            0 <= p < self.children@.len() && 0 <= k < self.children@[p]@.len() ==> {
                let c = #[trigger] self.children@[p]@[k];
                &&& c < self.parent@.len()
                &&& self.parent@[c as int] == Some(p as ProofNodeIdx)
            }
        &&& forall|c: int|
            0 <= c < self.parent@.len() && self.parent@[c] is Some
                ==> self.children@[self.parent@[c]->0 as int]@.contains(c as ProofNodeIdx)
    }

    /// How many nodes the topology covers.
    pub open spec fn spec_len(self) -> nat {
        self.parent@.len()
    }

    pub fn new() -> (r: TreeTopology)
        ensures
            r.wf(),
            r.spec_len() == 0,
    {
        TreeTopology { parent: Vec::new(), children: Vec::new() }
    }

    pub fn len(&self) -> (r: usize)
        ensures
            r == self.spec_len(),
    {
        self.parent.len()
    }

    /// Makes room for one freshly allocated node, initially parentless and
    /// childless; returns its index.
    pub fn push_node(&mut self) -> (idx: ProofNodeIdx)
        requires
            old(self).wf(),
            old(self).spec_len() < usize::MAX,
        ensures
            final(self).wf(),
            idx == old(self).spec_len(),
            final(self).spec_len() == old(self).spec_len() + 1,
            final(self).parent@ == old(self).parent@.push(None),
            final(self).children@.len() == old(self).children@.len() + 1,
            forall|i: int|
                0 <= i < old(self).children@.len() ==> final(self).children@[i] == old(
                    self,
                ).children@[i],
            final(self).children@[old(self).spec_len() as int]@ == Seq::<ProofNodeIdx>::empty(),
    {
        let idx = self.parent.len();
        self.parent.push(None);
        self.children.push(Vec::new());
        assert(self.children@[idx as int]@ =~= Seq::<ProofNodeIdx>::empty());
        idx
    }

    /// Registers `child` under `parent`.  Fails — changing nothing — if the
    /// child already has a parent: a node never has two.
    pub fn add_edge(&mut self, parent: ProofNodeIdx, child: ProofNodeIdx) -> (ok: bool)
        requires
            old(self).wf(),
            parent < child,
            child < old(self).spec_len(),
        ensures
            final(self).wf(),
            final(self).spec_len() == old(self).spec_len(),
            ok == (old(self).parent@[child as int] is None),
            !ok ==> *final(self) == *old(self),
            ok ==> final(self).parent@ == old(self).parent@.update(child as int, Some(parent)),
            ok ==> final(self).children@[parent as int]@ == old(self).children@[
                parent as int
            ]@.push(child),
            ok ==> forall|i: int|
                0 <= i < final(self).children@.len() && i != parent ==> final(self).children@[i]
                    == old(self).children@[i],
    {
        if self.parent[child].is_some() {
            return false;
        }
        self.parent[child] = Some(parent);
        self.children[parent].push(child);
        proof {
            assert forall|p: int, k: int|
                0 <= p < self.children@.len() && 0 <= k < self.children@[p]@.len() implies {
                let c = #[trigger] self.children@[p]@[k];
                &&& c < self.parent@.len()
                &&& self.parent@[c as int] == Some(p as ProofNodeIdx)
            } by {
                if p == parent as int && k == self.children@[p]@.len() - 1 {
                } else {
                    assert(self.children@[p]@[k] == old(self).children@[p]@[k]);
                    assert(old(self).children@[p]@[k] != child);
                }
            }
            assert forall|c: int|
                0 <= c < self.parent@.len() && self.parent@[c] is Some implies self.children@[
                self.parent@[c]->0 as int
            ]@.contains(c as ProofNodeIdx) by {
                let p = self.parent@[c]->0 as int;
                if c == child as int {
                    assert(self.children@[p]@[self.children@[p]@.len() - 1] == child);
                } else {
                    assert(old(self).parent@[c] == self.parent@[c]);
                    assert(old(self).children@[p]@.contains(c as ProofNodeIdx));
                    let k = choose|k: int|
                        0 <= k < old(self).children@[p]@.len() && old(self).children@[p]@[k]
                            == c as ProofNodeIdx;
                    assert(self.children@[p]@[k] == c as ProofNodeIdx);
                }
            }
        }
        true
    }

    /// The ordered children of `node`.
    pub fn children_of(&self, node: ProofNodeIdx) -> (r: &Vec<ProofNodeIdx>)
        requires
            self.wf(),
            node < self.spec_len(),
        ensures
            r@ == self.children@[node as int]@,
    {
        &self.children[node]
    }

    /// The parent of `node`, if it has one.
    pub fn parent_of(&self, node: ProofNodeIdx) -> (r: Option<ProofNodeIdx>)
        requires
            node < self.spec_len(),
        ensures
            r == self.parent@[node as int],
    {
        self.parent[node]
    }
}

/// Parent maps where every parent was allocated before its children; the
/// guarantee that makes ancestor chains terminate.
pub open spec fn spec_parents_decrease(parent: Seq<Option<ProofNodeIdx>>) -> bool {
    forall|i: int| 0 <= i < parent.len() && parent[i] is Some ==> (#[trigger] parent[i])->0 < i
}

/// Whether `m` lies in the subtree rooted at `n`: following parent edges
/// from `m` reaches `n`.
pub open spec fn spec_is_under(
    parent: Seq<Option<ProofNodeIdx>>,
    n: ProofNodeIdx,
    m: ProofNodeIdx,
) -> bool
    decreases m,
{
    if m == n {
        true
    } else if (m as int) < parent.len() && parent[m as int] is Some && parent[m as int]->0 < m {
        spec_is_under(parent, n, parent[m as int]->0)
    } else {
        false
    }
}

/// An ancestor's index never exceeds its descendant's.
pub proof fn lemma_under_le(parent: Seq<Option<ProofNodeIdx>>, n: ProofNodeIdx, m: ProofNodeIdx)
    requires
        spec_is_under(parent, n, m),
    ensures
        n <= m,
    decreases m,
{
    if m != n {
        lemma_under_le(parent, n, parent[m as int]->0);
    }
}

/// A strict descendant of `n` lies under one of `n`'s children.
pub proof fn lemma_under_step(parent: Seq<Option<ProofNodeIdx>>, n: ProofNodeIdx, m: ProofNodeIdx)
    requires
        spec_is_under(parent, n, m),
        n != m,
    ensures
        exists|c: ProofNodeIdx|
            (c as int) < parent.len() && #[trigger] parent[c as int] == Some(n) && spec_is_under(
                parent,
                c,
                m,
            ),
    decreases m,
{
    let p = parent[m as int]->0;
    if p == n {
        assert(spec_is_under(parent, m, m));
        assert((m as int) < parent.len() && parent[m as int] == Some(n) && spec_is_under(
            parent,
            m,
            m,
        ));
    } else {
        lemma_under_step(parent, n, p);
        let c = choose|c: ProofNodeIdx|
            (c as int) < parent.len() && #[trigger] parent[c as int] == Some(n) && spec_is_under(
                parent,
                c,
                p,
            );
        lemma_under_le(parent, c, p);
        assert(spec_is_under(parent, c, m));
    }
}

/// Lying under a child means lying under the parent.
pub proof fn lemma_under_trans(
    parent: Seq<Option<ProofNodeIdx>>,
    n: ProofNodeIdx,
    c: ProofNodeIdx,
    m: ProofNodeIdx,
)
    requires
        spec_parents_decrease(parent),
        (c as int) < parent.len(),
        parent[c as int] == Some(n),
        spec_is_under(parent, c, m),
    ensures
        spec_is_under(parent, n, m),
    decreases m,
{
    if m == c {
        assert(spec_is_under(parent, n, n));
    } else {
        lemma_under_trans(parent, n, c, parent[m as int]->0);
    }
}

/// The subtree order is antisymmetric: the topology is acyclic.
pub proof fn lemma_under_antisymmetric(
    parent: Seq<Option<ProofNodeIdx>>,
    n: ProofNodeIdx,
    m: ProofNodeIdx,
)
    requires
        spec_is_under(parent, n, m),
        spec_is_under(parent, m, n),
    ensures
        n == m,
{
    lemma_under_le(parent, n, m);
    lemma_under_le(parent, m, n);
}

/// A downward path through the parent map: consecutive elements are
/// parent and child, and every element is a covered index.
pub open spec fn spec_is_path(parent: Seq<Option<ProofNodeIdx>>, p: Seq<ProofNodeIdx>) -> bool {
    &&& p.len() > 0
    &&& forall|i: int| 0 <= i < p.len() ==> (#[trigger] p[i] as int) < parent.len()
    &&& forall|i: int| 0 <= i < p.len() - 1 ==> parent[#[trigger] p[i + 1] as int] == Some(p[i])
}

/// Along a path, indices strictly increase: parents were allocated before
/// their children.
pub proof fn lemma_path_start_lt_end(parent: Seq<Option<ProofNodeIdx>>, p: Seq<ProofNodeIdx>)
    requires
        spec_parents_decrease(parent),
        spec_is_path(parent, p),
        p.len() >= 2,
    ensures
        p[0] < p.last(),
    decreases p.len(),
{
    assert(parent[p[(p.len() - 2) + 1] as int] == Some(p[p.len() - 2]));
    assert(parent[p.last() as int] == Some(p[p.len() - 2]));
    assert(p[p.len() - 2] < p.last());
    if p.len() > 2 {
        assert(spec_is_path(parent, p.drop_last()));
        lemma_path_start_lt_end(parent, p.drop_last());
        assert(p.drop_last().last() == p[p.len() - 2]);
    }
}

/// Two paths with the same endpoints are the same path: since every node
/// has at most one parent, the way down from the root is unique.
pub proof fn lemma_unique_path(
    parent: Seq<Option<ProofNodeIdx>>,
    p1: Seq<ProofNodeIdx>,
    p2: Seq<ProofNodeIdx>,
)
    requires
        spec_parents_decrease(parent),
        spec_is_path(parent, p1),
        spec_is_path(parent, p2),
        p1[0] == p2[0],
        p1.last() == p2.last(),
    ensures
        p1 == p2,
    decreases p1.len() + p2.len(),
{
    if p1.len() == 1 && p2.len() == 1 {
        assert(p1 =~= p2);
    } else if p1.len() == 1 {
        lemma_path_start_lt_end(parent, p2);
        assert(false);
    } else if p2.len() == 1 {
        lemma_path_start_lt_end(parent, p1);
        assert(false);
    } else {
        assert(parent[p1[(p1.len() - 2) + 1] as int] == Some(p1[p1.len() - 2]));
        assert(parent[p2[(p2.len() - 2) + 1] as int] == Some(p2[p2.len() - 2]));
        assert(p1[(p1.len() - 2) + 1] == p1.last() && p2[(p2.len() - 2) + 1] == p2.last());
        assert(p1[p1.len() - 2] == p2[p2.len() - 2]);
        assert(spec_is_path(parent, p1.drop_last()));
        assert(spec_is_path(parent, p2.drop_last()));
        assert(p1.drop_last().last() == p2.drop_last().last());
        assert(p1.drop_last()[0] == p2.drop_last()[0]);
        lemma_unique_path(parent, p1.drop_last(), p2.drop_last());
        assert forall|i: int| 0 <= i < p1.len() implies p1[i] == p2[i] by {
            if i < p1.len() - 1 {
                assert(p1.drop_last()[i] == p2.drop_last()[i]);
            } else {
                assert(p1.last() == p2.last());
            }
        }
        assert(p1 =~= p2);
    }
}

/// Every node of a parent map whose only parentless node is `0` lies under
/// `0`: the root reaches everything.
pub proof fn lemma_root_reaches(parent: Seq<Option<ProofNodeIdx>>, m: ProofNodeIdx)
    requires
        spec_parents_decrease(parent),
        (m as int) < parent.len(),
        forall|i: int| 0 < i < parent.len() ==> (#[trigger] parent[i]) is Some,
    ensures
        spec_is_under(parent, 0, m),
    decreases m,
{
    if m != 0 {
        lemma_root_reaches(parent, parent[m as int]->0);
    }
}

} // verus!
