//! Reconstruction of one proof search from the solver's event stream.
//!
//! The builder consumes the ordered, well-nested stream of search events the
//! solver recorded for one target goal and replays it as a state machine:
//! entering a goal or candidate allocates a node and pushes a frame, a probe
//! result allocates a leaf under the current frame, an exit pops.  After the
//! stream is replayed it computes which leaves are failures and which
//! subtrees contain none of them.

use crate::proof_tree::ext::{
    spec_pretty_result, spec_probe_label, CandidateExt, PrettyResultExt,
};
use crate::proof_tree::topology::{
    lemma_root_reaches, lemma_under_antisymmetric, lemma_under_step, lemma_under_trans,
    lemma_unique_path, spec_is_path, spec_is_under, spec_parents_decrease, ProofNodeIdx,
    TreeTopology,
};
use crate::proof_tree::{
    Candidate, CandidateSource, CandidateSourceV, CandidateV, Event, EventV, Node, NodeV,
    ProbeKind, ProbeKindV, SerializedTree,
};
use vstd::prelude::*;

verus! {

/// How one event changes the nesting depth of the stream.
pub open spec fn spec_depth_delta(e: EventV) -> int {
    match e {
        EventV::EnterGoal { .. } => 1,
        EventV::EnterCandidate { .. } => 1,
        EventV::ProbeResult { .. } => 0,
        EventV::Exit => -1,
    }
}

/// The nesting depth after the first `n` events.
pub open spec fn spec_depth_after(s: Seq<EventV>, n: int) -> int
    decreases n,
{
    if n <= 0 {
        0
    } else {
        spec_depth_after(s, n - 1) + spec_depth_delta(s[n - 1])
    }
}

/// A well-nested search stream: it opens with the root goal, never escapes
/// it before its end, and closes every frame it opened.
pub open spec fn spec_well_nested(s: Seq<EventV>) -> bool {
    &&& s.len() > 0
    &&& s[0] is EnterGoal
    &&& forall|i: int| 1 <= i < s.len() ==> spec_depth_after(s, i) >= 1
    &&& spec_depth_after(s, s.len() as int) == 0
}

/// The `Candidate` payload stored for a probe kind: implementation-sourced
/// probes keep their structure, everything else becomes its textual label.
pub open spec fn spec_candidate_of_probe(p: ProbeKindV) -> CandidateV {
    match p {
        ProbeKindV::TraitCandidate { source: CandidateSourceV::Impl { ty, trait_ref } } => {
            CandidateV::Impl { ty, trait_ref }
        },
        _ => CandidateV::Any { data: spec_probe_label(p) },
    }
}

fn candidate_of_probe(probe: &ProbeKind) -> (r: Candidate)
    ensures
        r@ == spec_candidate_of_probe(probe@),
{
    match probe {
        ProbeKind::TraitCandidate { source: CandidateSource::Impl { ty, trait_ref } } => {
            Candidate::Impl { ty: ty.duplicate(), trait_ref: trait_ref.duplicate() }
        },
        _ => Candidate::Any { data: probe.pretty() },
    }
}

/// The node allocated for one (non-exit) event.
pub open spec fn spec_node_of_event(e: EventV) -> NodeV {
    match e {
        EventV::EnterGoal { predicate } => NodeV::Goal { data: predicate },
        EventV::EnterCandidate { probe } => NodeV::Candidate {
            data: spec_candidate_of_probe(probe),
        },
        EventV::ProbeResult { result } => NodeV::Result { data: spec_pretty_result(result) },
        EventV::Exit => NodeV::Result { data: Seq::empty() },
    }
}

/// The state of the replay after some prefix of the stream.
pub struct BuildState {
    /// The nodes allocated so far, in allocation order.
    pub nodes: Seq<NodeV>,
    /// The parent of each allocated node.
    pub parent: Seq<Option<ProofNodeIdx>>,
    /// The indices of the currently open frames, outermost first.
    pub stack: Seq<ProofNodeIdx>,
}

/// One transition of the replay state machine.
pub open spec fn spec_step(st: BuildState, e: EventV) -> BuildState {
    let linked: Option<ProofNodeIdx> = if st.stack.len() == 0 {
        None
    } else {
        Some(st.stack.last())
    };
    match e {
        EventV::EnterGoal { .. } | EventV::EnterCandidate { .. } => BuildState {
            nodes: st.nodes.push(spec_node_of_event(e)),
            parent: st.parent.push(linked),
            stack: st.stack.push(st.nodes.len() as ProofNodeIdx),
        },
        EventV::ProbeResult { .. } => BuildState {
            nodes: st.nodes.push(spec_node_of_event(e)),
            parent: st.parent.push(linked),
            stack: st.stack,
        },
        EventV::Exit => BuildState {
            nodes: st.nodes,
            parent: st.parent,
            stack: if st.stack.len() == 0 {
                st.stack
            } else {
                st.stack.drop_last()
            },
        },
    }
}

/// The replay state after the first `n` events.
pub open spec fn spec_run(s: Seq<EventV>, n: int) -> BuildState
    decreases n,
{
    if n <= 0 {
        BuildState { nodes: Seq::empty(), parent: Seq::empty(), stack: Seq::empty() }
    } else {
        spec_step(spec_run(s, n - 1), s[n - 1])
    }
}

/// A `Result` node recording failure or unresolved ambiguity.
pub open spec fn spec_error_node(n: NodeV) -> bool {
    n matches NodeV::Result { data } && data != "Yes"@
}

/// An event resolving a probe with anything but unconditional success.
pub open spec fn spec_failing_event(e: EventV) -> bool {
    e matches EventV::ProbeResult { result } && result != Ok::<
        crate::proof_tree::Certainty,
        crate::proof_tree::NoSolution,
    >(crate::proof_tree::Certainty::Yes)
}

/// Whether some node in the subtree rooted at `i` is a failure leaf.
pub open spec fn spec_has_error_under(
    nodes: Seq<Node>,
    parent: Seq<Option<ProofNodeIdx>>,
    i: ProofNodeIdx,
) -> bool {
    exists|m: ProofNodeIdx|
        (m as int) < nodes.len() && spec_is_under(parent, i, m) && spec_error_node(
            #[trigger] nodes[m as int]@,
        )
}

/// Everything the replay guarantees of a produced tree, relative to the
/// (view of the) event stream it was built from.
pub open spec fn spec_valid_tree(t: SerializedTree, events: Seq<EventV>) -> bool {
    let fin = spec_run(events, events.len() as int);
    &&& t.wf()
    &&& t.nodes@.map_values(|nd: Node| nd@) == fin.nodes
    &&& t.topology.parent@ == fin.parent
    &&& forall|x: ProofNodeIdx|
        t.error_leaves@.contains(x) <==> ((x as int) < t.nodes@.len() && spec_error_node(
            t.nodes@[x as int]@,
        ))
    &&& (t.error_leaves@.len() > 0 <==> exists|k: int|
        0 <= k < events.len() && spec_failing_event(#[trigger] events[k]))
    &&& forall|x: ProofNodeIdx|
        t.unnecessary_roots@.contains(x) <==> (0 < x && (x as int) < t.nodes@.len()
            && !spec_has_error_under(t.nodes@, t.topology.parent@, x) && spec_has_error_under(
            t.nodes@,
            t.topology.parent@,
            t.topology.parent@[x as int]->0,
        ))
    &&& !t.unnecessary_roots@.contains(t.root)
    &&& forall|x: ProofNodeIdx, m: ProofNodeIdx|
        #![trigger t.unnecessary_roots@.contains(x), t.nodes@[m as int]]
        t.unnecessary_roots@.contains(x) && (m as int) < t.nodes@.len() && spec_is_under(
            t.topology.parent@,
            x,
            m,
        ) ==> !spec_error_node(t.nodes@[m as int]@)
}

/// Replays the solver's recorded search for one goal into a serialized
/// tree.
///
/// Returns `None` — absence, not an empty tree — exactly when the stream is
/// not a well-nested search for one root goal.  On success the tree is
/// well-formed, its nodes and parent edges are exactly what the replay
/// state machine produces, `error_leaves` is exactly the set of `Result`
/// nodes recording failure or ambiguity (non-empty exactly when some probe
/// resolved without unconditional success), and every member of
/// `unnecessary_roots` is a non-root node heading a subtree that contains no
/// error leaf, while its parent's subtree contains one.
pub fn serialize_proof_tree(events: &Vec<Event>) -> (r: Option<SerializedTree>)
    ensures
        r is Some <==> spec_well_nested(events@.map_values(|e: Event| e@)),
        r matches Some(t) ==> spec_valid_tree(t, events@.map_values(|e: Event| e@)),
{
    let ghost evs = events@.map_values(|e: Event| e@);
    let n = events.len();
    let mut nodes: Vec<Node> = Vec::new();
    let mut topology = TreeTopology::new();
    let mut stack: Vec<ProofNodeIdx> = Vec::new();
    let mut j: usize = 0;
    while j < n
        invariant
            evs == events@.map_values(|e: Event| e@),
            n == events@.len(),
            n == evs.len(),
            0 <= j <= n,
            topology.wf(),
            nodes@.len() == topology.spec_len(),
            nodes@.len() <= j,
            nodes@.map_values(|nd: Node| nd@) == spec_run(evs, j as int).nodes,
            topology.parent@ == spec_run(evs, j as int).parent,
            stack@ == spec_run(evs, j as int).stack,
            forall|k: int| 0 <= k < stack@.len() ==> (#[trigger] stack@[k] as int) < nodes@.len(),
            forall|i: int|
                0 <= i < nodes@.len() ==> ((#[trigger] topology.parent@[i]) is None <==> i == 0),
            j > 0 ==> evs[0] is EnterGoal,
            j > 0 ==> nodes@.len() > 0,
            forall|i: int| 1 <= i < j ==> spec_depth_after(evs, i) >= 1,
            stack@.len() == spec_depth_after(evs, j as int),
            (exists|i: int| 0 <= i < nodes@.len() && spec_error_node(#[trigger] nodes@[i]@))
                <==> (exists|k: int| 0 <= k < j && spec_failing_event(#[trigger] evs[k])),
        decreases n - j,
    {
        let ghost pre = spec_run(evs, j as int);
        let ghost old_nodes = nodes@;
        if j == 0 {
            if !matches!(&events[0], Event::EnterGoal { .. }) {
                proof {
                    assert(!(evs[0] is EnterGoal));
                }
                return None;
            }
        } else {
            if stack.len() == 0 {
                proof {
                    if spec_well_nested(evs) {
                        assert(spec_depth_after(evs, j as int) >= 1);
                    }
                }
                return None;
            }
        }
        match &events[j] {
            Event::Exit => {
                stack.pop();
            },
            ev => {
                let node = match ev {
                    Event::EnterGoal { predicate } => Node::Goal { data: predicate.duplicate() },
                    Event::EnterCandidate { probe } => Node::Candidate {
                        data: candidate_of_probe(probe),
                    },
                    Event::ProbeResult { result } => Node::Result { data: result.pretty() },
                    Event::Exit => Node::Result { data: String::new() },
                };
                let idx = topology.push_node();
                nodes.push(node);
                if stack.len() > 0 {
                    let top = stack[stack.len() - 1];
                    let linked = topology.add_edge(top, idx);
                    assert(linked);
                    proof {
                        assert(topology.parent@ =~= pre.parent.push(
                            Some(pre.stack.last()),
                        ));
                    }
                }
                if matches!(ev, Event::EnterGoal { .. } | Event::EnterCandidate { .. }) {
                    stack.push(idx);
                }
            },
        }
        proof {
            assert(spec_run(evs, j + 1) == spec_step(pre, evs[j as int]));
            assert(nodes@.map_values(|nd: Node| nd@) =~= spec_run(evs, j + 1).nodes);
            assert(topology.parent@ =~= spec_run(evs, j + 1).parent);
            assert(stack@ =~= spec_run(evs, j + 1).stack);
            if evs[j as int] is ProbeResult {
                crate::proof_tree::ext::lemma_pretty_result_yes(
                    evs[j as int]->ProbeResult_result,
                );
            }
            assert forall|i: int|
                0 <= i < old_nodes.len() implies #[trigger] nodes@[i] == old_nodes[i] by {}
            if exists|i: int| 0 <= i < nodes@.len() && spec_error_node(#[trigger] nodes@[i]@) {
                let i0 = choose|i: int| 0 <= i < nodes@.len() && spec_error_node(#[trigger] nodes@[i]@);
                if i0 < old_nodes.len() {
                    assert(spec_error_node(old_nodes[i0]@));
                    assert(exists|k: int| 0 <= k < j && spec_failing_event(#[trigger] evs[k]));
                } else {
                    assert(nodes@[i0] matches Node::Result { data } && data@ != "Yes"@);
                    assert(spec_failing_event(evs[j as int]));
                }
            }
            if exists|k: int| 0 <= k < j + 1 && spec_failing_event(#[trigger] evs[k]) {
                let k0 = choose|k: int| 0 <= k < j + 1 && spec_failing_event(#[trigger] evs[k]);
                if k0 < j {
                    let i0 = choose|i: int|
                        0 <= i < old_nodes.len() && spec_error_node(#[trigger] old_nodes[i]@);
                    assert(spec_error_node(nodes@[i0]@));
                } else {
                    assert(spec_error_node(nodes@[nodes@.len() - 1]@));
                }
            }
        }
        j = j + 1;
    }
    if nodes.len() == 0 {
        proof {
            assert(j == 0 && n == 0);
        }
        return None;
    }
    if stack.len() > 0 {
        return None;
    }
    assert(spec_well_nested(evs));

    // Error leaves: the Result nodes whose rendered certainty is not "Yes".
    let yes = "Yes".to_owned();
    let mut error_leaves: Vec<ProofNodeIdx> = Vec::new();
    let nlen = nodes.len();
    let mut i: usize = 0;
    while i < nlen
        invariant
            nlen == nodes@.len(),
            0 <= i <= nlen,
            yes@ == "Yes"@,
            forall|x: ProofNodeIdx|
                error_leaves@.contains(x) <==> ((x as int) < i && spec_error_node(
                    nodes@[x as int]@,
                )),
        decreases nlen - i,
    {
        let ghost old_leaves = error_leaves@;
        let is_err = match &nodes[i] {
            Node::Result { data } => !data.eq(&yes),
            _ => false,
        };
        if is_err {
            error_leaves.push(i);
        }
        proof {
            assert forall|x: ProofNodeIdx|
                error_leaves@.contains(x) <==> ((x as int) < i + 1 && spec_error_node(
                    nodes@[x as int]@,
                )) by {
                if error_leaves@.contains(x) {
                    let k = choose|k: int|
                        0 <= k < error_leaves@.len() && error_leaves@[k] == x;
                    if k < old_leaves.len() {
                        assert(old_leaves[k] == x);
                        assert(old_leaves.contains(x));
                    }
                }
                if (x as int) < i + 1 && spec_error_node(nodes@[x as int]@) {
                    if (x as int) < i {
                        assert(old_leaves.contains(x));
                        let k = choose|k: int| 0 <= k < old_leaves.len() && old_leaves[k] == x;
                        assert(error_leaves@[k] == x);
                        assert(error_leaves@.contains(x));
                    } else {
                        assert(is_err);
                        assert(error_leaves@[error_leaves@.len() - 1] == x);
                        assert(error_leaves@.contains(x));
                    }
                }
            }
        }
        i = i + 1;
    }
    proof {
        if error_leaves@.len() > 0 {
            assert(error_leaves@.contains(error_leaves@[0]));
        }
        if exists|k: int| 0 <= k < evs.len() && spec_failing_event(#[trigger] evs[k]) {
            let k = choose|i0: int|
                0 <= i0 < nodes@.len() && spec_error_node(#[trigger] nodes@[i0]@);
            assert(error_leaves@.contains(k as ProofNodeIdx));
        }
    }

    // Necessity: bottom-up, a node is necessary exactly when its subtree
    // holds an error leaf; children always follow their parent in the arena,
    // so a single backward pass sees every child before its parent.
    let ghost parent_map = topology.parent@;
    let mut necessary: Vec<bool> = vec![false; nlen];
    let mut i2: usize = nlen;
    while i2 > 0
        invariant
            nlen == nodes@.len(),
            0 <= i2 <= nlen,
            yes@ == "Yes"@,
            topology.wf(),
            parent_map == topology.parent@,
            nodes@.len() == topology.spec_len(),
            necessary@.len() == nlen,
            forall|jj: int|
                i2 <= jj < nlen ==> ((#[trigger] necessary@[jj]) <==> spec_has_error_under(
                    nodes@,
                    parent_map,
                    jj as ProofNodeIdx,
                )),
        decreases i2,
    {
        i2 = i2 - 1;
        let err_here = match &nodes[i2] {
            Node::Result { data } => !data.eq(&yes),
            _ => false,
        };
        let mut flag = err_here;
        let kids = topology.children_of(i2);
        let klen = kids.len();
        let mut k: usize = 0;
        while k < klen
            invariant
                klen == kids@.len(),
                0 <= k <= klen,
                nlen == nodes@.len(),
                topology.wf(),
                parent_map == topology.parent@,
                nodes@.len() == topology.spec_len(),
                necessary@.len() == nlen,
                kids@ == topology.children@[i2 as int]@,
                (i2 as int) < topology.children@.len(),
                forall|jj: int|
                    i2 < jj < nlen ==> ((#[trigger] necessary@[jj]) <==> spec_has_error_under(
                        nodes@,
                        parent_map,
                        jj as ProofNodeIdx,
                    )),
                flag == (err_here || exists|k0: int|
                    0 <= k0 < k && necessary@[#[trigger] kids@[k0] as int]),
            decreases klen - k,
        {
            let c = kids[k];
            assert((c as int) < nlen && i2 < c);
            if necessary[c] {
                flag = true;
            }
            k = k + 1;
        }
        proof {
            assert(spec_parents_decrease(parent_map));
            if flag {
                if err_here {
                    assert(spec_error_node(nodes@[i2 as int]@));
                    assert(spec_is_under(parent_map, i2, i2));
                    assert((i2 as int) < nodes@.len() && spec_is_under(parent_map, i2, i2)
                        && spec_error_node(nodes@[i2 as int]@));
                    assert(spec_has_error_under(nodes@, parent_map, i2));
                } else {
                    let k0 = choose|k0: int|
                        0 <= k0 < klen && necessary@[#[trigger] kids@[k0] as int];
                    let c = kids@[k0];
                    assert(topology.children@[i2 as int]@[k0] == c);
                    assert((c as int) < nlen && parent_map[c as int] == Some(i2));
                    assert(i2 < c);
                    assert(spec_has_error_under(nodes@, parent_map, c));
                    let m = choose|m: ProofNodeIdx|
                        (m as int) < nodes@.len() && spec_is_under(parent_map, c, m)
                            && spec_error_node(#[trigger] nodes@[m as int]@);
                    lemma_under_trans(parent_map, i2, c, m);
                    assert(spec_is_under(parent_map, i2, m) && spec_error_node(
                        nodes@[m as int]@,
                    ));
                    assert(spec_has_error_under(nodes@, parent_map, i2));
                }
            } else {
                if spec_has_error_under(nodes@, parent_map, i2) {
                    let m = choose|m: ProofNodeIdx|
                        (m as int) < nodes@.len() && spec_is_under(parent_map, i2, m)
                            && spec_error_node(#[trigger] nodes@[m as int]@);
                    if m == i2 {
                        assert(false);
                    } else {
                        lemma_under_step(parent_map, i2, m);
                        let c = choose|c: ProofNodeIdx|
                            (c as int) < parent_map.len() && #[trigger] parent_map[c as int]
                                == Some(i2) && spec_is_under(parent_map, c, m);
                        assert(topology.children@[i2 as int]@.contains(c));
                        let k0 = choose|k0: int|
                            0 <= k0 < kids@.len() && kids@[k0] == c;
                        assert(spec_has_error_under(nodes@, parent_map, c));
                        assert(necessary@[c as int]);
                        assert(false);
                    }
                }
            }
        }
        necessary[i2] = flag;
    }

    // Unnecessary roots: the maximal unnecessary subtrees, never the root.
    let mut unnecessary_roots: Vec<ProofNodeIdx> = Vec::new();
    let mut x: usize = 1;
    while x < nlen
        invariant
            nlen == nodes@.len(),
            1 <= x <= nlen || nlen == 0,
            topology.wf(),
            parent_map == topology.parent@,
            nodes@.len() == topology.spec_len(),
            necessary@.len() == nlen,
            forall|i0: int|
                0 <= i0 < nodes@.len() ==> ((#[trigger] topology.parent@[i0]) is None <==> i0
                    == 0),
            forall|jj: int|
                0 <= jj < nlen ==> ((#[trigger] necessary@[jj]) <==> spec_has_error_under(
                    nodes@,
                    parent_map,
                    jj as ProofNodeIdx,
                )),
            forall|y: ProofNodeIdx|
                unnecessary_roots@.contains(y) <==> (0 < y && (y as int) < x
                    && !spec_has_error_under(nodes@, parent_map, y) && spec_has_error_under(
                    nodes@,
                    parent_map,
                    parent_map[y as int]->0,
                )),
        decreases nlen - x,
    {
        let ghost old_roots = unnecessary_roots@;
        if let Some(p) = topology.parent_of(x) {
            if !necessary[x] && necessary[p] {
                unnecessary_roots.push(x);
            }
        }
        proof {
            assert forall|y: ProofNodeIdx|
                unnecessary_roots@.contains(y) <==> (0 < y && (y as int) < x + 1
                    && !spec_has_error_under(nodes@, parent_map, y) && spec_has_error_under(
                    nodes@,
                    parent_map,
                    parent_map[y as int]->0,
                )) by {
                if unnecessary_roots@.contains(y) {
                    let k = choose|k: int|
                        0 <= k < unnecessary_roots@.len() && unnecessary_roots@[k] == y;
                    if k < old_roots.len() {
                        assert(old_roots[k] == y);
                        assert(old_roots.contains(y));
                    }
                }
                if 0 < y && (y as int) < x + 1 && !spec_has_error_under(nodes@, parent_map, y)
                    && spec_has_error_under(nodes@, parent_map, parent_map[y as int]->0) {
                    if (y as int) < x {
                        assert(old_roots.contains(y));
                        let k = choose|k: int| 0 <= k < old_roots.len() && old_roots[k] == y;
                        assert(unnecessary_roots@[k] == y);
                        assert(unnecessary_roots@.contains(y));
                    } else {
                        assert(unnecessary_roots@[unnecessary_roots@.len() - 1] == y);
                        assert(unnecessary_roots@.contains(y));
                    }
                }
            }
        }
        x = x + 1;
    }

    let tree = SerializedTree { root: 0, nodes, topology, error_leaves, unnecessary_roots };
    proof {
        assert forall|x0: ProofNodeIdx, m: ProofNodeIdx|
            #![trigger tree.unnecessary_roots@.contains(x0), tree.nodes@[m as int]]
            tree.unnecessary_roots@.contains(x0) && (m as int) < tree.nodes@.len()
                && spec_is_under(tree.topology.parent@, x0, m) implies !spec_error_node(
            tree.nodes@[m as int]@,
        ) by {
            assert(!spec_has_error_under(tree.nodes@, tree.topology.parent@, x0));
        }
    }
    Some(tree)
}

/// Tree well-formedness: the root is a valid index, every node lies in the
/// root's subtree, each non-root node has exactly one parent edge, and the
/// subtree order is acyclic — so the parent chain from any node is the one
/// path back to the root.
pub proof fn lemma_tree_well_formed(t: &SerializedTree)
    requires
        t.wf(),
    ensures
        (t.root as int) < t.nodes@.len(),
        forall|m: ProofNodeIdx|
            (m as int) < t.nodes@.len() ==> spec_is_under(t.topology.parent@, t.root, m),
        forall|i: int| 0 < i < t.nodes@.len() ==> (#[trigger] t.topology.parent@[i]) is Some,
        forall|n: ProofNodeIdx, m: ProofNodeIdx|
            spec_is_under(t.topology.parent@, n, m) && spec_is_under(t.topology.parent@, m, n)
                ==> n == m,
        forall|p1: Seq<ProofNodeIdx>, p2: Seq<ProofNodeIdx>|
            #![trigger spec_is_path(t.topology.parent@, p1), spec_is_path(t.topology.parent@, p2)]
            spec_is_path(t.topology.parent@, p1) && spec_is_path(t.topology.parent@, p2)
                && p1[0] == p2[0] && p1.last() == p2.last() ==> p1 == p2,
{
    assert(spec_parents_decrease(t.topology.parent@));
    assert forall|m: ProofNodeIdx| (m as int) < t.nodes@.len() implies spec_is_under(
        t.topology.parent@,
        t.root,
        m,
    ) by {
        lemma_root_reaches(t.topology.parent@, m);
    }
    assert forall|n: ProofNodeIdx, m: ProofNodeIdx|
        spec_is_under(t.topology.parent@, n, m) && spec_is_under(
            t.topology.parent@,
            m,
            n,
        ) implies n == m by {
        lemma_under_antisymmetric(t.topology.parent@, n, m);
    }
    assert forall|p1: Seq<ProofNodeIdx>, p2: Seq<ProofNodeIdx>|
        #![trigger spec_is_path(t.topology.parent@, p1), spec_is_path(t.topology.parent@, p2)]
        spec_is_path(t.topology.parent@, p1) && spec_is_path(t.topology.parent@, p2) && p1[0]
            == p2[0] && p1.last() == p2.last() implies p1 == p2 by {
        lemma_unique_path(t.topology.parent@, p1, p2);
    }
}

impl SerializedTree {
    /// The structural invariant of a serialized tree: topology and arena
    /// cover the same indices, the root is the first allocated node, and it
    /// is the only parentless one.
    pub open spec fn wf(&self) -> bool {
        &&& self.topology.wf()
        &&& self.nodes@.len() == self.topology.spec_len()
        &&& self.nodes@.len() > 0
        &&& self.root == 0
        &&& forall|i: int|
            0 <= i < self.nodes@.len() ==> ((#[trigger] self.topology.parent@[i]) is None <==> i
                == 0)
    }
}

} // verus!
