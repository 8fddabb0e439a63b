//! The proof-tree builder, its topology, and the probe-kind labels.

use argus::proof_tree::ext::CandidateExt;
use argus::proof_tree::serialize::serialize_proof_tree;
use argus::proof_tree::topology::TreeTopology;
use argus::proof_tree::{
    Candidate, CandidateSource, Certainty, Event, MaybeCause, Node, NoSolution, ProbeKind,
};
use argus::ty::{Predicate, PredicateKind, TraitPredicate, TraitRef, Ty};

fn goal(name: &str) -> Predicate {
    Predicate {
        bound_vars: vec![],
        kind: PredicateKind::Trait(TraitPredicate {
            self_ty: Ty::Concrete { def_id: 7, name: name.to_string(), sized: true },
            trait_ref: TraitRef { def_id: 2, name: "Send".to_string() },
            blanket: false,
        }),
    }
}

fn enter_goal(name: &str) -> Event {
    Event::EnterGoal { predicate: goal(name) }
}

fn enter_probe(probe: ProbeKind) -> Event {
    Event::EnterCandidate { probe }
}

fn result_no() -> Event {
    Event::ProbeResult { result: Err(NoSolution) }
}

fn result_yes() -> Event {
    Event::ProbeResult { result: Ok(Certainty::Yes) }
}

#[test]
fn probe_labels_are_exact() {
    assert_eq!(ProbeKind::Root.pretty(), "root");
    assert_eq!(ProbeKind::NormalizedSelfTyAssembly.pretty(), "normalized-self-ty-asm");
    assert_eq!(ProbeKind::UnsizeAssembly.pretty(), "unsize-asm");
    assert_eq!(ProbeKind::CommitIfOk.pretty(), "commit-if-ok");
    assert_eq!(ProbeKind::UpcastProjectionCompatibility.pretty(), "upcase-proj-compat");
    assert_eq!(ProbeKind::Misc { name: "leak-check".to_string() }.pretty(), "misc-leak-check");
    let builtin = ProbeKind::TraitCandidate { source: CandidateSource::BuiltinImpl };
    let alias = ProbeKind::TraitCandidate { source: CandidateSource::AliasBound };
    let env = ProbeKind::TraitCandidate { source: CandidateSource::ParamEnv { index: 3 } };
    let user = ProbeKind::TraitCandidate {
        source: CandidateSource::Impl {
            ty: Ty::Unit,
            trait_ref: TraitRef { def_id: 2, name: "Send".to_string() },
        },
    };
    assert_eq!(builtin.pretty(), "builtin");
    assert_eq!(alias.pretty(), "alias-bound");
    assert_eq!(env.pretty(), "param-env#3");
    assert_eq!(user.pretty(), "impl");
    assert!(builtin.is_informative_probe());
    assert!(user.is_informative_probe());
    assert!(!alias.is_informative_probe());
    assert!(!env.is_informative_probe());
    assert!(!ProbeKind::Root.is_informative_probe());
}

#[test]
fn topology_refuses_second_parent() {
    let mut topology = TreeTopology::new();
    let a = topology.push_node();
    let b = topology.push_node();
    let c = topology.push_node();
    assert_eq!((a, b, c), (0, 1, 2));
    assert!(topology.add_edge(0, 2));
    assert!(!topology.add_edge(1, 2));
    assert_eq!(topology.parent_of(2), Some(0));
    assert_eq!(topology.children_of(0).clone(), vec![2]);
    assert_eq!(topology.parent_of(1), None);
}

#[test]
fn failing_search_builds_expected_tree() {
    let events = vec![
        enter_goal("Widget"),
        enter_probe(ProbeKind::TraitCandidate { source: CandidateSource::BuiltinImpl }),
        result_no(),
        Event::Exit,
        Event::Exit,
    ];
    let tree = serialize_proof_tree(&events).expect("well-nested stream");
    assert_eq!(tree.root, 0);
    assert_eq!(tree.nodes.len(), 3);
    assert!(matches!(&tree.nodes[0], Node::Goal { .. }));
    match &tree.nodes[1] {
        Node::Candidate { data: Candidate::Any { data } } => assert_eq!(data, "builtin"),
        _ => panic!("expected a candidate node"),
    }
    match &tree.nodes[2] {
        Node::Result { data } => assert_eq!(data, "No"),
        _ => panic!("expected a result node"),
    }
    assert_eq!(tree.topology.parent_of(0), None);
    assert_eq!(tree.topology.parent_of(1), Some(0));
    assert_eq!(tree.topology.parent_of(2), Some(1));
    assert_eq!(tree.error_leaves, vec![2]);
    assert!(tree.unnecessary_roots.is_empty());
}

#[test]
fn successful_search_has_no_error_leaves() {
    let events = vec![
        enter_goal("Widget"),
        enter_probe(ProbeKind::TraitCandidate { source: CandidateSource::BuiltinImpl }),
        result_yes(),
        Event::Exit,
        Event::Exit,
    ];
    let tree = serialize_proof_tree(&events).expect("well-nested stream");
    assert!(tree.error_leaves.is_empty());
    assert!(tree.unnecessary_roots.is_empty() || tree.unnecessary_roots.contains(&1));
}

#[test]
fn ambiguous_results_count_as_error_leaves() {
    for cause in [MaybeCause::Overflow, MaybeCause::Ambiguity] {
        let events = vec![
            enter_goal("Widget"),
            Event::ProbeResult { result: Ok(Certainty::Maybe(cause)) },
            Event::Exit,
        ];
        let tree = serialize_proof_tree(&events).expect("well-nested stream");
        assert_eq!(tree.error_leaves, vec![1]);
    }
}

#[test]
fn clean_subtrees_become_unnecessary_roots() {
    // One goal probes two candidates: the first succeeds, the second fails.
    let events = vec![
        enter_goal("Widget"),
        enter_probe(ProbeKind::TraitCandidate { source: CandidateSource::ParamEnv { index: 0 } }),
        result_yes(),
        Event::Exit,
        enter_probe(ProbeKind::TraitCandidate { source: CandidateSource::BuiltinImpl }),
        result_no(),
        Event::Exit,
        Event::Exit,
    ];
    let tree = serialize_proof_tree(&events).expect("well-nested stream");
    assert_eq!(tree.nodes.len(), 5);
    assert_eq!(tree.error_leaves, vec![4]);
    // The successful candidate (node 1) heads the one maximal clean subtree;
    // the root never qualifies, and node 2 is covered by node 1.
    assert_eq!(tree.unnecessary_roots, vec![1]);
    assert!(!tree.unnecessary_roots.contains(&tree.root));
}

#[test]
fn nested_goals_link_under_their_candidate() {
    let events = vec![
        enter_goal("Widget"),
        enter_probe(ProbeKind::TraitCandidate { source: CandidateSource::BuiltinImpl }),
        enter_goal("Inner"),
        result_no(),
        Event::Exit,
        result_no(),
        Event::Exit,
        Event::Exit,
    ];
    let tree = serialize_proof_tree(&events).expect("well-nested stream");
    assert_eq!(tree.nodes.len(), 5);
    assert_eq!(tree.topology.parent_of(2), Some(1));
    assert_eq!(tree.topology.parent_of(3), Some(2));
    assert_eq!(tree.topology.parent_of(4), Some(1));
    assert_eq!(tree.error_leaves, vec![3, 4]);
}

#[test]
fn malformed_streams_build_no_tree() {
    // Empty stream.
    assert!(serialize_proof_tree(&vec![]).is_none());
    // Not opened by a goal.
    assert!(serialize_proof_tree(&vec![result_no()]).is_none());
    assert!(serialize_proof_tree(&vec![Event::Exit]).is_none());
    // Unclosed frame.
    assert!(serialize_proof_tree(&vec![enter_goal("Widget")]).is_none());
    // Escapes the root before the end.
    let escaping = vec![enter_goal("Widget"), Event::Exit, enter_goal("Widget"), Event::Exit];
    assert!(serialize_proof_tree(&escaping).is_none());
}
