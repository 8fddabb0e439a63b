//! The obligation extractor and the tree entry point.

use argus::analysis::{
    obligations, tree, AnalysisError, Body, FnCtxt, FulfilledObligation, FulfillmentError,
    ObligationCause, Target,
};
use argus::proof_tree::ext::{u64_to_decimal, PrettyPrintExt, StableHash};
use argus::proof_tree::{Certainty, Event, Node, NoSolution, ObligationKind};
use argus::ty::{
    CharRange, InferCtxt, Predicate, PredicateKind, TraitPredicate, TraitRef, Ty, TyCtxt,
};

const SIZED: u64 = 1;

fn tcx() -> TyCtxt {
    TyCtxt { sized_def_id: SIZED, def_keys: vec![] }
}

fn send_pred(self_ty: Ty) -> Predicate {
    Predicate {
        bound_vars: vec![],
        kind: PredicateKind::Trait(TraitPredicate {
            self_ty,
            trait_ref: TraitRef { def_id: 2, name: "Send".to_string() },
            blanket: false,
        }),
    }
}

fn widget() -> Ty {
    Ty::Concrete { def_id: 7, name: "Widget".to_string(), sized: true }
}

fn span(start: usize, end: usize) -> CharRange {
    CharRange { start, end }
}

fn failing_search(pred: Predicate) -> Vec<Event> {
    vec![
        Event::EnterGoal { predicate: pred },
        Event::ProbeResult { result: Err(NoSolution) },
        Event::Exit,
    ]
}

fn failure(pred: Predicate, at: CharRange, adjusted: Option<CharRange>) -> FulfillmentError {
    let search = failing_search(pred.duplicate());
    FulfillmentError {
        predicate: pred.duplicate(),
        cause: ObligationCause { span: at },
        root_predicate: pred,
        adjusted_cause: adjusted.map(|span| ObligationCause { span }),
        search,
    }
}

fn body_with(errors: Vec<FulfillmentError>) -> Body {
    Body {
        inspect: Some(FnCtxt {
            infcx: Some(InferCtxt { universe: 0 }),
            fulfillment_errors: errors,
            fulfilled_obligations: vec![],
        }),
    }
}

#[test]
fn missing_capability_yields_one_failure_obligation() {
    let tcx = tcx();
    let body = body_with(vec![failure(send_pred(widget()), span(5, 17), None)]);
    let obls = obligations(&tcx, &body).expect("hook ran");
    assert_eq!(obls.len(), 1);
    assert_eq!(obls[0].kind, ObligationKind::Failure);
    assert_eq!(obls[0].range, span(5, 17));
    assert_eq!(obls[0].data.pretty(), "Widget: Send");
    let infcx = InferCtxt { universe: 0 };
    assert_eq!(obls[0].hash, u64_to_decimal(send_pred(widget()).stable_hash(&infcx)));
}

#[test]
fn hook_never_invoked_is_an_error() {
    let tcx = tcx();
    let no_hook = Body { inspect: None };
    assert!(matches!(
        obligations(&tcx, &no_hook),
        Err(AnalysisError::InspectNeverCalled)
    ));
    let no_infcx = Body {
        inspect: Some(FnCtxt {
            infcx: None,
            fulfillment_errors: vec![],
            fulfilled_obligations: vec![],
        }),
    };
    assert!(matches!(
        obligations(&tcx, &no_infcx),
        Err(AnalysisError::InspectNeverCalled)
    ));
}

#[test]
fn no_failures_is_an_empty_report_not_an_error() {
    let tcx = tcx();
    let body = body_with(vec![]);
    assert_eq!(obligations(&tcx, &body).expect("hook ran").len(), 0);
}

#[test]
fn unit_noise_never_appears_in_the_report() {
    let tcx = tcx();
    let unit_noise = Predicate {
        bound_vars: vec![],
        kind: PredicateKind::Trait(TraitPredicate {
            self_ty: Ty::Unit,
            trait_ref: TraitRef { def_id: 40, name: "SomeDefaultInterface".to_string() },
            blanket: true,
        }),
    };
    let body = body_with(vec![
        failure(unit_noise, span(1, 2), None),
        failure(send_pred(widget()), span(5, 17), None),
    ]);
    let obls = obligations(&tcx, &body).expect("hook ran");
    assert_eq!(obls.len(), 1);
    assert_eq!(obls[0].data.pretty(), "Widget: Send");
}

#[test]
fn cause_remapping_merges_nested_duplicates() {
    let tcx = tcx();
    // Two failures of one constraint: adjustment widens the first to
    // [8, 22], the second is untouched but its span lies inside the
    // first's original attribution, so it adopts the widened cause.
    let body = body_with(vec![
        failure(send_pred(widget()), span(10, 20), Some(span(8, 22))),
        failure(send_pred(widget()), span(12, 15), None),
    ]);
    let obls = obligations(&tcx, &body).expect("hook ran");
    assert_eq!(obls.len(), 2);
    assert_eq!(obls[0].range, span(8, 22));
    assert_eq!(obls[1].range, span(8, 22));
}

#[test]
fn remapping_leaves_unrelated_failures_alone() {
    let tcx = tcx();
    let gadget = Ty::Concrete { def_id: 8, name: "Gadget".to_string(), sized: true };
    let body = body_with(vec![
        failure(send_pred(widget()), span(10, 20), Some(span(8, 22))),
        // Same constraint, but outside the remapped region.
        failure(send_pred(widget()), span(30, 35), None),
        // Inside the region, but a different constraint.
        failure(send_pred(gadget), span(12, 15), None),
    ]);
    let obls = obligations(&tcx, &body).expect("hook ran");
    assert_eq!(obls.len(), 3);
    assert_eq!(obls[0].range, span(8, 22));
    assert_eq!(obls[1].range, span(30, 35));
    assert_eq!(obls[2].range, span(12, 15));
}

#[test]
fn fallback_collects_necessary_failures_from_the_log() {
    let tcx = tcx();
    let body = Body {
        inspect: Some(FnCtxt {
            infcx: Some(InferCtxt { universe: 0 }),
            fulfillment_errors: vec![],
            fulfilled_obligations: vec![
                FulfilledObligation::Success { predicate: send_pred(widget()) },
                FulfilledObligation::Failure {
                    error: failure(send_pred(widget()), span(5, 17), None),
                },
                FulfilledObligation::Failure {
                    error: failure(send_pred(Ty::Infer { var: 0 }), span(1, 2), None),
                },
            ],
        }),
    };
    let obls = obligations(&tcx, &body).expect("hook ran");
    assert_eq!(obls.len(), 1);
    assert_eq!(obls[0].range, span(5, 17));
}

#[test]
fn tree_is_built_for_the_matching_target() {
    let tcx = tcx();
    let body = body_with(vec![failure(send_pred(widget()), span(5, 17), None)]);
    let target = Target { data: "Widget: Send".to_string() };
    let built = tree(&tcx, &body, &target).expect("target matches a failing goal");
    assert_eq!(built.root, 0);
    assert_eq!(built.nodes.len(), 2);
    assert!(matches!(&built.nodes[0], Node::Goal { .. }));
    assert_eq!(built.error_leaves, vec![1]);
}

#[test]
fn unmatched_target_yields_no_tree() {
    let tcx = tcx();
    let body = body_with(vec![failure(send_pred(widget()), span(5, 17), None)]);
    let target = Target { data: "Gadget: Sync".to_string() };
    assert!(tree(&tcx, &body, &target).is_none());
}

#[test]
fn tree_without_hook_is_absent() {
    let tcx = tcx();
    let target = Target { data: "Widget: Send".to_string() };
    assert!(tree(&tcx, &Body { inspect: None }, &target).is_none());
}

#[test]
fn successful_goal_certainty_is_yes() {
    let tcx = tcx();
    let mut record = failure(send_pred(widget()), span(5, 17), None);
    record.search = vec![
        Event::EnterGoal { predicate: send_pred(widget()) },
        Event::ProbeResult { result: Ok(Certainty::Yes) },
        Event::Exit,
    ];
    let body = body_with(vec![record]);
    let target = Target { data: "Widget: Send".to_string() };
    let built = tree(&tcx, &body, &target).expect("target matches");
    assert!(built.error_leaves.is_empty());
}
