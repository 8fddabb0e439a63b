//! Canonical hashing and rendering.

use argus::proof_tree::ext::{u64_to_decimal, PrettyPrintExt, PrettyResultExt, StableHash};
use argus::proof_tree::{Certainty, MaybeCause, NoSolution};
use argus::ty::{
    InferCtxt, Predicate, PredicateKind, Region, TraitPredicate, TraitRef, Ty,
};

fn send_pred(self_ty: Ty, bound_vars: Vec<u64>) -> Predicate {
    Predicate {
        bound_vars,
        kind: PredicateKind::Trait(TraitPredicate {
            self_ty,
            trait_ref: TraitRef { def_id: 2, name: "Send".to_string() },
            blanket: false,
        }),
    }
}

fn ref_to(region: Region, inner: Ty) -> Ty {
    Ty::Ref { region, inner: Box::new(inner) }
}

#[test]
fn hash_ignores_infer_var_identity() {
    let infcx = InferCtxt { universe: 4 };
    let p = send_pred(Ty::Infer { var: 11 }, vec![]);
    let q = send_pred(Ty::Infer { var: 93 }, vec![]);
    assert_eq!(p.stable_hash(&infcx), q.stable_hash(&infcx));
}

#[test]
fn hash_ignores_region_detail() {
    let infcx = InferCtxt { universe: 0 };
    let widget = || Ty::Concrete { def_id: 7, name: "Widget".to_string(), sized: true };
    let p = send_pred(ref_to(Region::Named(3), widget()), vec![]);
    let q = send_pred(ref_to(Region::Static, widget()), vec![]);
    assert_eq!(p.stable_hash(&infcx), q.stable_hash(&infcx));
}

#[test]
fn hash_ignores_binder_numbering() {
    let infcx = InferCtxt { universe: 0 };
    let p = send_pred(Ty::Bound { idx: 0 }, vec![17, 4]);
    let q = send_pred(Ty::Bound { idx: 0 }, vec![2, 900]);
    assert_eq!(p.stable_hash(&infcx), q.stable_hash(&infcx));
}

#[test]
fn hash_distinguishes_subjects() {
    let infcx = InferCtxt { universe: 0 };
    let p = send_pred(Ty::Concrete { def_id: 7, name: "Widget".to_string(), sized: true }, vec![]);
    let q = send_pred(Ty::Concrete { def_id: 8, name: "Gadget".to_string(), sized: true }, vec![]);
    assert_ne!(p.stable_hash(&infcx), q.stable_hash(&infcx));
}

#[test]
fn decimal_rendering_is_exact() {
    assert_eq!(u64_to_decimal(0), "0");
    assert_eq!(u64_to_decimal(9), "9");
    assert_eq!(u64_to_decimal(10), "10");
    assert_eq!(u64_to_decimal(90210), "90210");
    assert_eq!(u64_to_decimal(u64::MAX), "18446744073709551615");
}

#[test]
fn certainty_rendering_is_exact() {
    let yes: Result<Certainty, NoSolution> = Ok(Certainty::Yes);
    let overflow: Result<Certainty, NoSolution> = Ok(Certainty::Maybe(MaybeCause::Overflow));
    let ambiguity: Result<Certainty, NoSolution> = Ok(Certainty::Maybe(MaybeCause::Ambiguity));
    let no: Result<Certainty, NoSolution> = Err(NoSolution);
    assert_eq!(yes.pretty(), "Yes");
    assert_eq!(overflow.pretty(), "No: Overflow");
    assert_eq!(ambiguity.pretty(), "No: Ambiguity");
    assert_eq!(no.pretty(), "No");
    assert!(yes.is_yes());
    assert!(!overflow.is_yes());
    assert!(!ambiguity.is_yes());
    assert!(!no.is_yes());
}

#[test]
fn predicate_rendering_is_exact() {
    let p = send_pred(Ty::Concrete { def_id: 7, name: "Widget".to_string(), sized: true }, vec![]);
    assert_eq!(p.pretty(), "Widget: Send");
    let unit = send_pred(Ty::Unit, vec![]);
    assert_eq!(unit.pretty(), "(): Send");
    let inferred = send_pred(Ty::Infer { var: 0 }, vec![]);
    assert_eq!(inferred.pretty(), "_: Send");
    let reference = send_pred(
        ref_to(Region::Erased, Ty::Concrete { def_id: 7, name: "Widget".to_string(), sized: true }),
        vec![],
    );
    assert_eq!(reference.pretty(), "&Widget: Send");
    let other = Predicate {
        bound_vars: vec![],
        kind: PredicateKind::Other { label: "'a: 'static".to_string() },
    };
    assert_eq!(other.pretty(), "'a: 'static");
}
