//! The necessity classifier and the namespace guess.

use argus::proof_tree::ext::{guess_def_namespace, PredicateExt};
use argus::ty::{
    DefPathData, Namespace, Predicate, PredicateKind, TraitPredicate, TraitRef, Ty, TyCtxt,
};

const SIZED: u64 = 1;

fn tcx() -> TyCtxt {
    TyCtxt { sized_def_id: SIZED, def_keys: vec![] }
}

fn trait_pred(self_ty: Ty, trait_id: u64, trait_name: &str, blanket: bool) -> Predicate {
    Predicate {
        bound_vars: vec![],
        kind: PredicateKind::Trait(TraitPredicate {
            self_ty,
            trait_ref: TraitRef { def_id: trait_id, name: trait_name.to_string() },
            blanket,
        }),
    }
}

fn concrete(name: &str) -> Ty {
    Ty::Concrete { def_id: 7, name: name.to_string(), sized: true }
}

#[test]
fn unit_blanket_is_not_necessary() {
    let tcx = tcx();
    let p = trait_pred(Ty::Unit, 40, "DefaultHook", true);
    assert!(p.is_unit_impl_trait(&tcx));
    assert!(!p.is_necessary(&tcx));
}

#[test]
fn unit_non_blanket_is_necessary() {
    let tcx = tcx();
    let p = trait_pred(Ty::Unit, 40, "Display", false);
    assert!(!p.is_unit_impl_trait(&tcx));
    assert!(p.is_necessary(&tcx));
}

#[test]
fn unknown_subject_is_not_necessary() {
    let tcx = tcx();
    let p = trait_pred(Ty::Infer { var: 3 }, 40, "Iterator", false);
    assert!(p.is_ty_unknown(&tcx));
    assert!(!p.is_necessary(&tcx));
}

#[test]
fn redundant_sizedness_is_not_necessary() {
    let tcx = tcx();
    let p = trait_pred(concrete("Widget"), SIZED, "Sized", false);
    assert!(p.is_ty_impl_sized(&tcx));
    assert!(!p.is_necessary(&tcx));
}

#[test]
fn sizedness_of_unsized_subject_is_necessary() {
    let tcx = tcx();
    let slice = Ty::Concrete { def_id: 8, name: "[u8]".to_string(), sized: false };
    let p = trait_pred(slice, SIZED, "Sized", false);
    assert!(!p.is_ty_impl_sized(&tcx));
    assert!(p.is_necessary(&tcx));
}

#[test]
fn ordinary_trait_constraint_is_necessary() {
    let tcx = tcx();
    let p = trait_pred(concrete("Widget"), 40, "Send", false);
    assert!(p.is_trait_predicate());
    assert!(p.is_necessary(&tcx));
}

#[test]
fn non_trait_constraint_is_not_necessary() {
    let tcx = tcx();
    let p = Predicate {
        bound_vars: vec![],
        kind: PredicateKind::Other { label: "'a: 'b".to_string() },
    };
    assert!(!p.is_trait_predicate());
    assert!(!p.is_necessary(&tcx));
}

#[test]
fn namespace_guess_follows_def_path_data() {
    let tcx = TyCtxt {
        sized_def_id: SIZED,
        def_keys: vec![
            DefPathData::TypeNs,
            DefPathData::ValueNs,
            DefPathData::MacroNs,
            DefPathData::Ctor,
            DefPathData::CrateRoot,
            DefPathData::Impl,
        ],
    };
    assert_eq!(guess_def_namespace(&tcx, 0), Namespace::TypeNS);
    assert_eq!(guess_def_namespace(&tcx, 1), Namespace::ValueNS);
    assert_eq!(guess_def_namespace(&tcx, 2), Namespace::MacroNS);
    assert_eq!(guess_def_namespace(&tcx, 3), Namespace::ValueNS);
    assert_eq!(guess_def_namespace(&tcx, 4), Namespace::TypeNS);
    assert_eq!(guess_def_namespace(&tcx, 5), Namespace::TypeNS);
    // A definition the table does not cover defaults to the type namespace.
    assert_eq!(guess_def_namespace(&tcx, 99), Namespace::TypeNS);
}

#[test]
fn predicate_equality_is_structural() {
    let tcx = tcx();
    let p = trait_pred(concrete("Widget"), 40, "Send", false);
    assert!(p.pred_eq(&p.duplicate()));
    let q = trait_pred(concrete("Gadget"), 40, "Send", false);
    assert!(!p.pred_eq(&q));
    let r = trait_pred(concrete("Widget"), 41, "Sync", false);
    assert!(!p.pred_eq(&r));
    assert!(p.is_necessary(&tcx) && q.is_necessary(&tcx) && r.is_necessary(&tcx));
}

#[test]
fn char_range_containment() {
    let outer = argus::ty::CharRange { start: 10, end: 20 };
    let inner = argus::ty::CharRange { start: 12, end: 15 };
    assert!(outer.contains(&inner));
    assert!(outer.contains(&outer));
    assert!(!inner.contains(&outer));
    let overlapping = argus::ty::CharRange { start: 5, end: 15 };
    assert!(!outer.contains(&overlapping));
}
