//! The model of the solver's terms that this engine inspects.
//!
//! The external type-checker hands the engine constraints, source ranges and
//! a little context (which interface is the sizedness one, the innermost
//! binder universe).  Everything the engine reads of them is held here as
//! plain values; everything else about the solver stays outside.

use vstd::prelude::*;

verus! {

/// Identifier of a definition (a type, an interface, an impl) inside the
/// solver's definition table.
pub type DefId = u64;

/// A lifetime/region annotation on a reference type.
#[derive(Clone, Copy, Debug, PartialEq, Eq, Structural)]
pub enum Region {
    /// The whole-program lifetime.
    Static,
    /// A named or inference lifetime, identified by number.
    Named(u64),
    /// The anonymous region left behind once lifetime detail is erased.
    Erased,
}

/// Mathematical model of a type term ([`Ty`] is its executable twin).
pub enum TyV {
    /// The unit type.
    Unit,
    /// A concrete named type; `sized` says whether its size is statically known.
    Concrete { def_id: DefId, name: Seq<char>, sized: bool },
    /// A reference type, carrying a region annotation.
    Ref { region: Region, inner: Box<TyV> },
    /// An unresolved inference variable.
    Infer { var: u64 },
    /// A variable bound by the enclosing binder, as a de Bruijn position.
    Bound { idx: u64 },
    /// A placeholder instantiated in some universe.
    Placeholder { universe: u64, idx: u64 },
}

/// A type term as the solver reports it.
pub enum Ty {
    Unit,
    Concrete { def_id: DefId, name: String, sized: bool },
    Ref { region: Region, inner: Box<Ty> },
    Infer { var: u64 },
    Bound { idx: u64 },
    Placeholder { universe: u64, idx: u64 },
}

pub open spec fn ty_view(t: Ty) -> TyV
    decreases t,
{
    match t {
        Ty::Unit => TyV::Unit,
        Ty::Concrete { def_id, name, sized } => TyV::Concrete { def_id, name: name@, sized },
        Ty::Ref { region, inner } => TyV::Ref { region, inner: Box::new(ty_view(*inner)) },
        Ty::Infer { var } => TyV::Infer { var },
        Ty::Bound { idx } => TyV::Bound { idx },
        Ty::Placeholder { universe, idx } => TyV::Placeholder { universe, idx },
    }
}

impl View for Ty {
    type V = TyV;

    open spec fn view(&self) -> TyV {
        ty_view(*self)
    }
}

/// Whether a type's size is statically known, without solving anything.
pub open spec fn spec_known_sized(t: TyV) -> bool {
    match t {
        TyV::Unit => true,
        TyV::Concrete { sized, .. } => sized,
        TyV::Ref { .. } => true,
        TyV::Infer { .. } => false,
        TyV::Bound { .. } => false,
        TyV::Placeholder { .. } => false,
    }
}

impl Ty {
    /// Whether this type's size is statically known.
    pub fn known_sized(&self) -> (r: bool)
        ensures
            r == spec_known_sized(self@),
    {
        match self {
            Ty::Unit => true,
            Ty::Concrete { sized, .. } => *sized,
            Ty::Ref { .. } => true,
            Ty::Infer { .. } => false,
            Ty::Bound { .. } => false,
            Ty::Placeholder { .. } => false,
        }
    }

    /// Structural equality of type terms.
    pub fn ty_eq(&self, other: &Ty) -> (r: bool)
        ensures
            r == (self@ == other@),
        decreases *self,
    {
        match (self, other) {
            (Ty::Unit, Ty::Unit) => true,
            (
                Ty::Concrete { def_id: d1, name: n1, sized: s1 },
                Ty::Concrete { def_id: d2, name: n2, sized: s2 },
            ) => *d1 == *d2 && n1.eq(n2) && *s1 == *s2,
            (Ty::Ref { region: r1, inner: i1 }, Ty::Ref { region: r2, inner: i2 }) => {
                *r1 == *r2 && i1.ty_eq(i2)
            },
            (Ty::Infer { var: v1 }, Ty::Infer { var: v2 }) => *v1 == *v2,
            (Ty::Bound { idx: x1 }, Ty::Bound { idx: x2 }) => *x1 == *x2,
            (
                Ty::Placeholder { universe: u1, idx: x1 },
                Ty::Placeholder { universe: u2, idx: x2 },
            ) => *u1 == *u2 && *x1 == *x2,
            _ => false,
        }
    }

    /// A structurally identical copy of this type term.
    pub fn duplicate(&self) -> (r: Ty)
        ensures
            r@ == self@,
        decreases *self,
    {
        match self {
            Ty::Unit => Ty::Unit,
            Ty::Concrete { def_id, name, sized } => Ty::Concrete {
                def_id: *def_id,
                name: name.clone(),
                sized: *sized,
            },
            Ty::Ref { region, inner } => Ty::Ref {
                region: *region,
                inner: Box::new(inner.duplicate()),
            },
            Ty::Infer { var } => Ty::Infer { var: *var },
            Ty::Bound { idx } => Ty::Bound { idx: *idx },
            Ty::Placeholder { universe, idx } => Ty::Placeholder {
                universe: *universe,
                idx: *idx,
            },
        }
    }
}

/// Model of a reference to an interface (a trait path).
pub struct TraitRefV {
    pub def_id: DefId,
    pub name: Seq<char>,
}

/// A reference to an interface, as the solver names it.
pub struct TraitRef {
    pub def_id: DefId,
    pub name: String,
}

impl View for TraitRef {
    type V = TraitRefV;

    open spec fn view(&self) -> TraitRefV {
        TraitRefV { def_id: self.def_id, name: self.name@ }
    }
}

impl TraitRef {
    pub fn trait_ref_eq(&self, other: &TraitRef) -> (r: bool)
        ensures
            r == (self@ == other@),
    {
        self.def_id == other.def_id && self.name.eq(&other.name)
    }

    pub fn duplicate(&self) -> (r: TraitRef)
        ensures
            r@ == self@,
    {
        TraitRef { def_id: self.def_id, name: self.name.clone() }
    }
}

/// Model of an interface-implementation constraint.
pub struct TraitPredicateV {
    pub self_ty: TyV,
    pub trait_ref: TraitRefV,
    /// Whether the solver satisfied the constraint by a blanket/default rule.
    pub blanket: bool,
}

/// An interface-implementation constraint: `self_ty` must satisfy `trait_ref`.
pub struct TraitPredicate {
    pub self_ty: Ty,
    pub trait_ref: TraitRef,
    /// Whether the solver satisfied the constraint by a blanket/default rule.
    pub blanket: bool,
}

impl View for TraitPredicate {
    type V = TraitPredicateV;

    open spec fn view(&self) -> TraitPredicateV {
        TraitPredicateV {
            self_ty: self.self_ty@,
            trait_ref: self.trait_ref@,
            blanket: self.blanket,
        }
    }
}

/// Model of the shape of a constraint under its binder.
pub enum PredicateKindV {
    Trait(TraitPredicateV),
    /// Any other constraint kind (region outlives, projections, ...), kept
    /// only as the text the solver renders for it.
    Other { label: Seq<char> },
}

/// The shape of a constraint under its binder.
pub enum PredicateKind {
    Trait(TraitPredicate),
    Other { label: String },
}

impl View for PredicateKind {
    type V = PredicateKindV;

    open spec fn view(&self) -> PredicateKindV {
        match self {
            PredicateKind::Trait(tp) => PredicateKindV::Trait(tp@),
            PredicateKind::Other { label } => PredicateKindV::Other { label: label@ },
        }
    }
}

/// Model of a constraint: a binder over a constraint shape.
pub struct PredicateV {
    pub bound_vars: Seq<u64>,
    pub kind: PredicateKindV,
}

/// A constraint as the solver reports it: a binder (whose variables carry
/// arbitrary numbering) over a constraint shape.
pub struct Predicate {
    /// The numbering of the variables this constraint's binder introduces.
    pub bound_vars: Vec<u64>,
    pub kind: PredicateKind,
}

impl View for Predicate {
    type V = PredicateV;

    open spec fn view(&self) -> PredicateV {
        PredicateV { bound_vars: self.bound_vars@, kind: self.kind@ }
    }
}

impl Predicate {
    /// Structural equality of constraints.
    pub fn pred_eq(&self, other: &Predicate) -> (r: bool)
        ensures
            r == (self@ == other@),
    {
        let vars_eq = self.bound_vars == other.bound_vars;
        proof {
            if vars_eq {
                assert(self.bound_vars@ =~= other.bound_vars@);
            } else if self.bound_vars@ == other.bound_vars@ {
                assert(forall|i: int|
                    0 <= i < self.bound_vars@.len() ==> self.bound_vars@[i]
                        == other.bound_vars@[i]);
                assert(false);
            }
        }
        let kind_eq = match (&self.kind, &other.kind) {
            (PredicateKind::Trait(tp1), PredicateKind::Trait(tp2)) => {
                tp1.self_ty.ty_eq(&tp2.self_ty) && tp1.trait_ref.trait_ref_eq(&tp2.trait_ref)
                    && tp1.blanket == tp2.blanket
            },
            (PredicateKind::Other { label: l1 }, PredicateKind::Other { label: l2 }) => l1.eq(
                l2,
            ),
            _ => false,
        };
        vars_eq && kind_eq
    }

    /// A structurally identical copy of this constraint.
    pub fn duplicate(&self) -> (r: Predicate)
        ensures
            r@ == self@,
    {
        let kind = match &self.kind {
            PredicateKind::Trait(tp) => PredicateKind::Trait(TraitPredicate {
                self_ty: tp.self_ty.duplicate(),
                trait_ref: tp.trait_ref.duplicate(),
                blanket: tp.blanket,
            }),
            PredicateKind::Other { label } => PredicateKind::Other { label: label.clone() },
        };
        Predicate { bound_vars: self.bound_vars.clone(), kind }
    }
}

/// The little the engine reads of the solver's global context: which
/// definition is the sizedness interface, and the definition-path table
/// used to guess printing namespaces.
pub struct TyCtxt {
    /// The `DefId` of the sizedness interface.
    pub sized_def_id: DefId,
    /// Definition-path data, indexed by `DefId`.
    pub def_keys: Vec<DefPathData>,
}

/// The model of the inference context: all the engine reads of it is the
/// innermost universe, into which canonical placeholders are bound.
pub struct InferCtxt {
    pub universe: u64,
}

/// What kind of path component a definition's key ends in.
#[derive(Clone, Copy, Debug, PartialEq, Eq, Structural)]
pub enum DefPathData {
    TypeNs,
    CrateRoot,
    ImplTrait,
    ValueNs,
    AnonConst,
    ClosureExpr,
    Ctor,
    MacroNs,
    Impl,
    ForeignMod,
}

/// A namespace a definition's name lives in.
#[derive(Clone, Copy, Debug, PartialEq, Eq, Structural)]
pub enum Namespace {
    TypeNS,
    ValueNS,
    MacroNS,
}

/// A source range in character offsets.
#[derive(Clone, Copy, Debug, PartialEq, Eq, Structural)]
pub struct CharRange {
    pub start: usize,
    pub end: usize,
}

impl CharRange {
    /// Whether this range encloses `other`.
    pub open spec fn spec_contains(self, other: CharRange) -> bool {
        self.start <= other.start && other.end <= self.end
    }

    /// Whether this range encloses `other`.
    pub fn contains(&self, other: &CharRange) -> (r: bool)
        ensures
            r == self.spec_contains(*other),
    {
        self.start <= other.start && other.end <= self.end
    }
}

} // verus!
