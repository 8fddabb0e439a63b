//! Classification, rendering and canonical hashing of the solver's terms.

use crate::proof_tree::{CandidateSource, Certainty, MaybeCause, NoSolution, ProbeKind};
use crate::ty::{
    DefPathData, InferCtxt, Namespace, Predicate, PredicateKind, PredicateKindV, PredicateV,
    Region, TraitRefV, Ty, TyCtxt, TyV,
};
use vstd::prelude::*;
use vstd::string::StrSliceExecFns;
use vstd::string::StringExecFns;

verus! {

/// A canonical 64-bit structural hash value.
pub type Hash64 = u64;

// ---------------------------------------------------------------------------
// Decimal rendering

/// The decimal digit character for `d`.
pub open spec fn spec_digit(d: u64) -> char {
    if d == 0 {
        '0'
    } else if d == 1 {
        '1'
    } else if d == 2 {
        '2'
    } else if d == 3 {
        '3'
    } else if d == 4 {
        '4'
    } else if d == 5 {
        '5'
    } else if d == 6 {
        '6'
    } else if d == 7 {
        '7'
    } else if d == 8 {
        '8'
    } else {
        '9'
    }
}

/// The decimal rendering of `n`, most significant digit first.
pub open spec fn spec_decimal(n: u64) -> Seq<char>
    decreases n via spec_decimal_decreases
{
    if n < 10 {
        seq![spec_digit(n)]
    } else {
        spec_decimal(n / 10).push(spec_digit(n % 10))
    }
}

#[via_fn]
proof fn spec_decimal_decreases(n: u64) {
    if n >= 10 {
        vstd::arithmetic::div_mod::lemma_div_is_strictly_smaller(n as int, 10);
    }
}

fn digit_str(d: u64) -> (r: &'static str)
    requires
        d < 10,
    ensures
        r@ == seq![spec_digit(d)],
{
    proof {
        reveal_strlit("0");
        reveal_strlit("1");
        reveal_strlit("2");
        reveal_strlit("3");
        reveal_strlit("4");
        reveal_strlit("5");
        reveal_strlit("6");
        reveal_strlit("7");
        reveal_strlit("8");
        reveal_strlit("9");
    }
    let r: &'static str = if d == 0 {
        "0"
    } else if d == 1 {
        "1"
    } else if d == 2 {
        "2"
    } else if d == 3 {
        "3"
    } else if d == 4 {
        "4"
    } else if d == 5 {
        "5"
    } else if d == 6 {
        "6"
    } else if d == 7 {
        "7"
    } else if d == 8 {
        "8"
    } else {
        "9"
    };
    assert(r@ =~= seq![spec_digit(d)]);
    r
}

/// Renders `n` in decimal.
pub fn u64_to_decimal(n: u64) -> (s: String)
    ensures
        s@ == spec_decimal(n),
    decreases n,
{
    if n < 10 {
        digit_str(n).to_owned()
    } else {
        proof {
            vstd::arithmetic::div_mod::lemma_div_is_strictly_smaller(n as int, 10);
        }
        let mut s = u64_to_decimal(n / 10);
        s.append(digit_str(n % 10));
        assert(s@ =~= spec_decimal(n));
        s
    }
}

// ---------------------------------------------------------------------------
// Constraint classification

/// Whether the constraint is an interface-implementation constraint.
pub open spec fn spec_is_trait_predicate(p: PredicateV) -> bool {
    p.kind is Trait
}

/// Whether the constraint is a blanket-satisfied interface constraint on the
/// unit type: near-universal noise from default implementations.
pub open spec fn spec_is_unit_impl_trait(p: PredicateV) -> bool {
    match p.kind {
        PredicateKindV::Trait(tp) => tp.self_ty is Unit && tp.blanket,
        _ => false,
    }
}

/// Whether the constraint's subject type is an unresolved inference
/// variable, which carries no concrete type to report.
pub open spec fn spec_is_ty_unknown(p: PredicateV) -> bool {
    match p.kind {
        PredicateKindV::Trait(tp) => tp.self_ty is Infer,
        _ => false,
    }
}

/// Whether the constraint asserts sizedness of a type already statically
/// known to be sized.
pub open spec fn spec_is_ty_impl_sized(p: PredicateV, sized_def_id: u64) -> bool {
    match p.kind {
        PredicateKindV::Trait(tp) => tp.trait_ref.def_id == sized_def_id
            && crate::ty::spec_known_sized(tp.self_ty),
        _ => false,
    }
}

/// Whether the constraint is diagnostically meaningful: an
/// interface-implementation constraint that is not trivial noise.
pub open spec fn spec_is_necessary(p: PredicateV, sized_def_id: u64) -> bool {
    spec_is_trait_predicate(p) && !(spec_is_unit_impl_trait(p) || spec_is_ty_unknown(p)
        || spec_is_ty_impl_sized(p, sized_def_id))
}

/// Pure shape predicates over a constraint, deciding whether it is worth
/// reporting at all.
pub trait PredicateExt {
    spec fn unit_impl_trait_spec(&self) -> bool;

    spec fn ty_impl_sized_spec(&self, tcx: &TyCtxt) -> bool;

    spec fn ty_unknown_spec(&self) -> bool;

    spec fn trait_predicate_spec(&self) -> bool;

    spec fn necessary_spec(&self, tcx: &TyCtxt) -> bool;

    fn is_unit_impl_trait(&self, tcx: &TyCtxt) -> (r: bool)
        ensures
            r == self.unit_impl_trait_spec(),
    ;

    fn is_ty_impl_sized(&self, tcx: &TyCtxt) -> (r: bool)
        ensures
            r == self.ty_impl_sized_spec(tcx),
    ;

    fn is_ty_unknown(&self, tcx: &TyCtxt) -> (r: bool)
        ensures
            r == self.ty_unknown_spec(),
    ;

    fn is_trait_predicate(&self) -> (r: bool)
        ensures
            r == self.trait_predicate_spec(),
    ;

    fn is_necessary(&self, tcx: &TyCtxt) -> (r: bool)
        ensures
            r == self.necessary_spec(tcx),
    ;
}

impl PredicateExt for Predicate {
    open spec fn unit_impl_trait_spec(&self) -> bool {
        spec_is_unit_impl_trait(self@)
    }

    open spec fn ty_impl_sized_spec(&self, tcx: &TyCtxt) -> bool {
        spec_is_ty_impl_sized(self@, tcx.sized_def_id)
    }

    open spec fn ty_unknown_spec(&self) -> bool {
        spec_is_ty_unknown(self@)
    }

    open spec fn trait_predicate_spec(&self) -> bool {
        spec_is_trait_predicate(self@)
    }

    open spec fn necessary_spec(&self, tcx: &TyCtxt) -> bool {
        spec_is_necessary(self@, tcx.sized_def_id)
    }

    fn is_unit_impl_trait(&self, tcx: &TyCtxt) -> (r: bool) {
        match &self.kind {
            PredicateKind::Trait(tp) => matches!(tp.self_ty, Ty::Unit) && tp.blanket,
            _ => false,
        }
    }

    fn is_ty_impl_sized(&self, tcx: &TyCtxt) -> (r: bool) {
        match &self.kind {
            PredicateKind::Trait(tp) => tp.trait_ref.def_id == tcx.sized_def_id
                && tp.self_ty.known_sized(),
            _ => false,
        }
    }

    fn is_ty_unknown(&self, tcx: &TyCtxt) -> (r: bool) {
        match &self.kind {
            PredicateKind::Trait(tp) => matches!(tp.self_ty, Ty::Infer { .. }),
            _ => false,
        }
    }

    fn is_trait_predicate(&self) -> (r: bool) {
        matches!(&self.kind, PredicateKind::Trait(..))
    }

    fn is_necessary(&self, tcx: &TyCtxt) -> (r: bool) {
        self.is_trait_predicate() && !(self.is_unit_impl_trait(tcx) || self.is_ty_unknown(tcx)
            || self.is_ty_impl_sized(tcx))
    }
}

// ---------------------------------------------------------------------------
// Pretty printing

/// The rendered form of a type term.
pub open spec fn spec_pretty_ty(t: TyV) -> Seq<char>
    decreases t,
{
    match t {
        TyV::Unit => "()"@,
        TyV::Concrete { name, .. } => name,
        TyV::Ref { inner, .. } => "&"@ + spec_pretty_ty(*inner),
        TyV::Infer { .. } => "_"@,
        TyV::Bound { idx } => "^"@ + spec_decimal(idx),
        TyV::Placeholder { universe, idx } => "!"@ + spec_decimal(universe) + "."@ + spec_decimal(
            idx,
        ),
    }
}

/// The rendered form of a constraint: `<type>: <interface>` for
/// interface-implementation constraints, the solver's own label otherwise.
pub open spec fn spec_pretty_predicate(p: PredicateV) -> Seq<char> {
    match p.kind {
        PredicateKindV::Trait(tp) => spec_pretty_ty(tp.self_ty) + ": "@ + tp.trait_ref.name,
        PredicateKindV::Other { label } => label,
    }
}

/// Rendering for terms that have a stable textual form.
pub trait PrettyPrintExt {
    spec fn pretty_spec(&self) -> Seq<char>;

    fn pretty(&self) -> (r: String)
        ensures
            r@ == self.pretty_spec(),
    ;
}

impl PrettyPrintExt for Ty {
    open spec fn pretty_spec(&self) -> Seq<char> {
        spec_pretty_ty(self@)
    }

    fn pretty(&self) -> (r: String)
        decreases *self,
    {
        match self {
            Ty::Unit => "()".to_owned(),
            Ty::Concrete { name, .. } => name.clone(),
            Ty::Ref { inner, .. } => {
                let mut s = "&".to_owned();
                s.append(inner.pretty().as_str());
                s
            },
            Ty::Infer { .. } => "_".to_owned(),
            Ty::Bound { idx } => {
                let mut s = "^".to_owned();
                s.append(u64_to_decimal(*idx).as_str());
                s
            },
            Ty::Placeholder { universe, idx } => {
                let mut s = "!".to_owned();
                s.append(u64_to_decimal(*universe).as_str());
                s.append(".");
                s.append(u64_to_decimal(*idx).as_str());
                s
            },
        }
    }
}

impl PrettyPrintExt for Predicate {
    open spec fn pretty_spec(&self) -> Seq<char> {
        spec_pretty_predicate(self@)
    }

    fn pretty(&self) -> (r: String) {
        match &self.kind {
            PredicateKind::Trait(tp) => {
                let mut s = tp.self_ty.pretty();
                s.append(": ");
                s.append(tp.trait_ref.name.as_str());
                s
            },
            PredicateKind::Other { label } => label.clone(),
        }
    }
}

/// Rendering and success tests for probe results.
pub trait PrettyResultExt {
    spec fn pretty_spec(&self) -> Seq<char>;

    spec fn is_yes_spec(&self) -> bool;

    fn pretty(&self) -> (r: String)
        ensures
            r@ == self.pretty_spec(),
    ;

    fn is_yes(&self) -> (r: bool)
        ensures
            r == self.is_yes_spec(),
    ;
}

/// The rendered form of a probe result: exactly one of the four certainty
/// values.
pub open spec fn spec_pretty_result(r: Result<Certainty, NoSolution>) -> Seq<char> {
    match r {
        Ok(Certainty::Yes) => "Yes"@,
        Ok(Certainty::Maybe(MaybeCause::Overflow)) => "No: Overflow"@,
        Ok(Certainty::Maybe(MaybeCause::Ambiguity)) => "No: Ambiguity"@,
        Err(NoSolution) => "No"@,
    }
}

impl PrettyResultExt for Result<Certainty, NoSolution> {
    open spec fn pretty_spec(&self) -> Seq<char> {
        spec_pretty_result(*self)
    }

    open spec fn is_yes_spec(&self) -> bool {
        *self == Ok::<Certainty, NoSolution>(Certainty::Yes)
    }

    fn pretty(&self) -> (r: String) {
        let s: &'static str = match self {
            Ok(Certainty::Yes) => "Yes",
            Ok(Certainty::Maybe(MaybeCause::Overflow)) => "No: Overflow",
            Ok(Certainty::Maybe(MaybeCause::Ambiguity)) => "No: Ambiguity",
            Err(NoSolution) => "No",
        };
        s.to_owned()
    }

    fn is_yes(&self) -> (r: bool) {
        matches!(self, Ok(Certainty::Yes))
    }
}

/// A failing or ambiguous probe result renders differently from a successful
/// one: the rendered text alone tells error leaves apart.
pub proof fn lemma_pretty_result_yes(r: Result<Certainty, NoSolution>)
    ensures
        (spec_pretty_result(r) == "Yes"@) <==> (r == Ok::<Certainty, NoSolution>(Certainty::Yes)),
{
    reveal_strlit("Yes");
    reveal_strlit("No: Overflow");
    reveal_strlit("No: Ambiguity");
    reveal_strlit("No");
    match r {
        Ok(Certainty::Yes) => {},
        Ok(Certainty::Maybe(MaybeCause::Overflow)) => {
            assert(spec_pretty_result(r).len() != "Yes"@.len());
        },
        Ok(Certainty::Maybe(MaybeCause::Ambiguity)) => {
            assert(spec_pretty_result(r).len() != "Yes"@.len());
        },
        Err(NoSolution) => {
            assert(spec_pretty_result(r).len() != "Yes"@.len());
        },
    }
}

// ---------------------------------------------------------------------------
// Candidate labels

/// The textual label the serializer gives a probe kind.
pub open spec fn spec_probe_label(p: crate::proof_tree::ProbeKindV) -> Seq<char> {
    match p {
        crate::proof_tree::ProbeKindV::Root => "root"@,
        crate::proof_tree::ProbeKindV::NormalizedSelfTyAssembly => "normalized-self-ty-asm"@,
        crate::proof_tree::ProbeKindV::UnsizeAssembly => "unsize-asm"@,
        crate::proof_tree::ProbeKindV::CommitIfOk => "commit-if-ok"@,
        crate::proof_tree::ProbeKindV::UpcastProjectionCompatibility => "upcase-proj-compat"@,
        crate::proof_tree::ProbeKindV::Misc { name } => "misc-"@ + name,
        crate::proof_tree::ProbeKindV::TraitCandidate { source } => match source {
            crate::proof_tree::CandidateSourceV::BuiltinImpl => "builtin"@,
            crate::proof_tree::CandidateSourceV::AliasBound => "alias-bound"@,
            crate::proof_tree::CandidateSourceV::ParamEnv { index } => "param-env#"@
                + spec_decimal(index),
            crate::proof_tree::CandidateSourceV::Impl { .. } => "impl"@,
        },
    }
}

/// Whether a probe is worth surfacing by default: only implementation- and
/// builtin-sourced candidates carry structural information.
pub open spec fn spec_is_informative_probe(p: crate::proof_tree::ProbeKindV) -> bool {
    match p {
        crate::proof_tree::ProbeKindV::TraitCandidate { source } => match source {
            crate::proof_tree::CandidateSourceV::Impl { .. } => true,
            crate::proof_tree::CandidateSourceV::BuiltinImpl => true,
            _ => false,
        },
        _ => false,
    }
}

/// Labels and filters for candidate probes.
pub trait CandidateExt {
    spec fn pretty_spec(&self) -> Seq<char>;

    spec fn informative_spec(&self) -> bool;

    fn pretty(&self) -> (r: String)
        ensures
            r@ == self.pretty_spec(),
    ;

    fn is_informative_probe(&self) -> (r: bool)
        ensures
            r == self.informative_spec(),
    ;
}

impl CandidateExt for ProbeKind {
    open spec fn pretty_spec(&self) -> Seq<char> {
        spec_probe_label(self@)
    }

    open spec fn informative_spec(&self) -> bool {
        spec_is_informative_probe(self@)
    }

    fn pretty(&self) -> (r: String) {
        match self {
            ProbeKind::Root => "root".to_owned(),
            ProbeKind::NormalizedSelfTyAssembly => "normalized-self-ty-asm".to_owned(),
            ProbeKind::UnsizeAssembly => "unsize-asm".to_owned(),
            ProbeKind::CommitIfOk => "commit-if-ok".to_owned(),
            ProbeKind::UpcastProjectionCompatibility => "upcase-proj-compat".to_owned(),
            ProbeKind::Misc { name } => {
                let mut s = "misc-".to_owned();
                s.append(name.as_str());
                s
            },
            ProbeKind::TraitCandidate { source } => match source {
                CandidateSource::BuiltinImpl => "builtin".to_owned(),
                CandidateSource::AliasBound => "alias-bound".to_owned(),
                CandidateSource::ParamEnv { index } => {
                    let mut s = "param-env#".to_owned();
                    s.append(u64_to_decimal(*index).as_str());
                    s
                },
                CandidateSource::Impl { .. } => "impl".to_owned(),
            },
        }
    }

    fn is_informative_probe(&self) -> (r: bool) {
        matches!(
            self,
            ProbeKind::TraitCandidate { source: CandidateSource::Impl { .. } }
                | ProbeKind::TraitCandidate { source: CandidateSource::BuiltinImpl },
        )
    }
}

// ---------------------------------------------------------------------------
// Canonical hashing

/// One mixing step of the structural hash.
pub open spec fn spec_mix(h: u64, v: u64) -> u64 {
    vstd::wrapping::u64_specs::wrapping_add(vstd::wrapping::u64_specs::wrapping_mul(h, 31), v)
}

fn mix(h: u64, v: u64) -> (r: u64)
    ensures
        r == spec_mix(h, v),
{
    h.wrapping_mul(31).wrapping_add(v)
}

/// Structural hash of a character sequence.
pub open spec fn spec_hash_chars(s: Seq<char>) -> u64
    decreases s.len(),
{
    if s.len() == 0 {
        7
    } else {
        spec_mix(spec_hash_chars(s.drop_last()), s.last() as u64)
    }
}

fn hash_chars(s: &str) -> (h: u64)
    ensures
        h == spec_hash_chars(s@),
{
    let n = s.unicode_len();
    let mut h: u64 = 7;
    let mut i: usize = 0;
    while i < n
        invariant
            n == s@.len(),
            0 <= i <= n,
            h == spec_hash_chars(s@.take(i as int)),
        decreases n - i,
    {
        let c = s.get_char(i);
        h = mix(h, c as u64);
        proof {
            assert(s@.take(i + 1).drop_last() =~= s@.take(i as int));
            assert(s@.take(i + 1).last() == s@[i as int]);
        }
        i = i + 1;
    }
    proof {
        assert(s@.take(n as int) =~= s@);
    }
    h
}

/// Structural hash of a sequence of binder-variable numbers.
pub open spec fn spec_hash_u64s(s: Seq<u64>) -> u64
    decreases s.len(),
{
    if s.len() == 0 {
        17
    } else {
        spec_mix(spec_hash_u64s(s.drop_last()), s.last())
    }
}

fn hash_u64s(s: &Vec<u64>) -> (h: u64)
    ensures
        h == spec_hash_u64s(s@),
{
    let n = s.len();
    let mut h: u64 = 17;
    let mut i: usize = 0;
    while i < n
        invariant
            n == s@.len(),
            0 <= i <= n,
            h == spec_hash_u64s(s@.take(i as int)),
        decreases n - i,
    {
        h = mix(h, s[i]);
        proof {
            assert(s@.take(i + 1).drop_last() =~= s@.take(i as int));
            assert(s@.take(i + 1).last() == s@[i as int]);
        }
        i = i + 1;
    }
    proof {
        assert(s@.take(n as int) =~= s@);
    }
    h
}

/// Structural hash of a region annotation.
pub open spec fn spec_hash_region(r: Region) -> u64 {
    match r {
        Region::Static => 1,
        Region::Named(x) => spec_mix(2, x),
        Region::Erased => 3,
    }
}

/// Structural hash of a type term.
pub open spec fn spec_hash_ty(t: TyV) -> u64
    decreases t,
{
    match t {
        TyV::Unit => 5,
        TyV::Concrete { def_id, name, sized } => spec_mix(
            spec_mix(spec_mix(6, def_id), spec_hash_chars(name)),
            if sized {
                1
            } else {
                0
            },
        ),
        TyV::Ref { region, inner } => spec_mix(8, spec_mix(spec_hash_region(region), spec_hash_ty(*inner))),
        TyV::Infer { var } => spec_mix(9, var),
        TyV::Bound { idx } => spec_mix(10, idx),
        TyV::Placeholder { universe, idx } => spec_mix(11, spec_mix(universe, idx)),
    }
}

/// Structural hash of an interface reference.
pub open spec fn spec_hash_trait_ref(t: TraitRefV) -> u64 {
    spec_mix(t.def_id, spec_hash_chars(t.name))
}

/// Structural hash of a whole constraint.
pub open spec fn spec_hash_pred(p: PredicateV) -> u64 {
    spec_mix(
        spec_mix(12, spec_hash_u64s(p.bound_vars)),
        match p.kind {
            PredicateKindV::Trait(tp) => spec_mix(
                13,
                spec_mix(
                    spec_hash_ty(tp.self_ty),
                    spec_mix(
                        spec_hash_trait_ref(tp.trait_ref),
                        if tp.blanket {
                            1
                        } else {
                            0
                        },
                    ),
                ),
            ),
            PredicateKindV::Other { label } => spec_mix(14, spec_hash_chars(label)),
        },
    )
}

fn hash_ty(t: &Ty) -> (h: u64)
    ensures
        h == spec_hash_ty(t@),
    decreases *t,
{
    match t {
        Ty::Unit => 5,
        Ty::Concrete { def_id, name, sized } => mix(
            mix(mix(6, *def_id), hash_chars(name.as_str())),
            if *sized {
                1
            } else {
                0
            },
        ),
        Ty::Ref { region, inner } => {
            let rh = match region {
                Region::Static => 1,
                Region::Named(x) => mix(2, *x),
                Region::Erased => 3,
            };
            mix(8, mix(rh, hash_ty(inner)))
        },
        Ty::Infer { var } => mix(9, *var),
        Ty::Bound { idx } => mix(10, *idx),
        Ty::Placeholder { universe, idx } => mix(11, mix(*universe, *idx)),
    }
}

fn hash_pred(p: &Predicate) -> (h: u64)
    ensures
        h == spec_hash_pred(p@),
{
    let kh = match &p.kind {
        PredicateKind::Trait(tp) => mix(
            13,
            mix(
                hash_ty(&tp.self_ty),
                mix(
                    mix(tp.trait_ref.def_id, hash_chars(tp.trait_ref.name.as_str())),
                    if tp.blanket {
                        1
                    } else {
                        0
                    },
                ),
            ),
        ),
        PredicateKind::Other { label } => mix(14, hash_chars(label.as_str())),
    };
    mix(mix(12, hash_u64s(&p.bound_vars)), kh)
}

// ---------------------------------------------------------------------------
// The canonicalizing fold

/// Region/lifetime detail erased from a type term, recursively.
pub open spec fn spec_erase_regions_ty(t: TyV) -> TyV
    decreases t,
{
    match t {
        TyV::Ref { region: _, inner } => TyV::Ref {
            region: Region::Erased,
            inner: Box::new(spec_erase_regions_ty(*inner)),
        },
        _ => t,
    }
}

/// Unresolved inference variables replaced by the one canonical anonymous
/// placeholder, bound to the innermost universe.
pub open spec fn spec_erase_vars_ty(t: TyV, universe: u64) -> TyV
    decreases t,
{
    match t {
        TyV::Infer { .. } => TyV::Placeholder { universe, idx: u64::MAX },
        TyV::Ref { region, inner } => TyV::Ref {
            region,
            inner: Box::new(spec_erase_vars_ty(*inner, universe)),
        },
        _ => t,
    }
}

/// Binder numbering replaced by canonical positions.
pub open spec fn spec_anonymize_binder(vars: Seq<u64>) -> Seq<u64> {
    Seq::new(vars.len(), |i: int| i as u64)
}

/// The canonical form of a constraint: binder anonymized, regions erased,
/// inference variables replaced by the canonical placeholder.
pub open spec fn spec_canonical_pred(p: PredicateV, universe: u64) -> PredicateV {
    PredicateV {
        bound_vars: spec_anonymize_binder(p.bound_vars),
        kind: match p.kind {
            PredicateKindV::Trait(tp) => PredicateKindV::Trait(
                crate::ty::TraitPredicateV {
                    self_ty: spec_erase_vars_ty(spec_erase_regions_ty(tp.self_ty), universe),
                    trait_ref: tp.trait_ref,
                    blanket: tp.blanket,
                },
            ),
            PredicateKindV::Other { label } => PredicateKindV::Other { label },
        },
    }
}

/// The canonical hash of a constraint: the structural hash of its canonical
/// form.
pub open spec fn spec_stable_hash(p: PredicateV, universe: u64) -> u64 {
    spec_hash_pred(spec_canonical_pred(p, universe))
}

fn erase_regions_ty(t: &Ty) -> (r: Ty)
    ensures
        r@ == spec_erase_regions_ty(t@),
    decreases *t,
{
    match t {
        Ty::Ref { region: _, inner } => Ty::Ref {
            region: Region::Erased,
            inner: Box::new(erase_regions_ty(inner)),
        },
        _ => t.duplicate(),
    }
}

/// The folder that replaces every unresolved inference variable by one
/// canonical anonymous placeholder before hashing, and anonymizes binders.
pub struct TyVarEraserVisitor<'a> {
    pub infcx: &'a InferCtxt,
}

impl<'a> TyVarEraserVisitor<'a> {
    /// The canonical anonymous placeholder, bound to the innermost universe.
    fn ty_placeholder(&self) -> (r: Ty)
        ensures
            r@ == (TyV::Placeholder { universe: self.infcx.universe, idx: u64::MAX }),
    {
        Ty::Placeholder { universe: self.infcx.universe, idx: u64::MAX }
    }

    /// Replaces inference variables, recursing through the rest.
    fn fold_ty(&self, t: &Ty) -> (r: Ty)
        ensures
            r@ == spec_erase_vars_ty(t@, self.infcx.universe),
        decreases *t,
    {
        match t {
            Ty::Infer { .. } => self.ty_placeholder(),
            Ty::Ref { region, inner } => Ty::Ref {
                region: *region,
                inner: Box::new(self.fold_ty(inner)),
            },
            _ => t.duplicate(),
        }
    }

    /// Anonymizes a binder's variable numbering.
    fn fold_binder(&self, vars: &Vec<u64>) -> (r: Vec<u64>)
        ensures
            r@ == spec_anonymize_binder(vars@),
    {
        let n = vars.len();
        let mut out: Vec<u64> = Vec::new();
        let mut i: usize = 0;
        while i < n
            invariant
                n == vars@.len(),
                n <= u64::MAX,
                0 <= i <= n,
                out@ =~= spec_anonymize_binder(vars@).take(i as int),
            decreases n - i,
        {
            out.push(i as u64);
            i = i + 1;
        }
        proof {
            assert(out@ =~= spec_anonymize_binder(vars@));
        }
        out
    }

    /// The canonical form of a constraint.
    fn fold_predicate(&self, p: &Predicate) -> (r: Predicate)
        ensures
            r@ == spec_canonical_pred(p@, self.infcx.universe),
    {
        let kind = match &p.kind {
            PredicateKind::Trait(tp) => PredicateKind::Trait(
                crate::ty::TraitPredicate {
                    self_ty: self.fold_ty(&erase_regions_ty(&tp.self_ty)),
                    trait_ref: tp.trait_ref.duplicate(),
                    blanket: tp.blanket,
                },
            ),
            PredicateKind::Other { label } => PredicateKind::Other { label: label.clone() },
        };
        Predicate { bound_vars: self.fold_binder(&p.bound_vars), kind }
    }
}

/// Canonical hashing of a recorded failure: the hash of its root
/// constraint, so semantically equivalent failures deduplicate across
/// calls.
pub trait FulfillmentErrorExt {
    spec fn stable_hash_spec(&self, infcx: &InferCtxt) -> Hash64;

    fn stable_hash(&self, infcx: &InferCtxt) -> (r: Hash64)
        ensures
            r == self.stable_hash_spec(infcx),
    ;
}

/// Canonical hashing: stable across constraints that differ only in
/// lifetime detail, unresolved-variable identity or binder numbering.
pub trait StableHash {
    spec fn stable_hash_spec(&self, infcx: &InferCtxt) -> Hash64;

    fn stable_hash(&self, infcx: &InferCtxt) -> (r: Hash64)
        ensures
            r == self.stable_hash_spec(infcx),
    ;
}

impl StableHash for Predicate {
    open spec fn stable_hash_spec(&self, infcx: &InferCtxt) -> Hash64 {
        spec_stable_hash(self@, infcx.universe)
    }

    fn stable_hash(&self, infcx: &InferCtxt) -> (r: Hash64) {
        let eraser = TyVarEraserVisitor { infcx };
        let canonical = eraser.fold_predicate(self);
        hash_pred(&canonical)
    }
}

// ---------------------------------------------------------------------------
// Hash stability

/// Two type terms that are identical except for region annotations and the
/// identity of unresolved inference variables.
pub open spec fn similar_ty(a: TyV, b: TyV) -> bool
    decreases a,
{
    match (a, b) {
        (TyV::Unit, TyV::Unit) => true,
        (
            TyV::Concrete { def_id: d1, name: n1, sized: s1 },
            TyV::Concrete { def_id: d2, name: n2, sized: s2 },
        ) => d1 == d2 && n1 == n2 && s1 == s2,
        (TyV::Ref { region: _, inner: i1 }, TyV::Ref { region: _, inner: i2 }) => similar_ty(
            *i1,
            *i2,
        ),
        (TyV::Infer { .. }, TyV::Infer { .. }) => true,
        (TyV::Bound { idx: x1 }, TyV::Bound { idx: x2 }) => x1 == x2,
        (
            TyV::Placeholder { universe: u1, idx: x1 },
            TyV::Placeholder { universe: u2, idx: x2 },
        ) => u1 == u2 && x1 == x2,
        _ => false,
    }
}

/// Two constraints that are identical except for region annotations, the
/// identity of unresolved inference variables, and the numbering of their
/// binder variables.
pub open spec fn similar_pred(a: PredicateV, b: PredicateV) -> bool {
    &&& a.bound_vars.len() == b.bound_vars.len()
    &&& match (a.kind, b.kind) {
        (PredicateKindV::Trait(t1), PredicateKindV::Trait(t2)) => {
            &&& similar_ty(t1.self_ty, t2.self_ty)
            &&& t1.trait_ref == t2.trait_ref
            &&& t1.blanket == t2.blanket
        },
        (PredicateKindV::Other { label: l1 }, PredicateKindV::Other { label: l2 }) => l1 == l2,
        _ => false,
    }
}

proof fn lemma_similar_canonical_ty(a: TyV, b: TyV, universe: u64)
    requires
        similar_ty(a, b),
    ensures
        spec_erase_vars_ty(spec_erase_regions_ty(a), universe) == spec_erase_vars_ty(
            spec_erase_regions_ty(b),
            universe,
        ),
    decreases a,
{
    match (a, b) {
        (TyV::Ref { region: _, inner: i1 }, TyV::Ref { region: _, inner: i2 }) => {
            lemma_similar_canonical_ty(*i1, *i2, universe);
        },
        _ => {},
    }
}

/// Hash stability: constraints that are identical except for the identity of
/// unresolved variables, region annotations and binder numbering have the
/// same canonical hash.
pub proof fn lemma_hash_stability(p: PredicateV, q: PredicateV, universe: u64)
    requires
        similar_pred(p, q),
    ensures
        spec_stable_hash(p, universe) == spec_stable_hash(q, universe),
{
    match (p.kind, q.kind) {
        (PredicateKindV::Trait(t1), PredicateKindV::Trait(t2)) => {
            lemma_similar_canonical_ty(t1.self_ty, t2.self_ty, universe);
        },
        _ => {},
    }
    assert(spec_anonymize_binder(p.bound_vars) =~= spec_anonymize_binder(q.bound_vars));
    assert(spec_canonical_pred(p, universe) == spec_canonical_pred(q, universe));
}

// ---------------------------------------------------------------------------
// Namespaces

/// Guesses the namespace a definition's name lives in, from the last
/// component of its definition path; definitions the table does not cover
/// default to the type namespace.
pub fn guess_def_namespace(tcx: &TyCtxt, def_id: crate::ty::DefId) -> (r: Namespace)
    ensures
        r == spec_def_namespace(tcx, def_id),
{
    if def_id < tcx.def_keys.len() as u64 {
        match tcx.def_keys[def_id as usize] {
            DefPathData::TypeNs | DefPathData::CrateRoot | DefPathData::ImplTrait => {
                Namespace::TypeNS
            },
            DefPathData::ValueNs | DefPathData::AnonConst | DefPathData::ClosureExpr
                | DefPathData::Ctor => Namespace::ValueNS,
            DefPathData::MacroNs => Namespace::MacroNS,
            _ => Namespace::TypeNS,
        }
    } else {
        Namespace::TypeNS
    }
}

/// The namespace guess, as a function of the definition table.
pub open spec fn spec_def_namespace(tcx: &TyCtxt, def_id: crate::ty::DefId) -> Namespace {
    if def_id < tcx.def_keys@.len() {
        match tcx.def_keys@[def_id as int] {
            DefPathData::TypeNs | DefPathData::CrateRoot | DefPathData::ImplTrait => {
                Namespace::TypeNS
            },
            DefPathData::ValueNs | DefPathData::AnonConst | DefPathData::ClosureExpr
                | DefPathData::Ctor => Namespace::ValueNS,
            DefPathData::MacroNs => Namespace::MacroNS,
            _ => Namespace::TypeNS,
        }
    } else {
        Namespace::TypeNS
    }
}

} // verus!
