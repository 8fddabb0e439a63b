//! Extraction of failed obligations from one checked body, and the entry
//! point that re-drives one failing goal into a serialized proof tree.
//!
//! The external type-checker materializes everything the engine reads — the
//! recorded fulfillment errors, the outcome of its own cause-adjustment
//! heuristic, and the search events of each root goal — before the engine
//! runs; the models in this module hold those values as plain data.

use crate::proof_tree::ext::{
    spec_decimal, spec_is_necessary, spec_pretty_predicate, spec_stable_hash, u64_to_decimal,
    FulfillmentErrorExt, Hash64, PredicateExt, PrettyPrintExt, StableHash,
};
use crate::proof_tree::serialize::{
    serialize_proof_tree, spec_valid_tree, spec_well_nested,
};
use crate::proof_tree::{Event, EventV, Obligation, ObligationKind, ObligationV, SerializedTree};
use crate::ty::{CharRange, InferCtxt, Predicate, PredicateV, TyCtxt};
use vstd::prelude::*;

verus! {

/// The selector naming which failed goal a tree is requested for: its
/// rendered textual form.
pub struct Target {
    pub data: String,
}

/// Why an analysis request failed outright.
#[derive(Clone, Copy, Debug, PartialEq, Eq, Structural)]
pub enum AnalysisError {
    /// The type-checker never invoked its inspection hook for the requested
    /// body: a driver integration bug, not a property of the program under
    /// analysis.
    InspectNeverCalled,
}

/// The source attribution of one obligation.
#[derive(Clone, Copy, Debug, PartialEq, Eq, Structural)]
pub struct ObligationCause {
    pub span: CharRange,
}

/// One failed constraint as the solver records it.
pub struct FulfillmentError {
    /// The constraint that failed.
    pub predicate: Predicate,
    /// Where the failure is currently attributed.
    pub cause: ObligationCause,
    /// The root constraint the failed one descends from.
    pub root_predicate: Predicate,
    /// Where the solver's own heuristic would re-attribute the failure, if
    /// it would change anything.
    pub adjusted_cause: Option<ObligationCause>,
    /// The solver's recorded search events for the root goal.
    pub search: Vec<Event>,
}

/// Model of [`FulfillmentError`].
#[verifier::ext_equal]
pub struct FulfillmentErrorV {
    pub predicate: PredicateV,
    pub cause: CharRange,
    pub root_predicate: PredicateV,
    pub adjusted_cause: Option<CharRange>,
    pub search: Seq<EventV>,
}

impl View for FulfillmentError {
    type V = FulfillmentErrorV;

    open spec fn view(&self) -> FulfillmentErrorV {
        FulfillmentErrorV {
            predicate: self.predicate@,
            cause: self.cause.span,
            root_predicate: self.root_predicate@,
            adjusted_cause: match self.adjusted_cause {
                Some(c) => Some(c.span),
                None => None,
            },
            search: self.search@.map_values(|e: Event| e@),
        }
    }
}

impl FulfillmentError {
    /// A structurally identical copy of this record.
    pub fn duplicate(&self) -> (r: FulfillmentError)
        ensures
            r@ == self@,
    {
        let n = self.search.len();
        let mut search: Vec<Event> = Vec::new();
        let mut i: usize = 0;
        while i < n
            invariant
                n == self.search@.len(),
                0 <= i <= n,
                search@.len() == i,
                forall|j: int| 0 <= j < i ==> (#[trigger] search@[j])@ == self.search@[j]@,
            decreases n - i,
        {
            search.push(self.search[i].duplicate());
            i = i + 1;
        }
        let r = FulfillmentError {
            predicate: self.predicate.duplicate(),
            cause: self.cause,
            root_predicate: self.root_predicate.duplicate(),
            adjusted_cause: self.adjusted_cause,
            search,
        };
        proof {
            assert(r.search@.map_values(|e: Event| e@) =~= self.search@.map_values(
                |e: Event| e@,
            ));
            assert(r@ =~= self@);
        }
        r
    }
}

impl FulfillmentErrorExt for FulfillmentError {
    open spec fn stable_hash_spec(&self, infcx: &InferCtxt) -> Hash64 {
        spec_stable_hash(self@.root_predicate, infcx.universe)
    }

    fn stable_hash(&self, infcx: &InferCtxt) -> (r: Hash64) {
        self.root_predicate.stable_hash(infcx)
    }
}

/// One obligation as the solver saw it fulfilled: either satisfied, or
/// failed with a full error record.
pub enum FulfilledObligation {
    Success { predicate: Predicate },
    Failure { error: FulfillmentError },
}

/// The model of the type-checking context of one body, as the inspection
/// hook exposes it.
pub struct FnCtxt {
    /// The inference context, if type-checking produced one.
    pub infcx: Option<InferCtxt>,
    /// The fulfillment errors the checker recorded directly.
    pub fulfillment_errors: Vec<FulfillmentError>,
    /// Every obligation the checker saw fulfilled, successful or not.
    pub fulfilled_obligations: Vec<FulfilledObligation>,
}

/// One checked body: `inspect` is `None` exactly when the type-checker
/// never invoked its inspection hook for it.
pub struct Body {
    pub inspect: Option<FnCtxt>,
}

// ---------------------------------------------------------------------------
// Collection

/// The errors recovered from the fulfilled-obligation log: the failures
/// whose root constraint is diagnostically necessary.
pub open spec fn spec_fallback_errors(
    s: Seq<FulfilledObligation>,
    sized_def_id: u64,
) -> Seq<FulfillmentErrorV>
    decreases s.len(),
{
    if s.len() == 0 {
        Seq::empty()
    } else {
        let rest = spec_fallback_errors(s.drop_last(), sized_def_id);
        match s.last() {
            FulfilledObligation::Failure { error } => {
                if spec_is_necessary(error@.root_predicate, sized_def_id) {
                    rest.push(error@)
                } else {
                    rest
                }
            },
            _ => rest,
        }
    }
}

/// What `get_fulfillment_errors` collects: the directly recorded errors if
/// there are any, otherwise the necessary failures of the fulfillment log.
pub open spec fn spec_collected_errors(fncx: FnCtxt, sized_def_id: u64) -> Seq<
    FulfillmentErrorV,
> {
    if fncx.fulfillment_errors@.len() > 0 {
        fncx.fulfillment_errors@.map_values(|e: FulfillmentError| e@)
    } else if fncx.infcx is Some {
        spec_fallback_errors(fncx.fulfilled_obligations@, sized_def_id)
    } else {
        Seq::empty()
    }
}

impl FnCtxt {
    /// The failed constraints of this body: the directly recorded errors,
    /// or — when there are none — the failures found in the
    /// fulfilled-obligation log whose root constraint is necessary.
    pub fn get_fulfillment_errors(&self, tcx: &TyCtxt) -> (r: Vec<FulfillmentError>)
        ensures
            r@.map_values(|e: FulfillmentError| e@) == spec_collected_errors(
                *self,
                tcx.sized_def_id,
            ),
    {
        let n = self.fulfillment_errors.len();
        let mut result: Vec<FulfillmentError> = Vec::new();
        let mut i: usize = 0;
        while i < n
            invariant
                n == self.fulfillment_errors@.len(),
                0 <= i <= n,
                result@.len() == i,
                forall|j: int|
                    0 <= j < i ==> (#[trigger] result@[j])@ == self.fulfillment_errors@[j]@,
            decreases n - i,
        {
            result.push(self.fulfillment_errors[i].duplicate());
            i = i + 1;
        }
        if !result.is_empty() {
            proof {
                assert(result@.map_values(|e: FulfillmentError| e@)
                    =~= self.fulfillment_errors@.map_values(|e: FulfillmentError| e@));
            }
            return result;
        }
        let mut result: Vec<FulfillmentError> = Vec::new();
        if self.infcx.is_some() {
            let m = self.fulfilled_obligations.len();
            let mut k: usize = 0;
            while k < m
                invariant
                    m == self.fulfilled_obligations@.len(),
                    0 <= k <= m,
                    result@.map_values(|e: FulfillmentError| e@) =~= spec_fallback_errors(
                        self.fulfilled_obligations@.take(k as int),
                        tcx.sized_def_id,
                    ),
                decreases m - k,
            {
                match &self.fulfilled_obligations[k] {
                    FulfilledObligation::Failure { error } => {
                        if error.root_predicate.is_necessary(tcx) {
                            result.push(error.duplicate());
                        }
                    },
                    _ => {},
                }
                proof {
                    assert(self.fulfilled_obligations@.take(k + 1).drop_last()
                        =~= self.fulfilled_obligations@.take(k as int));
                    assert(self.fulfilled_obligations@.take(k + 1).last()
                        == self.fulfilled_obligations@[k as int]);
                    assert(result@.map_values(|e: FulfillmentError| e@) =~= spec_fallback_errors(
                        self.fulfilled_obligations@.take(k + 1),
                        tcx.sized_def_id,
                    ));
                }
                k = k + 1;
            }
            proof {
                assert(self.fulfilled_obligations@.take(m as int)
                    =~= self.fulfilled_obligations@);
            }
        }
        result
    }
}

// ---------------------------------------------------------------------------
// Cause adjustment and remapping

/// The re-attribution triples recorded while applying the solver's
/// adjustment heuristic: (original attribution, constraint, new
/// attribution), in error order.
pub open spec fn spec_remap_triples(s: Seq<FulfillmentErrorV>) -> Seq<
    (CharRange, PredicateV, CharRange),
>
    decreases s.len(),
{
    if s.len() == 0 {
        Seq::empty()
    } else {
        let rest = spec_remap_triples(s.drop_last());
        match s.last().adjusted_cause {
            Some(c) => rest.push((s.last().cause, s.last().predicate, c)),
            None => rest,
        }
    }
}

/// Scans the triples in order; every triple whose constraint matches and
/// whose original attribution encloses the current one re-attributes the
/// failure, so the last applicable triple wins.
pub open spec fn spec_remap_fold(
    ts: Seq<(CharRange, PredicateV, CharRange)>,
    pred: PredicateV,
    cause: CharRange,
) -> CharRange
    decreases ts.len(),
{
    if ts.len() == 0 {
        cause
    } else {
        let first = ts[0];
        let c1 = if first.1 == pred && first.0.spec_contains(cause) {
            first.2
        } else {
            cause
        };
        spec_remap_fold(ts.drop_first(), pred, c1)
    }
}

/// The final attribution of one error after adjustment and remapping: an
/// adjusted error adopts the heuristic's attribution; an unadjusted one is
/// remapped through the recorded triples.
pub open spec fn spec_adjusted_error(
    s: Seq<FulfillmentErrorV>,
    e: FulfillmentErrorV,
) -> FulfillmentErrorV {
    match e.adjusted_cause {
        Some(c) => FulfillmentErrorV { cause: c, ..e },
        None => FulfillmentErrorV {
            cause: spec_remap_fold(spec_remap_triples(s), e.predicate, e.cause),
            ..e
        },
    }
}

/// All errors after adjustment and remapping, in their original order.
pub open spec fn spec_adjust_all(s: Seq<FulfillmentErrorV>) -> Seq<FulfillmentErrorV> {
    Seq::new(s.len(), |i: int| spec_adjusted_error(s, s[i]))
}

/// Applies the solver's cause-adjustment outcome to every error, then
/// remaps each unadjusted error through the recorded (original, constraint,
/// new) triples, so near-duplicate failures pointing into one
/// sub-expression share one cause.
pub fn adjust_fulfillment_errors_for_expr_obligation(errors: &mut Vec<FulfillmentError>)
    ensures
        final(errors)@.len() == old(errors)@.len(),
        final(errors)@.map_values(|e: FulfillmentError| e@) == spec_adjust_all(
            old(errors)@.map_values(|e: FulfillmentError| e@),
        ),
{
    let ghost orig = errors@.map_values(|e: FulfillmentError| e@);
    let n = errors.len();
    let mut remap_cause: Vec<(CharRange, Predicate, ObligationCause)> = Vec::new();
    let mut i: usize = 0;
    while i < n
        invariant
            n == errors@.len(),
            n == orig.len(),
            orig == old(errors)@.map_values(|e: FulfillmentError| e@),
            0 <= i <= n,
            forall|k: int|
                0 <= k < n ==> (#[trigger] errors@[k]@) == if k < i && orig[k].adjusted_cause
                    is Some {
                    FulfillmentErrorV { cause: orig[k].adjusted_cause->0, ..orig[k] }
                } else {
                    orig[k]
                },
            remap_cause@.map_values(
                |t: (CharRange, Predicate, ObligationCause)| (t.0, t.1@, t.2.span),
            ) =~= spec_remap_triples(orig.take(i as int)),
        decreases n - i,
    {
        let maybe = errors[i].adjusted_cause;
        if let Some(nc) = maybe {
            let before = errors[i].cause;
            let pred = errors[i].predicate.duplicate();
            remap_cause.push((before.span, pred, nc));
            let mut updated = errors[i].duplicate();
            updated.cause = nc;
            errors[i] = updated;
            proof {
                assert(errors@[i as int]@.cause == orig[i as int].adjusted_cause->0);
                assert(errors@[i as int]@.predicate == orig[i as int].predicate);
                assert(errors@[i as int]@.root_predicate == orig[i as int].root_predicate);
                assert(errors@[i as int]@.adjusted_cause == orig[i as int].adjusted_cause);
                assert(errors@[i as int]@.search =~= orig[i as int].search);
                assert(errors@[i as int]@ =~= FulfillmentErrorV {
                    cause: orig[i as int].adjusted_cause->0,
                    ..orig[i as int]
                });
            }
        }
        proof {
            assert(orig.take(i + 1).drop_last() =~= orig.take(i as int));
            assert(orig.take(i + 1).last() == orig[i as int]);
            assert(remap_cause@.map_values(
                |t: (CharRange, Predicate, ObligationCause)| (t.0, t.1@, t.2.span),
            ) =~= spec_remap_triples(orig.take(i + 1)));
        }
        i = i + 1;
    }
    proof {
        assert(orig.take(n as int) =~= orig);
    }
    let ghost triples = spec_remap_triples(orig);
    let tn = remap_cause.len();
    let mut idx: usize = 0;
    while idx < n
        invariant
            n == errors@.len(),
            n == orig.len(),
            orig == old(errors)@.map_values(|e: FulfillmentError| e@),
            0 <= idx <= n,
            tn == remap_cause@.len(),
            triples == spec_remap_triples(orig),
            remap_cause@.map_values(
                |t: (CharRange, Predicate, ObligationCause)| (t.0, t.1@, t.2.span),
            ) =~= triples,
            forall|k: int|
                0 <= k < idx ==> (#[trigger] errors@[k]@) == spec_adjusted_error(orig, orig[k]),
            forall|k: int|
                idx <= k < n ==> (#[trigger] errors@[k]@) == if orig[k].adjusted_cause is Some {
                    FulfillmentErrorV { cause: orig[k].adjusted_cause->0, ..orig[k] }
                } else {
                    orig[k]
                },
        decreases n - idx,
    {
        proof {
            if orig[idx as int].adjusted_cause is None {
                assert(errors@[idx as int]@ =~= FulfillmentErrorV {
                    cause: errors@[idx as int]@.cause,
                    ..orig[idx as int]
                });
            }
        }
        if errors[idx].adjusted_cause.is_none() {
            proof {
                assert(triples.skip(0) =~= triples);
            }
            let mut jt: usize = 0;
            while jt < tn
                invariant
                    n == errors@.len(),
                    n == orig.len(),
                    0 <= idx < n,
                    0 <= jt <= tn,
                    tn == remap_cause@.len(),
                    triples == spec_remap_triples(orig),
                    tn == triples.len(),
                    remap_cause@.map_values(
                        |t: (CharRange, Predicate, ObligationCause)| (t.0, t.1@, t.2.span),
                    ) =~= triples,
                    orig[idx as int].adjusted_cause is None,
                    forall|k: int|
                        0 <= k < n && k != idx ==> (#[trigger] errors@[k]@) == if k < idx {
                            spec_adjusted_error(orig, orig[k])
                        } else if orig[k].adjusted_cause is Some {
                            FulfillmentErrorV { cause: orig[k].adjusted_cause->0, ..orig[k] }
                        } else {
                            orig[k]
                        },
                    errors@[idx as int]@ == (FulfillmentErrorV {
                        cause: errors@[idx as int]@.cause,
                        ..orig[idx as int]
                    }),
                    spec_remap_fold(triples, orig[idx as int].predicate, orig[idx as int].cause)
                        == spec_remap_fold(
                        triples.skip(jt as int),
                        orig[idx as int].predicate,
                        errors@[idx as int]@.cause,
                    ),
                decreases tn - jt,
            {
                let matches_triple = remap_cause[jt].1.pred_eq(&errors[idx].predicate)
                    && remap_cause[jt].0.contains(&errors[idx].cause.span);
                proof {
                    assert(triples[jt as int] == (
                        remap_cause@[jt as int].0,
                        remap_cause@[jt as int].1@,
                        remap_cause@[jt as int].2.span,
                    ));
                    assert(triples.skip(jt as int)[0] == triples[jt as int]);
                    assert(triples.skip(jt as int).drop_first() =~= triples.skip(jt + 1));
                }
                if matches_triple {
                    let nc = remap_cause[jt].2;
                    let mut updated = errors[idx].duplicate();
                    updated.cause = nc;
                    errors[idx] = updated;
                    proof {
                        assert(errors@[idx as int]@.cause == nc.span);
                        assert(errors@[idx as int]@ =~= FulfillmentErrorV {
                            cause: nc.span,
                            ..orig[idx as int]
                        });
                    }
                }
                jt = jt + 1;
            }
            proof {
                assert(triples.skip(tn as int) =~= Seq::<
                    (CharRange, PredicateV, CharRange),
                >::empty());
                assert(errors@[idx as int]@ =~= spec_adjusted_error(orig, orig[idx as int]));
            }
        } else {
            proof {
                assert(errors@[idx as int]@ =~= spec_adjusted_error(orig, orig[idx as int]));
            }
        }
        idx = idx + 1;
    }
    proof {
        assert(errors@.map_values(|e: FulfillmentError| e@) =~= spec_adjust_all(orig));
    }
}

// ---------------------------------------------------------------------------
// Reporting

/// The obligations reported for a list of adjusted errors: one `Failure`
/// record per error whose root constraint is necessary, carrying the
/// constraint, its canonical hash in decimal, and its final attribution.
pub open spec fn spec_reported(
    s: Seq<FulfillmentErrorV>,
    sized_def_id: u64,
    universe: u64,
) -> Seq<ObligationV>
    decreases s.len(),
{
    if s.len() == 0 {
        Seq::empty()
    } else {
        let rest = spec_reported(s.drop_last(), sized_def_id, universe);
        let e = s.last();
        if spec_is_necessary(e.root_predicate, sized_def_id) {
            rest.push(
                ObligationV {
                    data: e.root_predicate,
                    hash: spec_decimal(spec_stable_hash(e.root_predicate, universe)),
                    range: e.cause,
                    kind: ObligationKind::Failure,
                },
            )
        } else {
            rest
        }
    }
}

/// Every reported obligation carries a necessary constraint: trivial noise
/// — blanket-satisfied unit constraints, unknown subjects, redundant
/// sizedness — never reaches the report.
pub proof fn lemma_reported_necessary(
    s: Seq<FulfillmentErrorV>,
    sized_def_id: u64,
    universe: u64,
    k: int,
)
    requires
        0 <= k < spec_reported(s, sized_def_id, universe).len(),
    ensures
        spec_is_necessary(spec_reported(s, sized_def_id, universe)[k].data, sized_def_id),
        spec_reported(s, sized_def_id, universe)[k].kind == ObligationKind::Failure,
    decreases s.len(),
{
    if s.len() > 0 {
        let rest = spec_reported(s.drop_last(), sized_def_id, universe);
        if k < rest.len() {
            lemma_reported_necessary(s.drop_last(), sized_def_id, universe, k);
        }
    }
}

impl FnCtxt {
    /// Converts the surviving errors into reportable obligations: failures
    /// whose root constraint is necessary, each with its source range and
    /// canonical hash.
    pub fn report_fulfillment_errors(&self, tcx: &TyCtxt, errors: Vec<FulfillmentError>) -> (r:
        Vec<Obligation>)
        requires
            self.infcx is Some,
        ensures
            r@.map_values(|o: Obligation| o@) == spec_reported(
                errors@.map_values(|e: FulfillmentError| e@),
                tcx.sized_def_id,
                self.infcx->0.universe,
            ),
    {
        match &self.infcx {
            Some(infcx) => {
                let ghost evs = errors@.map_values(|e: FulfillmentError| e@);
                let n = errors.len();
                let mut result: Vec<Obligation> = Vec::new();
                if errors.is_empty() {
                    proof {
                        assert(result@.map_values(|o: Obligation| o@) =~= spec_reported(
                            evs,
                            tcx.sized_def_id,
                            infcx.universe,
                        ));
                    }
                    return result;
                }
                let mut i: usize = 0;
                while i < n
                    invariant
                        n == errors@.len(),
                        n == evs.len(),
                        evs == errors@.map_values(|e: FulfillmentError| e@),
                        0 <= i <= n,
                        self.infcx == Some(*infcx),
                        result@.map_values(|o: Obligation| o@) =~= spec_reported(
                            evs.take(i as int),
                            tcx.sized_def_id,
                            infcx.universe,
                        ),
                    decreases n - i,
                {
                    let error = &errors[i];
                    if error.root_predicate.is_necessary(tcx) {
                        let hash_value = error.stable_hash(infcx);
                        result.push(
                            Obligation {
                                data: error.root_predicate.duplicate(),
                                hash: u64_to_decimal(hash_value),
                                range: error.cause.span,
                                kind: ObligationKind::Failure,
                            },
                        );
                    }
                    proof {
                        assert(evs.take(i + 1).drop_last() =~= evs.take(i as int));
                        assert(evs.take(i + 1).last() == evs[i as int]);
                        assert(result@.map_values(|o: Obligation| o@) =~= spec_reported(
                            evs.take(i + 1),
                            tcx.sized_def_id,
                            infcx.universe,
                        ));
                    }
                    i = i + 1;
                }
                proof {
                    assert(evs.take(n as int) =~= evs);
                }
                result
            },
            None => Vec::new(),
        }
    }
}

// ---------------------------------------------------------------------------
// Entry points

/// What one extraction request reports for a checked body.
pub open spec fn spec_obligations(tcx: &TyCtxt, body: &Body) -> Seq<ObligationV> {
    let fncx = body.inspect->0;
    spec_reported(
        spec_adjust_all(spec_collected_errors(fncx, tcx.sized_def_id)),
        tcx.sized_def_id,
        fncx.infcx->0.universe,
    )
}

/// Extracts the ordered list of failed obligations of one checked body:
/// collects the recorded failures, applies cause adjustment and remapping,
/// filters out unnecessary constraints, and converts the survivors.
///
/// Fails — rather than reporting an empty result — exactly when the
/// type-checker never invoked its inspection hook, or produced no inference
/// context, for this body.
pub fn obligations(tcx: &TyCtxt, body: &Body) -> (r: Result<Vec<Obligation>, AnalysisError>)
    ensures
        r is Err <==> (body.inspect is None || body.inspect->0.infcx is None),
        r is Err ==> r->Err_0 == AnalysisError::InspectNeverCalled,
        r matches Ok(obls) ==> obls@.map_values(|o: Obligation| o@) == spec_obligations(
            tcx,
            body,
        ),
{
    match &body.inspect {
        None => Err(AnalysisError::InspectNeverCalled),
        Some(fncx) => {
            if fncx.infcx.is_none() {
                return Err(AnalysisError::InspectNeverCalled);
            }
            let mut errors = fncx.get_fulfillment_errors(tcx);
            adjust_fulfillment_errors_for_expr_obligation(&mut errors);
            Ok(fncx.report_fulfillment_errors(tcx, errors))
        },
    }
}

/// The first collected error whose root constraint renders as `target` and
/// whose recorded search is well nested, searching from position `k`.
pub open spec fn spec_first_match(
    s: Seq<FulfillmentErrorV>,
    target: Seq<char>,
    k: int,
) -> Option<int>
    decreases s.len() - k,
{
    if k < 0 || k >= s.len() {
        None
    } else if spec_pretty_predicate(s[k].root_predicate) == target && spec_well_nested(
        s[k].search,
    ) {
        Some(k)
    } else {
        spec_first_match(s, target, k + 1)
    }
}

/// Builds the serialized proof tree for the first recorded failure whose
/// root constraint renders exactly as the target selector.
///
/// Returns `None` — absence, a normal outcome, not an error — when the hook
/// never ran, when no failing goal matches the selector, or when the
/// matching goals' recorded searches are not well nested.
pub fn tree(tcx: &TyCtxt, body: &Body, target: &Target) -> (r: Option<SerializedTree>)
    ensures
        (body.inspect is None || body.inspect->0.infcx is None) ==> r is None,
        (body.inspect is Some && body.inspect->0.infcx is Some) ==> {
            let fncx = body.inspect->0;
            let collected = spec_collected_errors(fncx, tcx.sized_def_id);
            let found = spec_first_match(collected, target.data@, 0);
            &&& (r is Some <==> found is Some)
            &&& (r matches Some(t) ==> spec_valid_tree(t, collected[found->0].search))
        },
{
    match &body.inspect {
        None => None,
        Some(fncx) => {
            if fncx.infcx.is_none() {
                return None;
            }
            let errors = fncx.get_fulfillment_errors(tcx);
            let ghost collected = spec_collected_errors(*fncx, tcx.sized_def_id);
            let n = errors.len();
            let mut k: usize = 0;
            while k < n
                invariant
                    body.inspect is Some,
                    *fncx == body.inspect->0,
                    fncx.infcx is Some,
                    collected == spec_collected_errors(*fncx, tcx.sized_def_id),
                    n == errors@.len(),
                    n == collected.len(),
                    collected == errors@.map_values(|e: FulfillmentError| e@),
                    0 <= k <= n,
                    spec_first_match(collected, target.data@, 0) == spec_first_match(
                        collected,
                        target.data@,
                        k as int,
                    ),
                decreases n - k,
            {
                proof {
                    assert(collected[k as int] == errors@[k as int]@);
                    assert(collected[k as int].search == errors@[k as int].search@.map_values(
                        |e: Event| e@,
                    ));
                }
                let pretty = errors[k].root_predicate.pretty();
                if pretty.eq(&target.data) {
                    if let Some(t) = serialize_proof_tree(&errors[k].search) {
                        proof {
                            assert(spec_pretty_predicate(collected[k as int].root_predicate)
                                == target.data@);
                            assert(spec_well_nested(collected[k as int].search));
                            assert(spec_first_match(collected, target.data@, k as int) == Some(
                                k as int,
                            ));
                        }
                        return Some(t);
                    }
                }
                k = k + 1;
            }
            None
        },
    }
}

} // verus!
