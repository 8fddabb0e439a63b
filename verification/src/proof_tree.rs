//! The data model of one observed proof search: certainties, probe kinds,
//! search events, tree nodes, and the obligation records extracted from a
//! checked body.

pub mod ext;
pub mod serialize;
pub mod topology;

use crate::ty::{CharRange, Predicate, PredicateV, TraitRef, TraitRefV, Ty, TyV};
use vstd::prelude::*;

verus! {

/// How sure the solver is that a goal holds, when it did not plainly fail.
#[derive(Clone, Copy, Debug, PartialEq, Eq, Structural)]
pub enum Certainty {
    /// The goal holds.
    Yes,
    /// The solver could not decide; `MaybeCause` says why.
    Maybe(MaybeCause),
}

/// Why the solver answered ambiguously.
#[derive(Clone, Copy, Debug, PartialEq, Eq, Structural)]
pub enum MaybeCause {
    /// The search hit its depth limit.
    Overflow,
    /// The goal is genuinely undecided.
    Ambiguity,
}

/// The solver found no way to satisfy the goal.
#[derive(Clone, Copy, Debug, PartialEq, Eq, Structural)]
pub struct NoSolution;

/// Where a trait candidate comes from.
pub enum CandidateSource {
    /// A built-in rule of the solver.
    BuiltinImpl,
    /// A bound found on an alias.
    AliasBound,
    /// The n-th assumption of the parameter environment.
    ParamEnv { index: u64 },
    /// A user-written implementation, carrying the implementing type and the
    /// interface signature it satisfies.
    Impl { ty: Ty, trait_ref: TraitRef },
}

/// Model of [`CandidateSource`].
pub enum CandidateSourceV {
    BuiltinImpl,
    AliasBound,
    ParamEnv { index: u64 },
    Impl { ty: TyV, trait_ref: TraitRefV },
}

impl View for CandidateSource {
    type V = CandidateSourceV;

    open spec fn view(&self) -> CandidateSourceV {
        match self {
            CandidateSource::BuiltinImpl => CandidateSourceV::BuiltinImpl,
            CandidateSource::AliasBound => CandidateSourceV::AliasBound,
            CandidateSource::ParamEnv { index } => CandidateSourceV::ParamEnv { index: *index },
            CandidateSource::Impl { ty, trait_ref } => CandidateSourceV::Impl {
                ty: ty@,
                trait_ref: trait_ref@,
            },
        }
    }
}

/// The kind of probe the solver opened while searching.
pub enum ProbeKind {
    /// The root probe of the search.
    Root,
    /// Assembly of candidates for a normalized self type.
    NormalizedSelfTyAssembly,
    /// Assembly of unsize candidates.
    UnsizeAssembly,
    /// A tentative evaluation, committed only if it succeeds.
    CommitIfOk,
    /// A compatibility check between an upcast and a projection.
    UpcastProjectionCompatibility,
    /// A named probe not modeled structurally.
    Misc { name: String },
    /// A probe of one concrete trait candidate.
    TraitCandidate { source: CandidateSource },
}

/// Model of [`ProbeKind`].
pub enum ProbeKindV {
    Root,
    NormalizedSelfTyAssembly,
    UnsizeAssembly,
    CommitIfOk,
    UpcastProjectionCompatibility,
    Misc { name: Seq<char> },
    TraitCandidate { source: CandidateSourceV },
}

impl View for ProbeKind {
    type V = ProbeKindV;

    open spec fn view(&self) -> ProbeKindV {
        match self {
            ProbeKind::Root => ProbeKindV::Root,
            ProbeKind::NormalizedSelfTyAssembly => ProbeKindV::NormalizedSelfTyAssembly,
            ProbeKind::UnsizeAssembly => ProbeKindV::UnsizeAssembly,
            ProbeKind::CommitIfOk => ProbeKindV::CommitIfOk,
            ProbeKind::UpcastProjectionCompatibility => ProbeKindV::UpcastProjectionCompatibility,
            ProbeKind::Misc { name } => ProbeKindV::Misc { name: name@ },
            ProbeKind::TraitCandidate { source } => ProbeKindV::TraitCandidate { source: source@ },
        }
    }
}

/// One event of the solver's search stream for a single target goal.  The
/// stream is ordered and well nested: every `EnterGoal`/`EnterCandidate`
/// is closed by a matching `Exit`.
pub enum Event {
    /// The solver started proving a goal.
    EnterGoal { predicate: Predicate },
    /// The solver opened a candidate probe under the current goal.
    EnterCandidate { probe: ProbeKind },
    /// The solver resolved the current probe with a certainty.
    ProbeResult { result: Result<Certainty, NoSolution> },
    /// The solver closed the current goal or candidate.
    Exit,
}

/// Model of [`Event`].
pub enum EventV {
    EnterGoal { predicate: PredicateV },
    EnterCandidate { probe: ProbeKindV },
    ProbeResult { result: Result<Certainty, NoSolution> },
    Exit,
}

impl View for Event {
    type V = EventV;

    open spec fn view(&self) -> EventV {
        match self {
            Event::EnterGoal { predicate } => EventV::EnterGoal { predicate: predicate@ },
            Event::EnterCandidate { probe } => EventV::EnterCandidate { probe: probe@ },
            Event::ProbeResult { result } => EventV::ProbeResult { result: *result },
            Event::Exit => EventV::Exit,
        }
    }
}

impl CandidateSource {
    /// A structurally identical copy of this source.
    pub fn duplicate(&self) -> (r: CandidateSource)
        ensures
            r@ == self@,
    {
        match self {
            CandidateSource::BuiltinImpl => CandidateSource::BuiltinImpl,
            CandidateSource::AliasBound => CandidateSource::AliasBound,
            CandidateSource::ParamEnv { index } => CandidateSource::ParamEnv { index: *index },
            CandidateSource::Impl { ty, trait_ref } => CandidateSource::Impl {
                ty: ty.duplicate(),
                trait_ref: trait_ref.duplicate(),
            },
        }
    }
}

impl ProbeKind {
    /// A structurally identical copy of this probe kind.
    pub fn duplicate(&self) -> (r: ProbeKind)
        ensures
            r@ == self@,
    {
        match self {
            ProbeKind::Root => ProbeKind::Root,
            ProbeKind::NormalizedSelfTyAssembly => ProbeKind::NormalizedSelfTyAssembly,
            ProbeKind::UnsizeAssembly => ProbeKind::UnsizeAssembly,
            ProbeKind::CommitIfOk => ProbeKind::CommitIfOk,
            ProbeKind::UpcastProjectionCompatibility => ProbeKind::UpcastProjectionCompatibility,
            ProbeKind::Misc { name } => ProbeKind::Misc { name: name.clone() },
            ProbeKind::TraitCandidate { source } => ProbeKind::TraitCandidate {
                source: source.duplicate(),
            },
        }
    }
}

impl Event {
    /// A structurally identical copy of this event.
    pub fn duplicate(&self) -> (r: Event)
        ensures
            r@ == self@,
    {
        match self {
            Event::EnterGoal { predicate } => Event::EnterGoal {
                predicate: predicate.duplicate(),
            },
            Event::EnterCandidate { probe } => Event::EnterCandidate {
                probe: probe.duplicate(),
            },
            Event::ProbeResult { result } => Event::ProbeResult { result: *result },
            Event::Exit => Event::Exit,
        }
    }
}

/// A proposed way to satisfy a goal.
pub enum Candidate {
    /// A concrete implementation matched by a rule.
    Impl { ty: Ty, trait_ref: TraitRef },
    /// A catch-all textual label for probe kinds not modeled structurally.
    Any { data: String },
}

/// Model of [`Candidate`].
pub enum CandidateV {
    Impl { ty: TyV, trait_ref: TraitRefV },
    Any { data: Seq<char> },
}

impl View for Candidate {
    type V = CandidateV;

    open spec fn view(&self) -> CandidateV {
        match self {
            Candidate::Impl { ty, trait_ref } => CandidateV::Impl {
                ty: ty@,
                trait_ref: trait_ref@,
            },
            Candidate::Any { data } => CandidateV::Any { data: data@ },
        }
    }
}

/// One node of a serialized proof tree.
pub enum Node {
    /// A terminal certainty, rendered as text.
    Result { data: String },
    /// A candidate probed for the parent goal.
    Candidate { data: Candidate },
    /// An intermediate constraint being proven.
    Goal { data: Predicate },
}

/// Model of [`Node`].
pub enum NodeV {
    Result { data: Seq<char> },
    Candidate { data: CandidateV },
    Goal { data: PredicateV },
}

impl View for Node {
    type V = NodeV;

    open spec fn view(&self) -> NodeV {
        match self {
            Node::Result { data } => NodeV::Result { data: data@ },
            Node::Candidate { data } => NodeV::Candidate { data: data@ },
            Node::Goal { data } => NodeV::Goal { data: data@ },
        }
    }
}

/// One observed proof search, reconstructed as an addressable tree.
pub struct SerializedTree {
    /// The entry node; always a valid index.
    pub root: topology::ProofNodeIdx,
    /// The append-only node arena.
    pub nodes: Vec<Node>,
    /// Parent/children relation over the arena's indices.
    pub topology: topology::TreeTopology,
    /// Indices of `Result` nodes whose certainty denotes failure or
    /// unresolved ambiguity.
    pub error_leaves: Vec<topology::ProofNodeIdx>,
    /// Indices (never the root) heading subtrees that contain no error
    /// leaf: a presentation hint, not a deletion.
    pub unnecessary_roots: Vec<topology::ProofNodeIdx>,
}

/// Whether an obligation was ultimately satisfied.
#[derive(Clone, Copy, Debug, PartialEq, Eq, Structural)]
pub enum ObligationKind {
    Success,
    Failure,
}

/// One reportable constraint of a checked body.
pub struct Obligation {
    /// The constraint itself.
    pub data: Predicate,
    /// The canonical hash of `data`, as a decimal string: consumers may not
    /// represent the full unsigned 64-bit range natively.
    pub hash: String,
    /// Where the failure is attributed in the source.
    pub range: CharRange,
    pub kind: ObligationKind,
}

/// Model of [`Obligation`].
#[verifier::ext_equal]
pub struct ObligationV {
    pub data: PredicateV,
    pub hash: Seq<char>,
    pub range: CharRange,
    pub kind: ObligationKind,
}

impl View for Obligation {
    type V = ObligationV;

    open spec fn view(&self) -> ObligationV {
        ObligationV { data: self.data@, hash: self.hash@, range: self.range, kind: self.kind }
    }
}

} // verus!
