//! Introspection of a constraint solver's backtracking proof search.
//!
//! The engine observes the search an external type-checker performs while
//! trying to satisfy a constraint, reconstructs that search as an explicit
//! tree of goals, candidates and results, and extracts the list of failed
//! obligations of a checked body.  The solver itself is out of scope: its
//! constraints, search events and failure records arrive here as plain,
//! already-materialized values.

pub mod analysis;
pub mod proof_tree;
pub mod ty;
