//! Query analysis for a SQL shim over a keyed dataflow store.
//!
//! The library takes parsed SQL statements and decides how a backend that
//! only understands primitive keyed operations must serve them: it reduces
//! `WHERE` trees on `UPDATE`/`DELETE` statements to the set of primary-key
//! tuples they address, locates which columns a statement's placeholders
//! bind, turns `SET` clauses into ordered field modifications, answers
//! administrative probes from a fixed reply table, and canonicalizes
//! `SELECT` shapes so that structurally identical queries share one
//! registered view. Anything outside the deliberately narrow supported
//! subset is rejected with a typed [`Fatal`] error rather than guessed at.

pub mod ast;
pub mod cache;
pub mod flatten;
pub mod laws;
pub mod params;
pub mod sanitize;
pub mod responses;
pub mod schema;
pub mod stmt;
pub mod update;
pub mod values;

use vstd::prelude::*;

verus! {

/// A fatal, per-statement analysis error.
///
/// Every unsupported or ill-formed statement shape is reported through one of
/// these variants rather than by panicking; the connection that submitted the
/// statement stays usable.
#[derive(Clone, Copy, Debug, PartialEq, Eq, Structural)]
pub enum Fatal {
    /// A mutating statement's `WHERE` clause references a column outside the
    /// primary key.
    NonKeyPredicate,
    /// An `AND`/`OR` combination cannot be reduced to a well-defined key set.
    AmbiguousCondition,
    /// A reduced key tuple does not cover every primary-key column.
    IncompleteCompoundKey,
    /// Any statement shape outside the supported subset.
    UnsupportedStatementShape,
    /// Fewer bound parameter values were supplied than placeholders found.
    ParameterUnderflow,
}

} // verus!
