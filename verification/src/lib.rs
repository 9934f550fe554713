//! Type-inference core for a resource-oriented language with abilities.
//!
//! The crate implements the unification and constraint engine used when
//! type-checking one function at a time:
//!
//! - [`ast`] — positions, names, abilities, and the type language, with the
//!   mathematical model every contract speaks about;
//! - [`subst`] — the substitution store for type and reference-mutability
//!   variables, chain forwarding, unfolding and full resolution;
//! - [`join`] — the join/subtype algorithm over types, with its laws;
//! - [`abilities`] — structural ability inference against the program table;
//! - [`solver`] — numeric defaulting and the deferred-constraint solver;
//! - [`context`] — the checking context: scopes, locals, the macro-expansion
//!   recursion guard, and the cross-function accumulators;
//! - [`instantiate`] — generic instantiation, arity checking, and
//!   call-visibility resolution;
//! - [`diag`] — structured diagnostics; rendering text is the driver's job;
//! - [`info`] — the read-only program-information table;
//! - [`format`] — type rendering for error messages;
//! - [`server`] — the checked configuration core of the node server.

pub mod abilities;
pub mod ast;
pub mod context;
pub mod diag;
pub mod format;
pub mod info;
pub mod instantiate;
pub mod join;
pub mod server;
pub mod solver;
pub mod subst;

use vstd::prelude::*;

verus! {

} // verus!
