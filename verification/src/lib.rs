//! A fine-grained reactive runtime: a dependency graph in which state
//! mutations propagate automatically to derived computations and side
//! effects, recomputing only what is affected and only when needed.
//!
//! The graph has three node kinds:
//! 1. **Signals**: atomic units of state, which can be directly mutated.
//! 2. **Memos** (computations): derived values, cached and lazily
//!    recomputed when the sources they depend on change.
//! 3. **Effects**: side-effect subscribers that are scheduled to re-run
//!    whenever a dependency signals that it may have changed.
//!
//! Nodes live in a [`runtime::Runtime`] arena and are addressed by stable
//! integer identities; graph edges are identity pairs, so a stale edge can
//! be skipped instead of dereferencing freed memory. The runtime decides
//! *what* must be recomputed or re-run; executing derivation closures and
//! effect closures is the caller's (driver's) job, so the decision logic
//! here is independent of any scheduler or executor.

pub mod effect;
pub mod graph;
pub mod memo;
pub mod runtime;
pub mod signal;
