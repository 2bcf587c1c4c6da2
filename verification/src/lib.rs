//! A small verified utility library centred on a memoizing lazy evaluator:
//! a cache that wraps a caller-supplied computation and guarantees that the
//! computation runs at most once per distinct key, that cached results are
//! stable, and that failed computations are never memoized.
//!
//! The remaining modules hold small verified helpers that the evaluator's
//! clients use: a workout planner built on the evaluator, text summaries,
//! and assorted generic utilities.

pub mod basics;
pub mod boxed;
pub mod cacher;
pub mod laws;
pub mod point;
pub mod rectangle;
pub mod shoes;
pub mod summary;
pub mod user;
pub mod workout;
