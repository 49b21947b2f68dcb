//! Dependency-chain analysis for reactive callback hooks.
//!
//! A reactive callback (an "effect" or "memo" hook body) must declare every
//! outer-scope value it reads, or the callback can close over stale values.
//! This crate holds the core of a lint that checks such declarations: it
//! parses the declared dependency list of a hook call into canonical property
//! chains, walks the callback body for reads of captured bindings, classifies
//! each captured binding as stable or reactive, and reports every read that
//! neither the declared list nor one of its ancestor chains covers.
//!
//! The syntax tree and the results of scope and symbol resolution are inputs:
//! the host parses sources and resolves references, then hands each call
//! expression to [`rule::analyze`] as a value of the closed node model in
//! [`ast`].
pub mod ast;
pub mod chain;
pub mod collect;
pub mod hooks;
pub mod laws;
pub mod rule;
pub mod stability;
