//! Performance-regression discovery across a range of source-control
//! revisions: the library rebuilds a project at each commit of a resolved
//! range, runs its benchmark executables, and records the results tagged by
//! commit identity.
//!
//! The verified core covers benchmark discovery, benchmark output parsing,
//! commit range resolution over a modelled commit graph, the checkout and
//! build orchestration state machine, and the per-commit export/collect
//! cycle. File, process and repository I/O is performed by a thin unverified
//! driver that feeds plain values to this library and acts on the actions it
//! returns.

pub mod database;
pub mod export;
pub mod find;
pub mod graph;
pub mod json;
pub mod parse;
pub mod repocheck;
pub mod series;
pub mod text;
pub mod units;
