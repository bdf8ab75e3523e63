//! Ingestion of a public ebook-library dump into a relational store.
//!
//! - `sanitize`: clean-up of names, language codes and annotation bodies;
//! - `sql`: the value tuples of the `INSERT` lines of a dump;
//! - `types`: the entities and the mapping of a tuple onto each;
//! - `rows`: from a dump line to the rows that a task upserts;
//! - `store`: what the upserts and the post-pass do to the stored rows;
//! - `pipeline`: the tasks, their dependency gates and the single-run guard;
//! - `config`: webhook settings.
use vstd::prelude::*;

pub mod config;
pub mod sanitize;
pub mod sql;
pub mod types;
pub mod pipeline;
pub mod rows;
pub mod store;

verus! {

} // verus!
