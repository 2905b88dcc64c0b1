//! MyKnowledge: a local-first knowledge base of notes grouped into contexts.
//!
//! The library holds the domain model (tags, contexts, notes), the text rules
//! they follow, the note file format, and the queries that the repositories
//! answer. Reading and writing files is left to the program around it.
use vstd::prelude::*;

pub mod context;
pub mod context_repo;
pub mod display;
pub mod note;
pub mod note_file;
pub mod note_repo;
pub mod search;
pub mod system;
pub mod tag;
pub mod text;

verus! {

} // verus!

