//! Contexts: the buckets that notes are grouped into.
use vstd::prelude::*;

use crate::system::{is_clock_reading, is_uuid_v4_text, new_uuid_v4_text, utc_now, Timestamp};
use crate::text::{trim, trim_spec};

verus! {

/// A named bucket of notes.
#[derive(Debug, PartialEq, Eq)]
pub struct Context {
    pub id: String,
    pub name: String,
    pub description: Option<String>,
    pub created_at: Timestamp,
}

impl Context {
    /// Creates a context with a fresh identifier, the trimmed name, the given
    /// description and the current time.
    pub fn new(name: &str, description: Option<String>) -> (c: Context)
        ensures
            is_uuid_v4_text(c.id@),
            c.name@ == trim_spec(name@),
            c.description == description,
            is_clock_reading(c.created_at),
    {
        let id = new_uuid_v4_text();
        let name = trim(name);
        let created_at = utc_now();
        Context { id, name, description, created_at }
    }
}

impl Clone for Context {
    fn clone(&self) -> (r: Self)
        ensures
            r == *self,
    {
        let description = match &self.description {
            Some(d) => Some(d.clone()),
            None => None,
        };
        Context {
            id: self.id.clone(),
            name: self.name.clone(),
            description,
            created_at: self.created_at,
        }
    }
}

} // verus!
