//! The data model of a project's bookkeeping.
//!
//! Listing and creating project directories is filesystem work done by
//! the surrounding application; the library holds the metadata record it
//! keeps per project.

use vstd::prelude::*;

verus! {

/// Running counters a project keeps about its content.
pub struct ProjectMetadata {
    pub message_count: u32,
    pub attachment_count: u32,
    pub total_tokens: u32,
    pub last_message_date: Option<String>,
}

impl Default for ProjectMetadata {
    /// A fresh project: no messages, no attachments, no tokens spent.
    fn default() -> (r: Self)
        ensures
            r.message_count == 0,
            r.attachment_count == 0,
            r.total_tokens == 0,
            r.last_message_date is None,
    {
        ProjectMetadata {
            message_count: 0,
            attachment_count: 0,
            total_tokens: 0,
            last_message_date: None,
        }
    }
}

} // verus!
