//! L3: links between blocks, facts, items and thematic pages.
use vstd::prelude::*;
use crate::text::clone_opt_string;

verus! {

/// A directed, typed edge `src_kind:src_id --rel_type--> dst_kind:dst_id`,
/// recorded with the rule (or `manual`) that produced it.
#[derive(Debug, PartialEq, Eq)]
pub struct Link {
    pub id: String,
    pub src_kind: String,
    pub src_id: String,
    pub dst_kind: String,
    pub dst_id: String,
    pub rel_type: String,
    pub derived_by: String,
    pub metadata: Option<String>,
    pub created_at: String,
}

/// A thematic page; at most one page is active at a time.
#[derive(Debug, PartialEq, Eq)]
pub struct Page {
    pub id: String,
    pub title: String,
    pub description: Option<String>,
    pub is_active: bool,
    pub created_at: String,
    pub archived_at: Option<String>,
}

impl Clone for Link {
    fn clone(&self) -> (r: Self)
        ensures
            r == *self,
    {
        Link {
            id: self.id.clone(),
            src_kind: self.src_kind.clone(),
            src_id: self.src_id.clone(),
            dst_kind: self.dst_kind.clone(),
            dst_id: self.dst_id.clone(),
            rel_type: self.rel_type.clone(),
            derived_by: self.derived_by.clone(),
            metadata: clone_opt_string(&self.metadata),
            created_at: self.created_at.clone(),
        }
    }
}

impl Clone for Page {
    fn clone(&self) -> (r: Self)
        ensures
            r == *self,
    {
        Page {
            id: self.id.clone(),
            title: self.title.clone(),
            description: clone_opt_string(&self.description),
            is_active: self.is_active,
            created_at: self.created_at.clone(),
            archived_at: clone_opt_string(&self.archived_at),
        }
    }
}

} // verus!
