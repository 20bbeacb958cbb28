//! Wiki pages, as they are handed to the store.

use crate::clock::Timestamp;
use crate::ids::{ProjectId, WorkspaceId};
use vstd::prelude::*;

verus! {

/// Which memory tier a page belongs to.
#[derive(Clone, Copy, PartialEq, Eq, Structural, Debug)]
pub enum Tier {
    /// What happened in one session.
    Episodic,
}

/// Where a page lives, relative to the wiki root.
#[derive(Debug)]
pub struct PagePath {
    pub text: String,
}

/// A page that is about to be written.
#[derive(Debug)]
pub struct NewPage {
    pub workspace_id: WorkspaceId,
    pub project_id: ProjectId,
    pub path: PagePath,
    pub title: String,
    pub body: String,
    pub tier: Tier,
    pub frontmatter_json: serde_json::Value,
    pub pinned: bool,
    pub links: Vec<String>,
    pub author_id: Option<String>,
    pub expires_at: Option<Timestamp>,
    pub entities: Vec<String>,
}

} // verus!
