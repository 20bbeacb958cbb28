//! What a session leaves behind: one observation per event.

use crate::clock::Timestamp;
use crate::ids::{ObservationId, ProjectId, SessionId, WorkspaceId};
use vstd::prelude::*;

verus! {

/// What kind of event an observation records, as far as a session page tells
/// kinds apart.
#[derive(Clone, Copy, PartialEq, Eq, Structural, Debug)]
pub enum ObservationKind {
    /// The session began.
    SessionStart,
    /// The session ended.
    SessionEnd,
    /// The user asked for something.
    UserPrompt,
    /// A tool call is about to run.
    PreToolUse,
    /// A tool call has completed.
    PostToolUse,
    /// Anything else.
    Other,
}

/// One recorded event of a session.
#[derive(Debug)]
pub struct Observation {
    pub id: ObservationId,
    pub session_id: SessionId,
    pub workspace_id: WorkspaceId,
    pub project_id: ProjectId,
    pub kind: ObservationKind,
    /// The name under which the kind is listed on a page.
    pub kind_label: String,
    /// The extension that contributed the event, if one did.
    pub extension: Option<String>,
    /// The extension's own name for the event.
    pub source_event: Option<String>,
    pub title: String,
    pub body: String,
    pub importance: u8,
    pub created_at: Timestamp,
}

} // verus!
