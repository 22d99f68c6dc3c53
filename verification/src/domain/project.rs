//! Projects.

use vstd::prelude::*;
use time::OffsetDateTime;
use crate::datetime::now_utc;
use crate::domain::ids::{ProjectId, TeamId, WorkspaceId};

verus! {

#[derive(Debug, Clone)]
pub struct Project {
    pub id: ProjectId,
    pub workspace_id: WorkspaceId,
    pub team_id: Option<TeamId>,
    pub name: String,
    pub status: ProjectStatus,
    pub created_at: OffsetDateTime,
    pub updated_at: OffsetDateTime,
}

#[derive(Debug, Clone, PartialEq, Eq, Structural)]
pub enum ProjectStatus {
    Active,
    Stopped,
    Deploying,
    Error,
}

impl Project {
    /// A new, active project, created and updated now (by the clock, which
    /// [`Project::new_at`] takes as `now`).
    pub fn new(id: ProjectId, workspace_id: WorkspaceId, name: String, team_id: Option<TeamId>) -> (p: Self)
        ensures
            p.id == id,
            p.workspace_id == workspace_id,
            p.team_id == team_id,
            p.name == name,
            p.status == ProjectStatus::Active,
            p.created_at == p.updated_at,
    {
        Self::new_at(id, workspace_id, name, team_id, now_utc())
    }

    /// A new, active project, created and updated at `now`.
    pub fn new_at(id: ProjectId, workspace_id: WorkspaceId, name: String, team_id: Option<TeamId>, now: OffsetDateTime) -> (p: Self)
        ensures
            p.id == id,
            p.workspace_id == workspace_id,
            p.team_id == team_id,
            p.name == name,
            p.status == ProjectStatus::Active,
            p.created_at == now,
            p.updated_at == now,
    {
        Self {
            id,
            workspace_id,
            team_id,
            name,
            status: ProjectStatus::Active,
            created_at: now,
            updated_at: now,
        }
    }
}

} // verus!
