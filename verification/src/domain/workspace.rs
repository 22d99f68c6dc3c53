//! Workspaces.

use vstd::prelude::*;
use time::OffsetDateTime;
use crate::datetime::now_utc;
use crate::domain::ids::{UserId, WorkspaceId};

verus! {

#[derive(Debug, Clone)]
pub struct Workspace {
    pub id: WorkspaceId,
    pub name: String,
    pub slug: String,
    pub owner_id: UserId,
    pub created_at: OffsetDateTime,
    pub updated_at: OffsetDateTime,
}

impl Workspace {
    /// A new workspace, created and updated now (by the clock, which
    /// [`Workspace::new_at`] takes as `now`).
    pub fn new(id: WorkspaceId, name: String, slug: String, owner_id: UserId) -> (w: Self)
        ensures
            w.id == id,
            w.name == name,
            w.slug == slug,
            w.owner_id == owner_id,
            w.created_at == w.updated_at,
    {
        Self::new_at(id, name, slug, owner_id, now_utc())
    }

    /// A new workspace, created and updated at `now`.
    pub fn new_at(id: WorkspaceId, name: String, slug: String, owner_id: UserId, now: OffsetDateTime) -> (w: Self)
        ensures
            w.id == id,
            w.name == name,
            w.slug == slug,
            w.owner_id == owner_id,
            w.created_at == now,
            w.updated_at == now,
    {
        Self { id, name, slug, owner_id, created_at: now, updated_at: now }
    }
}

} // verus!
