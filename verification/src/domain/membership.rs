//! Memberships of users in workspaces, with the roles they hold.

use vstd::prelude::*;
use time::OffsetDateTime;
use crate::datetime::now_utc;
use crate::domain::collections::{lemma_push_new_no_duplicates, without};
use crate::domain::errors::DomainError;
use crate::domain::ids::{RoleId, UserId, WorkspaceId};

verus! {

#[derive(Debug, Clone)]
pub struct Membership {
    pub user_id: UserId,
    pub workspace_id: WorkspaceId,
    pub roles: Vec<RoleId>,
    pub joined_at: OffsetDateTime,
}

impl Membership {
    /// A membership without roles, joined now (by the clock, which
    /// [`Membership::new_at`] takes as `now`).
    pub fn new(user_id: UserId, workspace_id: WorkspaceId) -> (m: Self)
        ensures
            m.user_id == user_id,
            m.workspace_id == workspace_id,
            m.roles@ == Seq::<RoleId>::empty(),
    {
        Self::new_at(user_id, workspace_id, now_utc())
    }

    /// A membership without roles, joined at `now`.
    pub fn new_at(user_id: UserId, workspace_id: WorkspaceId, now: OffsetDateTime) -> (m: Self)
        ensures
            m.user_id == user_id,
            m.workspace_id == workspace_id,
            m.roles@ == Seq::<RoleId>::empty(),
            m.joined_at == now,
    {
        Self { user_id, workspace_id, roles: Vec::new(), joined_at: now }
    }

    /// Gives the role to the member; refused when the member holds it
    /// already, which leaves the membership as it was.
    pub fn assign_role(&mut self, role_id: RoleId) -> (r: Result<(), DomainError>)
        ensures
            old(self).roles@.contains(role_id) ==> r == Err::<(), DomainError>(DomainError::AlreadyAssigned),
            old(self).roles@.contains(role_id) ==> *final(self) == *old(self),
            !old(self).roles@.contains(role_id) ==> r is Ok,
            !old(self).roles@.contains(role_id) ==> final(self).roles@ == old(self).roles@.push(role_id),
            final(self).user_id == old(self).user_id,
            final(self).workspace_id == old(self).workspace_id,
            final(self).joined_at == old(self).joined_at,
            old(self).roles@.no_duplicates() ==> final(self).roles@.no_duplicates(),
    {
        if self.has_role(role_id) {
            return Err(DomainError::AlreadyAssigned);
        }
        self.roles.push(role_id);
        proof {
            if old(self).roles@.no_duplicates() {
                lemma_push_new_no_duplicates(old(self).roles@, role_id);
            }
        }
        Ok(())
    }

    /// Takes every copy of the role from the member.
    pub fn revoke_role(&mut self, role_id: RoleId)
        ensures
            final(self).roles@ == without(old(self).roles@, role_id),
            final(self).user_id == old(self).user_id,
            final(self).workspace_id == old(self).workspace_id,
            final(self).joined_at == old(self).joined_at,
    {
        let mut kept: Vec<RoleId> = Vec::new();
        let mut i: usize = 0;
        let n = self.roles.len();
        while i < n
            invariant
                n == self.roles@.len(),
                0 <= i <= n,
                kept@ == without(self.roles@.take(i as int), role_id),
            decreases n - i,
        {
            let r = self.roles[i];
            proof {
                assert(self.roles@.take(i + 1).drop_last() =~= self.roles@.take(i as int));
            }
            if r != role_id {
                kept.push(r);
            }
            i = i + 1;
        }
        proof {
            assert(self.roles@.take(n as int) =~= self.roles@);
        }
        self.roles = kept;
    }

    /// Whether the member holds the role.
    pub fn has_role(&self, role_id: RoleId) -> (r: bool)
        ensures
            r == self.roles@.contains(role_id),
    {
        let mut i: usize = 0;
        while i < self.roles.len()
            invariant
                0 <= i <= self.roles@.len(),
                forall|j: int| 0 <= j < i ==> self.roles@[j] != role_id,
            decreases self.roles@.len() - i,
        {
            if self.roles[i] == role_id {
                return true;
            }
            i = i + 1;
        }
        false
    }
}

} // verus!
