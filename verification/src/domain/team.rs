//! Teams of a workspace and their members.

use vstd::prelude::*;
use time::OffsetDateTime;
use crate::datetime::now_utc;
use crate::domain::collections::{lemma_push_new_no_duplicates, without};
use crate::domain::errors::DomainError;
use crate::domain::ids::{TeamId, UserId, WorkspaceId};

verus! {

#[derive(Debug, Clone)]
pub struct Team {
    pub id: TeamId,
    pub workspace_id: WorkspaceId,
    pub name: String,
    pub members: Vec<UserId>,
    pub created_at: OffsetDateTime,
}

impl Team {
    /// A team without members, created now (by the clock, which
    /// [`Team::new_at`] takes as `now`).
    pub fn new(id: TeamId, workspace_id: WorkspaceId, name: String) -> (t: Self)
        ensures
            t.id == id,
            t.workspace_id == workspace_id,
            t.name == name,
            t.members@ == Seq::<UserId>::empty(),
    {
        Self::new_at(id, workspace_id, name, now_utc())
    }

    /// A team without members, created at `now`.
    pub fn new_at(id: TeamId, workspace_id: WorkspaceId, name: String, now: OffsetDateTime) -> (t: Self)
        ensures
            t.id == id,
            t.workspace_id == workspace_id,
            t.name == name,
            t.members@ == Seq::<UserId>::empty(),
            t.created_at == now,
    {
        Self { id, workspace_id, name, members: Vec::new(), created_at: now }
    }

    /// Whether the user is a member.
    fn is_member(&self, user_id: UserId) -> (r: bool)
        ensures
            r == self.members@.contains(user_id),
    {
        let mut i: usize = 0;
        while i < self.members.len()
            invariant
                0 <= i <= self.members@.len(),
                forall|j: int| 0 <= j < i ==> self.members@[j] != user_id,
            decreases self.members@.len() - i,
        {
            if self.members[i] == user_id {
                return true;
            }
            i = i + 1;
        }
        false
    }

    /// Adds the user to the team; refused when the user is a member already,
    /// which leaves the team as it was.
    pub fn add_member(&mut self, user_id: UserId) -> (r: Result<(), DomainError>)
        ensures
            old(self).members@.contains(user_id) ==> r == Err::<(), DomainError>(DomainError::AlreadyAssigned),
            old(self).members@.contains(user_id) ==> *final(self) == *old(self),
            !old(self).members@.contains(user_id) ==> r is Ok,
            !old(self).members@.contains(user_id) ==> final(self).members@ == old(self).members@.push(user_id),
            final(self).id == old(self).id,
            final(self).workspace_id == old(self).workspace_id,
            final(self).name == old(self).name,
            final(self).created_at == old(self).created_at,
            old(self).members@.no_duplicates() ==> final(self).members@.no_duplicates(),
    {
        if self.is_member(user_id) {
            return Err(DomainError::AlreadyAssigned);
        }
        self.members.push(user_id);
        proof {
            if old(self).members@.no_duplicates() {
                lemma_push_new_no_duplicates(old(self).members@, user_id);
            }
        }
        Ok(())
    }

    /// Removes every copy of the user from the team.
    pub fn remove_member(&mut self, user_id: UserId)
        ensures
            final(self).members@ == without(old(self).members@, user_id),
            final(self).id == old(self).id,
            final(self).workspace_id == old(self).workspace_id,
            final(self).name == old(self).name,
            final(self).created_at == old(self).created_at,
    {
        let mut kept: Vec<UserId> = Vec::new();
        let mut i: usize = 0;
        let n = self.members.len();
        while i < n
            invariant
                n == self.members@.len(),
                0 <= i <= n,
                kept@ == without(self.members@.take(i as int), user_id),
            decreases n - i,
        {
            let u = self.members[i];
            proof {
                assert(self.members@.take(i + 1).drop_last() =~= self.members@.take(i as int));
            }
            if u != user_id {
                kept.push(u);
            }
            i = i + 1;
        }
        proof {
            assert(self.members@.take(n as int) =~= self.members@);
        }
        self.members = kept;
    }
}

} // verus!
