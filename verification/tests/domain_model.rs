use podkit::domain::errors::DomainError;
use podkit::domain::ids::{ProjectId, RoleId, TeamId, UserId, WorkspaceId};
use podkit::domain::membership::Membership;
use podkit::domain::project::{Project, ProjectStatus};
use podkit::domain::team::Team;
use podkit::domain::user::{Email, Language, UserSettings};
use podkit::domain::workspace::Workspace;

#[test]
fn email_value_object_normalizes() {
    let e = Email::new("Jane@Example.COM").unwrap();
    assert_eq!(e.as_str(), "Jane@example.com");
}

#[test]
fn email_value_object_rejects_with_message() {
    let e = Email::new("jane@localhost").unwrap_err();
    assert_eq!(
        e,
        DomainError::Validation("domain has no TLD (must contain at least one dot)".to_string())
    );
    assert_eq!(
        e.message(),
        "validation error: domain has no TLD (must contain at least one dot)"
    );
}

#[test]
fn domain_error_messages() {
    assert_eq!(DomainError::AlreadyExists.message(), "entity already exists");
    assert_eq!(DomainError::AlreadyAssigned.message(), "role already assigned to membership");
}

#[test]
fn settings_default() {
    let s = UserSettings::default();
    assert!(!s.two_factor_enabled);
    assert_eq!(s.preferred_language, Language::En);
    assert_eq!(Language::default(), Language::En);
}

#[test]
fn membership_roles() {
    let mut m = Membership::new(UserId(1), WorkspaceId(2));
    assert!(m.roles.is_empty());
    assert!(!m.has_role(RoleId(7)));
    assert_eq!(m.assign_role(RoleId(7)), Ok(()));
    assert!(m.has_role(RoleId(7)));
    assert_eq!(m.assign_role(RoleId(7)), Err(DomainError::AlreadyAssigned));
    assert_eq!(m.roles, vec![RoleId(7)]);
    assert_eq!(m.assign_role(RoleId(8)), Ok(()));
    m.revoke_role(RoleId(7));
    assert!(!m.has_role(RoleId(7)));
    assert_eq!(m.roles, vec![RoleId(8)]);
    // revoking what was just assigned gives back the roles from before
    let before = m.roles.clone();
    m.assign_role(RoleId(9)).unwrap();
    m.revoke_role(RoleId(9));
    assert_eq!(m.roles, before);
}

#[test]
fn revoke_removes_every_copy() {
    let mut m = Membership::new(UserId(1), WorkspaceId(2));
    m.roles = vec![RoleId(1), RoleId(2), RoleId(1), RoleId(3)];
    m.revoke_role(RoleId(1));
    assert_eq!(m.roles, vec![RoleId(2), RoleId(3)]);
}

#[test]
fn team_members() {
    let mut t = Team::new(TeamId(3), WorkspaceId(4), "core".to_string());
    assert_eq!(t.add_member(UserId(10)), Ok(()));
    assert_eq!(t.add_member(UserId(11)), Ok(()));
    assert_eq!(t.add_member(UserId(10)), Err(DomainError::AlreadyAssigned));
    assert_eq!(t.members, vec![UserId(10), UserId(11)]);
    t.remove_member(UserId(10));
    assert_eq!(t.members, vec![UserId(11)]);
    t.remove_member(UserId(99));
    assert_eq!(t.members, vec![UserId(11)]);
}

#[test]
fn new_entities() {
    let p = Project::new(ProjectId(1), WorkspaceId(2), "site".to_string(), Some(TeamId(3)));
    assert_eq!(p.status, ProjectStatus::Active);
    assert_eq!(p.created_at, p.updated_at);
    assert_eq!(p.team_id, Some(TeamId(3)));
    let q = p.clone();
    assert_eq!(q.created_at, p.created_at);
    assert_eq!(q.name, "site");
    let w = Workspace::new(WorkspaceId(2), "Acme".to_string(), "acme".to_string(), UserId(5));
    assert_eq!(w.created_at, w.updated_at);
    assert_eq!(w.slug, "acme");
}

#[test]
fn entities_created_at_a_given_time() {
    let now = time::OffsetDateTime::UNIX_EPOCH;
    let p = Project::new_at(ProjectId(1), WorkspaceId(2), "site".to_string(), None, now);
    assert_eq!(p.created_at, now);
    assert_eq!(p.updated_at, now);
    let w = Workspace::new_at(WorkspaceId(2), "Acme".to_string(), "acme".to_string(), UserId(5), now);
    assert_eq!(w.created_at, now);
    assert_eq!(w.updated_at, now);
    let t = Team::new_at(TeamId(3), WorkspaceId(2), "core".to_string(), now);
    assert_eq!(t.created_at, now);
    assert!(t.members.is_empty());
    let m = Membership::new_at(UserId(1), WorkspaceId(2), now);
    assert_eq!(m.joined_at, now);
    assert!(m.roles.is_empty());
}
