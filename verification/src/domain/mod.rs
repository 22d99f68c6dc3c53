//! The domain model: users, workspaces, teams, memberships and projects.

pub mod collections;
pub mod errors;
pub mod ids;
pub mod membership;
pub mod project;
pub mod team;
pub mod user;
pub mod workspace;
