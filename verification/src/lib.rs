//! Core library of the podkit server: e-mail validation, identifiers,
//! password hashing and the domain rules of users, teams and workspaces.

pub mod datetime;
pub mod decimal;
pub mod domain;
pub mod ids;
pub mod models;
pub mod passwords;
pub mod server;
pub mod text;
pub mod validation;
