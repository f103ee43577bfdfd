//! Administrators and their roles.
pub mod admin;
pub mod role;
