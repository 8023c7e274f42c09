//! Decision rules of the administration side of a project-course platform:
//! validation of requests, group membership changes, oral-exam listings,
//! security codes, fairs and access rules for coordinators.

pub mod text;
pub mod ordering;
pub mod oral_exam;
pub mod clock;
pub mod membership;
pub mod fairs;
pub mod projects;
pub mod access;
pub mod security_codes;
pub mod groups;
pub mod auth;
pub mod blacklist;
pub mod catalog;
pub mod names;
pub mod pages;
