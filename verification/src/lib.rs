//! Verified core of a course-selection client for the DNUI elective system.
pub mod text;
pub mod json;
pub mod model;
pub mod failure;
pub mod codec;
pub mod network;
pub mod api;
pub mod rob;
pub mod rounds;
pub mod swap;
pub mod screen;
pub mod relogin;
pub mod vpn_auth;
pub mod schedule;
