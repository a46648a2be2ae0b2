//! Request handlers for serving, storing, renaming, and deleting files.

pub mod auth;
pub mod headers;
pub mod json;
pub mod manage;
pub mod range;
pub mod reply;
pub mod serve;
pub mod store;
pub mod upload;
