//! Verified core of juicehost, a file storage and delivery service.

pub mod ban;
pub mod config;
pub mod error;
pub mod handlers;
pub mod secrets;
pub mod server;
pub mod startup;
pub mod state;
pub mod storage;
pub mod text;
pub mod ticket;
