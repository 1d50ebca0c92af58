//! Credential pool for a reverse proxy in front of a conversational-model API:
//! the credential records with their rolling usage windows, the pool that hands
//! credentials out and takes them back, and the message types it serves.

pub mod actor;
pub mod admin;
pub mod affinity;
pub mod claude;
pub mod credential;
pub mod laws;
pub mod message;
pub mod model;
pub mod pool;
