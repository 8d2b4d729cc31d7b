//! Host-based request routing: the decisions of a small HTTP edge server that
//! hands each request to the handler registered for its `Host` header.

pub mod host;
pub mod reply;
pub mod router;
pub mod counter;
pub mod laws;
