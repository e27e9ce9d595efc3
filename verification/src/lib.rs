//! The core of a small service that keeps users in one table and speaks a
//! hand-parsed HTTP-like protocol: decoding a request, routing it, planning
//! the one database statement it needs, and encoding the response.

pub mod scan;
pub mod number;
pub mod user;
pub mod json;
pub mod wire;
pub mod router;
pub mod operation;
pub mod table;
pub mod laws;
pub mod service;
