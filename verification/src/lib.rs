//! Core of a small user-directory service: an in-memory model of the
//! user table with create / fetch / update / delete / list operations,
//! the route grammar of its HTTP surface, and the request-dispatch
//! logic, all with contracts checked by Verus.
//!
//! The surrounding process (HTTP server, connection pool, JSON codec)
//! lives outside this crate; everything here takes plain values and
//! returns plain values.

pub mod ids;
pub mod laws;
pub mod routes;
pub mod service;
pub mod table;
