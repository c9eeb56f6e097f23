//! A verified model of a small HTTP service with four routes: a greeting,
//! a fixed JSON listing, a numeric lookup that echoes the parsed id, and a
//! submission endpoint that echoes a decoded name.  The listener itself is
//! ordinary I/O and lives outside this library; everything the service
//! decides or computes for a request is here, with a contract.

pub mod json;
pub mod laws;
pub mod routes;
pub mod text;
