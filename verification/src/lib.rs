//! Verified core of a package registry: an entity store for users, packages,
//! dependencies and tags, a query engine with composable filters and
//! pagination, the service facade that the transport layer calls, and the
//! client-side session state.

pub mod digest;
pub mod entities;
pub mod errors;
pub mod facade;
pub mod laws;
pub mod model;
pub mod payloads;
pub mod query;
pub mod session;
pub mod store;
pub mod text;
