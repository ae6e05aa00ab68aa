//! Naming and trust layer of a self-hosted git server: repository
//! identifiers, the registries that declare repositories, and the decisions
//! taken when a push reaches the server.

pub mod hooks;
pub mod repository;
pub mod text;
pub mod transport;
