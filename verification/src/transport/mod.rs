//! What a client asks of the server over its transport.

pub mod service;

pub use service::Service;
