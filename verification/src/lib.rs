//! A protocol-level test double for gRPC services: method addresses, the
//! length-prefixed wire framing, a registry of request/response fixtures,
//! the HTTP-to-gRPC status table and the dispatch rules of a mock server.

pub mod error;
pub mod method;
pub mod mock;
pub mod prelude;
pub mod server;
pub mod status;
pub mod utils;
pub mod wire;

pub use error::Error;
