//! The names that most users of the library need.

pub use crate::error::Error;
pub use crate::method::GrpcMethod;
pub use crate::mock::{Mock, MockBody, MockRequest, MockResponse, MockSet};
pub use crate::server::MockServer;
pub use crate::wire::encode_frame;
