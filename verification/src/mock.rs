//! Fixtures: pairs of an expected request and the response to give for it,
//! and the registry that finds the fixture for an incoming request.

pub mod body;
pub mod fixture;
pub mod set;

pub use self::body::{JsonMockBody, MockBody};
pub use self::fixture::{Mock, MockFile, MockRequest, MockResponse};
pub use self::set::MockSet;
