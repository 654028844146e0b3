//! What the HTTP transport needs from the engine: the payloads, the error
//! type with its status codes, and the decision that each endpoint makes.
//! Routing, parsing and serialization are left to the transport.

pub mod error;
pub mod routes;
pub mod types;

pub use error::WebError;
pub use types::{ApiResponse, EmotionResponse, NpcSessionResponse};
