//! A server: how it accepts clients, and what it answers to their requests.

pub mod connection;
pub mod error;
pub mod refusal;
pub mod reply;
pub mod request;
pub mod routing;
pub mod stream;
pub mod tls;

pub use error::ServerError;
pub use reply::{error_response, new_response};
pub use request::Request;
pub use routing::{HandlerType, Server};
