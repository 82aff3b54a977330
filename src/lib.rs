//! A minimal HTTP/1.1 request-line decoder, and the decisions of a
//! sequential connection loop that hands decoded requests to a handler.
pub mod text;
pub mod method;
pub mod query_string;
pub mod request;
pub mod server;
