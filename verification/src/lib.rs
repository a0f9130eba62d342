//! A small HTTP/1.1 server toolkit: header maps, WebSocket handshakes and the
//! per-connection decisions of the server loop, each with a checked contract.

pub mod headers;
pub mod text;
pub mod response;
pub mod request;
pub mod ws;
pub mod server;

pub use headers::Headers;
pub use request::Request;
pub use response::Response;
pub use server::{Server, DEFAULT_BUFFER_SIZE};
