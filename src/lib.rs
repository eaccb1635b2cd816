//! A client for the Language Server Protocol base protocol: message framing on a
//! byte stream, JSON-RPC message envelopes, and the bookkeeping that matches
//! responses to the requests that caused them.

pub mod client;
pub mod error;
pub mod text;
pub mod transport;
pub mod types;

pub use client::{PendingRequests, Route};
pub use error::{LspError, ResponseError, Result};
