//! Request construction and authentication for the bitbank exchange API.
//!
//! The crate computes everything a call to the exchange needs short of the
//! network round trip: the nonce, the signing message, the HMAC-SHA256
//! signature, the three authentication headers, the URL and the request body.
//! It also says what an answer of the transport means for the caller.
//! Performing the HTTP call itself is left to the caller.
//!
//! Every function is verified with Verus against the contract it carries. The
//! calls into `time`, `crypto`, `rustc_serialize` and `serde_json` stand behind
//! small wrappers whose contracts are taken on trust.

pub mod client;
pub mod decimal;
pub mod hex;
pub mod json;
pub mod nonce;
pub mod request;
pub mod response;
pub mod signing;
pub mod text;

pub use client::Client;
pub use nonce::Nonce;
pub use request::{Header, Method, Request};
pub use response::{ApiError, Outcome};
