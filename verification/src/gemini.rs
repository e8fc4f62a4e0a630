//! Everything the Gemini protocol needs on the client side.

/// Plan a request and follow it step by step.
pub mod client;
/// The error type returned by the functions of this module.
pub mod error;
/// Represent, parse and render gemtext documents.
pub mod gemtext;
/// Represent and parse the header of a response.
pub mod header;
/// Represent a response and take its bytes apart.
pub mod response;
/// Character scanning, line splitting and decimal rendering.
pub mod text;
/// From gemtext straight to HTML.
pub mod util;

pub use client::{Client, Exchange};
pub use error::Error;
pub use gemtext::Gemtext;
pub use header::Header;
pub use response::Response;
