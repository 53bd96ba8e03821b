//! Verified core of the `ApiError` derive and of its runtime support.

pub use ::http as __http;

pub mod api;
pub mod attr;
pub mod attr_laws;
pub mod expand;
pub mod format;
pub mod laws;
pub mod response;
pub mod text;
pub mod tokens;
