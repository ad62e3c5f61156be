//! Problem details (RFC 9457) error responses for request validation failures.
pub mod details;
pub mod json;
pub mod status;
pub mod validation;
