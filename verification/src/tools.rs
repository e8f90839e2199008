//! Miscellaneous tools around the message model.

/// Query-string and minimal-HTTP-response views over the message model.
pub mod http;
