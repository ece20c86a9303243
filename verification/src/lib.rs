//! Request parsing and validation for a microVM metadata service
//! (MMDS) endpoint: parses raw request bodies and path tokens,
//! validates the configured pool of IPv4 addresses, and routes each
//! request to a typed outcome.

pub mod ipv4;
pub mod json;
pub mod laws;
pub mod mmds_config;
pub mod request;
