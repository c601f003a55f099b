//! A dynamic-DNS reconciliation library for a Cloudflare-compatible DNS
//! management API: typed wire shapes, their encoding and decoding, and the
//! decision logic that keeps one address record pointing at a desired IPv4
//! address.  All network transport stays with the caller: the library builds
//! requests as plain bytes and interprets response bytes.

pub mod auth;
pub mod cf;
pub mod cf_base;
pub mod decode;
pub mod encode;
pub mod laws;
pub mod text;
