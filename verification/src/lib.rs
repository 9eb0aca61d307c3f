//! Directory service core for human-readable payment addresses: the
//! destination model with its two encodings, the address repository with an
//! in-memory implementation, the registration/removal service, and the
//! manifest acceptance rules of the pay protocol.

pub mod api_types;
pub mod destination;
pub mod laws;
pub mod manifest;
pub mod memory;
pub mod repository;
pub mod service;
pub mod strutil;
