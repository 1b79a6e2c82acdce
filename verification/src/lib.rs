//! A memcached-style text-protocol cache over a durable key-value engine.
//!
//! The crate verifies the correctness-sensitive core: the wire-protocol
//! grammar and parser, the fixed-layout record codec that packs expiration
//! deadline, CAS stamp and client flags in front of every stored payload,
//! the storage engine's read-modify-write decisions, the command router and
//! the response encoder.  The durable engine itself and all I/O stay with
//! the caller, which performs the reads and writes these functions ask for.

pub mod byte_utils;
pub mod command;
pub mod configuration;
pub mod db;
pub mod laws;
pub mod parser;
pub mod record;
pub mod response;
