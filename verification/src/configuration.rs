//! The settings a deployment runs the cache with.

use vstd::prelude::*;

verus! {

/// The settings the connection layer starts the cache with: the port to
/// listen on and the directory the durable engine keeps its files in.
/// Reading these from a configuration source is the caller's business; the
/// library only defines their shape.
#[derive(Debug, PartialEq, Eq)]
pub struct Configuration {
    pub port: i16,
    pub storage_path: String,
}

} // verus!
