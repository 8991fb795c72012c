//! Server configuration, read once at startup and shared read-only by every
//! connection.

use vstd::prelude::*;

verus! {

/// The settings of the server: where the content lives, where to listen, and
/// whether a directory is served through its index file.
#[derive(Debug)]
pub struct ServerConfig {
    /// The directory under which all servable paths resolve; absent means the
    /// working directory.
    pub content_root: Option<String>,
    /// The address to bind; absent means the default address.
    pub address: Option<String>,
    /// Whether a request that resolves to a directory is retargeted to the
    /// index file inside it.
    pub implicit_index: bool,
}

/// The top of the configuration file.
#[derive(Debug)]
pub struct Config {
    pub server: ServerConfig,
}

} // verus!
