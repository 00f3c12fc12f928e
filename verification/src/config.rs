//! Server settings.

use vstd::prelude::*;

verus! {

/// Where the server listens, and how long a connection may stay silent.
#[derive(Debug, Clone)]
pub struct ServerConfig {
    pub bind_addr: String,
    /// The read and write timeout of a connection, in seconds.
    pub readwrite_timeout_secs: u64,
}

/// The default listening address: every interface, port 25565.
pub open spec fn default_bind_addr() -> Seq<char> {
    "0.0.0.0:25565"@
}

impl Default for ServerConfig {
    /// Listens on every interface at port 25565, with a 30 second timeout.
    fn default() -> (c: ServerConfig)
        ensures
            c.bind_addr@ == default_bind_addr(),
            c.readwrite_timeout_secs == 30,
    {
        ServerConfig { bind_addr: "0.0.0.0:25565".to_string(), readwrite_timeout_secs: 30 }
    }
}

} // verus!
