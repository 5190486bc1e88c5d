//! Core of a small static-file HTTP server: request parsing, access
//! policy, traversal-safe path resolution, in-memory file cache, and
//! response assembly, all specified and verified down to the bytes on
//! the wire.
use vstd::prelude::*;

pub mod assoc;
pub mod configuration;
pub mod cors;
pub mod error;
pub mod file;
pub mod headers;
pub mod htmlbuilder;
pub mod http;
pub mod response;
pub mod server;
pub mod socket;
pub mod state;
pub mod status;
pub mod store;
pub mod text;
pub mod time;
pub mod uri;

verus! {

use crate::configuration::Config;
use crate::text::ascii_of;
use crate::text::lit_vec;

/// Resolve a caller's partial bind settings: a given address and port are
/// kept, missing ones fall back to the loopback address and port 80.
pub fn init_builder(config: Config) -> (r: Config)
    ensures
        r.addr is Some,
        config.addr is Some ==> r.addr->Some_0@ == config.addr->Some_0@,
        config.addr is None ==> r.addr->Some_0@ == ascii_of("127.0.0.1"),
        config.port is Some ==> r.port == config.port,
        config.port is None ==> r.port == Some(80u16),
        r.debug_info == config.debug_info,
{
    proof {
        reveal_strlit("127.0.0.1");
    }
    let mut final_config = Config {
        addr: Some(lit_vec("127.0.0.1")),
        port: Some(80),
        debug_info: false,
    };
    if config.addr.is_some() {
        final_config.addr = config.addr;
    }
    if config.port.is_some() {
        final_config.port = config.port;
    }
    if config.debug_info {
        final_config.debug_info = true;
    }
    final_config
}

/// The stock bind settings: every interface, port 80, no extra output.
pub fn init() -> (r: Config)
    ensures
        r.addr is Some,
        r.addr->Some_0@ == ascii_of("0.0.0.0"),
        r.port == Some(80u16),
        !r.debug_info,
{
    proof {
        reveal_strlit("0.0.0.0");
    }
    Config { addr: Some(lit_vec("0.0.0.0")), port: Some(80), debug_info: false }
}

} // verus!
