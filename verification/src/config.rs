//! The in-memory configuration of the engine: the DDNS entries to update,
//! the address sources keyed by identifier, and the triggers that decide
//! when an update cycle runs.

use vstd::prelude::*;

verus! {

/// Which IP protocol version an interface-based source accepts.
#[derive(Clone, Copy, Debug, PartialEq, Eq)]
pub enum IpVersion {
    /// Only IPv4 addresses qualify.
    V4,
    /// Only IPv6 addresses qualify.
    V6,
    /// The first qualifying address of either version is taken.
    Any,
}

/// How the value for one address identifier is obtained.
#[derive(Clone, Debug, PartialEq)]
pub enum IpAddress {
    /// Read from a local network interface whose name matches the pattern.
    FromInterface { interface: String, version: IpVersion },
    /// Looked up in the externally supplied address map at resolution time.
    FromParameter { parameter: String },
    /// A fixed literal value that never varies.
    Static { address: String },
}

/// One address source, bound to the identifier that names it.
#[derive(Clone, Debug, PartialEq)]
pub struct AddressSourceEntry {
    pub name: String,
    pub source: IpAddress,
}

/// One update target: a URL template with `{identifier}` placeholders and
/// optional credentials for HTTP basic authentication.
#[derive(Clone, Debug, PartialEq)]
pub struct DdnsEntry {
    pub url: String,
    pub username: Option<String>,
    pub password: Option<String>,
}

/// When update cycles run: on a fixed interval, or on inbound HTTP requests.
#[derive(Clone, Debug, PartialEq)]
pub enum Trigger {
    Http { bind: String, port: u16, path: String },
    Timed { interval: u64 },
}

/// A complete engine configuration. It is immutable for the process
/// lifetime; every update cycle only reads it.
#[derive(Clone, Debug, PartialEq)]
pub struct Config {
    pub ddns_entries: Vec<DdnsEntry>,
    pub ip_addresses: Vec<AddressSourceEntry>,
    pub triggers: Vec<Trigger>,
}

} // verus!
