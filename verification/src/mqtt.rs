//! The broker connection: the options with which a printer is reached, and
//! the subscription that is kept alive on it.

use vstd::prelude::*;
use vstd::string::StringExecFns;
use crate::config::PrinterConfig;

pub mod subscription;

verus! {

/// Seconds between two pings of the broker.
pub const KEEP_ALIVE_SECS: u64 = 30;

/// The number of requests that may wait for the connection.
pub const REQUEST_CAPACITY: usize = 10;

/// The options with which the connection to a printer's broker is made.
#[derive(Debug)]
pub struct ConnectOptions {
    pub client_id: String,
    pub host: String,
    pub port: u16,
    pub username: String,
    pub password: String,
    /// Whether transport security is required. The printers sign their own
    /// certificates, so the certificate chain is not validated.
    pub use_tls: bool,
    pub keep_alive_secs: u64,
    pub request_capacity: usize,
}

impl ConnectOptions {
    /// The options for the printer of `config`: its address and port, the
    /// fixed client and user names with its access code for the password,
    /// and transport security as the profile asks.
    pub fn for_printer(config: &PrinterConfig) -> (options: Self)
        ensures
            options.client_id@ == "pulseprint-cli"@,
            options.host == config.ip,
            options.port == config.port,
            options.username@ == "bblp"@,
            options.password == config.access_code,
            options.use_tls == config.use_tls,
            options.keep_alive_secs == KEEP_ALIVE_SECS,
            options.request_capacity == REQUEST_CAPACITY,
    {
        ConnectOptions {
            client_id: String::from_str("pulseprint-cli"),
            host: config.ip.clone(),
            port: config.port,
            username: String::from_str("bblp"),
            password: config.access_code.clone(),
            use_tls: config.use_tls,
            keep_alive_secs: KEEP_ALIVE_SECS,
            request_capacity: REQUEST_CAPACITY,
        }
    }
}

} // verus!
