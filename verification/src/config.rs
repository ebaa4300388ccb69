//! The settings of one proxied service, as plain values.

use vstd::prelude::*;
use crate::clock::Span;
use crate::flow::IpAddress;

verus! {

/// The settings read from the configuration file.
pub struct Config {
    pub service_name: String,
    pub client_ip: IpAddress,
    pub client_port: u16,
    pub server_ip: IpAddress,
    pub server_port: u16,
    pub client_timeout: Span,
    pub server_timeout: Span,
    pub client_max_history: u64,
    pub server_max_history: u64,
    pub tls_enabled: bool,
    pub tls_cert_file: Option<String>,
    pub tls_key_file: Option<String>,
    pub tls_ca_file: Option<String>,
    pub python_script: Option<String>,
    pub http_enabled: bool,
    pub http_keep_alive: bool,
    pub http_half_close: bool,
    pub http_date_header: bool,
    pub http_max_body: u64,
    pub dump_enabled: bool,
    pub dump_path: Option<String>,
    pub dump_format: Option<String>,
    pub dump_interval: Option<Span>,
    pub dump_max_packets: usize,
}

/// The idle timeout of a direction when none is configured: 30 seconds.
pub fn default_timeout() -> (t: Span)
    ensures
        t == (Span { secs: 30, nanos: 0 }),
{
    Span::from_secs(30)
}

/// The history ceiling of a direction when none is configured: 512 MiB.
pub fn default_max_history() -> (n: u64)
    ensures
        n == 512 * 1024 * 1024,
{
    536_870_912
}

/// The number of packets per capture window when none is configured.
pub fn default_max_packets() -> (n: usize)
    ensures
        n == 512,
{
    512
}

} // verus!
