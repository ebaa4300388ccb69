//! The immutable record of one configured service.

use vstd::prelude::*;
use crate::clock::Span;
use crate::config::Config;
use crate::flow::Endpoint;
use crate::http::HttpConfig;

verus! {

/// Where the TLS material of a service is kept.
pub struct TlsFiles {
    pub cert_file: String,
    pub key_file: String,
    pub ca_file: Option<String>,
}

/// Why a configuration does not describe a service.
#[derive(Clone, Copy, Debug, PartialEq, Eq, Structural)]
pub enum ConfigError {
    /// TLS is enabled and no certificate file is named.
    TlsCertificateRequired,
    /// TLS is enabled and no key file is named.
    TlsKeyRequired,
    /// Dumping is enabled and no directory is named.
    DumpPathRequired,
    /// Dumping is enabled and no rotation interval is given.
    DumpIntervalRequired,
    /// Dumping is enabled and no file name format is given.
    DumpFormatRequired,
}

/// One proxied service: where it listens, where it connects, and its limits.
pub struct Service {
    pub name: String,
    pub client_addr: Endpoint,
    pub server_addr: Endpoint,
    pub client_timeout: Span,
    pub server_timeout: Span,
    pub client_max_history: usize,
    pub server_max_history: usize,
    pub tls_config: Option<TlsFiles>,
    pub http_config: Option<HttpConfig>,
}

/// The TLS files that a configuration names, or why it names too few.
pub open spec fn tls_of(config: &Config) -> Result<Option<TlsFiles>, ConfigError> {
    if !config.tls_enabled {
        Ok(None)
    } else if config.tls_cert_file is None {
        Err(ConfigError::TlsCertificateRequired)
    } else if config.tls_key_file is None {
        Err(ConfigError::TlsKeyRequired)
    } else {
        Ok(
            Some(
                TlsFiles {
                    cert_file: config.tls_cert_file->0,
                    key_file: config.tls_key_file->0,
                    ca_file: config.tls_ca_file,
                },
            ),
        )
    }
}

/// The HTTP settings that a configuration asks for, if it enables HTTP.
pub open spec fn http_of(config: &Config) -> Option<HttpConfig> {
    if config.http_enabled {
        Some(
            HttpConfig {
                keep_alive: config.http_keep_alive,
                half_close: config.http_half_close,
                date_header: config.http_date_header,
                max_body: config.http_max_body,
                client_timeout: config.client_timeout,
            },
        )
    } else {
        None
    }
}

/// A copy of an optional text.
fn clone_opt(s: &Option<String>) -> (c: Option<String>)
    ensures
        c == *s,
{
    match s {
        Some(text) => Some(text.clone()),
        None => None,
    }
}

impl Service {
    /// The service that `config` describes. With TLS enabled the
    /// certificate and the key must be named, in that order of complaint.
    pub fn from_config(config: &Config) -> (r: Result<Service, ConfigError>)
        ensures
            match r {
                Ok(service) => {
                    &&& tls_of(config) == Ok::<Option<TlsFiles>, ConfigError>(service.tls_config)
                    &&& service.http_config == http_of(config)
                    &&& service.name == config.service_name
                    &&& service.client_addr == (Endpoint {
                        ip: config.client_ip,
                        port: config.client_port,
                    })
                    &&& service.server_addr == (Endpoint {
                        ip: config.server_ip,
                        port: config.server_port,
                    })
                    &&& service.client_timeout == config.client_timeout
                    &&& service.server_timeout == config.server_timeout
                    &&& service.client_max_history == config.client_max_history as usize
                    &&& service.server_max_history == config.server_max_history as usize
                },
                Err(e) => tls_of(config) == Err::<Option<TlsFiles>, ConfigError>(e),
            },
    {
        let tls_config = if config.tls_enabled {
            let cert_file = match &config.tls_cert_file {
                Some(path) => path.clone(),
                None => {
                    return Err(ConfigError::TlsCertificateRequired);
                },
            };
            let key_file = match &config.tls_key_file {
                Some(path) => path.clone(),
                None => {
                    return Err(ConfigError::TlsKeyRequired);
                },
            };
            Some(TlsFiles { cert_file, key_file, ca_file: clone_opt(&config.tls_ca_file) })
        } else {
            None
        };
        let http_config = if config.http_enabled {
            match HttpConfig::new(config) {
                Ok(http) => Some(http),
                Err(e) => {
                    return Err(e);
                },
            }
        } else {
            None
        };
        Ok(
            Service {
                name: config.service_name.clone(),
                client_addr: Endpoint { ip: config.client_ip, port: config.client_port },
                server_addr: Endpoint { ip: config.server_ip, port: config.server_port },
                client_timeout: config.client_timeout,
                server_timeout: config.server_timeout,
                client_max_history: config.client_max_history as usize,
                server_max_history: config.server_max_history as usize,
                tls_config,
                http_config,
            },
        )
    }
}

impl TlsFiles {
    /// Whether the upstream certificate is verified: only where a CA
    /// file is given to verify it against.
    pub fn verifies_upstream(&self) -> (r: bool)
        ensures
            r == (self.ca_file is Some),
    {
        self.ca_file.is_some()
    }
}

impl ConfigError {
    /// The message of the error.
    pub open spec fn text(self) -> Seq<char> {
        match self {
            ConfigError::TlsCertificateRequired => "TLS certificate is required"@,
            ConfigError::TlsKeyRequired => "TLS key is required"@,
            ConfigError::DumpPathRequired => "Dump path is required"@,
            ConfigError::DumpIntervalRequired => "Dump interval is required"@,
            ConfigError::DumpFormatRequired => "Dump format is required"@,
        }
    }

    /// The message of the error.
    pub fn message(&self) -> (m: &'static str)
        ensures
            m@ == self.text(),
    {
        match self {
            ConfigError::TlsCertificateRequired => "TLS certificate is required",
            ConfigError::TlsKeyRequired => "TLS key is required",
            ConfigError::DumpPathRequired => "Dump path is required",
            ConfigError::DumpIntervalRequired => "Dump interval is required",
            ConfigError::DumpFormatRequired => "Dump format is required",
        }
    }
}

} // verus!
