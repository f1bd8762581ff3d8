//! How the server is to be run.

use crate::boundary::upstream_view;
use crate::boundary::url_from;
use crate::boundary::url_parse;
use crate::text::host_and_port;
use crate::text::join_host_and_port;
use url::Url;
use vstd::prelude::*;

verus! {

/// Runtime configuration for the proxy server. `Addr` is what the server is
/// bound to, `File` the path of a file.
#[derive(Debug, Clone)]
pub struct Config<Addr, File> {
    /// Base URL of the upstream git server (e.g. `https://github.com`).
    pub upstream: Url,
    /// Socket address the proxy should listen on.
    pub addr: Addr,
    /// Optional path to a PEM-encoded TLS certificate (enables HTTPS).
    pub cert: Option<File>,
    /// Optional path to a PEM-encoded TLS private key (enables HTTPS).
    pub key: Option<File>,
}

/// What the server speaks.
pub enum Listen<File> {
    /// Plain HTTP.
    Http,
    /// HTTPS, with this certificate file and this key file.
    Https { cert: File, key: File },
}

/// What is wrong with a configuration.
#[derive(Debug)]
pub enum ConfigError {
    /// The upstream is not a URL, for this reason.
    InvalidUpstream(String),
    /// There is a certificate without a key or a key without a certificate.
    IncompleteTls,
}

impl<Addr, File> Config<Addr, File> {
    /// What the server is to speak: HTTP when `cert` and `key` are absent, HTTPS
    /// when both are given, and nothing when only one of them is.
    pub fn listen(&self) -> (r: Result<Listen<&File>, ConfigError>)
        ensures
            match (self.cert, self.key) {
                (Some(cert), Some(key)) => r == Ok::<Listen<&File>, ConfigError>(
                    Listen::Https { cert: &cert, key: &key },
                ),
                (None, None) => r == Ok::<Listen<&File>, ConfigError>(Listen::Http),
                _ => r == Err::<Listen<&File>, ConfigError>(ConfigError::IncompleteTls),
            },
            r is Ok <==> (self.cert is Some <==> self.key is Some),
            r is Ok && r->Ok_0 is Http ==> self.cert is None && self.key is None,
            r is Ok && r->Ok_0 is Https ==> self.cert == Some(*r->Ok_0->cert) && self.key == Some(
                *r->Ok_0->key,
            ),
    {
        match (&self.cert, &self.key) {
            (Some(cert), Some(key)) => Ok(Listen::Https { cert, key }),
            (None, None) => Ok(Listen::Http),
            _ => Err(ConfigError::IncompleteTls),
        }
    }
}

/// Reads the base URL of the upstream server.
pub fn parse_upstream(text: &str) -> (r: Result<Url, ConfigError>)
    ensures
        match url_parse(text@) {
            Ok(v) => r is Ok && upstream_view(r->Ok_0) == v,
            Err(e) => r is Err && r->Err_0 is InvalidUpstream && r->Err_0->InvalidUpstream_0@ == e,
        },
{
    match url_from(text) {
        Ok(u) => Ok(u),
        Err(e) => Err(ConfigError::InvalidUpstream(e)),
    }
}

/// The address that the server is bound to, as text: `hostname:port`.
pub fn bind_address(hostname: &str, port: u16) -> (r: String)
    ensures
        r@ == host_and_port(hostname@, port),
{
    join_host_and_port(hostname, port)
}

impl ConfigError {
    /// What is wrong, in words.
    pub fn message(&self) -> (r: String)
        ensures
            r@ == (match self {
                ConfigError::InvalidUpstream(_) => "Invalid upstream URL"@,
                ConfigError::IncompleteTls =>
                    "Both --cert and --key must be provided together to enable HTTPS, or omit both to use plain HTTP"@,
            }),
    {
        match self {
            ConfigError::InvalidUpstream(_) => "Invalid upstream URL".to_owned(),
            ConfigError::IncompleteTls =>
                "Both --cert and --key must be provided together to enable HTTPS, or omit both to use plain HTTP".to_owned(),
        }
    }
}

} // verus!
