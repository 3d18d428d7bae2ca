//! What a server is started with.
use vstd::prelude::*;

verus! {

/// Where a server's TLS material comes from: PEM text of its key, its
/// certificate chain and its root certificates, for `domain`.
#[derive(Default, Debug, Clone, PartialEq, Eq)]
pub struct SslConfig {
    pub domain: String,
    pub key: String,
    pub certs: String,
    pub root_certs: String,
}

/// The settings a server runs with.
#[derive(Debug)]
pub struct ServerConfig {
    pub host: String,
    pub port: u16,
    pub ssl_config: Option<SslConfig>,
    pub client_ssl_config: Option<SslConfig>,
    pub keep_alive: bool,
    pub half_close: bool,
    pub preserve_header_case: bool,
    pub max_buf_size: usize,
}

/// The size of the read buffer a server starts with: 2 MiB.
pub const DEFAULT_MAX_BUF_SIZE: usize = 2097152;

/// The port a server listens on unless told otherwise.
pub const DEFAULT_PORT: u16 = 8080;

impl Default for ServerConfig {
    /// Listens on `localhost:8080` without TLS, keeps connections alive,
    /// allows half-closed connections, keeps the case of header names, and
    /// reads with a 2 MiB buffer.
    fn default() -> (config: Self)
        ensures
            config.host@ == "localhost"@,
            config.port == DEFAULT_PORT,
            config.ssl_config is None,
            config.client_ssl_config is None,
            config.keep_alive,
            config.half_close,
            config.preserve_header_case,
            config.max_buf_size == DEFAULT_MAX_BUF_SIZE,
            config.port == 8080,
            config.max_buf_size == 2 * 1024 * 1024,
    {
        ServerConfig {
            host: String::from_str("localhost"),
            port: DEFAULT_PORT,
            ssl_config: None,
            client_ssl_config: None,
            keep_alive: true,
            half_close: true,
            preserve_header_case: true,
            max_buf_size: DEFAULT_MAX_BUF_SIZE,
        }
    }
}

/// The address text a server binds to for its configured host: the loopback
/// address for `localhost`, the host itself otherwise.
pub open spec fn bind_host(host: Seq<char>) -> Seq<char> {
    if host == "localhost"@ {
        "127.0.0.1"@
    } else {
        host
    }
}

impl ServerConfig {
    /// The address text to bind to: see `bind_host`.
    pub fn bind_host(&self) -> (host: String)
        ensures
            host@ == bind_host(self.host@),
    {
        let localhost = String::from_str("localhost");
        if self.host == localhost {
            String::from_str("127.0.0.1")
        } else {
            self.host.clone()
        }
    }
}

/// A server configured for `localhost` binds to the loopback address
/// `127.0.0.1`; any other host is bound as it is written.
pub proof fn law_bind_host(host: Seq<char>)
    ensures
        bind_host("localhost"@) == "127.0.0.1"@,
        host != "localhost"@ ==> bind_host(host) == host,
{
}

} // verus!
