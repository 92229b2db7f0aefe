//! Configuration of a proxy instance: the backend client, the listeners and
//! the options common to both. Durations are in milliseconds.

use vstd::prelude::*;
use crate::addr::{is_union, Addresses, SocketAddress};
use crate::model::{binding, bindings_union};

verus! {

/// Configuration options common to both client and server.
#[derive(Clone, Copy, Debug, PartialEq, Eq, Structural)]
pub struct CommonConf {
    pub http1_writev: Option<bool>,
    pub http1_max_buf_size: Option<usize>,
    pub http1_title_case_headers: Option<bool>,
    pub http1_preserve_header_case: Option<bool>,
    pub http2_only: Option<bool>,
    pub http2_initial_stream_window_size: Option<Option<u32>>,
    pub http2_initial_connection_window_size: Option<Option<u32>>,
    pub http2_adaptive_window: Option<bool>,
    pub http2_max_frame_size: Option<Option<u32>>,
    pub http2_keep_alive_interval: Option<Option<u64>>,
    pub http2_keep_alive_timeout: Option<u64>,
    pub http2_max_send_buf_size: Option<usize>,
}

impl CommonConf {
    /// The configuration in which no option is set.
    pub open spec fn unset() -> CommonConf {
        CommonConf {
            http1_writev: None,
            http1_max_buf_size: None,
            http1_title_case_headers: None,
            http1_preserve_header_case: None,
            http2_only: None,
            http2_initial_stream_window_size: None,
            http2_initial_connection_window_size: None,
            http2_adaptive_window: None,
            http2_max_frame_size: None,
            http2_keep_alive_interval: None,
            http2_keep_alive_timeout: None,
            http2_max_send_buf_size: None,
        }
    }
}

impl Default for CommonConf {
    fn default() -> (r: Self)
        ensures
            r == CommonConf::unset(),
    {
        CommonConf {
            http1_writev: None,
            http1_max_buf_size: None,
            http1_title_case_headers: None,
            http1_preserve_header_case: None,
            http2_only: None,
            http2_initial_stream_window_size: None,
            http2_initial_connection_window_size: None,
            http2_adaptive_window: None,
            http2_max_frame_size: None,
            http2_keep_alive_interval: None,
            http2_keep_alive_timeout: None,
            http2_max_send_buf_size: None,
        }
    }
}

/// Client CA certificate configuration for the client used by a proxy.
#[derive(Clone, Debug, PartialEq, Eq)]
pub struct ClientCertConf {
    pub client_ca_cert_store_path: Option<String>,
}

/// Configuration for the HTTP client used by a proxy.
#[derive(Clone, Debug, PartialEq, Eq)]
pub struct ClientConf {
    pub pool_idle_timeout: Option<Option<u64>>,
    pub pool_max_idle_per_host: Option<usize>,
    pub retry_canceled_requests: Option<bool>,
    pub set_host: Option<bool>,
    pub http09_responses: Option<bool>,
    pub http1_read_buf_exact_size: Option<usize>,
    pub http1_allow_spaces_after_header_name_in_responses: Option<bool>,
    pub http2_keep_alive_while_idle: Option<bool>,
    pub http2_max_concurrent_reset_streams: Option<usize>,
    pub client_cert: ClientCertConf,
    pub client_common: CommonConf,
}

/// A copy of an optional string.
pub fn copy_opt_string(s: &Option<String>) -> (r: Option<String>)
    ensures
        r == *s,
{
    match s {
        Some(s) => Some(s.clone()),
        None => None,
    }
}

impl ClientConf {
    /// Whether no option of the configuration is set.
    pub open spec fn is_unset(self) -> bool {
        &&& self.pool_idle_timeout is None
        &&& self.pool_max_idle_per_host is None
        &&& self.retry_canceled_requests is None
        &&& self.set_host is None
        &&& self.http09_responses is None
        &&& self.http1_read_buf_exact_size is None
        &&& self.http1_allow_spaces_after_header_name_in_responses is None
        &&& self.http2_keep_alive_while_idle is None
        &&& self.http2_max_concurrent_reset_streams is None
        &&& self.client_cert.client_ca_cert_store_path is None
        &&& self.client_common == CommonConf::unset()
    }
}

impl Default for ClientConf {
    fn default() -> (r: Self)
        ensures
            r.is_unset(),
    {
        ClientConf {
            pool_idle_timeout: None,
            pool_max_idle_per_host: None,
            retry_canceled_requests: None,
            set_host: None,
            http09_responses: None,
            http1_read_buf_exact_size: None,
            http1_allow_spaces_after_header_name_in_responses: None,
            http2_keep_alive_while_idle: None,
            http2_max_concurrent_reset_streams: None,
            client_cert: ClientCertConf { client_ca_cert_store_path: None },
            client_common: CommonConf::default(),
        }
    }
}

impl ClientConf {
    /// A copy of this configuration.
    pub fn duplicate(&self) -> (r: Self)
        ensures
            r == *self,
    {
        ClientConf {
            pool_idle_timeout: self.pool_idle_timeout,
            pool_max_idle_per_host: self.pool_max_idle_per_host,
            retry_canceled_requests: self.retry_canceled_requests,
            set_host: self.set_host,
            http09_responses: self.http09_responses,
            http1_read_buf_exact_size: self.http1_read_buf_exact_size,
            http1_allow_spaces_after_header_name_in_responses: self.http1_allow_spaces_after_header_name_in_responses,
            http2_keep_alive_while_idle: self.http2_keep_alive_while_idle,
            http2_max_concurrent_reset_streams: self.http2_max_concurrent_reset_streams,
            client_cert: ClientCertConf {
                client_ca_cert_store_path: copy_opt_string(
                    &self.client_cert.client_ca_cert_store_path,
                ),
            },
            client_common: self.client_common,
        }
    }
}

/// Paths of the server certificate and of its private key.
#[derive(Clone, Debug, PartialEq, Eq)]
pub struct ServerCertConf {
    pub server_cert_store_path: Option<String>,
    pub server_key_path: Option<String>,
}

/// The default TCP keep-alive: five minutes.
pub fn tcp_keepalive() -> (r: Option<Option<u64>>)
    ensures
        r == Some(Some(300_000u64)),
{
    Some(Some(300_000))
}

/// By default `TCP_NODELAY` is set.
pub fn tcp_nodelay() -> (r: Option<bool>)
    ensures
        r == Some(true),
{
    Some(true)
}

/// By default the listener does not sleep on accept errors.
pub fn tcp_sleep_on_accept_errors() -> (r: Option<bool>)
    ensures
        r == Some(false),
{
    Some(false)
}

/// By default HTTP/1 connections are kept alive.
pub fn http1_keepalive() -> (r: Option<bool>)
    ensures
        r == Some(true),
{
    Some(true)
}

/// By default the server is not restricted to HTTP/1.
pub fn http1_only() -> (r: Option<bool>)
    ensures
        r == Some(false),
{
    Some(false)
}

/// Configuration for the HTTP proxy server.
#[derive(Clone, Debug, PartialEq, Eq)]
pub struct ServerConf {
    /// Default service HTTPS listening address.
    pub bind_https: Option<Addresses>,
    /// Default service HTTP listening address.
    pub bind_http: Option<Addresses>,
    /// Default public IP address / domain name information.
    pub server_name: Vec<String>,
    /// Number of CPU (worker) threads to use.
    pub cpu_threads: Option<usize>,
    pub tcp_keepalive: Option<Option<u64>>,
    pub tcp_nodelay: Option<bool>,
    pub tcp_sleep_on_accept_errors: Option<bool>,
    pub http1_keepalive: Option<bool>,
    pub http1_half_close: Option<bool>,
    pub http1_pipeline_flush: Option<bool>,
    pub http1_header_read_timeout: Option<u64>,
    pub http1_only: Option<bool>,
    pub http2_max_concurrent_streams: Option<u32>,
    pub server_cert: ServerCertConf,
    pub server_common: CommonConf,
}

/// The listener options of a server configuration: everything but the
/// bindings, the server names and the certificate paths.
pub struct ServerOptions {
    pub cpu_threads: Option<usize>,
    pub tcp_keepalive: Option<Option<u64>>,
    pub tcp_nodelay: Option<bool>,
    pub tcp_sleep_on_accept_errors: Option<bool>,
    pub http1_keepalive: Option<bool>,
    pub http1_half_close: Option<bool>,
    pub http1_pipeline_flush: Option<bool>,
    pub http1_header_read_timeout: Option<u64>,
    pub http1_only: Option<bool>,
    pub http2_max_concurrent_streams: Option<u32>,
    pub server_common: CommonConf,
}

impl ServerConf {
    /// The listener options of this configuration.
    pub open spec fn options(self) -> ServerOptions {
        ServerOptions {
            cpu_threads: self.cpu_threads,
            tcp_keepalive: self.tcp_keepalive,
            tcp_nodelay: self.tcp_nodelay,
            tcp_sleep_on_accept_errors: self.tcp_sleep_on_accept_errors,
            http1_keepalive: self.http1_keepalive,
            http1_half_close: self.http1_half_close,
            http1_pipeline_flush: self.http1_pipeline_flush,
            http1_header_read_timeout: self.http1_header_read_timeout,
            http1_only: self.http1_only,
            http2_max_concurrent_streams: self.http2_max_concurrent_streams,
            server_common: self.server_common,
        }
    }

    /// Whether `other` holds the same values as `self`.
    pub open spec fn same(self, other: ServerConf) -> bool {
        &&& binding(self.bind_https) == binding(other.bind_https)
        &&& self.bind_https is Some <==> other.bind_https is Some
        &&& binding(self.bind_http) == binding(other.bind_http)
        &&& self.bind_http is Some <==> other.bind_http is Some
        &&& self.server_name@ == other.server_name@
        &&& self.server_cert == other.server_cert
        &&& self.options() == other.options()
    }

    /// All listening addresses of the configuration, for `https` and `http`.
    pub fn addresses(&self) -> (r: Addresses)
        ensures
            r.wf(),
            is_union(r@, binding(self.bind_https), binding(self.bind_http)),
    {
        bindings_union(&self.bind_https, &self.bind_http)
    }

    /// A copy of this configuration.
    pub fn duplicate(&self) -> (r: Self)
        ensures
            self.same(r),
    {
        ServerConf {
            bind_https: copy_binding(&self.bind_https),
            bind_http: copy_binding(&self.bind_http),
            server_name: self.server_name.clone(),
            cpu_threads: self.cpu_threads,
            tcp_keepalive: self.tcp_keepalive,
            tcp_nodelay: self.tcp_nodelay,
            tcp_sleep_on_accept_errors: self.tcp_sleep_on_accept_errors,
            http1_keepalive: self.http1_keepalive,
            http1_half_close: self.http1_half_close,
            http1_pipeline_flush: self.http1_pipeline_flush,
            http1_header_read_timeout: self.http1_header_read_timeout,
            http1_only: self.http1_only,
            http2_max_concurrent_streams: self.http2_max_concurrent_streams,
            server_cert: ServerCertConf {
                server_cert_store_path: copy_opt_string(&self.server_cert.server_cert_store_path),
                server_key_path: copy_opt_string(&self.server_cert.server_key_path),
            },
            server_common: self.server_common,
        }
    }
}

/// A copy of an optional binding.
pub fn copy_binding(bind: &Option<Addresses>) -> (r: Option<Addresses>)
    ensures
        binding(r) == binding(*bind),
        r is Some <==> *bind is Some,
{
    match bind {
        Some(a) => Some(a.duplicate()),
        None => None,
    }
}

impl ServerConf {
    /// The listener options that a configuration starts with: TCP
    /// keep-alive after five minutes, `TCP_NODELAY` set, no sleep on accept
    /// errors, HTTP/1 keep-alive, both HTTP versions; nothing else is set.
    pub open spec fn default_options() -> ServerOptions {
        ServerOptions {
            cpu_threads: None,
            tcp_keepalive: Some(Some(300_000u64)),
            tcp_nodelay: Some(true),
            tcp_sleep_on_accept_errors: Some(false),
            http1_keepalive: Some(true),
            http1_half_close: None,
            http1_pipeline_flush: None,
            http1_header_read_timeout: None,
            http1_only: Some(false),
            http2_max_concurrent_streams: None,
            server_common: CommonConf::unset(),
        }
    }

    /// Whether the configuration is the one that a server starts with: no
    /// bindings, no server names, no certificate, the default options.
    pub open spec fn is_default(self) -> bool {
        &&& self.bind_https is None
        &&& self.bind_http is None
        &&& self.server_name@.len() == 0
        &&& self.server_cert.server_cert_store_path is None
        &&& self.server_cert.server_key_path is None
        &&& self.options() == ServerConf::default_options()
    }
}

impl Default for ServerConf {
    fn default() -> (r: Self)
        ensures
            r.is_default(),
    {
        ServerConf {
            bind_https: None,
            bind_http: None,
            server_name: Vec::new(),
            cpu_threads: None,
            tcp_keepalive: tcp_keepalive(),
            tcp_nodelay: tcp_nodelay(),
            tcp_sleep_on_accept_errors: tcp_sleep_on_accept_errors(),
            http1_keepalive: http1_keepalive(),
            http1_half_close: None,
            http1_pipeline_flush: None,
            http1_header_read_timeout: None,
            http1_only: http1_only(),
            http2_max_concurrent_streams: None,
            server_cert: ServerCertConf { server_cert_store_path: None, server_key_path: None },
            server_common: CommonConf::default(),
        }
    }
}

/// Management API configuration.
#[derive(Clone, Copy, Debug, PartialEq, Eq, Structural)]
pub struct ManagementConf {
    pub addr: SocketAddress,
}

/// Proxy instance configuration.
#[derive(Clone, Debug, PartialEq, Eq)]
pub struct ProxyConf {
    pub client: ClientConf,
    pub server: ServerConf,
}

impl Default for ProxyConf {
    fn default() -> (r: Self)
        ensures
            r.client.is_unset(),
            r.server.is_default(),
    {
        ProxyConf { client: ClientConf::default(), server: ServerConf::default() }
    }
}

impl ProxyConf {
    /// A copy of this configuration.
    pub fn duplicate(&self) -> (r: Self)
        ensures
            r.client == self.client,
            self.server.same(r.server),
    {
        ProxyConf { client: self.client.duplicate(), server: self.server.duplicate() }
    }
}

/// The formats in which a configuration file may be written.
#[derive(Clone, Copy, Debug, PartialEq, Eq, Structural)]
pub enum ConfFormat {
    Json,
    Toml,
    Yaml,
}

impl ConfFormat {
    /// The format that a file extension stands for, whatever the case of
    /// its letters: `json`, `toml`, `yaml` or `yml`.
    pub open spec fn of(extension: Seq<char>) -> Option<ConfFormat> {
        if crate::text::eq_ignore_ascii_case(extension, "json"@) {
            Some(ConfFormat::Json)
        } else if crate::text::eq_ignore_ascii_case(extension, "toml"@) {
            Some(ConfFormat::Toml)
        } else if crate::text::eq_ignore_ascii_case(extension, "yaml"@)
            || crate::text::eq_ignore_ascii_case(extension, "yml"@) {
            Some(ConfFormat::Yaml)
        } else {
            None
        }
    }

    /// Tells the format of a configuration file from its extension.
    pub fn from_extension(extension: &str) -> (r: Option<ConfFormat>)
        ensures
            r == ConfFormat::of(extension@),
    {
        if crate::text::str_eq_ignore_ascii_case(extension, "json") {
            Some(ConfFormat::Json)
        } else if crate::text::str_eq_ignore_ascii_case(extension, "toml") {
            Some(ConfFormat::Toml)
        } else if crate::text::str_eq_ignore_ascii_case(extension, "yaml")
            || crate::text::str_eq_ignore_ascii_case(extension, "yml") {
            Some(ConfFormat::Yaml)
        } else {
            None
        }
    }
}

} // verus!
