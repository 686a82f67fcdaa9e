//! Settings of a site.

use vstd::prelude::*;
use crate::duplicate::Duplicate;

verus! {

/// The scheme of a listener.
#[derive(Debug, Clone, Copy, PartialEq, Eq, Structural)]
pub enum Scheme {
    Http,
    Https,
}

impl DeepView for Scheme {
    type V = Scheme;

    open spec fn deep_view(&self) -> Scheme {
        *self
    }
}

impl Duplicate for Scheme {
    fn duplicate(&self) -> Self {
        *self
    }
}

/// One listener.
#[derive(Debug, PartialEq, Eq)]
pub struct ListenAddr {
    pub scheme: Scheme,
    pub host: String,
    pub port: Option<u16>,
    pub force_plaintext: bool,
    pub proxy_protocol: bool,
}

/// The mathematical value of a [`ListenAddr`].
#[verifier::ext_equal]
pub struct ListenAddrV {
    pub scheme: Scheme,
    pub host: Seq<char>,
    pub port: Option<u16>,
    pub force_plaintext: bool,
    pub proxy_protocol: bool,
}

impl DeepView for ListenAddr {
    type V = ListenAddrV;

    open spec fn deep_view(&self) -> ListenAddrV {
        ListenAddrV {
            scheme: self.scheme.deep_view(),
            host: self.host.deep_view(),
            port: self.port.deep_view(),
            force_plaintext: self.force_plaintext.deep_view(),
            proxy_protocol: self.proxy_protocol.deep_view(),
        }
    }
}

impl Duplicate for ListenAddr {
    fn duplicate(&self) -> Self {
        ListenAddr {
            scheme: self.scheme.duplicate(),
            host: self.host.duplicate(),
            port: self.port.duplicate(),
            force_plaintext: self.force_plaintext.duplicate(),
            proxy_protocol: self.proxy_protocol.duplicate(),
        }
    }
}

/// A content coding.
#[derive(Debug, Clone, Copy, PartialEq, Eq, Structural)]
pub enum CompressionAlgo {
    Gzip,
    Br,
    Zstd,
}

impl DeepView for CompressionAlgo {
    type V = CompressionAlgo;

    open spec fn deep_view(&self) -> CompressionAlgo {
        *self
    }
}

impl Duplicate for CompressionAlgo {
    fn duplicate(&self) -> Self {
        *self
    }
}

/// Downstream TLS.
#[derive(Debug, PartialEq, Eq)]
pub struct TlsDirective {
    pub off: bool,
    pub auto: bool,
    pub internal: bool,
    pub cert: Option<String>,
    pub key: Option<String>,
    pub acme_email: Option<String>,
    pub http3: Option<bool>,
}

/// The mathematical value of a [`TlsDirective`].
#[verifier::ext_equal]
pub struct TlsDirectiveV {
    pub off: bool,
    pub auto: bool,
    pub internal: bool,
    pub cert: Option<Seq<char>>,
    pub key: Option<Seq<char>>,
    pub acme_email: Option<Seq<char>>,
    pub http3: Option<bool>,
}

impl DeepView for TlsDirective {
    type V = TlsDirectiveV;

    open spec fn deep_view(&self) -> TlsDirectiveV {
        TlsDirectiveV {
            off: self.off.deep_view(),
            auto: self.auto.deep_view(),
            internal: self.internal.deep_view(),
            cert: self.cert.deep_view(),
            key: self.key.deep_view(),
            acme_email: self.acme_email.deep_view(),
            http3: self.http3.deep_view(),
        }
    }
}

impl Duplicate for TlsDirective {
    fn duplicate(&self) -> Self {
        TlsDirective {
            off: self.off.duplicate(),
            auto: self.auto.duplicate(),
            internal: self.internal.duplicate(),
            cert: self.cert.duplicate(),
            key: self.key.duplicate(),
            acme_email: self.acme_email.duplicate(),
            http3: self.http3.duplicate(),
        }
    }
}

impl TlsDirectiveV {
    /// Nothing configured.
    pub open spec fn unset() -> TlsDirectiveV {
        TlsDirectiveV {
            off: false,
            auto: false,
            internal: false,
            cert: None,
            key: None,
            acme_email: None,
            http3: None,
        }
    }
}

impl TlsDirective {
    /// Nothing configured.
    pub fn unset() -> (r: TlsDirective)
        ensures
            r.deep_view() == TlsDirectiveV::unset(),
    {
        let r = TlsDirective {
            off: false,
            auto: false,
            internal: false,
            cert: None,
            key: None,
            acme_email: None,
            http3: None,
        };
        assert(r.deep_view() =~= TlsDirectiveV::unset());
        r
    }
}

/// Deadlines of long connections; zero removes one.
#[derive(Debug, Clone, Copy, PartialEq, Eq, Structural)]
pub struct LongConnectionLimits {
    pub idle_timeout_ms: Option<u64>,
    pub request_timeout_ms: Option<u64>,
}

impl DeepView for LongConnectionLimits {
    type V = LongConnectionLimits;

    open spec fn deep_view(&self) -> LongConnectionLimits {
        *self
    }
}

impl Duplicate for LongConnectionLimits {
    fn duplicate(&self) -> Self {
        *self
    }
}

impl LongConnectionLimits {
    /// Nothing configured.
    pub open spec fn none() -> LongConnectionLimits {
        LongConnectionLimits { idle_timeout_ms: None, request_timeout_ms: None }
    }

    /// Nothing configured.
    pub fn unset() -> (r: LongConnectionLimits)
        ensures
            r == LongConnectionLimits::none(),
    {
        LongConnectionLimits { idle_timeout_ms: None, request_timeout_ms: None }
    }
}

/// Downstream resource limits.
#[derive(Debug, Clone, Copy, PartialEq, Eq, Structural)]
pub struct ResourceLimitsConfig {
    pub header_timeout_ms: Option<u64>,
    pub body_timeout_ms: Option<u64>,
    pub idle_timeout_ms: Option<u64>,
    pub request_timeout_ms: Option<u64>,
    pub max_header_count: Option<usize>,
    pub max_header_bytes: Option<usize>,
    pub max_connections: Option<usize>,
    pub upload_bytes_per_sec: Option<u64>,
    pub download_bytes_per_sec: Option<u64>,
    pub long_connections: LongConnectionLimits,
}

impl DeepView for ResourceLimitsConfig {
    type V = ResourceLimitsConfig;

    open spec fn deep_view(&self) -> ResourceLimitsConfig {
        *self
    }
}

impl Duplicate for ResourceLimitsConfig {
    fn duplicate(&self) -> Self {
        *self
    }
}

impl ResourceLimitsConfig {
    /// Nothing configured.
    pub open spec fn none() -> ResourceLimitsConfig {
        ResourceLimitsConfig { header_timeout_ms: None, body_timeout_ms: None, idle_timeout_ms: None, request_timeout_ms: None, max_header_count: None, max_header_bytes: None, max_connections: None, upload_bytes_per_sec: None, download_bytes_per_sec: None, long_connections: LongConnectionLimits::none() }
    }

    /// Nothing configured.
    pub fn unset() -> (r: ResourceLimitsConfig)
        ensures
            r == ResourceLimitsConfig::none(),
    {
        ResourceLimitsConfig { header_timeout_ms: None, body_timeout_ms: None, idle_timeout_ms: None, request_timeout_ms: None, max_header_count: None, max_header_bytes: None, max_connections: None, upload_bytes_per_sec: None, download_bytes_per_sec: None, long_connections: LongConnectionLimits::unset() }
    }
}

} // verus!
