//! Settings of the global block.

use vstd::prelude::*;
use crate::duplicate::Duplicate;

verus! {

/// How much of automatic HTTPS is on.
#[derive(Debug, Clone, Copy, PartialEq, Eq, Structural)]
pub enum AutoHttpsMode {
    On,
    Off,
    DisableRedirects,
}

impl DeepView for AutoHttpsMode {
    type V = AutoHttpsMode;

    open spec fn deep_view(&self) -> AutoHttpsMode {
        *self
    }
}

impl Duplicate for AutoHttpsMode {
    fn duplicate(&self) -> Self {
        *self
    }
}

/// An HTTP version offered to clients.
#[derive(Debug, Clone, Copy, PartialEq, Eq, Structural)]
pub enum Protocol {
    H1,
    H2,
    H3,
}

impl DeepView for Protocol {
    type V = Protocol;

    open spec fn deep_view(&self) -> Protocol {
        *self
    }
}

impl Duplicate for Protocol {
    fn duplicate(&self) -> Self {
        *self
    }
}

/// Detail options of the `metrics` block.
#[derive(Debug, Clone, Copy, PartialEq, Eq, Structural)]
pub struct MetricsOptions {
    pub per_host: bool,
    pub observe_catchall_hosts: bool,
    pub otlp: bool,
}

impl DeepView for MetricsOptions {
    type V = MetricsOptions;

    open spec fn deep_view(&self) -> MetricsOptions {
        *self
    }
}

impl Duplicate for MetricsOptions {
    fn duplicate(&self) -> Self {
        *self
    }
}

impl MetricsOptions {
    /// Nothing configured.
    pub open spec fn none() -> MetricsOptions {
        MetricsOptions { per_host: false, observe_catchall_hosts: false, otlp: false }
    }

    /// Nothing configured.
    pub fn unset() -> (r: MetricsOptions)
        ensures
            r == MetricsOptions::none(),
    {
        MetricsOptions { per_host: false, observe_catchall_hosts: false, otlp: false }
    }
}

/// The admin endpoint.
#[derive(Debug, PartialEq, Eq)]
pub struct AdminDirective {
    pub listen: String,
    pub enabled: bool,
    /// The bearer token a caller must present.
    pub api_key: Option<String>,
    /// Browser origins allowed besides the listen address.
    pub origins: Vec<String>,
    pub enforce_origin: bool,
}

/// The mathematical value of a [`AdminDirective`].
#[verifier::ext_equal]
pub struct AdminDirectiveV {
    pub listen: Seq<char>,
    pub enabled: bool,
    pub api_key: Option<Seq<char>>,
    pub origins: Seq<Seq<char>>,
    pub enforce_origin: bool,
}

impl DeepView for AdminDirective {
    type V = AdminDirectiveV;

    open spec fn deep_view(&self) -> AdminDirectiveV {
        AdminDirectiveV {
            listen: self.listen.deep_view(),
            enabled: self.enabled.deep_view(),
            api_key: self.api_key.deep_view(),
            origins: self.origins.deep_view(),
            enforce_origin: self.enforce_origin.deep_view(),
        }
    }
}

impl Duplicate for AdminDirective {
    fn duplicate(&self) -> Self {
        AdminDirective {
            listen: self.listen.duplicate(),
            enabled: self.enabled.duplicate(),
            api_key: self.api_key.duplicate(),
            origins: self.origins.duplicate(),
            enforce_origin: self.enforce_origin.duplicate(),
        }
    }
}

/// A DNS provider and what it was given.
#[derive(Debug, PartialEq, Eq)]
pub struct DnsProvider {
    pub name: String,
    pub arguments: Vec<String>,
}

/// The mathematical value of a [`DnsProvider`].
#[verifier::ext_equal]
pub struct DnsProviderV {
    pub name: Seq<char>,
    pub arguments: Seq<Seq<char>>,
}

impl DeepView for DnsProvider {
    type V = DnsProviderV;

    open spec fn deep_view(&self) -> DnsProviderV {
        DnsProviderV {
            name: self.name.deep_view(),
            arguments: self.arguments.deep_view(),
        }
    }
}

impl Duplicate for DnsProvider {
    fn duplicate(&self) -> Self {
        DnsProvider {
            name: self.name.duplicate(),
            arguments: self.arguments.duplicate(),
        }
    }
}

/// Which certificate chain to prefer.
#[derive(Debug, PartialEq, Eq)]
pub enum PreferredChains {
    Smallest,
    AnyCommonName(Vec<String>),
    RootCommonName(Vec<String>),
}

/// The mathematical value of a [`PreferredChains`].
#[verifier::ext_equal]
pub enum PreferredChainsV {
    Smallest,
    AnyCommonName(Seq<Seq<char>>),
    RootCommonName(Seq<Seq<char>>),
}

impl DeepView for PreferredChains {
    type V = PreferredChainsV;

    open spec fn deep_view(&self) -> PreferredChainsV {
        match self {
            PreferredChains::Smallest => PreferredChainsV::Smallest,
            PreferredChains::AnyCommonName(a) => PreferredChainsV::AnyCommonName(a.deep_view()),
            PreferredChains::RootCommonName(a) => PreferredChainsV::RootCommonName(a.deep_view()),
        }
    }
}

impl Duplicate for PreferredChains {
    fn duplicate(&self) -> Self {
        match self {
            PreferredChains::Smallest => PreferredChains::Smallest,
            PreferredChains::AnyCommonName(a) => PreferredChains::AnyCommonName(a.duplicate()),
            PreferredChains::RootCommonName(a) => PreferredChains::RootCommonName(a.duplicate()),
        }
    }
}

} // verus!
