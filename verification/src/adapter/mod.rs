//! From directives to the typed form of a configuration.

pub mod address_laws;
pub mod addresses;
pub mod argument_laws;
pub mod args;
pub mod block_laws;
pub mod caddyfile;
pub mod configuration_laws;
pub mod content;
pub mod directives;
pub mod dynamic;
pub mod extended;
pub mod handle_groups;
pub mod handler_laws;
pub mod handlers;
pub mod imports;
pub mod limits;
pub mod logs;
pub mod matcher_laws;
pub mod matcher_sets;
pub mod matchers;
pub mod option_laws;
pub mod options;
pub mod order;
pub mod order_laws;
pub mod policies;
pub mod policy_laws;
pub mod profile;
pub mod proxy_laws;
pub mod ranks;
pub mod registry;
pub mod registry_laws;
pub mod response_laws;
pub mod responses;
pub mod reverse_proxy;
pub mod retry_expr;
pub mod retry_laws;
pub mod retry_match;
pub mod route_order;
pub mod settings;
pub mod settings_laws;
pub mod site_laws;
pub mod sites;
pub mod tls;
pub mod transport;
pub mod upstream_laws;
pub mod upstreams;
pub mod use_laws;
