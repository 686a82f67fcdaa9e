//! The names that the format defines, in one table.
//!
//! Nothing about a word tells a directive from a site address, or an unimplemented directive
//! from a typo: the answer is membership in this table.

use crate::adapter::registry_laws;
use crate::text;
use crate::text::{among, same};
use vstd::prelude::*;

verus! {

/// Whether a name is acted on, or merely recognised.
#[derive(Debug, Clone, Copy, PartialEq, Eq, Structural)]
pub enum Support {
    /// Adapted into configuration, here or, for three directives, outside this library.
    Implemented,
    /// Part of the format, and refused with a message that says so.
    Recognised,
}

/// The directives that are adapted into configuration; see [`adapted_elsewhere`] for those of
/// them that are not adapted here.
pub open spec fn implemented_directives() -> Seq<Seq<char>> {
    seq![
        "access_control"@,
        "basic_auth"@,
        "basicauth"@,
        "bind"@,
        "compress"@,
        "cors"@,
        "encode"@,
        "error"@,
        "error_page"@,
        "file_server"@,
        "forward_auth"@,
        "gzip_types"@,
        "handle"@,
        "handle_errors"@,
        "handle_path"@,
        "header"@,
        "import"@,
        "intercept"@,
        "limits"@,
        "listen"@,
        "log"@,
        "log_skip"@,
        "php_fastcgi"@,
        "rate_limit"@,
        "redir"@,
        "redirect"@,
        "respond"@,
        "reverse_proxy"@,
        "rewrite"@,
        "root"@,
        "route"@,
        "templates"@,
        "tls"@,
        "try_files"@,
        "uri"@,
        "vars"@,
    ]
}

/// The implemented directives that are adapted outside this library: here they are refused, with
/// a message that says so.
pub open spec fn adapted_elsewhere(name: Seq<char>) -> bool {
    name == "forward_auth"@ || name == "handle_errors"@ || name == "php_fastcgi"@
}

/// Whether an implemented directive is adapted outside this library.
pub fn is_adapted_elsewhere(name: &str) -> (r: bool)
    ensures
        r == adapted_elsewhere(name@),
{
    same(name, "forward_auth") || same(name, "handle_errors") || same(name, "php_fastcgi")
}

fn adapted_directives() -> (r: Vec<&'static str>)
    ensures
        r.deep_view() == implemented_directives(),
{
    let list = vec![
        "access_control",
        "basic_auth",
        "basicauth",
        "bind",
        "compress",
        "cors",
        "encode",
        "error",
        "error_page",
        "file_server",
        "forward_auth",
        "gzip_types",
        "handle",
        "handle_errors",
        "handle_path",
        "header",
        "import",
        "intercept",
        "limits",
        "listen",
        "log",
        "log_skip",
        "php_fastcgi",
        "rate_limit",
        "redir",
        "redirect",
        "respond",
        "reverse_proxy",
        "rewrite",
        "root",
        "route",
        "templates",
        "tls",
        "try_files",
        "uri",
        "vars",
    ];
    assert(list.deep_view() =~= implemented_directives());
    list
}

/// The directives that the format defines and that are refused by name.
pub open spec fn recognised_directives() -> Seq<Seq<char>> {
    seq![
        "abort"@,
        "acme_server"@,
        "copy_response"@,
        "copy_response_headers"@,
        "fs"@,
        "invoke"@,
        "log_append"@,
        "log_name"@,
        "map"@,
        "method"@,
        "metrics"@,
        "push"@,
        "request_body"@,
        "request_header"@,
        "skip_log"@,
        "tracing"@,
    ]
}

fn refused_directives() -> (r: Vec<&'static str>)
    ensures
        r.deep_view() == recognised_directives(),
{
    let list = vec![
        "abort",
        "acme_server",
        "copy_response",
        "copy_response_headers",
        "fs",
        "invoke",
        "log_append",
        "log_name",
        "map",
        "method",
        "metrics",
        "push",
        "request_body",
        "request_header",
        "skip_log",
        "tracing",
    ];
    assert(list.deep_view() =~= recognised_directives());
    list
}

/// The global options that are adapted into configuration.
pub open spec fn implemented_options() -> Seq<Seq<char>> {
    seq![
        "admin"@,
        "auto_https"@,
        "debug"@,
        "dns_refresh"@,
        "email"@,
        "grace_period"@,
        "http_port"@,
        "https_port"@,
        "local_certs"@,
        "log"@,
        "metrics"@,
        "order"@,
        "persist_config"@,
        "protocols"@,
        "trusted_proxies"@,
    ]
}

fn adapted_options() -> (r: Vec<&'static str>)
    ensures
        r.deep_view() == implemented_options(),
{
    let list = vec![
        "admin",
        "auto_https",
        "debug",
        "dns_refresh",
        "email",
        "grace_period",
        "http_port",
        "https_port",
        "local_certs",
        "log",
        "metrics",
        "order",
        "persist_config",
        "protocols",
        "trusted_proxies",
    ];
    assert(list.deep_view() =~= implemented_options());
    list
}

/// The global options that the format defines and that are listed as refused.
pub open spec fn recognised_options() -> Seq<Seq<char>> {
    seq![
        "acme_ca"@,
        "acme_ca_root"@,
        "acme_dns"@,
        "acme_eab"@,
        "cert_issuer"@,
        "cert_lifetime"@,
        "default_bind"@,
        "default_sni"@,
        "dns"@,
        "ech"@,
        "events"@,
        "fallback_sni"@,
        "filesystem"@,
        "frankenphp"@,
        "key_type"@,
        "ocsp_interval"@,
        "ocsp_stapling"@,
        "on_demand_tls"@,
        "pki"@,
        "preferred_chains"@,
        "renew_interval"@,
        "renewal_window_ratio"@,
        "shutdown_delay"@,
        "skip_install_trust"@,
        "storage"@,
        "storage_clean_interval"@,
    ]
}

fn refused_options() -> (r: Vec<&'static str>)
    ensures
        r.deep_view() == recognised_options(),
{
    let list = vec![
        "acme_ca",
        "acme_ca_root",
        "acme_dns",
        "acme_eab",
        "cert_issuer",
        "cert_lifetime",
        "default_bind",
        "default_sni",
        "dns",
        "ech",
        "events",
        "fallback_sni",
        "filesystem",
        "frankenphp",
        "key_type",
        "ocsp_interval",
        "ocsp_stapling",
        "on_demand_tls",
        "pki",
        "preferred_chains",
        "renew_interval",
        "renewal_window_ratio",
        "shutdown_delay",
        "skip_install_trust",
        "storage",
        "storage_clean_interval",
    ];
    assert(list.deep_view() =~= recognised_options());
    list
}

/// What a table of implemented and recognised names says of `name`.
pub open spec fn support(
    name: Seq<char>,
    implemented: Seq<Seq<char>>,
    recognised: Seq<Seq<char>>,
) -> Option<Support> {
    if implemented.contains(name) {
        Some(Support::Implemented)
    } else if recognised.contains(name) {
        Some(Support::Recognised)
    } else {
        None
    }
}

/// What the table says of the directive `name`.
pub open spec fn directive_support(name: Seq<char>) -> Option<Support> {
    support(name, implemented_directives(), recognised_directives())
}

/// What the table says of the global option `name`.
pub open spec fn option_support(name: Seq<char>) -> Option<Support> {
    support(name, implemented_options(), recognised_options())
}

/// Looks a directive up by name.
pub fn directive(name: &str) -> (r: Option<Support>)
    ensures
        r == directive_support(name@),
{
    if among(name, &adapted_directives()) {
        Some(Support::Implemented)
    } else if among(name, &refused_directives()) {
        Some(Support::Recognised)
    } else {
        None
    }
}

/// Looks a global option up by name.
pub fn global_option(name: &str) -> (r: Option<Support>)
    ensures
        r == option_support(name@),
{
    if among(name, &adapted_options()) {
        Some(Support::Implemented)
    } else if among(name, &refused_options()) {
        Some(Support::Recognised)
    } else {
        None
    }
}

/// Whether `name` is adapted into configuration, here or outside this library.
pub fn is_implemented_directive(name: &str) -> (r: bool)
    ensures
        r == implemented_directives().contains(name@),
{
    match directive(name) {
        Some(Support::Implemented) => true,
        _ => false,
    }
}

/// Whether a word is a directive rather than a site address.
pub fn is_directive_name(name: &str) -> (r: bool)
    ensures
        r == (directive_support(name@) is Some),
{
    directive(name).is_some()
}

/// The directives with this support, in table order.
pub fn directive_names(support: Support) -> (r: Vec<&'static str>)
    ensures
        r.deep_view() == match support {
            Support::Implemented => implemented_directives(),
            Support::Recognised => recognised_directives(),
        },
        text::alphabetical(r.deep_view()),
        r.deep_view().no_duplicates(),
{
    proof {
        registry_laws::each_table_is_in_alphabetical_order();
    }
    match support {
        Support::Implemented => adapted_directives(),
        Support::Recognised => refused_directives(),
    }
}

/// The global options with this support, in table order.
pub fn global_option_names(support: Support) -> (r: Vec<&'static str>)
    ensures
        r.deep_view() == match support {
            Support::Implemented => implemented_options(),
            Support::Recognised => recognised_options(),
        },
        text::alphabetical(r.deep_view()),
        r.deep_view().no_duplicates(),
{
    proof {
        registry_laws::each_table_is_in_alphabetical_order();
    }
    match support {
        Support::Implemented => adapted_options(),
        Support::Recognised => refused_options(),
    }
}

/// The directives and then the global options that the format defines and that are refused.
pub open spec fn refused_names() -> Seq<Seq<char>> {
    recognised_directives() + recognised_options()
}

/// Every directive and global option that the format defines and that is refused, in table order.
pub fn recognised_but_unimplemented() -> (r: Vec<&'static str>)
    ensures
        r.deep_view() == refused_names(),
        r.deep_view().no_duplicates(),
        forall|i: int|
            0 <= i < r@.len() ==> !implemented_directives().contains(
                #[trigger] r.deep_view()[i],
            ),
{
    proof {
        registry_laws::refused_names_are_different_and_not_implemented();
    }
    let mut list = refused_directives();
    let mut more = refused_options();
    let ghost held = list.deep_view();
    let ghost added = more.deep_view();
    list.append(&mut more);
    assert(list.deep_view() =~= held + added);
    list
}

} // verus!
