//! What holds of the tables of names.

use crate::adapter::registry;
use crate::text;
use vstd::prelude::*;

verus! {

proof fn lemma_implemented_directives()
    ensures
        text::alphabetical(registry::implemented_directives()),
        registry::implemented_directives().no_duplicates(),
{
    let list = registry::implemented_directives();
    reveal_strlit("access_control");
    reveal_strlit("basic_auth");
    reveal_strlit("basicauth");
    reveal_strlit("bind");
    reveal_strlit("compress");
    reveal_strlit("cors");
    reveal_strlit("encode");
    reveal_strlit("error");
    reveal_strlit("error_page");
    reveal_strlit("file_server");
    reveal_strlit("forward_auth");
    reveal_strlit("gzip_types");
    reveal_strlit("handle");
    reveal_strlit("handle_errors");
    reveal_strlit("handle_path");
    reveal_strlit("header");
    reveal_strlit("import");
    reveal_strlit("intercept");
    reveal_strlit("limits");
    reveal_strlit("listen");
    reveal_strlit("log");
    reveal_strlit("log_skip");
    reveal_strlit("php_fastcgi");
    reveal_strlit("rate_limit");
    reveal_strlit("redir");
    reveal_strlit("redirect");
    reveal_strlit("respond");
    reveal_strlit("reverse_proxy");
    reveal_strlit("rewrite");
    reveal_strlit("root");
    reveal_strlit("route");
    reveal_strlit("templates");
    reveal_strlit("tls");
    reveal_strlit("try_files");
    reveal_strlit("uri");
    reveal_strlit("vars");
    text::lemma_sooner_at("access_control"@, "basic_auth"@, 0);
    text::lemma_sooner_at("basic_auth"@, "basicauth"@, 5);
    text::lemma_sooner_at("basicauth"@, "bind"@, 1);
    text::lemma_sooner_at("bind"@, "compress"@, 0);
    text::lemma_sooner_at("compress"@, "cors"@, 2);
    text::lemma_sooner_at("cors"@, "encode"@, 0);
    text::lemma_sooner_at("encode"@, "error"@, 1);
    text::lemma_sooner_at("error"@, "error_page"@, 5);
    text::lemma_sooner_at("error_page"@, "file_server"@, 0);
    text::lemma_sooner_at("file_server"@, "forward_auth"@, 1);
    text::lemma_sooner_at("forward_auth"@, "gzip_types"@, 0);
    text::lemma_sooner_at("gzip_types"@, "handle"@, 0);
    text::lemma_sooner_at("handle"@, "handle_errors"@, 6);
    text::lemma_sooner_at("handle_errors"@, "handle_path"@, 7);
    text::lemma_sooner_at("handle_path"@, "header"@, 1);
    text::lemma_sooner_at("header"@, "import"@, 0);
    text::lemma_sooner_at("import"@, "intercept"@, 1);
    text::lemma_sooner_at("intercept"@, "limits"@, 0);
    text::lemma_sooner_at("limits"@, "listen"@, 2);
    text::lemma_sooner_at("listen"@, "log"@, 1);
    text::lemma_sooner_at("log"@, "log_skip"@, 3);
    text::lemma_sooner_at("log_skip"@, "php_fastcgi"@, 0);
    text::lemma_sooner_at("php_fastcgi"@, "rate_limit"@, 0);
    text::lemma_sooner_at("rate_limit"@, "redir"@, 1);
    text::lemma_sooner_at("redir"@, "redirect"@, 5);
    text::lemma_sooner_at("redirect"@, "respond"@, 2);
    text::lemma_sooner_at("respond"@, "reverse_proxy"@, 2);
    text::lemma_sooner_at("reverse_proxy"@, "rewrite"@, 2);
    text::lemma_sooner_at("rewrite"@, "root"@, 1);
    text::lemma_sooner_at("root"@, "route"@, 2);
    text::lemma_sooner_at("route"@, "templates"@, 0);
    text::lemma_sooner_at("templates"@, "tls"@, 1);
    text::lemma_sooner_at("tls"@, "try_files"@, 1);
    text::lemma_sooner_at("try_files"@, "uri"@, 0);
    text::lemma_sooner_at("uri"@, "vars"@, 0);
    assert forall|i: int| 0 < i < list.len() implies text::sooner(list[i - 1], #[trigger] list[i]) by {}
    text::lemma_alphabetical(list);
}

proof fn lemma_recognised_directives()
    ensures
        text::alphabetical(registry::recognised_directives()),
        registry::recognised_directives().no_duplicates(),
{
    let list = registry::recognised_directives();
    reveal_strlit("abort");
    reveal_strlit("acme_server");
    reveal_strlit("copy_response");
    reveal_strlit("copy_response_headers");
    reveal_strlit("fs");
    reveal_strlit("invoke");
    reveal_strlit("log_append");
    reveal_strlit("log_name");
    reveal_strlit("map");
    reveal_strlit("method");
    reveal_strlit("metrics");
    reveal_strlit("push");
    reveal_strlit("request_body");
    reveal_strlit("request_header");
    reveal_strlit("skip_log");
    reveal_strlit("tracing");
    text::lemma_sooner_at("abort"@, "acme_server"@, 1);
    text::lemma_sooner_at("acme_server"@, "copy_response"@, 0);
    text::lemma_sooner_at("copy_response"@, "copy_response_headers"@, 13);
    text::lemma_sooner_at("copy_response_headers"@, "fs"@, 0);
    text::lemma_sooner_at("fs"@, "invoke"@, 0);
    text::lemma_sooner_at("invoke"@, "log_append"@, 0);
    text::lemma_sooner_at("log_append"@, "log_name"@, 4);
    text::lemma_sooner_at("log_name"@, "map"@, 0);
    text::lemma_sooner_at("map"@, "method"@, 1);
    text::lemma_sooner_at("method"@, "metrics"@, 3);
    text::lemma_sooner_at("metrics"@, "push"@, 0);
    text::lemma_sooner_at("push"@, "request_body"@, 0);
    text::lemma_sooner_at("request_body"@, "request_header"@, 8);
    text::lemma_sooner_at("request_header"@, "skip_log"@, 0);
    text::lemma_sooner_at("skip_log"@, "tracing"@, 0);
    assert forall|i: int| 0 < i < list.len() implies text::sooner(list[i - 1], #[trigger] list[i]) by {}
    text::lemma_alphabetical(list);
}

proof fn lemma_implemented_options()
    ensures
        text::alphabetical(registry::implemented_options()),
        registry::implemented_options().no_duplicates(),
{
    let list = registry::implemented_options();
    reveal_strlit("admin");
    reveal_strlit("auto_https");
    reveal_strlit("debug");
    reveal_strlit("dns_refresh");
    reveal_strlit("email");
    reveal_strlit("grace_period");
    reveal_strlit("http_port");
    reveal_strlit("https_port");
    reveal_strlit("local_certs");
    reveal_strlit("log");
    reveal_strlit("metrics");
    reveal_strlit("order");
    reveal_strlit("persist_config");
    reveal_strlit("protocols");
    reveal_strlit("trusted_proxies");
    text::lemma_sooner_at("admin"@, "auto_https"@, 1);
    text::lemma_sooner_at("auto_https"@, "debug"@, 0);
    text::lemma_sooner_at("debug"@, "dns_refresh"@, 1);
    text::lemma_sooner_at("dns_refresh"@, "email"@, 0);
    text::lemma_sooner_at("email"@, "grace_period"@, 0);
    text::lemma_sooner_at("grace_period"@, "http_port"@, 0);
    text::lemma_sooner_at("http_port"@, "https_port"@, 4);
    text::lemma_sooner_at("https_port"@, "local_certs"@, 0);
    text::lemma_sooner_at("local_certs"@, "log"@, 2);
    text::lemma_sooner_at("log"@, "metrics"@, 0);
    text::lemma_sooner_at("metrics"@, "order"@, 0);
    text::lemma_sooner_at("order"@, "persist_config"@, 0);
    text::lemma_sooner_at("persist_config"@, "protocols"@, 1);
    text::lemma_sooner_at("protocols"@, "trusted_proxies"@, 0);
    assert forall|i: int| 0 < i < list.len() implies text::sooner(list[i - 1], #[trigger] list[i]) by {}
    text::lemma_alphabetical(list);
}

proof fn lemma_recognised_options()
    ensures
        text::alphabetical(registry::recognised_options()),
        registry::recognised_options().no_duplicates(),
{
    let list = registry::recognised_options();
    reveal_strlit("acme_ca");
    reveal_strlit("acme_ca_root");
    reveal_strlit("acme_dns");
    reveal_strlit("acme_eab");
    reveal_strlit("cert_issuer");
    reveal_strlit("cert_lifetime");
    reveal_strlit("default_bind");
    reveal_strlit("default_sni");
    reveal_strlit("dns");
    reveal_strlit("ech");
    reveal_strlit("events");
    reveal_strlit("fallback_sni");
    reveal_strlit("filesystem");
    reveal_strlit("frankenphp");
    reveal_strlit("key_type");
    reveal_strlit("ocsp_interval");
    reveal_strlit("ocsp_stapling");
    reveal_strlit("on_demand_tls");
    reveal_strlit("pki");
    reveal_strlit("preferred_chains");
    reveal_strlit("renew_interval");
    reveal_strlit("renewal_window_ratio");
    reveal_strlit("shutdown_delay");
    reveal_strlit("skip_install_trust");
    reveal_strlit("storage");
    reveal_strlit("storage_clean_interval");
    text::lemma_sooner_at("acme_ca"@, "acme_ca_root"@, 7);
    text::lemma_sooner_at("acme_ca_root"@, "acme_dns"@, 5);
    text::lemma_sooner_at("acme_dns"@, "acme_eab"@, 5);
    text::lemma_sooner_at("acme_eab"@, "cert_issuer"@, 0);
    text::lemma_sooner_at("cert_issuer"@, "cert_lifetime"@, 5);
    text::lemma_sooner_at("cert_lifetime"@, "default_bind"@, 0);
    text::lemma_sooner_at("default_bind"@, "default_sni"@, 8);
    text::lemma_sooner_at("default_sni"@, "dns"@, 1);
    text::lemma_sooner_at("dns"@, "ech"@, 0);
    text::lemma_sooner_at("ech"@, "events"@, 1);
    text::lemma_sooner_at("events"@, "fallback_sni"@, 0);
    text::lemma_sooner_at("fallback_sni"@, "filesystem"@, 1);
    text::lemma_sooner_at("filesystem"@, "frankenphp"@, 1);
    text::lemma_sooner_at("frankenphp"@, "key_type"@, 0);
    text::lemma_sooner_at("key_type"@, "ocsp_interval"@, 0);
    text::lemma_sooner_at("ocsp_interval"@, "ocsp_stapling"@, 5);
    text::lemma_sooner_at("ocsp_stapling"@, "on_demand_tls"@, 1);
    text::lemma_sooner_at("on_demand_tls"@, "pki"@, 0);
    text::lemma_sooner_at("pki"@, "preferred_chains"@, 1);
    text::lemma_sooner_at("preferred_chains"@, "renew_interval"@, 0);
    text::lemma_sooner_at("renew_interval"@, "renewal_window_ratio"@, 5);
    text::lemma_sooner_at("renewal_window_ratio"@, "shutdown_delay"@, 0);
    text::lemma_sooner_at("shutdown_delay"@, "skip_install_trust"@, 1);
    text::lemma_sooner_at("skip_install_trust"@, "storage"@, 1);
    text::lemma_sooner_at("storage"@, "storage_clean_interval"@, 7);
    assert forall|i: int| 0 < i < list.len() implies text::sooner(list[i - 1], #[trigger] list[i]) by {}
    text::lemma_alphabetical(list);
}

proof fn lemma_directives_are_apart()
    ensures
        forall|i: int|
            0 <= i < registry::recognised_directives().len() ==> !registry::implemented_directives().contains(
                #[trigger] registry::recognised_directives()[i],
            ),
{
    let list = registry::implemented_directives();
    let others = registry::recognised_directives();
    lemma_implemented_directives();
    reveal_strlit("abort");
    reveal_strlit("access_control");
    reveal_strlit("acme_server");
    reveal_strlit("basic_auth");
    reveal_strlit("compress");
    reveal_strlit("copy_response");
    reveal_strlit("copy_response_headers");
    reveal_strlit("cors");
    reveal_strlit("forward_auth");
    reveal_strlit("fs");
    reveal_strlit("gzip_types");
    reveal_strlit("intercept");
    reveal_strlit("invoke");
    reveal_strlit("limits");
    reveal_strlit("log");
    reveal_strlit("log_append");
    reveal_strlit("log_name");
    reveal_strlit("log_skip");
    reveal_strlit("map");
    reveal_strlit("method");
    reveal_strlit("metrics");
    reveal_strlit("php_fastcgi");
    reveal_strlit("push");
    reveal_strlit("rate_limit");
    reveal_strlit("redirect");
    reveal_strlit("request_body");
    reveal_strlit("request_header");
    reveal_strlit("respond");
    reveal_strlit("route");
    reveal_strlit("skip_log");
    reveal_strlit("templates");
    reveal_strlit("tls");
    reveal_strlit("tracing");
    reveal_strlit("try_files");
    text::lemma_sooner_at("abort"@, "access_control"@, 1);
    text::lemma_not_listed(list, "abort"@, 0);
    text::lemma_sooner_at("access_control"@, "acme_server"@, 2);
    text::lemma_sooner_at("acme_server"@, "basic_auth"@, 0);
    text::lemma_not_listed(list, "acme_server"@, 1);
    text::lemma_sooner_at("compress"@, "copy_response"@, 2);
    text::lemma_sooner_at("copy_response"@, "cors"@, 2);
    text::lemma_not_listed(list, "copy_response"@, 5);
    text::lemma_sooner_at("compress"@, "copy_response_headers"@, 2);
    text::lemma_sooner_at("copy_response_headers"@, "cors"@, 2);
    text::lemma_not_listed(list, "copy_response_headers"@, 5);
    text::lemma_sooner_at("forward_auth"@, "fs"@, 1);
    text::lemma_sooner_at("fs"@, "gzip_types"@, 0);
    text::lemma_not_listed(list, "fs"@, 11);
    text::lemma_sooner_at("intercept"@, "invoke"@, 2);
    text::lemma_sooner_at("invoke"@, "limits"@, 0);
    text::lemma_not_listed(list, "invoke"@, 18);
    text::lemma_sooner_at("log"@, "log_append"@, 3);
    text::lemma_sooner_at("log_append"@, "log_skip"@, 4);
    text::lemma_not_listed(list, "log_append"@, 21);
    text::lemma_sooner_at("log"@, "log_name"@, 3);
    text::lemma_sooner_at("log_name"@, "log_skip"@, 4);
    text::lemma_not_listed(list, "log_name"@, 21);
    text::lemma_sooner_at("log_skip"@, "map"@, 0);
    text::lemma_sooner_at("map"@, "php_fastcgi"@, 0);
    text::lemma_not_listed(list, "map"@, 22);
    text::lemma_sooner_at("log_skip"@, "method"@, 0);
    text::lemma_sooner_at("method"@, "php_fastcgi"@, 0);
    text::lemma_not_listed(list, "method"@, 22);
    text::lemma_sooner_at("log_skip"@, "metrics"@, 0);
    text::lemma_sooner_at("metrics"@, "php_fastcgi"@, 0);
    text::lemma_not_listed(list, "metrics"@, 22);
    text::lemma_sooner_at("php_fastcgi"@, "push"@, 1);
    text::lemma_sooner_at("push"@, "rate_limit"@, 0);
    text::lemma_not_listed(list, "push"@, 23);
    text::lemma_sooner_at("redirect"@, "request_body"@, 2);
    text::lemma_sooner_at("request_body"@, "respond"@, 2);
    text::lemma_not_listed(list, "request_body"@, 26);
    text::lemma_sooner_at("redirect"@, "request_header"@, 2);
    text::lemma_sooner_at("request_header"@, "respond"@, 2);
    text::lemma_not_listed(list, "request_header"@, 26);
    text::lemma_sooner_at("route"@, "skip_log"@, 0);
    text::lemma_sooner_at("skip_log"@, "templates"@, 0);
    text::lemma_not_listed(list, "skip_log"@, 31);
    text::lemma_sooner_at("tls"@, "tracing"@, 1);
    text::lemma_sooner_at("tracing"@, "try_files"@, 2);
    text::lemma_not_listed(list, "tracing"@, 33);
    assert forall|i: int| 0 <= i < others.len() implies !list.contains(#[trigger] others[i]) by {}
}

proof fn lemma_options_are_apart()
    ensures
        forall|i: int|
            0 <= i < registry::recognised_options().len() ==> !registry::implemented_options().contains(
                #[trigger] registry::recognised_options()[i],
            ),
{
    let list = registry::implemented_options();
    let others = registry::recognised_options();
    lemma_implemented_options();
    reveal_strlit("acme_ca");
    reveal_strlit("acme_ca_root");
    reveal_strlit("acme_dns");
    reveal_strlit("acme_eab");
    reveal_strlit("admin");
    reveal_strlit("auto_https");
    reveal_strlit("cert_issuer");
    reveal_strlit("cert_lifetime");
    reveal_strlit("debug");
    reveal_strlit("default_bind");
    reveal_strlit("default_sni");
    reveal_strlit("dns");
    reveal_strlit("dns_refresh");
    reveal_strlit("ech");
    reveal_strlit("email");
    reveal_strlit("events");
    reveal_strlit("fallback_sni");
    reveal_strlit("filesystem");
    reveal_strlit("frankenphp");
    reveal_strlit("grace_period");
    reveal_strlit("https_port");
    reveal_strlit("key_type");
    reveal_strlit("local_certs");
    reveal_strlit("metrics");
    reveal_strlit("ocsp_interval");
    reveal_strlit("ocsp_stapling");
    reveal_strlit("on_demand_tls");
    reveal_strlit("order");
    reveal_strlit("persist_config");
    reveal_strlit("pki");
    reveal_strlit("preferred_chains");
    reveal_strlit("protocols");
    reveal_strlit("renew_interval");
    reveal_strlit("renewal_window_ratio");
    reveal_strlit("shutdown_delay");
    reveal_strlit("skip_install_trust");
    reveal_strlit("storage");
    reveal_strlit("storage_clean_interval");
    reveal_strlit("trusted_proxies");
    text::lemma_sooner_at("acme_ca"@, "admin"@, 1);
    text::lemma_not_listed(list, "acme_ca"@, 0);
    text::lemma_sooner_at("acme_ca_root"@, "admin"@, 1);
    text::lemma_not_listed(list, "acme_ca_root"@, 0);
    text::lemma_sooner_at("acme_dns"@, "admin"@, 1);
    text::lemma_not_listed(list, "acme_dns"@, 0);
    text::lemma_sooner_at("acme_eab"@, "admin"@, 1);
    text::lemma_not_listed(list, "acme_eab"@, 0);
    text::lemma_sooner_at("auto_https"@, "cert_issuer"@, 0);
    text::lemma_sooner_at("cert_issuer"@, "debug"@, 0);
    text::lemma_not_listed(list, "cert_issuer"@, 2);
    text::lemma_sooner_at("auto_https"@, "cert_lifetime"@, 0);
    text::lemma_sooner_at("cert_lifetime"@, "debug"@, 0);
    text::lemma_not_listed(list, "cert_lifetime"@, 2);
    text::lemma_sooner_at("debug"@, "default_bind"@, 2);
    text::lemma_sooner_at("default_bind"@, "dns_refresh"@, 1);
    text::lemma_not_listed(list, "default_bind"@, 3);
    text::lemma_sooner_at("debug"@, "default_sni"@, 2);
    text::lemma_sooner_at("default_sni"@, "dns_refresh"@, 1);
    text::lemma_not_listed(list, "default_sni"@, 3);
    text::lemma_sooner_at("debug"@, "dns"@, 1);
    text::lemma_sooner_at("dns"@, "dns_refresh"@, 3);
    text::lemma_not_listed(list, "dns"@, 3);
    text::lemma_sooner_at("dns_refresh"@, "ech"@, 0);
    text::lemma_sooner_at("ech"@, "email"@, 1);
    text::lemma_not_listed(list, "ech"@, 4);
    text::lemma_sooner_at("email"@, "events"@, 1);
    text::lemma_sooner_at("events"@, "grace_period"@, 0);
    text::lemma_not_listed(list, "events"@, 5);
    text::lemma_sooner_at("email"@, "fallback_sni"@, 0);
    text::lemma_sooner_at("fallback_sni"@, "grace_period"@, 0);
    text::lemma_not_listed(list, "fallback_sni"@, 5);
    text::lemma_sooner_at("email"@, "filesystem"@, 0);
    text::lemma_sooner_at("filesystem"@, "grace_period"@, 0);
    text::lemma_not_listed(list, "filesystem"@, 5);
    text::lemma_sooner_at("email"@, "frankenphp"@, 0);
    text::lemma_sooner_at("frankenphp"@, "grace_period"@, 0);
    text::lemma_not_listed(list, "frankenphp"@, 5);
    text::lemma_sooner_at("https_port"@, "key_type"@, 0);
    text::lemma_sooner_at("key_type"@, "local_certs"@, 0);
    text::lemma_not_listed(list, "key_type"@, 8);
    text::lemma_sooner_at("metrics"@, "ocsp_interval"@, 0);
    text::lemma_sooner_at("ocsp_interval"@, "order"@, 1);
    text::lemma_not_listed(list, "ocsp_interval"@, 11);
    text::lemma_sooner_at("metrics"@, "ocsp_stapling"@, 0);
    text::lemma_sooner_at("ocsp_stapling"@, "order"@, 1);
    text::lemma_not_listed(list, "ocsp_stapling"@, 11);
    text::lemma_sooner_at("metrics"@, "on_demand_tls"@, 0);
    text::lemma_sooner_at("on_demand_tls"@, "order"@, 1);
    text::lemma_not_listed(list, "on_demand_tls"@, 11);
    text::lemma_sooner_at("persist_config"@, "pki"@, 1);
    text::lemma_sooner_at("pki"@, "protocols"@, 1);
    text::lemma_not_listed(list, "pki"@, 13);
    text::lemma_sooner_at("persist_config"@, "preferred_chains"@, 1);
    text::lemma_sooner_at("preferred_chains"@, "protocols"@, 2);
    text::lemma_not_listed(list, "preferred_chains"@, 13);
    text::lemma_sooner_at("protocols"@, "renew_interval"@, 0);
    text::lemma_sooner_at("renew_interval"@, "trusted_proxies"@, 0);
    text::lemma_not_listed(list, "renew_interval"@, 14);
    text::lemma_sooner_at("protocols"@, "renewal_window_ratio"@, 0);
    text::lemma_sooner_at("renewal_window_ratio"@, "trusted_proxies"@, 0);
    text::lemma_not_listed(list, "renewal_window_ratio"@, 14);
    text::lemma_sooner_at("protocols"@, "shutdown_delay"@, 0);
    text::lemma_sooner_at("shutdown_delay"@, "trusted_proxies"@, 0);
    text::lemma_not_listed(list, "shutdown_delay"@, 14);
    text::lemma_sooner_at("protocols"@, "skip_install_trust"@, 0);
    text::lemma_sooner_at("skip_install_trust"@, "trusted_proxies"@, 0);
    text::lemma_not_listed(list, "skip_install_trust"@, 14);
    text::lemma_sooner_at("protocols"@, "storage"@, 0);
    text::lemma_sooner_at("storage"@, "trusted_proxies"@, 0);
    text::lemma_not_listed(list, "storage"@, 14);
    text::lemma_sooner_at("protocols"@, "storage_clean_interval"@, 0);
    text::lemma_sooner_at("storage_clean_interval"@, "trusted_proxies"@, 0);
    text::lemma_not_listed(list, "storage_clean_interval"@, 14);
    assert forall|i: int| 0 <= i < others.len() implies !list.contains(#[trigger] others[i]) by {}
}

proof fn lemma_options_are_no_directives()
    ensures
        forall|i: int|
            0 <= i < registry::recognised_options().len() ==> !registry::implemented_directives().contains(
                #[trigger] registry::recognised_options()[i],
            ),
{
    let list = registry::implemented_directives();
    let others = registry::recognised_options();
    lemma_implemented_directives();
    reveal_strlit("access_control");
    reveal_strlit("acme_ca");
    reveal_strlit("acme_ca_root");
    reveal_strlit("acme_dns");
    reveal_strlit("acme_eab");
    reveal_strlit("basic_auth");
    reveal_strlit("bind");
    reveal_strlit("cert_issuer");
    reveal_strlit("cert_lifetime");
    reveal_strlit("compress");
    reveal_strlit("cors");
    reveal_strlit("default_bind");
    reveal_strlit("default_sni");
    reveal_strlit("dns");
    reveal_strlit("ech");
    reveal_strlit("encode");
    reveal_strlit("error_page");
    reveal_strlit("events");
    reveal_strlit("fallback_sni");
    reveal_strlit("file_server");
    reveal_strlit("filesystem");
    reveal_strlit("forward_auth");
    reveal_strlit("frankenphp");
    reveal_strlit("gzip_types");
    reveal_strlit("intercept");
    reveal_strlit("key_type");
    reveal_strlit("limits");
    reveal_strlit("log_skip");
    reveal_strlit("ocsp_interval");
    reveal_strlit("ocsp_stapling");
    reveal_strlit("on_demand_tls");
    reveal_strlit("php_fastcgi");
    reveal_strlit("pki");
    reveal_strlit("preferred_chains");
    reveal_strlit("rate_limit");
    reveal_strlit("redirect");
    reveal_strlit("renew_interval");
    reveal_strlit("renewal_window_ratio");
    reveal_strlit("respond");
    reveal_strlit("route");
    reveal_strlit("shutdown_delay");
    reveal_strlit("skip_install_trust");
    reveal_strlit("storage");
    reveal_strlit("storage_clean_interval");
    reveal_strlit("templates");
    text::lemma_sooner_at("access_control"@, "acme_ca"@, 2);
    text::lemma_sooner_at("acme_ca"@, "basic_auth"@, 0);
    text::lemma_not_listed(list, "acme_ca"@, 1);
    text::lemma_sooner_at("access_control"@, "acme_ca_root"@, 2);
    text::lemma_sooner_at("acme_ca_root"@, "basic_auth"@, 0);
    text::lemma_not_listed(list, "acme_ca_root"@, 1);
    text::lemma_sooner_at("access_control"@, "acme_dns"@, 2);
    text::lemma_sooner_at("acme_dns"@, "basic_auth"@, 0);
    text::lemma_not_listed(list, "acme_dns"@, 1);
    text::lemma_sooner_at("access_control"@, "acme_eab"@, 2);
    text::lemma_sooner_at("acme_eab"@, "basic_auth"@, 0);
    text::lemma_not_listed(list, "acme_eab"@, 1);
    text::lemma_sooner_at("bind"@, "cert_issuer"@, 0);
    text::lemma_sooner_at("cert_issuer"@, "compress"@, 1);
    text::lemma_not_listed(list, "cert_issuer"@, 4);
    text::lemma_sooner_at("bind"@, "cert_lifetime"@, 0);
    text::lemma_sooner_at("cert_lifetime"@, "compress"@, 1);
    text::lemma_not_listed(list, "cert_lifetime"@, 4);
    text::lemma_sooner_at("cors"@, "default_bind"@, 0);
    text::lemma_sooner_at("default_bind"@, "encode"@, 0);
    text::lemma_not_listed(list, "default_bind"@, 6);
    text::lemma_sooner_at("cors"@, "default_sni"@, 0);
    text::lemma_sooner_at("default_sni"@, "encode"@, 0);
    text::lemma_not_listed(list, "default_sni"@, 6);
    text::lemma_sooner_at("cors"@, "dns"@, 0);
    text::lemma_sooner_at("dns"@, "encode"@, 0);
    text::lemma_not_listed(list, "dns"@, 6);
    text::lemma_sooner_at("cors"@, "ech"@, 0);
    text::lemma_sooner_at("ech"@, "encode"@, 1);
    text::lemma_not_listed(list, "ech"@, 6);
    text::lemma_sooner_at("error_page"@, "events"@, 1);
    text::lemma_sooner_at("events"@, "file_server"@, 0);
    text::lemma_not_listed(list, "events"@, 9);
    text::lemma_sooner_at("error_page"@, "fallback_sni"@, 0);
    text::lemma_sooner_at("fallback_sni"@, "file_server"@, 1);
    text::lemma_not_listed(list, "fallback_sni"@, 9);
    text::lemma_sooner_at("file_server"@, "filesystem"@, 4);
    text::lemma_sooner_at("filesystem"@, "forward_auth"@, 1);
    text::lemma_not_listed(list, "filesystem"@, 10);
    text::lemma_sooner_at("forward_auth"@, "frankenphp"@, 1);
    text::lemma_sooner_at("frankenphp"@, "gzip_types"@, 0);
    text::lemma_not_listed(list, "frankenphp"@, 11);
    text::lemma_sooner_at("intercept"@, "key_type"@, 0);
    text::lemma_sooner_at("key_type"@, "limits"@, 0);
    text::lemma_not_listed(list, "key_type"@, 18);
    text::lemma_sooner_at("log_skip"@, "ocsp_interval"@, 0);
    text::lemma_sooner_at("ocsp_interval"@, "php_fastcgi"@, 0);
    text::lemma_not_listed(list, "ocsp_interval"@, 22);
    text::lemma_sooner_at("log_skip"@, "ocsp_stapling"@, 0);
    text::lemma_sooner_at("ocsp_stapling"@, "php_fastcgi"@, 0);
    text::lemma_not_listed(list, "ocsp_stapling"@, 22);
    text::lemma_sooner_at("log_skip"@, "on_demand_tls"@, 0);
    text::lemma_sooner_at("on_demand_tls"@, "php_fastcgi"@, 0);
    text::lemma_not_listed(list, "on_demand_tls"@, 22);
    text::lemma_sooner_at("php_fastcgi"@, "pki"@, 1);
    text::lemma_sooner_at("pki"@, "rate_limit"@, 0);
    text::lemma_not_listed(list, "pki"@, 23);
    text::lemma_sooner_at("php_fastcgi"@, "preferred_chains"@, 1);
    text::lemma_sooner_at("preferred_chains"@, "rate_limit"@, 0);
    text::lemma_not_listed(list, "preferred_chains"@, 23);
    text::lemma_sooner_at("redirect"@, "renew_interval"@, 2);
    text::lemma_sooner_at("renew_interval"@, "respond"@, 2);
    text::lemma_not_listed(list, "renew_interval"@, 26);
    text::lemma_sooner_at("redirect"@, "renewal_window_ratio"@, 2);
    text::lemma_sooner_at("renewal_window_ratio"@, "respond"@, 2);
    text::lemma_not_listed(list, "renewal_window_ratio"@, 26);
    text::lemma_sooner_at("route"@, "shutdown_delay"@, 0);
    text::lemma_sooner_at("shutdown_delay"@, "templates"@, 0);
    text::lemma_not_listed(list, "shutdown_delay"@, 31);
    text::lemma_sooner_at("route"@, "skip_install_trust"@, 0);
    text::lemma_sooner_at("skip_install_trust"@, "templates"@, 0);
    text::lemma_not_listed(list, "skip_install_trust"@, 31);
    text::lemma_sooner_at("route"@, "storage"@, 0);
    text::lemma_sooner_at("storage"@, "templates"@, 0);
    text::lemma_not_listed(list, "storage"@, 31);
    text::lemma_sooner_at("route"@, "storage_clean_interval"@, 0);
    text::lemma_sooner_at("storage_clean_interval"@, "templates"@, 0);
    text::lemma_not_listed(list, "storage_clean_interval"@, 31);
    assert forall|i: int| 0 <= i < others.len() implies !list.contains(#[trigger] others[i]) by {}
}

proof fn lemma_refused_names_are_apart()
    ensures
        forall|i: int|
            0 <= i < registry::recognised_options().len() ==> !registry::recognised_directives().contains(
                #[trigger] registry::recognised_options()[i],
            ),
{
    let list = registry::recognised_directives();
    let others = registry::recognised_options();
    lemma_recognised_directives();
    reveal_strlit("abort");
    reveal_strlit("acme_ca");
    reveal_strlit("acme_ca_root");
    reveal_strlit("acme_dns");
    reveal_strlit("acme_eab");
    reveal_strlit("acme_server");
    reveal_strlit("cert_issuer");
    reveal_strlit("cert_lifetime");
    reveal_strlit("copy_response");
    reveal_strlit("copy_response_headers");
    reveal_strlit("default_bind");
    reveal_strlit("default_sni");
    reveal_strlit("dns");
    reveal_strlit("ech");
    reveal_strlit("events");
    reveal_strlit("fallback_sni");
    reveal_strlit("filesystem");
    reveal_strlit("frankenphp");
    reveal_strlit("fs");
    reveal_strlit("invoke");
    reveal_strlit("key_type");
    reveal_strlit("log_append");
    reveal_strlit("metrics");
    reveal_strlit("ocsp_interval");
    reveal_strlit("ocsp_stapling");
    reveal_strlit("on_demand_tls");
    reveal_strlit("pki");
    reveal_strlit("preferred_chains");
    reveal_strlit("push");
    reveal_strlit("renew_interval");
    reveal_strlit("renewal_window_ratio");
    reveal_strlit("request_body");
    reveal_strlit("request_header");
    reveal_strlit("shutdown_delay");
    reveal_strlit("skip_install_trust");
    reveal_strlit("skip_log");
    reveal_strlit("storage");
    reveal_strlit("storage_clean_interval");
    reveal_strlit("tracing");
    text::lemma_sooner_at("abort"@, "acme_ca"@, 1);
    text::lemma_sooner_at("acme_ca"@, "acme_server"@, 5);
    text::lemma_not_listed(list, "acme_ca"@, 1);
    text::lemma_sooner_at("abort"@, "acme_ca_root"@, 1);
    text::lemma_sooner_at("acme_ca_root"@, "acme_server"@, 5);
    text::lemma_not_listed(list, "acme_ca_root"@, 1);
    text::lemma_sooner_at("abort"@, "acme_dns"@, 1);
    text::lemma_sooner_at("acme_dns"@, "acme_server"@, 5);
    text::lemma_not_listed(list, "acme_dns"@, 1);
    text::lemma_sooner_at("abort"@, "acme_eab"@, 1);
    text::lemma_sooner_at("acme_eab"@, "acme_server"@, 5);
    text::lemma_not_listed(list, "acme_eab"@, 1);
    text::lemma_sooner_at("acme_server"@, "cert_issuer"@, 0);
    text::lemma_sooner_at("cert_issuer"@, "copy_response"@, 1);
    text::lemma_not_listed(list, "cert_issuer"@, 2);
    text::lemma_sooner_at("acme_server"@, "cert_lifetime"@, 0);
    text::lemma_sooner_at("cert_lifetime"@, "copy_response"@, 1);
    text::lemma_not_listed(list, "cert_lifetime"@, 2);
    text::lemma_sooner_at("copy_response_headers"@, "default_bind"@, 0);
    text::lemma_sooner_at("default_bind"@, "fs"@, 0);
    text::lemma_not_listed(list, "default_bind"@, 4);
    text::lemma_sooner_at("copy_response_headers"@, "default_sni"@, 0);
    text::lemma_sooner_at("default_sni"@, "fs"@, 0);
    text::lemma_not_listed(list, "default_sni"@, 4);
    text::lemma_sooner_at("copy_response_headers"@, "dns"@, 0);
    text::lemma_sooner_at("dns"@, "fs"@, 0);
    text::lemma_not_listed(list, "dns"@, 4);
    text::lemma_sooner_at("copy_response_headers"@, "ech"@, 0);
    text::lemma_sooner_at("ech"@, "fs"@, 0);
    text::lemma_not_listed(list, "ech"@, 4);
    text::lemma_sooner_at("copy_response_headers"@, "events"@, 0);
    text::lemma_sooner_at("events"@, "fs"@, 0);
    text::lemma_not_listed(list, "events"@, 4);
    text::lemma_sooner_at("copy_response_headers"@, "fallback_sni"@, 0);
    text::lemma_sooner_at("fallback_sni"@, "fs"@, 1);
    text::lemma_not_listed(list, "fallback_sni"@, 4);
    text::lemma_sooner_at("copy_response_headers"@, "filesystem"@, 0);
    text::lemma_sooner_at("filesystem"@, "fs"@, 1);
    text::lemma_not_listed(list, "filesystem"@, 4);
    text::lemma_sooner_at("copy_response_headers"@, "frankenphp"@, 0);
    text::lemma_sooner_at("frankenphp"@, "fs"@, 1);
    text::lemma_not_listed(list, "frankenphp"@, 4);
    text::lemma_sooner_at("invoke"@, "key_type"@, 0);
    text::lemma_sooner_at("key_type"@, "log_append"@, 0);
    text::lemma_not_listed(list, "key_type"@, 6);
    text::lemma_sooner_at("metrics"@, "ocsp_interval"@, 0);
    text::lemma_sooner_at("ocsp_interval"@, "push"@, 0);
    text::lemma_not_listed(list, "ocsp_interval"@, 11);
    text::lemma_sooner_at("metrics"@, "ocsp_stapling"@, 0);
    text::lemma_sooner_at("ocsp_stapling"@, "push"@, 0);
    text::lemma_not_listed(list, "ocsp_stapling"@, 11);
    text::lemma_sooner_at("metrics"@, "on_demand_tls"@, 0);
    text::lemma_sooner_at("on_demand_tls"@, "push"@, 0);
    text::lemma_not_listed(list, "on_demand_tls"@, 11);
    text::lemma_sooner_at("metrics"@, "pki"@, 0);
    text::lemma_sooner_at("pki"@, "push"@, 1);
    text::lemma_not_listed(list, "pki"@, 11);
    text::lemma_sooner_at("metrics"@, "preferred_chains"@, 0);
    text::lemma_sooner_at("preferred_chains"@, "push"@, 1);
    text::lemma_not_listed(list, "preferred_chains"@, 11);
    text::lemma_sooner_at("push"@, "renew_interval"@, 0);
    text::lemma_sooner_at("renew_interval"@, "request_body"@, 2);
    text::lemma_not_listed(list, "renew_interval"@, 12);
    text::lemma_sooner_at("push"@, "renewal_window_ratio"@, 0);
    text::lemma_sooner_at("renewal_window_ratio"@, "request_body"@, 2);
    text::lemma_not_listed(list, "renewal_window_ratio"@, 12);
    text::lemma_sooner_at("request_header"@, "shutdown_delay"@, 0);
    text::lemma_sooner_at("shutdown_delay"@, "skip_log"@, 1);
    text::lemma_not_listed(list, "shutdown_delay"@, 14);
    text::lemma_sooner_at("request_header"@, "skip_install_trust"@, 0);
    text::lemma_sooner_at("skip_install_trust"@, "skip_log"@, 5);
    text::lemma_not_listed(list, "skip_install_trust"@, 14);
    text::lemma_sooner_at("skip_log"@, "storage"@, 1);
    text::lemma_sooner_at("storage"@, "tracing"@, 0);
    text::lemma_not_listed(list, "storage"@, 15);
    text::lemma_sooner_at("skip_log"@, "storage_clean_interval"@, 1);
    text::lemma_sooner_at("storage_clean_interval"@, "tracing"@, 0);
    text::lemma_not_listed(list, "storage_clean_interval"@, 15);
    assert forall|i: int| 0 <= i < others.len() implies !list.contains(#[trigger] others[i]) by {}
}

/// Each table is in alphabetical order, and lists no name twice.
pub proof fn each_table_is_in_alphabetical_order()
    ensures
        text::alphabetical(registry::implemented_directives()),
        text::alphabetical(registry::recognised_directives()),
        text::alphabetical(registry::implemented_options()),
        text::alphabetical(registry::recognised_options()),
        registry::implemented_directives().no_duplicates(),
        registry::recognised_directives().no_duplicates(),
        registry::implemented_options().no_duplicates(),
        registry::recognised_options().no_duplicates(),
{
    lemma_implemented_directives();
    lemma_recognised_directives();
    lemma_implemented_options();
    lemma_recognised_options();
}

/// No directive is both implemented and refused, nor is a global option.
pub proof fn no_name_is_both_implemented_and_refused(name: Seq<char>)
    ensures
        !(registry::implemented_directives().contains(name)
            && registry::recognised_directives().contains(name)),
        !(registry::implemented_options().contains(name)
            && registry::recognised_options().contains(name)),
{
    lemma_directives_are_apart();
    lemma_options_are_apart();
}

/// The names that are refused are all different, and none of them is an implemented directive.
pub proof fn refused_names_are_different_and_not_implemented()
    ensures
        registry::refused_names().len() == 42,
        registry::refused_names().no_duplicates(),
        forall|i: int|
            0 <= i < registry::refused_names().len()
                ==> !registry::implemented_directives().contains(
                #[trigger] registry::refused_names()[i],
            ),
{
    let all = registry::refused_names();
    let first = registry::recognised_directives();
    let second = registry::recognised_options();
    let n = first.len() as int;
    each_table_is_in_alphabetical_order();
    lemma_directives_are_apart();
    lemma_options_are_no_directives();
    lemma_refused_names_are_apart();
    assert forall|i: int, j: int|
        0 <= i < all.len() && 0 <= j < all.len() && i != j implies all[i] != all[j] by {
        if i < n && j < n {
            assert(first[i] != first[j]);
        } else if i >= n && j >= n {
            assert(second[i - n] != second[j - n]);
        } else if i < n {
            assert(!first.contains(second[j - n]));
            assert(first.contains(first[i]));
        } else {
            assert(!first.contains(second[i - n]));
            assert(first.contains(first[j]));
        }
    }
    assert forall|i: int| 0 <= i < all.len() implies !registry::implemented_directives().contains(
        #[trigger] all[i],
    ) by {
        if i < n {
            assert(all[i] == first[i]);
        } else {
            assert(all[i] == second[i - n]);
        }
    }
}

} // verus!
