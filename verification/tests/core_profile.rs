//! Configurations in the core profile.

use pingclair::adapter::caddyfile::adapt;
use pingclair::ast::options::{AutoHttpsMode, Protocol};
use pingclair::ast::log::{LogFormatType, LogOutput};
use pingclair::ast::proxy::{FlushInterval, ProxyConfig};
use pingclair::ast::server::Scheme;
use pingclair::ast::tree::{Ast, Handler, HandlerElement, Matcher, RouteArm, ServerBlock};
use pingclair::error::AdapterError;
use pingclair::syntax::{Block, Directive};

// ---------------------------------------------------------------------------
// Source text
// ---------------------------------------------------------------------------
#[derive(Debug, Clone, PartialEq)]
enum Token {
    Word(String),
    Open,
    Close,
    Line,
}

fn tokens(source: &str) -> Vec<Token> {
    let text: Vec<char> = source.chars().collect();
    let mut out: Vec<Token> = Vec::new();
    let mut i: usize = 0;
    while i < text.len() {
        let c = text[i];
        if c == '\n' {
            out.push(Token::Line);
            i += 1;
        } else if c.is_whitespace() {
            i += 1;
        } else if c == '#' {
            while i < text.len() && text[i] != '\n' {
                i += 1;
            }
        } else if c == '"' {
            let mut word = String::new();
            i += 1;
            while i < text.len() && text[i] != '"' {
                word.push(text[i]);
                i += 1;
            }
            i += 1;
            out.push(Token::Word(word));
        } else if c == '}' {
            out.push(Token::Close);
            i += 1;
        } else if c == '{' && (i + 1 >= text.len() || text[i + 1].is_whitespace()) {
            out.push(Token::Open);
            i += 1;
        } else {
            let mut word = String::new();
            while i < text.len() && !text[i].is_whitespace() {
                if text[i] == '{' {
                    while i < text.len() && text[i] != '}' {
                        word.push(text[i]);
                        i += 1;
                    }
                }
                word.push(text[i]);
                i += 1;
            }
            out.push(Token::Word(word));
        }
    }
    out
}

fn directives_from(list: &[Token], at: &mut usize) -> Vec<Directive> {
    let mut out: Vec<Directive> = Vec::new();
    while *at < list.len() && list[*at] != Token::Close {
        if list[*at] == Token::Line {
            *at += 1;
            continue;
        }
        let mut words: Vec<String> = Vec::new();
        while let Some(Token::Word(word)) = list.get(*at) {
            words.push(word.clone());
            *at += 1;
        }
        let name = if words.is_empty() { String::new() } else { words.remove(0) };
        let mut block = None;
        if list.get(*at) == Some(&Token::Open) {
            *at += 1;
            let directives = directives_from(list, at);
            assert_eq!(list.get(*at), Some(&Token::Close), "a block is never closed");
            *at += 1;
            block = Some(Block { directives });
        }
        out.push(Directive { name, args: words, block });
    }
    out
}

fn parse(source: &str) -> Vec<Directive> {
    let list = tokens(source);
    let mut at: usize = 0;
    let out = directives_from(&list, &mut at);
    assert_eq!(at, list.len(), "a brace closes nothing");
    out
}

fn adapted(source: &str) -> Ast {
    match adapt(parse(source)) {
        Ok(ast) => ast,
        Err(error) => panic!("{}\n{source}", error.message()),
    }
}

fn adapt_error(source: &str) -> AdapterError {
    match adapt(parse(source)) {
        Ok(_) => panic!("must be rejected:\n{source}"),
        Err(error) => error,
    }
}

fn refusal(source: &str) -> String {
    adapt_error(source).message()
}

fn first_server(source: &str) -> ServerBlock {
    let mut ast = adapted(source);
    ast.servers.remove(0)
}

fn routes(source: &str) -> Vec<RouteArm> {
    first_server(source).routes.expect("routes")
}

fn texts(list: &[&str]) -> Vec<String> {
    list.iter().map(|s| s.to_string()).collect()
}

/// The path of a route, as the first pattern of its matcher.
fn path(arm: &RouteArm) -> String {
    match &arm.matcher {
        None => "/*".to_string(),
        Some(Matcher::Path(p)) => p.patterns[0].clone(),
        other => panic!("no path: {other:?}"),
    }
}

/// The addresses that a server listens on.
fn listen(server: &ServerBlock) -> Vec<String> {
    server
        .listens
        .iter()
        .map(|l| match l.port {
            Some(port) => format!("{}:{port}", l.host),
            None => match l.scheme {
                Scheme::Http => format!("{}:80", l.host),
                Scheme::Https => format!("{}:443", l.host),
            },
        })
        .collect()
}

fn steps(handler: &Handler) -> Vec<&Handler> {
    match handler {
        Handler::Pipeline(list) => list.iter().map(|e: &HandlerElement| &e.handler).collect(),
        other => panic!("expected a pipeline, got {other:?}"),
    }
}

// ---------------------------------------------------------------------------
// The global block
// ---------------------------------------------------------------------------
#[test]
fn test_global_block_parsing() {
    let ast = adapted(
        "{
            email admin@example.com
            auto_https off
            debug
        }",
    );
    let global = ast.global.unwrap();
    assert_eq!(global.email, Some("admin@example.com".to_string()));
    assert_eq!(global.auto_https, Some(AutoHttpsMode::Off));
    assert_eq!(global.debug, Some(true));
}

#[test]
fn test_servers_nested_global() {
    let ast = adapted(
        "{
            servers {
                protocols h1 h2
            }
        }",
    );
    let global = ast.global.unwrap();
    assert_eq!(global.protocols.len(), 2);
    assert!(global.protocols.contains(&Protocol::H1));
    assert!(global.protocols.contains(&Protocol::H2));
}

#[test]
fn test_admin_listen() {
    let ast = adapted("{\n admin 127.0.0.1:2019\n}");
    let admin = ast.global.unwrap().admin.expect("admin directive");
    assert_eq!(admin.listen, "127.0.0.1:2019");
    assert!(admin.enabled);
}

#[test]
fn test_admin_off() {
    let ast = adapted("{\n admin off\n}");
    let admin = ast.global.unwrap().admin.expect("admin directive");
    assert!(!admin.enabled);
}

#[test]
fn caddyfile_global_http_and_https_ports_parse() {
    let ast = adapted(
        "{\n    http_port 8080\n    https_port 8443\n}\nlocalhost {\n    respond \"x\"\n}",
    );
    let global = ast.global.unwrap();
    assert_eq!(global.http_port, Some(8080));
    assert_eq!(global.https_port, Some(8443));
}

#[test]
fn a_second_global_block_is_refused() {
    assert_eq!(adapt_error("{\n debug\n}\n{\n debug\n}"), AdapterError::DuplicateGlobal);
}

// ---------------------------------------------------------------------------
// Snippets and shorthand
// ---------------------------------------------------------------------------
#[test]
fn test_snippet_expansion() {
    let ast = adapted(
        r#"
            (security_headers) {
                header -Server
                header X-Content-Type-Options "nosniff"
            }

            example.com {
                listen :80
                import security_headers
                respond "Hello"
            }
        "#,
    );
    assert_eq!(ast.servers.len(), 1);
    assert!(ast.servers[0].routes.is_some());
}

#[test]
fn test_nested_import() {
    let ast = adapted(
        r#"
            (inner) {
                header X-Inner "true"
            }
            (outer) {
                import inner
                header X-Outer "true"
            }
            example.com {
                listen :80
                import outer
            }
        "#,
    );
    assert_eq!(ast.servers.len(), 1);
}

#[test]
fn snippets_that_are_missing_or_import_themselves_are_refused() {
    assert_eq!(
        adapt_error("example.com {\n import nothing\n}"),
        AdapterError::UndefinedSnippet("nothing".to_string())
    );
    assert_eq!(
        adapt_error("(loop) {\n import loop\n}\nexample.com {\n import loop\n}"),
        AdapterError::RecursiveSnippet("nesting too deep".to_string())
    );
}

#[test]
fn single_site_shorthand_collects_following_directives() {
    let ast = adapted("localhost\n\nrespond \"Hello, world!\"");
    assert_eq!(ast.servers.len(), 1);
    assert_eq!(ast.servers[0].name, "localhost");
    assert_eq!(ast.servers[0].routes.as_ref().unwrap().len(), 1);
}

#[test]
fn shorthand_supports_snippets() {
    let ast = adapted(
        "(common) {\n    header X-A b\n}\nlocalhost\n\nimport common\nrespond \"ok\"",
    );
    assert_eq!(ast.servers.len(), 1);
    let arms = ast.servers[0].routes.as_ref().unwrap();
    let list = steps(&arms[0].handler);
    assert!(list.iter().any(|h| matches!(h, Handler::Headers(_))));
    assert!(list.iter().any(|h| matches!(h, Handler::Respond(_))));
}

#[test]
fn shorthand_cannot_mix_with_braced_sites() {
    let error = refusal("localhost\n\nrespond \"x\"\nexample.com {\n    respond \"y\"\n}");
    assert!(error.contains("bare (unbraced)"));
}

// ---------------------------------------------------------------------------
// Addresses
// ---------------------------------------------------------------------------
#[test]
fn test_multi_listener_adaptation() {
    let ast = adapted(":8080 :8081 { respond \"Hello\" }");
    assert_eq!(ast.servers.len(), 1);
    let server = &ast.servers[0];
    assert_eq!(server.listens.len(), 2);
    assert_eq!(server.listens[0].port, Some(8080));
    assert_eq!(server.listens[1].port, Some(8081));
}

#[test]
fn test_http_url_address_parsing() {
    let server = first_server(
        r#"
            http://ai.408timeout.com:20615 {
                bind 127.0.0.1
                respond "OK"
            }
        "#,
    );
    assert_eq!(server.name, "ai.408timeout.com");
    assert_eq!(server.bind, Some("127.0.0.1".to_string()));
}

#[test]
fn test_hostname_address_binds_wildcard_not_hostname() {
    let server = first_server("bench.local:8080 {\n respond \"OK\"\n}");
    assert_eq!(server.name, "bench.local");
    assert_eq!(server.listens.len(), 1);
    assert_eq!(server.listens[0].host, "0.0.0.0");
    assert_eq!(server.listens[0].port, Some(8080));
}

#[test]
fn test_ip_literal_address_binds_to_that_ip() {
    for (source, expected) in [
        ("127.0.0.1:8080 { respond \"OK\" }", "127.0.0.1"),
        ("192.168.1.10 { respond \"OK\" }", "192.168.1.10"),
    ] {
        let server = first_server(source);
        assert_eq!(server.listens[0].host, expected);
    }
}

#[test]
fn caddyfile_bare_hostname_with_tls_derives_no_listener() {
    let server = first_server("example.com {\n    tls auto\n    file_server ./public\n}");
    assert!(server.listens.is_empty());
    assert!(server.tls.is_some());
    assert_eq!(server.name, "example.com");
}

#[test]
fn caddyfile_auto_https_off_keeps_bare_hostname_plaintext() {
    let ast = adapted("{\n    auto_https off\n}\nexample.com {\n    file_server ./public\n}");
    assert_eq!(ast.global.unwrap().auto_https, Some(AutoHttpsMode::Off));
    assert!(ast.servers[0].tls.is_none());
}

#[test]
fn caddyfile_explicit_schemes_still_create_listeners() {
    let https = first_server("https://example.com {\n    respond \"x\"\n}");
    assert_eq!(listen(&https), ["0.0.0.0:443"]);
    assert_eq!(https.listens[0].scheme, Scheme::Https);

    let http = first_server("http://example.com {\n    respond \"x\"\n}");
    assert_eq!(listen(&http), ["0.0.0.0:80"]);
    assert_eq!(http.listens[0].scheme, Scheme::Http);
    assert!(http.tls.is_none());
}

#[test]
fn caddyfile_explicit_listen_is_not_duplicated_or_augmented() {
    let server = first_server("example.com {\n    listen :80\n    tls auto\n}");
    assert_eq!(listen(&server), ["0.0.0.0:80"]);

    let server = first_server("example.com {\n    listen :8443\n    tls auto\n}");
    assert_eq!(listen(&server), ["0.0.0.0:8443"]);
}

#[test]
fn caddyfile_multi_listener_site_keeps_its_hostname() {
    let server = first_server("example.com {\n    listen :80\n    listen :443\n    tls auto\n}");
    assert_eq!(server.name, "example.com");
    assert_eq!(server.names, texts(&["example.com"]));
}

#[test]
fn caddyfile_multi_address_block_registers_every_hostname() {
    let server = first_server("example.com, www.example.com {\n    respond \"shared\"\n}");
    assert_eq!(server.name, "example.com");
    assert_eq!(server.names, texts(&["example.com", "www.example.com"]));
}

#[test]
fn caddyfile_catch_all_schemes_get_the_conventional_listener() {
    let https = first_server("https:// {\n    respond \"x\"\n}");
    assert_eq!(listen(&https), ["0.0.0.0:443"]);
    assert_eq!(https.listens[0].scheme, Scheme::Https);

    let http = first_server("http:// {\n    respond \"x\"\n}");
    assert_eq!(listen(&http), ["0.0.0.0:80"]);
    assert!(http.tls.is_none());
}

#[test]
fn caddyfile_ip_literal_site_binds_to_the_literal() {
    let server = first_server("127.0.0.1 {\n    respond \"x\"\n}");
    assert_eq!(listen(&server), ["127.0.0.1:80"]);
}

#[test]
fn caddyfile_bind_directive_is_carried_separately() {
    let server = first_server("example.com {\n    bind 127.0.0.1\n    tls auto\n}");
    assert_eq!(server.bind.as_deref(), Some("127.0.0.1"));
    assert!(server.listens.is_empty());
}

#[test]
fn site_address_rejects_port_range() {
    let error = refusal("localhost:8080-8085 {\n    respond \"x\"\n}");
    assert!(error.contains("port range") || error.contains("not supported"), "{error}");
}

#[test]
fn site_address_rejects_network_prefix() {
    let error = refusal("tcp/localhost:8080 {\n    respond \"x\"\n}");
    assert!(error.contains("network prefix") || error.contains("not supported"), "{error}");
}

#[test]
fn localhost_defaults_to_internal_tls() {
    let server = first_server("localhost {\n    respond \"ok\"\n}");
    assert!(server.tls.as_ref().is_some_and(|tls| tls.internal));

    let plain = first_server("http://localhost {\n    respond \"ok\"\n}");
    assert!(plain.tls.is_none());
}

// ---------------------------------------------------------------------------
// Proxies
// ---------------------------------------------------------------------------
fn proxy_from(source: &str) -> ProxyConfig {
    let mut arms = routes(source);
    match arms.remove(0).handler {
        Handler::Proxy(proxy) => *proxy,
        other => panic!("expected a Proxy handler, got {other:?}"),
    }
}

#[test]
fn test_reverse_proxy_block_parsing() {
    let proxy = proxy_from(
        r#"
            api.example.com {
                listen :80
                reverse_proxy 127.0.0.1:3000 {
                    header_up X-Forwarded-Proto https
                    header_up X-Real-IP {http.request.header.CF-Connecting-IP}
                    flush_interval -1
                    transport http {
                        read_timeout 300s
                        write_timeout 300s
                    }
                }
            }
        "#,
    );
    assert_eq!(proxy.upstreams, texts(&["127.0.0.1:3000"]));
    assert!(proxy.header_up.contains_key("X-Forwarded-Proto"));
    assert!(proxy.header_up.contains_key("X-Real-IP"));
    assert!(matches!(proxy.flush_interval, Some(FlushInterval::Immediate)));
    assert!(proxy.transport.is_some());
    let t = proxy.transport.as_ref().unwrap();
    assert_eq!(t.read_timeout, Some(300_000));
    assert_eq!(t.write_timeout, Some(300_000));
}

#[test]
fn upstream_tls_directives_reach_the_transport_block() {
    let proxy = proxy_from(
        r#"
            api.example.com {
                listen :80
                reverse_proxy https://backend.internal:8443 {
                    transport http {
                        tls
                        tls_server_name origin.internal
                        tls_trusted_ca_certs /etc/pingclair/internal-ca.pem
                        tls_client_auth /etc/pingclair/client.crt /etc/pingclair/client.key
                    }
                }
            }
        "#,
    );
    let tls = &proxy.transport.as_ref().expect("transport").tls;
    assert!(tls.enable);
    assert_eq!(tls.server_name.as_deref(), Some("origin.internal"));
    assert_eq!(tls.trusted_ca_certs, texts(&["/etc/pingclair/internal-ca.pem"]));
    assert_eq!(tls.client_cert.as_deref(), Some("/etc/pingclair/client.crt"));
    assert_eq!(tls.client_key.as_deref(), Some("/etc/pingclair/client.key"));
    assert!(!tls.insecure_skip_verify);
}

#[test]
fn several_trusted_ca_bundles_accumulate_in_order() {
    let proxy = proxy_from(
        r#"
            :80 {
                reverse_proxy https://backend:8443 {
                    transport http {
                        tls_trusted_ca_certs /a.pem /b.pem
                        tls_trusted_ca_certs /c.pem
                    }
                }
            }
        "#,
    );
    assert_eq!(
        proxy.transport.as_ref().expect("transport").tls.trusted_ca_certs,
        texts(&["/a.pem", "/b.pem", "/c.pem"])
    );
}

#[test]
fn a_lone_client_certificate_is_rejected_at_config_time() {
    let error = adapt_error(
        r#"
            :80 {
                reverse_proxy https://backend:8443 {
                    transport http { tls_client_auth /only.crt }
                }
            }
        "#,
    );
    assert!(
        matches!(&error, AdapterError::ArgumentCount(name, 2, 1) if name == "tls_client_auth"),
        "unexpected error: {error:?}"
    );
}

#[test]
fn skipping_verification_cannot_be_combined_with_pinned_roots() {
    let message = refusal(
        r#"
            :80 {
                reverse_proxy https://backend:8443 {
                    transport http {
                        tls_trusted_ca_certs /internal-ca.pem
                        tls_insecure_skip_verify
                    }
                }
            }
        "#,
    );
    assert!(message.contains("tls_trusted_ca_certs"), "{message}");
}

#[test]
fn skipping_verification_cannot_be_combined_with_an_sni_override() {
    let message = refusal(
        r#"
            :80 {
                reverse_proxy https://backend:8443 {
                    transport http {
                        tls_server_name origin.internal
                        tls_insecure_skip_verify
                    }
                }
            }
        "#,
    );
    assert!(message.contains("tls_server_name"), "{message}");
}

#[test]
fn a_bare_tls_flag_rejects_stray_arguments() {
    let error = adapt_error(
        r#"
            :80 {
                reverse_proxy backend:8443 {
                    transport http { tls off }
                }
            }
        "#,
    );
    assert!(
        matches!(&error, AdapterError::ArgumentCount(name, 0, 1) if name == "tls"),
        "unexpected error: {error:?}"
    );
}

#[test]
fn reverse_proxy_rejects_header_down_as_unsupported() {
    let error = refusal(
        r#"example.com {
                reverse_proxy localhost:8080 {
                    header_down X-Foo bar
                }
            }"#,
    );
    assert!(error.contains("header_down") && error.contains("not supported"), "{error}");
}

#[test]
fn reverse_proxy_rejects_dynamic_as_unsupported() {
    let error = refusal(
        r#"example.com {
                reverse_proxy /api/* {
                    dynamic srv _api._tcp.example.com
                }
            }"#,
    );
    assert!(error.contains("dynamic") && error.contains("not supported"), "{error}");
}

#[test]
fn reverse_proxy_rejects_unknown_subdirectives() {
    let error = refusal(
        r#"example.com {
                reverse_proxy localhost:8080 {
                    lb_try_duration 10s
                }
            }"#,
    );
    assert!(error.contains("lb_try_duration"), "{error}");
}

#[test]
fn reverse_proxy_rejects_header_up_with_extra_arguments() {
    let error = refusal(
        r#"example.com {
                reverse_proxy localhost:8080 {
                    header_up X-Foo a b
                }
            }"#,
    );
    assert!(error.contains("header_up"), "{error}");
}

#[test]
fn reverse_proxy_rejects_unix_socket_upstream() {
    let error = refusal(
        r#"example.com {
                reverse_proxy unix//run/php/php.sock
            }"#,
    );
    assert!(error.contains("Unix-socket"), "{error}");
}

#[test]
fn to_accepts_multiple_upstreams_on_one_line() {
    let proxy = proxy_from(
        "example.com {\n    reverse_proxy /service/* {\n        to 10.0.1.1:80 10.0.1.2:80 10.0.1.3:80\n    }\n}",
    );
    assert_eq!(proxy.upstreams, texts(&["10.0.1.1:80", "10.0.1.2:80", "10.0.1.3:80"]));
}

#[test]
fn upstream_port_ranges_expand_like_caddy() {
    let proxy = proxy_from("example.com {\n    reverse_proxy :9000\n}\n");
    assert_eq!(proxy.upstreams, texts(&[":9000"]));

    let ranged =
        proxy_from("example.com {\n    reverse_proxy {\n        to :9000-9002\n    }\n}\n");
    assert_eq!(ranged.upstreams, texts(&[":9000", ":9001", ":9002"]));
}

// ---------------------------------------------------------------------------
// Handlers
// ---------------------------------------------------------------------------
#[test]
fn test_respond_with_status_code() {
    let arms = routes(
        r#"
            example.com {
                listen :80
                respond "Access Denied" 403
            }
        "#,
    );
    if let Handler::Respond(cfg) = &arms[0].handler {
        assert_eq!(cfg.status, 403);
    } else {
        panic!("Expected Respond handler");
    }
}

#[test]
fn test_header_deletion_syntax() {
    let arms = routes(
        r#"
            example.com {
                listen :80
                header {
                    -Server
                    X-Content-Type-Options "nosniff"
                }
            }
        "#,
    );
    if let Handler::Headers(cfg) = &arms[0].handler {
        assert!(cfg.remove.contains(&"Server".to_string()));
        assert!(cfg.set.contains_key("X-Content-Type-Options"));
    } else {
        panic!("Expected Headers handler, got {:?}", arms[0].handler);
    }
}

#[test]
fn header_directive_rejects_key_without_value() {
    let error = refusal("example.com {\n    header X-Only\n}");
    assert!(error.contains("header"), "{error}");
}

#[test]
fn handle_with_inline_path_keeps_its_path() {
    let arms = routes(
        r#"
            :8080 {
                handle /proxy/* {
                    reverse_proxy 127.0.0.1:9000
                }
                file_server /var/www/html
            }
        "#,
    );
    let proxy = arms
        .iter()
        .find(|arm| matches!(&arm.handler, Handler::Proxy(_) | Handler::Pipeline(_)))
        .expect("proxy route should exist");
    assert_eq!(path(proxy), "/proxy/*");
    let fs = arms
        .iter()
        .find(|arm| matches!(&arm.handler, Handler::FileServer(_)))
        .expect("file_server route should exist");
    assert_eq!(path(fs), "/*");
}

#[test]
fn route_with_quoted_path_keeps_its_path() {
    let arms = routes(
        r#"
            example.com {
                route "/api/*" {
                    respond "api" 200
                }
                route "/health" {
                    respond "ok" 200
                }
            }
        "#,
    );
    let paths: Vec<String> = arms.iter().map(path).collect();
    assert!(paths.contains(&"/api/*".to_string()), "{paths:?}");
    assert!(paths.contains(&"/health".to_string()), "{paths:?}");
}

#[test]
fn bare_file_server_root_is_not_mistaken_for_a_matcher() {
    let arms = routes(":8080 {\n file_server /var/www/html\n}");
    assert_eq!(arms.len(), 1);
    assert_eq!(path(&arms[0]), "/*");
    match &arms[0].handler {
        Handler::FileServer(cfg) => assert_eq!(cfg.root, "/var/www/html"),
        other => panic!("expected FileServer, got {other:?}"),
    }
}

#[test]
fn file_server_rejects_precompressed_as_unsupported() {
    let error = refusal(
        r#"example.com {
                file_server /downloads/* {
                    precompressed
                }
            }"#,
    );
    assert!(error.contains("not supported by Pingclair"), "{error}");
}

#[test]
fn file_server_rejects_fs_as_unsupported() {
    let error = refusal(
        r#"example.com {
                file_server /database/* {
                    fs sqlite data.sql
                }
            }"#,
    );
    assert!(error.contains("not supported by Pingclair"), "{error}");
}

#[test]
fn file_server_browse_inline_enables_listings() {
    let arms = routes("example.com {\n    file_server browse\n}");
    match &arms[0].handler {
        Handler::FileServer(cfg) => {
            assert!(cfg.browse);
            assert_eq!(cfg.root, ".");
        }
        other => panic!("expected file server, got {other:?}"),
    }
}

#[test]
fn file_server_glob_argument_becomes_a_path_matcher() {
    let arms = routes("example.com {\n    file_server /downloads/* {\n        browse\n    }\n}");
    assert_eq!(arms.len(), 1);
    assert_eq!(path(&arms[0]), "/downloads/*");
}

#[test]
fn glued_placeholder_redirect_compiles() {
    let arms = routes("example.com {\n    redir https://www.{host}{uri}\n}");
    match &arms[0].handler {
        Handler::Redirect(cfg) => assert_eq!(cfg.to, "https://www.{host}{uri}"),
        other => panic!("expected redirect, got {other:?}"),
    }
}

#[test]
fn rewrite_with_path_matcher_uses_caddy_semantics() {
    let arms = routes("example.com {\n    rewrite /old /new\n}");
    assert_eq!(path(&arms[0]), "/old");
}

#[test]
fn regex_rewrite_still_compiles() {
    let arms = routes("example.com {\n    rewrite \"^/api/(.*)$\" \"/v1/$1\"\n}");
    assert_eq!(path(&arms[0]), "/*");
}

// ---------------------------------------------------------------------------
// Transport security
// ---------------------------------------------------------------------------
#[test]
fn test_tls_cert_key() {
    let server = first_server(
        "example.com {\n listen :443\n tls /etc/ssl/cert.pem /etc/ssl/key.pem\n}",
    );
    let tls = server.tls.as_ref().expect("tls directive");
    assert_eq!(tls.cert.as_deref(), Some("/etc/ssl/cert.pem"));
    assert_eq!(tls.key.as_deref(), Some("/etc/ssl/key.pem"));
    assert!(!tls.auto);
    assert!(!tls.off);
}

#[test]
fn test_tls_auto() {
    let server = first_server("example.com {\n listen :443\n tls auto\n}");
    let tls = server.tls.as_ref().expect("tls directive");
    assert!(tls.auto);
    assert!(tls.cert.is_none());
}

#[test]
fn test_tls_internal() {
    let server = first_server("example.com {\n listen :443\n tls internal\n}");
    let tls = server.tls.as_ref().expect("tls directive");
    assert!(tls.internal);
    assert!(!tls.auto);
    assert!(tls.cert.is_none());
}

#[test]
fn test_tls_internal_block_can_disable_http3() {
    let server = first_server(
        "example.com {\n listen :443\n tls {\n internal\n http3 off\n }\n}",
    );
    let tls = server.tls.as_ref().expect("tls directive");
    assert!(tls.internal);
    assert_eq!(tls.http3, Some(false));
}

#[test]
fn test_tls_internal_rejects_public_or_manual_issuers() {
    for source in [
        "example.com { tls { internal auto } }",
        "example.com { tls { internal acme_email admin@example.com } }",
        "example.com { tls { internal cert cert.pem key key.pem } }",
    ] {
        assert!(matches!(adapt(parse(source)), Err(AdapterError::InvalidArgument(..))));
    }
}

#[test]
fn test_tls_off() {
    let server = first_server("example.com {\n listen :443\n tls off\n}");
    assert!(server.tls.as_ref().expect("tls directive").off);
}

#[test]
fn test_tls_block_form() {
    let server = first_server(
        r#"
            example.com {
                listen :443
                tls {
                    cert /etc/ssl/cert.pem
                    key /etc/ssl/key.pem
                    acme_email admin@example.com
                    http3
                }
            }
        "#,
    );
    let tls = server.tls.as_ref().expect("tls directive");
    assert_eq!(tls.cert.as_deref(), Some("/etc/ssl/cert.pem"));
    assert_eq!(tls.key.as_deref(), Some("/etc/ssl/key.pem"));
    assert_eq!(tls.acme_email.as_deref(), Some("admin@example.com"));
    assert_eq!(tls.http3, Some(true));
}

#[test]
fn test_tls_cert_without_key_is_an_error() {
    let error = adapt_error("example.com {\n listen :443\n tls /etc/ssl/cert.pem\n}");
    assert!(matches!(error, AdapterError::InvalidArgument(..)));
}

// ---------------------------------------------------------------------------
// Logs
// ---------------------------------------------------------------------------
#[test]
fn caddyfile_plain_format_directives_compile() {
    let log = first_server(":80 {\n log { format json }\n respond \"ok\" 200\n}").log.unwrap();
    assert_eq!(log.format.format_type, Some(LogFormatType::Json));
    let log = first_server(":80 {\n log { format text }\n respond \"ok\" 200\n}").log.unwrap();
    assert_eq!(log.format.format_type, Some(LogFormatType::Text));
}

#[test]
fn caddyfile_filter_block_honors_explicit_wrap() {
    let text = first_server(
        ":80 {\n log { format filter { wrap text\n fields { user_agent delete } } }\n respond \"ok\" 200\n}",
    )
    .log
    .unwrap();
    assert_eq!(text.format.format_type, Some(LogFormatType::Text));
    let json = first_server(
        ":80 {\n log { format filter { wrap json\n fields { user_agent delete } } }\n respond \"ok\" 200\n}",
    )
    .log
    .unwrap();
    assert_eq!(json.format.format_type, Some(LogFormatType::Json));
}

#[test]
fn caddyfile_filter_block_without_wrap_defaults_to_json() {
    let log = first_server(
        ":80 {\n log { format filter { fields { referer delete } } }\n respond \"ok\" 200\n}",
    )
    .log
    .unwrap();
    assert_eq!(log.format.format_type, Some(LogFormatType::Json));
}

#[test]
fn caddyfile_field_exclusions_survive_compilation() {
    let log = first_server(
        ":80 {\n log { format filter { wrap json\n fields { user_agent delete\n referer delete } } }\n respond \"ok\" 200\n}",
    )
    .log
    .unwrap();
    let exclude = log.format.filter.unwrap().exclude;
    assert!(exclude.contains(&"user_agent".to_string()), "{exclude:?}");
    assert!(exclude.contains(&"referer".to_string()), "{exclude:?}");
}

#[test]
fn caddyfile_output_targets_compile() {
    let log = first_server(":80 {\n log { output stdout }\n respond \"ok\" 200\n}").log.unwrap();
    assert_eq!(log.output, LogOutput::Stdout);
    let log = first_server(":80 {\n log { output stderr }\n respond \"ok\" 200\n}").log.unwrap();
    assert_eq!(log.output, LogOutput::Stderr);
    let log = first_server(":80 {\n log { output file /var/log/x.log }\n respond \"ok\" 200\n}")
        .log
        .unwrap();
    assert_eq!(log.output, LogOutput::File("/var/log/x.log".to_string()));
}

#[test]
fn log_block_rejects_unknown_subdirectives() {
    let error = refusal("example.com {\n log {\n rotate 7d\n }\n}");
    assert!(error.contains("log: rotate"), "{error}");
}

#[test]
fn log_block_rejects_unknown_format() {
    let error = refusal("example.com {\n log {\n format jsno\n }\n}");
    assert!(error.contains("jsno"), "{error}");
}

#[test]
fn log_block_rejects_output_file_without_path() {
    let error = refusal("example.com {\n log {\n output file\n }\n}");
    assert!(error.contains("log output file"), "{error}");
}

// ---------------------------------------------------------------------------
// What is refused
// ---------------------------------------------------------------------------
#[test]
fn debug_rejects_arguments() {
    let error = refusal("{\n    debug fales\n}\nexample.com {\n    respond \"x\"\n}");
    assert!(error.contains("debug"), "{error}");
}

#[test]
fn auto_https_requires_an_argument() {
    let error = refusal("{\n    auto_https\n}\nexample.com {\n    respond \"x\"\n}");
    assert!(error.contains("auto_https"), "{error}");
}

#[test]
fn auto_https_disable_certs_is_reported_as_unsupported() {
    let error = refusal("{\n    auto_https disable_certs\n}\nexample.com {\n    respond \"x\"\n}");
    assert!(error.contains("not supported by Pingclair"), "{error}");
}

#[test]
fn admin_block_is_reported_as_unsupported() {
    let error = refusal(
        r#"{
                admin :2019 {
                    origins http://localhost:2019
                }
            }
            example.com {
                respond "x"
            }"#,
    );
    assert!(error.contains("admin") && error.contains("not supported"), "{error}");
}

#[test]
fn known_caddy_global_options_are_reported_as_unsupported() {
    let error = refusal("{\n    default_bind 127.0.0.1\n}\nexample.com {\n    respond \"x\"\n}");
    assert!(error.contains("not supported by Pingclair"), "{error}");
}

#[test]
fn known_caddy_directives_are_reported_as_unsupported() {
    let error = refusal("example.com {\n    templates\n    file_server\n}");
    assert!(error.contains("not supported by Pingclair"), "{error}");
}

#[test]
fn typo_directives_stay_unknown_directive_errors() {
    let error = refusal("example.com {\n    respnd \"x\"\n}");
    assert!(error.contains("Unknown directive 'respnd'"), "{error}");
}

#[test]
fn each_kind_of_error_says_what_it_is_about() {
    assert_eq!(
        AdapterError::UnknownDirective("a".to_string()).message(),
        "Unknown directive 'a'"
    );
    assert_eq!(
        AdapterError::UnsupportedFeature("a".to_string(), "b".to_string()).message(),
        "Caddy-compatible directive 'a' is not supported by Pingclair yet: b"
    );
    assert_eq!(
        AdapterError::ArgumentCount("a".to_string(), 1, 20).message(),
        "Directive 'a' expects 1 arguments, got 20"
    );
    assert_eq!(
        AdapterError::InvalidArgument("a".to_string(), "b".to_string()).message(),
        "Invalid argument for 'a': b"
    );
    assert_eq!(
        AdapterError::BlockNotAllowed("a".to_string()).message(),
        "Block not allowed for directive 'a'"
    );
    assert_eq!(AdapterError::DuplicateGlobal.message(), "Duplicate global block");
    assert_eq!(
        AdapterError::UndefinedSnippet("a".to_string()).message(),
        "Undefined snippet 'a'"
    );
    assert_eq!(
        AdapterError::RecursiveSnippet("a".to_string()).message(),
        "Recursive snippet import detected: 'a'"
    );
}

// ---------------------------------------------------------------------------
// Limits
// ---------------------------------------------------------------------------
#[test]
fn full_duration_units_parse() {
    let server = first_server(
        "example.com {\n    limits {\n        header_timeout 1.5h\n        body_timeout 2h45m\n        idle_timeout 90d\n    }\n}",
    );
    assert_eq!(server.limits.header_timeout_ms, Some(5_400_000));
    assert_eq!(server.limits.body_timeout_ms, Some(9_900_000));
    assert_eq!(server.limits.idle_timeout_ms, Some(7_776_000_000));
}

#[test]
fn bare_duration_numbers_are_rejected() {
    let error = refusal("example.com {\n    limits {\n        header_timeout 30\n    }\n}");
    assert!(error.contains("30"));
}

// ---------------------------------------------------------------------------
// Matchers
// ---------------------------------------------------------------------------
#[test]
fn test_header_wildcard_matcher() {
    let server = first_server(
        r#"
            example.com {
                listen :80
                @cf_access {
                    header Cf-Access-Jwt-Assertion *
                }
                handle @cf_access {
                    respond "OK"
                }
            }
        "#,
    );
    assert!(server.matchers.contains_key("@cf_access"));
}

#[test]
fn method_matcher_rejects_unknown_verbs() {
    let error = refusal("example.com {\n    @x method FOO\n    handle @x { respond \"x\" }\n}");
    assert!(error.contains("FOO"), "{error}");
}

#[test]
fn method_matcher_accepts_every_standard_verb() {
    let arms = routes(
        r#"example.com {
                @x method GET POST PUT DELETE PATCH HEAD OPTIONS
                handle @x { respond "x" }
            }"#,
    );
    assert_eq!(arms.len(), 1);
}

#[test]
fn header_matcher_rejects_extra_arguments() {
    let error =
        refusal("example.com {\n    @x header Foo bar baz\n    handle @x { respond \"x\" }\n}");
    assert!(error.contains("header"), "{error}");
}

#[test]
fn header_matcher_understands_negation_and_single_stars() {
    let arms = routes(
        "example.com {\n    @a header !Foo\n    @b header Foo *.example\n    @c header Foo example*\n    @d header Foo *bar*\n    handle @a { respond \"a\" }\n    handle @b { respond \"b\" }\n    handle @c { respond \"c\" }\n    handle @d { respond \"d\" }\n}",
    );
    assert_eq!(arms.len(), 4);
}

#[test]
fn same_field_header_matchers_are_ored() {
    let server = first_server(
        "example.com {\n    @foo {\n        header Foo bar\n        header Foo baz\n    }\n    handle @foo { respond \"hit\" }\n}",
    );
    assert_eq!(
        server.routes.as_ref().unwrap()[0].matcher,
        Some(Matcher::Named("@foo".to_string()))
    );
    let matcher = server.matchers.get("@foo").expect("matcher must survive");
    assert!(format!("{matcher:?}").contains("Or"), "{matcher:?}");
}

#[test]
fn extended_matcher_vocabulary_compiles() {
    let arms = routes(
        "example.com {\n    @h host sub.example.com\n    @q query q=1\n    @p protocol https\n    @r remote_ip 10.0.0.0/8\n    @c client_ip 192.168.0.0/16\n    handle @h { respond \"h\" }\n    handle @q { respond \"q\" }\n    handle @p { respond \"p\" }\n    handle @r { respond \"r\" }\n    handle @c { respond \"c\" }\n}",
    );
    assert_eq!(arms.len(), 5);
}

#[test]
fn not_inline_multi_value_is_negated_or() {
    let server = first_server(
        "example.com {\n    @na {\n        not path /css/* /js/*\n    }\n    handle @na { respond \"ok\" }\n}",
    );
    let matcher = format!("{:?}", server.matchers.get("@na").expect("matcher"));
    assert!(matcher.contains("Not") && matcher.contains("Path"), "{matcher}");
}

// ---------------------------------------------------------------------------
// Order
// ---------------------------------------------------------------------------
#[test]
fn header_runs_before_respond_regardless_of_file_order() {
    for source in [
        "example.com {\n    respond \"ok\"\n    header X-A b\n}",
        "example.com {\n    header X-A b\n    respond \"ok\"\n}",
    ] {
        let arms = routes(source);
        let kinds: Vec<&str> = steps(&arms[0].handler)
            .into_iter()
            .map(|h| match h {
                Handler::Headers(_) => "headers",
                Handler::Respond(_) => "respond",
                other => panic!("unexpected handler {other:?}"),
            })
            .collect();
        assert_eq!(kinds, vec!["headers", "respond"]);
    }
}

#[test]
fn basic_auth_runs_before_file_server() {
    let arms = routes("example.com {\n    file_server ./public\n    basic_auth user pass\n}");
    let list = steps(&arms[0].handler);
    assert!(matches!(list[0], Handler::BasicAuth(_)));
    assert!(matches!(list[1], Handler::FileServer(_)));
}

#[test]
fn terminal_handlers_run_in_reverse_caddy_priority() {
    let arms = routes("example.com {\n    reverse_proxy 127.0.0.1:9005\n    file_server\n}");
    let list = steps(&arms[0].handler);
    assert!(matches!(list[0], Handler::FileServer(_)), "{list:?}");
    assert!(matches!(list[1], Handler::Proxy(_)));

    let arms = routes("example.com {\n    respond \"x\"\n    file_server\n}");
    let list = steps(&arms[0].handler);
    assert!(matches!(list[0], Handler::FileServer(_)));
    assert!(matches!(list[1], Handler::Respond(_)));
}

#[test]
fn exact_handle_precedes_glob_handle() {
    let arms = routes(
        "example.com {\n    handle /foo* { respond \"glob\" }\n    handle /foo { respond \"exact\" }\n}",
    );
    assert_eq!(path(&arms[0]), "/foo");
    assert_eq!(path(&arms[1]), "/foo*");
}

#[test]
fn middleware_route_precedes_terminal_route_with_same_matcher() {
    let arms = routes(
        "example.com {\n    @api path /api/*\n    handle /api/* { respond \"api\" }\n    header @api X-A b\n}",
    );
    assert!(
        matches!(&arms[0].handler, Handler::Headers(_))
            || matches!(
                &arms[0].handler,
                Handler::Pipeline(list)
                    if list.iter().any(|e| matches!(&e.handler, Handler::Headers(_)))
            ),
        "{:?}",
        arms[0].handler
    );
}

#[test]
fn a_route_that_does_not_answer_runs_before_the_default_that_does() {
    let arms = routes("example.com {\n header /a/* X-A b\n respond \"ok\"\n}");
    assert_eq!(path(&arms[0]), "/a/*");
    let list = steps(&arms[0].handler);
    assert!(matches!(list[0], Handler::Headers(_)));
    assert!(matches!(list[1], Handler::Respond(_)));
    assert_eq!(path(&arms[1]), "/*");
    assert!(matches!(arms[1].handler, Handler::Respond(_)));
}
