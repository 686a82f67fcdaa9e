//! Configurations in the extended profile.

use pingclair::adapter::dynamic::parse_signed_duration;
use pingclair::adapter::extended::{adapt, adapt_from};
use pingclair::adapter::handle_groups::group_siblings;
use pingclair::adapter::registry::{
    directive_names, global_option_names, is_adapted_elsewhere, is_implemented_directive,
    recognised_but_unimplemented, Support,
};
use pingclair::adapter::responses::collect_response_handlers;
use pingclair::adapter::retry_match::fold_retry_expression;
use pingclair::adapter::route_order::RouteOrderKey;
use pingclair::ast::log::{LogFormatType, LogOutput};
use pingclair::ast::matcher::PathMatcher;
use pingclair::ast::options::AutoHttpsMode;
use pingclair::ast::proxy::{Expr, ProxyConfig, ResponseHandlerConfig, RetryConfig};
use pingclair::ast::server::Scheme;
use pingclair::ast::tree::{Ast, Handler, HandlerElement, Matcher, RouteArm, ServerBlock};
use pingclair::syntax::{Block, Directive};
use pingclair::table::Table;

// ---------------------------------------------------------------------------
// Source text
// ---------------------------------------------------------------------------
#[derive(Debug, Clone, PartialEq)]
enum Token {
    Word(String),
    Open,
    Close,
    Line,
}

fn tokens(source: &str) -> Vec<Token> {
    let text: Vec<char> = source.chars().collect();
    let mut out: Vec<Token> = Vec::new();
    let mut i: usize = 0;
    while i < text.len() {
        let c = text[i];
        if c == '\n' {
            out.push(Token::Line);
            i += 1;
        } else if c.is_whitespace() {
            i += 1;
        } else if c == '#' {
            while i < text.len() && text[i] != '\n' {
                i += 1;
            }
        } else if c == '"' {
            let mut word = String::new();
            i += 1;
            while i < text.len() && text[i] != '"' {
                word.push(text[i]);
                i += 1;
            }
            i += 1;
            out.push(Token::Word(word));
        } else if c == '}' {
            out.push(Token::Close);
            i += 1;
        } else if c == '{' && (i + 1 >= text.len() || text[i + 1].is_whitespace()) {
            out.push(Token::Open);
            i += 1;
        } else {
            let mut word = String::new();
            while i < text.len() && !text[i].is_whitespace() {
                if text[i] == '{' {
                    while i < text.len() && text[i] != '}' {
                        word.push(text[i]);
                        i += 1;
                    }
                }
                word.push(text[i]);
                i += 1;
            }
            out.push(Token::Word(word));
        }
    }
    out
}

fn directives_from(list: &[Token], at: &mut usize) -> Vec<Directive> {
    let mut out: Vec<Directive> = Vec::new();
    while *at < list.len() && list[*at] != Token::Close {
        if list[*at] == Token::Line {
            *at += 1;
            continue;
        }
        let mut words: Vec<String> = Vec::new();
        while let Some(Token::Word(word)) = list.get(*at) {
            words.push(word.clone());
            *at += 1;
        }
        let name = if words.is_empty() { String::new() } else { words.remove(0) };
        let mut block = None;
        if list.get(*at) == Some(&Token::Open) {
            *at += 1;
            let directives = directives_from(list, at);
            assert_eq!(list.get(*at), Some(&Token::Close), "a block is never closed");
            *at += 1;
            block = Some(Block { directives });
        }
        out.push(Directive { name, args: words, block });
    }
    out
}

fn parse(source: &str) -> Vec<Directive> {
    let list = tokens(source);
    let mut at: usize = 0;
    let out = directives_from(&list, &mut at);
    assert_eq!(at, list.len(), "a brace closes nothing");
    out
}

fn adapted(source: &str) -> Ast {
    match adapt(parse(source)) {
        Ok(ast) => ast,
        Err(error) => panic!("{}\n{source}", error.message()),
    }
}

fn refusal(source: &str) -> String {
    match adapt(parse(source)) {
        Ok(_) => panic!("must be rejected:\n{source}"),
        Err(error) => error.message(),
    }
}

fn first_server(source: &str) -> ServerBlock {
    let mut ast = adapted(source);
    ast.servers.remove(0)
}

fn texts(list: &[&str]) -> Vec<String> {
    list.iter().map(|s| s.to_string()).collect()
}

fn listen(server: &ServerBlock) -> Vec<String> {
    server
        .listens
        .iter()
        .map(|l| match l.port {
            Some(port) => format!("{}:{port}", l.host),
            None => match l.scheme {
                Scheme::Http => format!("{}:80", l.host),
                Scheme::Https => format!("{}:443", l.host),
            },
        })
        .collect()
}

/// The paths of the routes of a site: one for each pattern of a path matcher.
fn paths(source: &str) -> Vec<String> {
    let server = first_server(source);
    let mut out: Vec<String> = Vec::new();
    for arm in server.routes.as_ref().expect("routes") {
        let matcher = match &arm.matcher {
            Some(Matcher::Named(name)) => server.matchers.get(name),
            Some(other) => Some(other),
            None => None,
        };
        match matcher {
            Some(Matcher::Path(p)) => out.extend(p.patterns.iter().cloned()),
            _ => out.push("/*".to_string()),
        }
    }
    out
}

fn body(handler: &Handler) -> Option<String> {
    match handler {
        Handler::Respond(cfg) => match &cfg.body {
            Some(Expr::String(text)) => Some(text.clone()),
            None => None,
        },
        Handler::Pipeline(list) => list.iter().find_map(|e| body(&e.handler)),
        _ => None,
    }
}

fn bodies(source: &str) -> Vec<String> {
    first_server(source)
        .routes
        .expect("routes")
        .iter()
        .map(|arm: &RouteArm| body(&arm.handler).unwrap_or("proxy".to_string()))
        .collect()
}

// ---------------------------------------------------------------------------
// Addresses
// ---------------------------------------------------------------------------
#[test]
fn addresses_bare_hostname_with_tls_derives_no_listener() {
    let server = first_server("example.com {\n    tls auto\n    file_server ./public\n}");
    assert!(server.listens.is_empty());
    assert!(server.tls.is_some());
    assert_eq!(server.name, "example.com");
}

#[test]
fn addresses_auto_https_off_keeps_bare_hostname_plaintext() {
    let ast = adapted("{\n    auto_https off\n}\nexample.com {\n    file_server ./public\n}");
    assert_eq!(ast.global.unwrap().auto_https, Some(AutoHttpsMode::Off));
    assert!(ast.servers[0].tls.is_none());
}

#[test]
fn addresses_explicit_schemes_still_create_listeners() {
    let https = first_server("https://example.com {\n    respond \"x\"\n}");
    assert_eq!(listen(&https), ["[::]:443"]);
    assert_eq!(https.listens[0].scheme, Scheme::Https);

    let http = first_server("http://example.com {\n    respond \"x\"\n}");
    assert_eq!(listen(&http), ["[::]:80"]);
    assert!(http.tls.is_none());
}

#[test]
fn addresses_explicit_listen_is_not_duplicated_or_augmented() {
    let server = first_server("example.com {\n    listen :80\n    tls auto\n}");
    assert_eq!(listen(&server), ["[::]:80"]);

    let server = first_server("example.com {\n    listen :8443\n    tls auto\n}");
    assert_eq!(listen(&server), ["[::]:8443"]);
}

#[test]
fn addresses_multi_listener_site_keeps_its_hostname() {
    let server = first_server("example.com {\n    listen :80\n    listen :443\n    tls auto\n}");
    assert_eq!(server.name, "example.com");
    assert_eq!(server.names, texts(&["example.com"]));
}

#[test]
fn addresses_multi_address_block_registers_every_hostname() {
    let server = first_server("example.com, www.example.com {\n    respond \"shared\"\n}");
    assert_eq!(server.name, "example.com");
    assert_eq!(server.names, texts(&["example.com", "www.example.com"]));
}

#[test]
fn addresses_catch_all_schemes_get_the_conventional_listener() {
    let https = first_server("https:// {\n    respond \"x\"\n}");
    assert_eq!(listen(&https), ["[::]:443"]);

    let http = first_server("http:// {\n    respond \"x\"\n}");
    assert_eq!(listen(&http), ["[::]:80"]);
    assert!(http.tls.is_none());
}

#[test]
fn addresses_global_http_and_https_ports_parse() {
    let ast = adapted(
        "{\n    http_port 8080\n    https_port 8443\n}\nlocalhost {\n    respond \"x\"\n}",
    );
    let global = ast.global.unwrap();
    assert_eq!(global.http_port, Some(8080));
    assert_eq!(global.https_port, Some(8443));
}

#[test]
fn addresses_ip_literal_site_binds_to_the_literal() {
    let server = first_server("127.0.0.1 {\n    respond \"x\"\n}");
    assert_eq!(listen(&server), ["127.0.0.1:80"]);
}

#[test]
fn addresses_bind_directive_is_carried_separately() {
    let server = first_server("example.com {\n    bind 127.0.0.1\n    tls auto\n}");
    assert_eq!(server.bind.as_deref(), Some("127.0.0.1"));
    assert!(server.listens.is_empty());
}

// ---------------------------------------------------------------------------
// Logs
// ---------------------------------------------------------------------------
#[test]
fn logs_plain_format_directives_compile() {
    let log = first_server(":80 {\n log { format json }\n respond \"ok\" 200\n}").log.unwrap();
    assert_eq!(log.format.format_type, Some(LogFormatType::Json));
    let log = first_server(":80 {\n log { format text }\n respond \"ok\" 200\n}").log.unwrap();
    assert_eq!(log.format.format_type, Some(LogFormatType::Text));
}

#[test]
fn logs_filter_block_honors_explicit_wrap() {
    let text = first_server(
        ":80 {\n log { format filter { wrap text\n fields { user_agent delete } } }\n respond \"ok\" 200\n}",
    )
    .log
    .unwrap();
    assert_eq!(text.format.format_type, Some(LogFormatType::Text));
    let json = first_server(
        ":80 {\n log { format filter { wrap json\n fields { user_agent delete } } }\n respond \"ok\" 200\n}",
    )
    .log
    .unwrap();
    assert_eq!(json.format.format_type, Some(LogFormatType::Json));
}

#[test]
fn logs_filter_block_without_wrap_defaults_to_json() {
    let log = first_server(
        ":80 {\n log { format filter { fields { referer delete } } }\n respond \"ok\" 200\n}",
    )
    .log
    .unwrap();
    assert_eq!(log.format.format_type, Some(LogFormatType::Json));
}

#[test]
fn logs_field_exclusions_survive_compilation() {
    let log = first_server(
        ":80 {\n log { format filter { wrap json\n fields { user_agent delete\n referer delete } } }\n respond \"ok\" 200\n}",
    )
    .log
    .unwrap();
    let exclude = log.format.filter.unwrap().exclude;
    assert!(exclude.contains(&"user_agent".to_string()), "{exclude:?}");
    assert!(exclude.contains(&"referer".to_string()), "{exclude:?}");
}

#[test]
fn logs_output_targets_compile() {
    let log = first_server(":80 {\n log { output stdout }\n respond \"ok\" 200\n}").log.unwrap();
    assert_eq!(log.output, LogOutput::Stdout);
    let log = first_server(":80 {\n log { output stderr }\n respond \"ok\" 200\n}").log.unwrap();
    assert_eq!(log.output, LogOutput::Stderr);
    let log = first_server(":80 {\n log { output file /var/log/x.log }\n respond \"ok\" 200\n}")
        .log
        .unwrap();
    assert_eq!(log.output, LogOutput::File("/var/log/x.log".to_string()));
}

#[test]
fn hostnames_and_sampling_compile() {
    let log = first_server(
        ":80 {\n log {\n hostnames a.example b.example\n sampling {\n interval 5m\n first 50\n thereafter 40\n }\n }\n respond \"ok\" 200\n}",
    )
    .log
    .unwrap();
    assert_eq!(log.hostnames, texts(&["a.example", "b.example"]));
    let sampling = log.sampling.expect("sampling policy");
    assert_eq!(sampling.interval_secs, 300);
    assert_eq!(sampling.first, 50);
    assert_eq!(sampling.thereafter, 40);
}

#[test]
fn hostnames_in_the_global_log_block_is_refused() {
    let error = refusal(
        "{\n\tlog {\n\t\thostnames a.example\n\t\toutput stdout\n\t}\n}\n\n:80 {\n\trespond \"ok\" 200\n}",
    );
    assert!(error.contains("hostnames is not allowed in the log global options"), "{error}");
}

#[test]
fn output_file_accepts_mode_and_extra_roll_options() {
    let log = first_server(
        ":80 {\n log {\n output file /tmp/x.log {\n mode 0644\n dir_mode 0755\n roll_size 1gb\n roll_uncompressed\n roll_compression none\n roll_local_time\n roll_keep 5\n roll_keep_for 90d\n roll_interval 12h\n roll_at 00:00 06:00\n roll_minutes 10 40\n }\n }\n respond \"ok\" 200\n}",
    )
    .log
    .unwrap();
    assert_eq!(log.rotation.mode.as_deref(), Some("0644"));
    assert_eq!(log.rotation.roll_interval_secs, Some(12 * 3600));
    assert!(log.rotation.roll_local_time);
    assert_eq!(log.rotation.roll_compression.as_deref(), Some("none"));
}

#[test]
fn flat_filter_delete_fields_compile() {
    let log = first_server(
        ":80 {\n log {\n format filter {\n wrap json\n request>headers>Authorization delete\n }\n }\n respond \"ok\" 200\n}",
    )
    .log
    .unwrap();
    assert!(
        log.format
            .filter
            .unwrap()
            .exclude
            .contains(&"request>headers>Authorization".to_string())
    );
}

#[test]
fn a_server_can_reference_a_declared_channel() {
    let ast = adapted(
        "{\n    log errors {\n        output stderr\n        format json\n    }\n}\n\
         http://:8080 {\n    log errors\n    respond \"ok\"\n}\n",
    );
    assert!(ast.global.unwrap().logging.unwrap().channels.contains_key("errors"));
    assert_eq!(ast.servers[0].log_channels, texts(&["errors"]));
}

#[test]
fn referencing_an_undeclared_channel_is_rejected_with_the_known_names() {
    let message = refusal(
        "{\n    log errors {\n        output stderr\n    }\n}\n\
         http://:8080 {\n    log erors\n    respond \"ok\"\n}\n",
    );
    assert!(message.contains("erors"), "{message}");
    assert!(message.contains("errors"), "{message}");
}

#[test]
fn a_channel_declared_twice_is_rejected() {
    let error = refusal(
        "{\n    log dup {\n        output stderr\n    }\n    log dup {\n        output stdout\n    }\n}\n\
         http://:8080 {\n    respond \"ok\"\n}\n",
    );
    assert!(error.contains("dup"));
}

#[test]
fn a_named_site_logger_compiles() {
    let server = first_server(
        "http://:8080 {\n    log errors {\n        output stderr\n    }\n    respond \"ok\"\n}\n",
    );
    assert_eq!(server.named_logs.len(), 1);
    assert_eq!(server.named_logs[0].name.as_deref(), Some("errors"));
    assert_eq!(server.named_logs[0].output, LogOutput::Stderr);
}

#[test]
fn a_bare_log_enables_the_default_sink() {
    let server = first_server("http://:8080 {\n    log\n    respond \"ok\"\n}\n");
    assert!(server.log.is_some());
}

#[test]
fn an_unnamed_global_log_configures_the_default_logger() {
    let ast = adapted(
        "{\n    log {\n        output stderr\n        format json\n    }\n}\n\
         http://:8080 {\n    respond \"ok\"\n}\n",
    );
    assert!(ast.global.unwrap().logging.unwrap().default.is_some());
}

#[test]
fn global_include_and_exclude_compile() {
    let ast = adapted(
        "{\n    log {\n        output stderr\n        include http.log.access\n        exclude http.log.access.noisy\n    }\n}\n\
         http://:8080 {\n    respond \"ok\"\n}\n",
    );
    let default = ast.global.unwrap().logging.unwrap().default.expect("default logger");
    assert_eq!(default.included, texts(&["http.log.access"]));
    assert_eq!(default.excluded, texts(&["http.log.access.noisy"]));
}

#[test]
fn global_include_and_exclude_must_be_nested() {
    let error = refusal(
        "{\n    log {\n        output stderr\n        include some-source\n        exclude a.api b.api\n    }\n}\n\
         http://:8080 {\n    respond \"ok\"\n}\n",
    );
    assert!(error.contains("superspace or subspace"), "{error}");
}

#[test]
fn an_inline_block_and_a_channel_coexist() {
    let ast = adapted(
        "{\n    log audit {\n        output stderr\n    }\n}\n\
         http://:8080 {\n    log {\n        output stdout\n    }\n    log audit\n    respond \"ok\"\n}\n",
    );
    assert!(ast.servers[0].log.is_some());
    assert_eq!(ast.servers[0].log_channels, texts(&["audit"]));
}

#[test]
fn log_skip_compiles_as_middleware() {
    let arms = first_server(":80 {\n    log\n    log_skip /hidden*\n    respond \"ok\"\n}\n")
        .routes
        .unwrap();
    assert!(
        matches!(
            &arms[0].handler,
            Handler::Pipeline(list)
                if list.iter().any(|e| matches!(&e.handler, Handler::LogSkip))
        ),
        "{:?}",
        arms[0].handler
    );
}

// ---------------------------------------------------------------------------
// The admin option
// ---------------------------------------------------------------------------
#[test]
fn origins_and_enforce_origin_reach_the_config() {
    let ast = adapted(
        "{\n    admin :2019 {\n        origins http://admin.example.com\n        enforce_origin\n    }\n}\n\
         http://:8080 {\n    respond \"ok\"\n}\n",
    );
    let admin = ast.global.unwrap().admin.expect("admin configured");
    assert_eq!(admin.origins, texts(&["http://admin.example.com"]));
    assert!(admin.enforce_origin);
}

#[test]
fn a_bare_admin_directive_enforces_nothing() {
    let ast = adapted("{\n    admin :2019\n}\nhttp://:8080 {\n    respond \"ok\"\n}\n");
    let admin = ast.global.unwrap().admin.expect("admin configured");
    assert!(admin.origins.is_empty());
    assert!(!admin.enforce_origin);
}

#[test]
fn empty_origins_is_rejected() {
    let error = refusal(
        "{\n    admin :2019 {\n        origins\n    }\n}\nhttp://:8080 {\n    respond \"ok\"\n}\n",
    );
    assert!(error.contains("origin"));
}

// ---------------------------------------------------------------------------
// The registry
// ---------------------------------------------------------------------------
#[test]
fn no_name_is_registered_twice() {
    for (implemented, recognised) in [
        (directive_names(Support::Implemented), directive_names(Support::Recognised)),
        (global_option_names(Support::Implemented), global_option_names(Support::Recognised)),
    ] {
        let mut names: Vec<&str> = implemented.into_iter().chain(recognised).collect();
        names.sort_unstable();
        let mut unique = names.clone();
        unique.dedup();
        assert_eq!(names, unique, "a name is registered twice");
    }
}

#[test]
fn each_group_is_sorted() {
    for support in [Support::Implemented, Support::Recognised] {
        for group in [directive_names(support), global_option_names(support)] {
            let mut sorted = group.clone();
            sorted.sort_unstable();
            assert_eq!(group, sorted, "{support:?} entries are out of order");
        }
    }
}

#[test]
fn every_recognised_directive_is_refused_by_name() {
    for name in directive_names(Support::Recognised) {
        let message = refusal(&format!("example.com {{\n {name} \n}}"));
        assert!(!message.contains("Unknown directive"), "{name}: {message}");
    }
}

#[test]
fn the_registry_tells_implemented_from_recognised() {
    assert!(is_implemented_directive("reverse_proxy"));
    assert!(!is_implemented_directive("tracing"));
    assert!(!is_implemented_directive("reverse_prox"));
    let refused = recognised_but_unimplemented();
    assert!(refused.contains(&"tracing"));
    assert!(refused.contains(&"storage"));
    assert!(!refused.contains(&"reverse_proxy"));
}

// ---------------------------------------------------------------------------
// Routes
// ---------------------------------------------------------------------------
#[test]
fn the_order_option_moves_a_route_in_the_list() {
    let source = "{\n    order file_server first\n}\nexample.com {\n    root * /srv\n    file_server /assets/*\n    respond \"hello\" 200\n}";
    assert_eq!(paths(source), ["/assets/*", "/*"]);
}

#[test]
fn routes_follow_the_order_of_their_directives() {
    let source =
        "example.com {\n    root * /srv\n    file_server /assets/*\n    respond \"hello\" 200\n}";
    assert_eq!(paths(source), ["/*", "/assets/*"]);
}

#[test]
fn siblings_of_one_directive_sort_by_trimmed_path_length_first() {
    let source = "example.com {\n    @canary header X-Canary 1\n    respond @canary \"canary\"\n    respond /foo* \"foo glob\"\n    respond /foo \"foo\"\n    respond /foobar* \"foobar\"\n}";
    assert_eq!(bodies(source), ["foobar", "foo", "foo glob", "canary"]);
}

#[test]
fn several_paths_sort_as_one_route_without_a_length() {
    let source = "example.com {\n    @both path /a /b\n    respond @both \"both\"\n    respond /a* \"a glob\"\n}";
    assert_eq!(paths(source), ["/a*", "/a", "/b"]);
}

#[test]
fn a_matched_header_sorts_where_its_pipeline_answers() {
    let source = "example.com {\n    @ready path /ready\n    respond @ready \"ready\"\n    @rest not path /api/*\n    header @rest Cache-Control no-cache\n    reverse_proxy 127.0.0.1:9\n}";
    let arms = first_server(source).routes.unwrap();
    assert_eq!(body(&arms[0].handler), Some("ready".to_string()));
    assert!(arms[1].matcher.is_some());
    assert!(arms[2].matcher.is_none());
}

#[test]
fn templates_answer_where_the_file_server_does() {
    let source = "example.com {\n    root * /srv\n    templates\n    file_server\n    respond /x \"x\"\n}";
    assert_eq!(bodies(source), ["x", "proxy"]);
}

#[test]
fn patterns_of_equal_length_keep_their_order() {
    for (first, second, expected) in [
        ("@a \"a\"", "@b \"b\"", ["a", "b"]),
        ("@b \"b\"", "@a \"a\"", ["b", "a"]),
    ] {
        let source = format!(
            "example.com {{\n    @a path /a/*x\n    @b path /*/bx\n    respond {first}\n    respond {second}\n}}"
        );
        assert_eq!(bodies(&source), expected);
    }
}

// ---------------------------------------------------------------------------
// Groups
// ---------------------------------------------------------------------------
fn element(source: &str) -> HandlerElement {
    let site = format!("example.com {{\n route {{\n {source}\n }}\n}}");
    let mut arms = first_server(&site).routes.unwrap();
    match arms.remove(0).handler {
        Handler::Pipeline(mut list) => list.remove(0),
        other => panic!("expected a pipeline, got {other:?}"),
    }
}

#[test]
fn siblings_are_tried_in_turn() {
    let list = vec![
        element("handle /api/a {\n header X-Selected yes\n }"),
        element("handle {\n respond fallback\n }"),
    ];
    let grouped = group_siblings(&list);
    assert_eq!(grouped.len(), 1);
    match &grouped[0].handler {
        Handler::HandleGroup(branches) => {
            assert_eq!(branches.len(), 2);
            assert!(branches[0].matcher.is_some());
            assert!(branches[1].matcher.is_none());
        }
        other => panic!("expected a group, got {other:?}"),
    }
}

#[test]
fn a_list_without_siblings_stays() {
    let list = vec![element("header X-A b"), element("respond done")];
    let grouped = group_siblings(&list);
    assert_eq!(grouped, list);
}

// ---------------------------------------------------------------------------
// Files
// ---------------------------------------------------------------------------
#[test]
fn imported_files_come_from_the_table() {
    let mut files: Table<Vec<Directive>> = Table::new();
    files.insert("./part.conf".to_string(), parse("respond \"imported\""));
    let source = "example.com {\n import ./part.conf\n}";
    let ast = match adapt_from(parse(source), files) {
        Ok(ast) => ast,
        Err(error) => panic!("{}", error.message()),
    };
    let arms = ast.servers[0].routes.as_ref().unwrap();
    assert_eq!(body(&arms[0].handler), Some("imported".to_string()));
    assert!(refusal(source).contains("./part.conf"));
}

// ---------------------------------------------------------------------------
// Values that other crates judge
// ---------------------------------------------------------------------------
#[test]
fn trusted_proxies_name_networks_or_addresses() {
    let site = "http://:8080 {\n respond \"ok\"\n}";
    let ast = adapted(&format!("{{\n trusted_proxies 10.0.0.0/8 ::1 fd00::/8\n}}\n{site}"));
    assert_eq!(
        ast.global.unwrap().trusted_proxies,
        texts(&["10.0.0.0/8", "::1", "fd00::/8"])
    );
    for rule in ["10.0.0.0/33", "example.com", "10.0.0.0/"] {
        let error = refusal(&format!("{{\n trusted_proxies {rule}\n}}\n{site}"));
        assert!(error.contains(rule), "{error}");
    }
}

#[test]
fn a_header_pattern_must_be_a_regular_expression() {
    let server = first_server(
        "example.com {\n @v header_regexp X-Version ^v[0-9]+$\n respond @v \"ok\"\n}",
    );
    let matcher = server.matchers.get("@v").expect("matcher");
    assert!(format!("{matcher:?}").contains("^v[0-9]+$"), "{matcher:?}");
    let error = refusal("example.com {\n @v header_regexp X-Version v[0-9\n respond @v \"ok\"\n}");
    assert!(error.contains("is not a valid regular expression"), "{error}");
}

// ---------------------------------------------------------------------------
// Refusals that reach the whole configuration
// ---------------------------------------------------------------------------
#[test]
fn a_global_option_that_is_not_implemented_fails_the_configuration() {
    let site = "http://:8080 {\n respond \"ok\"\n}";
    for option in ["storage", "trusted_proxis"] {
        let error = refusal(&format!("{{\n debug\n {option} x\n}}\n{site}"));
        assert!(error.contains(option), "{error}");
        let error = refusal(&format!("{{\n servers {{\n {option} x\n }}\n}}\n{site}"));
        assert!(error.contains(option), "{error}");
    }
    let ast = adapted(&format!("{{\n servers {{\n protocols h1 h2\n }}\n}}\n{site}"));
    assert_eq!(ast.global.unwrap().protocols.len(), 2);
}

#[test]
fn a_proxy_option_that_is_not_implemented_fails_the_configuration() {
    for option in ["fail_duration", "lb_polcy", "header_down"] {
        let error = refusal(&format!(
            "http://:8080 {{\n reverse_proxy 127.0.0.1:1 {{\n {option} x\n }}\n}}"
        ));
        assert!(error.contains(option), "{error}");
    }
}

// ---------------------------------------------------------------------------
// Every implemented directive
// ---------------------------------------------------------------------------
#[test]
fn every_implemented_directive_is_actually_wired_up() {
    let minimal = [
        ("access_control", "access_control {\n allow_ip 10.0.0.0/8\n }"),
        (
            "basic_auth",
            "basic_auth {\n u $2a$14$Zkx19XLiW6VYouLHR5NmfOFU0z2GTNmpkT/5qqR7hx4IjWJPDhjvG\n }",
        ),
        (
            "basicauth",
            "basicauth {\n u $2a$14$Zkx19XLiW6VYouLHR5NmfOFU0z2GTNmpkT/5qqR7hx4IjWJPDhjvG\n }",
        ),
        ("bind", "bind 127.0.0.1"),
        ("compress", "compress gzip"),
        ("cors", "cors *"),
        ("encode", "encode gzip"),
        ("error_page", "error_page 404 /404.html"),
        ("file_server", "file_server"),
        ("gzip_types", "gzip_types text/*"),
        ("handle", "handle {\n respond \"x\"\n }"),
        ("handle_path", "handle_path /api/* {\n respond \"x\"\n }"),
        ("header", "header X-A b"),
        ("import", "import missing_is_a_different_error"),
        (
            "intercept",
            "intercept {\n @500 status 500\n handle_response @500 {\n respond \"x\"\n }\n }",
        ),
        (
            "forward_auth",
            "forward_auth 127.0.0.1:9000 {\n uri /auth\n copy_headers X-User-Id\n }",
        ),
        ("limits", "limits {\n max_connections 10\n }"),
        ("listen", "listen :8080"),
        ("log", "log {\n output stdout\n }"),
        ("log_skip", "log_skip"),
        ("php_fastcgi", "php_fastcgi 127.0.0.1:9000"),
        ("rate_limit", "rate_limit 10 1s"),
        ("error", "error 404"),
        ("redir", "redir /a /b"),
        ("redirect", "redirect /a /b"),
        ("handle_errors", "handle_errors {\n respond \"x\"\n }"),
        ("respond", "respond \"x\""),
        ("reverse_proxy", "reverse_proxy 127.0.0.1:9000"),
        ("rewrite", "rewrite /a /b"),
        ("root", "root /srv"),
        ("route", "route {\n respond \"x\"\n }"),
        ("templates", "templates"),
        ("tls", "tls internal"),
        ("try_files", "try_files {path} /index.html"),
        ("uri", "uri strip_prefix /api"),
        ("vars", "vars foo bar"),
    ];
    for name in directive_names(Support::Implemented) {
        let line = minimal
            .iter()
            .find(|(directive, _)| *directive == name)
            .unwrap_or_else(|| panic!("`{name}` has no minimal use"))
            .1;
        let source = format!("example.com {{\n {line}\n}}");
        match adapt(parse(&source)) {
            Ok(_) => assert!(!is_adapted_elsewhere(name), "{name}"),
            Err(error) => {
                let message = error.message();
                assert!(!message.contains("Unknown directive"), "{name}: {message}");
                assert!(!message.contains("not supported by Pingclair"), "{name}: {message}");
                assert!(name == "import" || is_adapted_elsewhere(name), "{name}: {message}");
            }
        }
    }
}

#[test]
fn what_is_adapted_elsewhere_says_so() {
    for line in ["php_fastcgi 127.0.0.1:9000", "forward_auth 127.0.0.1:9000", "handle_errors 404"] {
        let error = refusal(&format!("example.com {{\n {line}\n}}"));
        assert!(error.contains("adapted outside this library"), "{error}");
    }
}

// ---------------------------------------------------------------------------
// Order
// ---------------------------------------------------------------------------
#[test]
fn exact_before_wildcard_holds_between_equal_paths_only() {
    let source = "example.com {\n respond /abc* \"glob\"\n respond /xyz \"exact\"\n}";
    assert_eq!(bodies(source), ["glob", "exact"]);
    let source = "example.com {\n respond /abc* \"glob\"\n respond /abc \"exact\"\n}";
    assert_eq!(bodies(source), ["exact", "glob"]);
    let source = "example.com {\n respond /a/*x* \"a\"\n respond /*/bx \"b\"\n}";
    assert_eq!(bodies(source), ["a", "b"]);
    let source = "example.com {\n respond /abc* \"a\"\n respond /xyz \"b\"\n respond /abc \"c\"\n}";
    assert_eq!(bodies(source), ["c", "a", "b"]);
    let source = "example.com {\n respond /abc \"a\"\n respond /xyz \"b\"\n respond /abc \"c\"\n}";
    assert_eq!(bodies(source), ["a", "b", "c"]);
}

#[test]
fn route_keys_compare_as_documented() {
    let scope: Table<Matcher> = Table::new();
    let key = |pattern: &str, index: usize| {
        let matcher = Matcher::Path(PathMatcher { patterns: texts(&[pattern]) });
        RouteOrderKey::new(5, &scope, &Some(matcher), index)
    };
    assert!(key("/abc*", 0).precedes(&key("/xyz", 1)));
    assert!(!key("/xyz", 1).precedes(&key("/abc*", 0)));
    assert!(key("/abc", 1).precedes(&key("/abc*", 0)));
    assert!(key("/abcd*", 1).precedes(&key("/abc", 0)));
    assert!(key("/abc", 0).precedes(&RouteOrderKey::for_catch_all(5)));
    assert!(!RouteOrderKey::for_catch_all(5).precedes(&key("/abc", 0)));
}

#[test]
fn moving_a_line_does_not_change_the_pipeline() {
    let one = "example.com {\n respond ok\n header X-A b\n basic_auth {\n u h\n }\n}";
    let two = "example.com {\n basic_auth {\n u h\n }\n respond ok\n header X-A b\n}";
    assert_eq!(first_server(one).routes, first_server(two).routes);
    let lines = ["respond ok", "root * /srv", "header X-A b", "respond /x no", "vars a b"];
    let orders = [[0, 1, 2, 3, 4], [4, 2, 1, 0, 3], [1, 3, 0, 2, 4], [2, 1, 4, 3, 0]];
    let site = |order: &[usize; 5]| {
        let body: Vec<&str> = order.iter().map(|k| lines[*k]).collect();
        format!("{:?}", first_server(&format!("example.com {{\n {}\n}}", body.join("\n "))))
    };
    for order in &orders {
        assert_eq!(site(order), site(&orders[0]));
    }
}

// ---------------------------------------------------------------------------
// Imports
// ---------------------------------------------------------------------------
#[test]
fn an_import_that_names_neither_a_snippet_nor_a_file_is_refused() {
    for source in [
        "import ./part.conf\nexample.com {\n respond ok\n}",
        "example.com {\n handle {\n import ./part.conf\n }\n}",
        "(a) {\n import ./part.conf\n}\nexample.com {\n import a\n}",
    ] {
        assert!(refusal(source).contains("./part.conf"), "{source}");
    }
    let unused = "(a) {\n import ./part.conf\n}\nexample.com {\n respond ok\n}";
    assert_eq!(bodies(unused), ["ok"]);
    let mut files: Table<Vec<Directive>> = Table::new();
    files.insert("./part.conf".to_string(), parse("respond there"));
    let source = parse("example.com {\n import ./part.conf\n}");
    assert!(adapt_from(source, files).is_ok());
}

// ---------------------------------------------------------------------------
// Response handlers and retries
// ---------------------------------------------------------------------------
const ENTRIES: &str = "replace_status 404\n @e status 500\n handle_response @e {\n respond \"b\"\n }\n handle_response {\n respond \"a\"\n }";

fn assert_matcherless_last(entries: &[ResponseHandlerConfig]) {
    assert_eq!(entries.len(), 3);
    let matched: Vec<bool> = entries.iter().map(|e| e.matcher.is_some()).collect();
    assert_eq!(matched, [true, false, false]);
    assert_eq!(entries[1].status_code, Some("404".to_string()));
    assert_eq!(entries[2].status_code, None);
}

#[test]
fn response_handlers_without_a_matcher_come_last() {
    let block = parse(ENTRIES);
    match collect_response_handlers(&block) {
        Ok(entries) => assert_matcherless_last(&entries),
        Err(error) => panic!("{}", error.message()),
    }
    assert_matcherless_last(&proxy(ENTRIES).handle_response);
}

fn proxy(lines: &str) -> ProxyConfig {
    let source = format!("http://:80 {{\n reverse_proxy 127.0.0.1:1 {{\n {lines}\n }}\n}}");
    let mut arms = first_server(&source).routes.unwrap();
    match arms.remove(0).handler {
        Handler::Proxy(proxy) => *proxy,
        other => panic!("expected a proxy, got {other:?}"),
    }
}

fn proxy_refusal(lines: &str) -> String {
    refusal(&format!("http://:80 {{\n reverse_proxy 127.0.0.1:1 {{\n {lines}\n }}\n}}"))
}

fn folded(expression: &str) -> RetryConfig {
    fold_retry_expression(RetryConfig::unset(), expression)
}

#[test]
fn a_retry_expression_is_kept_unless_the_lists_say_all_of_it() {
    let raw = "path_regexp('^/api/v[0-9]+/') && {rp.status_code} >= 500";
    let retry = folded(raw);
    assert_eq!(retry.expressions, texts(&[raw]));
    assert_eq!(retry.status_codes, (500..=599).collect::<Vec<u16>>());

    let raw = "{rp.status_code} in [502, 503] && method('POST')";
    let retry = folded(raw);
    assert_eq!(retry.expressions, texts(&[raw]));
    assert_eq!(retry.methods, texts(&["POST"]));

    for kept in [
        "header_regexp('X-A', '^b') && {rp.status_code} == 503",
        "{rp.status_code} == 502 || {rp.status_code} == 503",
        "!method('GET')",
        "method('GET', 'HEAD')",
        "{rp.is_transport_error} || method('GET')",
    ] {
        assert_eq!(folded(kept).expressions, texts(&[kept]), "{kept}");
    }

    let retry = folded("method('post') && {rp.status_code} == 503");
    assert_eq!(retry.methods, texts(&["POST"]));
    assert_eq!(retry.status_codes, [503]);
    assert!(retry.expressions.is_empty());
    let retry = folded("`{rp.status_code} in [503, 502, 503]`");
    assert_eq!(retry.status_codes, [502, 503]);
    assert!(retry.expressions.is_empty());
    assert!(folded("{rp.status_code} >= 599 && method('GET')").expressions.is_empty());
}

#[test]
fn numbers_that_do_not_fit_are_refused() {
    assert_eq!(
        proxy("health_passes 3\n health_fails 2").health_check.unwrap().consecutive_failure,
        Some(2)
    );
    for line in ["health_passes 4294967296", "health_fails 4294967296"] {
        assert!(proxy_refusal(line).contains("value is too large"), "{line}");
    }
    assert_eq!(proxy("request_buffers 4KB").request_buffer_bytes, Some(4096));
    assert_eq!(
        proxy("response_buffers 8589934591gb").response_buffer_bytes,
        Some(9_223_372_035_781_033_984)
    );
    assert!(proxy_refusal("response_buffers 8589934592gb").contains("overflows"));
}

#[test]
fn a_matcher_block_that_lists_nothing_is_refused_like_an_empty_one() {
    for block in ["{\n }", "{\n path\n }", "{\n method\n path\n }"] {
        let error = refusal(&format!("example.com {{\n @x {block}\n respond ok\n}}"));
        assert!(error.contains("Empty matcher block"), "{error}");
        let error = refusal(&format!(
            "example.com {{\n handle {{\n @x {block}\n respond ok\n }}\n}}"
        ));
        assert!(error.contains("Empty matcher block"), "{error}");
    }
    let server = first_server("example.com {\n @x {\n path\n method GET\n }\n respond @x ok\n}");
    assert!(format!("{:?}", server.matchers.get("@x")).contains("Get"));
    let error = refusal("example.com {\n bogus\n @x {\n path\n }\n}");
    assert!(error.contains("bogus"), "{error}");
}

#[test]
fn a_signed_duration_keeps_its_sign_and_is_never_cut() {
    let span = |word: &str| {
        let line = Directive {
            name: "dial_fallback_delay".to_string(),
            args: texts(&[word]),
            block: None,
        };
        parse_signed_duration(&line)
    };
    assert!(matches!(span("300ms"), Ok(300)));
    assert!(matches!(span("-1s"), Ok(-1_000)));
    assert!(matches!(span("9223372036854775807ms"), Ok(i64::MAX)));
    for word in ["9223372036854775808ms", "-9223372036854775808ms", "99999999999999999999d", "-"] {
        match span(word) {
            Ok(n) => panic!("{word} was read as {n}"),
            Err(error) => assert!(error.message().contains(word)),
        }
    }
}
