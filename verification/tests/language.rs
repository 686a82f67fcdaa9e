//! Directive orders, retry conditions and smaller pieces of the language.

use pingclair::adapter::matchers::match_field_pattern;
use pingclair::adapter::options::{accept_proxy_rule, is_wildcard_host};
use pingclair::adapter::order::DirectiveOrder;
use pingclair::adapter::retry_expr::{
    parse, RetryPredicate, MAX_RETRY_PREDICATE_DEPTH,
};
use pingclair::adapter::upstreams::expand_upstream_port_ranges;
use pingclair::ast::matcher::{HeaderCondition, HeaderMatcher};
use pingclair::ast::tree::Matcher;
use pingclair::decimal::is_fraction;
use pingclair::duration::parse_duration_ms;
use pingclair::ip::{is_ip, parse_ip, IpAddress};
use pingclair::table::Table;
use pingclair::text::{parse_u16, quote, show, to_lowercase, to_uppercase};

fn texts(list: &[&str]) -> Vec<String> {
    list.iter().map(|s| s.to_string()).collect()
}

// ---------------------------------------------------------------------------
// Orders
// ---------------------------------------------------------------------------
#[test]
fn the_default_order_matches_the_format() {
    let order = DirectiveOrder::default();
    assert_eq!(order.names.len(), 38);
    assert_eq!(order.names.first().map(String::as_str), Some("tracing"));
    assert_eq!(order.names.last().map(String::as_str), Some("acme_server"));
    assert!(order.rank("header") < order.rank("respond"));
    assert!(order.rank("basic_auth") < order.rank("file_server"));
    assert!(order.rank("respond") < order.rank("reverse_proxy"));
}

#[test]
fn a_directive_may_be_moved_to_either_end() {
    let mut order = DirectiveOrder::default();
    assert!(order.apply(&texts(&["file_server", "first"])).is_ok());
    assert_eq!(order.rank("file_server"), 0);

    let mut order = DirectiveOrder::default();
    let size = order.names.len();
    assert!(order.apply(&texts(&["header", "last"])).is_ok());
    assert_eq!(order.rank("header"), size - 1);
}

#[test]
fn a_directive_may_be_moved_next_to_another() {
    let mut order = DirectiveOrder::default();
    assert!(order.apply(&texts(&["encode", "before", "header"])).is_ok());
    assert!(order.rank("encode") < order.rank("header"));

    let mut order = DirectiveOrder::default();
    assert!(order.apply(&texts(&["header", "after", "respond"])).is_ok());
    assert!(order.rank("header") > order.rank("respond"));
}

#[test]
fn moving_a_directive_does_not_leave_a_copy_behind() {
    let size = DirectiveOrder::default().names.len();
    let mut order = DirectiveOrder::default();
    assert!(order.apply(&texts(&["encode", "first"])).is_ok());
    assert_eq!(order.names.iter().filter(|n| *n == "encode").count(), 1);
    assert_eq!(order.names.len(), size);
}

#[test]
fn a_malformed_order_is_refused() {
    for args in [
        texts(&["encode"]),
        texts(&["nonsuch", "first"]),
        texts(&["encode", "sideways"]),
        texts(&["encode", "before"]),
        texts(&["encode", "before", "nonsuch"]),
        texts(&["encode", "first", "header"]),
    ] {
        let mut order = DirectiveOrder::default();
        assert!(order.apply(&args).is_err(), "`order {}` must be refused", args.join(" "));
    }
}

// ---------------------------------------------------------------------------
// Retry conditions
// ---------------------------------------------------------------------------
fn parsed(expression: &str) -> RetryPredicate {
    match parse(expression) {
        Ok(predicate) => predicate,
        Err(error) => panic!("`{expression}`: {}", error.message),
    }
}

fn refused(expression: &str) -> String {
    match parse(expression) {
        Ok(predicate) => panic!("`{expression}` must be refused, got {predicate:?}"),
        Err(error) => error.message,
    }
}

#[test]
fn every_expression_in_the_upstream_fixtures_parses() {
    for expression in [
        "{rp.status_code} in [502, 503, 504]",
        "{rp.header.X-Retry} == \"true\"",
        "method('POST') && {rp.status_code} >= 500",
        "path('/api*') && {rp.status_code} in [502, 503]",
        "host('example.com') && {rp.status_code} == 503",
        "query({'retry': 'true'}) && {rp.status_code} >= 500",
        "header({'X-Idempotency-Key': '*'}) && {rp.status_code} in [502, 503]",
        "protocol('https') && {rp.status_code} == 502",
        "path_regexp('^/api/v[0-9]+/') && {rp.status_code} >= 500",
        "header_regexp('Content-Type', '^application/json') && {rp.status_code} == 502",
        "{rp.is_transport_error} || {rp.status_code} in [502, 503]",
        "{rp.is_transport_error} && method('POST')",
        "{rp.status_code} == 504",
        "{rp.is_transport_error} && method('PUT')",
        "{http.reverse_proxy.status_code} == 502",
    ] {
        parsed(expression);
    }
}

#[test]
fn and_binds_tighter_than_or() {
    let predicate = parsed("{rp.is_transport_error} || method('POST') && {rp.status_code} == 503");
    let RetryPredicate::Any { of } = &predicate else {
        panic!("the top level must be the `||`: {predicate:?}");
    };
    assert_eq!(of.len(), 2);
    assert!(matches!(of[0], RetryPredicate::TransportError));
    assert!(matches!(&of[1], RetryPredicate::All { of } if of.len() == 2));

    let predicate =
        parsed("({rp.is_transport_error} || method('POST')) && {rp.status_code} == 503");
    assert!(matches!(predicate, RetryPredicate::All { .. }));
}

#[test]
fn an_unknown_condition_is_refused_by_name() {
    assert!(refused("remote_ip('10.0.0.0/8')").contains("remote_ip"));
    assert!(refused("{rp.latency} > 5").contains("latency"));
    assert!(refused("{rp.status_code}").contains("`==`"));
    assert!(refused("method('POST') &&").contains("expected a condition"));
    assert!(refused("(method('POST')").contains("never closed"));
    assert!(refused("{rp.status_code} == 42").contains("between 100 and 599"));
    assert!(refused("header({'A': 'b', 'C': 'd'})").contains("&&"));
}

#[test]
fn a_deeply_nested_expression_is_refused_rather_than_recursed() {
    let deep = format!("{}{}{}", "(".repeat(500), "{rp.is_transport_error}", ")".repeat(500));
    assert!(refused(&deep).contains("deep"));
}

#[test]
fn nesting_is_allowed_up_to_the_limit() {
    let inner = MAX_RETRY_PREDICATE_DEPTH - 1;
    let fits = format!("{}{}{}", "(".repeat(inner), "{rp.is_transport_error}", ")".repeat(inner));
    assert_eq!(parsed(&fits), RetryPredicate::TransportError);
    let over = format!("({fits})");
    assert_eq!(
        refused(&over),
        format!("nested more than {MAX_RETRY_PREDICATE_DEPTH} levels deep")
    );
}

#[test]
fn conditions_keep_what_they_name() {
    assert_eq!(
        parsed("`{rp.status_code} in [502, 503]`"),
        RetryPredicate::Status { any_of: vec![502, 503] }
    );
    assert_eq!(
        parsed("{rp.status_code} >= 500"),
        RetryPredicate::StatusAtLeast { code: 500 }
    );
    assert_eq!(
        parsed("method('get', 'Post')"),
        RetryPredicate::Method { any_of: texts(&["GET", "POST"]) }
    );
    assert_eq!(
        parsed("protocol('HTTPS')"),
        RetryPredicate::Protocol { name: "https".to_string() }
    );
    assert_eq!(
        parsed("header({'A': 'b'})"),
        RetryPredicate::RequestHeader { name: "A".to_string(), any_of: texts(&["b"]) }
    );
    assert_eq!(
        parsed("query({'k': 'v'})"),
        RetryPredicate::Query { key: "k".to_string(), any_of: texts(&["v"]) }
    );
    assert_eq!(
        parsed("header_regexp(\"H\", 'p')"),
        RetryPredicate::HeaderRegexp { name: "H".to_string(), pattern: "p".to_string() }
    );
    assert_eq!(
        parsed("{rp.header.X} == 'y'"),
        RetryPredicate::ResponseHeader { name: "X".to_string(), value: "y".to_string() }
    );
}

#[test]
fn every_refusal_of_a_condition_says_why() {
    assert_eq!(refused("  ``  "), "the expression is empty");
    assert_eq!(
        refused("method('GET') method('PUT')"),
        "unexpected `method('PUT')` after a complete condition"
    );
    assert_eq!(refused("{rp.status_code"), "a `{` is never closed");
    assert_eq!(
        refused("{host} == 'a'"),
        "`{host}` is not a retry placeholder; only `{rp.…}` is available here"
    );
    assert_eq!(refused("{rp.header.X}"), "`{rp.header.X}` needs `== \"value\"`");
    assert_eq!(refused("{rp.status_code} in 5"), "`in` needs a list, as in `in [502, 503]`");
    assert_eq!(refused("{rp.status_code} in [502"), "a status list is never closed");
    assert_eq!(refused("{rp.status_code} == x"), "expected a status code");
    assert_eq!(refused("{rp.status_code} == 99999"), "`99999` is not a status code");
    assert_eq!(refused("method(GET)"), "expected a quoted value");
    assert_eq!(refused("method('GET)"), "a quoted value is never closed");
    assert_eq!(refused("method('GET'"), "`method(` is never closed");
    assert_eq!(refused("method"), "`method` needs its arguments");
    assert_eq!(
        refused("header('A')"),
        "`header` takes a map, as in `header({'Name': 'value'})`"
    );
    assert_eq!(refused("query({'A'})"), "`query` needs a value for `A`");
    assert_eq!(
        refused("header_regexp('A')"),
        "`header_regexp` needs a header name and a pattern"
    );
}

#[test]
fn white_space_beyond_ascii_between_parts_is_refused() {
    for expression in [
        "{rp.is_transport_error}\u{a0}&& method('POST')",
        "method(\u{2003}'POST')",
        "{rp.status_code}\u{3000}== 503",
    ] {
        assert_eq!(
            refused(expression),
            "white space beyond ASCII cannot stand between the parts of a condition"
        );
    }
    assert_eq!(parsed("\u{a0}{rp.is_transport_error}\u{a0}"), RetryPredicate::TransportError);
}

// ---------------------------------------------------------------------------
// Smaller pieces
// ---------------------------------------------------------------------------
#[test]
fn durations_add_up() {
    assert_eq!(parse_duration_ms("1h30m"), Some(5_400_000));
    assert_eq!(parse_duration_ms("1.5s"), Some(1_500));
    assert_eq!(parse_duration_ms("90d"), Some(7_776_000_000));
    assert_eq!(parse_duration_ms("0.9999999ms0.0000002ms"), Some(1));
    assert_eq!(parse_duration_ms("999999.9ns0.1ns"), Some(1));
    assert_eq!(parse_duration_ms("999999.9ns0.09ns"), None);
    assert_eq!(parse_duration_ms("0.4ms1.0999999999999999999999ms"), Some(1));
    assert_eq!(parse_duration_ms("0.4ms1.1ms"), Some(2));
    assert_eq!(parse_duration_ms("0.0000000000000000000000000000001d1h"), Some(3_600_000));
    assert_eq!(parse_duration_ms("99999999999999999999.9d"), Some(u64::MAX));
    assert_eq!(parse_duration_ms("30"), None);
    assert_eq!(parse_duration_ms(""), None);
}

#[test]
fn fractions_lie_strictly_between_zero_and_one() {
    for yes in ["0.5", ".5", "0.000001", "5e-1", "1e-3", "+0.25"] {
        assert!(is_fraction(yes), "{yes}");
    }
    for no in ["0", "1", "0.0", "1.0", "-0.5", "50e-1", "abc", "", ".", "1e3", "0e-5"] {
        assert!(!is_fraction(no), "{no}");
    }
}

#[test]
fn addresses_are_read_as_literals() {
    assert_eq!(parse_ip("127.0.0.1"), Some(IpAddress::V4(127, 0, 0, 1)));
    assert_eq!(parse_ip("::1"), Some(IpAddress::V6(vec![0, 0, 0, 0, 0, 0, 0, 1])));
    assert_eq!(
        parse_ip("2001:db8::192.0.2.1"),
        Some(IpAddress::V6(vec![0x2001, 0xdb8, 0, 0, 0, 0, 0xc000, 0x201]))
    );
    for no in ["256.0.0.1", "1.2.3", "01.2.3.4", "1::2::3", "g::1", "localhost", ""] {
        assert!(!is_ip(no), "{no}");
    }
    assert!(parse_ip("127.9.9.9").unwrap().is_loopback());
    assert!(parse_ip("::1").unwrap().is_loopback());
    assert!(!parse_ip("::2").unwrap().is_loopback());
}

#[test]
fn a_later_binding_replaces_an_earlier_one() {
    let mut table: Table<String> = Table::new();
    table.insert("a".to_string(), "1".to_string());
    table.insert("b".to_string(), "2".to_string());
    table.insert("a".to_string(), "3".to_string());
    assert_eq!(table.get("a").map(String::as_str), Some("3"));
    assert_eq!(table.get("b").map(String::as_str), Some("2"));
    assert!(!table.contains_key("c"));
}

#[test]
fn texts_are_cased_and_quoted_as_the_standard_library_does() {
    assert_eq!(to_lowercase("ÄBC"), "äbc");
    assert_eq!(to_uppercase("straße"), "STRASSE");
    assert_eq!(quote("a\"b\n"), "\"a\\\"b\\n\"");
    assert_eq!(show(0), "0");
    assert_eq!(show(1048576), "1048576");
    assert_eq!(parse_u16("+65535"), Some(65535));
    assert_eq!(parse_u16("65536"), None);
}

#[test]
fn trusted_proxies_are_addresses_or_networks() {
    assert!(accept_proxy_rule("anything", true).is_ok());
    assert!(accept_proxy_rule("anything", false).is_err());
    assert!(accept_proxy_rule("10.0.0.1", false).is_ok());
    assert!(is_wildcard_host("0.0.0.0"));
    assert!(is_wildcard_host("[::]"));
    assert!(!is_wildcard_host("127.0.0.1"));
}

#[test]
fn a_pattern_is_a_condition_unless_it_is_broken() {
    assert_eq!(
        match_field_pattern("X-A", "^a+$", None),
        Ok(Matcher::Header(HeaderMatcher {
            name: "X-A".to_string(),
            condition: HeaderCondition::Regex("^a+$".to_string()),
        }))
    );
    let broken = match_field_pattern("X-A", "(", Some("unclosed group".to_string()));
    match broken {
        Ok(_) => panic!("a broken pattern must be refused"),
        Err(error) => assert!(error.message().contains("unclosed group")),
    }
}

#[test]
fn port_ranges_expand_and_plain_addresses_stay() {
    let list = texts(&["a:1", "b:8000-8002", "c"]);
    assert_eq!(
        expand_upstream_port_ranges(&list),
        texts(&["a:1", "b:8000", "b:8001", "b:8002", "c"])
    );
}
