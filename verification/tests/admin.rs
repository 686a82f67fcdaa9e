//! The admin interface.

use pingclair::admin::auth::{
    authorize, origin_allowed, ApiKeyAuth, AuthDecision, OriginPolicy,
};
use pingclair::admin::body::{
    is_hopeless, BodyError, BodyReader, Flow, Frame, MAX_CONFIG_BODY_BYTES, MAX_DRAIN_BYTES,
};
use pingclair::admin::commit::{Commit, Stage, Step};
use pingclair::admin::config_tree::{
    expand_append, find_id_path, get, remove, segments_from_path, Mode, TreeError,
};
use pingclair::admin::json::Json;
use pingclair::admin::requests::{
    accept_json, adapt_refused, body_format, body_refused, config_refused, live,
    normalize_config_segments, plan_change, plan_tagged, purge_body_refused, purge_done,
    purge_malformed, read_json_body, read_node, ready, receive, reply, report, route, source_text,
    unwritable, Action, Format, Head, Method, Reply, TagPlan,
};
use pingclair::ip::IpAddress;

fn texts(list: &[&str]) -> Vec<String> {
    list.iter().map(|s| s.to_string()).collect()
}

fn localhost() -> IpAddress {
    IpAddress::V4(127, 0, 0, 1)
}

// ---------------------------------------------------------------------------
// Keys and origins
// ---------------------------------------------------------------------------
#[test]
fn key_validation_answers_correctly_at_every_length() {
    let auth = ApiKeyAuth::new("s3cret-token");

    assert!(auth.validate("s3cret-token"));
    assert!(!auth.validate("X3cret-token"));
    assert!(!auth.validate("s3cret-tokeX"));
    assert!(!auth.validate("s3cret-toke"));
    assert!(!auth.validate("s3cret-tokenn"));
    assert!(!auth.validate(""));
    assert!(!auth.validate("completely different and longer"));
}

#[test]
fn an_empty_configured_key_does_not_match_everything() {
    let auth = ApiKeyAuth::new("");
    assert!(!auth.validate("anything"));
    assert!(auth.validate(""));
}

fn policy(allowed: &[&str], enforce: bool) -> OriginPolicy {
    OriginPolicy { allowed: texts(allowed), enforce, listen: "127.0.0.1:2019".to_string() }
}

#[test]
fn an_unknown_browser_origin_is_refused() {
    assert!(!origin_allowed(&policy(&[], false), Some("https://evil.example"), &localhost()));
}

#[test]
fn a_request_without_an_origin_is_allowed_by_default() {
    assert!(origin_allowed(&policy(&[], false), None, &localhost()));
}

#[test]
fn enforce_origin_refuses_a_request_without_one() {
    assert!(!origin_allowed(&policy(&[], true), None, &localhost()));
}

#[test]
fn a_named_origin_is_allowed_whatever_its_scheme() {
    let p = policy(&["admin.example.com"], true);
    for origin in ["http://admin.example.com", "https://admin.example.com"] {
        assert!(origin_allowed(&p, Some(origin), &localhost()), "{origin} should be allowed");
    }
}

#[test]
fn the_listen_address_is_always_allowed() {
    assert!(origin_allowed(&policy(&[], true), Some("http://127.0.0.1:2019"), &localhost()));
}

#[test]
fn origins_match_whole_hosts_not_prefixes() {
    let p = policy(&["admin.example.com"], true);
    assert!(!origin_allowed(&p, Some("https://admin.example.com.attacker.net"), &localhost()));
}

#[test]
fn local_origins_need_no_listing_without_enforcement() {
    for origin in [
        "http://localhost:3000",
        "https://127.0.0.9",
        "LOCALHOST/",
        "http://[::1]:2019",
        "https://[0:0::1]",
    ] {
        assert!(origin_allowed(&policy(&["x"], false), Some(origin), &localhost()));
        assert!(!origin_allowed(&policy(&["x"], true), Some(origin), &localhost()));
    }
    for origin in ["http://[::1].example", "http://[::2]:2019", "http://[localhost", "http://[]"] {
        assert!(!origin_allowed(&policy(&["x"], false), Some(origin), &localhost()));
    }
}

const KEY: &str = "s3cret-admin-key";

#[test]
fn correct_key_is_allowed() {
    let auth = ApiKeyAuth::new(KEY);
    let decision = authorize(Some(&auth), Some("Bearer s3cret-admin-key"), &localhost());
    assert_eq!(decision, AuthDecision::Allowed);
}

#[test]
fn wrong_key_is_unauthorized() {
    let auth = ApiKeyAuth::new(KEY);
    let decision = authorize(Some(&auth), Some("Bearer wrong-key"), &localhost());
    assert_eq!(decision, AuthDecision::Unauthorized);
}

#[test]
fn missing_header_is_unauthorized() {
    let auth = ApiKeyAuth::new(KEY);
    let decision = authorize(Some(&auth), None, &localhost());
    assert_eq!(decision, AuthDecision::Unauthorized);
}

#[test]
fn keyless_loopback_is_allowed() {
    let v4 = authorize(None, None, &localhost());
    let v6 = authorize(None, None, &IpAddress::V6(vec![0, 0, 0, 0, 0, 0, 0, 1]));
    assert_eq!(v4, AuthDecision::Allowed);
    assert_eq!(v6, AuthDecision::Allowed);
}

#[test]
fn keyless_remote_is_forbidden() {
    let decision = authorize(None, None, &IpAddress::V4(192, 168, 1, 10));
    assert_eq!(decision, AuthDecision::Forbidden);
}

// ---------------------------------------------------------------------------
// The document
// ---------------------------------------------------------------------------
fn string(s: &str) -> Json {
    Json::String(s.to_string())
}

fn number(n: u64) -> Json {
    Json::Number(n.to_string())
}

fn object(fields: Vec<(&str, Json)>) -> Json {
    Json::object(fields.into_iter().map(|(name, value)| (name.to_string(), value)).collect())
}

fn sample() -> Json {
    object(vec![(
        "servers",
        Json::Array(vec![object(vec![
            ("name", string("_")),
            ("listen", Json::Array(vec![string("127.0.0.1:8080")])),
            (
                "routes",
                Json::Array(vec![object(vec![
                    ("path", string("/*")),
                    (
                        "handler",
                        object(vec![
                            ("type", string("respond")),
                            ("status", number(200)),
                            ("body", string("hi")),
                        ]),
                    ),
                ])]),
            ),
        ])]),
    )])
}

fn at(doc: &Json, path: &str) -> Option<String> {
    match get(doc, &segments_from_path(path)) {
        Ok(node) => Some(format!("{node:?}")),
        Err(_) => None,
    }
}

fn write(doc: &mut Json, path: &str, value: Json, mode: Mode) -> Result<(), TreeError> {
    pingclair::admin::config_tree::set(doc, &segments_from_path(path), value, mode)
}

const BODY: &str = "/servers/0/routes/0/handler/body";

#[test]
fn get_resolves_object_keys_and_array_indices() {
    let doc = sample();
    assert_eq!(get(&doc, &segments_from_path(BODY)), Ok(&string("hi")));
    assert!(get(&doc, &segments_from_path("/servers/9")).is_err());
}

#[test]
fn post_upserts_missing_and_existing_object_keys() {
    let mut doc = sample();
    assert_eq!(write(&mut doc, BODY, string("updated"), Mode::Upsert), Ok(()));
    assert_eq!(get(&doc, &segments_from_path(BODY)), Ok(&string("updated")));

    assert_eq!(write(&mut doc, "/servers/0/extra", Json::Bool(true), Mode::Upsert), Ok(()));
    assert_eq!(get(&doc, &segments_from_path("/servers/0/extra")), Ok(&Json::Bool(true)));
}

#[test]
fn put_inserts_into_arrays_and_rejects_existing_keys() {
    let mut doc = sample();
    assert_eq!(
        write(&mut doc, "/servers/0/name", string("x"), Mode::Create),
        Err(TreeError::Conflict)
    );
    assert_eq!(
        write(&mut doc, "/servers/0/listen/0", string("127.0.0.1:9999"), Mode::Create),
        Ok(())
    );
    assert_eq!(
        get(&doc, &segments_from_path("/servers/0/listen")),
        Ok(&Json::Array(vec![string("127.0.0.1:9999"), string("127.0.0.1:8080")]))
    );
}

#[test]
fn patch_replaces_existing_nodes_only() {
    let mut doc = sample();
    assert_eq!(
        write(&mut doc, "/servers/0/missing", number(1), Mode::Replace),
        Err(TreeError::NotFound)
    );
    assert_eq!(write(&mut doc, BODY, string("patched"), Mode::Replace), Ok(()));
    assert_eq!(get(&doc, &segments_from_path(BODY)), Ok(&string("patched")));
}

#[test]
fn delete_removes_nodes_and_missing_paths_fail() {
    let mut doc = sample();
    assert_eq!(
        remove(&mut doc, &segments_from_path("/servers/0/nope")),
        Err(TreeError::NotFound)
    );
    assert_eq!(remove(&mut doc, &segments_from_path(BODY)), Ok(string("hi")));
    assert_eq!(at(&doc, BODY), None);
}

#[test]
fn expand_appends_every_array_element() {
    let mut doc = sample();
    let body = Json::Array(vec![string("127.0.0.1:1"), string("127.0.0.1:2")]);
    assert_eq!(expand_append(&mut doc, &segments_from_path("/servers/0/listen"), &body), Ok(()));
    assert_eq!(
        get(&doc, &segments_from_path("/servers/0/listen")),
        Ok(&Json::Array(vec![
            string("127.0.0.1:8080"),
            string("127.0.0.1:1"),
            string("127.0.0.1:2"),
        ]))
    );
}

fn tagged() -> Json {
    let mut doc = sample();
    assert_eq!(
        write(&mut doc, "/servers/0/routes/0/handler/@id", string("msg"), Mode::Upsert),
        Ok(())
    );
    doc
}

#[test]
fn id_tags_resolve_to_their_object_path() {
    let doc = tagged();
    let path = find_id_path(&doc, "msg").expect("tag is found");
    assert_eq!(path, ["servers", "0", "routes", "0", "handler"]);
    assert!(find_id_path(&doc, "missing").is_none());
}

#[test]
fn the_first_object_with_a_tag_is_the_one_that_counts() {
    let tag = |name: &str, inner: Json| object(vec![("@id", string(name)), ("z", inner)]);
    let doc = object(vec![
        ("a", Json::Array(vec![Json::Null, tag("x", tag("y", Json::Null))])),
        ("b", tag("y", Json::Null)),
        ("c", tag("x", Json::Null)),
        ("d", object(vec![("@id", number(7)), ("name", string("w"))])),
    ]);
    assert_eq!(find_id_path(&doc, "x"), Some(texts(&["a", "1"])));
    assert_eq!(find_id_path(&doc, "y"), Some(texts(&["a", "1", "z"])));
    assert_eq!(find_id_path(&doc, "7"), None);
    assert_eq!(find_id_path(&doc, "w"), None);
    assert_eq!(find_id_path(&tag("x", doc), "x"), Some(vec![]));
}

#[test]
fn a_creation_shifts_nothing_but_the_items_behind_it() {
    let mut doc = sample();
    assert_eq!(write(&mut doc, "/servers/0/extra", number(1), Mode::Create), Ok(()));
    assert_eq!(get(&doc, &segments_from_path(BODY)), Ok(&string("hi")));
    assert_eq!(write(&mut doc, "/servers/0/listen/1", string("b"), Mode::Create), Ok(()));
    assert_eq!(
        get(&doc, &segments_from_path("/servers/0/listen/0")),
        Ok(&string("127.0.0.1:8080"))
    );
    assert_eq!(write(&mut doc, "/servers/0/listen/0", string("c"), Mode::Create), Ok(()));
    assert_eq!(
        get(&doc, &segments_from_path("/servers/0/listen/1")),
        Ok(&string("127.0.0.1:8080"))
    );
    let mut nothing = Json::Null;
    assert_eq!(write(&mut nothing, "/", number(1), Mode::Create), Ok(()));
    assert_eq!(remove(&mut nothing, &[]), Ok(number(1)));
    assert_eq!(nothing, Json::Null);
}

#[test]
fn fields_are_kept_in_the_order_of_their_names() {
    let doc = object(vec![("b", number(1)), ("a", number(2)), ("aa", number(3)), ("b", number(4))]);
    assert_eq!(
        doc,
        Json::Object(vec![
            ("a".to_string(), number(2)),
            ("aa".to_string(), number(3)),
            ("b".to_string(), number(4)),
        ])
    );
}

#[test]
fn a_refused_change_leaves_the_document_alone() {
    let mut doc = sample();
    let all = [
        ("/servers/7/x", Mode::Upsert, TreeError::NotFound),
        ("/servers/0/name", Mode::Create, TreeError::Conflict),
        (
            "/servers/0/name/x",
            Mode::Upsert,
            TreeError::Invalid("cannot write into a scalar".to_string()),
        ),
        (
            "/servers/0/name/x/y",
            Mode::Upsert,
            TreeError::Invalid("cannot descend into a scalar".to_string()),
        ),
        (
            "/servers/zero",
            Mode::Upsert,
            TreeError::Invalid("array index expected, got `zero`".to_string()),
        ),
        (
            "/servers/2",
            Mode::Create,
            TreeError::Invalid("array index out of range".to_string()),
        ),
        ("/servers/1", Mode::Replace, TreeError::NotFound),
        ("/", Mode::Create, TreeError::Conflict),
    ];
    for (path, mode, expected) in all {
        assert_eq!(write(&mut doc, path, Json::Null, mode), Err(expected), "{path}");
        assert_eq!(doc, sample());
    }
    assert_eq!(
        remove(&mut doc, &segments_from_path("/servers/0/name/x")),
        Err(TreeError::Invalid("cannot delete from a scalar".to_string()))
    );
    assert_eq!(
        expand_append(&mut doc, &segments_from_path("/servers"), &Json::Null),
        Err(TreeError::Invalid("`...` expansion requires an array body".to_string()))
    );
    assert_eq!(
        expand_append(&mut doc, &segments_from_path("/servers/0"), &Json::Array(vec![])),
        Err(TreeError::Invalid("`...` expansion requires an array target".to_string()))
    );
    assert_eq!(doc, sample());
}

#[test]
fn removing_what_was_created_gives_the_document_back() {
    for path in ["/servers/0/extra", "/servers/0/listen/0", "/servers/1"] {
        let mut doc = sample();
        assert_eq!(write(&mut doc, path, number(7), Mode::Create), Ok(()));
        assert_eq!(get(&doc, &segments_from_path(path)), Ok(&number(7)));
        assert_eq!(remove(&mut doc, &segments_from_path(path)), Ok(number(7)));
        assert_eq!(doc, sample());
    }
}

#[test]
fn the_whole_document_can_be_replaced_and_removed() {
    let mut doc = sample();
    assert_eq!(write(&mut doc, "", number(1), Mode::Upsert), Ok(()));
    assert_eq!(doc, number(1));
    assert_eq!(remove(&mut doc, &[]), Ok(number(1)));
    assert_eq!(doc, Json::Null);
    assert_eq!(write(&mut doc, "", number(2), Mode::Create), Ok(()));
    assert_eq!(doc, number(2));
}

#[test]
fn tree_errors_say_what_happened() {
    assert_eq!(TreeError::NotFound.message(), "config path does not exist");
    assert_eq!(TreeError::Conflict.message(), "config path already exists");
    assert_eq!(TreeError::Invalid("x".to_string()).message(), "invalid config path: x");
}

#[test]
fn empty_segments_do_not_count() {
    assert_eq!(segments_from_path("//a///b/"), ["a", "b"]);
    assert!(segments_from_path("/").is_empty());
}

// ---------------------------------------------------------------------------
// Requests
// ---------------------------------------------------------------------------
#[test]
fn requests_are_routed_by_method_and_path() {
    let all = [
        (Method::Get, "/health", Action::Answer(reply(200, "{\"status\":\"healthy\"}"))),
        (Method::Get, "/live", Action::Live),
        (Method::Get, "/ready", Action::Ready),
        (Method::Get, "/metrics", Action::Metrics),
        (Method::Get, "/config", Action::Export),
        (Method::Get, "/config/", Action::Export),
        (Method::Get, "/config/apps/http", Action::Read(texts(&["apps", "http"]))),
        (Method::Get, "/config/3", Action::Read(texts(&["servers", "3"]))),
        (Method::Get, "/cache/", Action::CacheStatus),
        (Method::Get, "/id/msg/body", Action::Tagged(Method::Get, "msg/body".to_string())),
        (Method::Post, "/cache/purge", Action::Purge),
        (Method::Post, "/load", Action::Load),
        (Method::Post, "/adapt", Action::Adapt),
        (Method::Post, "/stop", Action::Stop),
        (Method::Post, "/config", Action::ReplaceAll),
        (Method::Post, "/config/a/...", Action::Change(Method::Post, texts(&["a", "..."]))),
        (Method::Put, "/config/a", Action::Change(Method::Put, texts(&["a"]))),
        (Method::Patch, "/config/0", Action::Change(Method::Patch, texts(&["servers", "0"]))),
        (Method::Delete, "/config", Action::Change(Method::Delete, texts(&[]))),
        (Method::Delete, "/id/x", Action::Tagged(Method::Delete, "x".to_string())),
        (Method::Put, "/load", Action::Answer(reply(404, "Not Found"))),
        (Method::Other, "/config", Action::Answer(reply(404, "Not Found"))),
        (Method::Get, "/", Action::Answer(reply(404, "Not Found"))),
    ];
    for (method, path, expected) in all {
        assert_eq!(route(method, path), expected, "{method:?} {path}");
    }
}

fn head(origin: Option<&str>, authorization: Option<&str>, peer: IpAddress) -> Head {
    Head {
        method: Method::Post,
        path: "/stop".to_string(),
        origin: origin.map(str::to_string),
        authorization: authorization.map(str::to_string),
        peer,
    }
}

#[test]
fn the_origin_is_looked_at_before_the_key() {
    let auth = ApiKeyAuth::new(KEY);
    let p = policy(&[], false);
    let bearer = Some("Bearer s3cret-admin-key");
    let refused = Action::Answer(report(403, "origin not allowed"));
    let evil = Some("https://evil.example");
    assert_eq!(receive(&p, Some(&auth), &head(evil, bearer, localhost())), refused);
    assert_eq!(receive(&p, Some(&auth), &head(None, bearer, localhost())), Action::Stop);
    assert_eq!(
        receive(&p, Some(&auth), &head(None, None, localhost())),
        Action::Answer(reply(401, "{\"error\":\"unauthorized\"}"))
    );
    assert_eq!(
        receive(&p, None, &head(None, None, IpAddress::V4(10, 0, 0, 1))),
        Action::Answer(reply(403, "{\"error\":\"forbidden\"}"))
    );
}

#[test]
fn a_lone_index_names_a_server() {
    assert_eq!(normalize_config_segments(texts(&["0"])), ["servers", "0"]);
    assert_eq!(normalize_config_segments(texts(&["a"])), ["a"]);
    assert_eq!(normalize_config_segments(texts(&["0", "1"])), ["0", "1"]);
}

#[test]
fn reading_a_missing_path_is_answered_with_the_reason() {
    let doc = sample();
    assert_eq!(read_node(&doc, &segments_from_path(BODY)), Ok(&string("hi")));
    assert_eq!(
        read_node(&doc, &texts(&["nope"])),
        Err(reply(404, "{\"error\":\"config path does not exist\"}"))
    );
}

#[test]
fn changes_are_planned_on_a_copy() {
    let doc = sample();
    let next = plan_change(&doc, Method::Put, texts(&["x"]), Some(number(1)));
    match &next {
        Ok(next) => assert_eq!(get(next, &texts(&["x"])), Ok(&number(1))),
        Err(error) => panic!("{error:?}"),
    }
    assert_eq!(doc, sample());
    let listen = texts(&["servers", "0", "listen", "..."]);
    match plan_change(&doc, Method::Post, listen, Some(Json::Array(vec![string("b")]))) {
        Ok(next) => assert_eq!(
            get(&next, &texts(&["servers", "0", "listen", "1"])),
            Ok(&string("b"))
        ),
        Err(error) => panic!("{error:?}"),
    }
    let cases: Vec<(Method, Vec<String>, Option<Json>, Reply)> = vec![
        (
            Method::Put,
            texts(&["servers"]),
            Some(Json::Null),
            reply(409, "{\"error\":\"config path already exists\"}"),
        ),
        (
            Method::Patch,
            texts(&["nope"]),
            Some(Json::Null),
            reply(404, "{\"error\":\"config path does not exist\"}"),
        ),
        (
            Method::Delete,
            texts(&["servers", "x"]),
            None,
            reply(400, "{\"error\":\"invalid config path: array index expected, got `x`\"}"),
        ),
        (
            Method::Post,
            texts(&["a"]),
            None,
            reply(400, "{\"error\":\"this method requires a JSON body\"}"),
        ),
    ];
    for (method, path, body, expected) in cases {
        assert_eq!(plan_change(&doc, method, path, body), Err(expected));
    }
}

#[test]
fn tagged_objects_are_read_and_changed_by_name() {
    let doc = tagged();
    assert_eq!(plan_tagged(&doc, Method::Get, "msg/body", None), TagPlan::Show(string("hi")));
    match plan_tagged(&doc, Method::Patch, "msg/body", Some(string("new"))) {
        TagPlan::Commit(next) => {
            assert_eq!(get(&next, &segments_from_path(BODY)), Ok(&string("new")));
        }
        other => panic!("{other:?}"),
    }
    assert_eq!(
        plan_tagged(&doc, Method::Get, "other", None),
        TagPlan::Answer(reply(404, "{\"error\":\"no @id named other\"}"))
    );
    assert_eq!(
        plan_tagged(&doc, Method::Get, "msg/none", None),
        TagPlan::Answer(reply(404, "{\"error\":\"no @id named msg\"}"))
    );
    assert_eq!(
        plan_tagged(&doc, Method::Delete, "", None),
        TagPlan::Answer(reply(400, "{\"error\":\"expected /id/<name>\"}"))
    );
}

#[test]
fn answers_have_the_documented_form() {
    assert_eq!(live("draining").body, "{\"status\":\"live\",\"phase\":\"draining\"}");
    assert_eq!(ready(true, "ready"), reply(200, "{\"ready\":true,\"phase\":\"ready\"}"));
    assert_eq!(ready(false, "starting"), reply(503, "{\"ready\":false,\"phase\":\"starting\"}"));
    assert_eq!(purge_done(true), reply(200, "{\"purged\":true}"));
    assert_eq!(purge_done(false), reply(200, "{\"purged\":false}"));
    assert_eq!(
        purge_malformed().body,
        r#"{"error":"expected {\"host\":\"...\",\"path\":\"...\"}"}"#
    );
    assert_eq!(
        body_refused(BodyError::TooLarge),
        reply(413, "{\"error\":\"config body exceeds 1048576 bytes\"}")
    );
    assert_eq!(
        body_refused(BodyError::Incomplete),
        reply(400, "{\"error\":\"could not read the request body\"}")
    );
    assert_eq!(
        purge_body_refused(BodyError::TooLarge),
        reply(413, "{\"error\":\"request body too large\"}")
    );
    assert_eq!(
        purge_body_refused(BodyError::Incomplete),
        reply(400, "{\"error\":\"could not read request body\"}")
    );
    assert_eq!(accept_json(Err("x".to_string())), Err(reply(400, "Invalid JSON: x")));
    assert_eq!(config_refused("x"), reply(400, "Invalid config: x"));
    assert_eq!(adapt_refused("x"), reply(400, "Adapt error: x"));
    assert_eq!(unwritable("x"), reply(500, "Serialization error: x"));
}

#[test]
fn a_json_body_is_read_with_its_fields_in_order() {
    let body = br#"{"b":1,"a":[true,null,"xA",-3,2.50,18446744073709551615],"c":{},"b":2}"#;
    assert_eq!(
        read_json_body(Ok(body.to_vec())),
        Ok(Json::Object(vec![
            (
                "a".to_string(),
                Json::Array(vec![
                    Json::Bool(true),
                    Json::Null,
                    string("xA"),
                    Json::Number("-3".to_string()),
                    Json::Number("2.5".to_string()),
                    Json::Number("18446744073709551615".to_string()),
                ])
            ),
            ("b".to_string(), Json::Number("2".to_string())),
            ("c".to_string(), Json::Object(vec![])),
        ]))
    );
    assert_eq!(accept_json(Ok(Json::Null)), Ok(Json::Null));
}

#[test]
fn a_body_that_is_no_json_is_refused_with_the_reason() {
    assert_eq!(
        read_json_body(Ok(b"{".to_vec())),
        Err(reply(400, "Invalid JSON: EOF while parsing an object at line 1 column 1"))
    );
    assert_eq!(
        read_json_body(Ok(b"\n nope".to_vec())),
        Err(reply(400, "Invalid JSON: expected ident at line 2 column 3"))
    );
    assert_eq!(
        read_json_body(Err(BodyError::Incomplete)),
        Err(reply(400, "{\"error\":\"could not read the request body\"}"))
    );
    assert_eq!(
        read_json_body(Err(BodyError::TooLarge)),
        Err(reply(413, "{\"error\":\"config body exceeds 1048576 bytes\"}"))
    );
}

#[test]
fn the_content_type_tells_the_format() {
    assert_eq!(body_format(Some("text/CADDYFILE; charset=utf-8")), Format::Caddyfile);
    assert_eq!(body_format(Some("application/json")), Format::Json);
    assert_eq!(body_format(None), Format::Json);
}

#[test]
fn a_source_must_be_text() {
    assert_eq!(source_text("grüß".as_bytes()), Ok("grüß"));
    assert_eq!(
        source_text(&[0xff, 0xfe]),
        Err(reply(400, "{\"error\":\"config body is not UTF-8 text\"}"))
    );
}

// ---------------------------------------------------------------------------
// Bodies
// ---------------------------------------------------------------------------
#[test]
fn a_body_within_the_limit_is_kept_whole() {
    let mut reader = BodyReader::new();
    assert_eq!(reader.accept(Frame::Data(vec![1, 2])), Flow::Continue);
    assert_eq!(reader.accept(Frame::Trailers), Flow::Continue);
    assert_eq!(reader.accept(Frame::Data(vec![3])), Flow::Continue);
    assert_eq!(reader.finish(), Ok(vec![1, 2, 3]));
}

#[test]
fn a_body_past_the_limit_is_drained_and_refused() {
    let mut reader = BodyReader::new();
    assert_eq!(reader.accept(Frame::Data(vec![0; MAX_CONFIG_BODY_BYTES])), Flow::Continue);
    assert_eq!(reader.accept(Frame::Data(vec![0])), Flow::Continue);
    assert_eq!(reader.accept(Frame::Data(vec![0; MAX_DRAIN_BYTES])), Flow::Finish);
    assert_eq!(reader.finish(), Err(BodyError::TooLarge));
}

#[test]
fn a_failed_transfer_is_given_up() {
    let mut reader = BodyReader::new();
    assert_eq!(reader.accept(Frame::Failed), Flow::Abort);
}

#[test]
fn a_declared_length_can_be_hopeless() {
    assert!(is_hopeless(Some("8388609")));
    assert!(!is_hopeless(Some("8388608")));
    assert!(!is_hopeless(Some("many")));
    assert!(!is_hopeless(None));
}

// ---------------------------------------------------------------------------
// Commits
// ---------------------------------------------------------------------------
fn check(addr: &str) -> Step {
    Step::Check(addr.to_string())
}

#[test]
fn a_commit_starts_what_is_missing_and_retires_what_is_left() {
    let servers = vec![texts(&["a"]), texts(&["b", "c"])];
    let (mut commit, step) = Commit::begin(servers, true);
    assert_eq!(step, check("a"));
    assert_eq!(commit.check(true), check("b"));
    assert_eq!(commit.check(false), Step::Start("b".to_string(), 1));
    assert_eq!(commit.start(None), check("c"));
    assert_eq!(commit.check(true), Step::Resolve);
    assert_eq!(
        commit.resolve(&texts(&["a", "b", "c", "old", "boot"])),
        Step::Apply(vec![
            ("a".to_string(), 0),
            ("b".to_string(), 1),
            ("c".to_string(), 1),
        ])
    );
    assert_eq!(commit.apply(), Step::Survey);
    let existing = vec![
        ("a".to_string(), true),
        ("old".to_string(), true),
        ("b".to_string(), true),
        ("boot".to_string(), false),
    ];
    assert_eq!(
        commit.survey(&existing),
        Step::Retire(vec![("old".to_string(), true), ("boot".to_string(), false)])
    );
    assert_eq!(commit.stage, Stage::Ended);
}

#[test]
fn a_refused_start_stops_what_was_started() {
    let (mut commit, _) = Commit::begin(vec![texts(&["a", "b"])], true);
    assert_eq!(commit.check(false), Step::Start("a".to_string(), 0));
    assert_eq!(commit.start(None), check("b"));
    assert_eq!(commit.check(false), Step::Start("b".to_string(), 0));
    assert_eq!(
        commit.start(Some("in use")),
        Step::Fail(texts(&["a"]), reply(400, "failed to create listener b: in use"))
    );
}

#[test]
fn an_address_that_stays_unbound_stops_what_was_started() {
    let (mut commit, _) = Commit::begin(vec![texts(&["a"])], true);
    assert_eq!(commit.check(false), Step::Start("a".to_string(), 0));
    assert_eq!(commit.start(None), Step::Resolve);
    assert_eq!(
        commit.resolve(&texts(&[])),
        Step::Fail(
            texts(&["a"]),
            reply(404, "{\"error\":\"no listener is bound to a; nothing was applied\"}")
        )
    );
}

#[test]
fn without_the_means_every_address_must_be_bound() {
    let (mut commit, _) = Commit::begin(vec![texts(&["a"])], false);
    assert_eq!(
        commit.check(false),
        Step::Fail(
            vec![],
            reply(503, "listener a is not bound and runtime listener creation is unavailable")
        )
    );
    let (mut commit, _) = Commit::begin(vec![texts(&["a"])], false);
    assert_eq!(commit.check(true), Step::Resolve);
    assert_eq!(commit.resolve(&texts(&["a"])), Step::Apply(vec![("a".to_string(), 0)]));
    assert_eq!(commit.apply(), Step::Retire(vec![]));
}

#[test]
fn a_server_without_addresses_is_refused() {
    let (commit, step) = Commit::begin(vec![vec![]], true);
    assert_eq!(
        step,
        Step::Fail(
            vec![],
            reply(400, "{\"error\":\"a server declares no listen address\"}")
        )
    );
    assert_eq!(commit.stage, Stage::Ended);
}

#[test]
fn a_server_without_addresses_stops_what_was_started() {
    let (mut commit, _) = Commit::begin(vec![texts(&["127.0.0.1:1"]), vec![]], true);
    assert_eq!(commit.check(false), Step::Start("127.0.0.1:1".to_string(), 0));
    assert_eq!(
        commit.start(None),
        Step::Fail(
            texts(&["127.0.0.1:1"]),
            reply(400, "{\"error\":\"a server declares no listen address\"}")
        )
    );
}
