//! What an admin request asks for, and what it is answered.

use crate::admin::auth;
use crate::admin::auth::{authorize, origin_allowed, ApiKeyAuth, AuthDecision, OriginPolicy};
use crate::admin::body::{BodyError, MAX_CONFIG_BODY_BYTES};
use crate::admin::config_tree;
use crate::admin::config_tree::{
    expand_append, find_id_path, get, remove, segments_from_path, Mode, TreeError,
};
use crate::admin::json;
use crate::admin::json::{Json, JsonV};
use crate::duplicate::Duplicate;
use crate::ip::IpAddress;
use crate::text;
use crate::text::{
    after, begins, before, cat, cat3, cat5, find, mentions, parse_usize, same, show, strip,
    to_lower,
};
use vstd::prelude::*;
use vstd::utf8;

verus! {

// ---------------------------------------------------------------------------
// Replies
// ---------------------------------------------------------------------------
/// An answer to a request.
#[derive(Debug, PartialEq, Eq)]
pub struct Reply {
    pub status: u16,
    pub body: String,
}

/// The mathematical value of a [`Reply`].
#[verifier::ext_equal]
pub struct ReplyV {
    pub status: u16,
    pub body: Seq<char>,
}

impl View for Reply {
    type V = ReplyV;

    open spec fn view(&self) -> ReplyV {
        ReplyV { status: self.status, body: self.body@ }
    }
}

/// An answer.
pub open spec fn answer(status: u16, body: Seq<char>) -> ReplyV {
    ReplyV { status, body }
}

/// An answer that reports an error.
pub open spec fn problem(status: u16, message: Seq<char>) -> ReplyV {
    answer(status, "{\"error\":\""@ + message + "\"}"@)
}

/// An answer.
pub fn reply(status: u16, body: &str) -> (r: Reply)
    ensures
        r@ == answer(status, body@),
{
    Reply { status, body: body.to_owned() }
}

/// An answer that reports an error.
pub fn report(status: u16, message: &str) -> (r: Reply)
    ensures
        r@ == problem(status, message@),
{
    Reply { status, body: cat3("{\"error\":\"", message, "\"}") }
}

// ---------------------------------------------------------------------------
// Routing
// ---------------------------------------------------------------------------
/// The method of a request.
#[derive(Debug, Clone, Copy, PartialEq, Eq, Structural)]
pub enum Method {
    Get,
    Post,
    Put,
    Patch,
    Delete,
    Other,
}

/// What a request asks for.
#[derive(Debug, PartialEq, Eq)]
pub enum Action {
    /// This answer, and nothing else.
    Answer(Reply),
    /// Whether the process is alive.
    Live,
    /// Whether the process takes traffic.
    Ready,
    Metrics,
    /// The whole document.
    Export,
    /// What stands at a path of the document.
    Read(Vec<String>),
    CacheStatus,
    /// Dropping one cached response.
    Purge,
    /// Loading a configuration.
    Load,
    /// Adapting a configuration without loading it.
    Adapt,
    Stop,
    /// Replacing the whole document.
    ReplaceAll,
    /// Changing the document at a path.
    Change(Method, Vec<String>),
    /// Reading or changing the object with a tag; the text is the tag and the path behind it.
    Tagged(Method, String),
}

/// The mathematical value of an [`Action`].
#[verifier::ext_equal]
pub enum ActionV {
    Answer(ReplyV),
    Live,
    Ready,
    Metrics,
    Export,
    Read(Seq<Seq<char>>),
    CacheStatus,
    Purge,
    Load,
    Adapt,
    Stop,
    ReplaceAll,
    Change(Method, Seq<Seq<char>>),
    Tagged(Method, Seq<char>),
}

impl View for Action {
    type V = ActionV;

    open spec fn view(&self) -> ActionV {
        match self {
            Action::Answer(r) => ActionV::Answer(r@),
            Action::Live => ActionV::Live,
            Action::Ready => ActionV::Ready,
            Action::Metrics => ActionV::Metrics,
            Action::Export => ActionV::Export,
            Action::Read(path) => ActionV::Read(path.deep_view()),
            Action::CacheStatus => ActionV::CacheStatus,
            Action::Purge => ActionV::Purge,
            Action::Load => ActionV::Load,
            Action::Adapt => ActionV::Adapt,
            Action::Stop => ActionV::Stop,
            Action::ReplaceAll => ActionV::ReplaceAll,
            Action::Change(method, path) => ActionV::Change(*method, path.deep_view()),
            Action::Tagged(method, rest) => ActionV::Tagged(*method, rest@),
        }
    }
}

/// A lone index stands for a server.
pub open spec fn normalized(path: Seq<Seq<char>>) -> Seq<Seq<char>> {
    if path.len() == 1 && text::as_usize(path[0]) is Some {
        seq!["servers"@, path[0]]
    } else {
        path
    }
}

/// Reads a lone index as that of a server; other paths stay.
pub fn normalize_config_segments(segments: Vec<String>) -> (r: Vec<String>)
    ensures
        r.deep_view() == normalized(segments.deep_view()),
{
    if segments.len() == 1 && parse_usize(segments[0].as_str()).is_some() {
        let out: Vec<String> = vec!["servers".to_owned(), segments[0].clone()];
        assert(out.deep_view() =~= seq!["servers"@, segments@[0]@]);
        out
    } else {
        segments
    }
}

/// The path in the document that a request path beginning with `/config` names.
pub open spec fn document_path(path: Seq<char>) -> Seq<Seq<char>> {
    normalized(config_tree::segments(path.skip("/config"@.len() as int)))
}

/// What a request with this method and path asks for.
pub open spec fn requested(method: Method, path: Seq<char>) -> ActionV {
    let nothing = ActionV::Answer(answer(404, "Not Found"@));
    let whole = path == "/config"@ || path == "/config/"@;
    match method {
        Method::Get => if path == "/health"@ {
            ActionV::Answer(answer(200, "{\"status\":\"healthy\"}"@))
        } else if path == "/live"@ {
            ActionV::Live
        } else if path == "/ready"@ {
            ActionV::Ready
        } else if path == "/metrics"@ {
            ActionV::Metrics
        } else if whole {
            ActionV::Export
        } else if text::starts(path, "/config/"@) {
            ActionV::Read(document_path(path))
        } else if path == "/cache"@ || path == "/cache/"@ {
            ActionV::CacheStatus
        } else if text::starts(path, "/id/"@) {
            ActionV::Tagged(method, path.skip(4))
        } else {
            nothing
        },
        Method::Post => if path == "/cache/purge"@ {
            ActionV::Purge
        } else if path == "/load"@ {
            ActionV::Load
        } else if path == "/adapt"@ {
            ActionV::Adapt
        } else if path == "/stop"@ {
            ActionV::Stop
        } else if whole {
            ActionV::ReplaceAll
        } else if text::starts(path, "/config/"@) {
            ActionV::Change(method, document_path(path))
        } else if text::starts(path, "/id/"@) {
            ActionV::Tagged(method, path.skip(4))
        } else {
            nothing
        },
        Method::Other => nothing,
        _ => if text::starts(path, "/config"@) {
            ActionV::Change(method, document_path(path))
        } else if text::starts(path, "/id/"@) {
            ActionV::Tagged(method, path.skip(4))
        } else {
            nothing
        },
    }
}

fn read_document_path(path: &str) -> (r: Vec<String>)
    requires
        text::starts(path@, "/config"@),
    ensures
        r.deep_view() == document_path(path@),
{
    let raw = match strip(path, "/config") {
        Some(raw) => raw,
        None => path,
    };
    normalize_config_segments(segments_from_path(raw))
}

/// What a request with this method and path asks for.
pub fn route(method: Method, path: &str) -> (r: Action)
    ensures
        r@ == requested(method, path@),
{
    proof {
        reveal_strlit("/id/");
        reveal_strlit("/config");
        reveal_strlit("/config/");
        if text::starts(path@, "/config/"@) {
            assert(path@.take(7) =~= path@.take(8).take(7));
            assert("/config/"@.take(7) =~= "/config"@);
        }
    }
    let whole = same(path, "/config") || same(path, "/config/");
    if method == Method::Get {
        if same(path, "/health") {
            return Action::Answer(reply(200, "{\"status\":\"healthy\"}"));
        }
        if same(path, "/live") {
            return Action::Live;
        }
        if same(path, "/ready") {
            return Action::Ready;
        }
        if same(path, "/metrics") {
            return Action::Metrics;
        }
        if whole {
            return Action::Export;
        }
        if begins(path, "/config/") {
            return Action::Read(read_document_path(path));
        }
        if same(path, "/cache") || same(path, "/cache/") {
            return Action::CacheStatus;
        }
    } else if method == Method::Post {
        if same(path, "/cache/purge") {
            return Action::Purge;
        }
        if same(path, "/load") {
            return Action::Load;
        }
        if same(path, "/adapt") {
            return Action::Adapt;
        }
        if same(path, "/stop") {
            return Action::Stop;
        }
        if whole {
            return Action::ReplaceAll;
        }
        if begins(path, "/config/") {
            return Action::Change(method, read_document_path(path));
        }
    } else if method != Method::Other && begins(path, "/config") {
        return Action::Change(method, read_document_path(path));
    }
    if method != Method::Other && begins(path, "/id/") {
        return Action::Tagged(method, after(path, 4).to_owned());
    }
    Action::Answer(reply(404, "Not Found"))
}

/// What stands at the head of a request.
#[derive(Debug)]
pub struct Head {
    pub method: Method,
    pub path: String,
    pub origin: Option<String>,
    pub authorization: Option<String>,
    pub peer: IpAddress,
}

/// The text behind an optional piece of text.
pub open spec fn text_of(s: Option<String>) -> Option<Seq<char>> {
    match s {
        Some(t) => Some(t@),
        None => None,
    }
}

/// What becomes of a request: the origin is looked at first, then the credentials, and only
/// then what is asked for.
pub open spec fn received(policy: OriginPolicy, key: Option<Seq<char>>, head: Head) -> ActionV {
    if !auth::admitted(policy, text_of(head.origin)) {
        ActionV::Answer(problem(403, "origin not allowed"@))
    } else {
        match auth::decision(key, text_of(head.authorization), head.peer.deep_view()) {
            AuthDecision::Unauthorized => ActionV::Answer(problem(401, "unauthorized"@)),
            AuthDecision::Forbidden => ActionV::Answer(problem(403, "forbidden"@)),
            AuthDecision::Allowed => requested(head.method, head.path@),
        }
    }
}

fn borrow_text(s: &Option<String>) -> (r: Option<&str>)
    ensures
        auth::seen(r) == text_of(*s),
{
    match s {
        Some(t) => Some(t.as_str()),
        None => None,
    }
}

/// Decides what becomes of a request.
pub fn receive(policy: &OriginPolicy, key: Option<&ApiKeyAuth>, head: &Head) -> (r: Action)
    ensures
        r@ == received(*policy, auth::secret(key), *head),
{
    if !origin_allowed(policy, borrow_text(&head.origin), &head.peer) {
        return Action::Answer(report(403, "origin not allowed"));
    }
    match authorize(key, borrow_text(&head.authorization), &head.peer) {
        AuthDecision::Unauthorized => Action::Answer(report(401, "unauthorized")),
        AuthDecision::Forbidden => Action::Answer(report(403, "forbidden")),
        AuthDecision::Allowed => route(head.method, head.path.as_str()),
    }
}

/// A request that may not use the admin interface is refused, whatever it asks for.
pub proof fn a_stranger_is_refused_whatever_it_asks(
    policy: OriginPolicy,
    key: Option<Seq<char>>,
    head: Head,
)
    requires
        !auth::admitted(policy, text_of(head.origin)) || auth::decision(
            key,
            text_of(head.authorization),
            head.peer.deep_view(),
        ) != AuthDecision::Allowed,
    ensures
        received(policy, key, head) matches ActionV::Answer(reply) && (reply.status == 401
            || reply.status == 403),
{
}

// ---------------------------------------------------------------------------
// Reading and changing the document
// ---------------------------------------------------------------------------
/// What a request is answered that names a path for which this holds.
pub open spec fn refusal(e: config_tree::TreeErrorV) -> ReplyV {
    problem(
        match e {
            config_tree::TreeErrorV::NotFound => 404,
            config_tree::TreeErrorV::Conflict => 409,
            config_tree::TreeErrorV::Invalid(_) => 400,
        },
        config_tree::told(e),
    )
}

fn refuse(e: TreeError) -> (r: Reply)
    ensures
        r@ == refusal(e.deep_view()),
{
    let message = e.message();
    let status: u16 = match e {
        TreeError::NotFound => 404,
        TreeError::Conflict => 409,
        TreeError::Invalid(_) => 400,
    };
    report(status, message.as_str())
}

/// What a reading request finds.
pub open spec fn shown(doc: JsonV, path: Seq<Seq<char>>) -> Result<JsonV, ReplyV> {
    match config_tree::found(doc, path) {
        Ok(node) => Ok(node),
        Err(e) => Err(problem(404, config_tree::told(e))),
    }
}

/// Reads what stands at a path of the document, or says what the request is answered.
pub fn read_node<'a>(document: &'a Json, segments: &Vec<String>) -> (r: Result<&'a Json, Reply>)
    ensures
        match r {
            Ok(node) => shown(document.deep_view(), segments.deep_view()) == Ok::<JsonV, ReplyV>(
                node.deep_view(),
            ),
            Err(e) => shown(document.deep_view(), segments.deep_view()) == Err::<JsonV, ReplyV>(
                e@,
            ),
        },
{
    let path = segments.as_slice();
    assert(path.deep_view() =~= segments.deep_view());
    match get(document, path) {
        Ok(node) => Ok(node),
        Err(e) => {
            let message = e.message();
            Err(report(404, message.as_str()))
        },
    }
}

/// How a method writes.
pub open spec fn mode_of(method: Method) -> Mode {
    match method {
        Method::Post => Mode::Upsert,
        Method::Put => Mode::Create,
        _ => Mode::Replace,
    }
}

/// The document that a change asks for: `...` at the end of the path appends the items of the
/// body.
pub open spec fn changed(
    doc: JsonV,
    method: Method,
    path: Seq<Seq<char>>,
    body: Option<JsonV>,
) -> Result<JsonV, ReplyV> {
    let expand = path.len() > 0 && path.last() == "..."@;
    let target = if expand {
        path.drop_last()
    } else {
        path
    };
    if method == Method::Delete {
        match config_tree::removed(doc, target) {
            Ok((next, _)) => Ok(next),
            Err(e) => Err(refusal(e)),
        }
    } else {
        match body {
            None => Err(problem(400, "this method requires a JSON body"@)),
            Some(value) => match (if expand {
                config_tree::expanded(doc, target, value)
            } else {
                config_tree::placed(doc, target, value, mode_of(method))
            }) {
                Ok(next) => Ok(next),
                Err(e) => Err(refusal(e)),
            },
        }
    }
}

/// Whether a plan is the one that `wanted` says.
pub open spec fn planned(r: Result<Json, Reply>, wanted: Result<JsonV, ReplyV>) -> bool {
    match r {
        Ok(next) => wanted == Ok::<JsonV, ReplyV>(next.deep_view()),
        Err(e) => wanted == Err::<JsonV, ReplyV>(e@),
    }
}

/// The value behind an optional value.
pub open spec fn value_of(body: Option<Json>) -> Option<JsonV> {
    match body {
        Some(value) => Some(value.deep_view()),
        None => None,
    }
}

/// The document that a change asks for, or what the request is answered. The document itself is
/// not touched: it is replaced only once the new one has been committed.
pub fn plan_change(
    document: &Json,
    method: Method,
    segments: Vec<String>,
    body: Option<Json>,
) -> (r: Result<Json, Reply>)
    ensures
        planned(
            r,
            changed(document.deep_view(), method, segments.deep_view(), value_of(body)),
        ),
{
    let ghost path = segments.deep_view();
    let mut next = document.duplicate();
    let mut target = segments;
    let n: usize = target.len();
    let expand = n > 0 && same(target[n - 1].as_str(), "...");
    if n > 0 {
        assert(path.last() == segments@[n - 1]@);
    }
    if expand {
        target.truncate(n - 1);
        assert(target.deep_view() =~= path.drop_last());
    }
    let ghost trimmed = target.deep_view();
    let target = target.as_slice();
    assert(target.deep_view() =~= trimmed);
    if method == Method::Delete {
        return match remove(&mut next, target) {
            Ok(_) => Ok(next),
            Err(e) => Err(refuse(e)),
        };
    }
    let value = match body {
        Some(value) => value,
        None => {
            return Err(report(400, "this method requires a JSON body"));
        },
    };
    let done = if expand {
        expand_append(&mut next, target, &value)
    } else {
        let mode = if method == Method::Post {
            Mode::Upsert
        } else if method == Method::Put {
            Mode::Create
        } else {
            Mode::Replace
        };
        crate::admin::config_tree::set(&mut next, target, value, mode)
    };
    match done {
        Ok(()) => Ok(next),
        Err(e) => Err(refuse(e)),
    }
}

/// What a request on a tagged object comes to.
#[derive(Debug, PartialEq, Eq)]
pub enum TagPlan {
    /// This answer.
    Answer(Reply),
    /// Showing this value.
    Show(Json),
    /// Committing this document.
    Commit(Json),
}

/// The mathematical value of a [`TagPlan`].
#[verifier::ext_equal]
pub enum TagPlanV {
    Answer(ReplyV),
    Show(JsonV),
    Commit(JsonV),
}

impl View for TagPlan {
    type V = TagPlanV;

    open spec fn view(&self) -> TagPlanV {
        match self {
            TagPlan::Answer(r) => TagPlanV::Answer(r@),
            TagPlan::Show(node) => TagPlanV::Show(node.deep_view()),
            TagPlan::Commit(next) => TagPlanV::Commit(next.deep_view()),
        }
    }
}

/// The tag and the path behind it: what stands before and after the first slash.
pub open spec fn tag_parts(rest: Seq<char>) -> (Seq<char>, Seq<char>) {
    match rest.index_of_first('/') {
        Some(i) => (rest.take(i), rest.skip(i + 1)),
        None => (rest, Seq::empty()),
    }
}

/// What a request on a tagged object comes to.
pub open spec fn tag_plan(
    doc: JsonV,
    method: Method,
    rest: Seq<char>,
    body: Option<JsonV>,
) -> TagPlanV {
    let (name, tail) = tag_parts(rest);
    let missing = problem(404, "no @id named "@ + name);
    if name.len() == 0 {
        TagPlanV::Answer(problem(400, "expected /id/<name>"@))
    } else {
        match config_tree::id_path(doc, name) {
            None => TagPlanV::Answer(missing),
            Some(base) => {
                let path = base + config_tree::segments(tail);
                if method == Method::Get {
                    match config_tree::found(doc, path) {
                        Ok(node) => TagPlanV::Show(node),
                        Err(_) => TagPlanV::Answer(missing),
                    }
                } else {
                    match changed(doc, method, path, body) {
                        Ok(next) => TagPlanV::Commit(next),
                        Err(reply) => TagPlanV::Answer(reply),
                    }
                }
            },
        }
    }
}

fn join_paths(base: Vec<String>, tail: Vec<String>) -> (r: Vec<String>)
    ensures
        r.deep_view() == base.deep_view() + tail.deep_view(),
{
    let mut out = base;
    let mut more = tail;
    out.append(&mut more);
    assert(out.deep_view() =~= base.deep_view() + tail.deep_view());
    out
}

/// What a request on a tagged object comes to.
pub fn plan_tagged(document: &Json, method: Method, rest: &str, body: Option<Json>) -> (r: TagPlan)
    ensures
        r@ == tag_plan(document.deep_view(), method, rest@, value_of(body)),
{
    let (name, tail) = match find(rest, '/') {
        Some(i) => {
            let n: usize = rest.unicode_len();
            (before(rest, i), after(rest, i + 1))
        },
        None => (rest, ""),
    };
    proof {
        reveal_strlit("");
        assert(""@ =~= Seq::<char>::empty());
    }
    if name.unicode_len() == 0 {
        return TagPlan::Answer(report(400, "expected /id/<name>"));
    }
    let base = match find_id_path(document, name) {
        Some(base) => base,
        None => {
            let message = cat("no @id named ", name);
            return TagPlan::Answer(report(404, message.as_str()));
        },
    };
    let path = join_paths(base, segments_from_path(tail));
    if method == Method::Get {
        let at = path.as_slice();
        assert(at.deep_view() =~= path.deep_view());
        return match get(document, at) {
            Ok(node) => TagPlan::Show(node.duplicate()),
            Err(_) => {
                let message = cat("no @id named ", name);
                TagPlan::Answer(report(404, message.as_str()))
            },
        };
    }
    match plan_change(document, method, path, body) {
        Ok(next) => TagPlan::Commit(next),
        Err(reply) => TagPlan::Answer(reply),
    }
}

// ---------------------------------------------------------------------------
// Bodies
// ---------------------------------------------------------------------------
/// What a request is answered whose body could not be read.
pub open spec fn unreadable(e: BodyError) -> ReplyV {
    match e {
        BodyError::TooLarge => problem(
            413,
            "config body exceeds "@ + text::shown(MAX_CONFIG_BODY_BYTES as nat) + " bytes"@,
        ),
        BodyError::Incomplete => problem(400, "could not read the request body"@),
    }
}

/// What a request is answered whose body could not be read.
pub fn body_refused(e: BodyError) -> (r: Reply)
    ensures
        r@ == unreadable(e),
{
    match e {
        BodyError::TooLarge => {
            let most = show(MAX_CONFIG_BODY_BYTES as u64);
            let message = cat3("config body exceeds ", most.as_str(), " bytes");
            report(413, message.as_str())
        },
        BodyError::Incomplete => report(400, "could not read the request body"),
    }
}

/// What a purge is answered whose body could not be read.
pub open spec fn purge_unreadable(e: BodyError) -> ReplyV {
    match e {
        BodyError::TooLarge => problem(413, "request body too large"@),
        BodyError::Incomplete => problem(400, "could not read request body"@),
    }
}

/// What a purge is answered whose body could not be read.
pub fn purge_body_refused(e: BodyError) -> (r: Reply)
    ensures
        r@ == purge_unreadable(e),
{
    match e {
        BodyError::TooLarge => report(413, "request body too large"),
        BodyError::Incomplete => report(400, "could not read request body"),
    }
}

/// What a purge is answered: the host and path that it names, or what it should have named.
pub fn purge_malformed() -> (r: Reply)
    ensures
        r@ == answer(
            400,
            "{\"error\":\"expected {\\\"host\\\":\\\"...\\\",\\\"path\\\":\\\"...\\\"}\"}"@,
        ),
{
    reply(400, "{\"error\":\"expected {\\\"host\\\":\\\"...\\\",\\\"path\\\":\\\"...\\\"}\"}")
}

/// A truth value as JSON.
pub open spec fn truth(b: bool) -> Seq<char> {
    if b {
        "true"@
    } else {
        "false"@
    }
}

fn tell(b: bool) -> (r: &'static str)
    ensures
        r@ == truth(b),
{
    if b {
        "true"
    } else {
        "false"
    }
}

/// What a purge is answered: whether anything was dropped.
pub fn purge_done(purged: bool) -> (r: Reply)
    ensures
        r@ == answer(200, "{\"purged\":"@ + truth(purged) + "}"@),
{
    Reply { status: 200, body: cat3("{\"purged\":", tell(purged), "}") }
}

/// What the liveness question is answered.
pub fn live(phase: &str) -> (r: Reply)
    ensures
        r@ == answer(200, "{\"status\":\"live\",\"phase\":\""@ + phase@ + "\"}"@),
{
    Reply { status: 200, body: cat3("{\"status\":\"live\",\"phase\":\"", phase, "\"}") }
}

/// What the readiness question is answered: the status alone tells.
pub fn ready(is_ready: bool, phase: &str) -> (r: Reply)
    ensures
        r@ == answer(
            if is_ready {
                200
            } else {
                503
            },
            "{\"ready\":"@ + truth(is_ready) + ",\"phase\":\""@ + phase@ + "\"}"@,
        ),
{
    let status: u16 = if is_ready {
        200
    } else {
        503
    };
    Reply { status, body: cat5("{\"ready\":", tell(is_ready), ",\"phase\":\"", phase, "\"}") }
}

/// How the body of a load is written.
#[derive(Debug, Clone, Copy, PartialEq, Eq, Structural)]
pub enum Format {
    Caddyfile,
    Json,
}

/// How a body of this content type is written.
pub open spec fn format_of(content_type: Option<Seq<char>>) -> Format {
    match content_type {
        Some(t) => if text::position(text::lower(t), "caddyfile"@) is Some {
            Format::Caddyfile
        } else {
            Format::Json
        },
        None => Format::Json,
    }
}

/// How a body of this content type is written.
pub fn body_format(content_type: Option<&str>) -> (r: Format)
    ensures
        r == format_of(auth::seen(content_type)),
{
    match content_type {
        Some(t) => {
            let lowered = to_lower(t);
            if mentions(lowered.as_str(), "caddyfile") {
                Format::Caddyfile
            } else {
                Format::Json
            }
        },
        None => Format::Json,
    }
}

/// Calls `std::str::from_utf8`. The result is the text whose UTF-8 form the bytes are, or
/// nothing if they are no UTF-8.
#[verifier::external_body]
fn read_utf8(bytes: &[u8]) -> (r: Option<&str>)
    ensures
        match r {
            Some(s) => utf8::encode_utf8(s@) == bytes@,
            None => !utf8::valid_utf8(bytes@),
        },
{
    std::str::from_utf8(bytes).ok()
}

/// The text of a configuration, or what the request is answered.
pub fn source_text(bytes: &[u8]) -> (r: Result<&str, Reply>)
    ensures
        match r {
            Ok(s) => utf8::valid_utf8(bytes@) && s@ == utf8::decode_utf8(bytes@),
            Err(reply) => !utf8::valid_utf8(bytes@) && reply@ == problem(
                400,
                "config body is not UTF-8 text"@,
            ),
        },
{
    match read_utf8(bytes) {
        Some(s) => {
            proof {
                utf8::encode_utf8_decode_utf8(s@);
                utf8::encode_utf8_valid_utf8(s@);
            }
            Ok(s)
        },
        None => Err(report(400, "config body is not UTF-8 text")),
    }
}

/// `serde_json::Value`, the outside form of a JSON value. It is carried from the parser to
/// [`json_of`] and never looked into elsewhere.
#[verifier::external_type_specification]
#[verifier::external_body]
pub struct ExValue(serde_json::Value);

/// What `serde_json::from_slice` makes of the bytes as a `serde_json::Value`: the value, with
/// each number as it is shown and the fields of each object in the order of their names, or the
/// text of the error.
pub uninterp spec fn parsed_json(bytes: Seq<u8>) -> Result<JsonV, Seq<char>>;

/// Converts a `serde_json::Value`, variant for variant; a number becomes the text that it is
/// shown as. Nothing is promised of the result here: [`parse_json`] names it.
#[verifier::external_body]
fn json_of(value: serde_json::Value) -> (r: Json) {
    match value {
        serde_json::Value::Null => Json::Null,
        serde_json::Value::Bool(b) => Json::Bool(b),
        serde_json::Value::Number(n) => Json::Number(n.to_string()),
        serde_json::Value::String(s) => Json::String(s),
        serde_json::Value::Array(items) => Json::Array(items.into_iter().map(json_of).collect()),
        serde_json::Value::Object(fields) => Json::Object(
            fields.into_iter().map(|(name, field)| (name, json_of(field))).collect(),
        ),
    }
}

/// Calls `serde_json::from_slice` for a `serde_json::Value`. The result is what
/// [`parsed_json`] names for these bytes. An object is kept in a map that is ordered by name and
/// holds each name once, so the fields of every object come in order.
#[verifier::external_body]
fn parse_json(bytes: &[u8]) -> (r: Result<Json, String>)
    ensures
        match r {
            Ok(value) => parsed_json(bytes@) == Ok::<JsonV, Seq<char>>(value.deep_view())
                && json::well_formed(value.deep_view()),
            Err(reason) => parsed_json(bytes@) == Err::<JsonV, Seq<char>>(reason@),
        },
{
    match serde_json::from_slice::<serde_json::Value>(bytes) {
        Ok(value) => Ok(json_of(value)),
        Err(error) => Err(error.to_string()),
    }
}

/// What a request brings whose body was parsed with this result: the value, or what the request
/// is answered.
pub open spec fn brought(parsed: Result<JsonV, Seq<char>>) -> Result<JsonV, ReplyV> {
    match parsed {
        Ok(value) => Ok(value),
        Err(reason) => Err(answer(400, "Invalid JSON: "@ + reason)),
    }
}

/// What a request brings whose body was parsed with this result.
pub fn accept_json(parsed: Result<Json, String>) -> (r: Result<Json, Reply>)
    ensures
        planned(
            r,
            brought(
                match parsed {
                    Ok(value) => Ok::<JsonV, Seq<char>>(value.deep_view()),
                    Err(reason) => Err::<JsonV, Seq<char>>(reason@),
                },
            ),
        ),
{
    match parsed {
        Ok(value) => Ok(value),
        Err(reason) => Err(Reply { status: 400, body: cat("Invalid JSON: ", reason.as_str()) }),
    }
}

/// The JSON value that the body of a request holds, or what the request is answered: a body that
/// could not be read comes with the reason, and one that was read has to be JSON.
pub fn read_json_body(body: Result<Vec<u8>, BodyError>) -> (r: Result<Json, Reply>)
    ensures
        planned(
            r,
            match body {
                Ok(bytes) => brought(parsed_json(bytes@)),
                Err(e) => Err::<JsonV, ReplyV>(unreadable(e)),
            },
        ),
        r matches Ok(value) ==> json::well_formed(value.deep_view()),
{
    match body {
        Ok(bytes) => accept_json(parse_json(bytes.as_slice())),
        Err(e) => Err(body_refused(e)),
    }
}

/// What a request is answered whose configuration is refused, for this reason.
pub fn config_refused(reason: &str) -> (r: Reply)
    ensures
        r@ == answer(400, "Invalid config: "@ + reason@),
{
    Reply { status: 400, body: cat("Invalid config: ", reason) }
}

/// What a request is answered whose result could not be written down, for this reason.
pub fn unwritable(reason: &str) -> (r: Reply)
    ensures
        r@ == answer(500, "Serialization error: "@ + reason@),
{
    Reply { status: 500, body: cat("Serialization error: ", reason) }
}

/// What a request is answered whose configuration could not be adapted, for this reason.
pub fn adapt_refused(reason: &str) -> (r: Reply)
    ensures
        r@ == answer(400, "Adapt error: "@ + reason@),
{
    Reply { status: 400, body: cat("Adapt error: ", reason) }
}

/// A planned change keeps a document well-formed.
pub proof fn a_planned_change_keeps_documents_well_formed(
    doc: JsonV,
    method: Method,
    path: Seq<Seq<char>>,
    body: Option<JsonV>,
)
    requires
        json::well_formed(doc),
        body matches Some(value) ==> json::well_formed(value),
        changed(doc, method, path, body) is Ok,
    ensures
        json::well_formed(changed(doc, method, path, body)->Ok_0),
{
    let expand = path.len() > 0 && path.last() == "..."@;
    let target = if expand {
        path.drop_last()
    } else {
        path
    };
    if method == Method::Delete {
        crate::admin::tree_laws::a_removal_keeps_documents_well_formed(doc, target);
    } else if expand {
        crate::admin::tree_laws::an_expansion_keeps_documents_well_formed(
            doc,
            target,
            body->Some_0,
        );
    } else {
        crate::admin::tree_laws::a_write_keeps_documents_well_formed(
            doc,
            target,
            body->Some_0,
            mode_of(method),
        );
    }
}

/// What a planned change writes is read back from the new document.
pub proof fn a_planned_write_is_read_back(
    doc: JsonV,
    method: Method,
    path: Seq<Seq<char>>,
    value: JsonV,
)
    requires
        method == Method::Post || method == Method::Put || method == Method::Patch,
        path.len() == 0 || path.last() != "..."@,
        changed(doc, method, path, Some(value)) is Ok,
    ensures
        shown(changed(doc, method, path, Some(value))->Ok_0, path) == Ok::<JsonV, ReplyV>(value),
{
    crate::admin::tree_laws::what_is_written_is_read_back(doc, path, value, mode_of(method));
}

} // verus!
