//! What handlers are and where they rank.

use crate::adapter::order;
use crate::adapter::order::DirectiveOrder;
use crate::adapter::profile::Profile;
use crate::ast::tree;
use crate::ast::tree::{Handler, HandlerElement, HandlerElementV, HandlerV, Matcher, MatcherV};
use crate::text;
use crate::text::holds;
use vstd::prelude::*;

verus! {

/// The directive that a handler stands for.
pub open spec fn directive_name(h: HandlerV) -> Seq<char> {
    match h {
        HandlerV::Proxy(_) => "reverse_proxy"@,
        HandlerV::Respond(_) => "respond"@,
        HandlerV::Redirect(_) => "redir"@,
        HandlerV::FileServer(_) => "file_server"@,
        HandlerV::Headers(_) => "header"@,
        HandlerV::BasicAuth(_) => "basic_auth"@,
        HandlerV::RateLimit(_) => "rate_limit"@,
        HandlerV::Rewrite(c) => if c.uri_directive {
            "uri"@
        } else {
            "rewrite"@
        },
        HandlerV::Cors(_) => "cors"@,
        HandlerV::AccessControl(_) => "access_control"@,
        HandlerV::TryFiles(_) => "try_files"@,
        HandlerV::Error(_) => "error"@,
        HandlerV::Vars(_) => "vars"@,
        HandlerV::Intercept(_) => "intercept"@,
        HandlerV::Templates => "templates"@,
        HandlerV::LogSkip => "log_skip"@,
        HandlerV::Plugin(name) => name,
        HandlerV::Pipeline(_) => "route"@,
        HandlerV::Handle(_) => "handle"@,
        HandlerV::HandlePath(_, _) => "handle_path"@,
        HandlerV::HandleGroup(_) => "handle"@,
    }
}

/// The directive that a handler stands for.
pub fn handler_directive_name<'a>(h: &'a Handler) -> (r: &'a str)
    ensures
        r@ == directive_name(h.deep_view()),
{
    match h {
        Handler::Proxy(_) => "reverse_proxy",
        Handler::Respond(_) => "respond",
        Handler::Redirect(_) => "redir",
        Handler::FileServer(_) => "file_server",
        Handler::Headers(_) => "header",
        Handler::BasicAuth(_) => "basic_auth",
        Handler::RateLimit(_) => "rate_limit",
        Handler::Rewrite(c) => if c.uri_directive {
            "uri"
        } else {
            "rewrite"
        },
        Handler::Cors(_) => "cors",
        Handler::AccessControl(_) => "access_control",
        Handler::TryFiles(_) => "try_files",
        Handler::Error(_) => "error",
        Handler::Vars(_) => "vars",
        Handler::Intercept(_) => "intercept",
        Handler::Templates => "templates",
        Handler::LogSkip => "log_skip",
        Handler::Plugin(name) => name.as_str(),
        Handler::Pipeline(_) => "route",
        Handler::Handle(_) => "handle",
        Handler::HandlePath(_, _) => "handle_path",
        Handler::HandleGroup(_) => "handle",
    }
}

/// Whether a handler, or one inside it, answers the request by itself.
pub open spec fn answers(h: HandlerV) -> bool
    decreases h,
{
    match h {
        HandlerV::Proxy(_) => true,
        HandlerV::Respond(_) => true,
        HandlerV::Redirect(_) => true,
        HandlerV::FileServer(_) => true,
        HandlerV::Error(_) => true,
        HandlerV::Templates => true,
        HandlerV::Pipeline(list) => any_answers(list),
        HandlerV::Handle(list) => any_answers(list),
        HandlerV::HandlePath(_, list) => any_answers(list),
        HandlerV::HandleGroup(list) => any_answers(list),
        _ => false,
    }
}

/// Whether any element of `list` answers the request by itself.
pub open spec fn any_answers(list: Seq<HandlerElementV>) -> bool
    decreases list,
{
    exists|i: int|
        if 0 <= i < list.len() {
            answers(#[trigger] list[i].handler)
        } else {
            false
        }
}

/// Whether a handler already owns the response.
pub fn handler_has_terminal(h: &Handler) -> (r: bool)
    ensures
        r == answers(h.deep_view()),
    decreases h,
{
    match h {
        Handler::Proxy(_) => true,
        Handler::Respond(_) => true,
        Handler::Redirect(_) => true,
        Handler::FileServer(_) => true,
        Handler::Error(_) => true,
        Handler::Templates => true,
        Handler::Pipeline(list) => elements_have_terminal(list),
        Handler::Handle(list) => elements_have_terminal(list),
        Handler::HandlePath(_, list) => elements_have_terminal(list),
        Handler::HandleGroup(list) => elements_have_terminal(list),
        _ => false,
    }
}

fn elements_have_terminal(list: &Vec<HandlerElement>) -> (r: bool)
    ensures
        r == any_answers(tree::elements_view(list@)),
    decreases list,
{
    let ghost all = tree::elements_view(list@);
    let mut i: usize = 0;
    while i < list.len()
        invariant
            i <= list.len(),
            all == tree::elements_view(list@),
            forall|j: int| 0 <= j < i ==> !answers(#[trigger] all[j].handler),
        decreases list.len() - i,
    {
        assert(all[i as int].handler == list@[i as int].handler.deep_view());
        if handler_has_terminal(&list[i].handler) {
            return true;
        }
        i += 1;
    }
    false
}

/// Where a handler ranks: in the core profile by what it is, in the extended profile by the order
/// of the directives.
pub open spec fn handler_rank(profile: Profile, order: Seq<Seq<char>>, h: HandlerV) -> int {
    match profile {
        Profile::Core => match h {
            HandlerV::Headers(_) => 0,
            HandlerV::Redirect(_) => 1,
            HandlerV::Rewrite(_) => 2,
            HandlerV::BasicAuth(_) => 3,
            HandlerV::RateLimit(_) => 4,
            HandlerV::Cors(_) => 4,
            HandlerV::AccessControl(_) => 4,
            HandlerV::Pipeline(_) => 5,
            HandlerV::Handle(_) => 5,
            HandlerV::FileServer(_) => 6,
            HandlerV::Proxy(_) => 7,
            HandlerV::Respond(_) => 8,
            _ => 9,
        },
        Profile::Extended => order::rank(order, directive_name(h)),
    }
}

/// Where a handler ranks.
pub fn caddy_handler_rank(profile: Profile, order: &DirectiveOrder, h: &Handler) -> (r: usize)
    ensures
        r == handler_rank(profile, order@, h.deep_view()),
{
    match profile {
        Profile::Core => match h {
            Handler::Headers(_) => 0,
            Handler::Redirect(_) => 1,
            Handler::Rewrite(_) => 2,
            Handler::BasicAuth(_) => 3,
            Handler::RateLimit(_) => 4,
            Handler::Cors(_) => 4,
            Handler::AccessControl(_) => 4,
            Handler::Pipeline(_) => 5,
            Handler::Handle(_) => 5,
            Handler::FileServer(_) => 6,
            Handler::Proxy(_) => 7,
            Handler::Respond(_) => 8,
            _ => 9,
        },
        Profile::Extended => order.rank(handler_directive_name(h)),
    }
}

/// How specific the first path pattern of a matcher is: whether it has a wildcard, and its length
/// in bytes.
pub open spec fn specificity(m: Option<MatcherV>) -> (usize, usize) {
    match m {
        Some(MatcherV::Path(p)) => if p.patterns.len() > 0 {
            (
                if p.patterns[0].contains('*') {
                    1
                } else {
                    0
                },
                text::size(p.patterns[0]),
            )
        } else {
            (0, 0)
        },
        _ => (0, 0),
    }
}

/// How specific the first path pattern of a matcher is.
pub fn route_specificity(m: &Option<Matcher>) -> (r: (usize, usize))
    ensures
        r == specificity(m.deep_view()),
{
    match m {
        Some(Matcher::Path(p)) => {
            if p.patterns.len() == 0 {
                return (0, 0);
            }
            let pattern = p.patterns[0].as_str();
            assert(p.deep_view().patterns[0] == pattern@);
            let glob: usize = if holds(pattern, '*') {
                1
            } else {
                0
            };
            (glob, text::byte_length(pattern))
        },
        _ => (0, 0),
    }
}

/// The key by which routes of equal rank are sorted: exact patterns first, then longer ones.
pub open spec fn specific_key(rank: int, m: Option<MatcherV>) -> Seq<usize> {
    let (glob, length) = specificity(m);
    let shortness = (usize::MAX - length) as usize;
    seq![rank as usize, glob, shortness]
}

/// The key by which routes of equal rank are sorted: exact patterns first, then longer ones.
pub fn make_specific_key(rank: usize, m: &Option<Matcher>) -> (r: Vec<usize>)
    ensures
        r@ == specific_key(rank as int, m.deep_view()),
{
    let (glob, length) = route_specificity(m);
    let shortness: usize = usize::MAX - length;
    let key: Vec<usize> = vec![rank, glob, shortness];
    assert(key@ =~= specific_key(rank as int, m.deep_view()));
    key
}

} // verus!
