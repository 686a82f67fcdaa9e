//! Who may use the admin interface.

use crate::ip;
use crate::ip::{parse_ip, IpAddress};
use crate::text;
use crate::text::{
    after, before, begins_with, find, same, strip, to_lower, trim, trim_end, unprefix,
};
use subtle::ConstantTimeEq;
use vstd::prelude::*;
use vstd::utf8;

verus! {

// ---------------------------------------------------------------------------
// Keys
// ---------------------------------------------------------------------------
/// A key that requests must present.
pub struct ApiKeyAuth {
    key: String,
}

impl View for ApiKeyAuth {
    type V = Seq<char>;

    closed spec fn view(&self) -> Seq<char> {
        self.key@
    }
}

/// Calls `subtle::ConstantTimeEq::ct_eq` on two byte slices. The result is whether the slices
/// are equal. That the time taken does not depend on their contents is not stated.
#[verifier::external_body]
fn equal_bytes(a: &[u8], b: &[u8]) -> (r: bool)
    ensures
        r == (a@ == b@),
{
    a.ct_eq(b).into()
}

impl ApiKeyAuth {
    /// The key `key`.
    pub fn new(key: &str) -> (r: ApiKeyAuth)
        ensures
            r@ == key@,
    {
        ApiKeyAuth { key: key.to_owned() }
    }

    /// Whether `provided` is this key, in time that does not depend on where the two differ.
    pub fn validate(&self, provided: &str) -> (r: bool)
        ensures
            r == (self@ == provided@),
    {
        proof {
            utf8::encode_utf8_decode_utf8(self.key@);
            utf8::encode_utf8_decode_utf8(provided@);
        }
        equal_bytes(self.key.as_str().as_bytes(), provided.as_bytes())
    }
}

/// What becomes of a request, as far as its credentials go.
#[derive(Debug, Clone, Copy, PartialEq, Eq, Structural)]
pub enum AuthDecision {
    /// The request may proceed.
    Allowed,
    /// The request lacks the key.
    Unauthorized,
    /// The request comes from another machine, and no key is set.
    Forbidden,
}

/// With a key, a request must present it as a bearer token. Without one, only requests from the
/// machine itself are allowed.
pub open spec fn decision(
    key: Option<Seq<char>>,
    authorization: Option<Seq<char>>,
    peer: ip::IpAddressV,
) -> AuthDecision {
    match key {
        Some(k) => if authorization == Some("Bearer "@ + k) {
            AuthDecision::Allowed
        } else {
            AuthDecision::Unauthorized
        },
        None => if ip::loopback(peer) {
            AuthDecision::Allowed
        } else {
            AuthDecision::Forbidden
        },
    }
}

/// The text behind an optional piece of text.
pub open spec fn seen(s: Option<&str>) -> Option<Seq<char>> {
    match s {
        Some(t) => Some(t@),
        None => None,
    }
}

/// The key behind an optional key.
pub open spec fn secret(key: Option<&ApiKeyAuth>) -> Option<Seq<char>> {
    match key {
        Some(k) => Some(k@),
        None => None,
    }
}

/// Decides whether a request may use the admin interface.
pub fn authorize(
    key: Option<&ApiKeyAuth>,
    authorization: Option<&str>,
    peer: &IpAddress,
) -> (r: AuthDecision)
    ensures
        r == decision(secret(key), seen(authorization), peer.deep_view()),
{
    match key {
        Some(auth) => {
            let provided = match authorization {
                Some(header) => strip(header, "Bearer "),
                None => None,
            };
            match provided {
                Some(p) => {
                    proof {
                        let header = authorization->Some_0@;
                        let n = "Bearer "@.len() as int;
                        assert(header =~= "Bearer "@ + p@);
                        assert(("Bearer "@ + auth@).skip(n) =~= auth@);
                    }
                    if auth.validate(p) {
                        AuthDecision::Allowed
                    } else {
                        AuthDecision::Unauthorized
                    }
                },
                None => {
                    assert(("Bearer "@ + auth@).take("Bearer "@.len() as int) =~= "Bearer "@);
                    AuthDecision::Unauthorized
                },
            }
        },
        None => {
            if peer.is_loopback() {
                AuthDecision::Allowed
            } else {
                AuthDecision::Forbidden
            }
        },
    }
}

// ---------------------------------------------------------------------------
// Origins
// ---------------------------------------------------------------------------
/// Which origins may reach the admin interface.
#[derive(Debug)]
pub struct OriginPolicy {
    /// Origins that are allowed besides the listen address.
    pub allowed: Vec<String>,
    /// Whether a request must name an origin, and requests from the machine itself count like
    /// any other.
    pub enforce: bool,
    /// The address that the admin interface listens on, which is always allowed.
    pub listen: String,
}

/// The host that an origin names: without its scheme and without slashes behind it.
pub open spec fn host(origin: Seq<char>) -> Seq<char> {
    text::lower(
        text::trimmed_end(
            text::unprefixed(
                text::unprefixed(text::trimmed(origin), "http://"@),
                "https://"@,
            ),
            '/',
        ),
    )
}

/// A host without its port: what stands between brackets, as an address with colons does, or
/// before the first colon.
pub open spec fn bare(host: Seq<char>) -> Seq<char> {
    match host.index_of_first(']') {
        Some(i) if text::starts_char(host, '[') && (i + 1 == host.len() || host[i + 1] == ':') => {
            host.subrange(1, i)
        },
        _ => match host.index_of_first(':') {
            Some(i) => host.take(i),
            None => host,
        },
    }
}

fn bare_of<'a>(host: &'a str) -> (r: &'a str)
    ensures
        r@ == bare(host@),
{
    if let Some(end) = find(host, ']') {
        proof {
            host@.index_of_first_ensures(']');
        }
        let rest = after(after(host, end), 1);
        if begins_with(host, '[') && (rest.unicode_len() == 0 || begins_with(rest, ':')) {
            proof {
                assert(rest@ =~= host@.skip(end + 1));
                assert(host@.take(end as int).skip(1) =~= host@.subrange(1, end as int));
            }
            return after(before(host, end), 1);
        }
    }
    match find(host, ':') {
        Some(colon) => before(host, colon),
        None => host,
    }
}

/// A name or an address of the machine itself.
pub open spec fn local(host: Seq<char>) -> bool {
    bare(host) == "localhost"@ || match ip::literal(bare(host)) {
        Some(address) => ip::loopback(address),
        None => false,
    }
}

/// Whether one of `list` names the host `h`.
pub open spec fn names(list: Seq<Seq<char>>, h: Seq<char>) -> bool {
    exists|i: int| 0 <= i < list.len() && h == host(#[trigger] list[i])
}

/// Whether a request with this origin may reach the admin interface.
pub open spec fn admitted(policy: OriginPolicy, origin: Option<Seq<char>>) -> bool {
    match origin {
        None => !policy.enforce,
        Some(o) => host(o) == host(policy.listen@) || names(policy.allowed.deep_view(), host(o))
            || (!policy.enforce && local(host(o))),
    }
}

fn host_of(value: &str) -> (r: String)
    ensures
        r@ == host(value@),
{
    proof {
        reveal_strlit("http://");
        reveal_strlit("https://");
    }
    to_lower(trim_end(unprefix(unprefix(trim(value), "http://"), "https://"), '/'))
}

/// Whether a request with this origin may talk to the admin interface. The peer plays no part.
pub fn origin_allowed(policy: &OriginPolicy, origin: Option<&str>, peer: &IpAddress) -> (r: bool)
    ensures
        r == admitted(*policy, seen(origin)),
{
    let named = match origin {
        Some(o) => o,
        None => {
            return !policy.enforce;
        },
    };
    let candidate = host_of(named);
    let listen = host_of(policy.listen.as_str());
    if same(listen.as_str(), candidate.as_str()) {
        return true;
    }
    let mut i: usize = 0;
    while i < policy.allowed.len()
        invariant
            i <= policy.allowed.len(),
            origin == Some(named),
            candidate@ == host(named@),
            forall|j: int|
                0 <= j < i ==> candidate@ != host(#[trigger] policy.allowed.deep_view()[j]),
        decreases policy.allowed.len() - i,
    {
        let allowed = host_of(policy.allowed[i].as_str());
        assert(policy.allowed.deep_view()[i as int] == policy.allowed@[i as int]@);
        if same(allowed.as_str(), candidate.as_str()) {
            return true;
        }
        i += 1;
    }
    if policy.enforce {
        return false;
    }
    let name = bare_of(candidate.as_str());
    if same(name, "localhost") {
        return true;
    }
    match parse_ip(name) {
        Some(address) => address.is_loopback(),
        None => false,
    }
}

// ---------------------------------------------------------------------------
// Laws
// ---------------------------------------------------------------------------
proof fn lemma_trim_right_after(a: Seq<char>, h: Seq<char>)
    requires
        a.len() > 0,
        !text::white(a.last()),
    ensures
        text::trim_right(a + h, |c: char| text::white(c)) == a + text::trim_right(
            h,
            |c: char| text::white(c),
        ),
    decreases h.len(),
{
    let w = |c: char| text::white(c);
    if h.len() == 0 {
        assert(a + h =~= a);
        assert(!w(a.last()));
        assert(a + text::trim_right(h, w) =~= a);
    } else {
        assert((a + h).last() == h.last());
        if w(h.last()) {
            assert((a + h).drop_last() =~= a + h.drop_last());
            lemma_trim_right_after(a, h.drop_last());
        }
    }
}

proof fn lemma_trimmed_after(a: Seq<char>, h: Seq<char>)
    requires
        a.len() > 0,
        !text::white(a[0]),
        !text::white(a.last()),
    ensures
        text::trimmed(a + h) == a + text::trim_right(h, |c: char| text::white(c)),
{
    let w = |c: char| text::white(c);
    assert((a + h)[0] == a[0]);
    assert(!w((a + h)[0]));
    assert(text::trim_left(a + h, w) == a + h);
    lemma_trim_right_after(a, h);
}

proof fn lemma_trim_right_start(h: Seq<char>, p: Seq<char>)
    requires
        text::starts(text::trim_right(h, |c: char| text::white(c)), p),
    ensures
        text::starts(h, p),
{
    let w = |c: char| text::white(c);
    text::lemma_trim_right(h, w);
    let t = text::trim_right(h, w);
    assert(h.take(p.len() as int) =~= t.take(p.len() as int));
}

/// An origin names the same host under either scheme.
pub proof fn the_scheme_of_an_origin_does_not_matter(policy: OriginPolicy, h: Seq<char>)
    requires
        !text::starts(h, "http://"@),
        !text::starts(h, "https://"@),
    ensures
        admitted(policy, Some("http://"@ + h)) == admitted(policy, Some("https://"@ + h)),
{
    reveal_strlit("http://");
    reveal_strlit("https://");
    let plain = "http://"@;
    let secure = "https://"@;
    let w = |c: char| text::white(c);
    let t = text::trim_right(h, w);
    lemma_trimmed_after(plain, h);
    lemma_trimmed_after(secure, h);
    if text::starts(t, plain) {
        lemma_trim_right_start(h, plain);
    }
    if text::starts(t, secure) {
        lemma_trim_right_start(h, secure);
    }
    assert((plain + t).take(7) =~= plain);
    assert((plain + t).skip(7) =~= t);
    assert((secure + t).take(8) =~= secure);
    assert((secure + t).skip(8) =~= t);
    assert((secure + t).take(7)[4] == 's');
    assert(plain[4] == ':');
    assert(text::unprefixed(plain + t, plain) == text::unprefixed(t, plain));
    assert(text::unprefixed(t, plain) == t);
    assert(text::unprefixed(t, secure) == t);
    assert(text::unprefixed(secure + t, plain) == secure + t);
    assert(text::unprefixed(secure + t, secure) == text::unprefixed(t, secure));
}

/// With enforcement, only the listen address and the listed origins are admitted, each as a
/// whole host.
pub proof fn enforcement_admits_listed_hosts_only(policy: OriginPolicy, origin: Option<Seq<char>>)
    requires
        policy.enforce,
    ensures
        admitted(policy, origin) == match origin {
            None => false,
            Some(o) => host(o) == host(policy.listen@) || exists|i: int|
                0 <= i < policy.allowed@.len() && host(o) == host(#[trigger] policy.allowed@[i]@),
        },
{
    if let Some(o) = origin {
        let list = policy.allowed.deep_view();
        assert forall|i: int| 0 <= i < list.len() implies #[trigger] list[i]
            == policy.allowed@[i]@ by {}
        if names(list, host(o)) {
            let i = choose|i: int| 0 <= i < list.len() && host(o) == host(#[trigger] list[i]);
            assert(host(o) == host(policy.allowed@[i]@));
        }
        if exists|i: int|
            0 <= i < policy.allowed@.len() && host(o) == host(#[trigger] policy.allowed@[i]@) {
            let i = choose|i: int|
                0 <= i < policy.allowed@.len() && host(o) == host(#[trigger] policy.allowed@[i]@);
            assert(host(o) == host(list[i]));
        }
    }
}

} // verus!
