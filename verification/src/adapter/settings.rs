//! Settings of a site that are no handlers.

use crate::adapter::addresses;
use crate::adapter::addresses::any_host;
use crate::adapter::profile::Profile;
use crate::ast::server::{CompressionAlgo, ListenAddr, ListenAddrV, Scheme};
use crate::error;
use crate::error::{invalid, miscount, AdapterError, ErrorV};
use crate::fold;
use crate::fold::each_text;
use crate::syntax::{Directive, DirectiveV};
use crate::text;
use crate::text::{
    after, before, begins, cat3, find, find_last, holds, parse_u16, same, show, to_lowercase,
};
use vstd::prelude::*;

verus! {

// ---------------------------------------------------------------------------
// Content types
// ---------------------------------------------------------------------------
/// A content type, or a pattern with a wildcard for the subtype or its beginning.
pub open spec fn mime_pattern(p: Seq<char>) -> bool {
    match p.index_of_first('/') {
        None => false,
        Some(i) => {
            let media = p.take(i);
            let subtype = p.skip(i + 1);
            if media.len() == 0 || subtype.len() == 0 || subtype.contains('/') {
                false
            } else if media == "*"@ {
                subtype == "*"@
            } else if media.contains('*') {
                false
            } else {
                match subtype.index_of_first('*') {
                    None => true,
                    Some(k) => k == 0 && !subtype.skip(1).contains('*'),
                }
            }
        },
    }
}

/// Whether `pattern` is an exact, subtype-wildcard or structured-suffix content type.
pub fn is_valid_mime_pattern(pattern: &str) -> (r: bool)
    ensures
        r == mime_pattern(pattern@),
{
    match find(pattern, '/') {
        None => false,
        Some(i) => {
            let n: usize = pattern.unicode_len();
            let media = before(pattern, i);
            let subtype = after(pattern, i + 1);
            if media.unicode_len() == 0 || subtype.unicode_len() == 0 || holds(subtype, '/') {
                return false;
            }
            if same(media, "*") {
                return same(subtype, "*");
            }
            if holds(media, '*') {
                return false;
            }
            match find(subtype, '*') {
                None => true,
                Some(k) => k == 0 && !holds(after(subtype, 1), '*'),
            }
        },
    }
}

/// The patterns of `gzip_types`; the first that is malformed decides.
pub open spec fn mime_patterns(list: Seq<Seq<char>>) -> Result<Seq<Seq<char>>, ErrorV> {
    if list.len() == 0 {
        Err(ErrorV::InvalidArgument("gzip_types"@, "at least one MIME pattern is required"@))
    } else {
        fold::each(|p: Seq<char>| checked_mime_pattern(p), list)
    }
}

/// A pattern that must be well formed.
pub open spec fn checked_mime_pattern(p: Seq<char>) -> Result<Seq<char>, ErrorV> {
    if mime_pattern(p) {
        Ok(p)
    } else {
        Err(ErrorV::InvalidArgument("gzip_types"@, "invalid MIME pattern `"@ + p + "`"@))
    }
}

fn check_mime_pattern(p: &str) -> (r: Result<String, AdapterError>)
    ensures
        error::outcome(r) == checked_mime_pattern(p@),
{
    if is_valid_mime_pattern(p) {
        return Ok(p.to_owned());
    }
    let reason = cat3("invalid MIME pattern `", p, "`");
    Err(invalid("gzip_types", reason.as_str()))
}

/// Reads the patterns of `gzip_types`.
pub fn read_mime_patterns(list: &Vec<String>) -> (r: Result<Vec<String>, AdapterError>)
    ensures
        error::outcome(r) == mime_patterns(list.deep_view()),
{
    if list.len() == 0 {
        return Err(invalid("gzip_types", "at least one MIME pattern is required"));
    }
    each_text(check_mime_pattern, list, Ghost(|p: Seq<char>| checked_mime_pattern(p)))
}

// ---------------------------------------------------------------------------
// Compression
// ---------------------------------------------------------------------------
/// A word that switches compression off.
pub open spec fn switches_off(word: Seq<char>) -> bool {
    text::lowercase(word) == "off"@ || text::lowercase(word) == "none"@
}

/// The coding that `word` names, in any case; `name` is the directive.
pub open spec fn coding(name: Seq<char>, word: Seq<char>) -> Result<CompressionAlgo, ErrorV> {
    let lower = text::lowercase(word);
    if switches_off(word) {
        Err(ErrorV::InvalidArgument(name, "`off` cannot be combined with other codings"@))
    } else if lower == "gzip"@ {
        Ok(CompressionAlgo::Gzip)
    } else if lower == "br"@ || lower == "brotli"@ {
        Ok(CompressionAlgo::Br)
    } else if lower == "zstd"@ {
        Ok(CompressionAlgo::Zstd)
    } else {
        Err(
            ErrorV::InvalidArgument(
                name,
                "unknown coding `"@ + lower + "` (expected gzip, zstd, br or off)"@,
            ),
        )
    }
}

/// Each coding once, at the place of its first mention.
pub open spec fn unique(list: Seq<CompressionAlgo>) -> Seq<CompressionAlgo>
    decreases list.len(),
{
    if list.len() == 0 {
        Seq::empty()
    } else {
        let front = unique(list.drop_last());
        if front.contains(list.last()) {
            front
        } else {
            front.push(list.last())
        }
    }
}

/// The codings that `encode` names, in the order of preference; none where it is switched off, and
/// gzip where nothing is said.
pub open spec fn codings(d: DirectiveV) -> Result<Seq<CompressionAlgo>, ErrorV> {
    if d.args.len() == 0 {
        Ok(seq![CompressionAlgo::Gzip])
    } else if d.args.len() == 1 && switches_off(d.args[0]) {
        Ok(Seq::empty())
    } else {
        error::with(
            fold::each(|word: Seq<char>| coding(d.name, word), d.args),
            |list: Seq<CompressionAlgo>| unique(list),
        )
    }
}

fn read_coding(name: &str, word: &str) -> (r: Result<CompressionAlgo, AdapterError>)
    ensures
        error::outcome(r) == coding(name@, word@),
{
    let lower = to_lowercase(word);
    let l = lower.as_str();
    if same(l, "off") || same(l, "none") {
        Err(invalid(name, "`off` cannot be combined with other codings"))
    } else if same(l, "gzip") {
        Ok(CompressionAlgo::Gzip)
    } else if same(l, "br") || same(l, "brotli") {
        Ok(CompressionAlgo::Br)
    } else if same(l, "zstd") {
        Ok(CompressionAlgo::Zstd)
    } else {
        let reason = cat3("unknown coding `", l, "` (expected gzip, zstd, br or off)");
        Err(invalid(name, reason.as_str()))
    }
}

fn contains_coding(list: &Vec<CompressionAlgo>, c: CompressionAlgo) -> (r: bool)
    ensures
        r == list@.contains(c),
{
    let mut i: usize = 0;
    while i < list.len()
        invariant
            i <= list.len(),
            forall|j: int| 0 <= j < i ==> #[trigger] list@[j] != c,
        decreases list.len() - i,
    {
        if list[i] == c {
            return true;
        }
        i += 1;
    }
    false
}

fn keep_first(list: &Vec<CompressionAlgo>) -> (r: Vec<CompressionAlgo>)
    ensures
        r@ == unique(list@),
{
    let mut out: Vec<CompressionAlgo> = Vec::new();
    let mut i: usize = 0;
    assert(out@ =~= unique(list@.take(0)));
    while i < list.len()
        invariant
            i <= list.len(),
            out@ == unique(list@.take(i as int)),
        decreases list.len() - i,
    {
        assert(list@.take(i + 1).drop_last() =~= list@.take(i as int));
        assert(list@.take(i + 1).last() == list@[i as int]);
        if !contains_coding(&out, list[i]) {
            out.push(list[i]);
        }
        i += 1;
    }
    assert(list@.take(i as int) =~= list@);
    out
}

/// Reads the codings that `encode` names.
pub fn read_codings(d: &Directive) -> (r: Result<Vec<CompressionAlgo>, AdapterError>)
    ensures
        error::outcome(r) == codings(d.deep_view()),
{
    if d.args.len() == 0 {
        let gzip = vec![CompressionAlgo::Gzip];
        assert(gzip.deep_view() =~= seq![CompressionAlgo::Gzip]);
        return Ok(gzip);
    }
    if d.args.len() == 1 {
        let lower = to_lowercase(d.args[0].as_str());
        if same(lower.as_str(), "off") || same(lower.as_str(), "none") {
            let none: Vec<CompressionAlgo> = Vec::new();
            assert(none.deep_view() =~= Seq::<CompressionAlgo>::empty());
            return Ok(none);
        }
    }
    let name = d.name.as_str();
    let read = |word: &str| -> (r: Result<CompressionAlgo, AdapterError>)
        ensures
            error::outcome(r) == coding(name@, word@),
        { read_coding(name, word) };
    let list = each_text(read, &d.args, Ghost(|word: Seq<char>| coding(name@, word)))?;
    assert(list.deep_view() =~= list@);
    let out = keep_first(&list);
    assert(out.deep_view() =~= out@);
    Ok(out)
}

/// Each coding is listed once.
pub proof fn codings_are_listed_once(list: Seq<CompressionAlgo>)
    ensures
        unique(list).no_duplicates(),
        forall|c: CompressionAlgo| #[trigger] unique(list).contains(c) <==> list.contains(c),
    decreases list.len(),
{
    if list.len() > 0 {
        let less = list.drop_last();
        codings_are_listed_once(less);
        let front = unique(less);
        let last = list.last();
        let out = unique(list);
        assert forall|c: CompressionAlgo| list.contains(c) == (less.contains(c) || c == last) by {
            if list.contains(c) {
                let k = choose|k: int| 0 <= k < list.len() && list[k] == c;
                if k < less.len() {
                    assert(less[k] == c);
                }
            }
            if less.contains(c) {
                let k = choose|k: int| 0 <= k < less.len() && less[k] == c;
                assert(list[k] == c);
            }
            assert(list[list.len() - 1] == last);
        }
        if !front.contains(last) {
            assert forall|c: CompressionAlgo| out.contains(c) == (front.contains(c) || c
                == last) by {
                if out.contains(c) {
                    let k = choose|k: int| 0 <= k < out.len() && out[k] == c;
                    if k < front.len() {
                        assert(front[k] == c);
                    }
                }
                if front.contains(c) {
                    let k = choose|k: int| 0 <= k < front.len() && front[k] == c;
                    assert(out[k] == c);
                }
                assert(out[out.len() - 1] == last);
            }
            assert forall|i: int, j: int|
                0 <= i < out.len() && 0 <= j < out.len() && i != j implies out[i] != out[j] by {
                if i < front.len() {
                    assert(front.contains(front[i]));
                }
                if j < front.len() {
                    assert(front.contains(front[j]));
                }
            }
        }
        assert forall|c: CompressionAlgo| #[trigger] out.contains(c) <==> list.contains(c) by {
            assert(front.contains(c) <==> less.contains(c));
        }
    }
}

// ---------------------------------------------------------------------------
// Error pages, roots and listeners
// ---------------------------------------------------------------------------
/// The status code of an error page.
pub open spec fn error_code(word: Seq<char>) -> Result<u16, ErrorV> {
    match text::as_u16(word) {
        None => Err(ErrorV::InvalidArgument("error_page"@, word)),
        Some(code) => if 400 <= code <= 599 {
            Ok(code)
        } else {
            Err(
                ErrorV::InvalidArgument(
                    "error_page"@,
                    "status "@ + text::shown(code as nat) + " is not an error code"@,
                ),
            )
        },
    }
}

/// `error_page <code...> <page>`: the codes, and the page for each of them.
pub open spec fn error_pages(d: DirectiveV) -> Result<Seq<(u16, Seq<char>)>, ErrorV> {
    if d.args.len() < 2 {
        Err(ErrorV::ArgumentCount("error_page"@, 2, d.args.len() as usize))
    } else {
        error::with(
            fold::each(|word: Seq<char>| error_code(word), d.args.drop_last()),
            |list: Seq<u16>| list.map_values(|code: u16| (code, d.args.last())),
        )
    }
}

fn read_error_code(word: &str) -> (r: Result<u16, AdapterError>)
    ensures
        error::outcome(r) == error_code(word@),
{
    match parse_u16(word) {
        None => Err(invalid("error_page", word)),
        Some(code) => {
            if 400 <= code && code <= 599 {
                return Ok(code);
            }
            let shown = show(code as u64);
            let reason = cat3("status ", shown.as_str(), " is not an error code");
            Err(invalid("error_page", reason.as_str()))
        },
    }
}

fn all_but_last(list: &Vec<String>) -> (r: Vec<String>)
    requires
        list.len() > 0,
    ensures
        r.deep_view() == list.deep_view().drop_last(),
{
    let mut out: Vec<String> = Vec::new();
    let mut i: usize = 0;
    while i < list.len() - 1
        invariant
            list.len() > 0,
            i <= list.len() - 1,
            out@.len() == i,
            forall|j: int| 0 <= j < i ==> (#[trigger] out@[j])@ == list@[j]@,
        decreases list.len() - i,
    {
        out.push(list[i].clone());
        i += 1;
    }
    assert(out.deep_view() =~= list.deep_view().drop_last());
    out
}

/// Reads `error_page <code...> <page>`.
pub fn read_error_pages(d: &Directive) -> (r: Result<Vec<(u16, String)>, AdapterError>)
    ensures
        error::outcome(r) == error_pages(d.deep_view()),
{
    if d.args.len() < 2 {
        return Err(miscount("error_page", 2, d.args.len()));
    }
    let words = all_but_last(&d.args);
    let codes = each_text(read_error_code, &words, Ghost(|word: Seq<char>| error_code(word)))?;
    assert(codes.deep_view() =~= codes@);
    let mut out: Vec<(u16, String)> = Vec::new();
    let mut i: usize = 0;
    let ghost page = d.deep_view().args.last();
    while i < codes.len()
        invariant
            i <= codes.len(),
            d.args.len() >= 2,
            page == d.args@[d.args@.len() - 1]@,
            out@.len() == i,
            forall|j: int| 0 <= j < i ==> (#[trigger] out@[j]).deep_view() == (codes@[j], page),
        decreases codes.len() - i,
    {
        out.push((codes[i], d.args[d.args.len() - 1].clone()));
        i += 1;
    }
    assert(out.deep_view() =~= codes@.map_values(|code: u16| (code, page)));
    Ok(out)
}

/// `root [*] <path>`.
pub open spec fn document_root(d: DirectiveV) -> Result<Seq<char>, ErrorV> {
    let list = if d.args.len() > 0 && d.args[0] == "*"@ {
        d.args.skip(1)
    } else {
        d.args
    };
    if list.len() == 0 {
        Err(ErrorV::ArgumentCount("root"@, 1, d.args.len() as usize))
    } else if list.len() != 1 {
        Err(ErrorV::ArgumentCount("root"@, 1, list.len() as usize))
    } else {
        Ok(list[0])
    }
}

/// Reads `root [*] <path>`.
pub fn read_document_root(d: &Directive) -> (r: Result<String, AdapterError>)
    ensures
        error::outcome(r) == document_root(d.deep_view()),
{
    let skipped: usize = if d.args.len() > 0 && same(d.args[0].as_str(), "*") {
        1
    } else {
        0
    };
    let count: usize = d.args.len() - skipped;
    if count == 0 {
        return Err(miscount("root", 1, d.args.len()));
    }
    if count != 1 {
        return Err(miscount("root", 1, count));
    }
    Ok(d.args[skipped].clone())
}

/// The only flag of a listener.
pub open spec fn listener_flag(word: Seq<char>) -> Result<(), ErrorV> {
    if word == "proxy_protocol"@ {
        Ok(())
    } else {
        Err(ErrorV::InvalidArgument("listen"@, "unknown listener flag `"@ + word + "`"@))
    }
}

/// What stands after the last colon, or the whole text.
pub open spec fn after_colon(s: Seq<char>) -> Seq<char> {
    match s.index_of_last(':') {
        Some(i) => s.skip(i + 1),
        None => s,
    }
}

/// `listen <address> [proxy_protocol]`.
pub open spec fn listener(profile: Profile, d: DirectiveV) -> Result<ListenAddrV, ErrorV> {
    if d.args.len() == 0 {
        Err(ErrorV::ArgumentCount("listen"@, 1, 0))
    } else {
        error::with(
            fold::each(|word: Seq<char>| listener_flag(word), d.args.skip(1)),
            |flags: Seq<()>|
                ListenAddrV {
                    scheme: if text::starts(d.args[0], "https"@) {
                        Scheme::Https
                    } else {
                        Scheme::Http
                    },
                    host: addresses::every_interface(profile),
                    port: text::as_u16(after_colon(d.args[0])),
                    force_plaintext: false,
                    proxy_protocol: d.args.len() > 1,
                },
        )
    }
}

fn read_listener_flag(word: &str) -> (r: Result<(), AdapterError>)
    ensures
        error::outcome(r) == listener_flag(word@),
{
    if same(word, "proxy_protocol") {
        return Ok(());
    }
    let reason = cat3("unknown listener flag `", word, "`");
    Err(invalid("listen", reason.as_str()))
}

/// Reads `listen <address> [proxy_protocol]`.
pub fn read_listener(profile: Profile, d: &Directive) -> (r: Result<ListenAddr, AdapterError>)
    ensures
        error::outcome(r) == listener(profile, d.deep_view()),
{
    if d.args.len() == 0 {
        return Err(miscount("listen", 1, 0));
    }
    let flags = crate::adapter::args::args_from(&d.args, 1);
    each_text(read_listener_flag, &flags, Ghost(|word: Seq<char>| listener_flag(word)))?;
    let addr = d.args[0].as_str();
    let scheme = if begins(addr, "https") {
        Scheme::Https
    } else {
        Scheme::Http
    };
    let tail = match find_last(addr, ':') {
        Some(i) => {
            let n: usize = addr.unicode_len();
            after(addr, i + 1)
        },
        None => addr,
    };
    Ok(
        ListenAddr {
            scheme,
            host: any_host(profile).to_owned(),
            port: parse_u16(tail),
            force_plaintext: false,
            proxy_protocol: d.args.len() > 1,
        },
    )
}

} // verus!
