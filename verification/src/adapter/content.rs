//! Directives about content and access: files, headers, errors, variables and accounts.

use crate::adapter::args;
use crate::adapter::profile::Profile;
use crate::ast::handler::{
    BasicAuthAlgorithm, BasicAuthConfig, BasicAuthConfigV, ErrorConfig, ErrorConfigV,
    FileServerConfig, FileServerConfigV, HeadersConfig, HeadersConfigV,
};
use crate::duplicate::Duplicate;
use crate::error;
use crate::error::{invalid, miscount, unknown_in, unsupported, AdapterError, ErrorV};
use crate::fold;
use crate::fold::fold_directives;
use crate::syntax::{Directive, DirectiveV};
use crate::table::Table;
use crate::text;
use crate::text::{after, begins_with, cat, cat3, cat4, join, parse_u16, same, show};
use vstd::prelude::*;

verus! {

// ---------------------------------------------------------------------------
// file_server
// ---------------------------------------------------------------------------
/// The options of a file server that the format defines and this one does not have.
pub open spec fn missing_file_option(profile: Profile, name: Seq<char>) -> bool {
    ||| name == "precompressed"@
    ||| name == "fs"@
    ||| profile == Profile::Extended && {
        ||| name == "hide"@
        ||| name == "status"@
        ||| name == "pass_thru"@
        ||| name == "disable_canonical_uris"@
        ||| name == "etag_file_extensions"@
    }
}

/// One line of a `file_server` block; `listed` is whether listings are on already.
pub open spec fn file_option(
    profile: Profile,
    listed: bool,
    c: FileServerConfigV,
    d: DirectiveV,
) -> Result<FileServerConfigV, ErrorV> {
    if d.name == "root"@ {
        if d.args.len() > 0 {
            Ok(FileServerConfigV { root: d.args[0], ..c })
        } else {
            Ok(c)
        }
    } else if d.name == "index"@ {
        Ok(FileServerConfigV { index: d.args, ..c })
    } else if d.name == "browse"@ {
        Ok(
            FileServerConfigV {
                browse: listed || d.args.len() == 0 || d.args[0] == "true"@,
                ..c
            },
        )
    } else if missing_file_option(profile, d.name) {
        Err(
            ErrorV::UnsupportedFeature(
                "file_server "@ + d.name,
                "Pingclair does not implement this subdirective yet"@,
            ),
        )
    } else {
        Err(ErrorV::UnknownDirective("file_server: "@ + d.name))
    }
}

/// `file_server [<root>|browse]` with an optional block; a named matcher is not a root.
pub open spec fn file_server(profile: Profile, d: DirectiveV) -> Result<FileServerConfigV, ErrorV> {
    let listed = d.args.len() > 0 && d.args[0] == "browse"@;
    let start = FileServerConfigV {
        root: if d.args.len() > 0 && !listed && !text::starts_char(d.args[0], '@') {
            d.args[0]
        } else {
            "."@
        },
        index: seq!["index.html"@],
        browse: listed,
        compress: true,
    };
    match d.block {
        None => Ok(start),
        Some(list) => fold::fold(
            |c: FileServerConfigV, o: DirectiveV| file_option(profile, listed, c, o),
            start,
            list,
        ),
    }
}

fn is_missing_file_option(profile: Profile, name: &str) -> (r: bool)
    ensures
        r == missing_file_option(profile, name@),
{
    same(name, "precompressed") || same(name, "fs") || (profile == Profile::Extended && (same(
        name,
        "hide",
    ) || same(name, "status") || same(name, "pass_thru") || same(name, "disable_canonical_uris")
        || same(name, "etag_file_extensions")))
}

fn read_file_option(profile: Profile, listed: bool, c: FileServerConfig, d: &Directive) -> (r:
    Result<FileServerConfig, AdapterError>)
    ensures
        error::outcome(r) == file_option(profile, listed, c.deep_view(), d.deep_view()),
{
    let mut c = c;
    let name = d.name.as_str();
    if same(name, "root") {
        if d.args.len() > 0 {
            c.root = d.args[0].clone();
        }
    } else if same(name, "index") {
        c.index = d.args.duplicate();
    } else if same(name, "browse") {
        c.browse = listed || d.args.len() == 0 || same(d.args[0].as_str(), "true");
    } else if is_missing_file_option(profile, name) {
        let feature = cat("file_server ", name);
        return Err(
            unsupported(
                feature.as_str(),
                "Pingclair does not implement this subdirective yet",
            ),
        );
    } else {
        return Err(unknown_in("file_server: ", name));
    }
    Ok(c)
}

/// Adapts `file_server`.
pub fn adapt_file_server(profile: Profile, d: &Directive) -> (r: Result<
    FileServerConfig,
    AdapterError,
>)
    ensures
        error::outcome(r) == file_server(profile, d.deep_view()),
{
    let listed = d.args.len() > 0 && same(d.args[0].as_str(), "browse");
    let root = if d.args.len() > 0 && !listed && !begins_with(d.args[0].as_str(), '@') {
        d.args[0].clone()
    } else {
        ".".to_owned()
    };
    let mut index: Vec<String> = Vec::new();
    index.push("index.html".to_owned());
    assert(index.deep_view() =~= seq!["index.html"@]);
    let c = FileServerConfig { root, index, browse: listed, compress: true };
    match &d.block {
        None => Ok(c),
        Some(block) => {
            let read = |c: FileServerConfig, d: &Directive| -> (r: Result<
                FileServerConfig,
                AdapterError,
            >)
                ensures
                    error::outcome(r) == file_option(profile, listed, c.deep_view(), d.deep_view()),
                { read_file_option(profile, listed, c, d) };
            fold_directives(
                read,
                c,
                &block.directives,
                Ghost(|c: FileServerConfigV, o: DirectiveV| file_option(profile, listed, c, o)),
            )
        },
    }
}

// ---------------------------------------------------------------------------
// header
// ---------------------------------------------------------------------------
/// The texts of `list` that do not name a matcher.
pub open spec fn unmarked(list: Seq<Seq<char>>) -> Seq<Seq<char>>
    decreases list.len(),
{
    if list.len() == 0 {
        Seq::empty()
    } else if text::starts_char(list.last(), '@') {
        unmarked(list.drop_last())
    } else {
        unmarked(list.drop_last()).push(list.last())
    }
}

/// The texts of `list` that do not name a matcher.
pub fn without_matchers(list: &Vec<String>) -> (r: Vec<String>)
    ensures
        r.deep_view() == unmarked(list.deep_view()),
{
    let mut out: Vec<String> = Vec::new();
    let mut i: usize = 0;
    let ghost all = list.deep_view();
    assert(out.deep_view() =~= unmarked(all.take(0)));
    while i < list.len()
        invariant
            i <= list.len(),
            all == list.deep_view(),
            out.deep_view() == unmarked(all.take(i as int)),
        decreases list.len() - i,
    {
        assert(all.take(i + 1).drop_last() =~= all.take(i as int));
        assert(all.take(i + 1).last() == list@[i as int]@);
        if !begins_with(list[i].as_str(), '@') {
            let ghost held = out.deep_view();
            out.push(list[i].clone());
            assert(out.deep_view() =~= held.push(list@[i as int]@));
        }
        i += 1;
    }
    assert(all.take(all.len() as int) =~= all);
    out
}

/// One line of a `header` block: `-Name` removes, `+Name value` adds, `Name value` sets.
pub open spec fn header_option(c: HeadersConfigV, d: DirectiveV) -> Result<HeadersConfigV, ErrorV> {
    if text::starts_char(d.name, '-') {
        Ok(HeadersConfigV { remove: c.remove.push(d.name.skip(1)), ..c })
    } else if d.args.len() == 0 {
        Ok(c)
    } else if text::starts_char(d.name, '+') {
        Ok(HeadersConfigV { add: c.add.insert(d.name.skip(1), d.args[0]), ..c })
    } else {
        Ok(HeadersConfigV { set: c.set.insert(d.name, d.args[0]), ..c })
    }
}

/// `header [@matcher] <name> <value>`, `header -<name>`, or a block of such lines.
pub open spec fn header(d: DirectiveV) -> Result<HeadersConfigV, ErrorV> {
    match d.block {
        Some(list) => fold::fold(
            |c: HeadersConfigV, o: DirectiveV| header_option(c, o),
            HeadersConfigV::unset(),
            list,
        ),
        None => {
            let rest = unmarked(d.args);
            if rest.len() == 0 {
                Ok(HeadersConfigV::unset())
            } else if text::starts_char(rest[0], '-') {
                Ok(HeadersConfigV { remove: seq![rest[0].skip(1)], ..HeadersConfigV::unset() })
            } else if rest.len() > 1 {
                Ok(
                    HeadersConfigV {
                        set: Map::empty().insert(rest[0], rest[1]),
                        ..HeadersConfigV::unset()
                    },
                )
            } else {
                Err(ErrorV::ArgumentCount("header"@, 2, rest.len() as usize))
            }
        },
    }
}

fn read_header_option(c: HeadersConfig, d: &Directive) -> (r: Result<HeadersConfig, AdapterError>)
    ensures
        error::outcome(r) == header_option(c.deep_view(), d.deep_view()),
{
    let mut c = c;
    let name = d.name.as_str();
    if begins_with(name, '-') {
        let ghost held = c.remove.deep_view();
        c.remove.push(after(name, 1).to_owned());
        assert(c.remove.deep_view() =~= held.push(name@.skip(1)));
    } else if d.args.len() == 0 {
    } else if begins_with(name, '+') {
        c.add.insert(after(name, 1).to_owned(), d.args[0].clone());
    } else {
        c.set.insert(d.name.clone(), d.args[0].clone());
    }
    Ok(c)
}

/// Adapts `header`.
pub fn adapt_header_directive(d: &Directive) -> (r: Result<HeadersConfig, AdapterError>)
    ensures
        error::outcome(r) == header(d.deep_view()),
{
    let mut c = HeadersConfig::unset();
    match &d.block {
        Some(block) => fold_directives(
            read_header_option,
            c,
            &block.directives,
            Ghost(|c: HeadersConfigV, o: DirectiveV| header_option(c, o)),
        ),
        None => {
            let rest = without_matchers(&d.args);
            assert(rest.deep_view().len() == rest@.len());
            if rest.len() == 0 {
                return Ok(c);
            }
            let first = rest[0].as_str();
            if begins_with(first, '-') {
                c.remove.push(after(first, 1).to_owned());
                assert(c.remove.deep_view() =~= seq![first@.skip(1)]);
                Ok(c)
            } else if rest.len() > 1 {
                c.set.insert(rest[0].clone(), rest[1].clone());
                Ok(c)
            } else {
                Err(miscount("header", 2, rest.len()))
            }
        },
    }
}

// ---------------------------------------------------------------------------
// error
// ---------------------------------------------------------------------------
/// A status that a response may carry.
pub open spec fn response_status(code: u16) -> bool {
    100 <= code <= 599
}

/// One line of an `error` block.
pub open spec fn error_option(c: ErrorConfigV, d: DirectiveV) -> Result<ErrorConfigV, ErrorV> {
    if d.name == "message"@ {
        if c.message is Some {
            Err(ErrorV::InvalidArgument("error"@, "message already specified"@))
        } else if d.args.len() == 0 {
            Err(ErrorV::ArgumentCount("error message"@, 1, 0))
        } else {
            Ok(ErrorConfigV { message: Some(text::joined(d.args, " "@)), ..c })
        }
    } else {
        Err(ErrorV::UnknownDirective("error: "@ + d.name))
    }
}

/// The positional arguments of `error`: a lone three-digit number is the status, a lone word the
/// message; of two, the message comes first.
pub open spec fn error_arguments(list: Seq<Seq<char>>) -> Result<ErrorConfigV, ErrorV> {
    if list.len() == 0 {
        Ok(ErrorConfigV { status: 500, message: None })
    } else if list.len() == 1 {
        match text::as_u16(list[0]) {
            Some(code) if list[0].len() == 3 && response_status(code) => Ok(
                ErrorConfigV { status: code, message: None },
            ),
            _ => Ok(ErrorConfigV { status: 500, message: Some(list[0]) }),
        }
    } else if list.len() == 2 {
        match text::as_u16(list[1]) {
            None => Err(
                ErrorV::InvalidArgument(
                    "error"@,
                    "`"@ + list[1] + "` is not a numeric status code"@,
                ),
            ),
            Some(code) => if response_status(code) {
                Ok(ErrorConfigV { status: code, message: Some(list[0]) })
            } else {
                Err(
                    ErrorV::InvalidArgument(
                        "error"@,
                        "status code "@ + text::shown(code as nat) + " is outside 100..=599"@,
                    ),
                )
            },
        }
    } else {
        Err(ErrorV::ArgumentCount("error"@, 2, list.len() as usize))
    }
}

/// `error [<message>] [<status>]` with an optional block.
pub open spec fn raised(d: DirectiveV) -> Result<ErrorConfigV, ErrorV> {
    match error_arguments(d.args) {
        Err(e) => Err(e),
        Ok(c) => match d.block {
            None => Ok(c),
            Some(list) => fold::fold(
                |c: ErrorConfigV, o: DirectiveV| error_option(c, o),
                c,
                list,
            ),
        },
    }
}

fn read_error_option(c: ErrorConfig, d: &Directive) -> (r: Result<ErrorConfig, AdapterError>)
    ensures
        error::outcome(r) == error_option(c.deep_view(), d.deep_view()),
{
    let mut c = c;
    let name = d.name.as_str();
    if same(name, "message") {
        if c.message.is_some() {
            return Err(invalid("error", "message already specified"));
        }
        if d.args.len() == 0 {
            return Err(miscount("error message", 1, 0));
        }
        c.message = Some(join(&d.args, " "));
        Ok(c)
    } else {
        Err(unknown_in("error: ", name))
    }
}

fn read_error_arguments(list: &Vec<String>) -> (r: Result<ErrorConfig, AdapterError>)
    ensures
        error::outcome(r) == error_arguments(list.deep_view()),
{
    if list.len() == 0 {
        return Ok(ErrorConfig { status: 500, message: None });
    }
    let first = list[0].as_str();
    if list.len() == 1 {
        return match parse_u16(first) {
            Some(code) => if first.unicode_len() == 3 && code >= 100 && code <= 599 {
                Ok(ErrorConfig { status: code, message: None })
            } else {
                Ok(ErrorConfig { status: 500, message: Some(list[0].clone()) })
            },
            None => Ok(ErrorConfig { status: 500, message: Some(list[0].clone()) }),
        };
    }
    if list.len() != 2 {
        return Err(miscount("error", 2, list.len()));
    }
    let second = list[1].as_str();
    match parse_u16(second) {
        None => {
            let reason = cat3("`", second, "` is not a numeric status code");
            Err(invalid("error", reason.as_str()))
        },
        Some(code) => if code >= 100 && code <= 599 {
            Ok(ErrorConfig { status: code, message: Some(list[0].clone()) })
        } else {
            let shown = show(code as u64);
            let reason = cat3("status code ", shown.as_str(), " is outside 100..=599");
            Err(invalid("error", reason.as_str()))
        },
    }
}

/// Adapts `error`.
pub fn adapt_error_directive(d: &Directive) -> (r: Result<ErrorConfig, AdapterError>)
    ensures
        error::outcome(r) == raised(d.deep_view()),
{
    let c = read_error_arguments(&d.args)?;
    match &d.block {
        None => Ok(c),
        Some(block) => fold_directives(
            read_error_option,
            c,
            &block.directives,
            Ghost(|c: ErrorConfigV, o: DirectiveV| error_option(c, o)),
        ),
    }
}

// ---------------------------------------------------------------------------
// vars
// ---------------------------------------------------------------------------
/// One line of a `vars` block.
pub open spec fn vars_option(c: Map<Seq<char>, Seq<char>>, d: DirectiveV) -> Result<
    Map<Seq<char>, Seq<char>>,
    ErrorV,
> {
    if d.args.len() == 1 {
        Ok(c.insert(d.name, d.args[0]))
    } else {
        Err(ErrorV::ArgumentCount("vars"@, 1, d.args.len() as usize))
    }
}

/// `vars [<name> <value>]` with an optional block of such pairs.
pub open spec fn vars(d: DirectiveV) -> Result<Map<Seq<char>, Seq<char>>, ErrorV> {
    if d.args.len() != 0 && d.args.len() != 2 {
        Err(ErrorV::ArgumentCount("vars"@, 2, d.args.len() as usize))
    } else {
        let start = if d.args.len() == 2 {
            Map::empty().insert(d.args[0], d.args[1])
        } else {
            Map::empty()
        };
        match d.block {
            None => Ok(start),
            Some(list) => fold::fold(
                |c: Map<Seq<char>, Seq<char>>, o: DirectiveV| vars_option(c, o),
                start,
                list,
            ),
        }
    }
}

fn read_vars_option(c: Table<String>, d: &Directive) -> (r: Result<Table<String>, AdapterError>)
    ensures
        error::outcome(r) == vars_option(c.deep_view(), d.deep_view()),
{
    let mut c = c;
    if d.args.len() == 1 {
        c.insert(d.name.clone(), d.args[0].clone());
        Ok(c)
    } else {
        Err(miscount("vars", 1, d.args.len()))
    }
}

/// Adapts `vars`.
pub fn adapt_vars_directive(d: &Directive) -> (r: Result<Table<String>, AdapterError>)
    ensures
        error::outcome(r) == vars(d.deep_view()),
{
    if d.args.len() != 0 && d.args.len() != 2 {
        return Err(miscount("vars", 2, d.args.len()));
    }
    let mut c: Table<String> = Table::new();
    if d.args.len() == 2 {
        c.insert(d.args[0].clone(), d.args[1].clone());
    }
    match &d.block {
        None => Ok(c),
        Some(block) => fold_directives(
            read_vars_option,
            c,
            &block.directives,
            Ghost(|c: Map<Seq<char>, Seq<char>>, o: DirectiveV| vars_option(c, o)),
        ),
    }
}

// ---------------------------------------------------------------------------
// basic_auth
// ---------------------------------------------------------------------------
/// `list` read as pairs of a user and a password.
pub open spec fn pairs(list: Seq<Seq<char>>) -> Result<Seq<(Seq<char>, Seq<char>)>, ErrorV> {
    if list.len() % 2 != 0 {
        Err(
            ErrorV::InvalidArgument(
                "basic_auth"@,
                "credentials must be <user> <password> pairs"@,
            ),
        )
    } else {
        Ok(Seq::new(list.len() / 2, |i: int| (list[2 * i], list[2 * i + 1])))
    }
}

fn read_pairs(list: &Vec<String>) -> (r: Result<Vec<(String, String)>, AdapterError>)
    ensures
        error::outcome(r) == pairs(list.deep_view()),
{
    if list.len() % 2 != 0 {
        return Err(invalid("basic_auth", "credentials must be <user> <password> pairs"));
    }
    let mut out: Vec<(String, String)> = Vec::new();
    let mut i: usize = 0;
    while i < list.len()
        invariant
            i <= list.len(),
            i % 2 == 0,
            list.len() % 2 == 0,
            out@.len() == i / 2,
            forall|j: int|
                0 <= j < i / 2 ==> (#[trigger] out@[j]).deep_view() == (
                    list@[2 * j]@,
                    list@[2 * j + 1]@,
                ),
        decreases list.len() - i,
    {
        out.push((list[i].clone(), list[i + 1].clone()));
        i += 2;
    }
    assert(out.deep_view() =~= Seq::new(
        (list.deep_view().len() / 2) as nat,
        |i: int| (list.deep_view()[2 * i], list.deep_view()[2 * i + 1]),
    ));
    Ok(out)
}

/// One line of a `basic_auth` block in the core directives: the realm, or accounts.
pub open spec fn core_account(c: BasicAuthConfigV, d: DirectiveV) -> Result<
    BasicAuthConfigV,
    ErrorV,
> {
    if d.name == "realm"@ {
        Ok(
            BasicAuthConfigV {
                realm: if d.args.len() > 0 {
                    Some(d.args[0])
                } else {
                    None
                },
                ..c
            },
        )
    } else {
        error::with(
            pairs(seq![d.name] + d.args),
            |p: Seq<(Seq<char>, Seq<char>)>|
                BasicAuthConfigV { credentials: c.credentials + p, ..c },
        )
    }
}

fn read_core_account(c: BasicAuthConfig, d: &Directive) -> (r: Result<
    BasicAuthConfig,
    AdapterError,
>)
    ensures
        error::outcome(r) == core_account(c.deep_view(), d.deep_view()),
{
    let mut c = c;
    if same(d.name.as_str(), "realm") {
        c.realm = if d.args.len() > 0 {
            Some(d.args[0].clone())
        } else {
            None
        };
        return Ok(c);
    }
    let mut words: Vec<String> = Vec::new();
    words.push(d.name.clone());
    args::extend(&mut words, &d.args);
    assert(words.deep_view() =~= seq![d.name@] + d.args.deep_view());
    let mut more = read_pairs(&words)?;
    let ghost held = c.credentials.deep_view();
    let ghost added = more.deep_view();
    c.credentials.append(&mut more);
    assert(c.credentials.deep_view() =~= held + added);
    Ok(c)
}

/// One account in a `basic_auth` block: a user name and one hashed password.
pub open spec fn hashed_account(c: BasicAuthConfigV, d: DirectiveV) -> Result<
    BasicAuthConfigV,
    ErrorV,
> {
    if d.name == "realm"@ {
        Err(
            ErrorV::InvalidArgument(
                "basic_auth"@,
                "`realm` is the second argument, not a block line: write                  `basic_auth bcrypt \"Your Realm\" { … }`. A block line named `realm` would                  otherwise define an account called `realm`"@,
            ),
        )
    } else if d.args.len() != 1 {
        Err(
            ErrorV::InvalidArgument(
                "basic_auth"@,
                "account `"@ + d.name + "` needs exactly one hashed password, got "@ + text::shown(
                    d.args.len(),
                ),
            ),
        )
    } else if d.name.len() == 0 || d.args[0].len() == 0 {
        Err(ErrorV::InvalidArgument("basic_auth"@, "username and password cannot be empty"@))
    } else {
        Ok(BasicAuthConfigV { credentials: c.credentials.push((d.name, d.args[0])), ..c })
    }
}

fn read_hashed_account(c: BasicAuthConfig, d: &Directive) -> (r: Result<
    BasicAuthConfig,
    AdapterError,
>)
    ensures
        error::outcome(r) == hashed_account(c.deep_view(), d.deep_view()),
{
    let mut c = c;
    let name = d.name.as_str();
    if same(name, "realm") {
        return Err(
            invalid(
                "basic_auth",
                "`realm` is the second argument, not a block line: write                  `basic_auth bcrypt \"Your Realm\" { … }`. A block line named `realm` would                  otherwise define an account called `realm`",
            ),
        );
    }
    if d.args.len() != 1 {
        let count = show(d.args.len() as u64);
        let reason = cat4(
            "account `",
            name,
            "` needs exactly one hashed password, got ",
            count.as_str(),
        );
        return Err(invalid("basic_auth", reason.as_str()));
    }
    if name.is_empty() || d.args[0].as_str().is_empty() {
        return Err(invalid("basic_auth", "username and password cannot be empty"));
    }
    let ghost held = c.credentials.deep_view();
    c.credentials.push((d.name.clone(), d.args[0].clone()));
    assert(c.credentials.deep_view() =~= held.push((d.name@, d.args@[0]@)));
    Ok(c)
}

/// Accounts must name at least one credential.
pub open spec fn some_account(c: BasicAuthConfigV) -> Result<BasicAuthConfigV, ErrorV> {
    if c.credentials.len() == 0 {
        Err(ErrorV::InvalidArgument("basic_auth"@, "at least one credential pair is required"@))
    } else {
        Ok(c)
    }
}

/// `basic_auth` in the core directives: credentials inline, or a block with an optional realm.
pub open spec fn core_basic_auth(d: DirectiveV) -> Result<BasicAuthConfigV, ErrorV> {
    let start = BasicAuthConfigV { realm: None, algorithm: None, credentials: Seq::empty() };
    match d.block {
        Some(list) => if d.args.len() != 0 {
            Err(
                ErrorV::InvalidArgument(
                    "basic_auth"@,
                    "cannot mix inline credentials with a block"@,
                ),
            )
        } else {
            match fold::fold(
                |c: BasicAuthConfigV, o: DirectiveV| core_account(c, o),
                start,
                list,
            ) {
                Err(e) => Err(e),
                Ok(c) => some_account(c),
            }
        },
        None => match pairs(d.args) {
            Err(e) => Err(e),
            Ok(p) => some_account(BasicAuthConfigV { credentials: p, ..start }),
        },
    }
}

/// The hash algorithm that a word names.
pub open spec fn hash_algorithm(word: Seq<char>) -> Result<BasicAuthAlgorithm, ErrorV> {
    if word == "bcrypt"@ {
        Ok(BasicAuthAlgorithm::Bcrypt)
    } else if word == "argon2id"@ {
        Ok(BasicAuthAlgorithm::Argon2id)
    } else {
        Err(
            ErrorV::InvalidArgument(
                "basic_auth"@,
                "unrecognized hash algorithm `"@ + word + "` (expected bcrypt or argon2id)"@,
            ),
        )
    }
}

/// `basic_auth [<hash_algorithm> [<realm>]] { <user> <hashed_password> ... }`.
pub open spec fn hashed_basic_auth(d: DirectiveV) -> Result<BasicAuthConfigV, ErrorV> {
    if d.args.len() > 2 {
        Err(
            ErrorV::InvalidArgument(
                "basic_auth"@,
                "expected at most <hash_algorithm> <realm>, got "@ + text::shown(d.args.len())
                    + " arguments; credentials                      belong in the block, one `<username> <hashed_password>` per line"@,
            ),
        )
    } else {
        match hash_algorithm(
            if d.args.len() > 0 {
                d.args[0]
            } else {
                "bcrypt"@
            },
        ) {
            Err(e) => Err(e),
            Ok(algorithm) => match d.block {
                None => Err(
                    ErrorV::InvalidArgument(
                        "basic_auth"@,
                        "expected a block of `<username> <hashed_password>` lines"@,
                    ),
                ),
                Some(list) => match fold::fold(
                    |c: BasicAuthConfigV, o: DirectiveV| hashed_account(c, o),
                    BasicAuthConfigV {
                        realm: if d.args.len() > 1 {
                            Some(d.args[1])
                        } else {
                            None
                        },
                        algorithm: Some(algorithm),
                        credentials: Seq::empty(),
                    },
                    list,
                ) {
                    Err(e) => Err(e),
                    Ok(c) => some_account(c),
                },
            },
        }
    }
}

/// `basic_auth`.
pub open spec fn basic_auth(profile: Profile, d: DirectiveV) -> Result<BasicAuthConfigV, ErrorV> {
    match profile {
        Profile::Core => core_basic_auth(d),
        Profile::Extended => hashed_basic_auth(d),
    }
}

fn check_account(c: BasicAuthConfig) -> (r: Result<BasicAuthConfig, AdapterError>)
    ensures
        error::outcome(r) == some_account(c.deep_view()),
{
    if c.credentials.len() == 0 {
        Err(invalid("basic_auth", "at least one credential pair is required"))
    } else {
        Ok(c)
    }
}

fn adapt_core_basic_auth(d: &Directive) -> (r: Result<BasicAuthConfig, AdapterError>)
    ensures
        error::outcome(r) == core_basic_auth(d.deep_view()),
{
    let mut c = BasicAuthConfig { realm: None, algorithm: None, credentials: Vec::new() };
    assert(c.credentials.deep_view() =~= Seq::<(Seq<char>, Seq<char>)>::empty());
    match &d.block {
        Some(block) => {
            if d.args.len() != 0 {
                return Err(invalid("basic_auth", "cannot mix inline credentials with a block"));
            }
            let c = fold_directives(
                read_core_account,
                c,
                &block.directives,
                Ghost(|c: BasicAuthConfigV, o: DirectiveV| core_account(c, o)),
            )?;
            check_account(c)
        },
        None => {
            c.credentials = read_pairs(&d.args)?;
            check_account(c)
        },
    }
}

fn adapt_hashed_basic_auth(d: &Directive) -> (r: Result<BasicAuthConfig, AdapterError>)
    ensures
        error::outcome(r) == hashed_basic_auth(d.deep_view()),
{
    if d.args.len() > 2 {
        let count = show(d.args.len() as u64);
        let reason = cat3(
            "expected at most <hash_algorithm> <realm>, got ",
            count.as_str(),
            " arguments; credentials                      belong in the block, one `<username> <hashed_password>` per line",
        );
        return Err(invalid("basic_auth", reason.as_str()));
    }
    let word = if d.args.len() > 0 {
        d.args[0].as_str()
    } else {
        "bcrypt"
    };
    let algorithm = if same(word, "bcrypt") {
        BasicAuthAlgorithm::Bcrypt
    } else if same(word, "argon2id") {
        BasicAuthAlgorithm::Argon2id
    } else {
        let reason = cat3(
            "unrecognized hash algorithm `",
            word,
            "` (expected bcrypt or argon2id)",
        );
        return Err(invalid("basic_auth", reason.as_str()));
    };
    match &d.block {
        None => Err(
            invalid("basic_auth", "expected a block of `<username> <hashed_password>` lines"),
        ),
        Some(block) => {
            let realm = if d.args.len() > 1 {
                Some(d.args[1].clone())
            } else {
                None
            };
            let c = BasicAuthConfig {
                realm,
                algorithm: Some(algorithm),
                credentials: Vec::new(),
            };
            assert(c.credentials.deep_view() =~= Seq::<(Seq<char>, Seq<char>)>::empty());
            let c = fold_directives(
                read_hashed_account,
                c,
                &block.directives,
                Ghost(|c: BasicAuthConfigV, o: DirectiveV| hashed_account(c, o)),
            )?;
            check_account(c)
        },
    }
}

/// Adapts `basic_auth`.
pub fn adapt_basic_auth(profile: Profile, d: &Directive) -> (r: Result<
    BasicAuthConfig,
    AdapterError,
>)
    ensures
        error::outcome(r) == basic_auth(profile, d.deep_view()),
{
    match profile {
        Profile::Core => adapt_core_basic_auth(d),
        Profile::Extended => adapt_hashed_basic_auth(d),
    }
}

} // verus!
