//! The `tls` directive.

use crate::ast::server::{TlsDirective, TlsDirectiveV};
use crate::error;
use crate::error::{invalid, unknown_in, AdapterError, ErrorV};
use crate::fold;
use crate::fold::fold_directives;
use crate::syntax::{Directive, DirectiveV};
use crate::text::same;
use vstd::prelude::*;

verus! {

/// The first argument, if there is one.
pub open spec fn first(list: Seq<Seq<char>>) -> Option<Seq<char>> {
    if list.len() > 0 {
        Some(list[0])
    } else {
        None
    }
}

fn read_first(list: &Vec<String>) -> (r: Option<String>)
    ensures
        r.deep_view() == first(list.deep_view()),
{
    if list.len() > 0 {
        Some(list[0].clone())
    } else {
        None
    }
}

/// One line of a `tls` block.
pub open spec fn tls_option(c: TlsDirectiveV, d: DirectiveV) -> Result<
    TlsDirectiveV,
    ErrorV,
> {
    if d.name == "cert"@ {
        Ok(TlsDirectiveV { cert: first(d.args), ..c })
    } else if d.name == "key"@ {
        Ok(TlsDirectiveV { key: first(d.args), ..c })
    } else if d.name == "acme_email"@ || d.name == "email"@ {
        Ok(TlsDirectiveV { acme_email: first(d.args), ..c })
    } else if d.name == "auto"@ {
        Ok(TlsDirectiveV { auto: true, ..c })
    } else if d.name == "internal"@ {
        if d.args.len() != 0 {
            Err(ErrorV::InvalidArgument("tls internal"@, "expected no arguments"@))
        } else {
            Ok(TlsDirectiveV { internal: true, ..c })
        }
    } else if d.name == "http3"@ {
        Ok(
            TlsDirectiveV {
                http3: Some(
                    d.args.len() == 0 || (d.args[0] != "off"@ && d.args[0] != "false"@),
                ),
                ..c
            },
        )
    } else {
        Err(ErrorV::UnknownDirective("tls: "@ + d.name))
    }
}

fn read_tls_option(c: TlsDirective, d: &Directive) -> (r: Result<
    TlsDirective,
    AdapterError,
>)
    ensures
        error::outcome(r) == tls_option(c.deep_view(), d.deep_view()),
{
    let mut c = c;
    let name = d.name.as_str();
    if same(name, "cert") {
        c.cert = read_first(&d.args);
    } else if same(name, "key") {
        c.key = read_first(&d.args);
    } else if same(name, "acme_email") || same(name, "email") {
        c.acme_email = read_first(&d.args);
    } else if same(name, "auto") {
        c.auto = true;
    } else if same(name, "internal") {
        if d.args.len() != 0 {
            return Err(invalid("tls internal", "expected no arguments"));
        }
        c.internal = true;
    } else if same(name, "http3") {
        c.http3 = Some(
            d.args.len() == 0 || (!same(d.args[0].as_str(), "off") && !same(
                d.args[0].as_str(),
                "false",
            )),
        );
    } else {
        return Err(unknown_in("tls: ", name));
    }
    Ok(c)
}

/// `tls off`, `tls auto`, `tls internal` or `tls <cert> <key>`.
pub open spec fn tls_line(list: Seq<Seq<char>>) -> Result<TlsDirectiveV, ErrorV> {
    let none = TlsDirectiveV::unset();
    if list.len() == 1 && list[0] == "off"@ {
        Ok(TlsDirectiveV { off: true, ..none })
    } else if list.len() == 1 && list[0] == "auto"@ {
        Ok(TlsDirectiveV { auto: true, ..none })
    } else if list.len() == 1 && list[0] == "internal"@ {
        Ok(TlsDirectiveV { internal: true, ..none })
    } else if list.len() == 2 {
        Ok(TlsDirectiveV { cert: Some(list[0]), key: Some(list[1]), ..none })
    } else {
        Err(
            ErrorV::InvalidArgument(
                "tls"@,
                "expected 'off', 'auto', 'internal', '<cert> <key>', or a block"@,
            ),
        )
    }
}

fn read_tls_line(list: &Vec<String>) -> (r: Result<TlsDirective, AdapterError>)
    ensures
        error::outcome(r) == tls_line(list.deep_view()),
{
    let mut c = TlsDirective::unset();
    if list.len() == 1 && same(list[0].as_str(), "off") {
        c.off = true;
    } else if list.len() == 1 && same(list[0].as_str(), "auto") {
        c.auto = true;
    } else if list.len() == 1 && same(list[0].as_str(), "internal") {
        c.internal = true;
    } else if list.len() == 2 {
        c.cert = Some(list[0].clone());
        c.key = Some(list[1].clone());
    } else {
        return Err(
            invalid("tls", "expected 'off', 'auto', 'internal', '<cert> <key>', or a block"),
        );
    }
    Ok(c)
}

/// What a `tls` directive configures.
///
/// A certificate and its key come together, and the local authority excludes every other source.
pub open spec fn tls(d: DirectiveV) -> Result<TlsDirectiveV, ErrorV> {
    let read = match d.block {
        Some(lines) => fold::fold(
            |c: TlsDirectiveV, o: DirectiveV| tls_option(c, o),
            TlsDirectiveV::unset(),
            lines,
        ),
        None => tls_line(d.args),
    };
    match read {
        Err(e) => Err(e),
        Ok(c) => if (c.cert is Some) != (c.key is Some) {
            Err(ErrorV::InvalidArgument("tls"@, "cert and key must be specified together"@))
        } else if c.internal && (c.auto || c.cert is Some || c.acme_email is Some) {
            Err(
                ErrorV::InvalidArgument(
                    "tls"@,
                    "internal cannot be combined with auto, cert/key, or an ACME email"@,
                ),
            )
        } else {
            Ok(c)
        },
    }
}

/// Adapts a `tls` directive.
pub fn adapt_tls_directive(d: &Directive) -> (r: Result<TlsDirective, AdapterError>)
    ensures
        error::outcome(r) == tls(d.deep_view()),
{
    let c = match &d.block {
        Some(block) => fold_directives(
            read_tls_option,
            TlsDirective::unset(),
            &block.directives,
            Ghost(|c: TlsDirectiveV, o: DirectiveV| tls_option(c, o)),
        )?,
        None => read_tls_line(&d.args)?,
    };
    if c.cert.is_some() != c.key.is_some() {
        return Err(invalid("tls", "cert and key must be specified together"));
    }
    if c.internal && (c.auto || c.cert.is_some() || c.acme_email.is_some()) {
        return Err(
            invalid("tls", "internal cannot be combined with auto, cert/key, or an ACME email"),
        );
    }
    Ok(c)
}

} // verus!
