//! Arguments that many directives read in the same way.

use crate::duration;
use crate::duration::parse_duration_ms;
use crate::duplicate::Duplicate;
use crate::error;
use crate::error::{invalid, miscount, AdapterError, ErrorV};
use crate::fold;
use crate::fold::each_text;
use crate::syntax::{Directive, DirectiveV};
use crate::text;
use crate::text::{cat3, parse_u16, parse_u64, same, show, to_lower};
use vstd::prelude::*;

verus! {

/// The longest duration that is accepted where one is required: a year, in milliseconds.
pub const LONGEST_MS: u64 = 31_536_000_000;

/// A bare flag takes no arguments.
pub open spec fn bare(d: DirectiveV) -> Result<(), ErrorV> {
    if d.args.len() == 0 {
        Ok(())
    } else {
        Err(ErrorV::ArgumentCount(d.name, 0, d.args.len() as usize))
    }
}

/// Accepts a bare flag and refuses stray arguments.
pub fn expect_no_arguments(directive: &Directive) -> (r: Result<(), AdapterError>)
    ensures
        error::outcome(r) == bare(directive.deep_view()),
{
    if directive.args.len() == 0 {
        return Ok(());
    }
    Err(miscount(directive.name.as_str(), 0, directive.args.len()))
}

/// The only argument.
pub open spec fn sole(d: DirectiveV) -> Result<Seq<char>, ErrorV> {
    if d.args.len() == 1 {
        Ok(d.args[0])
    } else {
        Err(ErrorV::ArgumentCount(d.name, 1, d.args.len() as usize))
    }
}

/// Reads exactly one argument.
pub fn expect_one_argument<'a>(directive: &'a Directive) -> (r: Result<&'a str, AdapterError>)
    ensures
        error::outcome(r) == sole(directive.deep_view()),
{
    if directive.args.len() != 1 {
        return Err(miscount(directive.name.as_str(), 1, directive.args.len()));
    }
    Ok(directive.args[0].as_str())
}

/// The duration in the only argument: positive, and no longer than a year.
pub open spec fn span(d: DirectiveV) -> Result<u64, ErrorV> {
    match sole(d) {
        Err(e) => Err(e),
        Ok(value) => match duration::millis(value) {
            Some(ms) => if 0 < ms <= LONGEST_MS {
                Ok(ms)
            } else {
                Err(ErrorV::InvalidArgument(d.name, value))
            },
            None => Err(ErrorV::InvalidArgument(d.name, value)),
        },
    }
}

/// Reads one mandatory, positive duration in milliseconds.
pub fn parse_required_duration(directive: &Directive) -> (r: Result<u64, AdapterError>)
    ensures
        error::outcome(r) == span(directive.deep_view()),
{
    let value = expect_one_argument(directive)?;
    match parse_duration_ms(value) {
        Some(ms) => if ms > 0 && ms <= LONGEST_MS {
            Ok(ms)
        } else {
            Err(invalid(directive.name.as_str(), value))
        },
        None => Err(invalid(directive.name.as_str(), value)),
    }
}

/// The positive number in the only argument.
pub open spec fn positive(d: DirectiveV) -> Result<u64, ErrorV> {
    match sole(d) {
        Err(e) => Err(e),
        Ok(value) => match text::as_u64(value) {
            Some(n) => if n > 0 {
                Ok(n)
            } else {
                Err(ErrorV::InvalidArgument(d.name, value))
            },
            None => Err(ErrorV::InvalidArgument(d.name, value)),
        },
    }
}

/// Reads one mandatory positive number.
pub fn parse_positive_u64(directive: &Directive) -> (r: Result<u64, AdapterError>)
    ensures
        error::outcome(r) == positive(directive.deep_view()),
{
    let value = expect_one_argument(directive)?;
    match parse_u64(value) {
        Some(n) => if n > 0 {
            Ok(n)
        } else {
            Err(invalid(directive.name.as_str(), value))
        },
        None => Err(invalid(directive.name.as_str(), value)),
    }
}

/// The positive number in the only argument, where the machine can address so many.
pub open spec fn positive_size(d: DirectiveV) -> Result<usize, ErrorV> {
    match positive(d) {
        Err(e) => Err(e),
        Ok(n) => if n <= usize::MAX {
            Ok(n as usize)
        } else {
            Err(ErrorV::InvalidArgument(d.name, text::shown(n as nat)))
        },
    }
}

/// Reads one mandatory positive number of things in memory.
pub fn parse_positive_usize(directive: &Directive) -> (r: Result<usize, AdapterError>)
    ensures
        error::outcome(r) == positive_size(directive.deep_view()),
{
    let n: u64 = parse_positive_u64(directive)?;
    if n <= usize::MAX as u64 {
        Ok(n as usize)
    } else {
        let shown = show(n);
        Err(invalid(directive.name.as_str(), shown.as_str()))
    }
}

/// The positive number in the only argument, where thirty-two bits hold it.
pub open spec fn positive_u32(d: DirectiveV) -> Result<u32, ErrorV> {
    match positive_size(d) {
        Err(e) => Err(e),
        Ok(n) => if n <= u32::MAX {
            Ok(n as u32)
        } else {
            Err(ErrorV::InvalidArgument(d.name, "value is too large"@))
        },
    }
}

/// Reads one mandatory positive number of thirty-two bits.
pub fn parse_positive_u32(directive: &Directive) -> (r: Result<u32, AdapterError>)
    ensures
        error::outcome(r) == positive_u32(directive.deep_view()),
{
    let n: usize = parse_positive_usize(directive)?;
    if n as u64 <= u32::MAX as u64 {
        Ok(n as u32)
    } else {
        Err(invalid(directive.name.as_str(), "value is too large"))
    }
}

/// A duration of whole seconds, in seconds; `complaint` refuses any other.
pub open spec fn seconds(d: DirectiveV, complaint: Seq<char>) -> Result<u64, ErrorV> {
    match span(d) {
        Err(e) => Err(e),
        Ok(ms) => if ms < 1_000 || ms % 1_000 != 0 {
            Err(ErrorV::InvalidArgument(d.name, complaint))
        } else {
            Ok(ms / 1_000)
        },
    }
}

/// Reads a duration of whole seconds.
pub fn parse_whole_seconds(directive: &Directive, complaint: &str) -> (r: Result<
    u64,
    AdapterError,
>)
    ensures
        error::outcome(r) == seconds(directive.deep_view(), complaint@),
{
    let ms: u64 = parse_required_duration(directive)?;
    if ms < 1_000 || ms % 1_000 != 0 {
        return Err(invalid(directive.name.as_str(), complaint));
    }
    Ok(ms / 1_000)
}

/// The port in `value`; `name` is the setting it belongs to.
pub open spec fn port(name: Seq<char>, value: Seq<char>) -> Result<u16, ErrorV> {
    match text::as_u16(value) {
        Some(n) => Ok(n),
        None => Err(ErrorV::InvalidArgument(name, value)),
    }
}

/// Reads a sixteen-bit number; `name` is the setting it belongs to.
pub fn read_u16(name: &str, value: &str) -> (r: Result<u16, AdapterError>)
    ensures
        error::outcome(r) == port(name@, value@),
{
    match parse_u16(value) {
        Some(n) => Ok(n),
        None => Err(invalid(name, value)),
    }
}

/// The numbers in `list`, in order; the first that is none decides.
pub open spec fn codes(name: Seq<char>, list: Seq<Seq<char>>) -> Result<Seq<u16>, ErrorV> {
    fold::each(|value: Seq<char>| port(name, value), list)
}

/// Reads a list of sixteen-bit numbers; `name` is the setting they belong to.
pub fn parse_codes(name: &str, list: &Vec<String>) -> (r: Result<Vec<u16>, AdapterError>)
    ensures
        error::outcome(r) == codes(name@, list.deep_view()),
{
    let read = |value: &str| -> (r: Result<u16, AdapterError>)
        ensures
            error::outcome(r) == port(name@, value@),
        { read_u16(name, value) };
    each_text(read, list, Ghost(|value: Seq<char>| port(name@, value)))
}

/// The arguments from the `n`th on.
pub fn args_from(list: &Vec<String>, n: usize) -> (r: Vec<String>)
    requires
        n <= list.len(),
    ensures
        r.deep_view() == list.deep_view().skip(n as int),
{
    let mut out: Vec<String> = Vec::new();
    let mut i: usize = n;
    while i < list.len()
        invariant
            n <= i <= list.len(),
            out@.len() == i - n,
            forall|j: int| 0 <= j < i - n ==> out@[j]@ == list@[n + j]@,
        decreases list.len() - i,
    {
        out.push(list[i].clone());
        i += 1;
    }
    assert(out.deep_view() =~= list.deep_view().skip(n as int));
    out
}

/// Appends a copy of `more` to `list`.
pub fn extend(list: &mut Vec<String>, more: &Vec<String>)
    ensures
        final(list).deep_view() == old(list).deep_view() + more.deep_view(),
{
    let ghost held = list.deep_view();
    let mut copy = more.duplicate();
    let ghost added = copy.deep_view();
    list.append(&mut copy);
    assert(list.deep_view() =~= held + added);
}

/// What is wrong with an interval for re-resolving names.
pub open spec fn refresh_complaint(value: Seq<char>) -> ErrorV {
    ErrorV::InvalidArgument(
        "dns_refresh"@,
        "expected `off` or a duration of at least 1s, got `"@ + value + "`"@,
    )
}

/// The interval, in seconds, after which names are resolved anew; zero switches that off.
pub open spec fn refresh(value: Seq<char>) -> Result<u64, ErrorV> {
    let word = text::lower(value);
    if word == "off"@ || word == "none"@ {
        Ok(0)
    } else {
        match duration::millis(value) {
            None => Err(refresh_complaint(value)),
            Some(ms) => if ms < 1_000 {
                Err(refresh_complaint(value))
            } else {
                Ok(ms / 1_000)
            },
        }
    }
}

/// Reads the interval after which names are resolved anew.
///
/// An interval of less than a second is refused rather than raised, so that the mistake shows
/// when the configuration is loaded and not in the DNS traffic.
pub fn parse_dns_refresh(value: &str) -> (r: Result<u64, AdapterError>)
    ensures
        error::outcome(r) == refresh(value@),
{
    let word = to_lower(value);
    if same(word.as_str(), "off") || same(word.as_str(), "none") {
        return Ok(0);
    }
    let complaint = cat3("expected `off` or a duration of at least 1s, got `", value, "`");
    match parse_duration_ms(value) {
        None => Err(invalid("dns_refresh", complaint.as_str())),
        Some(ms) => if ms < 1_000 {
            Err(invalid("dns_refresh", complaint.as_str()))
        } else {
            Ok(ms / 1_000)
        },
    }
}

} // verus!
