//! The `limits` block of a site.

use crate::adapter::args;
use crate::adapter::args::{
    expect_one_argument, parse_positive_u64, parse_positive_usize, parse_required_duration,
    LONGEST_MS,
};
use crate::adapter::policies;
use crate::adapter::policies::expect_block;
use crate::ast::server::{LongConnectionLimits, ResourceLimitsConfig};
use crate::duration;
use crate::duration::parse_duration_ms;
use crate::error;
use crate::error::{invalid, unknown_in, AdapterError, ErrorV};
use crate::fold;
use crate::fold::fold_directives;
use crate::syntax::{Directive, DirectiveV};
use crate::text::same;
use vstd::prelude::*;

verus! {

/// A deadline that `off` or `none` removes, which is written as zero.
pub open spec fn deadline(d: DirectiveV) -> Result<u64, ErrorV> {
    match args::sole(d) {
        Err(e) => Err(e),
        Ok(value) => if value == "off"@ || value == "none"@ {
            Ok(0)
        } else {
            match duration::millis(value) {
                Some(ms) => if 0 < ms <= LONGEST_MS {
                    Ok(ms)
                } else {
                    Err(ErrorV::InvalidArgument(d.name, value))
                },
                None => Err(ErrorV::InvalidArgument(d.name, value)),
            }
        },
    }
}

/// One line of a `long_connections` block.
pub open spec fn long_option(c: LongConnectionLimits, d: DirectiveV) -> Result<
    LongConnectionLimits,
    ErrorV,
> {
    match deadline(d) {
        Err(e) => Err(e),
        Ok(ms) => if d.name == "idle_timeout"@ {
            Ok(LongConnectionLimits { idle_timeout_ms: Some(ms), ..c })
        } else if d.name == "request_timeout"@ {
            Ok(LongConnectionLimits { request_timeout_ms: Some(ms), ..c })
        } else {
            Err(ErrorV::UnknownDirective("long_connections: "@ + d.name))
        },
    }
}

/// What a `long_connections` block configures.
pub open spec fn long_connections(d: DirectiveV) -> Result<LongConnectionLimits, ErrorV> {
    match policies::required_block("long_connections"@, d) {
        Err(e) => Err(e),
        Ok(list) => fold::fold(
            |c: LongConnectionLimits, o: DirectiveV| long_option(c, o),
            LongConnectionLimits::none(),
            list,
        ),
    }
}

/// One line of a `limits` block.
pub open spec fn limit_option(c: ResourceLimitsConfig, d: DirectiveV) -> Result<
    ResourceLimitsConfig,
    ErrorV,
> {
    if d.name == "header_timeout"@ {
        error::with(args::span(d), |n: u64| ResourceLimitsConfig { header_timeout_ms: Some(n), ..c })
    } else if d.name == "body_timeout"@ {
        error::with(args::span(d), |n: u64| ResourceLimitsConfig { body_timeout_ms: Some(n), ..c })
    } else if d.name == "idle_timeout"@ {
        error::with(args::span(d), |n: u64| ResourceLimitsConfig { idle_timeout_ms: Some(n), ..c })
    } else if d.name == "request_timeout"@ {
        error::with(
            args::span(d),
            |n: u64| ResourceLimitsConfig { request_timeout_ms: Some(n), ..c },
        )
    } else if d.name == "max_headers"@ {
        error::with(
            args::positive_size(d),
            |n: usize| ResourceLimitsConfig { max_header_count: Some(n), ..c },
        )
    } else if d.name == "max_header_bytes"@ {
        error::with(
            args::positive_size(d),
            |n: usize| ResourceLimitsConfig { max_header_bytes: Some(n), ..c },
        )
    } else if d.name == "max_connections"@ {
        error::with(
            args::positive_size(d),
            |n: usize| ResourceLimitsConfig { max_connections: Some(n), ..c },
        )
    } else if d.name == "upload_bytes_per_sec"@ {
        error::with(
            args::positive(d),
            |n: u64| ResourceLimitsConfig { upload_bytes_per_sec: Some(n), ..c },
        )
    } else if d.name == "download_bytes_per_sec"@ {
        error::with(
            args::positive(d),
            |n: u64| ResourceLimitsConfig { download_bytes_per_sec: Some(n), ..c },
        )
    } else if d.name == "long_connections"@ {
        error::with(
            long_connections(d),
            |l: LongConnectionLimits| ResourceLimitsConfig { long_connections: l, ..c },
        )
    } else {
        Err(ErrorV::UnknownDirective("limits: "@ + d.name))
    }
}

/// What a `limits` block configures.
pub open spec fn limits(d: DirectiveV) -> Result<ResourceLimitsConfig, ErrorV> {
    match policies::required_block("limits"@, d) {
        Err(e) => Err(e),
        Ok(list) => fold::fold(
            |c: ResourceLimitsConfig, o: DirectiveV| limit_option(c, o),
            ResourceLimitsConfig::none(),
            list,
        ),
    }
}

fn read_deadline(d: &Directive) -> (r: Result<u64, AdapterError>)
    ensures
        error::outcome(r) == deadline(d.deep_view()),
{
    let value = expect_one_argument(d)?;
    if same(value, "off") || same(value, "none") {
        return Ok(0);
    }
    match parse_duration_ms(value) {
        Some(ms) => if ms > 0 && ms <= LONGEST_MS {
            Ok(ms)
        } else {
            Err(invalid(d.name.as_str(), value))
        },
        None => Err(invalid(d.name.as_str(), value)),
    }
}

fn read_long_option(c: LongConnectionLimits, d: &Directive) -> (r: Result<
    LongConnectionLimits,
    AdapterError,
>)
    ensures
        error::outcome(r) == long_option(c, d.deep_view()),
{
    let mut c = c;
    let ms: u64 = read_deadline(d)?;
    let name = d.name.as_str();
    if same(name, "idle_timeout") {
        c.idle_timeout_ms = Some(ms);
    } else if same(name, "request_timeout") {
        c.request_timeout_ms = Some(ms);
    } else {
        return Err(unknown_in("long_connections: ", name));
    }
    Ok(c)
}

/// Adapts the overrides for long connections, where `off` removes a deadline.
pub fn adapt_long_connection_limits(directive: &Directive) -> (r: Result<
    LongConnectionLimits,
    AdapterError,
>)
    ensures
        error::outcome(r) == long_connections(directive.deep_view()),
{
    let block = expect_block("long_connections", directive)?;
    fold_directives(
        read_long_option,
        LongConnectionLimits::unset(),
        &block.directives,
        Ghost(|c: LongConnectionLimits, o: DirectiveV| long_option(c, o)),
    )
}

fn read_limit_option(c: ResourceLimitsConfig, d: &Directive) -> (r: Result<
    ResourceLimitsConfig,
    AdapterError,
>)
    ensures
        error::outcome(r) == limit_option(c, d.deep_view()),
{
    let mut c = c;
    let name = d.name.as_str();
    if same(name, "header_timeout") {
        c.header_timeout_ms = Some(parse_required_duration(d)?);
    } else if same(name, "body_timeout") {
        c.body_timeout_ms = Some(parse_required_duration(d)?);
    } else if same(name, "idle_timeout") {
        c.idle_timeout_ms = Some(parse_required_duration(d)?);
    } else if same(name, "request_timeout") {
        c.request_timeout_ms = Some(parse_required_duration(d)?);
    } else if same(name, "max_headers") {
        c.max_header_count = Some(parse_positive_usize(d)?);
    } else if same(name, "max_header_bytes") {
        c.max_header_bytes = Some(parse_positive_usize(d)?);
    } else if same(name, "max_connections") {
        c.max_connections = Some(parse_positive_usize(d)?);
    } else if same(name, "upload_bytes_per_sec") {
        c.upload_bytes_per_sec = Some(parse_positive_u64(d)?);
    } else if same(name, "download_bytes_per_sec") {
        c.download_bytes_per_sec = Some(parse_positive_u64(d)?);
    } else if same(name, "long_connections") {
        c.long_connections = adapt_long_connection_limits(d)?;
    } else {
        return Err(unknown_in("limits: ", name));
    }
    Ok(c)
}

/// Adapts a `limits` block.
pub fn adapt_resource_limits(directive: &Directive) -> (r: Result<
    ResourceLimitsConfig,
    AdapterError,
>)
    ensures
        error::outcome(r) == limits(directive.deep_view()),
{
    let block = expect_block("limits", directive)?;
    fold_directives(
        read_limit_option,
        ResourceLimitsConfig::unset(),
        &block.directives,
        Ghost(|c: ResourceLimitsConfig, o: DirectiveV| limit_option(c, o)),
    )
}

} // verus!
