//! The `log` directive.

use crate::adapter::args;
use crate::adapter::args::{extend, parse_positive_usize, parse_required_duration};
use crate::adapter::profile::Profile;
use crate::ast::log::{
    LogBlock, LogBlockV, LogFilter, LogFilterV, LogFormat, LogFormatType, LogFormatV, LogLevel,
    LogOutput, LogOutputV, LogRotationBlock, LogRotationBlockV, LogSampling,
};
use crate::error;
use crate::error::{invalid, miscount, unknown_in, AdapterError, ErrorV};
use crate::fold;
use crate::fold::fold_directives;
use crate::syntax::{Directive, DirectiveV};
use crate::text;
use crate::text::{after, cat, cat3, join, lower_each, parse_u64, quote, same, to_lower, trim_right_by};
use vstd::prelude::*;

verus! {

// ---------------------------------------------------------------------------
// Sizes
// ---------------------------------------------------------------------------
/// An ASCII letter.
pub open spec fn letter(c: char) -> bool {
    ('a' <= c && c <= 'z') || ('A' <= c && c <= 'Z')
}

fn is_letter(c: char) -> (r: bool)
    ensures
        r == letter(c),
{
    ('a' <= c && c <= 'z') || ('A' <= c && c <= 'Z')
}

/// How many bytes one of `unit` stands for.
pub open spec fn size_unit(unit: Seq<char>) -> Option<u64> {
    if unit == ""@ || unit == "b"@ {
        Some(1)
    } else if unit == "k"@ || unit == "kb"@ || unit == "kib"@ {
        Some(1_024)
    } else if unit == "m"@ || unit == "mb"@ || unit == "mib"@ {
        Some(1_048_576)
    } else if unit == "g"@ || unit == "gb"@ || unit == "gib"@ {
        Some(1_073_741_824)
    } else {
        None
    }
}

/// A number of bytes, with an optional unit; a bare number means bytes.
pub open spec fn byte_size(d: DirectiveV) -> Result<u64, ErrorV> {
    match args::sole(d) {
        Err(e) => Err(e),
        Ok(raw) => {
            let lower = text::lower(raw);
            let count = text::trim_right(lower, |c: char| letter(c));
            let unit = lower.skip(count.len() as int);
            match text::as_u64(count) {
                None => Err(ErrorV::InvalidArgument(d.name, "`"@ + raw + "` is not a size"@)),
                Some(n) => match size_unit(unit) {
                    None => Err(
                        ErrorV::InvalidArgument(
                            d.name,
                            "unknown size unit `"@ + unit + "` (expected b, kb, mb or gb)"@,
                        ),
                    ),
                    Some(each) => if n * each <= u64::MAX {
                        Ok((n * each) as u64)
                    } else {
                        Err(ErrorV::InvalidArgument(d.name, "`"@ + raw + "` overflows"@))
                    },
                },
            }
        },
    }
}

/// Reads a byte size with an optional unit (`100mb`, `4KiB`, `512`).
///
/// An unknown unit is refused: `100mbb` must not pass for 100.
pub fn parse_byte_size(directive: &Directive) -> (r: Result<u64, AdapterError>)
    ensures
        error::outcome(r) == byte_size(directive.deep_view()),
{
    let name = directive.name.as_str();
    let raw = args::expect_one_argument(directive)?;
    let lower = to_lower(raw);
    let digits = trim_right_by(lower.as_str(), is_letter, Ghost(|c: char| letter(c)));
    proof {
        text::lemma_trim_right(lower@, |c: char| letter(c));
    }
    let n: usize = digits.unicode_len();
    let unit = after(lower.as_str(), n);
    let value: u64 = match parse_u64(digits) {
        Some(value) => value,
        None => {
            let reason = cat3("`", raw, "` is not a size");
            return Err(invalid(name, reason.as_str()));
        },
    };
    let each: u64 = if same(unit, "") || same(unit, "b") {
        1
    } else if same(unit, "k") || same(unit, "kb") || same(unit, "kib") {
        1_024
    } else if same(unit, "m") || same(unit, "mb") || same(unit, "mib") {
        1_048_576
    } else if same(unit, "g") || same(unit, "gb") || same(unit, "gib") {
        1_073_741_824
    } else {
        let reason = cat3("unknown size unit `", unit, "` (expected b, kb, mb or gb)");
        return Err(invalid(name, reason.as_str()));
    };
    match value.checked_mul(each) {
        Some(size) => Ok(size),
        None => {
            let reason = cat3("`", raw, "` overflows");
            Err(invalid(name, reason.as_str()))
        },
    }
}

// ---------------------------------------------------------------------------
// Rotation
// ---------------------------------------------------------------------------
/// Whether anything makes a file roll.
pub open spec fn rolls(c: LogRotationBlockV) -> bool {
    c.max_size_bytes is Some || c.max_age_secs is Some
}

impl LogRotationBlock {
    /// Whether anything makes the file roll.
    pub fn is_enabled_block(&self) -> (r: bool)
        ensures
            r == rolls(self.deep_view()),
    {
        self.max_size_bytes.is_some() || self.max_age_secs.is_some()
    }
}

/// The first argument, or nothing.
pub open spec fn first_or_empty(list: Seq<Seq<char>>) -> Seq<char> {
    if list.len() > 0 {
        list[0]
    } else {
        Seq::empty()
    }
}

fn first_argument(list: &Vec<String>) -> (r: String)
    ensures
        r@ == first_or_empty(list.deep_view()),
{
    if list.len() > 0 {
        list[0].clone()
    } else {
        let none = String::new();
        assert(none@ =~= Seq::<char>::empty());
        none
    }
}

/// The lines on a file destination read so far.
pub struct RollDraft {
    pub rotation: LogRotationBlock,
    pub uncompressed: bool,
}

/// The mathematical value of a [`RollDraft`].
#[verifier::ext_equal]
pub struct RollDraftV {
    pub rotation: LogRotationBlockV,
    pub uncompressed: bool,
}

impl DeepView for RollDraft {
    type V = RollDraftV;

    open spec fn deep_view(&self) -> RollDraftV {
        RollDraftV { rotation: self.rotation.deep_view(), uncompressed: self.uncompressed }
    }
}

/// One line on a file destination.
pub open spec fn roll_option(c: RollDraftV, d: DirectiveV) -> Result<
    RollDraftV,
    ErrorV,
> {
    if d.name == "roll_size"@ {
        error::with(byte_size(d), |v: u64| RollDraftV { rotation: LogRotationBlockV { max_size_bytes: Some(v), ..c.rotation }, ..c })
    } else if d.name == "roll_keep"@ {
        error::with(args::positive_size(d), |n: usize| RollDraftV { rotation: LogRotationBlockV { keep: Some(n), ..c.rotation }, ..c })
    } else if d.name == "roll_keep_for"@ {
        error::with(args::span(d), |ms: u64| RollDraftV { rotation: LogRotationBlockV { max_age_secs: Some((ms / 1000) as u64), ..c.rotation }, ..c })
    } else if d.name == "roll_uncompressed"@ {
        Ok(RollDraftV { uncompressed: true, ..c })
    } else if d.name == "mode"@ {
        Ok(RollDraftV { rotation: LogRotationBlockV { mode: Some(first_or_empty(d.args)), ..c.rotation }, ..c })
    } else if d.name == "dir_mode"@ {
        Ok(RollDraftV { rotation: LogRotationBlockV { dir_mode: Some(first_or_empty(d.args)), ..c.rotation }, ..c })
    } else if d.name == "roll_compression"@ {
        Ok(
            RollDraftV {
                rotation: LogRotationBlockV {
                    roll_compression: if d.args.len() > 0 {
                        Some(d.args[0])
                    } else {
                        None
                    },
                    ..c.rotation
                },
                ..c
            },
        )
    } else if d.name == "roll_local_time"@ {
        Ok(RollDraftV { rotation: LogRotationBlockV { roll_local_time: true, ..c.rotation }, ..c })
    } else if d.name == "roll_interval"@ {
        error::with(args::span(d), |ms: u64| RollDraftV { rotation: LogRotationBlockV { roll_interval_secs: Some((ms / 1000) as u64), ..c.rotation }, ..c })
    } else if d.name == "roll_at"@ {
        Ok(RollDraftV { rotation: LogRotationBlockV { roll_at: Some(text::joined(d.args, " "@)), ..c.rotation }, ..c })
    } else if d.name == "roll_minutes"@ {
        Ok(RollDraftV { rotation: LogRotationBlockV { roll_minutes: Some(text::joined(d.args, " "@)), ..c.rotation }, ..c })
    } else {
        Err(ErrorV::UnknownDirective("log output file: "@ + d.name))
    }
}

fn read_roll_option(c: RollDraft, d: &Directive) -> (r: Result<
    RollDraft,
    AdapterError,
>)
    ensures
        error::outcome(r) == roll_option(c.deep_view(), d.deep_view()),
{
    let mut c = c;
    let name = d.name.as_str();
    if same(name, "roll_size") {
        c.rotation.max_size_bytes = Some(parse_byte_size(d)?);
    } else if same(name, "roll_keep") {
        c.rotation.keep = Some(parse_positive_usize(d)?);
    } else if same(name, "roll_keep_for") {
        let ms: u64 = parse_required_duration(d)?;
        c.rotation.max_age_secs = Some(ms / 1000);
    } else if same(name, "roll_uncompressed") {
        c.uncompressed = true;
    } else if same(name, "mode") {
        c.rotation.mode = Some(first_argument(&d.args));
    } else if same(name, "dir_mode") {
        c.rotation.dir_mode = Some(first_argument(&d.args));
    } else if same(name, "roll_compression") {
        c.rotation.roll_compression = if d.args.len() > 0 {
            Some(d.args[0].clone())
        } else {
            None
        };
    } else if same(name, "roll_local_time") {
        c.rotation.roll_local_time = true;
    } else if same(name, "roll_interval") {
        let ms: u64 = parse_required_duration(d)?;
        c.rotation.roll_interval_secs = Some(ms / 1000);
    } else if same(name, "roll_at") {
        c.rotation.roll_at = Some(join(&d.args, " "));
    } else if same(name, "roll_minutes") {
        c.rotation.roll_minutes = Some(join(&d.args, " "));
    } else {
        return Err(unknown_in("log output file: ", name));
    }
    Ok(c)
}

/// The rotation that the lines on a file destination configure.
///
/// Any line turns compression on unless `roll_uncompressed` is among them.
pub open spec fn rolled(c: LogRotationBlockV, lines: Seq<DirectiveV>) -> Result<
    LogRotationBlockV,
    ErrorV,
> {
    match fold::fold(
        |c: RollDraftV, o: DirectiveV| roll_option(c, o),
        RollDraftV { rotation: c, uncompressed: false },
        lines,
    ) {
        Err(e) => Err(e),
        Ok(draft) => {
            let rotation = if lines.len() > 0 {
                LogRotationBlockV { compress: !draft.uncompressed, ..draft.rotation }
            } else {
                draft.rotation
            };
            if rotation.keep is Some && !rolls(rotation) {
                Err(
                    ErrorV::InvalidArgument(
                        "log output file"@,
                        "`roll_keep` needs a rotation trigger — add `roll_size` or `roll_keep_for`, or nothing will ever be rotated to keep"@,
                    ),
                )
            } else {
                Ok(rotation)
            }
        },
    }
}

/// Reads the rotation settings on a file destination.
pub fn parse_caddy_roll_block(rotation: LogRotationBlock, lines: &Vec<Directive>) -> (r: Result<
    LogRotationBlock,
    AdapterError,
>)
    ensures
        error::outcome(r) == rolled(
            rotation.deep_view(),
            crate::syntax::directives_view(lines@),
        ),
{
    let draft = fold_directives(
        read_roll_option,
        RollDraft { rotation, uncompressed: false },
        lines,
        Ghost(|c: RollDraftV, o: DirectiveV| roll_option(c, o)),
    )?;
    let mut rotation = draft.rotation;
    if lines.len() > 0 {
        rotation.compress = !draft.uncompressed;
    }
    if rotation.keep.is_some() && !rotation.is_enabled_block() {
        return Err(
            invalid(
                "log output file",
                "`roll_keep` needs a rotation trigger — add `roll_size` or `roll_keep_for`, or nothing will ever be rotated to keep",
            ),
        );
    }
    Ok(rotation)
}

/// One line of a `roll` block.
pub open spec fn rotation_option(c: LogRotationBlockV, d: DirectiveV) -> Result<
    LogRotationBlockV,
    ErrorV,
> {
    if d.name == "size"@ {
        error::with(byte_size(d), |v: u64| LogRotationBlockV { max_size_bytes: Some(v), ..c })
    } else if d.name == "age"@ {
        error::with(args::span(d), |ms: u64| LogRotationBlockV { max_age_secs: Some((ms / 1000) as u64), ..c })
    } else if d.name == "keep"@ {
        error::with(args::positive_size(d), |n: usize| LogRotationBlockV { keep: Some(n), ..c })
    } else if d.name == "compress"@ {
        Ok(LogRotationBlockV { compress: true, ..c })
    } else {
        Err(ErrorV::UnknownDirective("roll: "@ + d.name))
    }
}

fn read_rotation_option(c: LogRotationBlock, d: &Directive) -> (r: Result<
    LogRotationBlock,
    AdapterError,
>)
    ensures
        error::outcome(r) == rotation_option(c.deep_view(), d.deep_view()),
{
    let mut c = c;
    let name = d.name.as_str();
    if same(name, "size") {
        c.max_size_bytes = Some(parse_byte_size(d)?);
    } else if same(name, "age") {
        let ms: u64 = parse_required_duration(d)?;
        c.max_age_secs = Some(ms / 1000);
    } else if same(name, "keep") {
        c.keep = Some(parse_positive_usize(d)?);
    } else if same(name, "compress") {
        c.compress = true;
    } else {
        return Err(unknown_in("roll: ", name));
    }
    Ok(c)
}

/// The rotation that a `roll` block configures; keeping files without a reason to roll is refused.
pub open spec fn rotated(c: LogRotationBlockV, d: DirectiveV) -> Result<LogRotationBlockV, ErrorV> {
    match d.block {
        None => Err(
            ErrorV::InvalidArgument(
                "log roll"@,
                "block required, e.g. `roll { size 100mb }`"@,
            ),
        ),
        Some(lines) => match fold::fold(
            |c: LogRotationBlockV, o: DirectiveV| rotation_option(c, o),
            c,
            lines,
        ) {
            Err(e) => Err(e),
            Ok(rotation) => if !rotation.compress && rotation.keep is Some && !rolls(rotation) {
                Err(
                    ErrorV::InvalidArgument(
                        "log roll"@,
                        "`keep` needs a rotation trigger — add `size` or `age`, or nothing will ever be rotated to keep"@,
                    ),
                )
            } else {
                Ok(rotation)
            },
        },
    }
}

fn read_rotation(c: LogRotationBlock, d: &Directive) -> (r: Result<LogRotationBlock, AdapterError>)
    ensures
        error::outcome(r) == rotated(c.deep_view(), d.deep_view()),
{
    match &d.block {
        None => Err(invalid("log roll", "block required, e.g. `roll { size 100mb }`")),
        Some(block) => {
            let rotation = fold_directives(
                read_rotation_option,
                c,
                &block.directives,
                Ghost(|c: LogRotationBlockV, o: DirectiveV| rotation_option(c, o)),
            )?;
            if !rotation.compress && rotation.keep.is_some() && !rotation.is_enabled_block() {
                return Err(
                    invalid(
                        "log roll",
                        "`keep` needs a rotation trigger — add `size` or `age`, or nothing will ever be rotated to keep",
                    ),
                );
            }
            Ok(rotation)
        },
    }
}

// ---------------------------------------------------------------------------
// Destinations
// ---------------------------------------------------------------------------
/// `output file <path>`, `output stdout` or `output stderr`; only a file has anything to roll.
pub open spec fn directed(profile: Profile, c: LogBlockV, d: DirectiveV) -> Result<
    LogBlockV,
    ErrorV,
> {
    if d.args.len() == 0 {
        Err(ErrorV::ArgumentCount("log output"@, 1, 0))
    } else {
        let kind = d.args[0];
        if kind == "file"@ {
            if d.args.len() < 2 {
                Err(ErrorV::ArgumentCount("log output file"@, 2, 1))
            } else {
                let output = LogOutputV::File(d.args[1]);
                match d.block {
                    Some(lines) => if profile == Profile::Extended {
                        error::with(
                            rolled(c.rotation, lines),
                            |rotation: LogRotationBlockV| LogBlockV { output, rotation, ..c },
                        )
                    } else {
                        Ok(LogBlockV { output, ..c })
                    },
                    None => Ok(LogBlockV { output, ..c }),
                }
            }
        } else if kind == "stdout"@ || kind == "stderr"@ {
            if profile == Profile::Extended && d.block is Some {
                Err(
                    ErrorV::InvalidArgument(
                        "log output"@,
                        "`"@ + kind + "` takes no block; rotation applies to `output file`"@,
                    ),
                )
            } else if kind == "stdout"@ {
                Ok(LogBlockV { output: LogOutputV::Stdout, ..c })
            } else {
                Ok(LogBlockV { output: LogOutputV::Stderr, ..c })
            }
        } else {
            Err(
                ErrorV::InvalidArgument(
                    "log output"@,
                    "unknown output `"@ + kind + "` (expected file, stdout or stderr)"@,
                ),
            )
        }
    }
}

fn read_output(profile: Profile, c: LogBlock, d: &Directive) -> (r: Result<LogBlock, AdapterError>)
    ensures
        error::outcome(r) == directed(profile, c.deep_view(), d.deep_view()),
{
    let mut c = c;
    if d.args.len() == 0 {
        return Err(miscount("log output", 1, 0));
    }
    let kind = d.args[0].as_str();
    if same(kind, "file") {
        if d.args.len() < 2 {
            return Err(miscount("log output file", 2, 1));
        }
        c.output = LogOutput::File(d.args[1].clone());
        if profile == Profile::Extended {
            if let Some(block) = &d.block {
                c.rotation = parse_caddy_roll_block(c.rotation, &block.directives)?;
            }
        }
        return Ok(c);
    }
    if same(kind, "stdout") || same(kind, "stderr") {
        if profile == Profile::Extended && d.block.is_some() {
            let reason = cat3("`", kind, "` takes no block; rotation applies to `output file`");
            return Err(invalid("log output", reason.as_str()));
        }
        c.output = if same(kind, "stdout") {
            LogOutput::Stdout
        } else {
            LogOutput::Stderr
        };
        return Ok(c);
    }
    let reason = cat3("unknown output `", kind, "` (expected file, stdout or stderr)");
    Err(invalid("log output", reason.as_str()))
}

// ---------------------------------------------------------------------------
// Formats
// ---------------------------------------------------------------------------
/// Whether the first argument is `delete`.
pub open spec fn deletes(d: DirectiveV) -> bool {
    d.args.len() > 0 && d.args[0] == "delete"@
}

/// The fields among `lines` that are deleted.
pub open spec fn deleted(lines: Seq<DirectiveV>) -> Seq<Seq<char>>
    decreases lines.len(),
{
    if lines.len() == 0 {
        Seq::empty()
    } else if deletes(lines.last()) {
        deleted(lines.drop_last()).push(lines.last().name)
    } else {
        deleted(lines.drop_last())
    }
}

fn is_deleted(d: &Directive) -> (r: bool)
    ensures
        r == deletes(d.deep_view()),
{
    d.args.len() > 0 && same(d.args[0].as_str(), "delete")
}

fn collect_deleted(lines: &Vec<Directive>) -> (r: Vec<String>)
    ensures
        r.deep_view() == deleted(crate::syntax::directives_view(lines@)),
{
    let ghost all = crate::syntax::directives_view(lines@);
    let mut out: Vec<String> = Vec::new();
    let mut i: usize = 0;
    assert(out.deep_view() =~= deleted(all.take(0)));
    while i < lines.len()
        invariant
            i <= lines.len(),
            all == crate::syntax::directives_view(lines@),
            out.deep_view() == deleted(all.take(i as int)),
        decreases lines.len() - i,
    {
        assert(all.take(i + 1).drop_last() =~= all.take(i as int));
        assert(all.take(i + 1).last() == lines@[i as int].deep_view());
        if is_deleted(&lines[i]) {
            let ghost held = out.deep_view();
            let field = lines[i].name.clone();
            out.push(field);
            assert(out.deep_view() =~= held.push(field@));
        }
        i += 1;
    }
    assert(all.take(i as int) =~= all);
    out
}

/// What was written where an encoder is expected.
pub open spec fn encoder_complaint(list: Seq<Seq<char>>) -> ErrorV {
    ErrorV::InvalidArgument(
        "log format filter wrap"@,
        "expected json, text or console, got "@ + (if list.len() > 0 {
            "Some("@ + text::quoted(list[0]) + ")"@
        } else {
            "None"@
        }),
    )
}

fn complain_of_encoder(list: &Vec<String>) -> (r: AdapterError)
    ensures
        r.deep_view() == encoder_complaint(list.deep_view()),
{
    let found = if list.len() > 0 {
        let shown = quote(list[0].as_str());
        cat3("Some(", shown.as_str(), ")")
    } else {
        "None".to_owned()
    };
    let reason = cat("expected json, text or console, got ", found.as_str());
    invalid("log format filter wrap", reason.as_str())
}

/// The lines of a `format filter` block read so far.
pub struct FilterDraft {
    pub format_type: LogFormatType,
    pub filter: LogFilter,
}

/// The mathematical value of a [`FilterDraft`].
#[verifier::ext_equal]
pub struct FilterDraftV {
    pub format_type: LogFormatType,
    pub filter: LogFilterV,
}

impl DeepView for FilterDraft {
    type V = FilterDraftV;

    open spec fn deep_view(&self) -> FilterDraftV {
        FilterDraftV { format_type: self.format_type, filter: self.filter.deep_view() }
    }
}

/// One line of a `format filter` block.
pub open spec fn filter_option(profile: Profile, c: FilterDraftV, d: DirectiveV) -> Result<
    FilterDraftV,
    ErrorV,
> {
    if d.name == "wrap"@ {
        if d.args.len() > 0 && d.args[0] == "json"@ {
            Ok(FilterDraftV { format_type: LogFormatType::Json, ..c })
        } else if d.args.len() > 0 && (d.args[0] == "text"@ || d.args[0] == "console"@) {
            Ok(FilterDraftV { format_type: LogFormatType::Text, ..c })
        } else {
            Err(encoder_complaint(d.args))
        }
    } else if d.name == "fields"@ && d.block is Some {
        Ok(
            FilterDraftV {
                filter: LogFilterV { exclude: c.filter.exclude + deleted(d.block->0) },
                ..c
            },
        )
    } else if profile == Profile::Core {
        Err(ErrorV::UnknownDirective("log format filter: "@ + d.name))
    } else if deletes(d) {
        Ok(FilterDraftV { filter: LogFilterV { exclude: c.filter.exclude.push(d.name) }, ..c })
    } else {
        Ok(c)
    }
}

fn read_filter_option(profile: Profile, c: FilterDraft, d: &Directive) -> (r: Result<
    FilterDraft,
    AdapterError,
>)
    ensures
        error::outcome(r) == filter_option(profile, c.deep_view(), d.deep_view()),
{
    let mut c = c;
    let name = d.name.as_str();
    if same(name, "wrap") {
        if d.args.len() > 0 && same(d.args[0].as_str(), "json") {
            c.format_type = LogFormatType::Json;
        } else if d.args.len() > 0 && (same(d.args[0].as_str(), "text") || same(
            d.args[0].as_str(),
            "console",
        )) {
            c.format_type = LogFormatType::Text;
        } else {
            return Err(complain_of_encoder(&d.args));
        }
        return Ok(c);
    }
    if same(name, "fields") {
        if let Some(block) = &d.block {
            let more = collect_deleted(&block.directives);
            extend(&mut c.filter.exclude, &more);
            return Ok(c);
        }
    }
    if profile == Profile::Core {
        return Err(unknown_in("log format filter: ", name));
    }
    if is_deleted(d) {
        let ghost held = c.filter.exclude.deep_view();
        let field = d.name.clone();
        c.filter.exclude.push(field);
        assert(c.filter.exclude.deep_view() =~= held.push(field@));
    }
    Ok(c)
}

/// `format json`, `format text` or `format filter { ... }`.
pub open spec fn formatted(profile: Profile, c: LogFormatV, d: DirectiveV) -> Result<
    LogFormatV,
    ErrorV,
> {
    if d.args.len() == 0 {
        Err(ErrorV::ArgumentCount("log format"@, 1, 0))
    } else {
        let kind = d.args[0];
        if kind == "json"@ {
            Ok(LogFormatV { format_type: Some(LogFormatType::Json), ..c })
        } else if kind == "text"@ || (profile == Profile::Extended && kind == "console"@) {
            Ok(LogFormatV { format_type: Some(LogFormatType::Text), ..c })
        } else if kind == "filter"@ {
            match d.block {
                None => Ok(LogFormatV { format_type: Some(LogFormatType::Json), ..c }),
                Some(lines) => error::with(
                    fold::fold(
                        |f: FilterDraftV, o: DirectiveV| filter_option(profile, f, o),
                        FilterDraftV {
                            format_type: LogFormatType::Json,
                            filter: LogFilterV::unset(),
                        },
                        lines,
                    ),
                    |f: FilterDraftV|
                        LogFormatV { format_type: Some(f.format_type), filter: Some(f.filter) },
                ),
            }
        } else {
            Err(
                ErrorV::InvalidArgument(
                    "log format"@,
                    "unknown format `"@ + kind + "` (expected json, text or filter)"@,
                ),
            )
        }
    }
}

fn read_format(profile: Profile, c: LogFormat, d: &Directive) -> (r: Result<
    LogFormat,
    AdapterError,
>)
    ensures
        error::outcome(r) == formatted(profile, c.deep_view(), d.deep_view()),
{
    let mut c = c;
    if d.args.len() == 0 {
        return Err(miscount("log format", 1, 0));
    }
    let kind = d.args[0].as_str();
    if same(kind, "json") {
        c.format_type = Some(LogFormatType::Json);
    } else if same(kind, "text") || (profile == Profile::Extended && same(kind, "console")) {
        c.format_type = Some(LogFormatType::Text);
    } else if same(kind, "filter") {
        c.format_type = Some(LogFormatType::Json);
        if let Some(block) = &d.block {
            let read = |f: FilterDraft, d: &Directive| -> (r: Result<FilterDraft, AdapterError>)
                ensures
                    error::outcome(r) == filter_option(profile, f.deep_view(), d.deep_view()),
                { read_filter_option(profile, f, d) };
            let f = fold_directives(
                read,
                FilterDraft { format_type: LogFormatType::Json, filter: LogFilter::unset() },
                &block.directives,
                Ghost(|f: FilterDraftV, o: DirectiveV| filter_option(profile, f, o)),
            )?;
            c.format_type = Some(f.format_type);
            c.filter = Some(f.filter);
        }
    } else {
        let reason = cat3("unknown format `", kind, "` (expected json, text or filter)");
        return Err(invalid("log format", reason.as_str()));
    }
    Ok(c)
}

// ---------------------------------------------------------------------------
// Levels
// ---------------------------------------------------------------------------
/// The level that `word` names, in lower case.
pub open spec fn named_level(word: Seq<char>) -> Option<LogLevel> {
    if word == "trace"@ {
        Some(LogLevel::Trace)
    } else if word == "debug"@ {
        Some(LogLevel::Debug)
    } else if word == "info"@ {
        Some(LogLevel::Info)
    } else if word == "warn"@ || word == "warning"@ {
        Some(LogLevel::Warn)
    } else if word == "error"@ {
        Some(LogLevel::Error)
    } else {
        None
    }
}

/// `level <name>`.
pub open spec fn level(d: DirectiveV) -> Result<LogLevel, ErrorV> {
    if d.args.len() != 1 {
        Err(ErrorV::ArgumentCount("log level"@, 1, d.args.len() as usize))
    } else {
        let word = text::lower(d.args[0]);
        match named_level(word) {
            Some(found) => Ok(found),
            None => Err(
                ErrorV::InvalidArgument("log level"@, "unknown level `"@ + word + "`"@),
            ),
        }
    }
}

fn read_level(d: &Directive) -> (r: Result<LogLevel, AdapterError>)
    ensures
        error::outcome(r) == level(d.deep_view()),
{
    if d.args.len() != 1 {
        return Err(miscount("log level", 1, d.args.len()));
    }
    let lower = to_lower(d.args[0].as_str());
    let word = lower.as_str();
    if same(word, "trace") {
        Ok(LogLevel::Trace)
    } else if same(word, "debug") {
        Ok(LogLevel::Debug)
    } else if same(word, "info") {
        Ok(LogLevel::Info)
    } else if same(word, "warn") || same(word, "warning") {
        Ok(LogLevel::Warn)
    } else if same(word, "error") {
        Ok(LogLevel::Error)
    } else {
        let reason = cat3("unknown level `", word, "`");
        Err(invalid("log level", reason.as_str()))
    }
}

// ---------------------------------------------------------------------------
// Headers and sampling
// ---------------------------------------------------------------------------
/// One line of a `headers` block; names are written in lower case.
pub open spec fn recorded(c: LogBlockV, d: DirectiveV) -> Result<
    LogBlockV,
    ErrorV,
> {
    if d.name == "request"@ {
        Ok(LogBlockV { request_headers: c.request_headers + text::lowered(d.args), ..c })
    } else if d.name == "response"@ {
        Ok(LogBlockV { response_headers: c.response_headers + text::lowered(d.args), ..c })
    } else if d.name == "tls"@ {
        Ok(LogBlockV { include_tls: true, ..c })
    } else {
        Err(ErrorV::UnknownDirective("headers: "@ + d.name))
    }
}

fn read_recorded(c: LogBlock, d: &Directive) -> (r: Result<
    LogBlock,
    AdapterError,
>)
    ensures
        error::outcome(r) == recorded(c.deep_view(), d.deep_view()),
{
    let mut c = c;
    let name = d.name.as_str();
    if same(name, "request") {
        let more = lower_each(&d.args);
        extend(&mut c.request_headers, &more);
    } else if same(name, "response") {
        let more = lower_each(&d.args);
        extend(&mut c.response_headers, &more);
    } else if same(name, "tls") {
        c.include_tls = true;
    } else {
        return Err(unknown_in("headers: ", name));
    }
    Ok(c)
}

/// One line of a `sampling` block.
pub open spec fn sampling_option(c: LogSampling, d: DirectiveV) -> Result<
    LogSampling,
    ErrorV,
> {
    if d.name == "interval"@ {
        error::with(
            args::span(d),
            |ms: u64| LogSampling { interval_secs: (ms / 1000) as u64, ..c },
        )
    } else if d.name == "first"@ {
        error::with(args::positive_size(d), |n: usize| LogSampling { first: n, ..c })
    } else if d.name == "thereafter"@ {
        error::with(args::positive_size(d), |n: usize| LogSampling { thereafter: n, ..c })
    } else {
        Err(ErrorV::UnknownDirective("log sampling: "@ + d.name))
    }
}

fn read_sampling_option(c: LogSampling, d: &Directive) -> (r: Result<
    LogSampling,
    AdapterError,
>)
    ensures
        error::outcome(r) == sampling_option(c.deep_view(), d.deep_view()),
{
    let mut c = c;
    let name = d.name.as_str();
    if same(name, "interval") {
        let ms: u64 = parse_required_duration(d)?;
        c.interval_secs = ms / 1000;
    } else if same(name, "first") {
        c.first = parse_positive_usize(d)?;
    } else if same(name, "thereafter") {
        c.thereafter = parse_positive_usize(d)?;
    } else {
        return Err(unknown_in("log sampling: ", name));
    }
    Ok(c)
}

/// What a `sampling` block configures; the interval must be given and last a second or more.
pub open spec fn sampled(d: DirectiveV) -> Result<LogSampling, ErrorV> {
    match d.block {
        None => Err(
            ErrorV::InvalidArgument(
                "log sampling"@,
                "block required, e.g. `sampling { interval 5m; first 50; thereafter 40 }`"@,
            ),
        ),
        Some(lines) => match fold::fold(
            |c: LogSampling, o: DirectiveV| sampling_option(c, o),
            LogSampling { interval_secs: 0, first: 0, thereafter: 0 },
            lines,
        ) {
            Err(e) => Err(e),
            Ok(c) => if c.interval_secs == 0 {
                Err(
                    ErrorV::InvalidArgument(
                        "log sampling"@,
                        "`interval` is required and must be non-zero"@,
                    ),
                )
            } else {
                Ok(c)
            },
        },
    }
}

fn read_sampling(d: &Directive) -> (r: Result<LogSampling, AdapterError>)
    ensures
        error::outcome(r) == sampled(d.deep_view()),
{
    match &d.block {
        None => Err(
            invalid(
                "log sampling",
                "block required, e.g. `sampling { interval 5m; first 50; thereafter 40 }`",
            ),
        ),
        Some(block) => {
            let c = fold_directives(
                read_sampling_option,
                LogSampling { interval_secs: 0, first: 0, thereafter: 0 },
                &block.directives,
                Ghost(|c: LogSampling, o: DirectiveV| sampling_option(c, o)),
            )?;
            if c.interval_secs == 0 {
                return Err(
                    invalid("log sampling", "`interval` is required and must be non-zero"),
                );
            }
            Ok(c)
        },
    }
}

// ---------------------------------------------------------------------------
// The block
// ---------------------------------------------------------------------------
/// One line of a `log` block that only the extended profile honours.
pub open spec fn refined_log_option(c: LogBlockV, d: DirectiveV) -> Result<
    LogBlockV,
    ErrorV,
> {
    if d.name == "roll"@ {
        error::with(
            rotated(c.rotation, d),
            |rotation: LogRotationBlockV| LogBlockV { rotation, ..c },
        )
    } else if d.name == "headers"@ {
        match d.block {
            None => Err(
                ErrorV::InvalidArgument(
                    "log headers"@,
                    "block required, e.g. `headers { request X-Request-Id }`"@,
                ),
            ),
            Some(lines) => fold::fold(
                |c: LogBlockV, o: DirectiveV| recorded(c, o),
                c,
                lines,
            ),
        }
    } else if d.name == "hostnames"@ {
        if d.args.len() == 0 {
            Err(ErrorV::ArgumentCount("log hostnames"@, 1, 0))
        } else {
            Ok(LogBlockV { hostnames: c.hostnames + d.args, ..c })
        }
    } else if d.name == "include"@ {
        Ok(LogBlockV { included: c.included + d.args, ..c })
    } else if d.name == "exclude"@ {
        Ok(LogBlockV { excluded: c.excluded + d.args, ..c })
    } else if d.name == "sampling"@ {
        error::with(sampled(d), |v: LogSampling| LogBlockV { sampling: Some(v), ..c })
    } else {
        Err(ErrorV::UnknownDirective("log: "@ + d.name))
    }
}

fn read_refined_log_option(c: LogBlock, d: &Directive) -> (r: Result<
    LogBlock,
    AdapterError,
>)
    ensures
        error::outcome(r) == refined_log_option(c.deep_view(), d.deep_view()),
{
    let mut c = c;
    let name = d.name.as_str();
    if same(name, "roll") {
        c.rotation = read_rotation(c.rotation, d)?;
    } else if same(name, "headers") {
        match &d.block {
            None => {
                return Err(
                    invalid(
                        "log headers",
                        "block required, e.g. `headers { request X-Request-Id }`",
                    ),
                );
            },
            Some(block) => {
                c = fold_directives(
                    read_recorded,
                    c,
                    &block.directives,
                    Ghost(|c: LogBlockV, o: DirectiveV| recorded(c, o)),
                )?;
            },
        }
    } else if same(name, "hostnames") {
        if d.args.len() == 0 {
            return Err(miscount("log hostnames", 1, 0));
        }
        extend(&mut c.hostnames, &d.args);
    } else if same(name, "include") {
        extend(&mut c.included, &d.args);
    } else if same(name, "exclude") {
        extend(&mut c.excluded, &d.args);
    } else if same(name, "sampling") {
        c.sampling = Some(read_sampling(d)?);
    } else {
        return Err(unknown_in("log: ", name));
    }
    Ok(c)
}

/// One line of a `log` block.
pub open spec fn log_option(profile: Profile, c: LogBlockV, d: DirectiveV) -> Result<
    LogBlockV,
    ErrorV,
> {
    if d.name == "output"@ {
        directed(profile, c, d)
    } else if d.name == "format"@ {
        error::with(
            formatted(profile, c.format, d),
            |format: LogFormatV| LogBlockV { format, ..c },
        )
    } else if d.name == "level"@ {
        error::with(level(d), |v: LogLevel| LogBlockV { level: Some(v), ..c })
    } else if profile == Profile::Extended {
        refined_log_option(c, d)
    } else {
        Err(ErrorV::UnknownDirective("log: "@ + d.name))
    }
}

fn read_log_option(profile: Profile, c: LogBlock, d: &Directive) -> (r: Result<
    LogBlock,
    AdapterError,
>)
    ensures
        error::outcome(r) == log_option(profile, c.deep_view(), d.deep_view()),
{
    let mut c = c;
    let name = d.name.as_str();
    if same(name, "output") {
        c = read_output(profile, c, d)?;
    } else if same(name, "format") {
        c.format = read_format(profile, c.format, d)?;
    } else if same(name, "level") {
        c.level = Some(read_level(d)?);
    } else if profile == Profile::Extended {
        c = read_refined_log_option(c, d)?;
    } else {
        return Err(unknown_in("log: ", name));
    }
    Ok(c)
}

impl LogBlockV {
    /// Lines go to standard output, and nothing else is configured.
    pub open spec fn standard() -> LogBlockV {
        LogBlockV {
            name: None,
            output: LogOutputV::Stdout,
            format: LogFormatV::unset(),
            level: None,
            rotation: LogRotationBlockV::unset(),
            request_headers: Seq::empty(),
            response_headers: Seq::empty(),
            include_tls: false,
            hostnames: Seq::empty(),
            included: Seq::empty(),
            excluded: Seq::empty(),
            sampling: None,
        }
    }
}

impl LogBlock {
    /// Lines go to standard output, and nothing else is configured.
    pub fn standard() -> (r: LogBlock)
        ensures
            r.deep_view() == LogBlockV::standard(),
    {
        let r = LogBlock {
            name: None,
            output: LogOutput::Stdout,
            format: LogFormat::unset(),
            level: None,
            rotation: LogRotationBlock::unset(),
            request_headers: Vec::new(),
            response_headers: Vec::new(),
            include_tls: false,
            hostnames: Vec::new(),
            included: Vec::new(),
            excluded: Vec::new(),
            sampling: None,
        };
        assert(r.deep_view() =~= LogBlockV::standard());
        r
    }
}

/// What the lines of a `log` block configure.
pub open spec fn log_block(profile: Profile, lines: Seq<DirectiveV>) -> Result<LogBlockV, ErrorV> {
    fold::fold(
        |c: LogBlockV, o: DirectiveV| log_option(profile, c, o),
        LogBlockV::standard(),
        lines,
    )
}

/// Adapts the lines of a `log` block: where the lines go, how they are written and how a file is
/// rolled.
pub fn adapt_log_block(profile: Profile, lines: &Vec<Directive>) -> (r: Result<
    LogBlock,
    AdapterError,
>)
    ensures
        error::outcome(r) == log_block(profile, crate::syntax::directives_view(lines@)),
{
    let read = |c: LogBlock, d: &Directive| -> (r: Result<LogBlock, AdapterError>)
        ensures
            error::outcome(r) == log_option(profile, c.deep_view(), d.deep_view()),
        { read_log_option(profile, c, d) };
    fold_directives(
        read,
        LogBlock::standard(),
        lines,
        Ghost(|c: LogBlockV, o: DirectiveV| log_option(profile, c, o)),
    )
}

} // verus!
