//! Log destinations and their settings.

use vstd::prelude::*;
use crate::duplicate::Duplicate;
use crate::table::Table;

verus! {

/// Where log lines go.
#[derive(Debug, PartialEq, Eq)]
pub enum LogOutput {
    Stdout,
    Stderr,
    File(String),
}

/// The mathematical value of a [`LogOutput`].
#[verifier::ext_equal]
pub enum LogOutputV {
    Stdout,
    Stderr,
    File(Seq<char>),
}

impl DeepView for LogOutput {
    type V = LogOutputV;

    open spec fn deep_view(&self) -> LogOutputV {
        match self {
            LogOutput::Stdout => LogOutputV::Stdout,
            LogOutput::Stderr => LogOutputV::Stderr,
            LogOutput::File(a) => LogOutputV::File(a.deep_view()),
        }
    }
}

impl Duplicate for LogOutput {
    fn duplicate(&self) -> Self {
        match self {
            LogOutput::Stdout => LogOutput::Stdout,
            LogOutput::Stderr => LogOutput::Stderr,
            LogOutput::File(a) => LogOutput::File(a.duplicate()),
        }
    }
}

/// How a log line is encoded.
#[derive(Debug, Clone, Copy, PartialEq, Eq, Structural)]
pub enum LogFormatType {
    Json,
    Text,
}

impl DeepView for LogFormatType {
    type V = LogFormatType;

    open spec fn deep_view(&self) -> LogFormatType {
        *self
    }
}

impl Duplicate for LogFormatType {
    fn duplicate(&self) -> Self {
        *self
    }
}

/// The least severe line that is written.
#[derive(Debug, Clone, Copy, PartialEq, Eq, Structural)]
pub enum LogLevel {
    Trace,
    Debug,
    Info,
    Warn,
    Error,
}

impl DeepView for LogLevel {
    type V = LogLevel;

    open spec fn deep_view(&self) -> LogLevel {
        *self
    }
}

impl Duplicate for LogLevel {
    fn duplicate(&self) -> Self {
        *self
    }
}

/// Fields left out of each line.
#[derive(Debug, PartialEq, Eq)]
pub struct LogFilter {
    pub exclude: Vec<String>,
}

/// The mathematical value of a [`LogFilter`].
#[verifier::ext_equal]
pub struct LogFilterV {
    pub exclude: Seq<Seq<char>>,
}

impl DeepView for LogFilter {
    type V = LogFilterV;

    open spec fn deep_view(&self) -> LogFilterV {
        LogFilterV {
            exclude: self.exclude.deep_view(),
        }
    }
}

impl Duplicate for LogFilter {
    fn duplicate(&self) -> Self {
        LogFilter {
            exclude: self.exclude.duplicate(),
        }
    }
}

impl LogFilterV {
    /// Nothing configured.
    pub open spec fn unset() -> LogFilterV {
        LogFilterV {
            exclude: Seq::<Seq<char>>::empty(),
        }
    }
}

impl LogFilter {
    /// Nothing configured.
    pub fn unset() -> (r: LogFilter)
        ensures
            r.deep_view() == LogFilterV::unset(),
    {
        let r = LogFilter {
            exclude: Vec::new(),
        };
        assert(r.deep_view() =~= LogFilterV::unset());
        r
    }
}

/// The encoding of a destination; `None` leaves the encoder open.
#[derive(Debug, PartialEq, Eq)]
pub struct LogFormat {
    pub format_type: Option<LogFormatType>,
    pub filter: Option<LogFilter>,
}

/// The mathematical value of a [`LogFormat`].
#[verifier::ext_equal]
pub struct LogFormatV {
    pub format_type: Option<LogFormatType>,
    pub filter: Option<LogFilterV>,
}

impl DeepView for LogFormat {
    type V = LogFormatV;

    open spec fn deep_view(&self) -> LogFormatV {
        LogFormatV {
            format_type: self.format_type.deep_view(),
            filter: self.filter.deep_view(),
        }
    }
}

impl Duplicate for LogFormat {
    fn duplicate(&self) -> Self {
        LogFormat {
            format_type: self.format_type.duplicate(),
            filter: self.filter.duplicate(),
        }
    }
}

impl LogFormatV {
    /// Nothing configured.
    pub open spec fn unset() -> LogFormatV {
        LogFormatV {
            format_type: None,
            filter: None,
        }
    }
}

impl LogFormat {
    /// Nothing configured.
    pub fn unset() -> (r: LogFormat)
        ensures
            r.deep_view() == LogFormatV::unset(),
    {
        let r = LogFormat {
            format_type: None,
            filter: None,
        };
        assert(r.deep_view() =~= LogFormatV::unset());
        r
    }
}

/// How many lines of a burst are kept.
#[derive(Debug, Clone, Copy, PartialEq, Eq, Structural)]
pub struct LogSampling {
    pub interval_secs: u64,
    pub first: usize,
    pub thereafter: usize,
}

impl DeepView for LogSampling {
    type V = LogSampling;

    open spec fn deep_view(&self) -> LogSampling {
        *self
    }
}

impl Duplicate for LogSampling {
    fn duplicate(&self) -> Self {
        *self
    }
}

/// When and how a log file is rolled.
#[derive(Debug, PartialEq, Eq)]
pub struct LogRotationBlock {
    pub max_size_bytes: Option<u64>,
    pub max_age_secs: Option<u64>,
    pub keep: Option<usize>,
    pub compress: bool,
    pub mode: Option<String>,
    pub dir_mode: Option<String>,
    pub roll_compression: Option<String>,
    pub roll_local_time: bool,
    pub roll_interval_secs: Option<u64>,
    pub roll_at: Option<String>,
    pub roll_minutes: Option<String>,
}

/// The mathematical value of a [`LogRotationBlock`].
#[verifier::ext_equal]
pub struct LogRotationBlockV {
    pub max_size_bytes: Option<u64>,
    pub max_age_secs: Option<u64>,
    pub keep: Option<usize>,
    pub compress: bool,
    pub mode: Option<Seq<char>>,
    pub dir_mode: Option<Seq<char>>,
    pub roll_compression: Option<Seq<char>>,
    pub roll_local_time: bool,
    pub roll_interval_secs: Option<u64>,
    pub roll_at: Option<Seq<char>>,
    pub roll_minutes: Option<Seq<char>>,
}

impl DeepView for LogRotationBlock {
    type V = LogRotationBlockV;

    open spec fn deep_view(&self) -> LogRotationBlockV {
        LogRotationBlockV {
            max_size_bytes: self.max_size_bytes.deep_view(),
            max_age_secs: self.max_age_secs.deep_view(),
            keep: self.keep.deep_view(),
            compress: self.compress.deep_view(),
            mode: self.mode.deep_view(),
            dir_mode: self.dir_mode.deep_view(),
            roll_compression: self.roll_compression.deep_view(),
            roll_local_time: self.roll_local_time.deep_view(),
            roll_interval_secs: self.roll_interval_secs.deep_view(),
            roll_at: self.roll_at.deep_view(),
            roll_minutes: self.roll_minutes.deep_view(),
        }
    }
}

impl Duplicate for LogRotationBlock {
    fn duplicate(&self) -> Self {
        LogRotationBlock {
            max_size_bytes: self.max_size_bytes.duplicate(),
            max_age_secs: self.max_age_secs.duplicate(),
            keep: self.keep.duplicate(),
            compress: self.compress.duplicate(),
            mode: self.mode.duplicate(),
            dir_mode: self.dir_mode.duplicate(),
            roll_compression: self.roll_compression.duplicate(),
            roll_local_time: self.roll_local_time.duplicate(),
            roll_interval_secs: self.roll_interval_secs.duplicate(),
            roll_at: self.roll_at.duplicate(),
            roll_minutes: self.roll_minutes.duplicate(),
        }
    }
}

impl LogRotationBlockV {
    /// Nothing configured.
    pub open spec fn unset() -> LogRotationBlockV {
        LogRotationBlockV {
            max_size_bytes: None,
            max_age_secs: None,
            keep: None,
            compress: false,
            mode: None,
            dir_mode: None,
            roll_compression: None,
            roll_local_time: false,
            roll_interval_secs: None,
            roll_at: None,
            roll_minutes: None,
        }
    }
}

impl LogRotationBlock {
    /// Nothing configured.
    pub fn unset() -> (r: LogRotationBlock)
        ensures
            r.deep_view() == LogRotationBlockV::unset(),
    {
        let r = LogRotationBlock {
            max_size_bytes: None,
            max_age_secs: None,
            keep: None,
            compress: false,
            mode: None,
            dir_mode: None,
            roll_compression: None,
            roll_local_time: false,
            roll_interval_secs: None,
            roll_at: None,
            roll_minutes: None,
        };
        assert(r.deep_view() =~= LogRotationBlockV::unset());
        r
    }
}

/// One log destination.
#[derive(Debug, PartialEq, Eq)]
pub struct LogBlock {
    pub name: Option<String>,
    pub output: LogOutput,
    pub format: LogFormat,
    pub level: Option<LogLevel>,
    pub rotation: LogRotationBlock,
    pub request_headers: Vec<String>,
    pub response_headers: Vec<String>,
    pub include_tls: bool,
    pub hostnames: Vec<String>,
    pub included: Vec<String>,
    pub excluded: Vec<String>,
    pub sampling: Option<LogSampling>,
}

/// The mathematical value of a [`LogBlock`].
#[verifier::ext_equal]
pub struct LogBlockV {
    pub name: Option<Seq<char>>,
    pub output: LogOutputV,
    pub format: LogFormatV,
    pub level: Option<LogLevel>,
    pub rotation: LogRotationBlockV,
    pub request_headers: Seq<Seq<char>>,
    pub response_headers: Seq<Seq<char>>,
    pub include_tls: bool,
    pub hostnames: Seq<Seq<char>>,
    pub included: Seq<Seq<char>>,
    pub excluded: Seq<Seq<char>>,
    pub sampling: Option<LogSampling>,
}

impl DeepView for LogBlock {
    type V = LogBlockV;

    open spec fn deep_view(&self) -> LogBlockV {
        LogBlockV {
            name: self.name.deep_view(),
            output: self.output.deep_view(),
            format: self.format.deep_view(),
            level: self.level.deep_view(),
            rotation: self.rotation.deep_view(),
            request_headers: self.request_headers.deep_view(),
            response_headers: self.response_headers.deep_view(),
            include_tls: self.include_tls.deep_view(),
            hostnames: self.hostnames.deep_view(),
            included: self.included.deep_view(),
            excluded: self.excluded.deep_view(),
            sampling: self.sampling.deep_view(),
        }
    }
}

impl Duplicate for LogBlock {
    fn duplicate(&self) -> Self {
        LogBlock {
            name: self.name.duplicate(),
            output: self.output.duplicate(),
            format: self.format.duplicate(),
            level: self.level.duplicate(),
            rotation: self.rotation.duplicate(),
            request_headers: self.request_headers.duplicate(),
            response_headers: self.response_headers.duplicate(),
            include_tls: self.include_tls.duplicate(),
            hostnames: self.hostnames.duplicate(),
            included: self.included.duplicate(),
            excluded: self.excluded.duplicate(),
            sampling: self.sampling.duplicate(),
        }
    }
}

/// The process-wide log destinations.
#[derive(Debug, PartialEq, Eq)]
pub struct LoggingBlock {
    pub default: Option<LogBlock>,
    pub channels: Table<LogBlock>,
    /// The names of the channels, in the order in which they were declared.
    pub declared: Vec<String>,
}

/// The mathematical value of a [`LoggingBlock`].
#[verifier::ext_equal]
pub struct LoggingBlockV {
    pub default: Option<LogBlockV>,
    pub channels: Map<Seq<char>, LogBlockV>,
    pub declared: Seq<Seq<char>>,
}

impl DeepView for LoggingBlock {
    type V = LoggingBlockV;

    open spec fn deep_view(&self) -> LoggingBlockV {
        LoggingBlockV {
            default: self.default.deep_view(),
            channels: self.channels.deep_view(),
            declared: self.declared.deep_view(),
        }
    }
}

impl Duplicate for LoggingBlock {
    fn duplicate(&self) -> Self {
        LoggingBlock {
            default: self.default.duplicate(),
            channels: self.channels.duplicate(),
            declared: self.declared.duplicate(),
        }
    }
}

impl LoggingBlockV {
    /// Nothing configured.
    pub open spec fn unset() -> LoggingBlockV {
        LoggingBlockV {
            default: None,
            channels: Map::<Seq<char>, LogBlockV>::empty(),
            declared: Seq::empty(),
        }
    }
}

impl LoggingBlock {
    /// Nothing configured.
    pub fn unset() -> (r: LoggingBlock)
        ensures
            r.deep_view() == LoggingBlockV::unset(),
    {
        let r = LoggingBlock {
            default: None,
            channels: Table::new(),
            declared: Vec::new(),
        };
        assert(r.deep_view() =~= LoggingBlockV::unset());
        r
    }
}

} // verus!
