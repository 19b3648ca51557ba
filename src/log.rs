//! Leveled diagnostics. A `Logger` holds the threshold chosen at start-up and
//! is handed to whatever reports; records below the threshold are dropped.
use vstd::prelude::*;
use crate::text::str_equal;

verus! {

/// The severity of a record, from least to most severe.
#[derive(Clone, Copy, Debug, PartialEq, Eq, Structural)]
pub enum LogLevels {
    Trace,
    Debug,
    Info,
    Warn,
    Error,
}

/// The threshold used when none is configured.
pub const DEFAULT_LOG_LEVEL: LogLevels = LogLevels::Info;

/// The position of a level in the order of severity.
pub open spec fn level_rank(l: LogLevels) -> int {
    match l {
        LogLevels::Trace => 0,
        LogLevels::Debug => 1,
        LogLevels::Info => 2,
        LogLevels::Warn => 3,
        LogLevels::Error => 4,
    }
}

/// The level a lower-case setting names; an unknown setting gives the default.
pub open spec fn level_named(name: Seq<char>) -> LogLevels {
    if name == "info"@ {
        LogLevels::Info
    } else if name == "trace"@ {
        LogLevels::Trace
    } else if name == "debug"@ {
        LogLevels::Debug
    } else if name == "warn"@ || name == "warning"@ {
        LogLevels::Warn
    } else if name == "err"@ || name == "error"@ {
        LogLevels::Error
    } else {
        DEFAULT_LOG_LEVEL
    }
}

/// The text of a setting with every letter in lower case, as
/// `str::to_lowercase` gives it.
pub uninterp spec fn lower_of(s: Seq<char>) -> Seq<char>;

/// Relies on `str::to_lowercase`: the result depends on the characters alone.
#[verifier::external_body]
fn lowercase(s: &str) -> (r: String)
    ensures
        r@ == lower_of(s@),
{
    s.to_lowercase()
}

/// A message with its level.
#[derive(Debug)]
pub struct LogRecord {
    pub level: LogLevels,
    pub message: String,
}

/// Keeps the records at or above a threshold.
#[derive(Clone, Copy, Debug)]
pub struct Logger {
    level: LogLevels,
}

impl LogLevels {
    /// The position of the level in the order of severity.
    pub fn rank(&self) -> (r: u8)
        ensures
            r == level_rank(*self),
    {
        match self {
            LogLevels::Trace => 0,
            LogLevels::Debug => 1,
            LogLevels::Info => 2,
            LogLevels::Warn => 3,
            LogLevels::Error => 4,
        }
    }
}

impl Logger {
    pub fn new(level: LogLevels) -> (r: Logger)
        ensures
            r.threshold() == level,
    {
        Logger { level }
    }

    /// The threshold, as a spec value.
    pub closed spec fn threshold(&self) -> LogLevels {
        self.level
    }

    pub fn get_log_level(&self) -> (r: LogLevels)
        ensures
            r == self.threshold(),
    {
        self.level
    }

    /// Whether a record of `level` is kept.
    pub fn accepts(&self, level: LogLevels) -> (r: bool)
        ensures
            r == (level_rank(level) >= level_rank(self.threshold())),
    {
        level.rank() >= self.level.rank()
    }
}

/// The level a lower-case setting names; an unknown setting gives the default.
pub fn level_from_name(name: &str) -> (r: LogLevels)
    ensures
        r == level_named(name@),
{
    if str_equal(name, "info") {
        LogLevels::Info
    } else if str_equal(name, "trace") {
        LogLevels::Trace
    } else if str_equal(name, "debug") {
        LogLevels::Debug
    } else if str_equal(name, "warn") || str_equal(name, "warning") {
        LogLevels::Warn
    } else if str_equal(name, "err") || str_equal(name, "error") {
        LogLevels::Error
    } else {
        DEFAULT_LOG_LEVEL
    }
}

/// The level a configured setting names, in any letter case; no setting
/// gives the default.
pub fn get_level_from_env(setting: Option<&str>) -> (r: LogLevels)
    ensures
        r == match setting {
            Some(s) => level_named(lower_of(s@)),
            None => DEFAULT_LOG_LEVEL,
        },
{
    match setting {
        Some(s) => {
            let lower = lowercase(s);
            level_from_name(lower.as_str())
        },
        None => DEFAULT_LOG_LEVEL,
    }
}

/// The logger for a run: the level given, else the one the setting names.
pub fn init(initial_level: Option<LogLevels>, setting: Option<&str>) -> (r: Logger)
    ensures
        r.threshold() == match initial_level {
            Some(l) => l,
            None => match setting {
                Some(s) => level_named(lower_of(s@)),
                None => DEFAULT_LOG_LEVEL,
            },
        },
{
    match initial_level {
        Some(l) => Logger::new(l),
        None => Logger::new(get_level_from_env(setting)),
    }
}

/// A warning record.
pub fn warn(message: String) -> (r: LogRecord)
    ensures
        r.level == LogLevels::Warn,
        r.message@ == message@,
{
    LogRecord { level: LogLevels::Warn, message }
}

/// An error record.
pub fn error(message: String) -> (r: LogRecord)
    ensures
        r.level == LogLevels::Error,
        r.message@ == message@,
{
    LogRecord { level: LogLevels::Error, message }
}

} // verus!
