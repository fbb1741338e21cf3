//! Plain leveled logging: each message goes out as one line, prefixed
//! with its level.

use vstd::prelude::*;
use vstd::string::StringExecFns;
use std::io::Write;

verus! {

/// The four message levels.
#[derive(Debug, Clone, Copy)]
pub enum LogLevel {
    Debug,
    Info,
    Warn,
    Error,
}

/// The prefix a level puts in front of its messages.
pub open spec fn spec_level_label(level: LogLevel) -> Seq<char> {
    match level {
        LogLevel::Debug => "[DEBUG] "@,
        LogLevel::Info => "[INFO] "@,
        LogLevel::Warn => "[WARN] "@,
        LogLevel::Error => "[ERROR] "@,
    }
}

/// Renders one log line: the level's label followed by the message.
pub fn render_line(level: LogLevel, msg: &str) -> (r: String)
    ensures
        r@ == spec_level_label(level) + msg@,
{
    let label = match level {
        LogLevel::Debug => "[DEBUG] ",
        LogLevel::Info => "[INFO] ",
        LogLevel::Warn => "[WARN] ",
        LogLevel::Error => "[ERROR] ",
    };
    String::from_str(label).concat(msg)
}

/// Relies on `std::io::stdout` and `writeln`: prints one line to standard
/// output, ignoring write errors.
#[verifier::external_body]
fn emit_line(line: &str) {
    let _ = writeln!(std::io::stdout(), "{}", line);
}

/// The process-wide verbosity ceiling, from most silent to most verbose.
pub enum LogFilter {
    Off,
    ErrorLevel,
    WarnLevel,
    InfoLevel,
    DebugLevel,
    TraceLevel,
}

/// Relies on `log::max_level`: the maximum level the logging facade is
/// configured with, `Off` until something initializes it. The result
/// depends on process state; nothing is assumed about it.
#[verifier::external_body]
fn configured_filter() -> LogFilter {
    match log::max_level() {
        log::LevelFilter::Off => LogFilter::Off,
        log::LevelFilter::Error => LogFilter::ErrorLevel,
        log::LevelFilter::Warn => LogFilter::WarnLevel,
        log::LevelFilter::Info => LogFilter::InfoLevel,
        log::LevelFilter::Debug => LogFilter::DebugLevel,
        log::LevelFilter::Trace => LogFilter::TraceLevel,
    }
}

/// Whether a filter admits messages of a level: `Off` admits none, and
/// each rung admits its own level and everything more severe.
pub open spec fn spec_filter_admits(filter: LogFilter, level: LogLevel) -> bool {
    match filter {
        LogFilter::Off => false,
        LogFilter::ErrorLevel => level is Error,
        LogFilter::WarnLevel => level is Error || level is Warn,
        LogFilter::InfoLevel => level is Error || level is Warn || level is Info,
        LogFilter::DebugLevel => true,
        LogFilter::TraceLevel => true,
    }
}

/// Tests a level against a filter.
pub fn filter_admits(filter: &LogFilter, level: LogLevel) -> (r: bool)
    ensures
        r == spec_filter_admits(*filter, level),
{
    match filter {
        LogFilter::Off => false,
        LogFilter::ErrorLevel => match level {
            LogLevel::Error => true,
            _ => false,
        },
        LogFilter::WarnLevel => match level {
            LogLevel::Error => true,
            LogLevel::Warn => true,
            _ => false,
        },
        LogFilter::InfoLevel => match level {
            LogLevel::Error => true,
            LogLevel::Warn => true,
            LogLevel::Info => true,
            _ => false,
        },
        LogFilter::DebugLevel => true,
        LogFilter::TraceLevel => true,
    }
}

/// Writes level-prefixed lines to standard output, respecting the
/// process-wide verbosity ceiling: a message below the configured filter
/// is dropped, and nothing is printed before the filter is initialized.
pub struct Logger;

impl Logger {
    /// Logs one message at the given level, if the filter admits it.
    fn log_at(level: LogLevel, msg: &str) {
        let filter = configured_filter();
        if filter_admits(&filter, level) {
            emit_line(render_line(level, msg).as_str());
        }
    }

    /// Logs a debug message.
    pub fn debug(msg: &str) {
        Logger::log_at(LogLevel::Debug, msg);
    }

    /// Logs an informational message.
    pub fn info(msg: &str) {
        Logger::log_at(LogLevel::Info, msg);
    }

    /// Logs a warning.
    pub fn warn(msg: &str) {
        Logger::log_at(LogLevel::Warn, msg);
    }

    /// Logs an error.
    pub fn error(msg: &str) {
        Logger::log_at(LogLevel::Error, msg);
    }
}

} // verus!
