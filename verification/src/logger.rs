//! How the log is kept.

use vstd::prelude::*;

verus! {

/// How the log is kept.
#[derive(Debug)]
pub struct Logger {
    pub level: String,
    pub log_dir: String,
    pub file_prefix: String,
}

/// How the log is kept.
pub struct LoggerModel {
    pub level: Seq<char>,
    pub log_dir: Seq<char>,
    pub file_prefix: Seq<char>,
}

impl DeepView for Logger {
    type V = LoggerModel;

    open spec fn deep_view(&self) -> LoggerModel {
        LoggerModel { level: self.level@, log_dir: self.log_dir@, file_prefix: self.file_prefix@ }
    }
}

/// How the log is kept if nothing is said of it.
pub open spec fn default_logger() -> LoggerModel {
    LoggerModel { level: "info"@, log_dir: "./logs"@, file_prefix: "agent-tutorial"@ }
}

impl Default for Logger {
    fn default() -> (r: Self)
        ensures
            r.deep_view() == default_logger(),
    {
        Logger { level: "info".to_owned(), log_dir: "./logs".to_owned(), file_prefix: "agent-tutorial".to_owned() }
    }
}

impl Logger {
    /// A log about which nothing has been said yet.
    pub fn builder() -> (r: Self)
        ensures
            r.deep_view() == default_logger(),
    {
        Logger::default()
    }

    /// The log with another level.
    pub fn level(self, level: &str) -> (r: Self)
        ensures
            r.deep_view() == (LoggerModel { level: level@, ..self.deep_view() }),
    {
        Logger { level: level.to_owned(), log_dir: self.log_dir, file_prefix: self.file_prefix }
    }

    /// The log in another directory.
    pub fn log_dir(self, dir: &str) -> (r: Self)
        ensures
            r.deep_view() == (LoggerModel { log_dir: dir@, ..self.deep_view() }),
    {
        Logger { level: self.level, log_dir: dir.to_owned(), file_prefix: self.file_prefix }
    }

    /// The log with other names of its files.
    pub fn file_prefix(self, prefix: &str) -> (r: Self)
        ensures
            r.deep_view() == (LoggerModel { file_prefix: prefix@, ..self.deep_view() }),
    {
        Logger { level: self.level, log_dir: self.log_dir, file_prefix: prefix.to_owned() }
    }
}

} // verus!
