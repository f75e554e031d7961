//! Settings: where the repository is and how much to log.

use vstd::prelude::*;

use crate::text::str_is;

verus! {

/// How much to log.
#[derive(Debug, Clone, Copy, PartialEq, Eq, Structural, PartialOrd, Ord, Hash)]
pub enum LogLevel {
    /// Nothing.
    Off,
    /// Errors only.
    Error,
    /// Warnings too.
    Warn,
    /// What the program does.
    Info,
    /// Details for debugging.
    Debug,
}

impl Default for LogLevel {
    fn default() -> (r: LogLevel)
        ensures
            r == LogLevel::Warn,
    {
        LogLevel::Warn
    }
}

/// The level that a name denotes, if any.
pub open spec fn level_of(s: Seq<char>) -> Option<LogLevel> {
    if s == "off"@ {
        Some(LogLevel::Off)
    } else if s == "error"@ {
        Some(LogLevel::Error)
    } else if s == "warn"@ {
        Some(LogLevel::Warn)
    } else if s == "info"@ {
        Some(LogLevel::Info)
    } else if s == "debug"@ {
        Some(LogLevel::Debug)
    } else {
        None
    }
}

/// A name that is no log level; the name is kept.
#[derive(Debug, PartialEq)]
pub struct LogLevelParseError(String);

impl LogLevelParseError {
    /// The name that was given.
    pub fn text(&self) -> (r: &str)
        ensures
            r@ == self.view(),
    {
        self.0.as_str()
    }
}

impl View for LogLevelParseError {
    type V = Seq<char>;

    closed spec fn view(&self) -> Seq<char> {
        self.0@
    }
}

fn is_word(s: &str, w: &str) -> (r: bool)
    ensures
        r == (s@ == w@),
{
    str_is(s, &crate::text::chars_of(w))
}

impl LogLevel {
    /// The level named `off`, `error`, `warn`, `info` or `debug`.
    pub fn from_name(s: &str) -> (r: Result<LogLevel, LogLevelParseError>)
        ensures
            match level_of(s@) {
                Some(l) => r == Ok::<LogLevel, LogLevelParseError>(l),
                None => r matches Err(e) && e@ == s@,
            },
    {
        proof {
            reveal_strlit("off");
            reveal_strlit("error");
            reveal_strlit("warn");
            reveal_strlit("info");
            reveal_strlit("debug");
        }
        if is_word(s, "off") {
            Ok(LogLevel::Off)
        } else if is_word(s, "error") {
            Ok(LogLevel::Error)
        } else if is_word(s, "warn") {
            Ok(LogLevel::Warn)
        } else if is_word(s, "info") {
            Ok(LogLevel::Info)
        } else if is_word(s, "debug") {
            Ok(LogLevel::Debug)
        } else {
            Err(LogLevelParseError(s.to_owned()))
        }
    }
}

impl std::str::FromStr for LogLevel {
    type Err = LogLevelParseError;

    fn from_str(s: &str) -> Result<LogLevel, LogLevelParseError> {
        LogLevel::from_name(s)
    }
}

/// The value of an optional string.
pub open spec fn opt_view(o: Option<String>) -> Option<Seq<char>> {
    match o {
        Some(s) => Some(s@),
        None => None,
    }
}

fn clone_opt(o: &Option<String>) -> (r: Option<String>)
    ensures
        r == *o,
{
    match o {
        Some(s) => Some(s.clone()),
        None => None,
    }
}

/// The overwriting value when there is one, else the base value.
pub open spec fn merge_spec<T>(x: Option<T>, overwrite: Option<T>) -> Option<T> {
    if overwrite is Some {
        overwrite
    } else {
        x
    }
}

/// Logging settings.
#[derive(Debug, PartialEq, Eq, PartialOrd, Ord)]
pub struct Log {
    output: Option<String>,
    level: Option<LogLevel>,
}

/// Logging settings as a mathematical value.
pub struct LogView {
    pub output: Option<Seq<char>>,
    pub level: Option<LogLevel>,
}

impl View for Log {
    type V = LogView;

    closed spec fn view(&self) -> LogView {
        LogView { output: opt_view(self.output), level: self.level }
    }
}

impl Log {
    /// Settings with these values.
    pub fn new(output: Option<String>, level: Option<LogLevel>) -> (r: Log)
        ensures
            r@ == (LogView { output: opt_view(output), level }),
    {
        Log { output, level }
    }

    /// Where to log, if set.
    pub fn output(&self) -> (r: Option<&str>)
        ensures
            match r {
                Some(s) => self@.output == Some(s@),
                None => self@.output is None,
            },
    {
        match &self.output {
            Some(s) => Some(s.as_str()),
            None => None,
        }
    }

    /// The level, if set.
    pub fn level(&self) -> (r: Option<LogLevel>)
        ensures
            r == self@.level,
    {
        self.level
    }

    /// Each setting of `overwrite` that is set replaces this one's.
    pub fn merged(&self, overwrite: &Log) -> (r: Log)
        ensures
            r@ == (LogView {
                output: merge_spec(self@.output, overwrite@.output),
                level: merge_spec(self@.level, overwrite@.level),
            }),
    {
        Log {
            output: if overwrite.output.is_some() {
                clone_opt(&overwrite.output)
            } else {
                clone_opt(&self.output)
            },
            level: if overwrite.level.is_some() {
                overwrite.level
            } else {
                self.level
            },
        }
    }
}

/// The settings of the program.
#[derive(Debug)]
pub struct Config {
    repository_path: Option<String>,
    log: Log,
}

/// Settings as a mathematical value.
pub struct ConfigView {
    pub repository_path: Option<Seq<char>>,
    pub log: LogView,
}

impl View for Config {
    type V = ConfigView;

    closed spec fn view(&self) -> ConfigView {
        ConfigView { repository_path: opt_view(self.repository_path), log: self.log@ }
    }
}

impl Default for Config {
    fn default() -> (r: Config)
        ensures
            r@ == (ConfigView { repository_path: None, log: LogView { output: None, level: None } }),
    {
        Config { repository_path: None, log: Log { output: None, level: None } }
    }
}

impl Config {
    /// Settings with these values.
    pub fn new(repository_path: Option<String>, log: Log) -> (r: Config)
        ensures
            r@ == (ConfigView { repository_path: opt_view(repository_path), log: log@ }),
    {
        Config { repository_path, log }
    }

    /// The repository's path, if set.
    pub fn repository_path(&self) -> (r: Option<&str>)
        ensures
            match r {
                Some(s) => self@.repository_path == Some(s@),
                None => self@.repository_path is None,
            },
    {
        match &self.repository_path {
            Some(s) => Some(s.as_str()),
            None => None,
        }
    }

    /// The logging settings.
    pub fn log(&self) -> (r: &Log)
        ensures
            r@ == self@.log,
    {
        &self.log
    }

    /// Sets the repository's path.
    pub fn set_repository_path(&mut self, path: &str)
        ensures
            final(self)@ == (ConfigView { repository_path: Some(path@), ..old(self)@ }),
    {
        self.repository_path = Some(path.to_owned());
    }

    /// Sets the log level.
    pub fn set_log_level(&mut self, level: LogLevel)
        ensures
            final(self)@ == (ConfigView { log: LogView { level: Some(level), ..old(self)@.log }, ..old(self)@ }),
    {
        self.log.level = Some(level);
    }

    /// Sets the log level by name; an unknown name changes nothing.
    pub fn set_log_level_str(&mut self, level_str: &str) -> (r: Result<(), LogLevelParseError>)
        ensures
            match level_of(level_str@) {
                Some(l) => r is Ok && final(self)@ == (ConfigView {
                    log: LogView { level: Some(l), ..old(self)@.log },
                    ..old(self)@
                }),
                None => r matches Err(e) && e@ == level_str@ && final(self)@ == old(self)@,
            },
    {
        match LogLevel::from_name(level_str) {
            Ok(l) => {
                self.set_log_level(l);
                Ok(())
            },
            Err(e) => Err(e),
        }
    }

    /// Each setting of `overwrite` that is set replaces this one's.
    pub fn merged(&self, overwrite: &Config) -> (r: Config)
        ensures
            r@ == (ConfigView {
                repository_path: merge_spec(self@.repository_path, overwrite@.repository_path),
                log: LogView {
                    output: merge_spec(self@.log.output, overwrite@.log.output),
                    level: merge_spec(self@.log.level, overwrite@.log.level),
                },
            }),
    {
        Config {
            repository_path: if overwrite.repository_path.is_some() {
                clone_opt(&overwrite.repository_path)
            } else {
                clone_opt(&self.repository_path)
            },
            log: self.log.merged(&overwrite.log),
        }
    }
}

} // verus!
