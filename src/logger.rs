use crate::error::{Result, VitalError};
use crate::text::{str_eq, to_upper, upper_of};
use vstd::prelude::*;

verus! {

// log's level enums have no fields, so they are declared with their
// variants visible: the logic below builds and matches them.
#[verifier::external_type_specification]
pub struct ExLevelFilter(log::LevelFilter);

#[verifier::external_type_specification]
pub struct ExLevel(log::Level);

/// The filter that an upper-cased level name selects; SUCCESS is shown at
/// the INFO level.
pub open spec fn level_filter_spec(upper: Seq<char>) -> Option<log::LevelFilter> {
    if upper == "SUCCESS"@ || upper == "INFO"@ {
        Some(log::LevelFilter::Info)
    } else if upper == "WARNING"@ {
        Some(log::LevelFilter::Warn)
    } else if upper == "ERROR"@ {
        Some(log::LevelFilter::Error)
    } else if upper == "DEBUG"@ {
        Some(log::LevelFilter::Debug)
    } else if upper == "TRACE"@ {
        Some(log::LevelFilter::Trace)
    } else {
        None
    }
}

/// The seven-character label of a level in a log line.
pub open spec fn level_label(level: log::Level) -> Seq<char> {
    match level {
        log::Level::Error => "ERROR  "@,
        log::Level::Warn => "WARNING"@,
        log::Level::Info => "INFO   "@,
        log::Level::Debug => "DEBUG  "@,
        log::Level::Trace => "TRACE  "@,
    }
}

/// The filter that an upper-cased level name selects, if any.
pub fn level_filter_for(upper: &str) -> (r: Option<log::LevelFilter>)
    ensures
        r == level_filter_spec(upper@),
{
    if str_eq(upper, "SUCCESS") || str_eq(upper, "INFO") {
        Some(log::LevelFilter::Info)
    } else if str_eq(upper, "WARNING") {
        Some(log::LevelFilter::Warn)
    } else if str_eq(upper, "ERROR") {
        Some(log::LevelFilter::Error)
    } else if str_eq(upper, "DEBUG") {
        Some(log::LevelFilter::Debug)
    } else if str_eq(upper, "TRACE") {
        Some(log::LevelFilter::Trace)
    } else {
        None
    }
}

/// Writes log lines into one file per day under a directory.
#[derive(Clone, Debug)]
pub struct Logger {
    pub log_dir: String,
}

impl Logger {
    pub fn new(log_dir: String) -> (r: Self)
        ensures
            r.log_dir == log_dir,
    {
        Logger { log_dir }
    }

    /// The filter for a level name given in any case; an unknown name is a
    /// `Logger` error.
    pub fn parse_level(level_str: &str) -> (r: Result<log::LevelFilter>)
        ensures
            match level_filter_spec(upper_of(level_str@)) {
                Some(f) => r == Ok::<log::LevelFilter, VitalError>(f),
                None => r matches Err(e) && e is Logger,
            },
    {
        let upper = to_upper(level_str);
        match level_filter_for(upper.as_str()) {
            Some(f) => Ok(f),
            None => {
                let mut m = String::from_str("Invalid log level: ");
                m.append(level_str);
                Err(VitalError::Logger(m))
            },
        }
    }

    /// The level's label, padded to seven characters.
    pub fn format_level(&self, level: log::Level) -> (r: String)
        ensures
            r@ == level_label(level),
    {
        match level {
            log::Level::Error => String::from_str("ERROR  "),
            log::Level::Warn => String::from_str("WARNING"),
            log::Level::Info => String::from_str("INFO   "),
            log::Level::Debug => String::from_str("DEBUG  "),
            log::Level::Trace => String::from_str("TRACE  "),
        }
    }

    /// The name of the log file for a date written `YYYY-MM-DD`.
    pub fn log_file_name(date: &str) -> (r: String)
        ensures
            r@ == "vrconnect-"@ + date@ + ".log"@,
    {
        let mut r = String::from_str("vrconnect-");
        r.append(date);
        r.append(".log");
        r
    }
}

} // verus!
