//! The level of a log line.

use crate::text::{after_prefix, starts_with, trim_start, trimmed_start};
use vstd::prelude::*;

verus! {

/// How grave a log line is.
#[derive(Debug, Clone, Copy, PartialEq, Eq, Structural)]
pub enum LogLevel {
    Info,
    Warn,
    Error,
}

/// The level that a line's first word names, and the line without it. A line that names
/// none is information.
pub fn split_level(s: &str) -> (r: (LogLevel, String))
    ensures
        ({
            let rest = |p: Seq<char>| trim_start(s@.skip(p.len() as int));
            &&& starts_with(s@, "FATAL:"@) ==> r.0 == LogLevel::Error && r.1@ == rest("FATAL:"@)
            &&& !starts_with(s@, "FATAL:"@) && starts_with(s@, "ERROR:"@) ==> r.0
                == LogLevel::Error && r.1@ == rest("ERROR:"@)
            &&& !starts_with(s@, "FATAL:"@) && !starts_with(s@, "ERROR:"@) && starts_with(
                s@,
                "WARN:"@,
            ) ==> r.0 == LogLevel::Warn && r.1@ == rest("WARN:"@)
            &&& !starts_with(s@, "FATAL:"@) && !starts_with(s@, "ERROR:"@) && !starts_with(
                s@,
                "WARN:"@,
            ) ==> r.0 == LogLevel::Info && r.1@ == s@
        }),
{
    match after_prefix(s, "FATAL:") {
        Some(rest) => {
            return (LogLevel::Error, trimmed_start(rest.as_str()));
        },
        None => {},
    }
    match after_prefix(s, "ERROR:") {
        Some(rest) => {
            return (LogLevel::Error, trimmed_start(rest.as_str()));
        },
        None => {},
    }
    match after_prefix(s, "WARN:") {
        Some(rest) => {
            return (LogLevel::Warn, trimmed_start(rest.as_str()));
        },
        None => {},
    }
    (LogLevel::Info, s.to_owned())
}

} // verus!
