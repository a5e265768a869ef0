//! The choice of the log format.

use crate::text::str_eq;
use vstd::prelude::*;

verus! {

/// How log lines are written.
#[derive(Clone, Copy, Debug, PartialEq, Eq, Structural)]
pub enum LogFormat {
    /// One JSON object per line.
    Json,
    /// Human-readable, with source locations.
    Pretty,
}

impl LogFormat {
    /// The format that the mode word `mode` asks for: `json` asks for JSON,
    /// every other word for the human-readable format.
    pub fn from_mode(mode: &str) -> (f: LogFormat)
        ensures
            f == (if mode@ == "json"@ {
                LogFormat::Json
            } else {
                LogFormat::Pretty
            }),
    {
        if str_eq(mode, "json") {
            LogFormat::Json
        } else {
            LogFormat::Pretty
        }
    }

    /// The mode word in force: the configured one, or `pretty` without one.
    pub fn mode_or_default(configured: Option<&str>) -> (f: LogFormat)
        ensures
            f == (if configured is Some && configured->0@ == "json"@ {
                LogFormat::Json
            } else {
                LogFormat::Pretty
            }),
    {
        match configured {
            Some(m) => LogFormat::from_mode(m),
            None => LogFormat::Pretty,
        }
    }
}

} // verus!
