//! Where the log goes and which old log files are removed: the level in
//! force, stdout or daily-rotated files in a directory under a prefix, and
//! the files whose date lies more than the configured number of days back.
use vstd::prelude::*;
use crate::text::{starts_with, rfind_char, chars_of, string_of, has_prefix, last_index};

verus! {

/// Logging configuration extracted from server/client configs.
pub struct LogConfig<'a> {
    /// Log level, e.g. "info", "debug", "warn" ("info" when empty).
    pub log_level: &'a str,
    /// Path of the log file; empty for stdout. Its directory holds the
    /// files, and its name without extension is their prefix; files are
    /// rotated daily as `<prefix>.YYYY-MM-DD`.
    pub log_file: &'a str,
    /// How many days of log files to keep; 0 keeps them forever.
    pub log_max_days: u32,
}

/// Where the log is written.
pub enum LogDestination {
    Stdout,
    /// Daily-rotated files `<prefix>.YYYY-MM-DD` in `dir`.
    DailyFiles { dir: String, prefix: String },
}

/// The parent directory of a path, as `std::path::Path::parent` gives it
/// (as text).
pub uninterp spec fn path_parent(p: Seq<char>) -> Option<Seq<char>>;

/// The file name of a path without its extension, as
/// `std::path::Path::file_stem` gives it (as text).
pub uninterp spec fn path_file_stem(p: Seq<char>) -> Option<Seq<char>>;

/// The Unix time (s) of midnight UTC of the date `YYYY-MM-DD` that a text
/// names, as chrono parses it with `NaiveDate::parse_from_str`; none when
/// it names no date.
pub uninterp spec fn ymd_midnight(date: Seq<char>) -> Option<int>;

/// `std::path::Path::parent`, as text: the parent of a UTF-8 path is UTF-8.
#[verifier::external_body]
fn parent_of(path: &str) -> (r: Option<String>)
    ensures
        match r {
            Some(s) => path_parent(path@) == Some(s@),
            None => path_parent(path@) is None,
        },
{
    match std::path::Path::new(path).parent() {
        Some(p) => Some(p.to_string_lossy().into_owned()),
        None => None,
    }
}

/// `std::path::Path::file_stem`, as text.
#[verifier::external_body]
fn file_stem_of(path: &str) -> (r: Option<String>)
    ensures
        match r {
            Some(s) => path_file_stem(path@) == Some(s@),
            None => path_file_stem(path@) is None,
        },
{
    match std::path::Path::new(path).file_stem() {
        Some(s) => Some(s.to_string_lossy().into_owned()),
        None => None,
    }
}

/// `chrono::NaiveDate::parse_from_str(date, "%Y-%m-%d")`, taken to the
/// Unix time of that date's midnight UTC.
#[verifier::external_body]
fn parse_log_date(date: &str) -> (r: Option<i64>)
    ensures
        match r {
            Some(t) => ymd_midnight(date@) == Some(t as int),
            None => ymd_midnight(date@) is None,
        },
{
    match chrono::NaiveDate::parse_from_str(date, "%Y-%m-%d") {
        Ok(d) => match d.and_hms_opt(0, 0, 0) {
            Some(t) => Some(t.and_utc().timestamp()),
            None => None,
        },
        Err(_) => None,
    }
}

/// The level in force: the configured one, or "info".
pub open spec fn level_of(level: Seq<char>) -> Seq<char> {
    if level.len() == 0 {
        "info"@
    } else {
        level
    }
}

impl<'a> LogConfig<'a> {
    /// The level in force: the configured one, or "info".
    pub fn effective_level(&self) -> (s: &'a str)
        ensures
            s@ == level_of(self.log_level@),
    {
        if self.log_level.is_empty() {
            "info"
        } else {
            self.log_level
        }
    }

    /// Where the log goes: stdout when no file is set, else daily files in
    /// the file's directory (`.` when it has none) under the file's name
    /// without extension (`app` when it has none).
    pub fn destination(&self) -> (d: LogDestination)
        ensures
            self.log_file@.len() == 0 <==> d is Stdout,
            d matches LogDestination::DailyFiles { dir, prefix } ==> dir@ == (match path_parent(
                self.log_file@,
            ) {
                Some(p) => p,
                None => "."@,
            }) && prefix@ == (match path_file_stem(self.log_file@) {
                Some(s) => s,
                None => "app"@,
            }),
    {
        if self.log_file.is_empty() {
            return LogDestination::Stdout;
        }
        let dir = match parent_of(self.log_file) {
            Some(p) => p,
            None => String::from_str("."),
        };
        let prefix = match file_stem_of(self.log_file) {
            Some(s) => s,
            None => String::from_str("app"),
        };
        LogDestination::DailyFiles { dir, prefix }
    }

    /// Old files are purged: the log goes to files and a limit is set.
    pub fn purges_old_files(&self) -> (b: bool)
        ensures
            b == (self.log_file@.len() > 0 && self.log_max_days > 0),
    {
        !self.log_file.is_empty() && self.log_max_days > 0
    }
}

/// The date part of a log file's name: the text after its last `.`, for a
/// name that starts with the prefix and has a `.`.
pub open spec fn log_date_part(name: Seq<char>, prefix: Seq<char>) -> Option<Seq<char>> {
    if !has_prefix(name, prefix) {
        None
    } else {
        match last_index(name, '.') {
            Some(i) => Some(name.skip(i + 1)),
            None => None,
        }
    }
}

/// The date part of a log file's name (see `log_date_part`).
pub fn log_date_suffix(name: &str, prefix: &str) -> (r: Option<String>)
    ensures
        match r {
            Some(s) => log_date_part(name@, prefix@) == Some(s@),
            None => log_date_part(name@, prefix@) is None,
        },
{
    if !starts_with(name, prefix) {
        return None;
    }
    let v = chars_of(name);
    match rfind_char(&v, '.') {
        Some(i) => {
            let s = string_of(&v, i + 1, v.len());
            assert(s@ =~= name@.skip(i + 1));
            Some(s)
        },
        None => None,
    }
}

/// The instant before which log files are old, in ns of Unix time: `now`
/// less `max_days` days.
pub open spec fn cutoff_ns(now_secs: i64, now_nanos: u32, max_days: u32) -> int {
    now_secs * 1_000_000_000 + now_nanos - max_days * 86_400 * 1_000_000_000
}

/// A file of the log with prefix `prefix` is old at the time
/// `now_secs.now_nanos` (Unix time) under a limit of `max_days` days: its
/// name carries a date whose midnight UTC lies before the cutoff.
pub open spec fn log_file_expired(name: Seq<char>, prefix: Seq<char>, now_secs: i64, now_nanos: u32, max_days: u32) -> bool {
    match log_date_part(name, prefix) {
        Some(d) => match ymd_midnight(d) {
            Some(t) => t * 1_000_000_000 < cutoff_ns(now_secs, now_nanos, max_days),
            None => false,
        },
        None => false,
    }
}

/// Whether the file `name` of the log with prefix `prefix` is to be
/// removed (see `log_file_expired`).
pub fn is_expired_log_file(name: &str, prefix: &str, now_secs: i64, now_nanos: u32, max_days: u32) -> (b: bool)
    requires
        now_nanos < 1_000_000_000,
    ensures
        b == log_file_expired(name@, prefix@, now_secs, now_nanos, max_days),
{
    let date = match log_date_suffix(name, prefix) {
        Some(d) => d,
        None => return false,
    };
    let t = match parse_log_date(date.as_str()) {
        Some(t) => t,
        None => return false,
    };
    let file_ns: i128 = (t as i128) * 1_000_000_000;
    let cutoff: i128 = (now_secs as i128) * 1_000_000_000 + (now_nanos as i128) - (max_days as i128) * 86_400
        * 1_000_000_000;
    file_ns < cutoff
}

} // verus!
