//! The application log: where its files live, how an entry is written, and
//! which files are old enough to remove.
use vstd::prelude::*;
use vstd::string::StringExecFns;
use chrono::Datelike;
use crate::document::{join_lines, join_with_newlines};
use crate::strings::{drop_last_chars, ends_with_text, has_suffix};
use crate::text::{chars_of, has_prefix, lines_of, split_lines};

verus! {

/// One entry that the front end asks to log.
#[derive(Debug, Clone, PartialEq)]
pub struct LogEntry {
    pub level: String,
    pub message: String,
    pub timestamp: String,
    pub context: String,
    pub data: String,
}

/// Why the log could not be reached.
#[derive(PartialEq, Eq, Structural, Clone, Copy, Debug)]
pub enum LogError {
    /// The user's home directory is unknown.
    NoHomeDirectory,
}

/// The upper-case form of a text, as `str::to_uppercase` gives it.
pub uninterp spec fn upper_of(s: Seq<char>) -> Seq<char>;

/// The date `(year, month, day)` that a text writes in the form `%Y-%m-%d`.
pub uninterp spec fn parsed_ymd(s: Seq<char>) -> Option<(i32, u32, u32)>;

/// Relies on `dirs::home_dir`: the user's home directory, if it is known.
#[verifier::external_body]
fn home_dir() -> (r: Option<String>) {
    dirs::home_dir().map(|p| p.to_string_lossy().to_string())
}

/// Relies on `chrono::Local::now` formatted with `%Y-%m-%d`: today's date.
#[verifier::external_body]
fn current_date() -> (r: String) {
    chrono::Local::now().format("%Y-%m-%d").to_string()
}

/// Relies on `str::to_uppercase`: the text in upper case.
#[verifier::external_body]
fn to_uppercase(s: &str) -> (r: String)
    ensures
        r@ == upper_of(s@),
{
    s.to_uppercase()
}

/// Relies on `chrono::NaiveDate::parse_from_str` with `%Y-%m-%d`: the date a
/// text writes, when it is a valid one.
#[verifier::external_body]
fn parse_ymd(s: &str) -> (r: Option<(i32, u32, u32)>)
    ensures
        r == parsed_ymd(s@),
{
    match chrono::NaiveDate::parse_from_str(s, "%Y-%m-%d") {
        Ok(d) => Some((d.year(), d.month(), d.day())),
        Err(_) => None,
    }
}

/// Relies on `chrono::TimeDelta::try_days` and `DateTime::checked_sub_signed`
/// on `chrono::Local::now`: the local date `days` days ago, when it is in range.
#[verifier::external_body]
fn date_days_ago(days: i64) -> (r: Option<(i32, u32, u32)>)
    requires
        days >= 0,
{
    let past = chrono::Local::now().checked_sub_signed(chrono::TimeDelta::try_days(days)?)?;
    let d = past.date_naive();
    Some((d.year(), d.month(), d.day()))
}

/// `base` and `name` joined by a path separator.
pub open spec fn joined_path(base: Seq<char>, name: Seq<char>) -> Seq<char> {
    if base.len() == 0 {
        name
    } else if base.last() == '/' {
        base + name
    } else {
        base + "/"@ + name
    }
}

/// Appends the relative path component `name` to the path `base`.
pub fn join_path(base: &str, name: &str) -> (r: String)
    ensures
        r@ == joined_path(base@, name@),
{
    let b = chars_of(base);
    let mut out = String::from_str(base);
    if b.len() > 0 && b[b.len() - 1] != '/' {
        out.append("/");
    }
    out.append(name);
    out
}

pub open spec fn log_directory_text(home: Seq<char>) -> Seq<char> {
    joined_path(joined_path(home, ".kgc-toolkit"@), "logs"@)
}

pub open spec fn log_file_name_text(date: Seq<char>) -> Seq<char> {
    "app-"@ + date + ".log"@
}

/// The log directory under a home directory.
pub fn log_directory_in(home: &str) -> (r: String)
    ensures
        r@ == log_directory_text(home@),
{
    let base = join_path(home, ".kgc-toolkit");
    join_path(base.as_str(), "logs")
}

/// The name of the log file of a date.
pub fn log_file_name(date: &str) -> (r: String)
    ensures
        r@ == log_file_name_text(date@),
{
    let mut s = String::from_str("app-");
    s.append(date);
    s.append(".log");
    s
}

/// The log file of a date under a home directory.
pub fn log_file_path_in(home: &str, date: &str) -> (r: String)
    ensures
        r@ == joined_path(log_directory_text(home@), log_file_name_text(date@)),
{
    let dir = log_directory_in(home);
    let name = log_file_name(date);
    join_path(dir.as_str(), name.as_str())
}

/// The directory that holds the log files.
pub fn get_log_directory() -> (r: Result<String, LogError>)
    ensures
        r is Err ==> r == Err::<String, LogError>(LogError::NoHomeDirectory),
        r matches Ok(p) ==> exists|h: Seq<char>| p@ == log_directory_text(h),
{
    match home_dir() {
        Some(h) => Ok(log_directory_in(h.as_str())),
        None => Err(LogError::NoHomeDirectory),
    }
}

/// Today's log file.
pub fn get_log_file_path() -> (r: Result<String, LogError>)
    ensures
        r is Err ==> r == Err::<String, LogError>(LogError::NoHomeDirectory),
        r matches Ok(p) ==> exists|h: Seq<char>, d: Seq<char>|
            p@ == joined_path(log_directory_text(h), log_file_name_text(d)),
{
    match home_dir() {
        Some(h) => {
            let date = current_date();
            Ok(log_file_path_in(h.as_str(), date.as_str()))
        },
        None => Err(LogError::NoHomeDirectory),
    }
}

/// The line that an entry adds to the log file.
pub open spec fn log_line_text(e: LogEntry) -> Seq<char> {
    let has_context = e.context@.len() > 0;
    "["@ + e.timestamp@ + "] ["@ + upper_of(e.level@) + "] "@
        + (if has_context { "["@ } else { seq![] })
        + (if has_context { e.context@ } else { seq![] })
        + ": "@
        + (if has_context { "] "@ } else { seq![] })
        + e.message@
        + (if e.data@.len() > 0 { " | Data: "@ + e.data@ } else { seq![] })
        + "\n"@
}

/// Formats an entry as one line of the log file.
pub fn format_log_line(entry: &LogEntry) -> (r: String)
    ensures
        r@ == log_line_text(*entry),
{
    let has_context = chars_of(entry.context.as_str()).len() > 0;
    let has_data = chars_of(entry.data.as_str()).len() > 0;
    let level = to_uppercase(entry.level.as_str());
    let mut s = String::from_str("[");
    s.append(entry.timestamp.as_str());
    s.append("] [");
    s.append(level.as_str());
    s.append("] ");
    if has_context {
        s.append("[");
        s.append(entry.context.as_str());
    }
    s.append(": ");
    if has_context {
        s.append("] ");
    }
    s.append(entry.message.as_str());
    if has_data {
        s.append(" | Data: ");
        s.append(entry.data.as_str());
    }
    s.append("\n");
    proof {
        let e = *entry;
        let hc = e.context@.len() > 0;
        assert(s@ =~= log_line_text(e));
    }
    s
}

/// How many lines of the log are shown when the caller does not say.
pub const DEFAULT_RECENT_LINES: usize = 100;

/// The last `limit` lines of a log text, oldest first.
pub open spec fn recent_lines_text(content: Seq<char>, limit: nat) -> Seq<Seq<char>> {
    let ls = lines_of(content);
    if ls.len() <= limit {
        ls
    } else {
        ls.subrange(ls.len() - limit, ls.len() as int)
    }
}

/// The last lines of a log text, oldest first: `lines` of them, or
/// `DEFAULT_RECENT_LINES` when not given.
pub fn recent_log_lines(content: &str, lines: Option<usize>) -> (r: Vec<String>)
    ensures
        r@.map_values(|s: String| s@) == recent_lines_text(
            content@,
            match lines {
                Some(n) => n as nat,
                None => DEFAULT_RECENT_LINES as nat,
            },
        ),
{
    let limit: usize = match lines {
        Some(n) => n,
        None => DEFAULT_RECENT_LINES,
    };
    let cs = chars_of(content);
    let ls = split_lines(&cs);
    let ghost lv = ls@.map_values(|l: Vec<char>| l@);
    let start: usize = if ls.len() <= limit { 0 } else { ls.len() - limit };
    let mut out: Vec<String> = Vec::new();
    let mut i: usize = start;
    while i < ls.len()
        invariant
            start <= i <= ls@.len(),
            lv == ls@.map_values(|l: Vec<char>| l@),
            out@.map_values(|s: String| s@) == lv.subrange(start as int, i as int),
        decreases ls@.len() - i,
    {
        let one: Vec<Vec<char>> = vec![ls[i].clone()];
        let line = join_with_newlines(&one);
        assert(one@.map_values(|l: Vec<char>| l@) =~= seq![lv[i as int]]);
        assert(join_lines(seq![lv[i as int]]) == lv[i as int]);
        assert(line@ == lv[i as int]);
        let ghost before = out@.map_values(|s: String| s@);
        out.push(line);
        assert(out@.map_values(|s: String| s@) =~= before.push(lv[i as int]));
        assert(out@.map_values(|s: String| s@) =~= lv.subrange(start as int, i + 1));
        i = i + 1;
    }
    assert(lv.subrange(start as int, i as int) =~= recent_lines_text(content@, limit as nat));
    out
}

/// The date part of a log file's name `app-<date>.log`.
pub open spec fn log_name_date(name: Seq<char>) -> Option<Seq<char>> {
    if has_prefix(name, "app-"@) && has_suffix(name, ".log"@) && name.len() >= 8 {
        Some(name.subrange(4, name.len() - 4))
    } else {
        None
    }
}

/// The date part of a log file's name, if it is a dated log file.
pub fn dated_log_name(name: &str) -> (r: Option<String>)
    ensures
        r matches Some(d) ==> log_name_date(name@) == Some(d@),
        r is None ==> log_name_date(name@) is None,
{
    let cs = chars_of(name);
    let prefix: Vec<char> = vec!['a', 'p', 'p', '-'];
    proof {
        reveal_strlit("app-");
    }
    assert(prefix@ =~= "app-"@);
    if !crate::text::starts_with_chars(&cs, &prefix) || !ends_with_text(name, ".log") || cs.len() < 8 {
        return None;
    }
    let without_suffix = drop_last_chars(name, 4);
    let rest = chars_of(without_suffix.as_str());
    let mut out = String::new();
    let mut i: usize = 4;
    while i < rest.len()
        invariant
            4 <= i <= rest@.len(),
            rest@ == name@.subrange(0, name@.len() - 4),
            out@ == rest@.subrange(4, i as int),
        decreases rest@.len() - i,
    {
        crate::text::push_char(&mut out, rest[i]);
        assert(out@ =~= rest@.subrange(4, i + 1));
        i = i + 1;
    }
    assert(out@ =~= name@.subrange(4, name@.len() - 4));
    Some(out)
}

/// Date `a` comes before date `b`.
pub open spec fn date_before(a: (i32, u32, u32), b: (i32, u32, u32)) -> bool {
    a.0 < b.0 || (a.0 == b.0 && (a.1 < b.1 || (a.1 == b.1 && a.2 < b.2)))
}

/// A log file is expired when its name is `app-<date>.log`, the date is
/// valid, and it comes before the cutoff.
pub open spec fn expired_log(name: Seq<char>, cutoff: (i32, u32, u32)) -> bool {
    match log_name_date(name) {
        Some(d) => match parsed_ymd(d) {
            Some(date) => date_before(date, cutoff),
            None => false,
        },
        None => false,
    }
}

/// Whether the log file `name` is older than the cutoff date.
pub fn is_expired_log(name: &str, cutoff: (i32, u32, u32)) -> (r: bool)
    ensures
        r == expired_log(name@, cutoff),
{
    match dated_log_name(name) {
        Some(d) => match parse_ymd(d.as_str()) {
            Some(date) => date.0 < cutoff.0 || (date.0 == cutoff.0 && (date.1 < cutoff.1 || (date.1
                == cutoff.1 && date.2 < cutoff.2))),
            None => false,
        },
        None => false,
    }
}

/// How many days of logs are kept when the caller does not say.
pub const DEFAULT_DAYS_TO_KEEP: u64 = 7;

/// The date before which log files are removed: `days_to_keep` days ago, or
/// `DEFAULT_DAYS_TO_KEEP`; `None` when that date is out of range.
pub fn log_cutoff_date(days_to_keep: Option<u64>) -> (r: Option<(i32, u32, u32)>)
    ensures
        match days_to_keep {
            Some(d) => d > i64::MAX ==> r is None,
            None => true,
        },
{
    let days: u64 = match days_to_keep {
        Some(d) => d,
        None => DEFAULT_DAYS_TO_KEEP,
    };
    if days > 9223372036854775807u64 {
        return None;
    }
    date_days_ago(days as i64)
}

} // verus!
