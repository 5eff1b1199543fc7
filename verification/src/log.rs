//! The log of the service: its lines, its size and its end.

use crate::number;
use crate::text;
use chrono::{DateTime, Local};
use std::time::SystemTime;
use vstd::prelude::*;
use vstd::utf8::*;

verus! {

/// The size in bytes beyond which the log is put away.
pub const MAX_LOG_BYTES: u64 = 2097152;

/// How much of the end of the log is searched for the cause of a failure.
pub const LOG_TAIL_BYTES: u64 = 65536;

/// How much of the end of the log a diagnosis reads.
pub const DIAGNOSTIC_TAIL_BYTES: u64 = 8192;

/// `s` is a time of day: hours, minutes and seconds, two digits each.
pub open spec fn is_time_of_day(s: Seq<char>) -> bool {
    &&& s.len() == 8
    &&& s[2] == ':'
    &&& s[5] == ':'
    &&& number::all_digits(s.subrange(0, 2) + s.subrange(3, 5) + s.subrange(6, 8))
    &&& number::digits_value(s.subrange(0, 2)) < 24
    &&& number::digits_value(s.subrange(3, 5)) < 60
    &&& number::digits_value(s.subrange(6, 8)) <= 60
}

/// A line of the launcher in the log, without its line feed.
pub open spec fn entry_text(stamp: Seq<char>, text: Seq<char>) -> Seq<char> {
    "dsh-desktop: ["@ + stamp + "] "@ + text
}

/// What is logged when the service is launched.
pub open spec fn launch_text(home: Option<Seq<char>>, workspace: Option<Seq<char>>) -> Seq<char> {
    "DSH_HOME="@ + (match home {
        Some(path) => path,
        None => "(默认 ~/.dsh)"@,
    }) + " workspace="@ + (match workspace {
        Some(path) => path,
        None => "(继承进程目录)"@,
    })
}

/// The data directory that dsh uses: the configured one, which it is handed, else
/// the one that it finds in the environment.
pub open spec fn home_in_use<T>(configured: Option<T>, from_environment: Option<T>) -> Option<T> {
    match configured {
        Some(home) => Some(home),
        None => from_environment,
    }
}

/// The view of a text that may be missing.
pub open spec fn seen(text: Option<&str>) -> Option<Seq<char>> {
    match text {
        Some(text) => Some(text@),
        None => None,
    }
}

/// `chrono::DateTime::<Local>::from` the present `SystemTime`, and
/// `DateTime::format` with `%H:%M:%S`: the local time of day. Nothing is said of
/// which time it is.
///
/// The call takes no argument, but there are states of the machine in which it
/// panics: a clock that shows a year beyond those of chrono, some 262000 before
/// or after our era; a time zone, from `TZ` or from a zone file, whose offset is
/// a day or more, as that of `TZ=AAA-23:30BBB,M3.2.0,M11.1.0` is in summer; on
/// Windows, a query for the time zone that fails.
#[verifier::external_body]
fn now_stamp() -> (stamp: String)
    ensures
        is_time_of_day(stamp@),
{
    DateTime::<Local>::from(SystemTime::now()).format("%H:%M:%S").to_string()
}

/// A line of the launcher in the log, without its line feed.
pub fn log_entry(stamp: &str, text: &str) -> (line: String)
    ensures
        line@ == entry_text(stamp@, text@),
{
    let mut line = "dsh-desktop: [".to_owned();
    line.append(stamp);
    line.append("] ");
    line.append(text);
    line
}

/// A line of the launcher in the log, with the time of day.
pub fn log_line(text: &str) -> (line: String)
    ensures
        exists|stamp: Seq<char>|
            is_time_of_day(stamp) && line@ == #[trigger] entry_text(stamp, text@),
{
    let stamp = now_stamp();
    log_entry(stamp.as_str(), text)
}

/// The data directory that dsh uses: the configured one, else the one from the
/// environment; `None` if it uses the default.
pub fn dsh_home_in_use<T>(configured: Option<T>, from_environment: Option<T>) -> (home: Option<T>)
    ensures
        home == home_in_use(configured, from_environment),
{
    match configured {
        Some(home) => Some(home),
        None => from_environment,
    }
}

/// What is logged when the service is launched with these directories: the ones
/// that it uses.
pub fn launch_note(
    configured_home: Option<&str>,
    environment_home: Option<&str>,
    workspace: Option<&str>,
) -> (note: String)
    ensures
        note@ == launch_text(
            home_in_use(seen(configured_home), seen(environment_home)),
            seen(workspace),
        ),
{
    let mut note = "DSH_HOME=".to_owned();
    match dsh_home_in_use(configured_home, environment_home) {
        Some(path) => note.append(path),
        None => note.append("(默认 ~/.dsh)"),
    }
    note.append(" workspace=");
    match workspace {
        Some(path) => note.append(path),
        None => note.append("(继承进程目录)"),
    }
    note
}

/// What the new log begins with when the old one was put away.
pub fn rotation_note() -> (note: String)
    ensures
        note@ == "日志超过 2MB，旧日志已轮转为 dsh-web.log.old"@,
{
    "日志超过 2MB，旧日志已轮转为 dsh-web.log.old".to_owned()
}

/// A log of this many bytes has to be put away.
pub open spec fn is_too_large(bytes: u64) -> bool {
    bytes > 2 * 1024 * 1024
}

/// Where the last `max_bytes` of a log of `size` bytes begin.
pub open spec fn tail_start(size: u64, max_bytes: u64) -> int {
    if size > max_bytes {
        size - max_bytes
    } else {
        0
    }
}

/// Whether a log of this many bytes has to be put away before more is written.
pub fn needs_rotation(bytes: u64) -> (rotate: bool)
    ensures
        rotate == is_too_large(bytes),
{
    bytes > MAX_LOG_BYTES
}

/// Where the last `max_bytes` of a log of `size` bytes begin.
pub fn tail_offset(size: u64, max_bytes: u64) -> (offset: u64)
    ensures
        offset == tail_start(size, max_bytes),
{
    if size > max_bytes {
        size - max_bytes
    } else {
        0
    }
}

/// The end of the log as text: what the last bytes of it stand for, or nothing
/// if they could not be read.
pub fn read_log_tail(bytes: Option<&[u8]>) -> (text: String)
    ensures
        text@ == match bytes {
            Some(bytes) => text::lossy_text(bytes@),
            None => Seq::<char>::empty(),
        },
        bytes matches Some(bytes) ==> valid_utf8(bytes@) ==> text@ == decode_utf8(bytes@),
{
    match bytes {
        Some(bytes) => text::decode_lossy(bytes),
        None => String::new(),
    }
}


/// A log is written to only while it has at most two MiB: a larger one is put away,
/// and a smaller one never.
pub proof fn law_log_stays_within_two_mebibytes(bytes: u64, more: u64)
    ensures
        !is_too_large(bytes) <==> bytes <= 2097152,
        is_too_large(bytes) && bytes <= more ==> is_too_large(more),
{
}

/// The end of a log is its last bytes: as many as are asked for, or all of them.
pub proof fn law_tail_is_the_last_bytes(size: u64, max_bytes: u64)
    ensures
        0 <= tail_start(size, max_bytes) <= size,
        size - tail_start(size, max_bytes) <= max_bytes,
        size >= max_bytes ==> size - tail_start(size, max_bytes) == max_bytes,
        size <= max_bytes ==> tail_start(size, max_bytes) == 0,
{
}

/// The log names the configured data directory, whatever the environment holds, and
/// that of the environment only without it.
pub proof fn law_home_in_use_by_precedence<T>(configured: T, from_environment: Option<T>)
    ensures
        home_in_use(Some(configured), from_environment) == Some(configured),
        home_in_use(None, from_environment) == from_environment,
{
}

/// A line of the log ends with what was to be logged and holds the time before it;
/// two lines of the same moment are the same only if their texts are.
pub proof fn law_entries_hold_their_texts(stamp: Seq<char>, one: Seq<char>, other: Seq<char>)
    ensures
        one.is_suffix_of(entry_text(stamp, one)),
        text::contains_text(entry_text(stamp, one), "["@ + stamp + "]"@),
        entry_text(stamp, one) == entry_text(stamp, other) ==> one == other,
{
    let all = entry_text(stamp, one);
    let same = entry_text(stamp, other);
    let n = "dsh-desktop: ["@.len() + stamp.len() + "] "@.len();
    assert(all.skip(n as int) =~= one);
    assert(same.skip(n as int) =~= other);
    assert(all.subrange(all.len() - one.len(), all.len() as int) =~= one);
    reveal_strlit("dsh-desktop: [");
    reveal_strlit("] ");
    reveal_strlit("[");
    reveal_strlit("]");
    let needle = "["@ + stamp + "]"@;
    assert(all.subrange(13, 13int + needle.len()) =~= needle);
    assert(text::occurs_at(all, needle, 13));
}

/// What is logged at a launch names the directories that are used, each behind its
/// own name, and tells where none is set.
pub proof fn law_launch_names_its_directories(home: Seq<char>, workspace: Seq<char>)
    ensures
        launch_text(Some(home), Some(workspace)) == "DSH_HOME="@ + home + " workspace="@ + workspace,
        launch_text(None, Some(workspace)) == "DSH_HOME="@ + "(默认 ~/.dsh)"@ + " workspace="@
            + workspace,
        launch_text(Some(home), None) == "DSH_HOME="@ + home + " workspace="@ + "(继承进程目录)"@,
        launch_text(None, None) == "DSH_HOME="@ + "(默认 ~/.dsh)"@ + " workspace="@
            + "(继承进程目录)"@,
{
}

}
