//! The run on another port after all attempts have failed, which tells a busy
//! port from a broken environment.

use crate::text;
use crate::waiting;
use vstd::prelude::*;

verus! {

/// How long the run lasts at most, in milliseconds.
pub const DIAGNOSTIC_TIMEOUT_MS: u64 = 60000;

/// How often it is looked at, in milliseconds.
pub const DIAGNOSTIC_POLL_MS: u64 = 500;

/// What is seen of the process.
#[derive(Clone, Copy, Debug, PartialEq, Eq, Structural)]
pub enum Seen {
    Exited,
    Running,
    Unknown,
}

/// What to do about it.
#[derive(Clone, Copy, Debug, PartialEq, Eq, Structural)]
pub enum Poll {
    /// Report why it has ended.
    ReportExit,
    /// End it and report that it ran.
    ReportRunning,
    /// End it and report that it could not be looked at.
    ReportUnknown,
    Sleep { millis: u64 },
}

/// The last of `lines` that satisfies `p`.
pub open spec fn last_line(lines: Seq<Seq<char>>, p: spec_fn(Seq<char>) -> bool) -> Option<Seq<char>>
    decreases lines.len(),
{
    if lines.len() == 0 {
        None
    } else if p(lines.last()) {
        Some(lines.last())
    } else {
        last_line(lines.drop_last(), p)
    }
}

/// The predicate "tells of an error".
pub open spec fn tells_error() -> spec_fn(Seq<char>) -> bool {
    |line: Seq<char>| text::contains_text(line, "Error"@)
}

/// The predicate "is the line in which the service gives its address".
pub open spec fn gives_address() -> spec_fn(Seq<char>) -> bool {
    |line: Seq<char>| "dsh web: http"@.is_prefix_of(line)
}

/// Why the run has ended, as far as the end of the log tells.
pub open spec fn exit_reason(tail: Seq<char>) -> Seq<char> {
    if text::contains_text(tail, "EADDRINUSE"@) {
        "失败：EADDRINUSE（端口冲突）"@
    } else if text::contains_text(tail, "Cannot find package"@) {
        "失败：Cannot find package（与正式启动相同的模块解析错误）"@
    } else {
        "失败："@ + match last_line(text::lines(tail), tells_error()) {
            Some(line) => text::trimmed(line),
            None => "未知错误"@,
        }
    }
}

/// What is reported of a run that did not end.
pub open spec fn running_report(tail: Seq<char>) -> Seq<char> {
    match last_line(text::lines(tail), gives_address()) {
        Some(line) => "成功（"@ + text::trimmed(line) + "），诊断进程已关闭"@,
        None => "成功（服务持续运行 60 秒），诊断进程已关闭"@,
    }
}

/// What follows from what is seen of the process `elapsed_ms` after it was
/// started.
pub open spec fn poll_of(seen: Seen, elapsed_ms: u64) -> Poll {
    match seen {
        Seen::Exited => Poll::ReportExit,
        Seen::Running => if elapsed_ms >= 60000 {
            Poll::ReportRunning
        } else {
            Poll::Sleep { millis: 500 }
        },
        Seen::Unknown => Poll::ReportUnknown,
    }
}

/// What to do about the process `elapsed_ms` after it was started.
pub fn run_port0_diagnostic(seen: Seen, elapsed_ms: u64) -> (poll: Poll)
    ensures
        poll == poll_of(seen, elapsed_ms),
{
    match seen {
        Seen::Exited => Poll::ReportExit,
        Seen::Running => if elapsed_ms >= DIAGNOSTIC_TIMEOUT_MS {
            Poll::ReportRunning
        } else {
            Poll::Sleep { millis: DIAGNOSTIC_POLL_MS }
        },
        Seen::Unknown => Poll::ReportUnknown,
    }
}

/// The arguments that make the service choose a free port.
pub fn port0_args() -> (args: Vec<&'static str>)
    ensures
        args@.len() == 2,
        args@[0]@ == "--port"@,
        args@[1]@ == "0"@,
{
    vec!["--port", "0"]
}

/// Whether the line tells of an error.
fn is_error_line(line: &[char]) -> (found: bool)
    ensures
        found == tells_error()(line@),
{
    let word = text::chars_of("Error");
    text::has(line, &word)
}

/// Whether the service gives its address in the line.
fn is_address_line(line: &[char]) -> (found: bool)
    ensures
        found == gives_address()(line@),
{
    let words = text::chars_of("dsh web: http");
    text::begins_with(line, &words)
}

/// The last line of `tail` that tells of an error, or in which the service gives
/// its address, without the white space around it.
fn last_trimmed_line(tail: &str, address: bool) -> (found: Option<String>)
    ensures
        match (
            found,
            last_line(
                text::lines(tail@),
                if address {
                    gives_address()
                } else {
                    tells_error()
                },
            ),
        ) {
            (Some(found), Some(line)) => found@ == text::trimmed(line),
            (None, None) => true,
            _ => false,
        },
{
    let ghost p = if address {
        gives_address()
    } else {
        tells_error()
    };
    let chars = text::chars_of(tail);
    let bounds = text::line_bounds(&chars);
    let ghost all = text::lines(tail@);
    let mut n: usize = bounds.len();
    assert(all.take(n as int) =~= all);
    while n > 0
        invariant
            chars@ == tail@,
            all == text::lines(tail@),
            p == if address {
                gives_address()
            } else {
                tells_error()
            },
            n <= bounds@.len(),
            bounds@.len() == all.len(),
            forall|i: int|
                0 <= i < bounds@.len() ==> {
                    let (from, to) = #[trigger] bounds@[i];
                    from <= to <= chars@.len() && chars@.subrange(from as int, to as int) == all[i]
                },
            last_line(all, p) == last_line(all.take(n as int), p),
        decreases n,
    {
        let (from, to) = bounds[n - 1];
        let line = vstd::slice::slice_subrange(&chars, from, to);
        assert(line@ == all[n - 1]);
        assert(all.take(n as int).last() == all[n - 1]);
        assert(all.take(n as int).drop_last() =~= all.take(n - 1));
        let hit = if address {
            is_address_line(line)
        } else {
            is_error_line(line)
        };
        if hit {
            return Some(text::trim(tail.substring_char(from, to)));
        }
        n -= 1;
    }
    None
}

/// Why the run has ended, as far as the end of the log tells.
pub fn exit_summary(tail: &str) -> (summary: String)
    ensures
        summary@ == exit_reason(tail@),
{
    if text::contains(tail, "EADDRINUSE") {
        "失败：EADDRINUSE（端口冲突）".to_owned()
    } else if text::contains(tail, "Cannot find package") {
        "失败：Cannot find package（与正式启动相同的模块解析错误）".to_owned()
    } else {
        let mut summary = "失败：".to_owned();
        match last_trimmed_line(tail, false) {
            Some(line) => summary.append(line.as_str()),
            None => summary.append("未知错误"),
        }
        summary
    }
}

/// What is reported of a run that did not end.
pub fn running_summary(tail: &str) -> (summary: String)
    ensures
        summary@ == running_report(tail@),
{
    match last_trimmed_line(tail, true) {
        Some(line) => {
            let mut summary = "成功（".to_owned();
            summary.append(line.as_str());
            summary.append("），诊断进程已关闭");
            summary
        },
        None => "成功（服务持续运行 60 秒），诊断进程已关闭".to_owned(),
    }
}

/// What is reported of a run that could not be started.
pub open spec fn not_started(error: Seq<char>) -> Seq<char> {
    "无法启动诊断进程："@ + error
}

/// What is reported of a run that could not be started.
pub fn not_started_summary(error: &str) -> (summary: String)
    ensures
        summary@ == not_started(error@),
{
    let mut summary = "无法启动诊断进程：".to_owned();
    summary.append(error);
    summary
}

/// What is reported of a run that could not be looked at.
pub open spec fn unknown(error: Seq<char>) -> Seq<char> {
    "诊断进程状态检查失败："@ + error
}

/// What is reported of a run that could not be looked at.
pub fn unknown_summary(error: &str) -> (summary: String)
    ensures
        summary@ == unknown(error@),
{
    let mut summary = "诊断进程状态检查失败：".to_owned();
    summary.append(error);
    summary
}

/// What is logged before the run.
pub fn begin_note() -> (note: String)
    ensures
        note@ == "额外诊断：以 --port 0 启动一次 dsh…"@,
{
    "额外诊断：以 --port 0 启动一次 dsh…".to_owned()
}

/// What is logged of the report.
pub open spec fn result_words(summary: Seq<char>) -> Seq<char> {
    "额外诊断(--port 0) 结果："@ + summary
}

/// What is logged of the report.
pub fn result_note(summary: &str) -> (note: String)
    ensures
        note@ == result_words(summary@),
{
    let mut note = "额外诊断(--port 0) 结果：".to_owned();
    note.append(summary);
    note
}

/// What is logged of a run that could not be looked at.
pub open spec fn unknown_words(error: Seq<char>) -> Seq<char> {
    "额外诊断(--port 0) 状态检查失败："@ + error
}

/// What is logged of a run that could not be looked at.
pub fn unknown_note(error: &str) -> (note: String)
    ensures
        note@ == unknown_words(error@),
{
    let mut note = "额外诊断(--port 0) 状态检查失败：".to_owned();
    note.append(error);
    note
}

/// The run comes to an end: if each look is at least the pause later than the one
/// before, at most 120 of them ask for another.
pub proof fn law_diagnosis_ends(seen: Seq<Seen>, moments: Seq<u64>, n: int)
    requires
        0 <= n < moments.len(),
        waiting::apart(moments, 500, n),
        poll_of(seen[n], moments[n]) is Sleep,
    ensures
        n < 120,
{
    waiting::lemma_time_passes(moments, 500, n);
}


/// The run is reported as soon as it has ended or cannot be looked at, whatever the
/// time, and after a minute in any case.
pub proof fn law_diagnosis_tells_what_is_seen(seen: Seen, elapsed_ms: u64)
    ensures
        poll_of(seen, elapsed_ms) == Poll::ReportExit <==> seen == Seen::Exited,
        poll_of(seen, elapsed_ms) == Poll::ReportUnknown <==> seen == Seen::Unknown,
        poll_of(seen, elapsed_ms) == Poll::ReportRunning <==> seen == Seen::Running && elapsed_ms
            >= 60 * 1000,
        poll_of(seen, elapsed_ms) == (Poll::Sleep { millis: 500 }) <==> seen == Seen::Running
            && elapsed_ms < 60 * 1000,
{
}

/// The last line of a kind is the one that none of its kind follows.
pub proof fn law_last_line_is_the_last_of_its_kind(
    lines: Seq<Seq<char>>,
    p: spec_fn(Seq<char>) -> bool,
    k: int,
)
    requires
        0 <= k < lines.len(),
        p(lines[k]),
        forall|j: int| k < j < lines.len() ==> !p(#[trigger] lines[j]),
    ensures
        last_line(lines, p) == Some(lines[k]),
    decreases lines.len(),
{
    if k < lines.len() - 1 {
        let front = lines.drop_last();
        assert(!p(lines[lines.len() - 1]));
        assert forall|j: int| k < j < front.len() implies !p(#[trigger] front[j]) by {
            assert(front[j] == lines[j]);
        }
        law_last_line_is_the_last_of_its_kind(front, p, k);
    }
}

/// There is no last line of a kind of which there is none.
pub proof fn law_no_line_of_its_kind(lines: Seq<Seq<char>>, p: spec_fn(Seq<char>) -> bool)
    requires
        forall|j: int| 0 <= j < lines.len() ==> !p(#[trigger] lines[j]),
    ensures
        last_line(lines, p) is None,
    decreases lines.len(),
{
    if lines.len() > 0 {
        let front = lines.drop_last();
        assert forall|j: int| 0 <= j < front.len() implies !p(#[trigger] front[j]) by {
            assert(front[j] == lines[j]);
        }
        law_no_line_of_its_kind(front, p);
    }
}

/// A busy port is reported wherever in the log it is told, before anything else;
/// then modules that were not found.
pub proof fn law_known_reasons_come_first(before: Seq<char>, after: Seq<char>)
    ensures
        exit_reason(before + "EADDRINUSE"@ + after) == "失败：EADDRINUSE（端口冲突）"@,
        !text::contains_text(before + "Cannot find package"@ + after, "EADDRINUSE"@)
            ==> exit_reason(before + "Cannot find package"@ + after)
            == "失败：Cannot find package（与正式启动相同的模块解析错误）"@,
{
    text::lemma_contains_between(before, "EADDRINUSE"@, after);
    text::lemma_contains_between(before, "Cannot find package"@, after);
}

/// Otherwise the last line that tells of an error is reported, without the white
/// space around it; if there is none, the reason is not known.
pub proof fn law_last_error_is_reported(tail: Seq<char>, k: int)
    requires
        !text::contains_text(tail, "EADDRINUSE"@),
        !text::contains_text(tail, "Cannot find package"@),
    ensures
        0 <= k < text::lines(tail).len() && text::contains_text(text::lines(tail)[k], "Error"@) && (
        forall|j: int|
            k < j < text::lines(tail).len() ==> !text::contains_text(
                #[trigger] text::lines(tail)[j],
                "Error"@,
            )) ==> exit_reason(tail) == "失败："@ + text::trimmed(text::lines(tail)[k]),
        (forall|j: int|
            0 <= j < text::lines(tail).len() ==> !text::contains_text(
                #[trigger] text::lines(tail)[j],
                "Error"@,
            )) ==> exit_reason(tail) == "失败："@ + "未知错误"@,
{
    let all = text::lines(tail);
    if 0 <= k < all.len() && text::contains_text(all[k], "Error"@) && (forall|j: int|
        k < j < all.len() ==> !text::contains_text(#[trigger] all[j], "Error"@)) {
        law_last_line_is_the_last_of_its_kind(all, tells_error(), k);
    }
    if forall|j: int| 0 <= j < all.len() ==> !text::contains_text(#[trigger] all[j], "Error"@) {
        law_no_line_of_its_kind(all, tells_error());
    }
}

/// A run that lasted is reported with the last line in which the service gave its
/// address, if there is one.
pub proof fn law_last_address_is_reported(tail: Seq<char>, k: int)
    ensures
        0 <= k < text::lines(tail).len() && "dsh web: http"@.is_prefix_of(text::lines(tail)[k]) && (
        forall|j: int|
            k < j < text::lines(tail).len() ==> !"dsh web: http"@.is_prefix_of(
                #[trigger] text::lines(tail)[j],
            )) ==> running_report(tail) == "成功（"@ + text::trimmed(text::lines(tail)[k])
            + "），诊断进程已关闭"@,
        (forall|j: int|
            0 <= j < text::lines(tail).len() ==> !"dsh web: http"@.is_prefix_of(
                #[trigger] text::lines(tail)[j],
            )) ==> running_report(tail)
            == "成功（服务持续运行 60 秒），诊断进程已关闭"@,
{
    let all = text::lines(tail);
    if 0 <= k < all.len() && "dsh web: http"@.is_prefix_of(all[k]) && (forall|j: int|
        k < j < all.len() ==> !"dsh web: http"@.is_prefix_of(#[trigger] all[j])) {
        law_last_line_is_the_last_of_its_kind(all, gives_address(), k);
    }
    if forall|j: int| 0 <= j < all.len() ==> !"dsh web: http"@.is_prefix_of(#[trigger] all[j]) {
        law_no_line_of_its_kind(all, gives_address());
    }
}


/// What went wrong, and what was reported, is told and logged whole.
pub proof fn law_reports_tell_their_detail(detail: Seq<char>, other: Seq<char>)
    ensures
        not_started(detail) == not_started(other) ==> detail == other,
        unknown(detail) == unknown(other) ==> detail == other,
        result_words(detail) == result_words(other) ==> detail == other,
        unknown_words(detail) == unknown_words(other) ==> detail == other,
{
    let a = "无法启动诊断进程："@.len() as int;
    assert(not_started(detail).skip(a) =~= detail && not_started(other).skip(a) =~= other);
    let b = "诊断进程状态检查失败："@.len() as int;
    assert(unknown(detail).skip(b) =~= detail && unknown(other).skip(b) =~= other);
    let c = "额外诊断(--port 0) 结果："@.len() as int;
    assert(result_words(detail).skip(c) =~= detail && result_words(other).skip(c) =~= other);
    let d = "额外诊断(--port 0) 状态检查失败："@.len() as int;
    assert(unknown_words(detail).skip(d) =~= detail && unknown_words(other).skip(d) =~= other);
}

}
