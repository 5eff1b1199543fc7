//! Replacing this instance by a fresh one, once.

use crate::number;
use crate::text;
use std::time::UNIX_EPOCH;
use vstd::prelude::*;
use vstd::utf8::*;

verus! {

/// How old the marker of a replaced instance may be, in seconds.
pub const MARKER_MAX_AGE_SECS: i64 = 60;

/// The marker holds a moment that is no more than a minute before `now`.
pub open spec fn is_fresh(marker: Seq<char>, now: int) -> bool {
    match number::integer_of(text::trimmed(marker)) {
        Some(stamp) => i64::MIN <= stamp <= i64::MAX && now - stamp <= 60,
        None => false,
    }
}

/// Seconds since 1970 as they are compared: `None` is a moment before 1970.
pub open spec fn unix_seconds_of(elapsed: Option<u64>) -> i64 {
    match elapsed {
        Some(seconds) => if seconds <= i64::MAX {
            seconds as i64
        } else {
            i64::MAX
        },
        None => 0,
    }
}

/// `std::time::SystemTime::elapsed` of the Unix epoch: the whole seconds since
/// then by the clock of the system, or `None` if that clock shows a moment before
/// it. Nothing is said of which moment it shows.
#[verifier::external_body]
fn since_epoch() -> Option<u64> {
    UNIX_EPOCH.elapsed().ok().map(|elapsed| elapsed.as_secs())
}

/// Seconds since 1970 as they are compared: none before 1970, and no more than
/// fit.
pub fn unix_seconds(elapsed: Option<u64>) -> (seconds: i64)
    ensures
        seconds == unix_seconds_of(elapsed),
{
    match elapsed {
        Some(seconds) => if seconds <= 9223372036854775807u64 {
            seconds as i64
        } else {
            i64::MAX
        },
        None => 0,
    }
}

/// Seconds since 1970.
pub fn unix_now() -> (seconds: i64)
    ensures
        seconds >= 0,
{
    unix_seconds(since_epoch())
}

/// What the marker holds that is left at this moment.
pub fn marker_text(now: i64) -> (marker: String)
    ensures
        marker@ == number::integer_text(now as int),
{
    number::integer(now)
}

/// Whether a marker was found that was left no more than a minute before `now`.
/// An older one was left for an instance that never came up.
pub fn marker_is_fresh(marker: Option<&str>, now: i64) -> (fresh: bool)
    ensures
        fresh == match marker {
            Some(marker) => is_fresh(marker@, now as int),
            None => false,
        },
{
    match marker {
        Some(marker) => {
            let chars = text::chars_of(marker);
            let (from, to) = text::trim_bounds(&chars);
            match number::parse_i64(vstd::slice::slice_subrange(&chars, from, to)) {
                Some(stamp) => (now as i128) - (stamp as i128) <= MARKER_MAX_AGE_SECS as i128,
                None => false,
            }
        },
        None => false,
    }
}

/// Whether this instance was started in place of another one, as the marker
/// tells that was found.
pub fn consume_relaunch_marker(marker: Option<&str>) -> (relaunched: bool)
    ensures
        marker is None ==> !relaunched,
        marker matches Some(marker) ==> exists|now: int|
            0 <= now <= i64::MAX && relaunched == #[trigger] is_fresh(marker@, now),
{
    let now = unix_now();
    let fresh = marker_is_fresh(marker, now);
    assert(marker matches Some(marker) ==> fresh == is_fresh(marker@, now as int));
    fresh
}

proof fn lemma_integer_text_is_trimmed(i: int)
    ensures
        text::trimmed(number::integer_text(i)) == number::integer_text(i),
{
    reveal_strlit("-");
    let s = number::integer_text(i);
    let digits = if i < 0 {
        number::natural_text((-i) as nat)
    } else {
        number::natural_text(i as nat)
    };
    number::lemma_natural_text(
        if i < 0 {
            (-i) as nat
        } else {
            i as nat
        },
    );
    assert(number::is_digit(digits[0]));
    assert(number::is_digit(digits[digits.len() - 1]));
    assert(s.last() == digits.last());
    assert(!text::is_white_space(s[0]));
    assert(!text::is_white_space(s.last()));
    text::lemma_run_len(s, text::white(), 0);
    assert(s.skip(0) =~= s);
    text::lemma_tail_len(s, text::white(), 0);
    assert(s.take(s.len() as int) =~= s);
}

/// A marker is honoured for a minute: one left at `stamp` is fresh at `now` if
/// and only if no more than a minute has passed.
pub proof fn law_marker_is_honoured_for_a_minute(stamp: int, now: int)
    requires
        i64::MIN <= stamp <= i64::MAX,
    ensures
        is_fresh(number::integer_text(stamp), now) <==> now - stamp <= 60,
{
    lemma_integer_text_is_trimmed(stamp);
    number::law_integer_round_trip(stamp);
}

/// The name of a process in the answer of the system, if it gives one.
pub open spec fn name_in(answer: Seq<char>) -> Option<Seq<char>> {
    if text::trimmed(answer).len() == 0 {
        None
    } else {
        Some(text::trimmed(answer))
    }
}

/// The view of a name that may be missing.
pub open spec fn seen(name: Option<String>) -> Option<Seq<char>> {
    match name {
        Some(name) => Some(name@),
        None => None,
    }
}

/// The name of the process that started this one, as what PowerShell has written
/// gives it.
pub fn parent_process_name(output: &[u8]) -> (name: Option<String>)
    ensures
        seen(name) == name_in(text::lossy_text(output@)),
        valid_utf8(output@) ==> seen(name) == name_in(decode_utf8(output@)),
{
    let answer = text::decode_lossy(output);
    process_name(answer.as_str())
}

/// The name of a process in the answer of the system, if it gives one.
pub fn process_name(answer: &str) -> (name: Option<String>)
    ensures
        seen(name) == name_in(answer@),
{
    let name = text::trim(answer);
    if name.as_str().is_empty() {
        None
    } else {
        Some(name)
    }
}

/// Whether the process of this name is the installer. What it starts itself does
/// not find its modules, so such an instance is replaced at once.
pub fn is_installer(parent: &str) -> (installer: bool)
    ensures
        installer == (text::ascii_lowercase(parent@) == "msiexec"@),
{
    let lower = text::lower_chars(parent);
    let name = text::chars_of("msiexec");
    text::same_chars(&lower, &name)
}

/// The question to PowerShell for the name of the process that started `pid`.
pub open spec fn parent_question(pid: u32) -> Seq<char> {
    "$p=(Get-CimInstance Win32_Process -Filter 'ProcessId="@ + number::natural_text(
        pid as nat,
    )
        + "').ParentProcessId; (Get-Process -Id $p -ErrorAction SilentlyContinue).ProcessName"@
}

/// The question to PowerShell for the name of the process that started `pid`.
pub fn parent_query(pid: u32) -> (script: String)
    ensures
        script@ == parent_question(pid),
{
    let mut script = "$p=(Get-CimInstance Win32_Process -Filter 'ProcessId=".to_owned();
    script.append(number::natural(pid as u64).as_str());
    script.append(
        "').ParentProcessId; (Get-Process -Id $p -ErrorAction SilentlyContinue).ProcessName",
    );
    script
}

/// The request to PowerShell to have the system start the program.
pub open spec fn start_request(program: Seq<char>) -> Seq<char> {
    "$r = Invoke-CimMethod -ClassName Win32_Process -MethodName Create -Arguments @{CommandLine='\""@
        + program + "\"'}; if ($r -and $r.ReturnValue -eq 0) { exit 0 } else { exit 1 }"@
}

/// The request to PowerShell to have the system start the program.
pub fn relaunch_script(program: &str) -> (script: String)
    ensures
        script@ == start_request(program@),
{
    let mut script =
        "$r = Invoke-CimMethod -ClassName Win32_Process -MethodName Create -Arguments @{CommandLine='\"".to_owned();
    script.append(program);
    script.append("\"'}; if ($r -and $r.ReturnValue -eq 0) { exit 0 } else { exit 1 }");
    script
}

/// The arguments with which PowerShell runs the script.
pub fn powershell_args(script: &str) -> (args: Vec<String>)
    ensures
        crate::place::texts(args@) == seq![
            "-NoProfile"@,
            "-NonInteractive"@,
            "-Command"@,
            script@,
        ],
{
    let mut args: Vec<String> = Vec::new();
    args.push("-NoProfile".to_owned());
    args.push("-NonInteractive".to_owned());
    args.push("-Command".to_owned());
    args.push(script.to_owned());
    assert(crate::place::texts(args@) =~= seq![
        "-NoProfile"@,
        "-NonInteractive"@,
        "-Command"@,
        script@,
    ]);
    args
}

/// What is logged while the instance is replaced.
#[derive(Clone, Copy, Debug, PartialEq, Eq, Structural)]
pub enum Note {
    Parent,
    StartedByInstaller,
    Because,
    Target,
    Failed,
    Leaving,
}

/// The line in the log.
pub open spec fn note_words(note: Note, detail: Seq<char>) -> Seq<char> {
    match note {
        Note::Parent => "启动父进程："@ + detail,
        Note::StartedByInstaller => "检测到由安装器直接启动：立即重启为干净实例"@,
        Note::Because =>
            "启动失败原因为模块解析异常：将自动重启程序（等效于关闭后重新打开）"@,
        Note::Target => "自动重启：目标程序 "@ + detail,
        Note::Failed => "自动重启失败：WMI 拉起新实例失败，保持后台自动重试"@,
        Note::Leaving => "自动重启：已请求 WMI 拉起新实例，本进程即将退出"@,
    }
}

/// The line in the log; `detail` is the name of the parent process or the path
/// of the program.
pub fn note_text(note: Note, detail: &str) -> (text: String)
    ensures
        text@ == note_words(note, detail@),
{
    match note {
        Note::Parent => {
            let mut text = "启动父进程：".to_owned();
            text.append(detail);
            text
        },
        Note::StartedByInstaller => "检测到由安装器直接启动：立即重启为干净实例".to_owned(),
        Note::Because =>
            "启动失败原因为模块解析异常：将自动重启程序（等效于关闭后重新打开）".to_owned(),
        Note::Target => {
            let mut text = "自动重启：目标程序 ".to_owned();
            text.append(detail);
            text
        },
        Note::Failed => "自动重启失败：WMI 拉起新实例失败，保持后台自动重试".to_owned(),
        Note::Leaving => "自动重启：已请求 WMI 拉起新实例，本进程即将退出".to_owned(),
    }
}

/// Something to be done to replace the instance.
#[derive(Clone, Copy, Debug, PartialEq, Eq, Structural)]
pub enum Effect {
    /// Leave the marker, with the present moment.
    LeaveMarker,
    Log(Note),
    SetStatus,
    /// Have the system start the program.
    StartProgram,
    /// Begin to replace the instance.
    Replace,
    Exit,
}

/// How the instance is replaced.
pub open spec fn replacement(program_known: bool) -> Seq<Effect> {
    if program_known {
        seq![
            Effect::LeaveMarker,
            Effect::Log(Note::Because),
            Effect::Log(Note::Target),
            Effect::SetStatus,
            Effect::StartProgram,
        ]
    } else {
        seq![]
    }
}

/// How the instance is replaced, if the path of its program is known. The marker
/// is left first: without it the fresh instance might be replaced in turn.
pub fn relaunch_self(program_known: bool) -> (effects: Vec<Effect>)
    ensures
        effects@ == replacement(program_known),
{
    if program_known {
        vec![
            Effect::LeaveMarker,
            Effect::Log(Note::Because),
            Effect::Log(Note::Target),
            Effect::SetStatus,
            Effect::StartProgram,
        ]
    } else {
        Vec::new()
    }
}

/// How it goes on when the program was to be started.
pub open spec fn after_start(ok: bool) -> Seq<Effect> {
    if ok {
        seq![Effect::Log(Note::Leaving), Effect::Exit]
    } else {
        seq![Effect::Log(Note::Failed)]
    }
}

/// How it goes on, by whether the system has started the program: this instance
/// leaves only if it has.
pub fn program_started(ok: bool) -> (effects: Vec<Effect>)
    ensures
        effects@ == after_start(ok),
{
    if ok {
        vec![Effect::Log(Note::Leaving), Effect::Exit]
    } else {
        vec![Effect::Log(Note::Failed)]
    }
}

/// The name of the process that started this instance is to be asked for.
pub open spec fn parent_matters(os: Seq<char>, relaunched: bool) -> bool {
    os == "windows"@ && !relaunched
}

/// Whether to ask for the name of the process that started this instance: on
/// Windows, unless it has itself replaced another one.
pub fn asks_for_parent(os: &str, relaunched: bool) -> (asks: bool)
    ensures
        asks == parent_matters(os@, relaunched),
{
    text::same_text(os, "windows") && !relaunched
}

/// What follows from the name of the process that started this instance.
pub open spec fn after_parent(relaunched: bool, parent: Option<Seq<char>>) -> Seq<Effect> {
    match parent {
        Some(name) if !relaunched => if text::ascii_lowercase(name) == "msiexec"@ {
            seq![
                Effect::Log(Note::Parent),
                Effect::Log(Note::StartedByInstaller),
                Effect::Replace,
            ]
        } else {
            seq![Effect::Log(Note::Parent)]
        },
        _ => seq![],
    }
}

/// What follows when the name of the process that started this instance is known,
/// or could not be learned: one that the installer has started is replaced, unless
/// it has itself replaced another one.
pub fn parent_known(relaunched: bool, parent: Option<&str>) -> (effects: Vec<Effect>)
    ensures
        effects@ == after_parent(
            relaunched,
            match parent {
                Some(name) => Some(name@),
                None => None,
            },
        ),
{
    match parent {
        Some(name) if !relaunched => if is_installer(name) {
            vec![
                Effect::Log(Note::Parent),
                Effect::Log(Note::StartedByInstaller),
                Effect::Replace,
            ]
        } else {
            vec![Effect::Log(Note::Parent)]
        },
        _ => Vec::new(),
    }
}

/// The line on the startup screen while the instance is replaced.
pub fn relaunch_status() -> (text: String)
    ensures
        text@ == "环境异常，正在自动重启程序…"@,
{
    "环境异常，正在自动重启程序…".to_owned()
}


/// The program is started if and only if its path is known, and only after the
/// marker was left.
pub proof fn law_marker_is_left_before_the_start(program_known: bool)
    ensures
        replacement(program_known).contains(Effect::StartProgram) <==> program_known,
        program_known ==> replacement(program_known)[0] == Effect::LeaveMarker
            && replacement(program_known).last() == Effect::StartProgram,
        !program_known ==> replacement(program_known).len() == 0,
        !replacement(program_known).contains(Effect::Exit),
{
    let all = replacement(program_known);
    if program_known {
        assert(all[4] == Effect::StartProgram);
    }
}

/// This instance leaves if and only if the fresh one was started, and that it was
/// not is logged.
pub proof fn law_instance_leaves_for_a_fresh_one(ok: bool)
    ensures
        after_start(ok).contains(Effect::Exit) <==> ok,
        after_start(ok).contains(Effect::Log(Note::Failed)) <==> !ok,
        after_start(ok).contains(Effect::Log(Note::Leaving)) <==> ok,
{
    let all = after_start(ok);
    assert(all[0] is Log);
    if ok {
        assert(all[1] == Effect::Exit);
    }
}

/// An instance is replaced at its beginning if and only if the installer started
/// it, however its name is written, and it has not itself replaced another one. A
/// parent that is known is logged.
pub proof fn law_instance_of_the_installer_is_replaced(relaunched: bool, parent: Option<Seq<char>>)
    ensures
        after_parent(relaunched, parent).contains(Effect::Replace) <==> !relaunched && parent
            is Some && text::ascii_lowercase(parent->0) == "msiexec"@,
        after_parent(relaunched, parent).contains(Effect::Log(Note::Parent)) <==> !relaunched
            && parent is Some,
        after_parent(relaunched, parent).contains(Effect::Log(Note::StartedByInstaller))
            <==> after_parent(relaunched, parent).contains(Effect::Replace),
        parent matches Some(name) ==> after_parent(relaunched, parent) == after_parent(
            relaunched,
            Some(text::ascii_lowercase(name)),
        ),
{
    let all = after_parent(relaunched, parent);
    if all.len() > 0 {
        assert(all.contains(all[0]));
    }
    if all.len() > 1 {
        assert(all.contains(all[1]) && all.contains(all[2]));
    }
    if parent is Some {
        text::law_small_letters_stay_small(parent->0);
    }
}

/// White space around the moment in a marker does not matter, and a marker without
/// a number is never fresh.
pub proof fn law_marker_is_read_without_white_space(
    before: Seq<char>,
    stamp: int,
    after: Seq<char>,
    now: int,
)
    requires
        i64::MIN <= stamp <= i64::MAX,
        forall|i: int| 0 <= i < before.len() ==> text::is_white_space(#[trigger] before[i]),
        forall|i: int| 0 <= i < after.len() ==> text::is_white_space(#[trigger] after[i]),
    ensures
        is_fresh(before + number::integer_text(stamp) + after, now) <==> now - stamp <= 60,
        forall|other: Seq<char>|
            number::integer_of(text::trimmed(other)) is None ==> !(#[trigger] is_fresh(other, now)),
{
    let s = number::integer_text(stamp);
    reveal_strlit("-");
    let digits = if stamp < 0 {
        (-stamp) as nat
    } else {
        stamp as nat
    };
    number::lemma_natural_text(digits);
    let text = number::natural_text(digits);
    assert(number::is_digit(text[0]));
    assert(number::is_digit(text[text.len() - 1]));
    assert(s.last() == text.last());
    assert(!text::is_white_space(s[0]) && !text::is_white_space(s.last()));
    text::law_trimming_leaves_the_inner_text(before, s, after);
    number::law_integer_round_trip(stamp);
}

/// The seconds since 1970 are those of the clock as far as they fit, and none
/// before; later moments have no fewer.
pub proof fn law_seconds_are_those_of_the_clock(early: u64, late: u64)
    requires
        early <= late,
    ensures
        early <= i64::MAX ==> unix_seconds_of(Some(early)) == early,
        0 == unix_seconds_of(None) <= unix_seconds_of(Some(early)) <= unix_seconds_of(Some(late)),
{
}

/// The name of a process is what stands between the white space, if anything does.
pub proof fn law_process_name_is_the_inner_text(
    before: Seq<char>,
    name: Seq<char>,
    after: Seq<char>,
)
    requires
        forall|i: int| 0 <= i < before.len() ==> text::is_white_space(#[trigger] before[i]),
        forall|i: int| 0 <= i < after.len() ==> text::is_white_space(#[trigger] after[i]),
        name.len() > 0 ==> !text::is_white_space(name[0]) && !text::is_white_space(name.last()),
    ensures
        name_in(before + name + after) == if name.len() > 0 {
            Some(name)
        } else {
            None
        },
{
    text::law_trimming_leaves_the_inner_text(before, name, after);
}


/// The parent is asked for on Windows only, and not by an instance that has replaced
/// another one: for that one nothing would follow.
pub proof fn law_parent_is_asked_for_if_it_matters(
    os: Seq<char>,
    relaunched: bool,
    parent: Option<Seq<char>>,
)
    ensures
        parent_matters("windows"@, false),
        parent_matters(os, relaunched) ==> os == "windows"@,
        os == "windows"@ && !parent_matters(os, relaunched) ==> after_parent(relaunched, parent).len()
            == 0,
{
}


/// The program that is to be started stands in the request, whole and in quotes, and
/// the process in the question by its number; others give another text.
pub proof fn law_requests_name_what_they_are_about(
    program: Seq<char>,
    other: Seq<char>,
    pid: u32,
    other_pid: u32,
)
    ensures
        text::contains_text(start_request(program), "'\""@ + program + "\"'"@),
        start_request(program) == start_request(other) ==> program == other,
        parent_question(pid) == parent_question(other_pid) ==> pid == other_pid,
{
    reveal_strlit(
        "$r = Invoke-CimMethod -ClassName Win32_Process -MethodName Create -Arguments @{CommandLine='\"",
    );
    reveal_strlit("\"'}; if ($r -and $r.ReturnValue -eq 0) { exit 0 } else { exit 1 }");
    reveal_strlit("'\"");
    reveal_strlit("\"'");
    let head =
        "$r = Invoke-CimMethod -ClassName Win32_Process -MethodName Create -Arguments @{CommandLine='\""@;
    let end = "\"'}; if ($r -and $r.ReturnValue -eq 0) { exit 0 } else { exit 1 }"@;
    let x = start_request(program);
    let y = start_request(other);
    let n = head.len() as int;
    assert(x.subrange(n, x.len() - end.len()) =~= program);
    assert(y.subrange(n, y.len() - end.len()) =~= other);
    let needle = "'\""@ + program + "\"'"@;
    assert(x.subrange(n - 2, n - 2 + needle.len()) =~= needle);
    assert(text::occurs_at(x, needle, n - 2));
    let front = "$p=(Get-CimInstance Win32_Process -Filter 'ProcessId="@;
    let back =
        "').ParentProcessId; (Get-Process -Id $p -ErrorAction SilentlyContinue).ProcessName"@;
    let v = parent_question(pid);
    let w = parent_question(other_pid);
    let m = front.len() as int;
    assert(v.subrange(m, v.len() - back.len()) =~= number::natural_text(pid as nat));
    assert(w.subrange(m, w.len() - back.len()) =~= number::natural_text(other_pid as nat));
    number::lemma_natural_text(pid as nat);
    number::lemma_natural_text(other_pid as nat);
}

/// The parent and the program are logged whole.
pub proof fn law_notes_tell_their_detail(detail: Seq<char>, other: Seq<char>)
    ensures
        note_words(Note::Parent, detail) == note_words(Note::Parent, other) ==> detail == other,
        note_words(Note::Target, detail) == note_words(Note::Target, other) ==> detail == other,
{
    let a = "启动父进程："@.len() as int;
    assert(note_words(Note::Parent, detail).skip(a) =~= detail);
    assert(note_words(Note::Parent, other).skip(a) =~= other);
    let b = "自动重启：目标程序 "@.len() as int;
    assert(note_words(Note::Target, detail).skip(b) =~= detail);
    assert(note_words(Note::Target, other).skip(b) =~= other);
}

}
