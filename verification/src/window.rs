//! The windows and the tray icon: what the user asks for, and whether the main
//! window may be closed.

use crate::latch;
use crate::latch::Latch;
use crate::text;
use vstd::prelude::*;

verus! {

/// What an entry in the menu of the tray icon asks for.
#[derive(Clone, Copy, Debug, PartialEq, Eq, Structural)]
pub enum TrayCommand {
    Open,
    Settings,
    StopServer,
    Quit,
    Unknown,
}

/// What the entry with this name asks for.
pub open spec fn tray_command_of(id: Seq<char>) -> TrayCommand {
    if id == "open"@ {
        TrayCommand::Open
    } else if id == "settings"@ {
        TrayCommand::Settings
    } else if id == "stop-server"@ {
        TrayCommand::StopServer
    } else if id == "quit"@ {
        TrayCommand::Quit
    } else {
        TrayCommand::Unknown
    }
}

/// What the entry with this name asks for.
pub fn tray_command(id: &str) -> (command: TrayCommand)
    ensures
        command == tray_command_of(id@),
{
    if text::same_text(id, "open") {
        TrayCommand::Open
    } else if text::same_text(id, "settings") {
        TrayCommand::Settings
    } else if text::same_text(id, "stop-server") {
        TrayCommand::StopServer
    } else if text::same_text(id, "quit") {
        TrayCommand::Quit
    } else {
        TrayCommand::Unknown
    }
}

/// A window of this name is closed only after a look for sessions.
pub open spec fn is_guarded(label: Seq<char>) -> bool {
    label == "main"@
}

/// Whether a window is closed only after a look for sessions that still go on:
/// the main window is.
pub fn asks_before_closing(label: &str) -> (asks: bool)
    ensures
        asks == is_guarded(label@),
{
    text::same_text(label, "main")
}

/// Whether the answer of the page says that a session still goes on.
pub open spec fn says_busy(answer: Seq<char>) -> bool {
    text::trimmed(answer) == "true"@
}

/// What to do when the page has answered whether a session still goes on.
#[derive(Clone, Copy, Debug, PartialEq, Eq, Structural)]
pub enum CloseAction {
    Close,
    AskUser,
}

/// The user asks to close the window: whether the page is to be asked for
/// sessions that still go on. It is not while an earlier request is pending.
pub fn close_requested(pending: &mut Latch) -> (ask_page: bool)
    ensures
        (final(pending)@, ask_page) == latch::attempt(old(pending)@),
{
    pending.enter()
}

/// What follows from the answer of the page, and whether the request is still
/// pending then.
pub open spec fn after_page(answer: Seq<char>, pending: bool) -> (CloseAction, bool) {
    if says_busy(answer) {
        (CloseAction::AskUser, pending)
    } else {
        (CloseAction::Close, false)
    }
}

/// The page has answered: the window is closed at once, or the user is asked
/// because a session still goes on. In the latter case the request stays
/// pending.
pub fn confirm_close_if_busy(answer: &str, pending: &mut Latch) -> (action: CloseAction)
    ensures
        (action, final(pending)@) == after_page(answer@, old(pending)@),
{
    let inner = text::trim(answer);
    if text::same_text(inner.as_str(), "true") {
        CloseAction::AskUser
    } else {
        pending.leave();
        CloseAction::Close
    }
}

/// What follows from the answer of the user: whether the window is closed, and
/// whether the request is still pending.
pub open spec fn after_user(confirmed: bool) -> (bool, bool) {
    (confirmed, false)
}

/// The user has answered: whether the window is closed. The request is no longer
/// pending.
pub fn close_answered(confirmed: bool, pending: &mut Latch) -> (close: bool)
    ensures
        (close, final(pending)@) == after_user(confirmed),
{
    pending.leave();
    confirmed
}

/// The user asks for another startup: whether to begin one. None is begun while
/// one is under way.
pub fn retry_startup(pending: &mut Latch) -> (begin: bool)
    ensures
        (final(pending)@, begin) == latch::attempt(old(pending)@),
{
    pending.enter()
}

/// What the user is asked before a window is closed in which a session still
/// goes on: the question, its title, and the two answers.
pub fn close_question() -> (question: (&'static str, &'static str, &'static str, &'static str))
    ensures
        question.0@ == "当前有会话仍在进行中，关闭窗口会中断正在运行的任务。确定要关闭吗？"@,
        question.1@ == "会话仍在进行"@,
        question.2@ == "仍要关闭"@,
        question.3@ == "取消"@,
{
    (
        "当前有会话仍在进行中，关闭窗口会中断正在运行的任务。确定要关闭吗？",
        "会话仍在进行",
        "仍要关闭",
        "取消",
    )
}

/// The entries of the menu of the tray icon: the name and the label of each.
pub open spec fn tray_entries() -> Seq<(Seq<char>, Seq<char>)> {
    seq![
        ("open"@, "打开主界面"@),
        ("settings"@, "设置…"@),
        ("stop-server"@, "停止服务并退出"@),
        ("quit"@, "退出"@),
    ]
}

/// The entries of the menu of the tray icon: the name and the label of each.
pub fn tray_menu() -> (menu: Vec<(&'static str, &'static str)>)
    ensures
        menu@.len() == tray_entries().len(),
        forall|i: int|
            0 <= i < menu@.len() ==> (#[trigger] menu@[i]).0@ == tray_entries()[i].0
                && menu@[i].1@ == tray_entries()[i].1,
{
    vec![
        ("open", "打开主界面"),
        ("settings", "设置…"),
        ("stop-server", "停止服务并退出"),
        ("quit", "退出"),
    ]
}

/// The entries have different names.
proof fn lemma_entry_names()
    ensures
        "open"@ != "settings"@,
        "open"@ != "stop-server"@,
        "open"@ != "quit"@,
        "settings"@ != "stop-server"@,
        "settings"@ != "quit"@,
        "stop-server"@ != "quit"@,
{
    reveal_strlit("open");
    reveal_strlit("settings");
    reveal_strlit("stop-server");
    reveal_strlit("quit");
    assert("open"@.len() == 4 && "settings"@.len() == 8 && "stop-server"@.len() == 11);
    assert("open"@[0] == 'o' && "quit"@[0] == 'q');
}

/// A name asks for something if and only if it is that of an entry of the menu.
pub proof fn law_menu_names_every_command(id: Seq<char>)
    ensures
        tray_command_of(id) != TrayCommand::Unknown <==> exists|i: int|
            0 <= i < tray_entries().len() && (#[trigger] tray_entries()[i]).0 == id,
{
    lemma_entry_names();
    let entries = tray_entries();
    assert(entries[0].0 == "open"@ && entries[1].0 == "settings"@ && entries[2].0 == "stop-server"@
        && entries[3].0 == "quit"@);
}

/// No two entries of the menu ask for the same.
pub proof fn law_menu_entries_differ(i: int, j: int)
    requires
        0 <= i < j < tray_entries().len(),
    ensures
        tray_command_of(tray_entries()[i].0) != tray_command_of(tray_entries()[j].0),
{
    lemma_entry_names();
}


/// The user is asked before the window is closed if and only if the page says
/// `true`, whatever white space stands around it; then the request stays pending,
/// and else it does not.
pub proof fn law_user_is_asked_if_a_session_goes_on(
    before: Seq<char>,
    answer: Seq<char>,
    after: Seq<char>,
    pending: bool,
)
    requires
        forall|i: int| 0 <= i < before.len() ==> text::is_white_space(#[trigger] before[i]),
        forall|i: int| 0 <= i < after.len() ==> text::is_white_space(#[trigger] after[i]),
        answer.len() > 0 ==> !text::is_white_space(answer[0]) && !text::is_white_space(answer.last()),
    ensures
        after_page(before + answer + after, pending).0 == CloseAction::AskUser <==> answer == "true"@,
        answer == "true"@ ==> after_page(before + answer + after, pending).1 == pending,
        answer != "true"@ ==> !after_page(before + answer + after, pending).1,
{
    text::law_trimming_leaves_the_inner_text(before, answer, after);
}

/// Two requests to close the window are one: until the first is settled the second
/// is not taken up, and afterwards the next one is, whether the window was found
/// idle or the user has answered.
pub proof fn law_close_requests_do_not_pile_up(answer: Seq<char>, confirmed: bool)
    ensures
        ({
            let (pending, asked) = latch::attempt(false);
            &&& asked
            &&& !latch::attempt(pending).1
            &&& after_page(answer, pending).0 == CloseAction::AskUser ==> !latch::attempt(
                after_page(answer, pending).1,
            ).1
            &&& after_page(answer, pending).0 == CloseAction::Close ==> latch::attempt(
                after_page(answer, pending).1,
            ).1
            &&& latch::attempt(after_user(confirmed).1).1
            &&& after_user(confirmed).0 == confirmed
        }),
{
}


/// The main window, and no other, is closed only after a look for sessions.
pub proof fn law_main_window_alone_is_guarded(label: Seq<char>, other: Seq<char>)
    ensures
        is_guarded("main"@),
        is_guarded(label) && is_guarded(other) ==> label == other,
{
}


/// Each name asks for its own: the main window, the settings, the end of the service
/// and the end of the launcher.
pub proof fn law_names_ask_for_their_own(id: Seq<char>)
    ensures
        tray_command_of(id) == TrayCommand::Open <==> id == "open"@,
        tray_command_of(id) == TrayCommand::Settings <==> id == "settings"@,
        tray_command_of(id) == TrayCommand::StopServer <==> id == "stop-server"@,
        tray_command_of(id) == TrayCommand::Quit <==> id == "quit"@,
{
    lemma_entry_names();
}

}
