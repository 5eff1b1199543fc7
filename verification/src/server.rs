//! The process of the web service, and whose it is.

use crate::command;
use crate::number;
use crate::page;
use crate::place;
use crate::text;
use vstd::prelude::*;
use vstd::utf8::*;

verus! {

/// The process of the service, if one was started here, and whether the service
/// is ours. What was started here is ended with the launcher; a service that it
/// has attached to is left alone.
#[derive(Debug)]
pub struct ServerState<C> {
    child: Option<C>,
    owned: bool,
}

/// Something that happens to the process of the service.
pub enum Change<C> {
    /// A process was started here.
    Adopt(C),
    /// The process is to be ended.
    Release,
    /// The process is to be ended and another one started, if the service is ours.
    Restart,
}

/// What a change makes of the process and of whether the service is ours, and
/// which process it gives up to be ended.
pub open spec fn after<C>(state: (Option<C>, bool), change: Change<C>) -> (
    (Option<C>, bool),
    Option<C>,
) {
    match change {
        Change::Adopt(child) => ((Some(child), true), state.0),
        Change::Release => ((None, state.1), state.0),
        Change::Restart => if state.1 {
            ((None, true), state.0)
        } else {
            (state, None)
        },
    }
}

impl<C> View for ServerState<C> {
    type V = (Option<C>, bool);

    /// The process of the service that was started here, and whether the service
    /// was started here.
    closed spec fn view(&self) -> (Option<C>, bool) {
        (self.child, self.owned)
    }
}

impl<C> ServerState<C> {
    /// A process is held only of a service that was started here.
    #[verifier::type_invariant]
    spec fn process_is_owned(self) -> bool {
        self.child is Some ==> self.owned
    }

    /// No process, and nothing started here.
    pub fn new() -> (state: Self)
        ensures
            state@ == (None::<C>, false),
    {
        ServerState { child: None, owned: false }
    }

    /// Whether the service was started here.
    pub fn is_owned(&self) -> (owned: bool)
        ensures
            owned == self@.1,
            self@.0 is Some ==> owned,
    {
        proof {
            use_type_invariant(self);
        }
        self.owned
    }

    /// The process of the service that was started here.
    pub fn process(&self) -> (child: Option<&C>)
        ensures
            match child {
                Some(child) => self@.0 == Some(*child),
                None => self@.0 is None,
            },
    {
        match &self.child {
            Some(child) => Some(child),
            None => None,
        }
    }

    /// Takes over a process that was started here; gives up the one before.
    pub fn adopt(&mut self, child: C) -> (before: Option<C>)
        ensures
            (final(self)@, before) == after(old(self)@, Change::Adopt(child)),
    {
        self.owned = true;
        let mut before = Some(child);
        std::mem::swap(&mut self.child, &mut before);
        before
    }

    /// Gives up the process. There is none of a service that was not started
    /// here.
    pub fn release(&mut self) -> (child: Option<C>)
        ensures
            (final(self)@, child) == after(old(self)@, Change::Release),
            !old(self)@.1 ==> child is None,
    {
        proof {
            use_type_invariant(&*self);
        }
        let mut child = None;
        std::mem::swap(&mut self.child, &mut child);
        child
    }

    /// Begins to restart the service: gives up the process, which is to be ended
    /// before another one is started. `None`, and nothing is changed, if the
    /// service was not started here.
    pub fn restart_server(&mut self) -> (restart: Option<Option<C>>)
        ensures
            final(self)@ == after(old(self)@, Change::Restart).0,
            restart == (if old(self)@.1 {
                Some(after(old(self)@, Change::Restart).1)
            } else {
                None
            }),
    {
        if self.owned {
            Some(self.release())
        } else {
            None
        }
    }
}

/// The state after `changes`, and the processes that were given up to be ended.
pub open spec fn history<C>(changes: Seq<Change<C>>) -> ((Option<C>, bool), Seq<C>)
    decreases changes.len(),
{
    if changes.len() == 0 {
        ((None, false), seq![])
    } else {
        let (state, given_up) = history(changes.drop_last());
        let (next, child) = after(state, changes.last());
        (
            next,
            match child {
                Some(child) => given_up.push(child),
                None => given_up,
            },
        )
    }
}

/// The processes that were started here.
pub open spec fn started<C>(changes: Seq<Change<C>>) -> Seq<C>
    decreases changes.len(),
{
    if changes.len() == 0 {
        seq![]
    } else {
        match changes.last() {
            Change::Adopt(child) => started(changes.drop_last()).push(child),
            _ => started(changes.drop_last()),
        }
    }
}

/// Every process that was started here is given up to be ended, once and in
/// order, but for the last one as long as it is held. Nothing else is ever given
/// up: a service that was not started here is left alone.
pub proof fn law_own_processes_are_given_up<C>(changes: Seq<Change<C>>)
    ensures
        started(changes) == match (history(changes).0).0 {
            Some(child) => history(changes).1.push(child),
            None => history(changes).1,
        },
        (history(changes).0).1 == (started(changes).len() > 0),
    decreases changes.len(),
{
    if changes.len() > 0 {
        law_own_processes_are_given_up(changes.drop_last());
    }
}

/// The line tells that a process listens on the port.
pub open spec fn tells_listener(line: Seq<char>, port: u16) -> bool {
    text::contains_text(line, ":"@ + number::natural_text(port as nat) + " "@)
        && text::contains_text(line, "LISTENING"@)
}

/// The first of `lines`, from number `i` on, that tells of a listener on the port.
pub open spec fn listener_line(lines: Seq<Seq<char>>, port: u16, i: int) -> Option<Seq<char>>
    decreases lines.len() - i,
{
    if i < 0 || i >= lines.len() {
        None
    } else if tells_listener(lines[i], port) {
        Some(lines[i])
    } else {
        listener_line(lines, port, i + 1)
    }
}

/// The process that listens on the port, as the list of connections tells: the
/// number at the end of the first line that tells of a listener.
pub open spec fn listener_in(list: Seq<char>, port: u16) -> Option<u32> {
    match listener_line(text::lines(list), port, 0) {
        Some(line) => match number::unsigned_of(text::last_word(line)) {
            Some(pid) if pid <= u32::MAX => Some(pid as u32),
            _ => None,
        },
        None => None,
    }
}

/// The process that listens on the port, as the list of connections tells that
/// netstat has written.
pub fn tcp_listener_pid(output: &[u8], port: u16) -> (pid: Option<u32>)
    ensures
        pid == listener_in(text::lossy_text(output@), port),
        valid_utf8(output@) ==> pid == listener_in(decode_utf8(output@), port),
{
    let list = text::decode_lossy(output);
    listener_pid(list.as_str(), port)
}

/// The process that listens on the port, as the list of connections tells.
pub fn listener_pid(list: &str, port: u16) -> (pid: Option<u32>)
    ensures
        pid == listener_in(list@, port),
{
    let mut needle = ":".to_owned();
    needle.append(number::natural(port as u64).as_str());
    needle.append(" ");
    let needle = text::chars_of(needle.as_str());
    let listening = text::chars_of("LISTENING");
    let chars = text::chars_of(list);
    let bounds = text::line_bounds(&chars);
    let ghost all = text::lines(list@);
    let mut i: usize = 0;
    while i < bounds.len()
        invariant
            i <= bounds.len(),
            chars@ == list@,
            all == text::lines(list@),
            needle@ == ":"@ + number::natural_text(port as nat) + " "@,
            listening@ == "LISTENING"@,
            bounds@.len() == all.len(),
            forall|j: int|
                0 <= j < bounds@.len() ==> {
                    let (from, to) = #[trigger] bounds@[j];
                    from <= to <= chars@.len() && chars@.subrange(from as int, to as int) == all[j]
                },
            listener_line(all, port, 0) == listener_line(all, port, i as int),
        decreases bounds.len() - i,
    {
        let (from, to) = bounds[i];
        let line = vstd::slice::slice_subrange(&chars, from, to);
        assert(line@ == all[i as int]);
        if text::has(line, &needle) && text::has(line, &listening) {
            let (start, end) = text::last_word_bounds(line);
            let word = vstd::slice::slice_subrange(line, start, end);
            return number::parse_u32(word);
        }
        i += 1;
    }
    None
}

/// The process to end, besides our own, when the user stops the service: on
/// Windows the one that listens on its port, also if it was not started here.
pub open spec fn to_stop(os: Seq<char>, list: Option<Seq<char>>) -> Option<u32> {
    match list {
        Some(list) if os == "windows"@ => listener_in(list, page::PORT),
        _ => None,
    }
}

/// The list of connections that netstat has written, if it has.
pub open spec fn list_in(output: Option<&[u8]>) -> Option<Seq<char>> {
    match output {
        Some(bytes) => Some(text::lossy_text(bytes@)),
        None => None,
    }
}

/// How the service is stopped that the launcher has attached to: the arguments
/// with which taskkill ends it, by what netstat has written. `None` if there is
/// nothing to end.
pub fn stop_server_args(os: &str, output: Option<&[u8]>) -> (args: Option<Vec<String>>)
    ensures
        match args {
            Some(args) => to_stop(os@, list_in(output)) is Some && place::texts(args@)
                == command::kill_words(to_stop(os@, list_in(output))->0),
            None => to_stop(os@, list_in(output)) is None,
        },
{
    match output {
        Some(bytes) if text::same_text(os, "windows") => match tcp_listener_pid(bytes, page::PORT) {
            Some(pid) => Some(command::kill_tree_args(pid)),
            None => None,
        },
        _ => None,
    }
}

/// The arguments with which netstat lists the connections.
pub fn netstat_args() -> (args: Vec<&'static str>)
    ensures
        args@.len() == 3,
        args@[0]@ == "-ano"@,
        args@[1]@ == "-p"@,
        args@[2]@ == "tcp"@,
{
    vec!["-ano", "-p", "tcp"]
}


/// What becomes of the process: one that was started is held, and the one before is
/// given up; to stop and to restart give up the one that is held, but a service
/// that was not started here is neither restarted nor given up.
pub proof fn law_processes_are_held_until_given_up<C>(child: Option<C>, owned: bool, started: C)
    requires
        child is Some ==> owned,
    ensures
        after((child, owned), Change::Adopt(started)) == ((Some(started), true), child),
        (after((child, owned), Change::Release).0).0 is None,
        after((child, owned), Change::Release).1 == child,
        (after((child, owned), Change::Release).0).1 == owned,
        owned ==> (after((child, owned), Change::Restart).0).0 is None && after(
            (child, owned),
            Change::Restart,
        ).1 == child,
        !owned ==> after((child, owned), Change::Restart).1 is None,
        (after((child, owned), Change::Restart).0).1 == owned,
{
}

/// After the service was stopped nothing that was started here is left running:
/// every process was given up to be ended.
pub proof fn law_stopping_leaves_no_process<C>(changes: Seq<Change<C>>)
    ensures
        history(changes.push(Change::Release)).1 == started(changes),
        (history(changes.push(Change::Release)).0).0 is None,
{
    let all = changes.push(Change::Release);
    assert(all.drop_last() =~= changes);
    law_own_processes_are_given_up(changes);
}

proof fn lemma_listener_line(lines: Seq<Seq<char>>, port: u16, from: int, k: int)
    requires
        0 <= from <= k < lines.len(),
        tells_listener(lines[k], port),
        forall|j: int| from <= j < k ==> !tells_listener(#[trigger] lines[j], port),
    ensures
        listener_line(lines, port, from) == Some(lines[k]),
    decreases k - from,
{
    if from < k {
        assert(!tells_listener(lines[from], port));
        lemma_listener_line(lines, port, from + 1, k);
    }
}

proof fn lemma_no_listener_line(lines: Seq<Seq<char>>, port: u16, from: int)
    requires
        0 <= from,
        forall|j: int| from <= j < lines.len() ==> !tells_listener(#[trigger] lines[j], port),
    ensures
        listener_line(lines, port, from) is None,
    decreases lines.len() - from,
{
    if from < lines.len() {
        lemma_no_listener_line(lines, port, from + 1);
    }
}

/// The process is the one at the end of the first line that tells of a listener on
/// the port: a port, a colon before it and a space behind it, and `LISTENING`.
pub proof fn law_first_listener_is_taken(
    list: Seq<char>,
    port: u16,
    k: int,
    head: Seq<char>,
    pid: u32,
    tail: Seq<char>,
)
    requires
        0 <= k < text::lines(list).len(),
        text::contains_text(
            text::lines(list)[k],
            ":"@ + number::natural_text(port as nat) + " "@,
        ),
        text::contains_text(text::lines(list)[k], "LISTENING"@),
        forall|j: int|
            0 <= j < k ==> !text::contains_text(
                #[trigger] text::lines(list)[j],
                ":"@ + number::natural_text(port as nat) + " "@,
            ) || !text::contains_text(text::lines(list)[j], "LISTENING"@),
        text::lines(list)[k] == head + number::natural_text(pid as nat) + tail,
        head.len() > 0 && text::is_white_space(head.last()),
        forall|i: int| 0 <= i < tail.len() ==> text::is_white_space(#[trigger] tail[i]),
    ensures
        listener_in(list, port) == Some(pid),
{
    let lines = text::lines(list);
    assert forall|j: int| 0 <= j < k implies !tells_listener(#[trigger] lines[j], port) by {}
    lemma_listener_line(lines, port, 0, k);
    let word = number::natural_text(pid as nat);
    number::lemma_natural_text(pid as nat);
    assert forall|i: int| 0 <= i < word.len() implies !text::is_white_space(#[trigger] word[i]) by {
        assert(number::is_digit(word[i]));
    }
    text::law_last_word_stands_at_the_end(head, word, tail);
    assert(number::is_digit(word[0]));
}

/// Without such a line there is none.
pub proof fn law_no_listener_without_a_line(list: Seq<char>, port: u16)
    requires
        forall|j: int|
            0 <= j < text::lines(list).len() ==> !text::contains_text(
                #[trigger] text::lines(list)[j],
                ":"@ + number::natural_text(port as nat) + " "@,
            ) || !text::contains_text(text::lines(list)[j], "LISTENING"@),
    ensures
        listener_in(list, port) is None,
{
    let lines = text::lines(list);
    assert forall|j: int| 0 <= j < lines.len() implies !tells_listener(#[trigger] lines[j], port) by {}
    lemma_no_listener_line(lines, port, 0);
}

/// A service that the launcher has attached to is stopped on Windows, by the port
/// 3080, and nowhere else.
pub proof fn law_attached_service_is_stopped_by_its_port(os: Seq<char>, list: Seq<char>)
    ensures
        os == "windows"@ ==> to_stop(os, Some(list)) == listener_in(list, 3080),
        os != "windows"@ ==> to_stop(os, Some(list)) is None,
        to_stop(os, None) is None,
{
}

}
