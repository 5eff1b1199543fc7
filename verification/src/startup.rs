//! The startup flow: bringing the web service up, or attaching to one that is
//! up already, with quick retries and a repair between them.

use crate::latch;
use crate::number;
use crate::text;
use vstd::prelude::*;

verus! {

/// How often one flow tries to bring the service up.
pub const MAX_STARTUP_ATTEMPTS: u32 = 5;

/// How waiting for the service ended.
#[derive(Clone, Copy, Debug, PartialEq, Eq, Structural)]
pub enum WaitOutcome {
    Ready,
    Exited,
    Timeout,
}

/// A line on the startup screen.
#[derive(Clone, Copy, Debug, PartialEq, Eq, Structural)]
pub enum Status {
    Preparing,
    Starting,
    Diagnosing,
    RoundFailed,
    Retrying { attempt: u32 },
}

/// A failure shown on the startup screen.
#[derive(Clone, Copy, Debug, PartialEq, Eq, Structural)]
pub enum Failure {
    NotSpawned,
    KeepsExiting,
    TimedOut,
    NotReplaced,
}

/// A line in the log about a round in the background.
#[derive(Clone, Copy, Debug, PartialEq, Eq, Structural)]
pub enum Note {
    NotSpawned,
    RoundFailed,
    TimedOut,
}

/// Something the flow wants done.
#[derive(Clone, Copy, Debug, PartialEq, Eq, Structural)]
pub enum Effect {
    /// Allow one cleanup of the npx entry in this flow.
    OpenNpxLatch,
    SetStatus(Status),
    /// Wait until modules can be resolved.
    AwaitResolution,
    /// End the process of the last attempt, if there is one.
    KillChild,
    DumpEnvironment,
    RepairPluginTree,
    /// Replace this instance by a fresh one.
    Relaunch,
    ShowFailure(Failure),
    Log(Note),
    ScheduleRetries,
    Navigate,
    Sleep { seconds: u64 },
}

/// What the flow has to learn before it can go on.
#[derive(Clone, Copy, Debug, PartialEq, Eq, Structural)]
pub enum Next {
    /// Does something listen on the port of the service?
    CheckPort { attempt: u32 },
    /// Can the service be spawned?
    Spawn { attempt: u32 },
    /// How does waiting for the service end?
    AwaitReady { attempt: u32 },
    /// Does the log tell of modules that were not found?
    CheckPluginTree { attempt: u32 },
    /// Is this instance leaving for a fresh one?
    AwaitRelaunch { attempt: u32 },
    /// What does a run on another port show?
    Diagnose,
    /// Nothing: the flow is over.
    Stop,
}

/// The answer to what the flow had to learn.
#[derive(Clone, Copy, Debug, PartialEq, Eq, Structural)]
pub enum Event {
    Port { up: bool },
    Spawned,
    SpawnFailed,
    Waited(WaitOutcome),
    PluginTree { broken: bool },
    Relaunched { leaving: bool },
    Diagnosed,
}

/// What is fixed during one flow.
#[derive(Clone, Copy, Debug, PartialEq, Eq, Structural)]
pub struct Flow {
    /// Whether the flow may show failures; a round in the background may not.
    pub interactive: bool,
    /// Whether this is Windows, where an instance can replace itself.
    pub windows: bool,
    /// Whether this instance has itself replaced another one.
    pub relaunched: bool,
}

/// What to do now, in order, and what to learn then.
#[derive(Debug)]
pub struct Step {
    pub effects: Vec<Effect>,
    pub next: Next,
}

impl View for Step {
    type V = (Seq<Effect>, Next);

    open spec fn view(&self) -> (Seq<Effect>, Next) {
        (self.effects@, self.next)
    }
}

/// The pause after a failed attempt, in seconds: doubled each time, up to 16.
pub open spec fn backoff(attempt: u32) -> u64 {
    if attempt == 0 {
        1
    } else if attempt == 1 {
        2
    } else if attempt == 2 {
        4
    } else if attempt == 3 {
        8
    } else {
        16
    }
}

/// How a flow begins. A round in the background follows on failures, and repairs
/// the modules first.
pub open spec fn first_step(flow: Flow) -> (Seq<Effect>, Next) {
    (
        if flow.interactive {
            seq![Effect::OpenNpxLatch]
        } else {
            seq![Effect::OpenNpxLatch, Effect::RepairPluginTree]
        },
        Next::CheckPort { attempt: 1 },
    )
}

/// The flow may replace this instance after the failed attempt.
pub open spec fn may_relaunch(flow: Flow, attempt: u32) -> bool {
    flow.windows && flow.interactive && !flow.relaunched && attempt >= 2
}

/// After the process of an attempt has ended early.
pub open spec fn step_after_exit(flow: Flow, attempt: u32) -> (Seq<Effect>, Next) {
    if attempt < MAX_STARTUP_ATTEMPTS {
        (
            if attempt == 1 {
                seq![Effect::KillChild, Effect::DumpEnvironment]
            } else {
                seq![Effect::KillChild]
            },
            Next::CheckPluginTree { attempt },
        )
    } else if flow.interactive {
        (seq![Effect::SetStatus(Status::Diagnosing)], Next::Diagnose)
    } else {
        (seq![Effect::SetStatus(Status::RoundFailed), Effect::Log(Note::RoundFailed)], Next::Stop)
    }
}

/// After waiting for the service has taken too long.
pub open spec fn step_after_timeout(flow: Flow) -> (Seq<Effect>, Next) {
    (
        if flow.interactive {
            seq![
                Effect::KillChild,
                Effect::RepairPluginTree,
                Effect::ShowFailure(Failure::TimedOut),
                Effect::ScheduleRetries,
            ]
        } else {
            seq![Effect::KillChild, Effect::RepairPluginTree, Effect::Log(Note::TimedOut)]
        },
        Next::Stop,
    )
}

/// After the log was searched for modules that were not found.
pub open spec fn step_after_tree(flow: Flow, attempt: u32, broken: bool) -> (Seq<Effect>, Next) {
    if broken && may_relaunch(flow, attempt) {
        (seq![Effect::Relaunch], Next::AwaitRelaunch { attempt })
    } else {
        let pause = seq![
            Effect::SetStatus(Status::Retrying { attempt }),
            Effect::Sleep { seconds: backoff(attempt) },
        ];
        (
            if broken {
                seq![Effect::RepairPluginTree] + pause
            } else {
                pause
            },
            Next::CheckPort { attempt: (attempt + 1) as u32 },
        )
    }
}

/// How the flow goes on when it has asked `next` and `event` is the answer;
/// `None` if that is no answer to it.
pub open spec fn step_after(flow: Flow, next: Next, event: Event) -> Option<(Seq<Effect>, Next)> {
    match (next, event) {
        (Next::CheckPort { attempt }, Event::Port { up }) => Some(
            if up {
                (seq![Effect::SetStatus(Status::Starting)], Next::AwaitReady { attempt })
            } else if attempt == 1 {
                (
                    seq![Effect::SetStatus(Status::Preparing), Effect::AwaitResolution],
                    Next::Spawn { attempt },
                )
            } else {
                (seq![], Next::Spawn { attempt })
            },
        ),
        (Next::Spawn { attempt }, Event::Spawned) => Some(
            (seq![Effect::SetStatus(Status::Starting)], Next::AwaitReady { attempt }),
        ),
        (Next::Spawn { attempt: _ }, Event::SpawnFailed) => Some(
            if flow.interactive {
                (
                    seq![Effect::ShowFailure(Failure::NotSpawned), Effect::ScheduleRetries],
                    Next::Stop,
                )
            } else {
                (seq![Effect::Log(Note::NotSpawned)], Next::Stop)
            },
        ),
        (Next::AwaitReady { attempt }, Event::Waited(outcome)) => Some(
            match outcome {
                WaitOutcome::Ready => (seq![Effect::Navigate], Next::Stop),
                WaitOutcome::Exited => step_after_exit(flow, attempt),
                WaitOutcome::Timeout => step_after_timeout(flow),
            },
        ),
        (Next::CheckPluginTree { attempt }, Event::PluginTree { broken }) => if attempt
            < MAX_STARTUP_ATTEMPTS {
            Some(step_after_tree(flow, attempt, broken))
        } else {
            None
        },
        (Next::AwaitRelaunch { attempt: _ }, Event::Relaunched { leaving }) => Some(
            if leaving {
                (seq![], Next::Stop)
            } else {
                (
                    seq![Effect::ShowFailure(Failure::NotReplaced), Effect::ScheduleRetries],
                    Next::Stop,
                )
            },
        ),
        (Next::Diagnose, Event::Diagnosed) => Some(
            (
                seq![
                    Effect::RepairPluginTree,
                    Effect::ShowFailure(Failure::KeepsExiting),
                    Effect::ScheduleRetries,
                ],
                Next::Stop,
            ),
        ),
        _ => None,
    }
}

/// The pause after a failed attempt, in seconds.
pub fn backoff_seconds(attempt: u32) -> (seconds: u64)
    ensures
        seconds == backoff(attempt),
{
    let shift: u32 = if attempt < 4 {
        attempt
    } else {
        4
    };
    assert(1u64 << 0u32 == 1 && 1u64 << 1u32 == 2 && 1u64 << 2u32 == 4 && 1u64 << 3u32 == 8 && 1u64
        << 4u32 == 16) by (bit_vector);
    1u64 << shift
}

impl Flow {
    /// Begins the flow.
    pub fn begin(&self) -> (step: Step)
        ensures
            step@ == first_step(*self),
    {
        let mut effects = vec![Effect::OpenNpxLatch];
        if !self.interactive {
            effects.push(Effect::RepairPluginTree);
        }
        assert(effects@ =~= first_step(*self).0);
        Step { effects, next: Next::CheckPort { attempt: 1 } }
    }

    fn after_exit(&self, attempt: u32) -> (step: Step)
        ensures
            step@ == step_after_exit(*self, attempt),
    {
        if attempt < MAX_STARTUP_ATTEMPTS {
            let effects = if attempt == 1 {
                vec![Effect::KillChild, Effect::DumpEnvironment]
            } else {
                vec![Effect::KillChild]
            };
            Step { effects, next: Next::CheckPluginTree { attempt } }
        } else if self.interactive {
            Step { effects: vec![Effect::SetStatus(Status::Diagnosing)], next: Next::Diagnose }
        } else {
            Step {
                effects: vec![
                    Effect::SetStatus(Status::RoundFailed),
                    Effect::Log(Note::RoundFailed),
                ],
                next: Next::Stop,
            }
        }
    }

    fn after_timeout(&self) -> (step: Step)
        ensures
            step@ == step_after_timeout(*self),
    {
        let mut effects = vec![Effect::KillChild, Effect::RepairPluginTree];
        if self.interactive {
            effects.push(Effect::ShowFailure(Failure::TimedOut));
            effects.push(Effect::ScheduleRetries);
        } else {
            effects.push(Effect::Log(Note::TimedOut));
        }
        assert(effects@ =~= step_after_timeout(*self).0);
        Step { effects, next: Next::Stop }
    }

    fn after_tree(&self, attempt: u32, broken: bool) -> (step: Step)
        requires
            attempt < MAX_STARTUP_ATTEMPTS,
        ensures
            step@ == step_after_tree(*self, attempt, broken),
    {
        if broken && self.windows && self.interactive && !self.relaunched && attempt >= 2 {
            return Step {
                effects: vec![Effect::Relaunch],
                next: Next::AwaitRelaunch { attempt },
            };
        }
        let mut effects: Vec<Effect> = Vec::new();
        if broken {
            effects.push(Effect::RepairPluginTree);
        }
        effects.push(Effect::SetStatus(Status::Retrying { attempt }));
        effects.push(Effect::Sleep { seconds: backoff_seconds(attempt) });
        let step = Step { effects, next: Next::CheckPort { attempt: attempt + 1 } };
        assert(step.effects@ =~= step_after_tree(*self, attempt, broken).0);
        step
    }

    /// Goes on when the flow has asked `next` and `event` is the answer; `None`
    /// if that is no answer to it.
    pub fn advance(&self, next: Next, event: Event) -> (step: Option<Step>)
        ensures
            match step {
                Some(step) => step_after(*self, next, event) == Some(step@),
                None => step_after(*self, next, event) is None,
            },
    {
        let step = match (next, event) {
            (Next::CheckPort { attempt }, Event::Port { up }) => {
                if up {
                    Some(
                        Step {
                            effects: vec![Effect::SetStatus(Status::Starting)],
                            next: Next::AwaitReady { attempt },
                        },
                    )
                } else if attempt == 1 {
                    Some(
                        Step {
                            effects: vec![
                                Effect::SetStatus(Status::Preparing),
                                Effect::AwaitResolution,
                            ],
                            next: Next::Spawn { attempt },
                        },
                    )
                } else {
                    Some(Step { effects: Vec::new(), next: Next::Spawn { attempt } })
                }
            },
            (Next::Spawn { attempt }, Event::Spawned) => Some(
                Step {
                    effects: vec![Effect::SetStatus(Status::Starting)],
                    next: Next::AwaitReady { attempt },
                },
            ),
            (Next::Spawn { attempt: _ }, Event::SpawnFailed) => {
                let effects = if self.interactive {
                    vec![Effect::ShowFailure(Failure::NotSpawned), Effect::ScheduleRetries]
                } else {
                    vec![Effect::Log(Note::NotSpawned)]
                };
                Some(Step { effects, next: Next::Stop })
            },
            (Next::AwaitReady { attempt }, Event::Waited(outcome)) => match outcome {
                WaitOutcome::Ready => Some(
                    Step { effects: vec![Effect::Navigate], next: Next::Stop },
                ),
                WaitOutcome::Exited => Some(self.after_exit(attempt)),
                WaitOutcome::Timeout => Some(self.after_timeout()),
            },
            (Next::CheckPluginTree { attempt }, Event::PluginTree { broken }) => {
                if attempt < MAX_STARTUP_ATTEMPTS {
                    Some(self.after_tree(attempt, broken))
                } else {
                    None
                }
            },
            (Next::AwaitRelaunch { attempt: _ }, Event::Relaunched { leaving }) => {
                let effects = if leaving {
                    Vec::new()
                } else {
                    vec![Effect::ShowFailure(Failure::NotReplaced), Effect::ScheduleRetries]
                };
                Some(Step { effects, next: Next::Stop })
            },
            (Next::Diagnose, Event::Diagnosed) => Some(
                Step {
                    effects: vec![
                        Effect::RepairPluginTree,
                        Effect::ShowFailure(Failure::KeepsExiting),
                        Effect::ScheduleRetries,
                    ],
                    next: Next::Stop,
                },
            ),
            _ => None,
        };
        proof {
            if step is Some {
                let expected = step_after(*self, next, event)->0;
                assert((step->0).effects@ =~= expected.0);
            }
        }
        step
    }
}

/// The line on the startup screen.
pub open spec fn status_words(status: Status) -> Seq<char> {
    match status {
        Status::Preparing =>
            "正在准备运行环境（安装后首次启动可能需要十几秒），请稍候…"@,
        Status::Starting => "DeepSeek Harness 正在启动，请稍候…"@,
        Status::Diagnosing => "启动失败，正在运行额外诊断（--port 0）…"@,
        Status::RoundFailed => "后台重试未成功，等待下一轮…"@,
        Status::Retrying { attempt } => "启动未成功，正在自动重试（"@ + number::natural_text(
            attempt as nat,
        ) + "/"@ + number::natural_text(MAX_STARTUP_ATTEMPTS as nat) + "）…"@,
    }
}

/// The line on the startup screen.
pub fn status_text(status: Status) -> (text: String)
    ensures
        text@ == status_words(status),
{
    match status {
        Status::Preparing =>
            "正在准备运行环境（安装后首次启动可能需要十几秒），请稍候…".to_owned(),
        Status::Starting => "DeepSeek Harness 正在启动，请稍候…".to_owned(),
        Status::Diagnosing => "启动失败，正在运行额外诊断（--port 0）…".to_owned(),
        Status::RoundFailed => "后台重试未成功，等待下一轮…".to_owned(),
        Status::Retrying { attempt } => {
            let mut text = "启动未成功，正在自动重试（".to_owned();
            text.append(number::natural(attempt as u64).as_str());
            text.append("/");
            text.append(number::natural(MAX_STARTUP_ATTEMPTS as u64).as_str());
            text.append("）…");
            text
        },
    }
}

/// What the startup screen tells of the failure.
pub open spec fn failure_words(failure: Failure, detail: Seq<char>) -> Seq<char> {
    match failure {
        Failure::NotSpawned => "无法启动 npx @deepseek-ai/dsh web：\n"@ + detail,
        Failure::KeepsExiting =>
            "dsh web 进程多次启动失败，Web UI 未能启动。\n程序已自动重试多次并完成额外诊断：\n"@
            + detail
            + "\n程序将在后台持续自动重试（间隔递增，最长约 30 分钟一轮），期间会自动清理损坏的安装缓存；恢复后会自动进入界面。\n详见下方日志文件。"@,
        Failure::TimedOut =>
            "等待 Web UI 启动超时（10 分钟）。\n程序将继续在后台自动重试。\n详见下方日志文件。"@,
        Failure::NotReplaced =>
            "自动重启程序失败。\n程序将继续在后台自动重试。\n详见下方日志文件。"@,
    }
}

/// What the startup screen tells of the failure; `detail` is why the service
/// could not be spawned, or what the diagnosis has shown.
pub fn failure_text(failure: Failure, detail: &str) -> (text: String)
    ensures
        text@ == failure_words(failure, detail@),
{
    match failure {
        Failure::NotSpawned => {
            let mut text = "无法启动 npx @deepseek-ai/dsh web：\n".to_owned();
            text.append(detail);
            text
        },
        Failure::KeepsExiting => {
            let mut text =
                "dsh web 进程多次启动失败，Web UI 未能启动。\n程序已自动重试多次并完成额外诊断：\n".to_owned();
            text.append(detail);
            text.append(
                "\n程序将在后台持续自动重试（间隔递增，最长约 30 分钟一轮），期间会自动清理损坏的安装缓存；恢复后会自动进入界面。\n详见下方日志文件。",
            );
            text
        },
        Failure::TimedOut =>
            "等待 Web UI 启动超时（10 分钟）。\n程序将继续在后台自动重试。\n详见下方日志文件。".to_owned(),
        Failure::NotReplaced =>
            "自动重启程序失败。\n程序将继续在后台自动重试。\n详见下方日志文件。".to_owned(),
    }
}

/// The line in the log.
pub open spec fn note_words(note: Note, detail: Seq<char>) -> Seq<char> {
    match note {
        Note::NotSpawned => "后台重试：无法启动 npx："@ + detail,
        Note::RoundFailed => "后台重试未成功，等待下一轮…"@,
        Note::TimedOut =>
            "后台重试：等待 Web UI 启动超时，已回收进程并清理安装缓存"@,
    }
}

/// The line in the log; `detail` is why the service could not be spawned.
pub fn note_text(note: Note, detail: &str) -> (text: String)
    ensures
        text@ == note_words(note, detail@),
{
    match note {
        Note::NotSpawned => {
            let mut text = "后台重试：无法启动 npx：".to_owned();
            text.append(detail);
            text
        },
        Note::RoundFailed => "后台重试未成功，等待下一轮…".to_owned(),
        Note::TimedOut => "后台重试：等待 Web UI 启动超时，已回收进程并清理安装缓存".to_owned(),
    }
}

/// What a flow has done and what it asks after the answers `events`; `None` if
/// one of them was no answer to what was asked.
pub open spec fn run(flow: Flow, events: Seq<Event>) -> Option<(Seq<Effect>, Next)>
    decreases events.len(),
{
    if events.len() == 0 {
        Some(first_step(flow))
    } else {
        match run(flow, events.drop_last()) {
            Some((effects, next)) => match step_after(flow, next, events.last()) {
                Some((more, then_next)) => Some((effects + more, then_next)),
                None => None,
            },
            None => None,
        }
    }
}

/// `event` is the kind of answer that `next` asks for.
pub open spec fn answers(next: Next, event: Event) -> bool {
    match next {
        Next::CheckPort { attempt: _ } => event is Port,
        Next::Spawn { attempt: _ } => event is Spawned || event is SpawnFailed,
        Next::AwaitReady { attempt: _ } => event is Waited,
        Next::CheckPluginTree { attempt: _ } => event is PluginTree,
        Next::AwaitRelaunch { attempt: _ } => event is Relaunched,
        Next::Diagnose => event is Diagnosed,
        Next::Stop => false,
    }
}

/// How many times the service was spawned, or could not be.
pub open spec fn spawns(events: Seq<Event>) -> nat
    decreases events.len(),
{
    if events.len() == 0 {
        0
    } else {
        spawns(events.drop_last()) + if events.last() is Spawned || events.last() is SpawnFailed {
            1nat
        } else {
            0nat
        }
    }
}

/// The seconds that the pauses among `effects` take together.
pub open spec fn slept(effects: Seq<Effect>) -> nat
    decreases effects.len(),
{
    if effects.len() == 0 {
        0
    } else {
        slept(effects.drop_last()) + match effects.last() {
            Effect::Sleep { seconds } => seconds as nat,
            _ => 0nat,
        }
    }
}

/// Whether the latch before the cache entry of npx is shut at the end, and how
/// many times it lets a repair pass, when `effects` are carried out in order.
pub open spec fn passes(effects: Seq<Effect>, shut: bool) -> (bool, nat)
    decreases effects.len(),
{
    if effects.len() == 0 {
        (shut, 0)
    } else {
        let (before, count) = passes(effects.drop_last(), shut);
        match effects.last() {
            Effect::OpenNpxLatch => (false, count),
            Effect::RepairPluginTree => {
                let (after, passed) = latch::attempt(before);
                (
                    after,
                    count + if passed {
                        1nat
                    } else {
                        0nat
                    },
                )
            },
            _ => (before, count),
        }
    }
}

/// The pauses before the attempt take at most this many seconds together.
spec fn pauses_before(attempt: u32) -> nat {
    if attempt <= 1 {
        0
    } else if attempt == 2 {
        2
    } else if attempt == 3 {
        6
    } else if attempt == 4 {
        14
    } else {
        30
    }
}

/// What holds of a flow at `next` after `n` answers, `k` of them about
/// spawning, and pauses of `t` seconds.
spec fn reachable(flow: Flow, next: Next, n: nat, k: nat, t: nat) -> bool {
    match next {
        Next::CheckPort { attempt } => {
            &&& 1 <= attempt <= MAX_STARTUP_ATTEMPTS
            &&& n <= 4 * (attempt - 1)
            &&& k <= attempt - 1
            &&& t <= pauses_before(attempt)
        },
        Next::Spawn { attempt } => {
            &&& 1 <= attempt <= MAX_STARTUP_ATTEMPTS
            &&& n <= 4 * (attempt - 1) + 1
            &&& k <= attempt - 1
            &&& t <= pauses_before(attempt)
        },
        Next::AwaitReady { attempt } => {
            &&& 1 <= attempt <= MAX_STARTUP_ATTEMPTS
            &&& n <= 4 * (attempt - 1) + 2
            &&& k <= attempt
            &&& t <= pauses_before(attempt)
        },
        Next::CheckPluginTree { attempt } => {
            &&& 1 <= attempt < MAX_STARTUP_ATTEMPTS
            &&& n <= 4 * (attempt - 1) + 3
            &&& k <= attempt
            &&& t <= pauses_before(attempt)
        },
        Next::AwaitRelaunch { attempt } => {
            &&& flow.interactive
            &&& may_relaunch(flow, attempt)
            &&& n <= 16
            &&& k <= MAX_STARTUP_ATTEMPTS
            &&& t <= 30
        },
        Next::Diagnose => {
            &&& flow.interactive
            &&& n <= 19
            &&& k <= MAX_STARTUP_ATTEMPTS
            &&& t <= 30
        },
        Next::Stop => {
            &&& n <= 20
            &&& k <= MAX_STARTUP_ATTEMPTS
            &&& t <= 30
        },
    }
}

proof fn lemma_slept_concat(a: Seq<Effect>, b: Seq<Effect>)
    ensures
        slept(a + b) == slept(a) + slept(b),
    decreases b.len(),
{
    if b.len() == 0 {
        assert(a + b =~= a);
    } else {
        lemma_slept_concat(a, b.drop_last());
        assert((a + b).drop_last() =~= a + b.drop_last());
        assert((a + b).last() == b.last());
    }
}

/// Only the step after a search of the log takes a pause.
proof fn lemma_slept_in_step(flow: Flow, next: Next, event: Event)
    requires
        step_after(flow, next, event) is Some,
    ensures
        slept((step_after(flow, next, event)->0).0) == match ((step_after(flow, next, event)->0).1) {
            Next::CheckPort { attempt } => backoff((attempt - 1) as u32) as nat,
            _ => 0nat,
        },
{
    reveal_with_fuel(slept, 5);
    let effects = (step_after(flow, next, event)->0).0;
    let n = effects.len();
    assert(n <= 4);
    if n > 1 {
        assert(effects.drop_last()[n - 2] == effects[n - 2]);
    }
    if n > 2 {
        assert(effects.drop_last().drop_last()[n - 3] == effects[n - 3]);
    }
    if n > 3 {
        assert(effects.drop_last().drop_last().drop_last()[n - 4] == effects[n - 4]);
    }
}

proof fn lemma_reachable(flow: Flow, events: Seq<Event>)
    requires
        run(flow, events) is Some,
    ensures
        reachable(
            flow,
            (run(flow, events)->0).1,
            events.len(),
            spawns(events),
            slept((run(flow, events)->0).0),
        ),
    decreases events.len(),
{
    if events.len() == 0 {
        reveal_with_fuel(slept, 3);
    } else {
        let before = events.drop_last();
        lemma_reachable(flow, before);
        let (effects, next) = run(flow, before)->0;
        let (more, then_next) = step_after(flow, next, events.last())->0;
        lemma_slept_concat(effects, more);
        lemma_slept_in_step(flow, next, events.last());
    }
}

/// A flow is over after at most twenty answers, has tried to spawn the service
/// at most five times, and has paused for at most thirty seconds.
pub proof fn law_flow_is_bounded(flow: Flow, events: Seq<Event>)
    requires
        run(flow, events) is Some,
    ensures
        events.len() <= 20,
        spawns(events) <= MAX_STARTUP_ATTEMPTS,
        slept((run(flow, events)->0).0) <= 30,
{
    lemma_reachable(flow, events);
}

/// A flow that is not over can go on, whatever the answer is.
pub proof fn law_flow_never_sticks(flow: Flow, events: Seq<Event>, event: Event)
    requires
        run(flow, events) is Some,
        answers((run(flow, events)->0).1, event),
    ensures
        run(flow, events.push(event)) is Some,
{
    lemma_reachable(flow, events);
    assert(events.push(event).drop_last() =~= events);
}

/// The service is spawned only if nothing listened on its port a moment before:
/// a service that is up is attached to and not started again.
pub proof fn law_spawns_only_when_down(flow: Flow, events: Seq<Event>, i: int)
    requires
        run(flow, events) is Some,
        0 <= i < events.len(),
        events[i] is Spawned || events[i] is SpawnFailed,
    ensures
        i > 0,
        events[i - 1] == (Event::Port { up: false }),
    decreases events.len(),
{
    let before = events.drop_last();
    if i < events.len() - 1 {
        law_spawns_only_when_down(flow, before, i);
    } else {
        lemma_asks_to_spawn(flow, before);
    }
}

/// A flow asks to spawn the service only after the answer that the port is free.
proof fn lemma_asks_to_spawn(flow: Flow, events: Seq<Event>)
    requires
        run(flow, events) is Some,
        (run(flow, events)->0).1 is Spawn,
    ensures
        events.len() > 0,
        events.last() == (Event::Port { up: false }),
{
}

/// A round in the background shows no failure, schedules no further retries and
/// does not replace the instance.
pub proof fn law_background_rounds_are_silent(flow: Flow, events: Seq<Event>, i: int)
    requires
        run(flow, events) is Some,
        !flow.interactive,
        0 <= i < (run(flow, events)->0).0.len(),
    ensures
        !((run(flow, events)->0).0[i] is ShowFailure),
        (run(flow, events)->0).0[i] != Effect::ScheduleRetries,
        (run(flow, events)->0).0[i] != Effect::Relaunch,
    decreases events.len(),
{
    if events.len() > 0 {
        let before = events.drop_last();
        let (effects, next) = run(flow, before)->0;
        lemma_reachable(flow, before);
        if i < effects.len() {
            law_background_rounds_are_silent(flow, before, i);
        }
    }
}

/// An instance that has itself replaced another one is not replaced again, and
/// only an interactive flow on Windows replaces an instance at all; it does so
/// once, and asks for nothing else after that.
pub proof fn law_relaunches_at_most_once(flow: Flow, events: Seq<Event>, i: int)
    requires
        run(flow, events) is Some,
        0 <= i < (run(flow, events)->0).0.len(),
        (run(flow, events)->0).0[i] == Effect::Relaunch,
    ensures
        flow.windows,
        flow.interactive,
        !flow.relaunched,
        (run(flow, events)->0).1 is AwaitRelaunch || (run(flow, events)->0).1 == Next::Stop,
        forall|j: int|
            0 <= j < (run(flow, events)->0).0.len() && #[trigger] (run(flow, events)->0).0[j]
                == Effect::Relaunch ==> j == i,
    decreases events.len(),
{
    if events.len() > 0 {
        let before = events.drop_last();
        let (effects, next) = run(flow, before)->0;
        let (more, following) = step_after(flow, next, events.last())->0;
        let all = effects + more;
        if i < effects.len() {
            law_relaunches_at_most_once(flow, before, i);
            assert forall|j: int| 0 <= j < all.len() && #[trigger] all[j]
                == Effect::Relaunch implies j == i by {
                if j < effects.len() {
                    assert(effects[j] == all[j]);
                } else {
                    assert(more[j - effects.len()] == all[j]);
                }
            }
        } else {
            assert(more[i - effects.len()] == Effect::Relaunch);
            assert forall|j: int| 0 <= j < all.len() && #[trigger] all[j]
                == Effect::Relaunch implies j == i by {
                if j < effects.len() {
                    assert(effects[j] == all[j]);
                    law_relaunches_at_most_once(flow, before, j);
                }
            }
        }
    }
}

/// A flow that is over has entered the user interface; or, if it is
/// interactive, has handed over to the retries in the background, or this
/// instance is leaving for a fresh one; or, if it is a round in the background,
/// has logged why not.
pub proof fn law_flow_ends_well(flow: Flow, events: Seq<Event>)
    requires
        run(flow, events) is Some,
        (run(flow, events)->0).1 == Next::Stop,
    ensures
        events.len() > 0,
        (run(flow, events)->0).0.len() > 0,
        ({
            let last = (run(flow, events)->0).0.last();
            ||| last == Effect::Navigate
            ||| flow.interactive && last == Effect::ScheduleRetries
            ||| flow.interactive && events.last() == (Event::Relaunched { leaving: true })
            ||| !flow.interactive && last is Log
        }),
{
    let before = events.drop_last();
    let (effects, next) = run(flow, before)->0;
    let more = (step_after(flow, next, events.last())->0).0;
    lemma_reachable(flow, before);
    lemma_has_begun(flow, events);
    if more.len() > 0 {
        assert((effects + more).last() == more.last());
    }
}

/// What a flow begins with is done first.
proof fn lemma_has_begun(flow: Flow, events: Seq<Event>)
    requires
        run(flow, events) is Some,
    ensures
        (run(flow, events)->0).0.len() >= first_step(flow).0.len(),
        (run(flow, events)->0).0.take(first_step(flow).0.len() as int) == first_step(flow).0,
    decreases events.len(),
{
    let n = first_step(flow).0.len() as int;
    if events.len() == 0 {
        assert(first_step(flow).0.take(n) =~= first_step(flow).0);
    } else {
        let before = events.drop_last();
        lemma_has_begun(flow, before);
        let (effects, next) = run(flow, before)->0;
        let more = (step_after(flow, next, events.last())->0).0;
        assert((effects + more).take(n) =~= effects.take(n));
    }
}

/// Retries in the background are scheduled at most once, at the end of an
/// interactive flow, right after a failure was shown, and neither when the user
/// interface was entered nor when this instance is leaving.
pub proof fn law_retries_follow_a_failure(flow: Flow, events: Seq<Event>, i: int)
    requires
        run(flow, events) is Some,
        0 <= i < (run(flow, events)->0).0.len(),
        (run(flow, events)->0).0[i] == Effect::ScheduleRetries,
    ensures
        flow.interactive,
        i == (run(flow, events)->0).0.len() - 1,
        i > 0,
        (run(flow, events)->0).0[i - 1] is ShowFailure,
        (run(flow, events)->0).1 == Next::Stop,
        events.len() > 0,
        events.last() != Event::Waited(WaitOutcome::Ready),
        events.last() != (Event::Relaunched { leaving: true }),
    decreases events.len(),
{
    if events.len() > 0 {
        let before = events.drop_last();
        let (effects, next) = run(flow, before)->0;
        let more = (step_after(flow, next, events.last())->0).0;
        lemma_reachable(flow, before);
        if i < effects.len() {
            law_retries_follow_a_failure(flow, before, i);
        } else {
            let k = i - effects.len();
            assert(more[k] == Effect::ScheduleRetries);
            assert((effects + more)[i - 1] == more[k - 1]);
        }
    }
}

/// A round in the background repairs the modules before it asks for anything, so
/// also before the service is spawned, and looks into the cache entry of npx once.
pub proof fn law_background_rounds_repair_first(flow: Flow, events: Seq<Event>, shut: bool)
    requires
        run(flow, events) is Some,
        !flow.interactive,
    ensures
        (run(flow, Seq::empty())->0).0.contains(Effect::RepairPluginTree),
        (run(flow, events)->0).0.len() >= 2,
        (run(flow, events)->0).0[0] == Effect::OpenNpxLatch,
        (run(flow, events)->0).0[1] == Effect::RepairPluginTree,
        passes((run(flow, events)->0).0, shut) == (true, 1nat),
    decreases events.len(),
{
    let first = first_step(flow).0;
    assert(first[1] == Effect::RepairPluginTree);
    assert(run(flow, Seq::empty()) == Some(first_step(flow)));
    lemma_has_begun(flow, events);
    let all = (run(flow, events)->0).0;
    assert(all[0] == all.take(2)[0] && all[1] == all.take(2)[1]);
    if events.len() == 0 {
        reveal_with_fuel(passes, 3);
        assert(first.drop_last() =~= seq![Effect::OpenNpxLatch]);
    } else {
        let before = events.drop_last();
        law_background_rounds_repair_first(flow, before, shut);
        let (effects, next) = run(flow, before)->0;
        let more = (step_after(flow, next, events.last())->0).0;
        lemma_passes_concat(effects, more, shut);
    }
}

/// The user interface is entered only when the service was found ready.
pub proof fn law_navigates_only_when_ready(flow: Flow, events: Seq<Event>, i: int)
    requires
        run(flow, events) is Some,
        0 <= i < (run(flow, events)->0).0.len(),
        (run(flow, events)->0).0[i] == Effect::Navigate,
    ensures
        events.len() > 0,
        events.last() == Event::Waited(WaitOutcome::Ready),
        (run(flow, events)->0).1 == Next::Stop,
    decreases events.len(),
{
    if events.len() > 0 {
        let before = events.drop_last();
        let (effects, next) = run(flow, before)->0;
        if i < effects.len() {
            law_navigates_only_when_ready(flow, before, i);
        }
    }
}

/// As long as nobody opens the latch again, it has let one repair pass if it is
/// shut, and none if it is open.
proof fn lemma_passes_concat(a: Seq<Effect>, b: Seq<Effect>, shut: bool)
    requires
        forall|i: int| 0 <= i < b.len() ==> (#[trigger] b[i]) != Effect::OpenNpxLatch,
        passes(a, shut).1 == if passes(a, shut).0 {
            1nat
        } else {
            0nat
        },
    ensures
        passes(a + b, shut).1 == if passes(a + b, shut).0 {
            1nat
        } else {
            0nat
        },
        passes(a, shut).0 ==> passes(a + b, shut).0,
    decreases b.len(),
{
    if b.len() == 0 {
        assert(a + b =~= a);
    } else {
        let rest = b.drop_last();
        assert forall|i: int| 0 <= i < rest.len() implies (#[trigger] rest[i])
            != Effect::OpenNpxLatch by {
            assert(rest[i] == b[i]);
        }
        lemma_passes_concat(a, rest, shut);
        assert((a + b).drop_last() =~= a + rest);
        assert((a + b).last() == b.last());
        assert(b.last() == b[b.len() - 1]);
    }
}

/// In one flow the cache entry of npx is looked into, and perhaps removed, at
/// most once, however often the modules are repaired and whatever the latch was
/// before.
pub proof fn law_npx_entry_is_cleared_at_most_once(flow: Flow, events: Seq<Event>, shut: bool)
    requires
        run(flow, events) is Some,
    ensures
        passes((run(flow, events)->0).0, shut).1 <= 1,
        passes((run(flow, events)->0).0, shut).1 == if passes((run(flow, events)->0).0, shut).0 {
            1nat
        } else {
            0nat
        },
    decreases events.len(),
{
    if events.len() == 0 {
        reveal_with_fuel(passes, 3);
        let first = first_step(flow).0;
        assert(first.drop_last().len() > 0 ==> first.drop_last() =~= seq![Effect::OpenNpxLatch]);
    } else {
        let before = events.drop_last();
        law_npx_entry_is_cleared_at_most_once(flow, before, shut);
        let (effects, next) = run(flow, before)->0;
        let more = (step_after(flow, next, events.last())->0).0;
        lemma_passes_concat(effects, more, shut);
    }
}


/// A sequence of at most four holds what one of its places holds.
proof fn lemma_holds(effects: Seq<Effect>, e: Effect)
    requires
        effects.len() <= 4,
    ensures
        effects.contains(e) <==> {
            ||| effects.len() > 0 && effects[0] == e
            ||| effects.len() > 1 && effects[1] == e
            ||| effects.len() > 2 && effects[2] == e
            ||| effects.len() > 3 && effects[3] == e
        },
{
}

/// A service that is up is attached to, on every system and at every attempt: it
/// is waited for, and nothing is done but to tell so.
pub proof fn law_running_service_is_attached_to(flow: Flow, attempt: u32)
    ensures
        ({
            let step = step_after(flow, Next::CheckPort { attempt }, Event::Port { up: true });
            &&& step is Some
            &&& (step->0).1 == (Next::AwaitReady { attempt })
            &&& forall|i: int|
                0 <= i < (step->0).0.len() ==> #[trigger] (step->0).0[i] == Effect::SetStatus(
                    Status::Starting,
                )
        }),
{
}

/// The launcher enters the interface of a service that was up when it began, and
/// does nothing else about it, in every flow.
pub proof fn law_running_service_is_entered(flow: Flow)
    ensures
        ({
            let events = seq![Event::Port { up: true }, Event::Waited(WaitOutcome::Ready)];
            &&& run(flow, events) is Some
            &&& (run(flow, events)->0).1 == Next::Stop
            &&& (run(flow, events)->0).0.last() == Effect::Navigate
            &&& forall|i: int|
                0 <= i < (run(flow, events)->0).0.len() ==> {
                    let e = #[trigger] (run(flow, events)->0).0[i];
                    &&& e !is ShowFailure
                    &&& e != Effect::ScheduleRetries
                    &&& e != Effect::KillChild
                    &&& e != Effect::Relaunch
                }
        }),
{
    let events = seq![Event::Port { up: true }, Event::Waited(WaitOutcome::Ready)];
    let one = events.drop_last();
    assert(one =~= seq![Event::Port { up: true }]);
    assert(one.drop_last() =~= Seq::<Event>::empty());
    reveal_with_fuel(run, 3);
}

/// The interface is entered as soon as the service is found ready, at whatever
/// attempt.
pub proof fn law_ready_service_is_entered(flow: Flow, events: Seq<Event>)
    requires
        run(flow, events) is Some,
        (run(flow, events)->0).1 is AwaitReady,
    ensures
        ({
            let all = events.push(Event::Waited(WaitOutcome::Ready));
            &&& run(flow, all) is Some
            &&& (run(flow, all)->0).0 == (run(flow, events)->0).0.push(Effect::Navigate)
            &&& (run(flow, all)->0).1 == Next::Stop
        }),
{
    let all = events.push(Event::Waited(WaitOutcome::Ready));
    assert(all.drop_last() =~= events);
    assert((run(flow, all)->0).0 =~= (run(flow, events)->0).0.push(Effect::Navigate));
}

/// A flow begins by asking whether the service is up. It allows one cleanup of the
/// npx entry, and repairs beforehand exactly if it is a round in the background.
pub proof fn law_flow_begins_with_the_port(flow: Flow)
    ensures
        run(flow, Seq::empty()) is Some,
        (run(flow, Seq::empty())->0).1 == (Next::CheckPort { attempt: 1 }),
        (run(flow, Seq::empty())->0).0[0] == Effect::OpenNpxLatch,
        (run(flow, Seq::empty())->0).0.len() == if flow.interactive {
            1nat
        } else {
            2nat
        },
        !flow.interactive ==> (run(flow, Seq::empty())->0).0[1] == Effect::RepairPluginTree,
{
    assert(run(flow, Seq::empty()) == Some(first_step(flow)));
}

/// A failure is shown for its own reason only, and where it is to be shown it is:
/// that the service could not be spawned, that it kept ending until the diagnosis,
/// that it did not come up in time, that no fresh instance could be started.
pub proof fn law_failures_have_their_reasons(flow: Flow, next: Next, event: Event, failure: Failure)
    requires
        step_after(flow, next, event) is Some,
    ensures
        (step_after(flow, next, event)->0).0.contains(Effect::ShowFailure(failure)) <==> match failure {
            Failure::NotSpawned => flow.interactive && event == Event::SpawnFailed,
            Failure::KeepsExiting => event == Event::Diagnosed,
            Failure::TimedOut => flow.interactive && event == Event::Waited(WaitOutcome::Timeout),
            Failure::NotReplaced => event == (Event::Relaunched { leaving: false }),
        },
{
    lemma_holds((step_after(flow, next, event)->0).0, Effect::ShowFailure(failure));
}

/// A whole flow shows a failure only as its last answer gives the reason.
pub proof fn law_shown_failure_is_that_of_the_last_answer(
    flow: Flow,
    events: Seq<Event>,
    failure: Failure,
)
    requires
        run(flow, events) is Some,
        (run(flow, events)->0).0.contains(Effect::ShowFailure(failure)),
    ensures
        events.len() > 0,
        events.last() == match failure {
            Failure::NotSpawned => Event::SpawnFailed,
            Failure::KeepsExiting => Event::Diagnosed,
            Failure::TimedOut => Event::Waited(WaitOutcome::Timeout),
            Failure::NotReplaced => Event::Relaunched { leaving: false },
        },
        (run(flow, events)->0).1 == Next::Stop,
    decreases events.len(),
{
    let shown = Effect::ShowFailure(failure);
    let all = (run(flow, events)->0).0;
    let i = choose|i: int| 0 <= i < all.len() && all[i] == shown;
    if events.len() > 0 {
        let before = events.drop_last();
        let (effects, next) = run(flow, before)->0;
        let more = (step_after(flow, next, events.last())->0).0;
        if i < effects.len() {
            assert(effects[i] == shown);
            assert(effects.contains(shown));
            law_shown_failure_is_that_of_the_last_answer(flow, before, failure);
        } else {
            assert(more[i - effects.len()] == shown);
            assert(more.contains(shown));
            law_failures_have_their_reasons(flow, next, events.last(), failure);
        }
    }
}

/// What is told on the startup screen: each line for its own reason.
pub proof fn law_statuses_have_their_reasons(flow: Flow, next: Next, event: Event, status: Status)
    requires
        step_after(flow, next, event) is Some,
    ensures
        (step_after(flow, next, event)->0).0.contains(Effect::SetStatus(status)) <==> match status {
            Status::Preparing => next == (Next::CheckPort { attempt: 1 }) && event == (Event::Port {
                up: false,
            }),
            Status::Starting => event == (Event::Port { up: true }) || event == Event::Spawned,
            Status::Diagnosing => (step_after(flow, next, event)->0).1 == Next::Diagnose,
            Status::RoundFailed => !flow.interactive && event == Event::Waited(WaitOutcome::Exited)
                && (step_after(flow, next, event)->0).1 == Next::Stop,
            Status::Retrying { attempt } => (step_after(flow, next, event)->0).1 == (
            Next::CheckPort { attempt: (attempt + 1) as u32 }) && attempt < 5,
        },
{
    lemma_holds((step_after(flow, next, event)->0).0, Effect::SetStatus(status));
}

/// What is done about processes, modules and the instance: each for its own reason.
pub proof fn law_deeds_have_their_reasons(flow: Flow, next: Next, event: Event)
    requires
        step_after(flow, next, event) is Some,
    ensures
        ({
            let (effects, following) = step_after(flow, next, event)->0;
            let replaces = flow.windows && flow.interactive && !flow.relaunched;
            &&& !effects.contains(Effect::OpenNpxLatch)
            &&& effects.contains(Effect::AwaitResolution) <==> next == (Next::CheckPort {
                attempt: 1,
            }) && event == (Event::Port { up: false })
            &&& effects.contains(Effect::KillChild) <==> event == Event::Waited(
                WaitOutcome::Timeout,
            ) || following is CheckPluginTree
            &&& effects.contains(Effect::DumpEnvironment) <==> following == (
            Next::CheckPluginTree { attempt: 1 })
            &&& effects.contains(Effect::Navigate) <==> event == Event::Waited(WaitOutcome::Ready)
            &&& effects.contains(Effect::RepairPluginTree) <==> {
                ||| event == Event::Waited(WaitOutcome::Timeout)
                ||| event == Event::Diagnosed
                ||| event == (Event::PluginTree { broken: true }) && following is CheckPort
            }
            &&& effects.contains(Effect::Relaunch) <==> replaces && event == (Event::PluginTree {
                broken: true,
            }) && next->CheckPluginTree_attempt >= 2
            &&& effects.contains(Effect::Relaunch) <==> following is AwaitRelaunch
            &&& effects.contains(Effect::ScheduleRetries) <==> exists|i: int|
                0 <= i < effects.len() && #[trigger] effects[i] is ShowFailure
        }),
{
    let (effects, following) = step_after(flow, next, event)->0;
    lemma_holds(effects, Effect::OpenNpxLatch);
    lemma_holds(effects, Effect::AwaitResolution);
    lemma_holds(effects, Effect::KillChild);
    lemma_holds(effects, Effect::DumpEnvironment);
    lemma_holds(effects, Effect::Navigate);
    lemma_holds(effects, Effect::RepairPluginTree);
    lemma_holds(effects, Effect::Relaunch);
    lemma_holds(effects, Effect::ScheduleRetries);
    if effects.contains(Effect::ScheduleRetries) {
        assert(effects[effects.len() - 2] is ShowFailure);
    }
}

/// What is logged, only in the background, and the pause before another attempt:
/// each for its own reason.
pub proof fn law_notes_and_pauses_have_their_reasons(
    flow: Flow,
    next: Next,
    event: Event,
    note: Note,
    seconds: u64,
)
    requires
        step_after(flow, next, event) is Some,
    ensures
        ({
            let (effects, following) = step_after(flow, next, event)->0;
            &&& effects.contains(Effect::Log(note)) <==> !flow.interactive && match note {
                Note::NotSpawned => event == Event::SpawnFailed,
                Note::RoundFailed => event == Event::Waited(WaitOutcome::Exited) && following
                    == Next::Stop,
                Note::TimedOut => event == Event::Waited(WaitOutcome::Timeout),
            }
            &&& effects.contains(Effect::Sleep { seconds }) <==> match following {
                Next::CheckPort { attempt } => seconds == if attempt == 2 {
                    2u64
                } else if attempt == 3 {
                    4
                } else if attempt == 4 {
                    8
                } else if attempt == 5 {
                    16
                } else {
                    1
                },
                _ => false,
            }
        }),
{
    let (effects, following) = step_after(flow, next, event)->0;
    lemma_holds(effects, Effect::Log(note));
    lemma_holds(effects, Effect::Sleep { seconds });
}

/// The order in which things are done: a process is ended before modules are
/// repaired, and these before anything is told, waited for, shown, logged or
/// scheduled. Nothing is done twice.
pub open spec fn rank(e: Effect) -> int {
    match e {
        Effect::OpenNpxLatch => 0,
        Effect::KillChild => 1,
        Effect::DumpEnvironment => 2,
        Effect::RepairPluginTree => 3,
        Effect::SetStatus(_) => 4,
        Effect::AwaitResolution => 5,
        Effect::Sleep { seconds: _ } => 6,
        Effect::ShowFailure(_) => 7,
        Effect::Log(_) => 8,
        Effect::ScheduleRetries => 9,
        Effect::Relaunch => 10,
        Effect::Navigate => 11,
    }
}

/// In each step things are done in order, and nothing twice.
pub proof fn law_steps_are_in_order(flow: Flow, next: Next, event: Event, i: int, j: int)
    requires
        step_after(flow, next, event) is Some,
        0 <= i < j < (step_after(flow, next, event)->0).0.len(),
    ensures
        rank((step_after(flow, next, event)->0).0[i]) < rank(
            (step_after(flow, next, event)->0).0[j],
        ),
{
}

/// What is asked next, by what was asked and answered: a free port leads to
/// spawning, a service that is up or was spawned is waited for, one that ended
/// early has the log searched unless it was the last attempt, and each further
/// attempt begins with the port.
pub proof fn law_questions_follow_from_answers(flow: Flow, next: Next, event: Event, attempt: u32)
    requires
        step_after(flow, next, event) is Some,
    ensures
        ({
            let following = (step_after(flow, next, event)->0).1;
            let ended = event == Event::Waited(WaitOutcome::Exited);
            &&& answers(next, event)
            &&& following == (Next::Spawn { attempt }) <==> next == (Next::CheckPort { attempt })
                && event == (Event::Port { up: false })
            &&& following == (Next::AwaitReady { attempt }) <==> {
                ||| next == (Next::CheckPort { attempt }) && event == (Event::Port { up: true })
                ||| next == (Next::Spawn { attempt }) && event == Event::Spawned
            }
            &&& following == (Next::CheckPluginTree { attempt }) <==> ended && attempt < 5 && next
                == (Next::AwaitReady { attempt })
            &&& following == Next::Diagnose <==> ended && flow.interactive
                && !(following is CheckPluginTree)
            &&& following is CheckPort ==> next is CheckPluginTree && following->CheckPort_attempt
                == next->CheckPluginTree_attempt + 1
            &&& next is CheckPluginTree ==> following is CheckPort || following is AwaitRelaunch
            &&& event == (Event::PluginTree { broken: false }) ==> following is CheckPort
            &&& following == Next::Stop <==> {
                ||| event == Event::SpawnFailed
                ||| event == Event::Waited(WaitOutcome::Ready)
                ||| event == Event::Waited(WaitOutcome::Timeout)
                ||| event == Event::Diagnosed
                ||| event is Relaunched
                ||| ended && !flow.interactive && !(following is CheckPluginTree)
            }
        }),
{
}

/// Every answer of the kind that is asked for is taken, at each of the attempts.
pub proof fn law_answers_are_taken(flow: Flow, next: Next, event: Event)
    requires
        answers(next, event),
        next is CheckPluginTree ==> next->CheckPluginTree_attempt < 5,
    ensures
        step_after(flow, next, event) is Some,
{
}

/// The pause after a failed attempt doubles with each, from two seconds after the
/// first to sixteen.
pub proof fn law_pauses_double(attempt: u32)
    ensures
        backoff(1) == 2,
        attempt < 4 ==> backoff((attempt + 1) as u32) == 2 * backoff(attempt),
        attempt >= 4 ==> backoff(attempt) == 16,
{
}


/// Why the service could not be spawned, and what the diagnosis has shown, is told
/// whole and unchanged; the other failures need no detail.
pub proof fn law_failures_tell_their_detail(detail: Seq<char>, other: Seq<char>)
    ensures
        failure_words(Failure::NotSpawned, detail) == failure_words(Failure::NotSpawned, other)
            ==> detail == other,
        detail.is_suffix_of(failure_words(Failure::NotSpawned, detail)),
        failure_words(Failure::KeepsExiting, detail) == failure_words(Failure::KeepsExiting, other)
            ==> detail == other,
        text::contains_text(failure_words(Failure::KeepsExiting, detail), "\n"@ + detail + "\n"@),
        failure_words(Failure::TimedOut, detail) == failure_words(Failure::TimedOut, other),
        failure_words(Failure::NotReplaced, detail) == failure_words(Failure::NotReplaced, other),
{
    let head = "无法启动 npx @deepseek-ai/dsh web：\n"@;
    let one = failure_words(Failure::NotSpawned, detail);
    let two = failure_words(Failure::NotSpawned, other);
    assert(one.skip(head.len() as int) =~= detail);
    assert(two.skip(head.len() as int) =~= other);
    assert(one.subrange(one.len() - detail.len(), one.len() as int) =~= detail);
    let front =
        "dsh web 进程多次启动失败，Web UI 未能启动。\n程序已自动重试多次并完成额外诊断：\n"@;
    let end =
        "\n程序将在后台持续自动重试（间隔递增，最长约 30 分钟一轮），期间会自动清理损坏的安装缓存；恢复后会自动进入界面。\n详见下方日志文件。"@;
    let x = failure_words(Failure::KeepsExiting, detail);
    let y = failure_words(Failure::KeepsExiting, other);
    assert(x.subrange(front.len() as int, x.len() - end.len()) =~= detail);
    assert(y.subrange(front.len() as int, y.len() - end.len()) =~= other);
    reveal_strlit("dsh web 进程多次启动失败，Web UI 未能启动。\n程序已自动重试多次并完成额外诊断：\n");
    reveal_strlit(
        "\n程序将在后台持续自动重试（间隔递增，最长约 30 分钟一轮），期间会自动清理损坏的安装缓存；恢复后会自动进入界面。\n详见下方日志文件。",
    );
    reveal_strlit("\n");
    let n = front.len() as int;
    let needle = "\n"@ + detail + "\n"@;
    assert(x.subrange(n - 1, n - 1 + needle.len()) =~= needle);
    assert(text::occurs_at(x, needle, n - 1));
}


/// Each failed attempt is told with its number, of five; no two are told alike, and
/// none like another line.
pub proof fn law_attempts_are_told_by_number(attempt: u32, other: u32)
    ensures
        text::contains_text(
            status_words(Status::Retrying { attempt }),
            "（"@ + number::natural_text(attempt as nat) + "/"@ + number::natural_text(5) + "）"@,
        ),
        status_words(Status::Retrying { attempt }) == status_words(
            Status::Retrying { attempt: other },
        ) ==> attempt == other,
{
    reveal_strlit("启动未成功，正在自动重试（");
    reveal_strlit("（");
    reveal_strlit("/");
    reveal_strlit("）…");
    reveal_strlit("）");
    let one = status_words(Status::Retrying { attempt });
    let two = status_words(Status::Retrying { attempt: other });
    let a = number::natural_text(attempt as nat);
    let b = number::natural_text(other as nat);
    let five = number::natural_text(5);
    let head = "启动未成功，正在自动重试（"@;
    let needle = "（"@ + a + "/"@ + five + "）"@;
    let n = head.len() as int;
    assert(one.subrange(n - 1, n - 1 + needle.len()) =~= needle);
    assert(text::occurs_at(one, needle, n - 1));
    if one == two {
        assert(one.len() == n + a.len() + 1 + five.len() + 2);
        assert(two.len() == n + b.len() + 1 + five.len() + 2);
        assert(one.subrange(n, n + a.len()) =~= a);
        assert(two.subrange(n, n + b.len()) =~= b);
        number::lemma_natural_text(attempt as nat);
        number::lemma_natural_text(other as nat);
    }
}

/// Why the service could not be spawned is logged whole.
pub proof fn law_notes_tell_their_detail(detail: Seq<char>, other: Seq<char>)
    ensures
        detail.is_suffix_of(note_words(Note::NotSpawned, detail)),
        note_words(Note::NotSpawned, detail) == note_words(Note::NotSpawned, other) ==> detail
            == other,
        note_words(Note::RoundFailed, detail) == note_words(Note::RoundFailed, other),
        note_words(Note::TimedOut, detail) == note_words(Note::TimedOut, other),
{
    let head = "后台重试：无法启动 npx："@;
    let one = note_words(Note::NotSpawned, detail);
    let two = note_words(Note::NotSpawned, other);
    assert(one.skip(head.len() as int) =~= detail);
    assert(two.skip(head.len() as int) =~= other);
    assert(one.subrange(one.len() - detail.len(), one.len() as int) =~= detail);
}

}
