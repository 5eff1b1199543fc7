use dsh_desktop::startup::{
    backoff_seconds, failure_text, note_text, status_text, Effect, Event, Failure, Flow, Next,
    Note, Status, WaitOutcome,
};

const INTERACTIVE: Flow = Flow {
    interactive: true,
    windows: false,
    relaunched: false,
};
const BACKGROUND: Flow = Flow {
    interactive: false,
    windows: true,
    relaunched: false,
};
const WINDOWS: Flow = Flow {
    interactive: true,
    windows: true,
    relaunched: false,
};

fn run(flow: Flow, events: &[Event]) -> (Vec<Effect>, Next) {
    let step = flow.begin();
    let mut effects = step.effects;
    let mut next = step.next;
    for event in events {
        let step = flow.advance(next, *event).unwrap();
        effects.extend(step.effects);
        next = step.next;
    }
    (effects, next)
}

fn failed_attempt(broken: bool) -> Vec<Event> {
    vec![
        Event::Port { up: false },
        Event::Spawned,
        Event::Waited(WaitOutcome::Exited),
        Event::PluginTree { broken },
    ]
}

fn five_failed_attempts(broken: bool) -> Vec<Event> {
    let mut events = Vec::new();
    for _ in 0..4 {
        events.extend(failed_attempt(broken));
    }
    events.extend(failed_attempt(broken));
    events.pop();
    events
}

#[test]
fn attaches_to_a_service_that_is_up() {
    let (effects, next) = run(
        INTERACTIVE,
        &[Event::Port { up: true }, Event::Waited(WaitOutcome::Ready)],
    );
    assert_eq!(
        effects,
        vec![
            Effect::OpenNpxLatch,
            Effect::SetStatus(Status::Starting),
            Effect::Navigate
        ]
    );
    assert_eq!(next, Next::Stop);
}

#[test]
fn starts_a_service_that_is_down() {
    let (effects, next) = run(
        INTERACTIVE,
        &[
            Event::Port { up: false },
            Event::Spawned,
            Event::Waited(WaitOutcome::Ready),
        ],
    );
    assert_eq!(
        effects,
        vec![
            Effect::OpenNpxLatch,
            Effect::SetStatus(Status::Preparing),
            Effect::AwaitResolution,
            Effect::SetStatus(Status::Starting),
            Effect::Navigate
        ]
    );
    assert_eq!(next, Next::Stop);
}

#[test]
fn service_that_cannot_be_spawned() {
    let events = [Event::Port { up: false }, Event::SpawnFailed];
    let (effects, next) = run(INTERACTIVE, &events);
    assert_eq!(
        effects[3..],
        [
            Effect::ShowFailure(Failure::NotSpawned),
            Effect::ScheduleRetries
        ]
    );
    assert_eq!(next, Next::Stop);
    let (effects, next) = run(BACKGROUND, &events);
    assert_eq!(effects[4..], [Effect::Log(Note::NotSpawned)]);
    assert_eq!(next, Next::Stop);
}

#[test]
fn service_that_does_not_come_up() {
    let events = [
        Event::Port { up: false },
        Event::Spawned,
        Event::Waited(WaitOutcome::Timeout),
    ];
    let (effects, next) = run(INTERACTIVE, &events);
    assert_eq!(
        effects[4..],
        [
            Effect::KillChild,
            Effect::RepairPluginTree,
            Effect::ShowFailure(Failure::TimedOut),
            Effect::ScheduleRetries
        ]
    );
    assert_eq!(next, Next::Stop);
    let (effects, _) = run(BACKGROUND, &events);
    assert_eq!(
        effects[5..],
        [
            Effect::KillChild,
            Effect::RepairPluginTree,
            Effect::Log(Note::TimedOut)
        ]
    );
}

#[test]
fn failed_attempts_are_repeated() {
    let (effects, next) = run(INTERACTIVE, &failed_attempt(true));
    assert_eq!(
        effects[4..],
        [
            Effect::KillChild,
            Effect::DumpEnvironment,
            Effect::RepairPluginTree,
            Effect::SetStatus(Status::Retrying { attempt: 1 }),
            Effect::Sleep { seconds: 2 }
        ]
    );
    assert_eq!(next, Next::CheckPort { attempt: 2 });
    let mut events = failed_attempt(true);
    events.extend(failed_attempt(false));
    let (effects, next) = run(INTERACTIVE, &events);
    assert_eq!(
        effects[9..],
        [
            Effect::SetStatus(Status::Starting),
            Effect::KillChild,
            Effect::SetStatus(Status::Retrying { attempt: 2 }),
            Effect::Sleep { seconds: 4 }
        ]
    );
    assert_eq!(next, Next::CheckPort { attempt: 3 });
}

#[test]
fn last_failed_attempt_is_diagnosed() {
    let mut events = five_failed_attempts(true);
    let (effects, next) = run(INTERACTIVE, &events);
    assert_eq!(effects.last(), Some(&Effect::SetStatus(Status::Diagnosing)));
    assert_eq!(next, Next::Diagnose);
    events.push(Event::Diagnosed);
    let (effects, next) = run(INTERACTIVE, &events);
    assert_eq!(
        effects[effects.len() - 3..],
        [
            Effect::RepairPluginTree,
            Effect::ShowFailure(Failure::KeepsExiting),
            Effect::ScheduleRetries
        ]
    );
    assert_eq!(next, Next::Stop);
}

#[test]
fn failed_round_in_the_background_is_logged() {
    let (effects, next) = run(BACKGROUND, &five_failed_attempts(true));
    assert_eq!(
        effects[effects.len() - 2..],
        [
            Effect::SetStatus(Status::RoundFailed),
            Effect::Log(Note::RoundFailed)
        ]
    );
    assert_eq!(next, Next::Stop);
    assert!(!effects.contains(&Effect::Relaunch));
    assert!(!effects.contains(&Effect::ScheduleRetries));
}

#[test]
fn flow_is_bounded() {
    let events = {
        let mut events = five_failed_attempts(false);
        events.push(Event::Diagnosed);
        events
    };
    assert_eq!(events.len(), 20);
    let (effects, next) = run(INTERACTIVE, &events);
    assert_eq!(next, Next::Stop);
    let slept: u64 = effects
        .iter()
        .map(|effect| match effect {
            Effect::Sleep { seconds } => *seconds,
            _ => 0,
        })
        .sum();
    assert_eq!(slept, 30);
    let spawned = events.iter().filter(|event| **event == Event::Spawned).count();
    assert_eq!(spawned, 5);
}

#[test]
fn instance_is_replaced_at_the_second_failure_on_windows() {
    let mut events = failed_attempt(true);
    let (effects, _) = run(WINDOWS, &events);
    assert!(!effects.contains(&Effect::Relaunch));
    events.extend(failed_attempt(true));
    let (effects, next) = run(WINDOWS, &events);
    assert_eq!(effects.last(), Some(&Effect::Relaunch));
    assert_eq!(next, Next::AwaitRelaunch { attempt: 2 });
    events.push(Event::Relaunched { leaving: true });
    let (effects, next) = run(WINDOWS, &events);
    assert_eq!(effects.last(), Some(&Effect::Relaunch));
    assert_eq!(next, Next::Stop);
    events.pop();
    let again = Flow {
        relaunched: true,
        ..WINDOWS
    };
    let (effects, next) = run(again, &events);
    assert!(!effects.contains(&Effect::Relaunch));
    assert_eq!(next, Next::CheckPort { attempt: 3 });
    let (effects, _) = run(INTERACTIVE, &events);
    assert!(!effects.contains(&Effect::Relaunch));
}

#[test]
fn refused_replacement_hands_over_to_the_retries() {
    let mut events = failed_attempt(true);
    events.extend(failed_attempt(true));
    events.push(Event::Relaunched { leaving: false });
    let (effects, next) = run(WINDOWS, &events);
    assert_eq!(
        effects[effects.len() - 3..],
        [
            Effect::Relaunch,
            Effect::ShowFailure(Failure::NotReplaced),
            Effect::ScheduleRetries
        ]
    );
    assert_eq!(next, Next::Stop);
}

#[test]
fn round_in_the_background_repairs_first() {
    let (effects, next) = run(BACKGROUND, &[Event::Port { up: false }]);
    assert_eq!(
        effects,
        vec![
            Effect::OpenNpxLatch,
            Effect::RepairPluginTree,
            Effect::SetStatus(Status::Preparing),
            Effect::AwaitResolution
        ]
    );
    assert_eq!(next, Next::Spawn { attempt: 1 });
    let (effects, _) = run(INTERACTIVE, &[Event::Port { up: false }]);
    assert!(!effects.contains(&Effect::RepairPluginTree));
}

#[test]
fn retries_are_scheduled_once_after_a_failure() {
    let mut events = five_failed_attempts(true);
    events.push(Event::Diagnosed);
    let (effects, _) = run(INTERACTIVE, &events);
    let scheduled = effects.iter().filter(|e| **e == Effect::ScheduleRetries).count();
    assert_eq!(scheduled, 1);
    assert!(matches!(effects[effects.len() - 2], Effect::ShowFailure(_)));
}

#[test]
fn npx_latch_is_opened_once_in_a_flow() {
    let (effects, _) = run(INTERACTIVE, &five_failed_attempts(true));
    let opened = effects.iter().filter(|e| **e == Effect::OpenNpxLatch).count();
    assert_eq!(opened, 1);
    assert_eq!(effects[0], Effect::OpenNpxLatch);
    let repairs = effects.iter().filter(|e| **e == Effect::RepairPluginTree).count();
    assert_eq!(repairs, 4);
}

#[test]
fn other_answers_are_refused() {
    assert!(INTERACTIVE.advance(Next::CheckPort { attempt: 1 }, Event::Spawned).is_none());
    assert!(INTERACTIVE.advance(Next::Spawn { attempt: 1 }, Event::Diagnosed).is_none());
    assert!(INTERACTIVE
        .advance(Next::CheckPluginTree { attempt: 5 }, Event::PluginTree { broken: false })
        .is_none());
    assert!(INTERACTIVE.advance(Next::Stop, Event::Port { up: true }).is_none());
}

#[test]
fn pauses_double_up_to_sixteen_seconds() {
    let pauses: Vec<u64> = (0..7).map(backoff_seconds).collect();
    assert_eq!(pauses, vec![1, 2, 4, 8, 16, 16, 16]);
    assert_eq!(backoff_seconds(u32::MAX), 16);
}

#[test]
fn lines_on_the_startup_screen() {
    assert_eq!(
        status_text(Status::Preparing),
        "正在准备运行环境（安装后首次启动可能需要十几秒），请稍候…"
    );
    assert_eq!(status_text(Status::Starting), "DeepSeek Harness 正在启动，请稍候…");
    assert_eq!(
        status_text(Status::Diagnosing),
        "启动失败，正在运行额外诊断（--port 0）…"
    );
    assert_eq!(status_text(Status::RoundFailed), "后台重试未成功，等待下一轮…");
    assert_eq!(
        status_text(Status::Retrying { attempt: 3 }),
        "启动未成功，正在自动重试（3/5）…"
    );
}

#[test]
fn failures_on_the_startup_screen() {
    assert_eq!(
        failure_text(Failure::NotSpawned, "not found"),
        "无法启动 npx @deepseek-ai/dsh web：\nnot found"
    );
    assert_eq!(
        failure_text(Failure::KeepsExiting, "X"),
        "dsh web 进程多次启动失败，Web UI 未能启动。\n\
         程序已自动重试多次并完成额外诊断：\nX\n\
         程序将在后台持续自动重试（间隔递增，最长约 30 分钟一轮），\
         期间会自动清理损坏的安装缓存；恢复后会自动进入界面。\n\
         详见下方日志文件。"
    );
    assert_eq!(
        failure_text(Failure::TimedOut, "X"),
        "等待 Web UI 启动超时（10 分钟）。\n程序将继续在后台自动重试。\n详见下方日志文件。"
    );
    assert_eq!(
        failure_text(Failure::NotReplaced, "X"),
        "自动重启程序失败。\n程序将继续在后台自动重试。\n详见下方日志文件。"
    );
}

#[test]
fn notes_of_rounds_in_the_background() {
    assert_eq!(note_text(Note::NotSpawned, "e"), "后台重试：无法启动 npx：e");
    assert_eq!(note_text(Note::RoundFailed, "e"), "后台重试未成功，等待下一轮…");
    assert_eq!(
        note_text(Note::TimedOut, "e"),
        "后台重试：等待 Web UI 启动超时，已回收进程并清理安装缓存"
    );
}
