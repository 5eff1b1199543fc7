use dsh_desktop::diagnose::{
    begin_note, exit_summary, not_started_summary, port0_args, result_note, run_port0_diagnostic,
    running_summary, unknown_note, unknown_summary, Poll, Seen,
};
use dsh_desktop::latch::Latch;
use dsh_desktop::retries::{
    advance, note_text, retry_delay, round_text, schedule_background_retries, Effect, Next, Note,
};
use dsh_desktop::startup::WaitOutcome;
use dsh_desktop::waiting::{
    begin_resolution, probe_module_resolution, probe_without_process, resolution_timeout_note,
    restart_poll, wait_for_resolution, wait_until_ready, Probe, ProbePoll, ProbeSeen, ReadyPoll,
    ResolutionPoll,
};

#[test]
fn service_is_waited_for() {
    let ready = ReadyPoll::Done(WaitOutcome::Ready);
    let exited = ReadyPoll::Done(WaitOutcome::Exited);
    let timeout = ReadyPoll::Done(WaitOutcome::Timeout);
    let sleep = ReadyPoll::Sleep { millis: 400 };
    assert_eq!(wait_until_ready(true, true, true, 600000), ready);
    assert_eq!(wait_until_ready(false, true, true, 600000), exited);
    assert_eq!(wait_until_ready(false, false, true, 0), sleep);
    assert_eq!(wait_until_ready(false, true, false, 599999), sleep);
    assert_eq!(wait_until_ready(false, true, false, 600000), timeout);
}

#[test]
fn waiting_for_the_service_ends() {
    let mut looks = 0;
    let mut elapsed = 0;
    while let ReadyPoll::Sleep { millis } = wait_until_ready(false, true, false, elapsed) {
        looks += 1;
        elapsed += millis;
    }
    assert_eq!(looks, 1500);
}

#[test]
fn modules_are_waited_for() {
    let proceed = ResolutionPoll::Proceed { timed_out: false };
    assert_eq!(begin_resolution(false), proceed);
    assert_eq!(begin_resolution(true), ResolutionPoll::Probe { after_ms: 0 });
    assert_eq!(wait_for_resolution(Probe::Resolved, 90000), proceed);
    assert_eq!(wait_for_resolution(Probe::Unusable, 0), proceed);
    assert_eq!(
        wait_for_resolution(Probe::Unresolved, 89999),
        ResolutionPoll::Probe { after_ms: 500 }
    );
    assert_eq!(
        wait_for_resolution(Probe::Unresolved, 90000),
        ResolutionPoll::Proceed { timed_out: true }
    );
    assert_eq!(
        resolution_timeout_note(),
        "dsh-desktop: 环境就绪探测超时，直接进入启动流程"
    );
}

#[test]
fn waiting_for_modules_ends() {
    let mut tries = 0;
    let mut elapsed = 0;
    while let ResolutionPoll::Probe { after_ms } = wait_for_resolution(Probe::Unresolved, elapsed) {
        tries += 1;
        elapsed += after_ms;
    }
    assert_eq!(tries, 180);
}

#[test]
fn module_probe_is_looked_at() {
    let done = |probe| ProbePoll::Done { probe, kill: false };
    assert_eq!(
        probe_module_resolution(ProbeSeen::Ended { success: true }, 9000),
        done(Probe::Resolved)
    );
    assert_eq!(
        probe_module_resolution(ProbeSeen::Ended { success: false }, 0),
        done(Probe::Unresolved)
    );
    assert_eq!(probe_module_resolution(ProbeSeen::Unknown, 0), done(Probe::Unusable));
    assert_eq!(
        probe_module_resolution(ProbeSeen::Running, 4999),
        ProbePoll::Sleep { millis: 200 }
    );
    assert_eq!(
        probe_module_resolution(ProbeSeen::Running, 5000),
        ProbePoll::Done {
            probe: Probe::Unresolved,
            kill: true
        }
    );
}

#[test]
fn module_probe_ends() {
    let mut looks = 0;
    let mut elapsed = 0;
    while let ProbePoll::Sleep { millis } = probe_module_resolution(ProbeSeen::Running, elapsed) {
        looks += 1;
        elapsed += millis;
    }
    assert_eq!(looks, 25);
}

#[test]
fn module_probe_without_profile_or_node() {
    assert_eq!(probe_without_process(false, true), Some(Probe::Resolved));
    assert_eq!(probe_without_process(true, true), Some(Probe::Unusable));
    assert_eq!(probe_without_process(true, false), None);
}

#[test]
fn restarted_service_is_waited_for() {
    assert_eq!(restart_poll(true, 0), None);
    assert_eq!(restart_poll(false, 59999), Some(400));
    assert_eq!(restart_poll(false, 60000), None);
}

#[test]
fn pauses_between_rounds() {
    let pauses: Vec<u64> = (0..9).map(retry_delay).collect();
    assert_eq!(pauses, vec![60, 120, 240, 300, 600, 900, 1800, 1800, 1800]);
    assert_eq!(retry_delay(u64::MAX), 1800);
}

#[test]
fn retries_are_scheduled_once() {
    let mut running = Latch::new();
    let step = schedule_background_retries(&mut running).unwrap();
    assert!(step.effects.is_empty());
    assert_eq!(step.next, Next::Pause { round: 0, seconds: 60 });
    assert!(schedule_background_retries(&mut running).is_none());
    running.leave();
    assert!(schedule_background_retries(&mut running).is_some());
}

#[test]
fn rounds_go_on_while_the_service_is_down() {
    let mut next = Next::Pause { round: 0, seconds: 60 };
    for round in 0..10 {
        assert_eq!(
            next,
            Next::Pause {
                round,
                seconds: retry_delay(round)
            }
        );
        let step = advance(next, false).unwrap();
        assert_eq!(
            step.effects,
            vec![
                Effect::ShowRound { number: round + 1 },
                Effect::Log(Note::Round { number: round + 1 }),
                Effect::RunFlow
            ]
        );
        assert_eq!(step.next, Next::Check { round });
        let step = advance(step.next, false).unwrap();
        assert!(step.effects.is_empty());
        next = step.next;
    }
}

#[test]
fn retries_end_when_the_service_is_up() {
    let step = advance(Next::Pause { round: 3, seconds: 300 }, true).unwrap();
    assert_eq!(
        step.effects,
        vec![Effect::Log(Note::Detected), Effect::Navigate, Effect::OpenLatch]
    );
    assert_eq!(step.next, Next::Stop);
    let step = advance(Next::Check { round: 3 }, true).unwrap();
    assert_eq!(step.effects, vec![Effect::Navigate, Effect::OpenLatch]);
    assert_eq!(step.next, Next::Stop);
    assert!(advance(Next::Stop, true).is_none());
}

#[test]
fn texts_of_rounds() {
    assert_eq!(note_text(Note::Detected), "后台重试：检测到服务已就绪，进入界面。");
    assert_eq!(note_text(Note::Round { number: 12 }), "后台自动重试（第 12 轮）…");
    assert_eq!(round_text(1), "正在后台自动重试（第 1 轮）…");
}

#[test]
fn diagnosis_is_looked_at() {
    assert_eq!(run_port0_diagnostic(Seen::Exited, 60000), Poll::ReportExit);
    assert_eq!(run_port0_diagnostic(Seen::Unknown, 0), Poll::ReportUnknown);
    assert_eq!(run_port0_diagnostic(Seen::Running, 59999), Poll::Sleep { millis: 500 });
    assert_eq!(run_port0_diagnostic(Seen::Running, 60000), Poll::ReportRunning);
    assert_eq!(port0_args(), vec!["--port", "0"]);
}

#[test]
fn reasons_for_the_end_of_the_diagnosis() {
    assert_eq!(
        exit_summary("Cannot find package\nlisten EADDRINUSE: 3080"),
        "失败：EADDRINUSE（端口冲突）"
    );
    assert_eq!(
        exit_summary("Error: Cannot find package 'x'"),
        "失败：Cannot find package（与正式启动相同的模块解析错误）"
    );
    assert_eq!(
        exit_summary("Error: one\r\n  TypeError: two \r\nat x\n"),
        "失败：TypeError: two"
    );
    assert_eq!(exit_summary("error: none\n"), "失败：未知错误");
    assert_eq!(exit_summary(""), "失败：未知错误");
}

#[test]
fn report_of_a_running_diagnosis() {
    assert_eq!(
        running_summary("dsh web: http://127.0.0.1:1\n dsh web: http://x\ndsh web: http://127.0.0.1:2 \r\nbye\n"),
        "成功（dsh web: http://127.0.0.1:2），诊断进程已关闭"
    );
    assert_eq!(
        running_summary("starting\n"),
        "成功（服务持续运行 60 秒），诊断进程已关闭"
    );
}

#[test]
fn other_texts_of_the_diagnosis() {
    assert_eq!(not_started_summary("e"), "无法启动诊断进程：e");
    assert_eq!(unknown_summary("e"), "诊断进程状态检查失败：e");
    assert_eq!(begin_note(), "额外诊断：以 --port 0 启动一次 dsh…");
    assert_eq!(result_note("s"), "额外诊断(--port 0) 结果：s");
    assert_eq!(unknown_note("e"), "额外诊断(--port 0) 状态检查失败：e");
}

#[test]
fn diagnosis_ends() {
    let mut looks = 0;
    let mut elapsed = 0;
    while let Poll::Sleep { millis } = run_port0_diagnostic(Seen::Running, elapsed) {
        looks += 1;
        elapsed += millis;
    }
    assert_eq!(looks, 120);
}

#[test]
fn waiting_for_a_restarted_service_ends() {
    let mut looks = 0;
    let mut elapsed = 0;
    while let Some(millis) = restart_poll(false, elapsed) {
        looks += 1;
        elapsed += millis;
    }
    assert_eq!(looks, 150);
}
