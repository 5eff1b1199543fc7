use dsh_desktop::latch::Latch;
use dsh_desktop::page::{
    busy_script, navigate_main, reset_script, server_address, set_status, show_failure, HOST, PORT,
    WEB_URL,
};
use dsh_desktop::relaunch::{
    asks_for_parent, consume_relaunch_marker, is_installer, marker_is_fresh, marker_text, note_text, parent_known,
    parent_process_name, parent_query, powershell_args, process_name, program_started,
    relaunch_script, relaunch_self, relaunch_status, unix_now, unix_seconds, Effect, Note,
};
use dsh_desktop::server::{
    listener_pid, netstat_args, stop_server_args, tcp_listener_pid, ServerState,
};
use dsh_desktop::window::{
    asks_before_closing, close_answered, close_question, close_requested, confirm_close_if_busy,
    retry_startup, tray_command, tray_menu, CloseAction, TrayCommand,
};

#[test]
fn address_of_the_service() {
    assert_eq!(HOST, "127.0.0.1");
    assert_eq!(PORT, 3080);
    assert_eq!(server_address(), "127.0.0.1:3080");
    assert_eq!(WEB_URL, format!("http://{}", server_address()));
    assert_eq!(navigate_main().as_deref(), Some("http://127.0.0.1:3080/"));
}

#[test]
fn script_for_the_status() {
    assert_eq!(
        set_status("a \"b\"\n\\"),
        "document.getElementById('status').textContent = \"a \\\"b\\\"\\n\\\\\";"
    );
    assert_ne!(set_status("a\\n"), set_status("a\n"));
}

#[test]
fn script_for_a_failure() {
    assert_eq!(
        show_failure("第一行\n'二'", "C:\\l"),
        "document.getElementById('status').textContent = '启动失败'; \
         document.getElementById('spinner').style.display = 'none'; \
         var e = document.getElementById('error'); \
         e.textContent = \"第一行\\n'二'\" + '\\n\\n日志文件：' + \"C:\\\\l\"; \
         e.style.display = 'block'; \
         document.getElementById('retry').style.display = 'inline-block';"
    );
}

#[test]
fn script_holds_no_control_character() {
    let all: String = ('\0'..='\u{1f}').collect();
    assert!(set_status(&all).chars().all(|c| c >= ' '));
    assert!(set_status(&all).contains("\\u0000\\u0001"));
    assert!(set_status(&all).contains("\\b\\t\\n\\u000b\\f\\r\\u000e"));
    assert!(set_status(&all).contains("\\u001f"));
}

#[test]
fn other_scripts() {
    assert_eq!(
        reset_script(),
        "document.getElementById('status').textContent = '正在重新启动 Web UI…'; \
         document.getElementById('spinner').style.display = ''; \
         document.getElementById('error').style.display = 'none'; \
         document.getElementById('retry').style.display = 'none';"
    );
    assert_eq!(
        busy_script(),
        r#"(function(){ try { return document.querySelector('[data-state="ongoing"], [data-state="warning"]') !== null; } catch (e) { return false; } })()"#
    );
}

#[test]
fn only_own_processes_are_given_up() {
    let mut state: ServerState<u32> = ServerState::new();
    assert!(!state.is_owned());
    assert_eq!(state.release(), None);
    assert_eq!(state.restart_server(), None);
    assert_eq!(state.adopt(1), None);
    assert!(state.is_owned());
    assert_eq!(state.adopt(2), Some(1));
    assert_eq!(state.restart_server(), Some(Some(2)));
    assert_eq!(state.restart_server(), Some(None));
    assert_eq!(state.adopt(3), None);
    assert_eq!(state.release(), Some(3));
    assert_eq!(state.release(), None);
    assert!(state.is_owned());
}

const CONNECTIONS: &str = "\r\n  Proto  Local Address          Foreign Address        State           PID\r\n  TCP    127.0.0.1:30800        0.0.0.0:0              LISTENING       1111\r\n  TCP    127.0.0.1:50001        127.0.0.1:3080         ESTABLISHED     2222\r\n  TCP    127.0.0.1:3080         0.0.0.0:0              LISTENING       3333\r\n  TCP    0.0.0.0:3080           0.0.0.0:0              LISTENING       4444\r\n";

#[test]
fn listener_is_found_by_its_port() {
    assert_eq!(tcp_listener_pid(CONNECTIONS.as_bytes(), 3080), Some(3333));
    assert_eq!(tcp_listener_pid(CONNECTIONS.as_bytes(), 30800), Some(1111));
    assert_eq!(tcp_listener_pid(CONNECTIONS.as_bytes(), 3081), None);
    assert_eq!(tcp_listener_pid(b"\xd0\xd0 :80 LISTENING 12\n", 80), Some(12));
    assert_eq!(netstat_args(), vec!["-ano", "-p", "tcp"]);
}

#[test]
fn attached_service_is_stopped_on_windows() {
    let output = Some(CONNECTIONS.as_bytes());
    assert_eq!(
        stop_server_args("windows", output).unwrap(),
        vec!["/PID", "3333", "/T", "/F"]
    );
    assert_eq!(stop_server_args("linux", output), None);
    assert_eq!(stop_server_args("windows", None), None);
    assert_eq!(stop_server_args("windows", Some(b"nothing")), None);
}

#[test]
fn listener_without_a_number_is_none() {
    assert_eq!(listener_pid(":80 LISTENING x\n:80 LISTENING 7", 80), None);
    assert_eq!(listener_pid(":80 LISTENING 4294967296", 80), None);
    assert_eq!(listener_pid(":80 LISTENING +7 ", 80), Some(7));
    assert_eq!(listener_pid("", 80), None);
}

#[test]
fn tray_menu_entries() {
    assert_eq!(
        tray_menu(),
        vec![
            ("open", "打开主界面"),
            ("settings", "设置…"),
            ("stop-server", "停止服务并退出"),
            ("quit", "退出"),
        ]
    );
    let commands: Vec<TrayCommand> = tray_menu().iter().map(|(id, _)| tray_command(id)).collect();
    assert_eq!(
        commands,
        vec![
            TrayCommand::Open,
            TrayCommand::Settings,
            TrayCommand::StopServer,
            TrayCommand::Quit
        ]
    );
    assert_eq!(tray_command("Open"), TrayCommand::Unknown);
    assert_eq!(tray_command(""), TrayCommand::Unknown);
}

#[test]
fn main_window_asks_before_closing() {
    assert!(asks_before_closing("main"));
    assert!(!asks_before_closing("settings"));
}

#[test]
fn idle_window_is_closed() {
    for answer in ["false", "", "\"true\"", "TRUE", "null"] {
        let mut pending = Latch::new();
        assert!(close_requested(&mut pending));
        assert!(!close_requested(&mut pending));
        assert_eq!(confirm_close_if_busy(answer, &mut pending), CloseAction::Close);
        assert!(close_requested(&mut pending));
    }
}

#[test]
fn busy_window_is_closed_on_confirmation() {
    for confirmed in [true, false] {
        let mut pending = Latch::new();
        assert!(close_requested(&mut pending));
        assert_eq!(confirm_close_if_busy(" true\n", &mut pending), CloseAction::AskUser);
        assert!(!close_requested(&mut pending));
        assert_eq!(close_answered(confirmed, &mut pending), confirmed);
        assert!(close_requested(&mut pending));
    }
    assert_eq!(
        close_question(),
        (
            "当前有会话仍在进行中，关闭窗口会中断正在运行的任务。确定要关闭吗？",
            "会话仍在进行",
            "仍要关闭",
            "取消"
        )
    );
}

#[test]
fn startup_is_not_begun_twice() {
    let mut pending = Latch::new();
    assert!(retry_startup(&mut pending));
    assert!(!retry_startup(&mut pending));
    pending.leave();
    assert!(retry_startup(&mut pending));
}

#[test]
fn seconds_since_the_epoch() {
    assert_eq!(unix_seconds(None), 0);
    assert_eq!(unix_seconds(Some(1700000000)), 1700000000);
    assert_eq!(unix_seconds(Some(u64::MAX)), i64::MAX);
    assert!(unix_now() > 1700000000);
}

#[test]
fn marker_is_honoured_for_a_minute() {
    let now = 1700000000;
    let fresh = |stamp: i64| marker_is_fresh(Some(&marker_text(stamp)), now);
    assert!(fresh(now));
    assert!(fresh(now - 60));
    assert!(!fresh(now - 61));
    assert!(fresh(now + 1000));
    assert!(!fresh(i64::MIN));
    assert!(fresh(i64::MAX));
    assert!(marker_is_fresh(Some(" 1700000000\r\n"), now));
    for other in ["", "x", "1700000000.5", "99999999999999999999"] {
        assert!(!marker_is_fresh(Some(other), now));
    }
    assert!(!marker_is_fresh(None, now));
}

#[test]
fn marker_is_compared_with_the_clock() {
    assert!(consume_relaunch_marker(Some(&marker_text(unix_now()))));
    assert!(!consume_relaunch_marker(Some(&marker_text(unix_now() - 120))));
    assert!(!consume_relaunch_marker(None));
}

#[test]
fn parent_process() {
    assert_eq!(process_name(" explorer \r\n").as_deref(), Some("explorer"));
    assert_eq!(process_name(" \r\n"), None);
    assert_eq!(parent_process_name(b"msiexec\r\n").as_deref(), Some("msiexec"));
    assert_eq!(parent_process_name(b"a\xff").as_deref(), Some("a\u{fffd}"));
    assert_eq!(parent_process_name(b""), None);
    assert!(is_installer("MsiExec"));
    assert!(!is_installer("msiexec.exe"));
}

#[test]
fn parent_is_asked_for_on_windows() {
    assert!(asks_for_parent("windows", false));
    assert!(!asks_for_parent("windows", true));
    assert!(!asks_for_parent("linux", false));
}

#[test]
fn instance_of_the_installer_is_replaced() {
    assert_eq!(
        parent_known(false, Some("MSIEXEC")),
        vec![
            Effect::Log(Note::Parent),
            Effect::Log(Note::StartedByInstaller),
            Effect::Replace
        ]
    );
    assert_eq!(parent_known(false, Some("explorer")), vec![Effect::Log(Note::Parent)]);
    assert_eq!(parent_known(false, None), vec![]);
    assert_eq!(parent_known(true, Some("msiexec")), vec![]);
}

#[test]
fn replacing_the_instance() {
    assert_eq!(
        relaunch_self(true),
        vec![
            Effect::LeaveMarker,
            Effect::Log(Note::Because),
            Effect::Log(Note::Target),
            Effect::SetStatus,
            Effect::StartProgram
        ]
    );
    assert_eq!(relaunch_self(false), vec![]);
    assert_eq!(program_started(true), vec![Effect::Log(Note::Leaving), Effect::Exit]);
    assert_eq!(program_started(false), vec![Effect::Log(Note::Failed)]);
}

#[test]
fn questions_to_powershell() {
    assert_eq!(
        parent_query(42),
        "$p=(Get-CimInstance Win32_Process -Filter 'ProcessId=42').ParentProcessId; \
         (Get-Process -Id $p -ErrorAction SilentlyContinue).ProcessName"
    );
    assert_eq!(
        relaunch_script("C:\\d.exe"),
        "$r = Invoke-CimMethod -ClassName Win32_Process -MethodName Create \
         -Arguments @{CommandLine='\"C:\\d.exe\"'}; \
         if ($r -and $r.ReturnValue -eq 0) { exit 0 } else { exit 1 }"
    );
    assert_eq!(
        powershell_args("s"),
        vec!["-NoProfile", "-NonInteractive", "-Command", "s"]
    );
}

#[test]
fn texts_on_replacing_the_instance() {
    assert_eq!(note_text(Note::Parent, "p"), "启动父进程：p");
    assert_eq!(
        note_text(Note::StartedByInstaller, ""),
        "检测到由安装器直接启动：立即重启为干净实例"
    );
    assert_eq!(
        note_text(Note::Because, ""),
        "启动失败原因为模块解析异常：将自动重启程序（等效于关闭后重新打开）"
    );
    assert_eq!(note_text(Note::Target, "p"), "自动重启：目标程序 p");
    assert_eq!(
        note_text(Note::Failed, ""),
        "自动重启失败：WMI 拉起新实例失败，保持后台自动重试"
    );
    assert_eq!(
        note_text(Note::Leaving, ""),
        "自动重启：已请求 WMI 拉起新实例，本进程即将退出"
    );
    assert_eq!(relaunch_status(), "环境异常，正在自动重启程序…");
}
