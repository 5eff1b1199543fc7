use dsh_desktop::environment::{dump_env_diagnostics, sanitize_child_env};
use dsh_desktop::log::{
    dsh_home_in_use, launch_note, log_entry, log_line, needs_rotation, read_log_tail, rotation_note, tail_offset,
    DIAGNOSTIC_TAIL_BYTES, LOG_TAIL_BYTES, MAX_LOG_BYTES,
};
use dsh_desktop::paths::{
    config_dir, config_path, dsh_home_dir, log_path, module_fallback_dir, relaunch_marker_path,
    rotated_log_path, web_profile_dir, workspace_dir, Candidate,
};
use dsh_desktop::place::Location;
use dsh_desktop::settings::{
    config_file, entered_config, get_settings, load_config, read_config, save_settings,
    saved_message, write_failed_message, AppConfig,
};

fn path(place: Location<&str>) -> String {
    let mut text = place.root.to_string();
    for segment in &place.segments {
        text.push('/');
        text.push_str(segment);
    }
    text
}

fn texts(all: &[&str]) -> Vec<String> {
    all.iter().map(|text| text.to_string()).collect()
}

fn config(dsh_home: Option<&str>, workspace: Option<&str>) -> AppConfig {
    AppConfig {
        dsh_home: dsh_home.map(str::to_string),
        workspace: workspace.map(str::to_string),
    }
}

#[test]
fn own_files_by_the_environment() {
    let dir = |a, b, c| path(config_dir(a, b, c, "tmp"));
    assert_eq!(dir(Some("l"), Some("x"), Some("h")), "l/dsh-desktop");
    assert_eq!(dir(None, Some("x"), Some("h")), "x/dsh-desktop");
    assert_eq!(dir(None, None, Some("h")), "h/.local/share/dsh-desktop");
    assert_eq!(dir(None, None, None), "tmp/dsh-desktop");
}

#[test]
fn names_of_own_files() {
    assert_eq!(path(log_path(Location::at("c"))), "c/dsh-web.log");
    assert_eq!(path(rotated_log_path(Location::at("c"))), "c/dsh-web.log.old");
    assert_eq!(path(config_path(Location::at("c"))), "c/config.json");
    assert_eq!(path(relaunch_marker_path(Location::at("c"))), "c/.auto-relaunch");
}

#[test]
fn data_directory_of_dsh() {
    let dir = |a, b, c, d| path(dsh_home_dir(a, b, c, d, "."));
    assert_eq!(dir(Some("e"), Some("c"), Some("u"), Some("h")), "e");
    assert_eq!(dir(None, Some("c"), Some("u"), Some("h")), "c");
    assert_eq!(dir(None, None, Some("u"), Some("h")), "u/.dsh");
    assert_eq!(dir(None, None, None, Some("h")), "h/.dsh");
    assert_eq!(dir(None, None, None, None), "./.dsh");
    assert_eq!(
        path(module_fallback_dir(Location::at("h").join(".dsh"))),
        "h/.dsh/profiles/node_modules"
    );
    assert_eq!(path(web_profile_dir(Location::at("h"))), "h/profiles/web");
}

#[test]
fn working_directory_of_dsh() {
    let there = |path| Some(Candidate { path, is_dir: true });
    let gone = |path| Some(Candidate { path, is_dir: false });
    assert_eq!(workspace_dir(there("e"), Some("c"), there("u"), there("h")), Some("e"));
    assert_eq!(workspace_dir(gone("e"), Some("c"), there("u"), there("h")), Some("c"));
    assert_eq!(workspace_dir(gone("e"), None, there("u"), there("h")), Some("u"));
    assert_eq!(workspace_dir(None, None, gone("u"), there("h")), None);
    assert_eq!(workspace_dir(None, None, None, there("h")), Some("h"));
    assert_eq!(workspace_dir::<&str>(None, None, None, None), None);
}

#[test]
fn lines_of_the_log() {
    assert_eq!(log_entry("12:34:56", "text"), "dsh-desktop: [12:34:56] text");
    assert_eq!(
        launch_note(Some("D:/dsh"), Some("/d"), None),
        "DSH_HOME=D:/dsh workspace=(继承进程目录)"
    );
    assert_eq!(launch_note(None, Some("/d"), Some("/w")), "DSH_HOME=/d workspace=/w");
    assert_eq!(launch_note(None, None, Some("w")), "DSH_HOME=(默认 ~/.dsh) workspace=w");
    assert_eq!(rotation_note(), "日志超过 2MB，旧日志已轮转为 dsh-web.log.old");
}

#[test]
fn configured_home_comes_before_that_of_the_environment() {
    assert_eq!(dsh_home_in_use(Some("c"), Some("e")), Some("c"));
    assert_eq!(dsh_home_in_use(Some("c"), None), Some("c"));
    assert_eq!(dsh_home_in_use(None, Some("e")), Some("e"));
    assert_eq!(dsh_home_in_use::<&str>(None, None), None);
}

#[test]
fn line_of_the_log_has_the_time_of_day() {
    let line = log_line("日志 text");
    let stamp = line
        .strip_prefix("dsh-desktop: [")
        .unwrap()
        .strip_suffix("] 日志 text")
        .unwrap();
    let parts: Vec<&str> = stamp.split(':').collect();
    assert_eq!(stamp.len(), 8);
    assert_eq!(parts.len(), 3);
    assert!(parts[0].parse::<u32>().unwrap() < 24);
    assert!(parts[1].parse::<u32>().unwrap() < 60);
    assert!(parts[2].parse::<u32>().unwrap() <= 60);
}

#[test]
fn large_logs_are_put_away() {
    assert_eq!(MAX_LOG_BYTES, 2 * 1024 * 1024);
    assert!(!needs_rotation(0));
    assert!(!needs_rotation(2 * 1024 * 1024));
    assert!(needs_rotation(2 * 1024 * 1024 + 1));
}

#[test]
fn end_of_the_log() {
    assert_eq!(LOG_TAIL_BYTES, 64 * 1024);
    assert_eq!(DIAGNOSTIC_TAIL_BYTES, 8 * 1024);
    assert_eq!(tail_offset(100, 64), 36);
    assert_eq!(tail_offset(64, 64), 0);
    assert_eq!(tail_offset(3, 64), 0);
    assert_eq!(read_log_tail(None), "");
    assert_eq!(read_log_tail(Some("日志\n".as_bytes())), "日志\n");
    assert_eq!(read_log_tail(Some(&[0x97, b'a', 0xff, b'b'])), "\u{fffd}a\u{fffd}b");
}

#[test]
fn variables_that_disturb_are_removed() {
    assert_eq!(
        sanitize_child_env(&texts(&[
            "PATH",
            "npm_config_cache",
            "NPM_CONFIG_PROXY",
            "npm_config_https_proxy",
            "npm_config_@scope:Registry",
            "Npm_Config_Prefix",
            "xnpm_config_prefix",
            "NODE_ENV",
        ])),
        vec!["NODE_OPTIONS", "NODE_PATH", "npm_config_cache", "Npm_Config_Prefix"]
    );
    assert_eq!(sanitize_child_env(&vec![]), vec!["NODE_OPTIONS", "NODE_PATH"]);
}

#[test]
fn variables_that_matter_are_logged() {
    let variables: Vec<(String, String)> = [
        ("HOME", "h"),
        ("Path", "p"),
        ("NPM_CONFIG_TOKEN", "t"),
        ("node_env", "n"),
        ("ELECTRON_RUN", "e"),
        ("DSH_HOME", "d"),
        ("PNPM_HOME", "m"),
        ("NVM_SYMLINK", "s"),
        ("PATHEXT", "x"),
    ]
    .iter()
    .map(|(name, value)| (name.to_string(), value.to_string()))
    .collect();
    assert_eq!(
        dump_env_diagnostics(&variables).unwrap(),
        "dsh-desktop: 环境诊断：\n  Path=p\n  NPM_CONFIG_TOKEN（值省略）\n  node_env=n\n  \
         ELECTRON_RUN=e\n  DSH_HOME=d\n  PNPM_HOME=m\n  NVM_SYMLINK=s"
    );
}

#[test]
fn nothing_is_logged_of_other_variables() {
    assert_eq!(dump_env_diagnostics(&vec![]), None);
    let other = vec![("HOME".to_string(), "h".to_string())];
    assert_eq!(dump_env_diagnostics(&other), None);
}

#[test]
fn values_for_npm_stay_secret() {
    let dump = |value: &str| {
        dump_env_diagnostics(&vec![("npm_config_token".to_string(), value.to_string())])
    };
    assert_eq!(dump("one"), dump("other"));
}

#[test]
fn settings_file_is_read() {
    let read = read_config(Some(r#"{"dshHome": "D:\\dsh", "workspace": "w\u00e4", "x": 1}"#));
    assert_eq!(read.dsh_home.as_deref(), Some("D:\\dsh"));
    assert_eq!(read.workspace.as_deref(), Some("wä"));
    let partly = read_config(Some(r#"{"dshHome": 7, "workspace": "w"}"#));
    assert_eq!(partly.dsh_home, None);
    assert_eq!(partly.workspace.as_deref(), Some("w"));
    for broken in [None, Some(""), Some("{"), Some("[\"dshHome\"]"), Some("null")] {
        let read = read_config(broken);
        assert_eq!(read.dsh_home, None);
        assert_eq!(read.workspace, None);
    }
}

#[test]
fn only_directories_are_loaded() {
    let loaded = load_config(config(Some("a"), Some("b")), true, false);
    assert_eq!(loaded.dsh_home.as_deref(), Some("a"));
    assert_eq!(loaded.workspace, None);
    let loaded = load_config(config(None, Some("b")), true, true);
    assert_eq!(loaded.dsh_home, None);
    assert_eq!(loaded.workspace.as_deref(), Some("b"));
}

#[test]
fn blank_entries_name_nothing() {
    let entered = entered_config(Some(" \t ".to_string()), Some(" w ".to_string()));
    assert_eq!(entered.dsh_home, None);
    assert_eq!(entered.workspace.as_deref(), Some(" w "));
}

#[test]
fn settings_are_saved() {
    let file = |dsh_home, workspace| save_settings(&config(dsh_home, workspace), true, true);
    assert_eq!(file(None, None), Ok("{}".to_string()));
    assert_eq!(
        file(Some("D:\\dsh"), None),
        Ok("{\n  \"dshHome\": \"D:\\\\dsh\"\n}".to_string())
    );
    assert_eq!(
        file(Some("a"), Some("b\"\u{1}\n")),
        Ok("{\n  \"dshHome\": \"a\",\n  \"workspace\": \"b\\\"\\u0001\\n\"\n}".to_string())
    );
}

#[test]
fn missing_directories_are_refused() {
    assert_eq!(
        save_settings(&config(Some("a"), Some("b")), false, false),
        Err("保存失败：DSH_HOME 目录不存在或不是文件夹：a".to_string())
    );
    assert_eq!(
        save_settings(&config(Some("a"), Some("b")), true, false),
        Err("保存失败：工作目录不存在或不是文件夹：b".to_string())
    );
    assert!(save_settings(&config(None, None), false, false).is_ok());
}

#[test]
fn saved_settings_are_read_back() {
    for dsh_home in [None, Some("D:\\数据\\.dsh"), Some("a\"\u{7f}\u{1f}\t/")] {
        for workspace in [None, Some("/home/u/w"), Some("\u{2028}\\n")] {
            let read = read_config(Some(&config_file(&config(dsh_home, workspace))));
            assert_eq!(read.dsh_home.as_deref(), dsh_home);
            assert_eq!(read.workspace.as_deref(), workspace);
        }
    }
}

#[test]
fn messages_on_saving() {
    assert_eq!(write_failed_message("p", "e"), "保存失败：无法写入 p\ne");
    assert_eq!(
        saved_message(true, true),
        "设置已保存，本地服务已按新设置重启，主界面已刷新。"
    );
    assert_eq!(
        saved_message(true, false),
        "设置已保存，但本地服务重启失败，新设置将在下次由本程序启动服务时生效。"
    );
    for restarted in [true, false] {
        assert_eq!(
            saved_message(false, restarted),
            "设置已保存。当前服务由外部启动，新设置将在下次由本程序启动服务时生效。"
        );
    }
}

#[test]
fn settings_page_shows_the_directories() {
    let view = get_settings(config(Some("a"), None));
    assert_eq!(view.dsh_home.as_deref(), Some("a"));
    assert_eq!(view.workspace, None);
}
