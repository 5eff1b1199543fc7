use dsh_desktop::command::{
    curl_args, dsh_command, extract_args, extraction_note, extraction_succeeded, kill_tree_args,
    local_node, no_node_error, probe_command, wget_args, CommandPlan, Word,
};
use dsh_desktop::node::{
    bundled_node_archive_candidates, local_node_dir, node_arch_suffix, node_archive_name,
    node_archive_parts, node_bin_name, node_download_path, node_download_urls, node_platform,
    node_release_name, node_root_dir, node_source, Answer, NodeMemo, NodeSource, Question, NODE_VERSION,
};
use dsh_desktop::place::Location;

const SYSTEMS: [&str; 4] = ["windows", "macos", "linux", "freebsd"];
const PROCESSORS: [&str; 4] = ["x86_64", "aarch64", "x86", "riscv64"];

fn path(place: &Location<&str>) -> String {
    let mut text = place.root.to_string();
    for segment in &place.segments {
        text.push('/');
        text.push_str(segment);
    }
    text
}

fn word(word: &Word<&str>) -> String {
    match word {
        Word::Text(text) => text.clone(),
        Word::Path(place) => path(place),
    }
}

fn words(all: &[Word<&str>]) -> Vec<String> {
    all.iter().map(word).collect()
}

/// Directory, archive and executable are named as in the official releases.
#[test]
fn portable_node_naming() {
    for os in SYSTEMS {
        for arch in PROCESSORS {
            let (ext, tar_flags) = node_archive_parts(os);
            let expected_platform = if os == "windows" {
                "win"
            } else if os == "macos" {
                "darwin"
            } else {
                "linux"
            };
            let expected_ext = match expected_platform {
                "win" => "zip",
                "darwin" => "tar.gz",
                _ => "tar.xz",
            };
            assert_eq!(node_platform(os), expected_platform);
            assert_eq!(ext, expected_ext);
            assert!(!tar_flags.is_empty());
            assert_eq!(
                node_bin_name(os),
                if os == "windows" { "node.exe" } else { "node" }
            );
            let dir = local_node_dir(Location::at("config"), os, arch);
            let dir_name = dir.file_name().unwrap();
            assert_eq!(
                dir_name,
                format!(
                    "node-v{NODE_VERSION}-{expected_platform}-{}",
                    node_arch_suffix(arch)
                )
            );
        }
    }
}

/// The mirror and the official source both name the same archive.
#[test]
fn portable_node_download_urls() {
    for os in SYSTEMS {
        for arch in PROCESSORS {
            let (ext, _) = node_archive_parts(os);
            let name = format!(
                "node-v{NODE_VERSION}-{}-{}.{ext}",
                node_platform(os),
                node_arch_suffix(arch)
            );
            let urls = node_download_urls(os, arch);
            assert_eq!(
                urls,
                vec![
                    format!("https://registry.npmmirror.com/-/binary/node/v{NODE_VERSION}/{name}"),
                    format!("https://nodejs.org/dist/v{NODE_VERSION}/{name}"),
                ]
            );
            for url in urls {
                assert!(url.ends_with(&name), "URL 应以归档名结尾：{url}");
                assert!(
                    url.contains(&format!("node-v{NODE_VERSION}")),
                    "URL 版本号错误：{url}"
                );
            }
        }
    }
}

/// The bundled archive has the official name and lies in a runtime directory.
#[test]
fn bundled_node_archive_candidates_match_name() {
    for os in SYSTEMS {
        for arch in PROCESSORS {
            let (ext, _) = node_archive_parts(os);
            let expected = format!(
                "node-v{NODE_VERSION}-{}-{}.{ext}",
                node_platform(os),
                node_arch_suffix(arch)
            );
            let candidates = bundled_node_archive_candidates(Some("bin"), os, arch);
            assert!(!candidates.is_empty(), "至少应有一个候选路径");
            for candidate in &candidates {
                assert_eq!(
                    candidate.file_name().unwrap(),
                    expected,
                    "内置归档文件名与官方命名不一致：{}",
                    path(candidate)
                );
                assert!(
                    path(candidate).contains("runtime"),
                    "内置归档应位于 runtime 目录内：{}",
                    path(candidate)
                );
            }
        }
    }
}

#[test]
fn processors_have_official_names() {
    assert_eq!(node_arch_suffix("x86_64"), "x64");
    assert_eq!(node_arch_suffix("aarch64"), "arm64");
    assert_eq!(node_arch_suffix("x86"), "x86");
    assert_eq!(node_arch_suffix("powerpc"), "x64");
}

#[test]
fn archives_are_unpacked_by_their_kind() {
    assert_eq!(node_archive_parts("windows"), ("zip", vec!["-xf"]));
    assert_eq!(node_archive_parts("macos"), ("tar.gz", vec!["-xzf"]));
    assert_eq!(node_archive_parts("linux"), ("tar.xz", vec!["-xJf"]));
}

#[test]
fn release_and_archive_names() {
    assert_eq!(NODE_VERSION, "24.12.0");
    assert_eq!(node_release_name("windows", "x86"), "node-v24.12.0-win-x86");
    assert_eq!(
        node_archive_name("macos", "aarch64"),
        "node-v24.12.0-darwin-arm64.tar.gz"
    );
}

#[test]
fn bundled_archives_lie_beside_the_program_or_among_the_resources() {
    let found = bundled_node_archive_candidates(Some("bin"), "linux", "x86_64");
    assert_eq!(found.len(), 2);
    assert_eq!(path(&found[0]), "bin/runtime/node-v24.12.0-linux-x64.tar.xz");
    assert_eq!(
        path(&found[1]),
        "bin/../Resources/runtime/node-v24.12.0-linux-x64.tar.xz"
    );
    let none: Option<&str> = None;
    assert!(bundled_node_archive_candidates(none, "linux", "x86_64").is_empty());
}

#[test]
fn portable_node_is_unpacked_among_the_own_files() {
    let dir = local_node_dir(Location::at("data").join("dsh-desktop"), "linux", "x86_64");
    assert_eq!(path(&dir), "data/dsh-desktop/node/node-v24.12.0-linux-x64");
}

#[test]
fn portable_node_is_looked_for_where_it_is_unpacked() {
    for os in SYSTEMS {
        for arch in PROCESSORS {
            let root = node_root_dir(Location::at("c").join("d"));
            assert_eq!(path(&root), "c/d/node");
            let dir = local_node_dir(Location::at("c").join("d"), os, arch);
            assert_eq!(path(&dir), path(&root.join(&node_release_name(os, arch))));
        }
    }
}

#[test]
fn archive_is_downloaded_among_the_own_files() {
    let archive = node_download_path(Location::at("c").join("d"), "windows", "aarch64");
    assert_eq!(path(&archive), "c/d/node-v24.12.0-win-arm64.zip");
}

#[test]
fn system_node_is_preferred() {
    assert!(matches!(node_source(true, Some("n")), NodeSource::System));
    assert!(matches!(node_source(false, Some("n")), NodeSource::Local("n")));
    let none: Option<&str> = None;
    assert!(matches!(node_source(false, none), NodeSource::Missing));
}

#[test]
fn node_of_the_system_is_found_out_once() {
    let mut memo: NodeMemo<&str> = NodeMemo::new();
    assert_eq!(memo.asks(), Question::System);
    assert!(memo.found().is_none());
    memo.learn(Answer::Local(Some("early")));
    assert_eq!(memo.asks(), Question::System);
    memo.learn(Answer::System(true));
    for answer in [Answer::System(false), Answer::Local(Some("n")), Answer::Local(None)] {
        assert_eq!(memo.asks(), Question::Nothing);
        assert!(matches!(memo.found(), Some(NodeSource::System)));
        memo.learn(answer);
    }
    assert!(matches!(memo.found(), Some(NodeSource::System)));
}

#[test]
fn portable_node_is_found_out_once() {
    for local in [Some("n"), None] {
        let mut memo: NodeMemo<&str> = NodeMemo::new();
        memo.learn(Answer::System(false));
        assert_eq!(memo.asks(), Question::Local);
        assert!(memo.found().is_none());
        memo.learn(Answer::System(true));
        assert_eq!(memo.asks(), Question::Local);
        memo.learn(Answer::Local(local));
        assert_eq!(memo.asks(), Question::Nothing);
        memo.learn(Answer::System(true));
        match local {
            Some(_) => assert!(matches!(memo.found(), Some(NodeSource::Local("n")))),
            None => assert!(matches!(memo.found(), Some(NodeSource::Missing))),
        }
    }
}

fn plan(os: &str, source: NodeSource<&'static str>, extra: Vec<&str>) -> CommandPlan<&'static str> {
    let inherited = vec![
        "PATH".to_string(),
        "npm_config_cache".to_string(),
        "NPM_CONFIG_HTTPS_PROXY".to_string(),
        "NPM_CONFIG_Prefix".to_string(),
    ];
    dsh_command(os, source, &extra, Some("home"), Some("work"), &inherited).unwrap()
}

#[test]
fn service_runs_through_npx_of_the_system() {
    let linux = plan("linux", NodeSource::System, vec![]);
    assert_eq!(word(&linux.program), "npx");
    assert_eq!(words(&linux.args), vec!["-y", "@deepseek-ai/dsh", "web"]);
    assert_eq!(linux.set.len(), 1);
    assert_eq!(linux.set[0].0, "DSH_HOME");
    assert_eq!(word(&linux.set[0].1), "home");
    assert_eq!(path(&linux.working_dir.unwrap()), "work");
    let windows = plan("windows", NodeSource::System, vec!["--port", "0"]);
    assert_eq!(word(&windows.program), "cmd");
    assert_eq!(
        words(&windows.args),
        vec!["/C", "npx", "-y", "@deepseek-ai/dsh", "web", "--port", "0"]
    );
}

#[test]
fn service_runs_through_the_portable_node() {
    let plan = plan("windows", NodeSource::Local("node"), vec![]);
    assert_eq!(word(&plan.program), "node/node.exe");
    assert_eq!(
        words(&plan.args),
        vec![
            "node/node_modules/npm/bin/npx-cli.js",
            "-y",
            "@deepseek-ai/dsh",
            "web"
        ]
    );
    assert_eq!(plan.set.len(), 2);
    assert_eq!(plan.set[0].0, "npm_config_registry");
    assert_eq!(word(&plan.set[0].1), "https://registry.npmmirror.com");
    assert_eq!(plan.set[1].0, "DSH_HOME");
    for (name, _) in &plan.set {
        assert!(!plan.remove.contains(name));
    }
    assert_eq!(path(&local_node("node", "linux")), "node/node");
}

#[test]
fn service_does_not_inherit_what_disturbs_npm() {
    let plan = plan("linux", NodeSource::System, vec![]);
    assert_eq!(
        plan.remove,
        vec!["NODE_OPTIONS", "NODE_PATH", "npm_config_cache", "NPM_CONFIG_Prefix"]
    );
}

#[test]
fn service_without_settings_or_node() {
    let source: NodeSource<&str> = NodeSource::System;
    let plain = dsh_command("linux", source, &vec![], None, None, &vec![]).unwrap();
    assert!(plain.set.is_empty());
    assert!(plain.working_dir.is_none());
    let missing: NodeSource<&str> = NodeSource::Missing;
    assert!(dsh_command("linux", missing, &vec![], None, None, &vec![]).is_none());
    assert_eq!(
        no_node_error(),
        "未检测到 Node.js 环境，且便携 Node 自动下载失败；请手动安装 Node.js 后重试"
    );
}

#[test]
fn probe_imports_a_module_from_the_profile() {
    let profile = Location::at("home").join("profiles").join("web");
    let plan = probe_command("linux", NodeSource::System, profile, &vec![]).unwrap();
    assert_eq!(word(&plan.program), "node");
    assert_eq!(
        words(&plan.args),
        vec![
            "--input-type=module",
            "-e",
            "import('@deepseek-ai/dsh-llm').then(()=>process.exit(0),()=>process.exit(1))"
        ]
    );
    assert!(plan.set.is_empty());
    assert_eq!(plan.remove, vec!["NODE_OPTIONS", "NODE_PATH"]);
    assert_eq!(path(&plan.working_dir.unwrap()), "home/profiles/web");
    let local = probe_command("windows", NodeSource::Local("n"), Location::at("p"), &vec![]);
    assert_eq!(word(&local.unwrap().program), "n/node.exe");
    let missing = probe_command("windows", NodeSource::Missing, Location::at("p"), &vec![]);
    assert!(missing.is_none());
}

#[test]
fn tar_unpacks_into_the_target() {
    let args = extract_args("macos", Location::at("a").join("b"), Location::at("c"));
    assert_eq!(words(&args), vec!["-xzf", "a/b", "-C", "c/node"]);
    assert!(extraction_succeeded(true, true));
    assert!(!extraction_succeeded(true, false));
    assert!(!extraction_succeeded(false, true));
    assert_eq!(extraction_note(true, "d"), "便携 Node 已就绪：d");
    assert_eq!(extraction_note(false, "d"), "便携 Node 解压失败");
}

#[test]
fn downloads_go_to_the_archive() {
    assert_eq!(
        words(&curl_args(Location::at("a"), "https://x")),
        vec!["-L", "--fail", "--silent", "--show-error", "-o", "a", "https://x"]
    );
    assert_eq!(
        words(&wget_args(Location::at("a"), "https://x")),
        vec!["-q", "-O", "a", "https://x"]
    );
}

#[test]
fn whole_process_trees_are_ended() {
    assert_eq!(kill_tree_args(4711), vec!["/PID", "4711", "/T", "/F"]);
}
