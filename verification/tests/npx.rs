use dsh_desktop::latch::Latch;
use dsh_desktop::npx::{
    clear_npx_dsh_entry, dsh_package_dir, entry_cleanup_note, entry_removal_note,
    fallback_removal_note, key_manifests, npx_entries_in_log, npx_entry_dir_from_log_tail,
    plugin_tree_broken, repair_plugin_tree, EntryCleanup, Removal,
};
use dsh_desktop::place::Location;

fn path(place: &Location<String>) -> String {
    let mut text = place.root.clone();
    for segment in &place.segments {
        text.push('/');
        text.push_str(segment);
    }
    text
}

fn entries(text: &str) -> Vec<String> {
    npx_entries_in_log(text).iter().map(path).collect()
}

#[test]
fn entry_in_a_module_url() {
    let log = "Error: Cannot find package\n    at file:///C:/Users/u/npm-cache/_npx/1a2b3c4d5e6f7a8b/node_modules/@deepseek-ai/dsh/index.js:3:1\n";
    assert_eq!(entries(log), vec!["C:/Users/u/npm-cache/_npx/1a2b3c4d5e6f7a8b"]);
}

#[test]
fn entry_in_a_module_url_on_unix() {
    let log = "at file:///home/u/.npm/_npx/0123456789abcdef/node_modules/x/a.js:1\n";
    assert_eq!(entries(log), vec!["/home/u/.npm/_npx/0123456789abcdef"]);
    let found = npx_entry_dir_from_log_tail(log, &vec![true]).unwrap();
    assert_eq!(found.root, "/home/u/.npm");
    assert_eq!(found.segments, vec!["_npx", "0123456789abcdef"]);
}

#[test]
fn drive_is_a_letter_and_a_colon() {
    assert_eq!(entries("file:///d:/_npx/01234567"), Vec::<String>::new());
    assert_eq!(entries("file:///d:/n/_npx/01234567"), vec!["d:/n/_npx/01234567"]);
    assert_eq!(entries("file:///1:/n/_npx/01234567"), vec!["/1:/n/_npx/01234567"]);
    assert_eq!(entries("file:///dd:/n/_npx/01234567"), vec!["/dd:/n/_npx/01234567"]);
    assert_eq!(entries("file:///d/_npx/01234567"), Vec::<String>::new());
    assert_eq!(entries("file:///_npx/01234567"), Vec::<String>::new());
}

#[test]
fn entry_in_a_plain_path() {
    assert_eq!(
        entries("C:\\npm-cache\\_npx\\ABCDEF0123456789\\node_modules"),
        vec!["C:\\npm-cache/_npx/ABCDEF0123456789"]
    );
}

#[test]
fn entries_in_the_order_of_the_log() {
    let log = "file:///a/b/_npx/11111111/x\r\nfile:///c/d/_npx/22222222/y";
    assert_eq!(entries(log), vec!["/a/b/_npx/11111111", "/c/d/_npx/22222222"]);
}

#[test]
fn last_url_of_a_line_counts() {
    let log = "file:///first/x file:///second//_npx/0123456789/";
    assert_eq!(entries(log), vec!["/second/_npx/0123456789"]);
}

#[test]
fn url_of_an_earlier_line_does_not_count() {
    let log = "file:///first/x\n/home/u/_npx/0123456789";
    assert_eq!(entries(log), vec!["/home/u/_npx/0123456789"]);
}

#[test]
fn one_separator_at_most_before_the_name() {
    assert_eq!(entries("/tmp/_npx0123456789"), vec!["/tmp/_npx/0123456789"]);
    assert!(entries("/tmp/_npx//0123456789").is_empty());
}

#[test]
fn name_has_eight_digits_at_least() {
    assert!(entries("/tmp/_npx/0123456").is_empty());
    assert_eq!(entries("/tmp/_npx/01234567"), vec!["/tmp/_npx/01234567"]);
    assert_eq!(entries("/tmp/_npx/01234567g9"), vec!["/tmp/_npx/01234567"]);
}

#[test]
fn directory_has_three_bytes_at_least() {
    assert!(entries("/t/_npx/01234567").is_empty());
    assert!(entries("_npx/01234567").is_empty());
    assert_eq!(entries("中/_npx/01234567"), vec!["中/_npx/01234567"]);
    assert_eq!(entries("/ab/_npx/01234567"), vec!["/ab/_npx/01234567"]);
}

#[test]
fn first_entry_with_dsh_is_taken() {
    let log = "file:///a/b/_npx/11111111/\nfile:///c/d/_npx/22222222/\nfile:///e/f/_npx/33333333/";
    let found = npx_entry_dir_from_log_tail(log, &vec![false, true, true]).unwrap();
    assert_eq!(path(&found), "/c/d/_npx/22222222");
    assert!(npx_entry_dir_from_log_tail(log, &vec![false, false, false]).is_none());
    assert!(npx_entry_dir_from_log_tail(log, &vec![]).is_none());
    assert!(npx_entry_dir_from_log_tail("nothing", &vec![true]).is_none());
}

#[test]
fn packages_of_an_entry() {
    let entry = Location::at("c".to_string()).join("_npx").join("22222222");
    assert_eq!(
        path(&dsh_package_dir(&entry)),
        "c/_npx/22222222/node_modules/@deepseek-ai/dsh"
    );
    let files: Vec<String> = key_manifests(&entry).iter().map(path).collect();
    assert_eq!(
        files,
        vec![
            "c/_npx/22222222/node_modules/@deepseek-ai/dsh-llm/package.json",
            "c/_npx/22222222/node_modules/@deepseek-ai/cordis-plugin-timer/package.json",
            "c/_npx/22222222/node_modules/@deepseek-ai/dsh-web-app/package.json",
        ]
    );
}

#[test]
fn only_a_broken_entry_is_removed() {
    assert_eq!(clear_npx_dsh_entry(None), EntryCleanup::NotFound);
    assert_eq!(clear_npx_dsh_entry(Some(&vec![true, true, true])), EntryCleanup::Keep);
    assert_eq!(clear_npx_dsh_entry(Some(&vec![true, false, true])), EntryCleanup::Remove);
    assert_eq!(clear_npx_dsh_entry(Some(&vec![false, false, false])), EntryCleanup::Remove);
}

#[test]
fn notes_on_the_entry() {
    assert_eq!(
        entry_cleanup_note(EntryCleanup::NotFound, "p").unwrap(),
        "dsh-desktop: 未能在日志中找到 npx 安装条目路径，跳过条目清理"
    );
    assert_eq!(
        entry_cleanup_note(EntryCleanup::Keep, "p").unwrap(),
        "dsh-desktop: npx 条目 p 完整，保留（本次失败按瞬态问题处理），跳过条目清理"
    );
    assert_eq!(entry_cleanup_note(EntryCleanup::Remove, "p"), None);
    assert_eq!(
        entry_removal_note(Removal::Removed, "p", "e").unwrap(),
        "dsh-desktop: 已删除 npx 安装条目 p（下一次 npx 会重新完整安装）"
    );
    assert_eq!(entry_removal_note(Removal::Absent, "p", "e"), None);
    assert_eq!(
        entry_removal_note(Removal::Failed, "p", "e").unwrap(),
        "dsh-desktop: 删除 npx 安装条目失败 p：e"
    );
}

#[test]
fn notes_on_the_module_links() {
    assert_eq!(
        fallback_removal_note(Removal::Removed, "p", "e").unwrap(),
        "dsh-desktop: 已删除模块链接目录 p（下一次启动 dsh 会重建）"
    );
    assert_eq!(fallback_removal_note(Removal::Absent, "p", "e"), None);
    assert_eq!(
        fallback_removal_note(Removal::Failed, "p", "e").unwrap(),
        "dsh-desktop: 删除模块链接目录失败 p：e"
    );
}

#[test]
fn entry_is_looked_into_once_per_opening() {
    let mut latch = Latch::new();
    let home = || Location::at("h").join(".dsh");
    let first = repair_plugin_tree(home(), &mut latch);
    assert!(first.clear_npx_entry);
    assert_eq!(first.module_fallback.root, "h");
    assert_eq!(first.module_fallback.segments, vec![".dsh", "profiles", "node_modules"]);
    assert!(!repair_plugin_tree(home(), &mut latch).clear_npx_entry);
    assert!(!repair_plugin_tree(home(), &mut latch).clear_npx_entry);
    latch.leave();
    assert!(repair_plugin_tree(home(), &mut latch).clear_npx_entry);
}

#[test]
fn signs_of_a_broken_plugin_tree() {
    assert!(plugin_tree_broken("Error: Cannot find package 'x'"));
    assert!(plugin_tree_broken("the plugin tree failed to load\n"));
    assert!(!plugin_tree_broken("cannot find package; plugin tree loaded"));
    assert!(!plugin_tree_broken(""));
}
