//! The settings of the launcher: reading, checking and saving them.

use crate::json;
use crate::text;
use vstd::prelude::*;

verus! {

/// The directories that the user has configured.
#[derive(Debug)]
pub struct AppConfig {
    /// The data directory of dsh.
    pub dsh_home: Option<String>,
    /// The directory that dsh works in.
    pub workspace: Option<String>,
}

/// The view of a text that may be missing.
pub open spec fn seen(text: Option<String>) -> Option<Seq<char>> {
    match text {
        Some(text) => Some(text@),
        None => None,
    }
}

impl View for AppConfig {
    type V = (Option<Seq<char>>, Option<Seq<char>>);

    open spec fn view(&self) -> (Option<Seq<char>>, Option<Seq<char>>) {
        (seen(self.dsh_home), seen(self.workspace))
    }
}

/// The text under the key, if there is one.
pub open spec fn lookup(members: Map<Seq<char>, Seq<char>>, key: Seq<char>) -> Option<Seq<char>> {
    if members.contains_key(key) {
        Some(members[key])
    } else {
        None
    }
}

/// The directories that a settings file names. One that is missing or no JSON
/// names none.
pub open spec fn config_in(file: Option<Seq<char>>) -> (Option<Seq<char>>, Option<Seq<char>>) {
    match file {
        Some(text) => match json::texts_in(text) {
            Some(members) => (lookup(members, "dshHome"@), lookup(members, "workspace"@)),
            None => (None, None),
        },
        None => (None, None),
    }
}

/// The members of the settings file for the directories.
pub open spec fn config_members(config: (Option<Seq<char>>, Option<Seq<char>>)) -> Seq<
    (Seq<char>, Option<Seq<char>>),
> {
    (match config.0 {
        Some(dir) => seq![("dshHome"@, Some(dir))],
        None => seq![],
    }) + (match config.1 {
        Some(dir) => seq![("workspace"@, Some(dir))],
        None => seq![],
    })
}

/// The directory, if it is one.
pub open spec fn if_dir(path: Option<Seq<char>>, is_dir: bool) -> Option<Seq<char>> {
    if is_dir {
        path
    } else {
        None
    }
}

/// What the user has entered, unless it is blank.
pub open spec fn if_not_blank(entered: Option<Seq<char>>) -> Option<Seq<char>> {
    match entered {
        Some(text) => if text::trimmed(text).len() == 0 {
            None
        } else {
            Some(text)
        },
        None => None,
    }
}

/// The directories of a settings file that are used.
pub open spec fn loaded(
    named: (Option<Seq<char>>, Option<Seq<char>>),
    dsh_home_is_dir: bool,
    workspace_is_dir: bool,
) -> (Option<Seq<char>>, Option<Seq<char>>) {
    (if_dir(named.0, dsh_home_is_dir), if_dir(named.1, workspace_is_dir))
}

/// The directories that the user has entered.
pub open spec fn entered(dsh_home: Option<Seq<char>>, workspace: Option<Seq<char>>) -> (
    Option<Seq<char>>,
    Option<Seq<char>>,
) {
    (if_not_blank(dsh_home), if_not_blank(workspace))
}

/// Why directories that the user has entered are refused.
pub open spec fn refusal(
    config: (Option<Seq<char>>, Option<Seq<char>>),
    dsh_home_is_dir: bool,
    workspace_is_dir: bool,
) -> Option<Seq<char>> {
    if config.0 is Some && !dsh_home_is_dir {
        Some("保存失败：DSH_HOME 目录不存在或不是文件夹："@ + config.0->0)
    } else if config.1 is Some && !workspace_is_dir {
        Some("保存失败：工作目录不存在或不是文件夹："@ + config.1->0)
    } else {
        None
    }
}

/// The directories that a settings file names, whether they exist or not.
pub fn read_config(file: Option<&str>) -> (config: AppConfig)
    ensures
        config@ == config_in(
            match file {
                Some(text) => Some(text@),
                None => None,
            },
        ),
{
    match file {
        Some(text) => match json::parse(text) {
            Some(value) => AppConfig {
                dsh_home: json::text_member(&value, "dshHome"),
                workspace: json::text_member(&value, "workspace"),
            },
            None => AppConfig { dsh_home: None, workspace: None },
        },
        None => AppConfig { dsh_home: None, workspace: None },
    }
}

fn keep_dir(path: Option<String>, is_dir: bool) -> (kept: Option<String>)
    ensures
        seen(kept) == if_dir(seen(path), is_dir),
{
    if is_dir {
        path
    } else {
        None
    }
}

/// The directories among those that a settings file names, by whether each is
/// a directory.
pub fn load_config(named: AppConfig, dsh_home_is_dir: bool, workspace_is_dir: bool) -> (config:
    AppConfig)
    ensures
        config@ == loaded(named@, dsh_home_is_dir, workspace_is_dir),
{
    AppConfig {
        dsh_home: keep_dir(named.dsh_home, dsh_home_is_dir),
        workspace: keep_dir(named.workspace, workspace_is_dir),
    }
}

fn keep_entered(entered: Option<String>) -> (kept: Option<String>)
    ensures
        seen(kept) == if_not_blank(seen(entered)),
{
    match entered {
        Some(text) => {
            let inner = text::trim(text.as_str());
            if inner.as_str().is_empty() {
                None
            } else {
                Some(text)
            }
        },
        None => None,
    }
}

/// The directories that the user has entered. A blank field names none.
pub fn entered_config(dsh_home: Option<String>, workspace: Option<String>) -> (config: AppConfig)
    ensures
        config@ == entered(seen(dsh_home), seen(workspace)),
{
    AppConfig { dsh_home: keep_entered(dsh_home), workspace: keep_entered(workspace) }
}

/// The settings file for the directories.
pub fn config_file(config: &AppConfig) -> (file: String)
    ensures
        file@ == json::object_text(config_members(config@)),
        config_in(Some(file@)) == config@,
{
    let mut object = json::empty_object();
    assert(json::members_of(object) =~= seq![]);
    if let Some(dir) = &config.dsh_home {
        json::insert_text(&mut object, "dshHome", dir.as_str());
    }
    if let Some(dir) = &config.workspace {
        proof {
            reveal_strlit("dshHome");
            reveal_strlit("workspace");
        }
        json::insert_text(&mut object, "workspace", dir.as_str());
    }
    let ghost members = json::members_of(object);
    proof {
        assert(members =~= config_members(config@));
        reveal_strlit("dshHome");
        reveal_strlit("workspace");
        assert("dshHome"@.len() != "workspace"@.len());
        reveal_with_fuel(json::by_key, 3);
        assert(members.len() == 2 ==> members.drop_last() =~= seq![members[0]]);
    }
    json::pretty(object)
}

/// Saving what the user has entered: the new settings file, or why it is
/// refused. What was saved is what will be read.
pub fn save_settings(entered: &AppConfig, dsh_home_is_dir: bool, workspace_is_dir: bool) -> (saved:
    Result<String, String>)
    ensures
        match saved {
            Ok(file) => {
                &&& refusal(entered@, dsh_home_is_dir, workspace_is_dir) is None
                &&& file@ == json::object_text(config_members(entered@))
                &&& config_in(Some(file@)) == entered@
            },
            Err(message) => refusal(entered@, dsh_home_is_dir, workspace_is_dir) == Some(message@),
        },
{
    if let Some(dir) = &entered.dsh_home {
        if !dsh_home_is_dir {
            let mut message = "保存失败：DSH_HOME 目录不存在或不是文件夹：".to_owned();
            message.append(dir.as_str());
            return Err(message);
        }
    }
    if let Some(dir) = &entered.workspace {
        if !workspace_is_dir {
            let mut message = "保存失败：工作目录不存在或不是文件夹：".to_owned();
            message.append(dir.as_str());
            return Err(message);
        }
    }
    Ok(config_file(entered))
}

/// What the user is told when the settings file could not be written.
pub open spec fn write_failed(path: Seq<char>, error: Seq<char>) -> Seq<char> {
    "保存失败：无法写入 "@ + path + "\n"@ + error
}

/// What the user is told when the settings file could not be written.
pub fn write_failed_message(path: &str, error: &str) -> (message: String)
    ensures
        message@ == write_failed(path@, error@),
{
    let mut message = "保存失败：无法写入 ".to_owned();
    message.append(path);
    message.append("\n");
    message.append(error);
    message
}

/// What the user is told when the settings were saved.
pub open spec fn saved_text(owned: bool, restarted: bool) -> Seq<char> {
    if !owned {
        "设置已保存。当前服务由外部启动，新设置将在下次由本程序启动服务时生效。"@
    } else if restarted {
        "设置已保存，本地服务已按新设置重启，主界面已刷新。"@
    } else {
        "设置已保存，但本地服务重启失败，新设置将在下次由本程序启动服务时生效。"@
    }
}

/// What the user is told when the settings were saved, by whether the service
/// was started here, and whether it could be restarted with them.
pub fn saved_message(owned: bool, restarted: bool) -> (message: String)
    ensures
        message@ == saved_text(owned, restarted),
{
    if !owned {
        "设置已保存。当前服务由外部启动，新设置将在下次由本程序启动服务时生效。".to_owned()
    } else if restarted {
        "设置已保存，本地服务已按新设置重启，主界面已刷新。".to_owned()
    } else {
        "设置已保存，但本地服务重启失败，新设置将在下次由本程序启动服务时生效。".to_owned()
    }
}

/// What the settings page shows.
#[derive(Debug)]
pub struct SettingsView {
    pub dsh_home: Option<String>,
    pub workspace: Option<String>,
}

/// What the settings page shows of the directories.
pub open spec fn shown(dsh_home: Option<String>, workspace: Option<String>) -> (
    Option<String>,
    Option<String>,
) {
    (dsh_home, workspace)
}

/// What the settings page shows of the directories.
pub fn get_settings(config: AppConfig) -> (view: SettingsView)
    ensures
        (view.dsh_home, view.workspace) == shown(config.dsh_home, config.workspace),
{
    SettingsView { dsh_home: config.dsh_home, workspace: config.workspace }
}


/// Settings are refused if and only if a directory that they name is none; the data
/// directory is looked at first, and the refusal ends with the directory.
pub proof fn law_only_directories_are_saved(
    config: (Option<Seq<char>>, Option<Seq<char>>),
    dsh_home_is_dir: bool,
    workspace_is_dir: bool,
)
    ensures
        refusal(config, dsh_home_is_dir, workspace_is_dir) is None <==> (config.0 is Some
            ==> dsh_home_is_dir) && (config.1 is Some ==> workspace_is_dir),
        config.0 is Some && !dsh_home_is_dir ==> config.0->0.is_suffix_of(
            refusal(config, dsh_home_is_dir, workspace_is_dir)->0,
        ) && "保存失败：DSH_HOME 目录不存在或不是文件夹："@.is_prefix_of(
            refusal(config, dsh_home_is_dir, workspace_is_dir)->0,
        ),
        (config.0 is Some ==> dsh_home_is_dir) && config.1 is Some && !workspace_is_dir
            ==> config.1->0.is_suffix_of(refusal(config, dsh_home_is_dir, workspace_is_dir)->0)
            && "保存失败：工作目录不存在或不是文件夹："@.is_prefix_of(
            refusal(config, dsh_home_is_dir, workspace_is_dir)->0,
        ),
{
    let r = refusal(config, dsh_home_is_dir, workspace_is_dir);
    if r is Some {
        let all = r->0;
        if config.0 is Some && !dsh_home_is_dir {
            let dir = config.0->0;
            let front = "保存失败：DSH_HOME 目录不存在或不是文件夹："@;
            assert(all.subrange(all.len() - dir.len(), all.len() as int) =~= dir);
            assert(all.subrange(0, front.len() as int) =~= front);
        } else {
            let dir = config.1->0;
            let front = "保存失败：工作目录不存在或不是文件夹："@;
            assert(all.subrange(all.len() - dir.len(), all.len() as int) =~= dir);
            assert(all.subrange(0, front.len() as int) =~= front);
        }
    }
}

/// What the user has entered is kept as it is, unless it is nothing but white space.
pub proof fn law_entries_are_kept_unless_blank(entered: Seq<char>)
    ensures
        (forall|i: int| 0 <= i < entered.len() ==> text::is_white_space(#[trigger] entered[i]))
            ==> if_not_blank(Some(entered)) is None,
        (exists|i: int| 0 <= i < entered.len() && !text::is_white_space(#[trigger] entered[i]))
            ==> if_not_blank(Some(entered)) == Some(entered),
        if_not_blank(None) is None,
{
    let head = text::run_len(entered, text::white()) as int;
    text::lemma_run(entered, text::white());
    let rest = entered.skip(head);
    text::lemma_tail(rest, text::white());
    if exists|i: int| 0 <= i < entered.len() && !text::is_white_space(#[trigger] entered[i]) {
        let i = choose|i: int|
            0 <= i < entered.len() && !text::is_white_space(#[trigger] entered[i]);
        assert(i >= head);
        assert(rest[i - head] == entered[i]);
        assert(text::tail_len(rest, text::white()) < rest.len());
    }
    if forall|i: int| 0 <= i < entered.len() ==> text::is_white_space(#[trigger] entered[i]) {
        if head < entered.len() {
            assert(text::is_white_space(entered[head]));
        }
    }
}

/// A directory of the settings file is used if and only if it is one, and each for
/// itself.
pub proof fn law_only_directories_are_used(path: Seq<char>, is_dir: bool)
    ensures
        if_dir(Some(path), is_dir) == Some(path) <==> is_dir,
        if_dir(Some(path), is_dir) is None <==> !is_dir,
        if_dir(None, is_dir) is None,
{
}

/// Which directories a settings file names: the texts under `dshHome` and
/// `workspace`, each for itself, and none if it is missing or no JSON.
pub proof fn law_settings_stand_under_their_keys(file: Seq<char>)
    ensures
        config_in(None) == (None::<Seq<char>>, None::<Seq<char>>),
        json::texts_in(file) is None ==> config_in(Some(file)) == (
            None::<Seq<char>>,
            None::<Seq<char>>,
        ),
        json::texts_in(file) matches Some(members) ==> {
            &&& config_in(Some(file)).0 is Some <==> members.contains_key("dshHome"@)
            &&& config_in(Some(file)).1 is Some <==> members.contains_key("workspace"@)
            &&& members.contains_key("dshHome"@) ==> config_in(Some(file)).0 == Some(
                members["dshHome"@],
            )
            &&& members.contains_key("workspace"@) ==> config_in(Some(file)).1 == Some(
                members["workspace"@],
            )
        },
{
}

/// The settings file holds a member for each directory that is named, under its
/// key, and nothing else.
pub proof fn law_settings_are_written_under_their_keys(
    config: (Option<Seq<char>>, Option<Seq<char>>),
    dir: Seq<char>,
)
    ensures
        config_members(config).contains(("dshHome"@, Some(dir))) <==> config.0 == Some(dir),
        config_members(config).contains(("workspace"@, Some(dir))) <==> config.1 == Some(dir),
        config_members(config).len() == (if config.0 is Some {
            1nat
        } else {
            0nat
        }) + (if config.1 is Some {
            1nat
        } else {
            0nat
        }),
{
    reveal_strlit("dshHome");
    reveal_strlit("workspace");
    assert("dshHome"@.len() == 7 && "workspace"@.len() == 9);
    let all = config_members(config);
    if all.len() > 0 {
        assert(all.contains(all[0]));
    }
    if all.len() > 1 {
        assert(all.contains(all[1]));
    }
}

/// The user is told that the service comes from outside if and only if it was not
/// started here, and that it was restarted if and only if it was.
pub proof fn law_user_is_told_what_became_of_the_service(owned: bool, restarted: bool)
    ensures
        saved_text(owned, restarted) == saved_text(false, false) <==> !owned,
        saved_text(owned, restarted) == saved_text(true, true) <==> owned && restarted,
        text::contains_text(saved_text(false, restarted), "由外部启动"@),
        text::contains_text(saved_text(true, true), "重启，主界面已刷新"@),
{
    reveal_strlit("设置已保存。当前服务由外部启动，新设置将在下次由本程序启动服务时生效。");
    reveal_strlit("设置已保存，本地服务已按新设置重启，主界面已刷新。");
    reveal_strlit("设置已保存，但本地服务重启失败，新设置将在下次由本程序启动服务时生效。");
    reveal_strlit("由外部启动");
    reveal_strlit("重启，主界面已刷新");
    let external = saved_text(false, restarted);
    let restarted_text = saved_text(true, true);
    let failed = saved_text(true, false);
    assert(external.len() != restarted_text.len() && external[5] == '。' && restarted_text[5]
        == '，' && failed[5] == '，');
    assert(restarted_text[6] != failed[6]);
    assert(external.subrange(10, 15) =~= "由外部启动"@);
    assert(text::occurs_at(external, "由外部启动"@, 10));
    assert(restarted_text.subrange(15, 24) =~= "重启，主界面已刷新"@);
    assert(text::occurs_at(restarted_text, "重启，主界面已刷新"@, 15));
}


/// Each of the two directories is used if and only if it is one, whatever the other
/// is.
pub proof fn law_directories_are_loaded_each_for_itself(
    dsh_home: Seq<char>,
    workspace: Seq<char>,
    other: Option<Seq<char>>,
    is_dir: bool,
    other_is_dir: bool,
)
    ensures
        loaded((Some(dsh_home), other), is_dir, other_is_dir).0 == if is_dir {
            Some(dsh_home)
        } else {
            None
        },
        loaded((other, Some(workspace)), other_is_dir, is_dir).1 == if is_dir {
            Some(workspace)
        } else {
            None
        },
        loaded((None, other), is_dir, other_is_dir).0 is None,
        loaded((other, None), other_is_dir, is_dir).1 is None,
{
}

/// Each of the two fields counts for itself: one that holds a character other than
/// white space is taken as it is, whatever the other holds.
pub proof fn law_fields_are_taken_each_for_itself(
    field: Seq<char>,
    other: Option<Seq<char>>,
    i: int,
)
    requires
        0 <= i < field.len(),
        !text::is_white_space(field[i]),
    ensures
        entered(Some(field), other).0 == Some(field),
        entered(other, Some(field)).1 == Some(field),
        entered(None, other).0 is None,
        entered(other, None).1 is None,
{
    law_entries_are_kept_unless_blank(field);
}

/// What was saved is what is loaded, as long as the directories are there: saving and
/// loading undo each other.
pub proof fn law_saved_settings_are_loaded(
    config: (Option<Seq<char>>, Option<Seq<char>>),
    file: Seq<char>,
)
    requires
        config_in(Some(file)) == config,
    ensures
        loaded(config_in(Some(file)), true, true) == config,
        refusal(config, true, true) is None,
{
}


/// The settings page shows both directories, each as it is, whatever the other is.
pub proof fn law_settings_page_shows_both(
    dsh_home: Option<String>,
    workspace: Option<String>,
    other: Option<String>,
)
    ensures
        shown(dsh_home, other).0 == dsh_home,
        shown(other, workspace).1 == workspace,
{
}

/// A file that could not be written is named, and why.
pub proof fn law_write_failure_names_file_and_reason(path: Seq<char>, error: Seq<char>)
    ensures
        text::contains_text(write_failed(path, error), " "@ + path + "\n"@),
        error.is_suffix_of(write_failed(path, error)),
{
    reveal_strlit("保存失败：无法写入 ");
    reveal_strlit(" ");
    reveal_strlit("\n");
    let all = write_failed(path, error);
    let needle = " "@ + path + "\n"@;
    assert(all.subrange(9, 9int + needle.len()) =~= needle);
    assert(text::occurs_at(all, needle, 9));
    assert(all.subrange(all.len() - error.len(), all.len() as int) =~= error);
}

}
