//! Where the launcher and dsh keep their files.

use crate::place::Location;
use vstd::prelude::*;

verus! {

/// A directory that may have been meant, and whether it exists.
#[derive(Debug)]
pub struct Candidate<P> {
    pub path: P,
    pub is_dir: bool,
}

/// The directory of the launcher's own files, as a root and the names below it.
pub open spec fn config_dir_of<P>(
    local_app_data: Option<P>,
    xdg_data_home: Option<P>,
    home: Option<P>,
    temp: P,
) -> (P, Seq<Seq<char>>) {
    match (local_app_data, xdg_data_home, home) {
        (Some(dir), _, _) => (dir, seq!["dsh-desktop"@]),
        (None, Some(dir), _) => (dir, seq!["dsh-desktop"@]),
        (None, None, Some(dir)) => (dir, seq![".local"@, "share"@, "dsh-desktop"@]),
        (None, None, None) => (temp, seq!["dsh-desktop"@]),
    }
}

/// The data directory of dsh, as a root and the names below it: the one from
/// the environment, else the configured one, else `.dsh` in the home directory.
pub open spec fn dsh_home_of<P>(
    from_environment: Option<P>,
    configured: Option<P>,
    user_profile: Option<P>,
    home: Option<P>,
    working: P,
) -> (P, Seq<Seq<char>>) {
    match (from_environment, configured, user_profile, home) {
        (Some(dir), _, _, _) => (dir, seq![]),
        (None, Some(dir), _, _) => (dir, seq![]),
        (None, None, Some(dir), _) => (dir, seq![".dsh"@]),
        (None, None, None, Some(dir)) => (dir, seq![".dsh"@]),
        (None, None, None, None) => (working, seq![".dsh"@]),
    }
}

/// The directory, if it exists.
pub open spec fn existing<P>(candidate: Option<Candidate<P>>) -> Option<P> {
    match candidate {
        Some(c) => if c.is_dir {
            Some(c.path)
        } else {
            None
        },
        None => None,
    }
}

/// The directory in which dsh is to work: the one from the environment, if it
/// exists, else the configured one, else the home directory, if it exists.
pub open spec fn workspace_of<P>(
    from_environment: Option<Candidate<P>>,
    configured: Option<P>,
    user_profile: Option<Candidate<P>>,
    home: Option<Candidate<P>>,
) -> Option<P> {
    match (existing(from_environment), configured) {
        (Some(dir), _) => Some(dir),
        (None, Some(dir)) => Some(dir),
        (None, None) => existing(
            match user_profile {
                Some(dir) => Some(dir),
                None => home,
            },
        ),
    }
}

/// The log of the service.
pub open spec fn log_path_trail(config_dir: Seq<Seq<char>>) -> Seq<Seq<char>> {
    config_dir.push("dsh-web.log"@)
}

/// What the log of the service is renamed to.
pub open spec fn rotated_log_path_trail(config_dir: Seq<Seq<char>>) -> Seq<Seq<char>> {
    config_dir.push("dsh-web.log.old"@)
}

/// The settings of the launcher.
pub open spec fn config_path_trail(config_dir: Seq<Seq<char>>) -> Seq<Seq<char>> {
    config_dir.push("config.json"@)
}

/// The marker that an instance leaves for the one it starts in its place.
pub open spec fn relaunch_marker_path_trail(config_dir: Seq<Seq<char>>) -> Seq<Seq<char>> {
    config_dir.push(".auto-relaunch"@)
}

/// The directory of links to modules.
pub open spec fn module_fallback_trail(dsh_home: Seq<Seq<char>>) -> Seq<Seq<char>> {
    dsh_home.push("profiles"@).push("node_modules"@)
}

/// The profile in which the web service runs.
pub open spec fn web_profile_trail(dsh_home: Seq<Seq<char>>) -> Seq<Seq<char>> {
    dsh_home.push("profiles"@).push("web"@)
}

/// The directory of the launcher's own files: `%LOCALAPPDATA%`, else
/// `$XDG_DATA_HOME`, else `~/.local/share`, else the one for temporary files.
pub fn config_dir<P>(
    local_app_data: Option<P>,
    xdg_data_home: Option<P>,
    home: Option<P>,
    temp: P,
) -> (dir: Location<P>)
    ensures
        (dir.root, dir.trail()) == config_dir_of(local_app_data, xdg_data_home, home, temp),
{
    let ghost expected = config_dir_of(local_app_data, xdg_data_home, home, temp);
    let base = match local_app_data {
        Some(dir) => Location::at(dir),
        None => match xdg_data_home {
            Some(dir) => Location::at(dir),
            None => match home {
                Some(dir) => Location::at(dir).join(".local").join("share"),
                None => Location::at(temp),
            },
        },
    };
    let dir = base.join("dsh-desktop");
    assert(dir.trail() =~= expected.1);
    dir
}

/// The log of the service.
pub fn log_path<P>(config_dir: Location<P>) -> (path: Location<P>)
    ensures
        path.root == config_dir.root,
        path.trail() == log_path_trail(config_dir.trail()),
{
    config_dir.join("dsh-web.log")
}

/// What the log of the service is renamed to when it has grown too large.
pub fn rotated_log_path<P>(config_dir: Location<P>) -> (path: Location<P>)
    ensures
        path.root == config_dir.root,
        path.trail() == rotated_log_path_trail(config_dir.trail()),
{
    config_dir.join("dsh-web.log.old")
}

/// The settings of the launcher.
pub fn config_path<P>(config_dir: Location<P>) -> (path: Location<P>)
    ensures
        path.root == config_dir.root,
        path.trail() == config_path_trail(config_dir.trail()),
{
    config_dir.join("config.json")
}

/// The marker that an instance leaves for the one it starts in its place.
pub fn relaunch_marker_path<P>(config_dir: Location<P>) -> (path: Location<P>)
    ensures
        path.root == config_dir.root,
        path.trail() == relaunch_marker_path_trail(config_dir.trail()),
{
    config_dir.join(".auto-relaunch")
}

/// The data directory of dsh: `$DSH_HOME`, else the configured one, else `.dsh`
/// in the home directory, else `.dsh` in the working directory.
pub fn dsh_home_dir<P>(
    from_environment: Option<P>,
    configured: Option<P>,
    user_profile: Option<P>,
    home: Option<P>,
    working: P,
) -> (dir: Location<P>)
    ensures
        (dir.root, dir.trail()) == dsh_home_of(
            from_environment,
            configured,
            user_profile,
            home,
            working,
        ),
{
    let ghost expected = dsh_home_of(from_environment, configured, user_profile, home, working);
    let dir = match from_environment {
        Some(dir) => Location::at(dir),
        None => match configured {
            Some(dir) => Location::at(dir),
            None => {
                let base = match user_profile {
                    Some(dir) => dir,
                    None => match home {
                        Some(dir) => dir,
                        None => working,
                    },
                };
                Location::at(base).join(".dsh")
            },
        },
    };
    assert(dir.trail() =~= expected.1);
    dir
}

/// The directory in which dsh is to work: `$DSH_DESKTOP_WORKSPACE`, else the
/// configured one, else the home directory.
///
/// dsh groups its sessions by this directory, so it must not be the one that
/// the launcher happens to be started in.
pub fn workspace_dir<P>(
    from_environment: Option<Candidate<P>>,
    configured: Option<P>,
    user_profile: Option<Candidate<P>>,
    home: Option<Candidate<P>>,
) -> (dir: Option<P>)
    ensures
        dir == workspace_of(from_environment, configured, user_profile, home),
{
    if let Some(candidate) = from_environment {
        if candidate.is_dir {
            return Some(candidate.path);
        }
    }
    if let Some(dir) = configured {
        return Some(dir);
    }
    let base = match user_profile {
        Some(candidate) => Some(candidate),
        None => home,
    };
    match base {
        Some(candidate) => if candidate.is_dir {
            Some(candidate.path)
        } else {
            None
        },
        None => None,
    }
}

/// The directory of links to modules that dsh derives from its installation.
pub fn module_fallback_dir<P>(dsh_home: Location<P>) -> (dir: Location<P>)
    ensures
        dir.root == dsh_home.root,
        dir.trail() == module_fallback_trail(dsh_home.trail()),
{
    dsh_home.join("profiles").join("node_modules")
}

/// The profile in which the web service runs.
pub fn web_profile_dir<P>(dsh_home: Location<P>) -> (dir: Location<P>)
    ensures
        dir.root == dsh_home.root,
        dir.trail() == web_profile_trail(dsh_home.trail()),
{
    dsh_home.join("profiles").join("web")
}


/// The workspace from the environment is used exactly if it exists; then nothing
/// else matters.
pub proof fn law_workspace_of_the_environment_comes_first<P>(
    from_environment: Candidate<P>,
    configured: Option<P>,
    user_profile: Option<Candidate<P>>,
    home: Option<Candidate<P>>,
)
    ensures
        from_environment.is_dir ==> workspace_of(
            Some(from_environment),
            configured,
            user_profile,
            home,
        ) == Some(from_environment.path),
        !from_environment.is_dir ==> workspace_of(
            Some(from_environment),
            configured,
            user_profile,
            home,
        ) == workspace_of(None, configured, user_profile, home),
{
}

/// The configured workspace is used unless the environment names one that exists,
/// whatever the home directory is.
pub proof fn law_configured_workspace_comes_second<P>(
    from_environment: Option<Candidate<P>>,
    configured: P,
    user_profile: Option<Candidate<P>>,
    home: Option<Candidate<P>>,
)
    requires
        from_environment matches Some(dir) ==> !dir.is_dir,
    ensures
        workspace_of(from_environment, Some(configured), user_profile, home) == Some(configured),
{
}

/// The home directory is used only if neither the environment nor the settings name
/// a workspace, and only if it exists; `HOME` counts only without `USERPROFILE`.
pub proof fn law_home_is_the_last_workspace<P>(
    from_environment: Option<Candidate<P>>,
    user_profile: Option<Candidate<P>>,
    home: Option<Candidate<P>>,
)
    requires
        from_environment matches Some(dir) ==> !dir.is_dir,
    ensures
        user_profile matches Some(dir) ==> workspace_of(from_environment, None, user_profile, home)
            == if dir.is_dir {
            Some(dir.path)
        } else {
            None
        },
        user_profile is None ==> (home matches Some(dir) ==> workspace_of(
            from_environment,
            None,
            user_profile,
            home,
        ) == if dir.is_dir {
            Some(dir.path)
        } else {
            None
        }),
        user_profile is None && home is None ==> workspace_of(
            from_environment,
            None,
            user_profile,
            home,
        ) is None,
{
}

/// The data directory of dsh: that of the environment whatever else there is, else
/// the configured one whatever the home directory is, each as it stands; else
/// `.dsh` in the home directory, or in the working directory.
pub proof fn law_data_directory_by_precedence<P>(
    a: P,
    configured: Option<P>,
    user_profile: Option<P>,
    home: Option<P>,
    working: P,
)
    ensures
        dsh_home_of(Some(a), configured, user_profile, home, working) == (
            a,
            Seq::<Seq<char>>::empty(),
        ),
        dsh_home_of(None, Some(a), user_profile, home, working) == (a, Seq::<Seq<char>>::empty()),
        dsh_home_of(None, None, Some(a), home, working) == (a, seq![".dsh"@]),
        dsh_home_of(None, None, None, Some(a), working) == (a, seq![".dsh"@]),
        dsh_home_of(None, None, None, None, a) == (a, seq![".dsh"@]),
{
}

/// The launcher's own files lie in a directory of its name, in the first of the
/// places that there is; below `HOME` that is where Unix keeps such files.
pub proof fn law_own_directory_by_precedence<P>(
    a: P,
    xdg_data_home: Option<P>,
    home: Option<P>,
    temp: P,
)
    ensures
        config_dir_of(Some(a), xdg_data_home, home, temp) == (a, seq!["dsh-desktop"@]),
        config_dir_of(None, Some(a), home, temp) == (a, seq!["dsh-desktop"@]),
        config_dir_of(None, None, Some(a), temp) == (
            a,
            seq![".local"@, "share"@, "dsh-desktop"@],
        ),
        config_dir_of(None, None, None, a) == (a, seq!["dsh-desktop"@]),
{
}


/// The launcher's own files lie side by side in its directory, wherever that is,
/// under four different names.
pub proof fn law_own_files_lie_side_by_side(dir: Seq<Seq<char>>)
    ensures
        ({
            let files = seq![
                log_path_trail(dir),
                rotated_log_path_trail(dir),
                config_path_trail(dir),
                relaunch_marker_path_trail(dir),
            ];
            &&& forall|i: int|
                0 <= i < files.len() ==> (#[trigger] files[i]).len() == dir.len() + 1
                    && files[i].drop_last() == dir
            &&& forall|i: int, j: int|
                0 <= i < j < files.len() ==> (#[trigger] files[i]) != (#[trigger] files[j])
        }),
        log_path_trail(dir).last() == "dsh-web.log"@,
        rotated_log_path_trail(dir).last() == log_path_trail(dir).last() + ".old"@,
        config_path_trail(dir).last() == "config.json"@,
        relaunch_marker_path_trail(dir).last() == ".auto-relaunch"@,
{
    reveal_strlit("dsh-web.log");
    reveal_strlit("dsh-web.log.old");
    reveal_strlit("config.json");
    reveal_strlit(".auto-relaunch");
    reveal_strlit(".old");
    assert("dsh-web.log.old"@ =~= "dsh-web.log"@ + ".old"@);
    assert("dsh-web.log"@[0] == 'd' && "dsh-web.log"@.len() == 11);
    assert("dsh-web.log.old"@.len() == 15);
    assert("config.json"@[0] == 'c' && "config.json"@.len() == 11);
    assert(".auto-relaunch"@.len() == 14);
    let files = seq![
        log_path_trail(dir),
        rotated_log_path_trail(dir),
        config_path_trail(dir),
        relaunch_marker_path_trail(dir),
    ];
    assert forall|i: int| 0 <= i < files.len() implies (#[trigger] files[i]).len() == dir.len() + 1
        && files[i].drop_last() == dir by {
        assert(files[i].drop_last() =~= dir);
    }
    assert forall|i: int, j: int| 0 <= i < j < files.len() implies (#[trigger] files[i])
        != (#[trigger] files[j]) by {
        assert(files[i].last() != files[j].last());
    }
}

/// The links to modules and the profile of the web service lie side by side among
/// the profiles in the data directory of dsh, wherever that is.
pub proof fn law_profiles_lie_in_the_data_directory(dsh_home: Seq<Seq<char>>)
    ensures
        module_fallback_trail(dsh_home) == dsh_home + seq!["profiles"@, "node_modules"@],
        web_profile_trail(dsh_home) == dsh_home + seq!["profiles"@, "web"@],
{
    assert(module_fallback_trail(dsh_home) =~= dsh_home + seq!["profiles"@, "node_modules"@]);
    assert(web_profile_trail(dsh_home) =~= dsh_home + seq!["profiles"@, "web"@]);
}

}
