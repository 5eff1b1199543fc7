//! The commands that the launcher runs.

use crate::environment;
use crate::node;
use crate::node::NodeSource;
use crate::number;
use crate::place;
use crate::place::Location;
use crate::text;
use vstd::prelude::*;

verus! {

/// A word of a command: a text or a path.
#[derive(Debug)]
pub enum Word<P> {
    Text(String),
    Path(Location<P>),
}

/// What a word says.
pub enum Meaning<P> {
    Text(Seq<char>),
    Path(P, Seq<Seq<char>>),
}

impl<P> Word<P> {
    /// What the word says.
    pub open spec fn meaning(self) -> Meaning<P> {
        match self {
            Word::Text(text) => Meaning::Text(text@),
            Word::Path(place) => Meaning::Path(place.root, place.trail()),
        }
    }
}

/// What the words say, in order.
pub open spec fn meanings<P>(words: Seq<Word<P>>) -> Seq<Meaning<P>> {
    words.map_values(|word: Word<P>| word.meaning())
}

/// What the settings of variables say, in order.
pub open spec fn settings<P>(variables: Seq<(String, Word<P>)>) -> Seq<(Seq<char>, Meaning<P>)> {
    variables.map_values(|v: (String, Word<P>)| (v.0@, v.1.meaning()))
}

/// The words, each as a text.
pub open spec fn plain<P>(words: Seq<Seq<char>>) -> Seq<Meaning<P>> {
    words.map_values(|word: Seq<char>| Meaning::<P>::Text(word))
}

/// A command with its arguments, the variables that are set and removed for it,
/// and the directory that it runs in.
#[derive(Debug)]
pub struct CommandPlan<P> {
    pub program: Word<P>,
    pub args: Vec<Word<P>>,
    pub set: Vec<(String, Word<P>)>,
    pub remove: Vec<String>,
    pub working_dir: Option<Location<P>>,
}

/// What runs a package, and how: npx of the system, or the one that comes with
/// the portable Node.js in `dir`.
pub open spec fn npx_of<P>(os: Seq<char>, source: NodeSource<P>) -> (Meaning<P>, Seq<Meaning<P>>) {
    match source {
        NodeSource::Local(dir) => (
            Meaning::Path(dir, seq![bin_name(os)]),
            seq![
                Meaning::Path(dir, seq!["node_modules"@, "npm"@, "bin"@, "npx-cli.js"@]),
            ],
        ),
        _ => if os == "windows"@ {
            (Meaning::Text("cmd"@), seq![Meaning::Text("/C"@), Meaning::Text("npx"@)])
        } else {
            (Meaning::Text("npx"@), seq![])
        },
    }
}

/// The file name of the Node.js executable on the system.
pub open spec fn bin_name(os: Seq<char>) -> Seq<char> {
    if os == "windows"@ {
        "node.exe"@
    } else {
        "node"@
    }
}

/// The words that make npx run the web service without asking.
pub open spec fn service_words<P>() -> Seq<Meaning<P>> {
    seq![Meaning::Text("-y"@), Meaning::Text("@deepseek-ai/dsh"@), Meaning::Text("web"@)]
}

/// The variables that are set for the web service.
pub open spec fn service_settings<P>(source: NodeSource<P>, dsh_home: Option<P>) -> Seq<
    (Seq<char>, Meaning<P>),
> {
    (if source is Local {
        seq![("npm_config_registry"@, Meaning::Text("https://registry.npmmirror.com"@))]
    } else {
        seq![]
    }) + (match dsh_home {
        Some(dir) => seq![("DSH_HOME"@, Meaning::Path(dir, seq![]))],
        None => seq![],
    })
}

/// Node.js itself.
pub open spec fn node_of<P>(os: Seq<char>, source: NodeSource<P>) -> Meaning<P> {
    match source {
        NodeSource::Local(dir) => Meaning::Path(dir, seq![bin_name(os)]),
        _ => Meaning::Text("node"@),
    }
}

/// The script with which Node.js tries to find a module of dsh.
pub open spec fn probe_script() -> Seq<char> {
    "import('@deepseek-ai/dsh-llm').then(()=>process.exit(0),()=>process.exit(1))"@
}

fn push_word<P>(words: &mut Vec<Word<P>>, word: &str)
    ensures
        meanings(final(words)@) == meanings(old(words)@).push(Meaning::Text(word@)),
{
    words.push(Word::Text(word.to_owned()));
    assert(meanings(words@) =~= meanings(old(words)@).push(Meaning::Text(word@)));
}

fn push_path<P>(words: &mut Vec<Word<P>>, place: Location<P>)
    ensures
        meanings(final(words)@) == meanings(old(words)@).push(
            Meaning::Path(place.root, place.trail()),
        ),
{
    words.push(Word::Path(place));
    assert(meanings(words@) =~= meanings(old(words)@).push(
        Meaning::Path(place.root, place.trail()),
    ));
}

/// The Node.js executable of the portable one in `dir`.
pub fn local_node<P>(dir: P, os: &str) -> (bin: Location<P>)
    ensures
        bin.root == dir,
        bin.trail() == seq![bin_name(os@)],
{
    let bin = Location::at(dir).join(node::node_bin_name(os));
    assert(bin.trail() =~= seq![bin_name(os@)]);
    bin
}

/// The plan is that for the web service.
pub open spec fn runs_service<P>(
    plan: CommandPlan<P>,
    os: Seq<char>,
    source: NodeSource<P>,
    extra: Seq<Seq<char>>,
    dsh_home: Option<P>,
    workspace: Option<P>,
    inherited: Seq<Seq<char>>,
) -> bool {
    let (program, first_words) = npx_of(os, source);
    &&& plan.program.meaning() == program
    &&& meanings(plan.args@) == first_words + service_words() + plain(extra)
    &&& settings(plan.set@) == service_settings(source, dsh_home)
    &&& place::texts(plan.remove@) == environment::removals(inherited)
    &&& match workspace {
        Some(dir) => plan.working_dir is Some && (plan.working_dir->0).root == dir && (
        plan.working_dir->0).trail() == Seq::<Seq<char>>::empty(),
        None => plan.working_dir is None,
    }
}

/// The command that runs the web service, with `extra_args`; `None` if there is
/// no Node.js. `inherited` are the names of the variables that it would inherit.
///
/// The working directory is set because dsh groups its sessions by it.
pub fn dsh_command<P: Copy>(
    os: &str,
    source: NodeSource<P>,
    extra_args: &Vec<&str>,
    dsh_home: Option<P>,
    workspace: Option<P>,
    inherited: &Vec<String>,
) -> (plan: Option<CommandPlan<P>>)
    ensures
        plan is None <==> source is Missing,
        plan matches Some(plan) ==> runs_service(
            plan,
            os@,
            source,
            extra_args@.map_values(|arg: &str| arg@),
            dsh_home,
            workspace,
            place::texts(inherited@),
        ),
{
    let mut args: Vec<Word<P>> = Vec::new();
    let mut set: Vec<(String, Word<P>)> = Vec::new();
    let ghost first_words = npx_of(os@, source).1;
    assert(meanings(args@) =~= seq![]);
    let program = match source {
        NodeSource::Missing => {
            return None;
        },
        NodeSource::System => {
            if text::same_text(os, "windows") {
                push_word(&mut args, "/C");
                push_word(&mut args, "npx");
                Word::Text("cmd".to_owned())
            } else {
                Word::Text("npx".to_owned())
            }
        },
        NodeSource::Local(dir) => {
            let cli = Location::at(dir).join("node_modules").join("npm").join("bin").join(
                "npx-cli.js",
            );
            assert(cli.trail() =~= seq!["node_modules"@, "npm"@, "bin"@, "npx-cli.js"@]);
            push_path(&mut args, cli);
            set.push(
                (
                    "npm_config_registry".to_owned(),
                    Word::Text("https://registry.npmmirror.com".to_owned()),
                ),
            );
            Word::Path(local_node(dir, os))
        },
    };
    assert(meanings(args@) =~= first_words);
    push_word(&mut args, "-y");
    push_word(&mut args, "@deepseek-ai/dsh");
    push_word(&mut args, "web");
    let ghost own = meanings(args@);
    let ghost extra = extra_args@.map_values(|arg: &str| arg@);
    assert(own =~= first_words + service_words::<P>());
    let mut i: usize = 0;
    assert(own =~= own + plain::<P>(extra.take(0)));
    while i < extra_args.len()
        invariant
            i <= extra_args.len(),
            extra == extra_args@.map_values(|arg: &str| arg@),
            meanings(args@) == own + plain::<P>(extra.take(i as int)),
        decreases extra_args.len() - i,
    {
        push_word(&mut args, extra_args[i]);
        assert(own + plain::<P>(extra.take(i + 1)) =~= (own + plain::<P>(extra.take(i as int))).push(
            Meaning::Text(extra[i as int]),
        ));
        i += 1;
    }
    assert(extra.take(i as int) =~= extra);
    if let Some(dir) = dsh_home {
        set.push(("DSH_HOME".to_owned(), Word::Path(Location::at(dir))));
    }
    assert(settings(set@) =~= service_settings(source, dsh_home));
    let working_dir = match workspace {
        Some(dir) => Some(Location::at(dir)),
        None => None,
    };
    let remove = environment::sanitize_child_env(inherited);
    Some(CommandPlan { program, args, set, remove, working_dir })
}

/// What is reported when the web service cannot be run for want of Node.js.
pub fn no_node_error() -> (message: String)
    ensures
        message@
            == "未检测到 Node.js 环境，且便携 Node 自动下载失败；请手动安装 Node.js 后重试"@,
{
    "未检测到 Node.js 环境，且便携 Node 自动下载失败；请手动安装 Node.js 后重试".to_owned()
}

/// The command that tries to find a module of dsh from the profile of the web
/// service; `None` if there is no Node.js.
pub fn probe_command<P: Copy>(
    os: &str,
    source: NodeSource<P>,
    profile: Location<P>,
    inherited: &Vec<String>,
) -> (plan: Option<CommandPlan<P>>)
    ensures
        plan is None <==> source is Missing,
        plan matches Some(plan) ==> {
            &&& plan.program.meaning() == node_of(os@, source)
            &&& meanings(plan.args@) == seq![
                Meaning::<P>::Text("--input-type=module"@),
                Meaning::Text("-e"@),
                Meaning::Text(probe_script()),
            ]
            &&& plan.set@.len() == 0
            &&& place::texts(plan.remove@) == environment::removals(place::texts(inherited@))
            &&& plan.working_dir is Some
            &&& (plan.working_dir->0).root == profile.root
            &&& (plan.working_dir->0).trail() == profile.trail()
        },
{
    let program = match source {
        NodeSource::Missing => {
            return None;
        },
        NodeSource::System => Word::Text("node".to_owned()),
        NodeSource::Local(dir) => Word::Path(local_node(dir, os)),
    };
    let mut args: Vec<Word<P>> = Vec::new();
    assert(meanings(args@) =~= seq![]);
    push_word(&mut args, "--input-type=module");
    push_word(&mut args, "-e");
    push_word(
        &mut args,
        "import('@deepseek-ai/dsh-llm').then(()=>process.exit(0),()=>process.exit(1))",
    );
    assert(meanings(args@) =~= seq![
        Meaning::<P>::Text("--input-type=module"@),
        Meaning::Text("-e"@),
        Meaning::Text(probe_script()),
    ]);
    let remove = environment::sanitize_child_env(inherited);
    Some(CommandPlan { program, args, set: Vec::new(), remove, working_dir: Some(profile) })
}

/// The arguments with which tar unpacks the archive, into the directory for it among
/// the launcher's own files.
pub open spec fn tar_words<P>(
    os: Seq<char>,
    root: P,
    trail: Seq<Seq<char>>,
    config_root: P,
    config_trail: Seq<Seq<char>>,
) -> Seq<Meaning<P>> {
    seq![
        Meaning::Text(node::tar_flag(os)),
        Meaning::Path(root, trail),
        Meaning::Text("-C"@),
        Meaning::Path(config_root, node::node_root_trail(config_trail)),
    ]
}

/// The arguments with which tar unpacks `archive`, into the directory for it among
/// the launcher's own files.
pub fn extract_args<P>(os: &str, archive: Location<P>, config_dir: Location<P>) -> (args: Vec<
    Word<P>,
>)
    ensures
        meanings(args@) == tar_words(
            os@,
            archive.root,
            archive.trail(),
            config_dir.root,
            config_dir.trail(),
        ),
{
    let ghost expected = seq![
        Meaning::Text(node::tar_flag(os@)),
        Meaning::Path(archive.root, archive.trail()),
        Meaning::Text("-C"@),
        Meaning::Path(config_dir.root, node::node_root_trail(config_dir.trail())),
    ];
    let (_, flags) = node::node_archive_parts(os);
    let mut args: Vec<Word<P>> = Vec::new();
    assert(meanings(args@) =~= seq![]);
    push_word(&mut args, flags[0]);
    push_path(&mut args, archive);
    push_word(&mut args, "-C");
    push_path(&mut args, node::node_root_dir(config_dir));
    assert(meanings(args@) =~= expected);
    args
}

/// Unpacking has made Node.js usable.
pub open spec fn is_unpacked(tar_ok: bool, bin_is_file: bool) -> bool {
    tar_ok && bin_is_file
}

/// Whether unpacking has made Node.js usable: tar ended well and the executable
/// is there.
pub fn extraction_succeeded(tar_ok: bool, bin_is_file: bool) -> (ok: bool)
    ensures
        ok == is_unpacked(tar_ok, bin_is_file),
{
    tar_ok && bin_is_file
}

/// What is logged of an archive that was unpacked, or was not.
pub open spec fn extraction_words(ok: bool, dir: Seq<char>) -> Seq<char> {
    if ok {
        "便携 Node 已就绪："@ + dir
    } else {
        "便携 Node 解压失败"@
    }
}

/// What is logged of an archive that was unpacked to `dir`, or was not.
pub fn extraction_note(ok: bool, dir: &str) -> (note: String)
    ensures
        note@ == extraction_words(ok, dir@),
{
    if ok {
        let mut note = "便携 Node 已就绪：".to_owned();
        note.append(dir);
        note
    } else {
        "便携 Node 解压失败".to_owned()
    }
}

/// The arguments with which curl downloads `url` to the place.
pub open spec fn curl_words<P>(root: P, trail: Seq<Seq<char>>, url: Seq<char>) -> Seq<Meaning<P>> {
    seq![
        Meaning::Text("-L"@),
        Meaning::Text("--fail"@),
        Meaning::Text("--silent"@),
        Meaning::Text("--show-error"@),
        Meaning::Text("-o"@),
        Meaning::Path(root, trail),
        Meaning::Text(url),
    ]
}

/// The arguments with which curl downloads `url` to `archive`.
pub fn curl_args<P>(archive: Location<P>, url: &str) -> (args: Vec<Word<P>>)
    ensures
        meanings(args@) == curl_words(archive.root, archive.trail(), url@),
{
    let ghost path = Meaning::Path(archive.root, archive.trail());
    let mut args: Vec<Word<P>> = Vec::new();
    assert(meanings(args@) =~= seq![]);
    push_word(&mut args, "-L");
    push_word(&mut args, "--fail");
    push_word(&mut args, "--silent");
    push_word(&mut args, "--show-error");
    push_word(&mut args, "-o");
    push_path(&mut args, archive);
    push_word(&mut args, url);
    assert(meanings(args@) =~= seq![
        Meaning::Text("-L"@),
        Meaning::Text("--fail"@),
        Meaning::Text("--silent"@),
        Meaning::Text("--show-error"@),
        Meaning::Text("-o"@),
        path,
        Meaning::Text(url@),
    ]);
    args
}

/// The arguments with which wget downloads `url` to the place.
pub open spec fn wget_words<P>(root: P, trail: Seq<Seq<char>>, url: Seq<char>) -> Seq<Meaning<P>> {
    seq![
        Meaning::Text("-q"@),
        Meaning::Text("-O"@),
        Meaning::Path(root, trail),
        Meaning::Text(url),
    ]
}

/// The arguments with which wget downloads `url` to `archive`.
pub fn wget_args<P>(archive: Location<P>, url: &str) -> (args: Vec<Word<P>>)
    ensures
        meanings(args@) == wget_words(archive.root, archive.trail(), url@),
{
    let ghost path = Meaning::Path(archive.root, archive.trail());
    let mut args: Vec<Word<P>> = Vec::new();
    assert(meanings(args@) =~= seq![]);
    push_word(&mut args, "-q");
    push_word(&mut args, "-O");
    push_path(&mut args, archive);
    push_word(&mut args, url);
    assert(meanings(args@) =~= seq![
        Meaning::Text("-q"@),
        Meaning::Text("-O"@),
        path,
        Meaning::Text(url@),
    ]);
    args
}

/// The arguments with which taskkill ends the process and all that it started.
pub open spec fn kill_words(pid: u32) -> Seq<Seq<char>> {
    seq!["/PID"@, number::natural_text(pid as nat), "/T"@, "/F"@]
}

/// The arguments with which taskkill ends the process and all that it started.
pub fn kill_tree_args(pid: u32) -> (args: Vec<String>)
    ensures
        place::texts(args@) == kill_words(pid),
{
    let mut args: Vec<String> = Vec::new();
    args.push("/PID".to_owned());
    args.push(number::natural(pid as u64));
    args.push("/T".to_owned());
    args.push("/F".to_owned());
    assert(place::texts(args@) =~= kill_words(pid));
    args
}

/// No variable that is set for the web service is among those removed for it.
pub proof fn law_settings_are_not_removed<P>(
    source: NodeSource<P>,
    dsh_home: Option<P>,
    inherited: Seq<Seq<char>>,
    i: int,
)
    requires
        0 <= i < service_settings(source, dsh_home).len(),
    ensures
        !environment::removals(inherited).contains(service_settings(source, dsh_home)[i].0),
{
    let name = service_settings(source, dsh_home)[i].0;
    environment::law_only_disturbing_variables_go(inherited, name);
    reveal_strlit("NODE_OPTIONS");
    reveal_strlit("NODE_PATH");
    reveal_strlit("npm_config_registry");
    reveal_strlit("DSH_HOME");
    reveal_strlit("npm_config_");
    reveal_strlit("registry");
    let lower = text::ascii_lowercase(name);
    if name == "DSH_HOME"@ {
        assert(lower[0] == 'd');
    } else {
        assert(name == "npm_config_registry"@);
        assert(lower.subrange(11, 19) =~= "registry"@);
        assert(text::occurs_at(lower, "registry"@, 11));
    }
}

/// The service uses the configured data directory, which is set for it; without
/// one it keeps what it inherits.
pub proof fn law_configured_home_comes_first<P>(
    source: NodeSource<P>,
    dsh_home: Option<P>,
    inherited: Seq<Seq<char>>,
)
    ensures
        dsh_home matches Some(dir) ==> service_settings(source, dsh_home).contains(
            ("DSH_HOME"@, Meaning::Path(dir, seq![])),
        ),
        dsh_home is None ==> forall|i: int|
            0 <= i < service_settings(source, dsh_home).len() ==> (#[trigger] service_settings(
                source,
                dsh_home,
            )[i]).0 != "DSH_HOME"@,
        !environment::removals(inherited).contains("DSH_HOME"@),
{
    environment::law_only_disturbing_variables_go(inherited, "DSH_HOME"@);
    reveal_strlit("NODE_OPTIONS");
    reveal_strlit("NODE_PATH");
    reveal_strlit("npm_config_registry");
    reveal_strlit("DSH_HOME");
    reveal_strlit("npm_config_");
    assert(text::ascii_lowercase("DSH_HOME"@)[0] == 'd');
    assert("DSH_HOME"@.len() == 8 && "npm_config_registry"@.len() == 19);
    let all = service_settings(source, dsh_home);
    if dsh_home is Some {
        assert(all[all.len() - 1] == ("DSH_HOME"@, Meaning::Path(dsh_home->0, seq![])));
    }
}


/// How the service is run: by npx of the system, through `cmd` on Windows, or by the
/// portable Node.js with the npx that comes with it, both from its own directory.
pub proof fn law_npx_belongs_to_its_node<P>(os: Seq<char>, dir: P)
    ensures
        npx_of(os, NodeSource::Local(dir)).0 == Meaning::Path(
            dir,
            seq![
                if os == "windows"@ {
                    "node.exe"@
                } else {
                    "node"@
                },
            ],
        ),
        npx_of(os, NodeSource::Local(dir)).1 == seq![
            Meaning::Path(dir, seq!["node_modules"@, "npm"@, "bin"@, "npx-cli.js"@]),
        ],
        os == "windows"@ ==> npx_of(os, NodeSource::<P>::System) == (
            Meaning::<P>::Text("cmd"@),
            seq![Meaning::<P>::Text("/C"@), Meaning::Text("npx"@)],
        ),
        os != "windows"@ ==> npx_of(os, NodeSource::<P>::System) == (
            Meaning::<P>::Text("npx"@),
            Seq::<Meaning<P>>::empty(),
        ),
{
}

/// The registry is set for the portable Node.js and only for it; the data directory
/// is set if and only if one is configured. Nothing else is set.
pub proof fn law_what_is_set_for_the_service<P>(
    source: NodeSource<P>,
    dsh_home: Option<P>,
    name: Seq<char>,
)
    ensures
        (exists|i: int|
            0 <= i < service_settings(source, dsh_home).len() && (#[trigger] service_settings(
                source,
                dsh_home,
            )[i]).0 == name) <==> (name == "npm_config_registry"@ && source is Local) || (name
            == "DSH_HOME"@ && dsh_home is Some),
        source is Local ==> service_settings(source, dsh_home)[0] == (
            "npm_config_registry"@,
            Meaning::<P>::Text("https://registry.npmmirror.com"@),
        ),
{
    let all = service_settings(source, dsh_home);
    if source is Local {
        assert(all[0].0 == "npm_config_registry"@);
    }
    if dsh_home is Some {
        assert(all[all.len() - 1].0 == "DSH_HOME"@);
    }
}

/// The service is run without a question for the user, and the words are those of
/// `npx -y @deepseek-ai/dsh web`.
pub proof fn law_service_is_run_without_asking<P>()
    ensures
        service_words::<P>().len() == 3,
        service_words::<P>()[0] == Meaning::<P>::Text("-y"@),
        service_words::<P>()[1] == Meaning::<P>::Text("@deepseek-ai/dsh"@),
        service_words::<P>()[2] == Meaning::<P>::Text("web"@),
{
}

/// Taskkill is told the process by its number, and to end all that it started.
pub proof fn law_whole_trees_are_ended(pid: u32)
    ensures
        kill_words(pid).contains("/T"@),
        kill_words(pid).contains("/F"@),
        kill_words(pid)[0] == "/PID"@,
        number::natural_of(kill_words(pid)[1]) == Some(pid as nat),
{
    number::lemma_natural_text(pid as nat);
    assert(kill_words(pid)[2] == "/T"@ && kill_words(pid)[3] == "/F"@);
}


/// An archive is usable only if it was unpacked without failure and the executable
/// is there, and then it is.
pub proof fn law_both_signs_of_success_count(tar_ok: bool, bin_is_file: bool)
    ensures
        is_unpacked(tar_ok, bin_is_file) ==> tar_ok,
        is_unpacked(tar_ok, bin_is_file) ==> bin_is_file,
        is_unpacked(true, true),
{
}

/// Modules are looked for with the Node.js that runs the service: the portable one
/// from its directory, else that of the system.
pub proof fn law_modules_are_looked_for_with_the_same_node<P>(os: Seq<char>, dir: P)
    ensures
        node_of(os, NodeSource::Local(dir)) == npx_of(os, NodeSource::Local(dir)).0,
        node_of(os, NodeSource::<P>::System) == Meaning::<P>::Text("node"@),
{
}

/// A plan for the service ends with the further words, in order and unchanged, right
/// behind `-y @deepseek-ai/dsh web`; it works in the workspace, in none other, and
/// in the inherited directory only without one.
pub proof fn law_service_is_run_as_asked<P>(
    plan: CommandPlan<P>,
    os: Seq<char>,
    source: NodeSource<P>,
    extra: Seq<Seq<char>>,
    dsh_home: Option<P>,
    workspace: Option<P>,
    inherited: Seq<Seq<char>>,
)
    requires
        runs_service(plan, os, source, extra, dsh_home, workspace, inherited),
    ensures
        plan.args@.len() >= 3 + extra.len(),
        forall|i: int|
            0 <= i < extra.len() ==> (plan.args@[plan.args@.len() - extra.len() + i]).meaning()
                == Meaning::<P>::Text(#[trigger] extra[i]),
        ({
            let n = plan.args@.len() - extra.len();
            &&& plan.args@[n - 3].meaning() == Meaning::<P>::Text("-y"@)
            &&& plan.args@[n - 2].meaning() == Meaning::<P>::Text("@deepseek-ai/dsh"@)
            &&& plan.args@[n - 1].meaning() == Meaning::<P>::Text("web"@)
            &&& source is Local ==> n == 4
            &&& !(source is Local) ==> n == if os == "windows"@ {
                5int
            } else {
                3int
            }
        }),
        workspace is Some <==> plan.working_dir is Some,
        workspace is Some ==> (plan.working_dir->0).root == workspace->0
            && (plan.working_dir->0).trail().len() == 0,
        place::texts(plan.remove@).contains("NODE_OPTIONS"@),
        place::texts(plan.remove@).contains("NODE_PATH"@),
{
    let (program, first_words) = npx_of(os, source);
    let all = meanings(plan.args@);
    let words = service_words::<P>();
    assert(all.len() == plan.args@.len());
    assert(all == first_words + words + plain::<P>(extra));
    assert forall|i: int| 0 <= i < all.len() implies all[i] == (#[trigger] plan.args@[i]).meaning() by {}
    let n = all.len() - extra.len();
    assert(n == first_words.len() + 3);
    assert forall|i: int| 0 <= i < extra.len() implies (plan.args@[plan.args@.len() - extra.len()
        + i]).meaning() == Meaning::<P>::Text(#[trigger] extra[i]) by {
        assert(all[n + i] == plain::<P>(extra)[i]);
    }
    assert(all[n - 3] == words[0] && all[n - 2] == words[1] && all[n - 1] == words[2]);
    environment::law_node_variables_always_go(inherited);
}


/// A download follows redirections, counts a refusal as failure, and goes to the
/// place that is named behind the option for it; the source comes last, whole.
pub proof fn law_downloads_go_where_they_are_told<P>(
    root: P,
    trail: Seq<Seq<char>>,
    url: Seq<char>,
)
    ensures
        curl_words(root, trail, url).last() == Meaning::<P>::Text(url),
        wget_words(root, trail, url).last() == Meaning::<P>::Text(url),
        curl_words(root, trail, url).contains(Meaning::<P>::Text("-L"@)),
        curl_words(root, trail, url).contains(Meaning::<P>::Text("--fail"@)),
        exists|i: int|
            0 < i < curl_words(root, trail, url).len() && #[trigger] curl_words(root, trail, url)[i]
                == Meaning::Path(root, trail) && curl_words(root, trail, url)[i - 1]
                == Meaning::<P>::Text("-o"@),
        exists|i: int|
            0 < i < wget_words(root, trail, url).len() && #[trigger] wget_words(root, trail, url)[i]
                == Meaning::Path(root, trail) && wget_words(root, trail, url)[i - 1]
                == Meaning::<P>::Text("-O"@),
{
    let curl = curl_words(root, trail, url);
    let wget = wget_words(root, trail, url);
    assert(curl[0] == Meaning::<P>::Text("-L"@) && curl[1] == Meaning::<P>::Text("--fail"@));
    assert(curl[5] == Meaning::Path(root, trail) && curl[5 - 1] == Meaning::<P>::Text("-o"@));
    assert(wget[2] == Meaning::Path(root, trail) && wget[2 - 1] == Meaning::<P>::Text("-O"@));
}

/// An archive is unpacked with the flag for its kind, and into the directory in which
/// Node.js is looked for then.
pub proof fn law_archives_are_unpacked_where_node_is_looked_for<P>(
    os: Seq<char>,
    arch: Seq<char>,
    root: P,
    trail: Seq<Seq<char>>,
    config_root: P,
    config_trail: Seq<Seq<char>>,
)
    ensures
        ({
            let words = tar_words(os, root, trail, config_root, config_trail);
            &&& words[0] == Meaning::<P>::Text(node::tar_flag(os))
            &&& words[1] == Meaning::Path(root, trail)
            &&& words[2] == Meaning::<P>::Text("-C"@)
            &&& words[3] matches Meaning::Path(target_root, target) && target_root == config_root
                && target.push(node::release_name(os, arch)) == node::local_node_trail(
                config_trail,
                os,
                arch,
            )
            &&& words.len() == 4
        }),
{
    node::law_node_is_looked_for_where_it_is_unpacked(config_trail, os, arch);
}

/// Success is logged with the directory, whole, and failure is not mistaken for it.
pub proof fn law_success_is_logged_with_the_directory(dir: Seq<char>, other: Seq<char>)
    ensures
        dir.is_suffix_of(extraction_words(true, dir)),
        extraction_words(true, dir) == extraction_words(true, other) ==> dir == other,
        extraction_words(false, dir) == extraction_words(false, other),
        extraction_words(true, dir) != extraction_words(false, other),
{
    reveal_strlit("便携 Node 已就绪：");
    reveal_strlit("便携 Node 解压失败");
    let one = extraction_words(true, dir);
    let two = extraction_words(true, other);
    let n = "便携 Node 已就绪："@.len() as int;
    assert(one.skip(n) =~= dir && two.skip(n) =~= other);
    assert(one.subrange(one.len() - dir.len(), one.len() as int) =~= dir);
    assert(one[8] == '已' && extraction_words(false, other)[8] == '解');
}

}
