//! Node.js: the one of the system, or a portable one that the launcher unpacks
//! from its own bundle or from a download.

use crate::place;
use crate::place::Location;
use crate::text;
use vstd::prelude::*;

verus! {

/// The version of the portable Node.js.
pub const NODE_VERSION: &'static str = "24.12.0";

/// The name of the processor in the names of the official archives.
pub open spec fn arch_suffix(arch: Seq<char>) -> Seq<char> {
    if arch == "aarch64"@ {
        "arm64"@
    } else if arch == "x86"@ {
        "x86"@
    } else {
        "x64"@
    }
}

/// The name of the system in the names of the official archives.
pub open spec fn platform(os: Seq<char>) -> Seq<char> {
    if os == "windows"@ {
        "win"@
    } else if os == "macos"@ {
        "darwin"@
    } else {
        "linux"@
    }
}

/// The extension of the official archives for the system.
pub open spec fn archive_extension(os: Seq<char>) -> Seq<char> {
    if os == "windows"@ {
        "zip"@
    } else if os == "macos"@ {
        "tar.gz"@
    } else {
        "tar.xz"@
    }
}

/// The flag with which tar unpacks them.
pub open spec fn tar_flag(os: Seq<char>) -> Seq<char> {
    if os == "windows"@ {
        "-xf"@
    } else if os == "macos"@ {
        "-xzf"@
    } else {
        "-xJf"@
    }
}

/// The name of the directory in the official archive.
pub open spec fn release_name(os: Seq<char>, arch: Seq<char>) -> Seq<char> {
    "node-v"@ + NODE_VERSION@ + "-"@ + platform(os) + "-"@ + arch_suffix(arch)
}

/// The name of the official archive.
pub open spec fn archive_name(os: Seq<char>, arch: Seq<char>) -> Seq<char> {
    release_name(os, arch) + "."@ + archive_extension(os)
}

/// Where the archive can be downloaded, in the order in which to try.
pub open spec fn download_sources(os: Seq<char>, arch: Seq<char>) -> Seq<Seq<char>> {
    seq![
        "https://registry.npmmirror.com/-/binary/node/v"@ + NODE_VERSION@ + "/"@ + archive_name(
            os,
            arch,
        ),
        "https://nodejs.org/dist/v"@ + NODE_VERSION@ + "/"@ + archive_name(os, arch),
    ]
}

/// The name of the processor in the names of the official archives, from the
/// one that Rust gives it.
pub fn node_arch_suffix(arch: &str) -> (suffix: &'static str)
    ensures
        suffix@ == arch_suffix(arch@),
{
    if text::same_text(arch, "aarch64") {
        "arm64"
    } else if text::same_text(arch, "x86") {
        "x86"
    } else {
        "x64"
    }
}

/// The name of the system in the names of the official archives, from the one
/// that Rust gives it.
pub fn node_platform(os: &str) -> (name: &'static str)
    ensures
        name@ == platform(os@),
{
    if text::same_text(os, "windows") {
        "win"
    } else if text::same_text(os, "macos") {
        "darwin"
    } else {
        "linux"
    }
}

/// The extension of the official archives for the system, and the flags with
/// which tar unpacks them.
pub fn node_archive_parts(os: &str) -> (parts: (&'static str, Vec<&'static str>))
    ensures
        parts.0@ == archive_extension(os@),
        parts.1@.len() == 1,
        parts.1@[0]@ == tar_flag(os@),
{
    if text::same_text(os, "windows") {
        ("zip", vec!["-xf"])
    } else if text::same_text(os, "macos") {
        ("tar.gz", vec!["-xzf"])
    } else {
        ("tar.xz", vec!["-xJf"])
    }
}

/// The file name of the Node.js executable on the system.
pub fn node_bin_name(os: &str) -> (name: &'static str)
    ensures
        name@ == if os@ == "windows"@ {
            "node.exe"@
        } else {
            "node"@
        },
{
    if text::same_text(os, "windows") {
        "node.exe"
    } else {
        "node"
    }
}

/// The name of the directory in the official archive.
pub fn node_release_name(os: &str, arch: &str) -> (name: String)
    ensures
        name@ == release_name(os@, arch@),
{
    let mut name = "node-v".to_owned();
    name.append(NODE_VERSION);
    name.append("-");
    name.append(node_platform(os));
    name.append("-");
    name.append(node_arch_suffix(arch));
    name
}

/// The name of the official archive.
pub fn node_archive_name(os: &str, arch: &str) -> (name: String)
    ensures
        name@ == archive_name(os@, arch@),
{
    let (extension, _) = node_archive_parts(os);
    let mut name = node_release_name(os, arch);
    name.append(".");
    name.append(extension);
    name
}

/// The directory among the launcher's own files that archives are unpacked into.
pub open spec fn node_root_trail(config_dir: Seq<Seq<char>>) -> Seq<Seq<char>> {
    config_dir.push("node"@)
}

/// Where the portable Node.js is looked for.
pub open spec fn local_node_trail(
    config_dir: Seq<Seq<char>>,
    os: Seq<char>,
    arch: Seq<char>,
) -> Seq<Seq<char>> {
    config_dir.push("node"@).push(release_name(os, arch))
}

/// Where the archive is downloaded to.
pub open spec fn download_trail(
    config_dir: Seq<Seq<char>>,
    os: Seq<char>,
    arch: Seq<char>,
) -> Seq<Seq<char>> {
    config_dir.push(archive_name(os, arch))
}

/// The directory that archives are unpacked into.
pub fn node_root_dir<P>(config_dir: Location<P>) -> (dir: Location<P>)
    ensures
        dir.root == config_dir.root,
        dir.trail() == node_root_trail(config_dir.trail()),
{
    config_dir.join("node")
}

/// Where the portable Node.js is once its archive is unpacked.
pub fn local_node_dir<P>(config_dir: Location<P>, os: &str, arch: &str) -> (dir: Location<P>)
    ensures
        dir.root == config_dir.root,
        dir.trail() == local_node_trail(config_dir.trail(), os@, arch@),
{
    let name = node_release_name(os, arch);
    node_root_dir(config_dir).join(name.as_str())
}

/// Where the archive is downloaded to.
pub fn node_download_path<P>(config_dir: Location<P>, os: &str, arch: &str) -> (path: Location<P>)
    ensures
        path.root == config_dir.root,
        path.trail() == download_trail(config_dir.trail(), os@, arch@),
{
    let name = node_archive_name(os, arch);
    config_dir.join(name.as_str())
}

/// The portable Node.js is looked for where its archive is unpacked: under the
/// name of the directory in the archive, in the directory that archives are
/// unpacked into.
pub proof fn law_node_is_looked_for_where_it_is_unpacked(
    config_dir: Seq<Seq<char>>,
    os: Seq<char>,
    arch: Seq<char>,
)
    ensures
        local_node_trail(config_dir, os, arch) == node_root_trail(config_dir).push(
            release_name(os, arch),
        ),
{
}

/// Where the archive can be downloaded, in the order in which to try: the
/// mirror in China, then the official source.
pub fn node_download_urls(os: &str, arch: &str) -> (urls: Vec<String>)
    ensures
        place::texts(urls@) == download_sources(os@, arch@),
{
    let name = node_archive_name(os, arch);
    let mut mirror = "https://registry.npmmirror.com/-/binary/node/v".to_owned();
    mirror.append(NODE_VERSION);
    mirror.append("/");
    mirror.append(name.as_str());
    let mut official = "https://nodejs.org/dist/v".to_owned();
    official.append(NODE_VERSION);
    official.append("/");
    official.append(name.as_str());
    let mut urls: Vec<String> = Vec::new();
    urls.push(mirror);
    urls.push(official);
    assert(place::texts(urls@) =~= download_sources(os@, arch@));
    urls
}

/// Where the archive may lie that comes with the launcher, from the directory of
/// its executable.
pub open spec fn bundled_trails(os: Seq<char>, arch: Seq<char>) -> Seq<Seq<Seq<char>>> {
    seq![
        seq!["runtime"@, archive_name(os, arch)],
        seq![".."@, "Resources"@, "runtime"@, archive_name(os, arch)],
    ]
}

/// Where the archive may lie that comes with the launcher, whose executable is
/// in `exe_dir`: next to it, or among the resources of a macOS application.
pub fn bundled_node_archive_candidates<P: Copy>(exe_dir: Option<P>, os: &str, arch: &str) -> (found:
    Vec<Location<P>>)
    ensures
        match exe_dir {
            None => found@.len() == 0,
            Some(dir) => {
                &&& found@.len() == bundled_trails(os@, arch@).len()
                &&& forall|i: int|
                    0 <= i < found@.len() ==> (#[trigger] found@[i]).root == dir
                        && found@[i].trail() == bundled_trails(os@, arch@)[i]
            },
        },
{
    let mut found: Vec<Location<P>> = Vec::new();
    if let Some(dir) = exe_dir {
        let name = node_archive_name(os, arch);
        let beside = Location::at(dir).join("runtime").join(name.as_str());
        assert(beside.trail() =~= seq!["runtime"@, name@]);
        found.push(beside);
        let resources = Location::at(dir).join("..").join("Resources").join("runtime").join(
            name.as_str(),
        );
        assert(resources.trail() =~= seq![".."@, "Resources"@, "runtime"@, name@]);
        found.push(resources);
    }
    found
}

/// Each place to download from names the archive and the version.
pub proof fn law_sources_name_the_archive(os: Seq<char>, arch: Seq<char>, i: int)
    requires
        0 <= i < download_sources(os, arch).len(),
    ensures
        archive_name(os, arch).is_suffix_of(download_sources(os, arch)[i]),
        text::contains_text(download_sources(os, arch)[i], "node-v"@ + NODE_VERSION@),
{
    let url = download_sources(os, arch)[i];
    let name = archive_name(os, arch);
    let at = url.len() - name.len();
    assert(url.subrange(at, url.len() as int) =~= name);
    let version = "node-v"@ + NODE_VERSION@;
    assert(name.subrange(0, version.len() as int) =~= version);
    assert(url.subrange(at, at + version.len()) =~= version);
    assert(text::occurs_at(url, version, at));
}

/// Where Node.js comes from.
#[derive(Clone, Debug)]
pub enum NodeSource<P> {
    /// The one on the search path of the system.
    System,
    /// The portable one, in this directory.
    Local(P),
    /// None: the system has none and the portable one could not be had.
    Missing,
}

/// Where Node.js comes from, if it answers on the search path or else if the
/// portable one is ready.
pub open spec fn source_of<P>(system_ok: bool, local: Option<P>) -> NodeSource<P> {
    if system_ok {
        NodeSource::System
    } else {
        match local {
            Some(dir) => NodeSource::Local(dir),
            None => NodeSource::Missing,
        }
    }
}

/// Where Node.js comes from, if it answers on the search path or else if the
/// portable one is ready.
pub fn node_source<P>(system_ok: bool, local: Option<P>) -> (source: NodeSource<P>)
    ensures
        source == source_of(system_ok, local),
{
    if system_ok {
        NodeSource::System
    } else {
        match local {
            Some(dir) => NodeSource::Local(dir),
            None => NodeSource::Missing,
        }
    }
}

/// What is known of where Node.js comes from.
#[derive(Debug)]
pub enum Search<P> {
    /// Nothing yet.
    Begun,
    /// It does not answer on the search path.
    NotInSystem,
    Found(NodeSource<P>),
}

/// What has to be learned to know where Node.js comes from.
#[derive(Clone, Copy, Debug, PartialEq, Eq, Structural)]
pub enum Question {
    /// Does it answer on the search path?
    System,
    /// Where is the portable one, if it can be had?
    Local,
    Nothing,
}

/// What was learned.
#[derive(Debug)]
pub enum Answer<P> {
    System(bool),
    Local(Option<P>),
}

/// What has to be learned next.
pub open spec fn question_of<P>(search: Search<P>) -> Question {
    match search {
        Search::Begun => Question::System,
        Search::NotInSystem => Question::Local,
        Search::Found(_) => Question::Nothing,
    }
}

/// What is known after the answer. One to what was not asked changes nothing.
pub open spec fn known_after<P>(search: Search<P>, answer: Answer<P>) -> Search<P> {
    match (search, answer) {
        (Search::Begun, Answer::System(true)) => Search::Found(source_of(true, None)),
        (Search::Begun, Answer::System(false)) => Search::NotInSystem,
        (Search::NotInSystem, Answer::Local(dir)) => Search::Found(source_of(false, dir)),
        _ => search,
    }
}

/// Where Node.js comes from, found out once and kept.
#[derive(Debug)]
pub struct NodeMemo<P> {
    search: Search<P>,
}

impl<P> View for NodeMemo<P> {
    type V = Search<P>;

    /// What is known.
    closed spec fn view(&self) -> Search<P> {
        self.search
    }
}

impl<P> NodeMemo<P> {
    /// Nothing is known.
    pub fn new() -> (memo: Self)
        ensures
            memo@ == Search::<P>::Begun,
    {
        NodeMemo { search: Search::Begun }
    }

    /// What has to be learned next.
    pub fn asks(&self) -> (question: Question)
        ensures
            question == question_of(self@),
    {
        match &self.search {
            Search::Begun => Question::System,
            Search::NotInSystem => Question::Local,
            Search::Found(_) => Question::Nothing,
        }
    }

    /// Where Node.js comes from, if that was found out.
    pub fn found(&self) -> (source: Option<&NodeSource<P>>)
        ensures
            match source {
                Some(source) => self@ == Search::Found(*source),
                None => self@ !is Found,
            },
    {
        match &self.search {
            Search::Found(source) => Some(source),
            _ => None,
        }
    }

    /// Takes in what was learned.
    pub fn learn(&mut self, answer: Answer<P>)
        ensures
            final(self)@ == known_after(old(self)@, answer),
    {
        match (&self.search, answer) {
            (Search::Begun, Answer::System(true)) => {
                self.search = Search::Found(node_source(true, None));
            },
            (Search::Begun, Answer::System(false)) => {
                self.search = Search::NotInSystem;
            },
            (Search::NotInSystem, Answer::Local(dir)) => {
                self.search = Search::Found(node_source(false, dir));
            },
            _ => {},
        }
    }
}

/// What is known after the answers.
pub open spec fn known<P>(search: Search<P>, answers: Seq<Answer<P>>) -> Search<P>
    decreases answers.len(),
{
    if answers.len() == 0 {
        search
    } else {
        known_after(known(search, answers.drop_last()), answers.last())
    }
}

/// Where Node.js comes from is found out once: from then on nothing is asked, and
/// it stays the same whatever else is learned.
pub proof fn law_node_is_found_out_once<P>(search: Search<P>, answers: Seq<Answer<P>>)
    requires
        search is Found,
    ensures
        known(search, answers) == search,
        question_of(known(search, answers)) == Question::Nothing,
    decreases answers.len(),
{
    if answers.len() > 0 {
        law_node_is_found_out_once(search, answers.drop_last());
    }
}

/// It is found out by what is asked, and the portable one is asked for only if
/// the system has none.
pub proof fn law_two_questions_find_node<P>(system_ok: bool, local: Option<P>)
    ensures
        ({
            let first = known_after(Search::Begun, Answer::System(system_ok));
            if system_ok {
                first == Search::Found(source_of(system_ok, local))
            } else {
                &&& question_of(first) == Question::Local
                &&& known_after(first, Answer::Local(local)) == Search::Found(
                    source_of(system_ok, local),
                )
            }
        }),
{
}


/// A bundled archive has its official name and lies in a directory `runtime`, first
/// next to the executable.
pub proof fn law_bundled_archives_lie_in_runtime(os: Seq<char>, arch: Seq<char>, i: int)
    requires
        0 <= i < bundled_trails(os, arch).len(),
    ensures
        bundled_trails(os, arch)[i].last() == archive_name(os, arch),
        bundled_trails(os, arch)[i].drop_last().last() == "runtime"@,
        i == 0 ==> bundled_trails(os, arch)[i].len() == 2,
{
    let trail = bundled_trails(os, arch)[i];
    assert(trail.drop_last().last() == trail[trail.len() - 2]);
}

/// The archive, how it is unpacked and the system belong together.
pub proof fn law_archives_suit_the_system(os: Seq<char>)
    ensures
        archive_extension(os) == "zip"@ <==> platform(os) == "win"@,
        archive_extension(os) == "tar.gz"@ <==> platform(os) == "darwin"@,
        archive_extension(os) == "tar.xz"@ <==> platform(os) == "linux"@,
        tar_flag(os) == "-xf"@ <==> archive_extension(os) == "zip"@,
        tar_flag(os) == "-xzf"@ <==> archive_extension(os) == "tar.gz"@,
        tar_flag(os) == "-xJf"@ <==> archive_extension(os) == "tar.xz"@,
        platform(os) == "win"@ <==> os == "windows"@,
        platform(os) == "darwin"@ <==> os == "macos"@,
        platform(os) == "linux"@ <==> os != "windows"@ && os != "macos"@,
{
    reveal_strlit("zip");
    reveal_strlit("tar.gz");
    reveal_strlit("tar.xz");
    reveal_strlit("win");
    reveal_strlit("darwin");
    reveal_strlit("linux");
    reveal_strlit("-xf");
    reveal_strlit("-xzf");
    reveal_strlit("-xJf");
    reveal_strlit("windows");
    reveal_strlit("macos");
    assert("zip"@.len() == 3 && "tar.gz"@.len() == 6 && "tar.xz"@.len() == 6);
    assert("tar.gz"@[4] == 'g' && "tar.xz"@[4] == 'x');
    assert("win"@.len() == 3 && "darwin"@.len() == 6 && "linux"@.len() == 5);
    assert("-xf"@.len() == 3 && "-xzf"@.len() == 4 && "-xJf"@.len() == 4);
    assert("-xzf"@[2] == 'z' && "-xJf"@[2] == 'J');
    assert("windows"@.len() == 7 && "macos"@.len() == 5);
}

/// The processor in the name of an archive: ARM and 32-bit Intel have their own, all
/// others get that of 64-bit Intel.
pub proof fn law_archives_suit_the_processor(arch: Seq<char>)
    ensures
        arch_suffix(arch) == "arm64"@ <==> arch == "aarch64"@,
        arch_suffix(arch) == "x86"@ <==> arch == "x86"@,
        arch_suffix(arch) == "x64"@ <==> arch != "aarch64"@ && arch != "x86"@,
{
    reveal_strlit("arm64");
    reveal_strlit("x86");
    reveal_strlit("x64");
    reveal_strlit("aarch64");
    assert("arm64"@.len() == 5 && "x86"@.len() == 3 && "x64"@.len() == 3);
    assert("x86"@[1] == '8' && "x64"@[1] == '6');
    assert("aarch64"@.len() == 7);
}

/// The archive is named after the directory in it, with the version, the system and
/// the processor in this order.
pub proof fn law_archive_is_named_after_its_release(os: Seq<char>, arch: Seq<char>)
    ensures
        release_name(os, arch) == "node-v24.12.0-"@ + platform(os) + "-"@ + arch_suffix(arch),
        release_name(os, arch).is_prefix_of(archive_name(os, arch)),
        archive_name(os, arch).skip(release_name(os, arch).len() as int) == "."@
            + archive_extension(os),
{
    reveal_strlit("node-v24.12.0-");
    reveal_strlit("node-v");
    reveal_strlit("24.12.0");
    reveal_strlit("-");
    assert("node-v24.12.0-"@ =~= "node-v"@ + "24.12.0"@ + "-"@);
    let release = release_name(os, arch);
    let archive = archive_name(os, arch);
    assert(release =~= "node-v24.12.0-"@ + platform(os) + "-"@ + arch_suffix(arch));
    assert(archive.subrange(0, release.len() as int) =~= release);
    assert(archive.skip(release.len() as int) =~= "."@ + archive_extension(os));
}

/// The mirror in China is tried first and the official source second.
pub proof fn law_mirror_comes_first(os: Seq<char>, arch: Seq<char>)
    ensures
        download_sources(os, arch).len() == 2,
        "https://registry.npmmirror.com/-/binary/node/v"@.is_prefix_of(download_sources(os, arch)[0]),
        "https://nodejs.org/dist/v"@.is_prefix_of(download_sources(os, arch)[1]),
{
    let mirror = "https://registry.npmmirror.com/-/binary/node/v"@;
    let official = "https://nodejs.org/dist/v"@;
    assert(download_sources(os, arch)[0].subrange(0, mirror.len() as int) =~= mirror);
    assert(download_sources(os, arch)[1].subrange(0, official.len() as int) =~= official);
}

/// Node.js of the system is used whenever there is one, the portable one only
/// without it, and none only if neither can be had.
pub proof fn law_system_node_comes_first<P>(system_ok: bool, local: Option<P>)
    ensures
        source_of(system_ok, local) == NodeSource::<P>::System <==> system_ok,
        source_of(system_ok, local) == NodeSource::<P>::Missing <==> !system_ok && local is None,
        !system_ok && local is Some ==> source_of(system_ok, local) == NodeSource::Local(local->0),
{
}

/// Only what was asked for is taken in: an answer to something else changes
/// nothing.
pub proof fn law_other_answers_change_nothing<P>(search: Search<P>, answer: Answer<P>)
    requires
        match question_of(search) {
            Question::System => answer !is System,
            Question::Local => answer !is Local,
            Question::Nothing => true,
        },
    ensures
        known_after(search, answer) == search,
{
}


/// Archives are downloaded into the launcher's own directory, under their own name,
/// and unpacked into a directory `node` there, wherever that is.
pub proof fn law_node_lies_among_the_own_files(
    config_dir: Seq<Seq<char>>,
    os: Seq<char>,
    arch: Seq<char>,
)
    ensures
        node_root_trail(config_dir) == config_dir + seq!["node"@],
        download_trail(config_dir, os, arch) == config_dir + seq![archive_name(os, arch)],
        local_node_trail(config_dir, os, arch) == config_dir + seq!["node"@, release_name(os, arch)],
{
    assert(node_root_trail(config_dir) =~= config_dir + seq!["node"@]);
    assert(download_trail(config_dir, os, arch) =~= config_dir + seq![archive_name(os, arch)]);
    assert(local_node_trail(config_dir, os, arch) =~= config_dir + seq![
        "node"@,
        release_name(os, arch),
    ]);
}

}
