//! The installation of dsh that npx keeps in its cache: where it is, and
//! whether it is whole.

use crate::latch::Latch;
use crate::number;
use crate::paths;
use crate::place::Location;
use crate::text;
use vstd::prelude::*;
use vstd::utf8::*;

verus! {

/// The predicate "separates the names of a path".
pub open spec fn separator() -> spec_fn(char) -> bool {
    |c: char| c == '/' || c == '\\'
}

/// The predicate "is a hexadecimal digit".
pub open spec fn hex_digit() -> spec_fn(char) -> bool {
    |c: char| '0' <= c <= '9' || 'a' <= c <= 'f' || 'A' <= c <= 'F'
}

/// The predicate "neither a line feed nor a carriage return".
pub open spec fn within_line() -> spec_fn(char) -> bool {
    |c: char| c != '\n' && c != '\r'
}

/// The last position up to `i` at which `needle` stands in `text`.
pub open spec fn last_occurrence(text: Seq<char>, needle: Seq<char>, i: int) -> Option<int>
    decreases i + 1,
{
    if i < 0 {
        None
    } else if text::occurs_at(text, needle, i) {
        Some(i)
    } else {
        last_occurrence(text, needle, i - 1)
    }
}

/// What stands behind the `_npx` at position `i` and one separator.
pub open spec fn behind_marker(text: Seq<char>, i: int) -> Seq<char> {
    let rest = text.skip(i + "_npx"@.len());
    if rest.len() > 0 && separator()(rest[0]) {
        rest.skip(1)
    } else {
        rest
    }
}

/// The name of the entry that the `_npx` at position `i` leads to.
pub open spec fn hash_at(text: Seq<char>, i: int) -> Seq<char> {
    let after = behind_marker(text, i);
    after.take(text::run_len(after, hex_digit()) as int)
}

/// The part of the line of position `i` that stands before it.
pub open spec fn line_before(text: Seq<char>, i: int) -> Seq<char> {
    let head = text.take(i);
    head.skip(head.len() - text::tail_len(head, within_line()))
}

/// The path begins with the letter of a drive.
pub open spec fn names_drive(path: Seq<char>) -> bool {
    path.len() >= 2 && ('a' <= path[0] <= 'z' || 'A' <= path[0] <= 'Z') && path[1] == ':'
}

/// The path with which `line` ends, without the separators at the end: the one of
/// the last `file:///`, or all of the line. The last slash of `file:///` belongs
/// to the path unless that begins with a drive.
pub open spec fn path_of_line(line: Seq<char>) -> Seq<char> {
    let path = match last_occurrence(line, "file:///"@, line.len() as int) {
        Some(at) => if names_drive(line.skip(at + 8)) {
            line.skip(at + 8)
        } else {
            line.skip(at + 7)
        },
        None => line,
    };
    text::trimmed_end(path, separator())
}

/// The directory and the name of the cache entry of which the text speaks at
/// position `i`: a path of at least three bytes, then `_npx`, then at least
/// eight hexadecimal digits.
pub open spec fn entry_at(text: Seq<char>, i: int) -> Option<(Seq<char>, Seq<char>)> {
    let hash = hash_at(text, i);
    let dir = path_of_line(line_before(text, i));
    if text::occurs_at(text, "_npx"@, i) && hash.len() >= 8 && encode_utf8(dir).len() >= 3 {
        Some((dir, hash))
    } else {
        None
    }
}

/// The cache entries of which `text` speaks from position `i` on, in order.
pub open spec fn entries_from(text: Seq<char>, i: int) -> Seq<(Seq<char>, Seq<char>)>
    decreases text.len() - i,
{
    if i < 0 || i >= text.len() {
        seq![]
    } else {
        match entry_at(text, i) {
            Some(entry) => seq![entry] + entries_from(text, i + 1),
            None => entries_from(text, i + 1),
        }
    }
}

/// The place is that of the cache entry: `_npx` and the name, in the directory.
pub open spec fn is_entry(place: Location<String>, entry: (Seq<char>, Seq<char>)) -> bool {
    place.root@ == entry.0 && place.trail() == seq!["_npx"@, entry.1]
}

/// `places` are those of `entries`, one by one.
pub open spec fn are_entries(
    places: Seq<Location<String>>,
    entries: Seq<(Seq<char>, Seq<char>)>,
) -> bool {
    places.len() == entries.len() && forall|i: int|
        0 <= i < places.len() ==> is_entry(#[trigger] places[i], entries[i])
}

fn is_separator(c: char) -> (b: bool)
    ensures
        b == separator()(c),
{
    c == '/' || c == '\\'
}

fn is_hex(c: char) -> (b: bool)
    ensures
        b == hex_digit()(c),
{
    ('0' <= c && c <= '9') || ('a' <= c && c <= 'f') || ('A' <= c && c <= 'F')
}

/// A search from the end finds what is the last occurrence up to any later position.
proof fn lemma_last_occurrence(text: Seq<char>, needle: Seq<char>, at: int, i: int)
    requires
        0 <= at <= i,
        text::occurs_at(text, needle, at),
        forall|j: int| at < j ==> !text::occurs_at(text, needle, j),
    ensures
        last_occurrence(text, needle, i) == Some(at),
    decreases i,
{
    if i > at {
        lemma_last_occurrence(text, needle, at, i - 1);
    }
}

/// What stands nowhere has no last occurrence.
proof fn lemma_no_occurrence(text: Seq<char>, needle: Seq<char>, i: int)
    requires
        forall|j: int| !text::occurs_at(text, needle, j),
    ensures
        last_occurrence(text, needle, i) is None,
    decreases i + 1,
{
    if i >= 0 {
        lemma_no_occurrence(text, needle, i - 1);
    }
}

/// The bounds, in `text`, of the name that the `_npx` at `i` leads to.
fn hash_bounds(text: &[char], i: usize) -> (bounds: (usize, usize))
    requires
        text::occurs_at(text@, "_npx"@, i as int),
    ensures
        bounds.0 <= bounds.1 <= text@.len(),
        text@.subrange(bounds.0 as int, bounds.1 as int) == hash_at(text@, i as int),
{
    proof {
        reveal_strlit("_npx");
    }
    assert(i + 4 <= text.len());
    let mut start: usize = i + 4;
    if start < text.len() && is_separator(text[start]) {
        start += 1;
    }
    let ghost after = behind_marker(text@, i as int);
    assert(after =~= text@.skip(start as int));
    let mut end: usize = start;
    while end < text.len() && is_hex(text[end])
        invariant
            start <= end <= text.len(),
            forall|k: int| start <= k < end ==> hex_digit()(#[trigger] text@[k]),
        decreases text.len() - end,
    {
        end += 1;
    }
    proof {
        assert forall|k: int| 0 <= k < end - start implies hex_digit()(#[trigger] after[k]) by {
            assert(after[k] == text@[start + k]);
        }
        if end < text@.len() {
            assert(after[end - start] == text@[end as int]);
        }
        text::lemma_run_len(after, hex_digit(), end - start);
        assert(text@.subrange(start as int, end as int) =~= after.take(end - start));
    }
    (start, end)
}

/// Where the line of position `i` starts.
fn line_start(text: &[char], i: usize) -> (start: usize)
    requires
        i <= text@.len(),
    ensures
        start <= i,
        text@.subrange(start as int, i as int) == line_before(text@, i as int),
{
    let mut start: usize = i;
    while start > 0 && text[start - 1] != '\n' && text[start - 1] != '\r'
        invariant
            start <= i <= text.len(),
            forall|k: int| start <= k < i ==> within_line()(#[trigger] text@[k]),
        decreases start,
    {
        start -= 1;
    }
    proof {
        let head = text@.take(i as int);
        text::lemma_tail_len(head, within_line(), i - start);
        assert(text@.subrange(start as int, i as int) =~= head.skip(start as int));
    }
    start
}

/// Whether what stands in `text` from `i` on begins with the letter of a drive.
fn begins_with_drive(text: &[char], i: usize) -> (drive: bool)
    requires
        i <= text@.len(),
    ensures
        drive == names_drive(text@.skip(i as int)),
{
    let ghost path = text@.skip(i as int);
    if text.len() - i < 2 {
        return false;
    }
    assert(path[0] == text@[i as int] && path[1] == text@[i + 1]);
    let letter = text[i];
    (('a' <= letter && letter <= 'z') || ('A' <= letter && letter <= 'Z')) && text[i + 1] == ':'
}

/// The bounds, in `line`, of the path with which it ends.
fn path_bounds(line: &[char]) -> (bounds: (usize, usize))
    ensures
        bounds.0 <= bounds.1 <= line@.len(),
        line@.subrange(bounds.0 as int, bounds.1 as int) == path_of_line(line@),
{
    let scheme = text::chars_of("file:///");
    proof {
        reveal_strlit("file:///");
    }
    let start: usize = match text::find_last(line, &scheme) {
        Some(at) => {
            proof {
                lemma_last_occurrence(line@, "file:///"@, at as int, line@.len() as int);
            }
            assert(at + 8 <= line.len());
            let drive = begins_with_drive(line, at + 8);
            if drive {
                at + 8
            } else {
                at + 7
            }
        },
        None => {
            proof {
                lemma_no_occurrence(line@, "file:///"@, line@.len() as int);
                assert(line@.skip(0) =~= line@);
            }
            0
        },
    };
    let ghost path = line@.skip(start as int);
    let mut end: usize = line.len();
    while end > start && is_separator(line[end - 1])
        invariant
            start <= end <= line.len(),
            forall|k: int| end <= k < line@.len() ==> separator()(#[trigger] line@[k]),
        decreases end,
    {
        end -= 1;
    }
    proof {
        let cut = line@.len() - end;
        assert forall|k: int| path.len() - cut <= k < path.len() implies separator()(
            #[trigger] path[k],
        ) by {
            assert(path[k] == line@[start + k]);
        }
        if cut < path.len() {
            assert(path[path.len() - cut - 1] == line@[end - 1]);
        }
        text::lemma_tail_len(path, separator(), cut);
        assert(line@.subrange(start as int, end as int) =~= text::trimmed_end(path, separator()));
    }
    (start, end)
}

/// The place of the cache entry of which `text` speaks at position `i`.
fn entry_place(text: &str, chars: &[char], marker: &[char], i: usize) -> (place: Option<
    Location<String>,
>)
    requires
        chars@ == text@,
        marker@ == "_npx"@,
        i < chars@.len(),
    ensures
        match place {
            Some(place) => entry_at(text@, i as int) is Some && is_entry(
                place,
                entry_at(text@, i as int)->0,
            ),
            None => entry_at(text@, i as int) is None,
        },
{
    if !text::matches_at(chars, marker, i) {
        return None;
    }
    let (from, to) = hash_bounds(chars, i);
    if to - from < 8 {
        return None;
    }
    let start = line_start(chars, i);
    let line = vstd::slice::slice_subrange(chars, start, i);
    let (dir_from, dir_to) = path_bounds(line);
    let dir = text.substring_char(start + dir_from, start + dir_to);
    assert(dir@ =~= line@.subrange(dir_from as int, dir_to as int));
    if dir.as_bytes().len() < 3 {
        return None;
    }
    let hash = text.substring_char(from, to);
    let place = Location::at(dir.to_owned()).join("_npx").join(hash);
    assert(place.trail() =~= seq!["_npx"@, hash@]);
    Some(place)
}

/// The cache entries of which the end of the service log speaks, in order.
pub fn npx_entries_in_log(text: &str) -> (places: Vec<Location<String>>)
    ensures
        are_entries(places@, entries_from(text@, 0)),
{
    let chars = text::chars_of(text);
    let marker = text::chars_of("_npx");
    let mut places: Vec<Location<String>> = Vec::new();
    let ghost mut done: Seq<(Seq<char>, Seq<char>)> = seq![];
    let mut i: usize = 0;
    assert(done + entries_from(text@, 0) =~= entries_from(text@, 0));
    while i < chars.len()
        invariant
            chars@ == text@,
            marker@ == "_npx"@,
            i <= chars.len(),
            are_entries(places@, done),
            entries_from(text@, 0) == done + entries_from(text@, i as int),
        decreases chars.len() - i,
    {
        let place = entry_place(text, &chars, &marker, i);
        if let Some(place) = place {
            proof {
                let entry = entry_at(text@, i as int)->0;
                assert(done + (seq![entry] + entries_from(text@, i + 1)) =~= done.push(entry)
                    + entries_from(text@, i + 1));
                done = done.push(entry);
            }
            places.push(place);
        }
        i += 1;
    }
    assert(done + entries_from(text@, i as int) =~= done);
    places
}

/// The first of `entries`, from number `i` on, in which dsh is installed; one of
/// which `installed` says nothing is not.
pub open spec fn first_installed(
    entries: Seq<(Seq<char>, Seq<char>)>,
    installed: Seq<bool>,
    i: int,
) -> Option<(Seq<char>, Seq<char>)>
    decreases entries.len() - i,
{
    if i < 0 || i >= entries.len() {
        None
    } else if i < installed.len() && installed[i] {
        Some(entries[i])
    } else {
        first_installed(entries, installed, i + 1)
    }
}

/// The package of dsh in a cache entry.
pub open spec fn package_trail(entry: Seq<Seq<char>>) -> Seq<Seq<char>> {
    entry.push("node_modules"@).push("@deepseek-ai"@).push("dsh"@)
}

/// The package of dsh in a cache entry.
pub fn dsh_package_dir(entry: &Location<String>) -> (dir: Location<String>)
    ensures
        dir.root@ == entry.root@,
        dir.trail() == package_trail(entry.trail()),
{
    entry.copy().join("node_modules").join("@deepseek-ai").join("dsh")
}

/// The cache entry that holds dsh, as far as the end of the log tells: the
/// first of which it speaks and in which the package of dsh is installed.
///
/// `installed` says for each of `npx_entries_in_log(text)`, in order, whether
/// its `dsh_package_dir` exists.
pub fn npx_entry_dir_from_log_tail(text: &str, installed: &Vec<bool>) -> (entry: Option<
    Location<String>,
>)
    ensures
        match entry {
            Some(entry) => first_installed(entries_from(text@, 0), installed@, 0) is Some
                && is_entry(entry, first_installed(entries_from(text@, 0), installed@, 0)->0),
            None => first_installed(entries_from(text@, 0), installed@, 0) is None,
        },
{
    let mut places = npx_entries_in_log(text);
    let ghost entries = entries_from(text@, 0);
    let mut i: usize = 0;
    while i < places.len()
        invariant
            i <= places.len(),
            are_entries(places@, entries),
            entries == entries_from(text@, 0),
            first_installed(entries, installed@, 0) == first_installed(
                entries,
                installed@,
                i as int,
            ),
        decreases places.len() - i,
    {
        if i < installed.len() && installed[i] {
            return Some(places.swap_remove(i));
        }
        i += 1;
    }
    None
}

/// The packages by which a cache entry is known to be whole.
pub open spec fn key_packages() -> Seq<Seq<char>> {
    seq!["dsh-llm"@, "cordis-plugin-timer"@, "dsh-web-app"@]
}

/// The manifest of the package, in the cache entry.
pub open spec fn manifest_trail(entry: Seq<Seq<char>>, package: Seq<char>) -> Seq<Seq<char>> {
    entry.push("node_modules"@).push("@deepseek-ai"@).push(package).push("package.json"@)
}

fn manifest(entry: &Location<String>, package: &str) -> (path: Location<String>)
    ensures
        path.root@ == entry.root@,
        path.trail() == manifest_trail(entry.trail(), package@),
{
    entry.copy().join("node_modules").join("@deepseek-ai").join(package).join("package.json")
}

/// The files by which a cache entry is known to be whole.
pub fn key_manifests(entry: &Location<String>) -> (files: Vec<Location<String>>)
    ensures
        files@.len() == key_packages().len(),
        forall|i: int|
            0 <= i < files@.len() ==> (#[trigger] files@[i]).root@ == entry.root@
                && files@[i].trail() == manifest_trail(entry.trail(), key_packages()[i]),
{
    let mut files: Vec<Location<String>> = Vec::new();
    files.push(manifest(entry, "dsh-llm"));
    files.push(manifest(entry, "cordis-plugin-timer"));
    files.push(manifest(entry, "dsh-web-app"));
    files
}

/// What becomes of the cache entry that holds dsh.
#[derive(Clone, Copy, Debug, PartialEq, Eq, Structural)]
pub enum EntryCleanup {
    /// No entry was found.
    NotFound,
    /// The entry is whole: what failed is taken to be transient.
    Keep,
    /// A package is missing: npx has to install dsh anew.
    Remove,
}

/// What becomes of the cache entry, by which of its files exist.
pub open spec fn cleanup_of(present: Option<Seq<bool>>) -> EntryCleanup {
    match present {
        None => EntryCleanup::NotFound,
        Some(present) => if present.contains(false) {
            EntryCleanup::Remove
        } else {
            EntryCleanup::Keep
        },
    }
}

/// What becomes of the cache entry, if one was found and `present` says which
/// of its `key_manifests` exist. It can only be had again from the network, so
/// it is removed only if one of them is missing.
pub fn clear_npx_dsh_entry(present: Option<&Vec<bool>>) -> (cleanup: EntryCleanup)
    ensures
        cleanup == cleanup_of(
            match present {
                Some(present) => Some(present@),
                None => None,
            },
        ),
{
    match present {
        None => EntryCleanup::NotFound,
        Some(flags) => {
            let mut i: usize = 0;
            while i < flags.len()
                invariant
                    present == Some(flags),
                    i <= flags.len(),
                    forall|j: int| 0 <= j < i ==> flags@[j],
                decreases flags.len() - i,
            {
                if !flags[i] {
                    assert(flags@[i as int] == false);
                    return EntryCleanup::Remove;
                }
                i += 1;
            }
            EntryCleanup::Keep
        },
    }
}

/// How removing a directory ended.
#[derive(Clone, Copy, Debug, PartialEq, Eq, Structural)]
pub enum Removal {
    Removed,
    Absent,
    Failed,
}

/// What is logged of a cache entry that is not removed.
pub fn entry_cleanup_note(cleanup: EntryCleanup, path: &str) -> (note: Option<String>)
    ensures
        match cleanup {
            EntryCleanup::NotFound => note is Some && (note->0)@
                == "dsh-desktop: 未能在日志中找到 npx 安装条目路径，跳过条目清理"@,
            EntryCleanup::Keep => note is Some && (note->0)@ == "dsh-desktop: npx 条目 "@ + path@
                + " 完整，保留（本次失败按瞬态问题处理），跳过条目清理"@,
            EntryCleanup::Remove => note is None,
        },
{
    match cleanup {
        EntryCleanup::NotFound => Some(
            "dsh-desktop: 未能在日志中找到 npx 安装条目路径，跳过条目清理".to_owned(),
        ),
        EntryCleanup::Keep => {
            let mut note = "dsh-desktop: npx 条目 ".to_owned();
            note.append(path);
            note.append(" 完整，保留（本次失败按瞬态问题处理），跳过条目清理");
            Some(note)
        },
        EntryCleanup::Remove => None,
    }
}

/// What is logged when removing the cache entry at `path` has ended so.
pub fn entry_removal_note(removal: Removal, path: &str, error: &str) -> (note: Option<String>)
    ensures
        match removal {
            Removal::Removed => note is Some && (note->0)@ == "dsh-desktop: 已删除 npx 安装条目 "@
                + path@ + "（下一次 npx 会重新完整安装）"@,
            Removal::Absent => note is None,
            Removal::Failed => note is Some && (note->0)@
                == "dsh-desktop: 删除 npx 安装条目失败 "@ + path@ + "："@ + error@,
        },
{
    match removal {
        Removal::Removed => {
            let mut note = "dsh-desktop: 已删除 npx 安装条目 ".to_owned();
            note.append(path);
            note.append("（下一次 npx 会重新完整安装）");
            Some(note)
        },
        Removal::Absent => None,
        Removal::Failed => {
            let mut note = "dsh-desktop: 删除 npx 安装条目失败 ".to_owned();
            note.append(path);
            note.append("：");
            note.append(error);
            Some(note)
        },
    }
}

/// What is logged when removing the directory of module links at `path` has
/// ended so.
pub fn fallback_removal_note(removal: Removal, path: &str, error: &str) -> (note: Option<String>)
    ensures
        match removal {
            Removal::Removed => note is Some && (note->0)@ == "dsh-desktop: 已删除模块链接目录 "@
                + path@ + "（下一次启动 dsh 会重建）"@,
            Removal::Absent => note is None,
            Removal::Failed => note is Some && (note->0)@
                == "dsh-desktop: 删除模块链接目录失败 "@ + path@ + "："@ + error@,
        },
{
    match removal {
        Removal::Removed => {
            let mut note = "dsh-desktop: 已删除模块链接目录 ".to_owned();
            note.append(path);
            note.append("（下一次启动 dsh 会重建）");
            Some(note)
        },
        Removal::Absent => None,
        Removal::Failed => {
            let mut note = "dsh-desktop: 删除模块链接目录失败 ".to_owned();
            note.append(path);
            note.append("：");
            note.append(error);
            Some(note)
        },
    }
}

/// How the modules of dsh are repaired.
#[derive(Debug)]
pub struct Repair<P> {
    /// The directory of module links, to be removed: dsh makes it anew.
    pub module_fallback: Location<P>,
    /// Whether the cache entry of npx is to be looked into as well.
    pub clear_npx_entry: bool,
}

/// How the modules of dsh are repaired. The cache entry is looked into once
/// until `npx_latch` is opened again, so that what was just installed is not
/// removed.
pub fn repair_plugin_tree<P>(dsh_home: Location<P>, npx_latch: &mut Latch) -> (repair: Repair<P>)
    ensures
        repair.module_fallback.root == dsh_home.root,
        repair.module_fallback.trail() == paths::module_fallback_trail(dsh_home.trail()),
        (final(npx_latch)@, repair.clear_npx_entry) == crate::latch::attempt(old(npx_latch)@),
{
    let clear_npx_entry = npx_latch.enter();
    Repair { module_fallback: paths::module_fallback_dir(dsh_home), clear_npx_entry }
}

/// The end of the log tells that modules of dsh were not found.
pub open spec fn tells_of_broken_modules(log: Seq<char>) -> bool {
    text::contains_text(log, "Cannot find package"@) || text::contains_text(
        log,
        "plugin tree failed to load"@,
    )
}

/// Whether the end of the log tells that modules of dsh were not found.
pub fn plugin_tree_broken(text: &str) -> (broken: bool)
    ensures
        broken == tells_of_broken_modules(text@),
{
    text::contains(text, "Cannot find package") || text::contains(
        text,
        "plugin tree failed to load",
    )
}

proof fn lemma_entries_from(text: Seq<char>, from: int, k: int) -> (i: int)
    requires
        0 <= from,
        0 <= k < entries_from(text, from).len(),
    ensures
        from <= i < text.len(),
        entry_at(text, i) == Some(entries_from(text, from)[k]),
    decreases text.len() - from,
{
    if entry_at(text, from) is Some {
        if k == 0 {
            from
        } else {
            lemma_entries_from(text, from + 1, k - 1)
        }
    } else {
        lemma_entries_from(text, from + 1, k)
    }
}

/// Every cache entry that is found stands in the log: a path, `_npx` and at
/// least eight hexadecimal digits, which are all that follow.
pub proof fn law_entries_stand_in_the_log(text: Seq<char>, k: int) -> (i: int)
    requires
        0 <= k < entries_from(text, 0).len(),
    ensures
        text::occurs_at(text, "_npx"@, i),
        entries_from(text, 0)[k] == (path_of_line(line_before(text, i)), hash_at(text, i)),
        entries_from(text, 0)[k].1.len() >= 8,
        forall|j: int|
            0 <= j < entries_from(text, 0)[k].1.len() ==> hex_digit()(
                #[trigger] entries_from(text, 0)[k].1[j],
            ),
{
    let i = lemma_entries_from(text, 0, k);
    text::lemma_run(behind_marker(text, i), hex_digit());
    i
}

proof fn lemma_entry_is_found(text: Seq<char>, from: int, i: int)
    requires
        0 <= from <= i < text.len(),
        entry_at(text, i) is Some,
    ensures
        entries_from(text, from).contains(entry_at(text, i)->0),
    decreases i - from,
{
    let all = entries_from(text, from);
    if from == i {
        assert(all[0] == entry_at(text, i)->0);
    } else {
        lemma_entry_is_found(text, from + 1, i);
        let rest = entries_from(text, from + 1);
        let k = choose|k: int| 0 <= k < rest.len() && rest[k] == entry_at(text, i)->0;
        if entry_at(text, from) is Some {
            assert(all[k + 1] == rest[k]);
        } else {
            assert(all[k] == rest[k]);
        }
    }
}

/// The name of the entry is what stands between `_npx/` and the next character
/// that is no hexadecimal digit.
proof fn lemma_hash_at(text: Seq<char>, front: Seq<char>, hash: Seq<char>, rest: Seq<char>)
    requires
        text == front + "_npx/"@ + hash + rest,
        forall|i: int| 0 <= i < hash.len() ==> hex_digit()(#[trigger] hash[i]),
        rest.len() > 0,
        !hex_digit()(rest[0]),
    ensures
        text::occurs_at(text, "_npx"@, front.len() as int),
        hash_at(text, front.len() as int) == hash,
{
    reveal_strlit("_npx/");
    reveal_strlit("_npx");
    let i = front.len() as int;
    assert(text.subrange(i, i + 4) =~= "_npx"@);
    let follows = behind_marker(text, i);
    assert(follows =~= hash + rest);
    assert forall|k: int| 0 <= k < hash.len() implies hex_digit()(#[trigger] follows[k]) by {
        assert(follows[k] == hash[k]);
    }
    text::lemma_run_len(follows, hex_digit(), hash.len() as int);
    assert(hash_at(text, i) =~= hash);
}

/// A text without line breaks lies whole in the line with which `before + x` ends.
proof fn lemma_line_before(text: Seq<char>, before: Seq<char>, x: Seq<char>) -> (q: int)
    requires
        (before + x).is_prefix_of(text),
        forall|i: int| 0 <= i < x.len() ==> within_line()(#[trigger] x[i]),
    ensures
        0 <= q <= before.len(),
        line_before(text, (before.len() + x.len()) as int) == before.skip(before.len() - q) + x,
{
    let head = text.take((before.len() + x.len()) as int);
    assert(head =~= before + x);
    text::lemma_tail(head, within_line());
    let t = text::tail_len(head, within_line());
    if t < x.len() {
        assert(head[head.len() - t - 1] == x[x.len() - t - 1]);
        assert(false);
    }
    let q = t - x.len();
    assert(head.skip(head.len() - t) =~= before.skip(before.len() - q) + x);
    q
}

/// A text that begins with a letter it holds only once does not stand in `line`
/// again before it ends.
proof fn lemma_no_later_occurrence(
    line: Seq<char>,
    scheme: Seq<char>,
    rest: Seq<char>,
    q: int,
    j: int,
)
    requires
        0 <= q < j,
        line.skip(q) == scheme + rest,
        q <= line.len(),
        scheme.len() > 0,
        forall|k: int| 0 < k < scheme.len() ==> #[trigger] scheme[k] != scheme[0],
        !text::contains_text(rest, scheme),
    ensures
        !text::occurs_at(line, scheme, j),
{
    if text::occurs_at(line, scheme, j) {
        let found = line.subrange(j, j + scheme.len());
        assert(found[0] == line[j]);
        assert(line[j] == line.skip(q)[j - q]);
        if j - q < scheme.len() {
            assert(line.skip(q)[j - q] == scheme[j - q]);
        } else {
            let at = j - q - scheme.len();
            let n = scheme.len() as int;
            let whole = scheme + rest;
            assert(whole.len() == line.len() - q);
            assert forall|k: int| 0 <= k < n implies rest[at + k] == found[k] by {
                assert(whole[n + at + k] == rest[at + k]);
                assert(whole[n + at + k] == line[q + (n + at + k)]);
            }
            assert(rest.subrange(at, at + n) =~= found);
            assert(text::occurs_at(rest, scheme, at));
        }
    }
}

/// The URL of a directory with an absolute path: that of Windows, which begins
/// with a drive, or that of Unix, which begins with a slash.
pub open spec fn url_of(dir: Seq<char>) -> Seq<char> {
    if names_drive(dir) {
        "file:///"@ + dir
    } else {
        "file://"@ + dir
    }
}

/// The path of a line that ends with the URL of a directory: `rest` is what
/// follows `file:///` in it.
proof fn lemma_path_of_line(front: Seq<char>, rest: Seq<char>)
    requires
        rest.len() > 0,
        !separator()(rest.last()),
        !text::contains_text(rest + "/"@, "file:///"@),
    ensures
        path_of_line(front + ("file:///"@ + rest + "/"@)) == if names_drive(rest) {
            rest
        } else {
            "/"@ + rest
        },
{
    let scheme = "file:///"@;
    let tail = rest + "/"@;
    let line = front + (scheme + rest + "/"@);
    let q = front.len() as int;
    assert(line.skip(q) =~= scheme + tail);
    assert(text::occurs_at(line, scheme, q)) by {
        assert(line.subrange(q, q + scheme.len()) =~= scheme);
    }
    assert forall|j: int| q < j implies !text::occurs_at(line, scheme, j) by {
        reveal_strlit("file:///");
        lemma_no_later_occurrence(line, scheme, tail, q, j);
    }
    lemma_last_occurrence(line, scheme, q, line.len() as int);
    reveal_strlit("file:///");
    reveal_strlit("/");
    assert(line.skip(q + 8) =~= tail);
    assert(names_drive(tail) == names_drive(rest)) by {
        assert(tail[0] == rest[0]);
        if rest.len() >= 2 {
            assert(tail[1] == rest[1]);
        } else {
            assert(tail[1] == '/');
        }
    }
    if names_drive(rest) {
        text::lemma_tail_len(tail, separator(), 1);
        assert(tail.take(tail.len() - 1) =~= rest);
    } else {
        let path = "/"@ + rest + "/"@;
        assert(line.skip(q + 7) =~= path);
        assert(path[path.len() - 2] == rest.last());
        text::lemma_tail_len(path, separator(), 1);
        assert(path.take(path.len() - 1) =~= "/"@ + rest);
    }
}

/// What does not stand in a text does not stand in its rest either.
proof fn lemma_rest_contains(text: Seq<char>, needle: Seq<char>)
    requires
        text.len() > 0,
        !text::contains_text(text, needle),
    ensures
        !text::contains_text(text.skip(1), needle),
{
    if text::contains_text(text.skip(1), needle) {
        let i = choose|i: int| text::occurs_at(text.skip(1), needle, i);
        assert(text.subrange(i + 1, i + 1 + needle.len()) =~= text.skip(1).subrange(
            i,
            i + needle.len(),
        ));
        assert(text::occurs_at(text, needle, i + 1));
    }
}

/// The URL of a module in a cache entry, anywhere in the log, makes the entry one
/// of those that are found, on Windows and on Unix.
pub proof fn law_module_url_names_its_entry(
    before: Seq<char>,
    dir: Seq<char>,
    hash: Seq<char>,
    after: Seq<char>,
)
    requires
        encode_utf8(dir).len() >= 3,
        dir.len() > 1,
        names_drive(dir) || (dir[0] == '/' && !names_drive(dir.skip(1))),
        !separator()(dir.last()),
        forall|i: int| 0 <= i < dir.len() ==> within_line()(#[trigger] dir[i]),
        !text::contains_text(dir + "/"@, "file:///"@),
        hash.len() >= 8,
        forall|i: int| 0 <= i < hash.len() ==> hex_digit()(#[trigger] hash[i]),
    ensures
        entries_from(
            before + url_of(dir) + "/_npx/"@ + hash + "/node_modules/"@ + after,
            0,
        ).contains((dir, hash)),
{
    let text = before + url_of(dir) + "/_npx/"@ + hash + "/node_modules/"@ + after;
    let inner = if names_drive(dir) {
        dir
    } else {
        dir.skip(1)
    };
    let x = "file:///"@ + inner + "/"@;
    let rest = "/node_modules/"@ + after;
    let i = (before.len() + x.len()) as int;
    assert(url_of(dir) == "file:///"@ + inner) by {
        reveal_strlit("file:///");
        reveal_strlit("file://");
        assert(url_of(dir) =~= "file:///"@ + inner);
    }
    assert(!text::contains_text(inner + "/"@, "file:///"@)) by {
        if !names_drive(dir) {
            lemma_rest_contains(dir + "/"@, "file:///"@);
            assert((dir + "/"@).skip(1) =~= inner + "/"@);
        }
    }
    assert(text == (before + x) + "_npx/"@ + hash + rest && !hex_digit()(rest[0]) && rest.len() > 0)
        by {
        reveal_strlit("/_npx/");
        reveal_strlit("_npx/");
        reveal_strlit("/");
        reveal_strlit("/node_modules/");
        assert("/_npx/"@ =~= "/"@ + "_npx/"@);
        assert(text =~= (before + x) + "_npx/"@ + hash + rest);
    }
    lemma_hash_at(text, before + x, hash, rest);
    assert forall|k: int| 0 <= k < x.len() implies within_line()(#[trigger] x[k]) by {
        reveal_strlit("file:///");
        reveal_strlit("/");
        if 8 <= k < 8 + inner.len() {
            assert(x[k] == inner[k - 8]);
            assert(inner[k - 8] == dir[k - 8 + (dir.len() - inner.len())]);
        }
    }
    let q = lemma_line_before(text, before, x);
    lemma_path_of_line(before.skip(before.len() - q), inner);
    assert(path_of_line(line_before(text, i)) == dir) by {
        reveal_strlit("/");
        if !names_drive(dir) {
            assert("/"@ + inner =~= dir);
        }
    }
    lemma_entry_is_found(text, 0, i);
}


proof fn lemma_first_installed(
    entries: Seq<(Seq<char>, Seq<char>)>,
    installed: Seq<bool>,
    from: int,
    k: int,
)
    requires
        0 <= from <= k < entries.len(),
        k < installed.len(),
        installed[k],
        forall|j: int| from <= j < k ==> !(#[trigger] installed[j]),
    ensures
        first_installed(entries, installed, from) == Some(entries[k]),
    decreases k - from,
{
    if from < k {
        assert(!installed[from]);
        lemma_first_installed(entries, installed, from + 1, k);
    }
}

proof fn lemma_none_installed(
    entries: Seq<(Seq<char>, Seq<char>)>,
    installed: Seq<bool>,
    from: int,
)
    requires
        0 <= from,
        forall|j: int|
            from <= j < entries.len() && j < installed.len() ==> !(#[trigger] installed[j]),
    ensures
        first_installed(entries, installed, from) is None,
    decreases entries.len() - from,
{
    if from < entries.len() {
        lemma_none_installed(entries, installed, from + 1);
    }
}

/// The entry that is taken is the first one in which dsh is installed, however many
/// there are and whatever stands behind it.
pub proof fn law_first_installed_entry_is_taken(
    entries: Seq<(Seq<char>, Seq<char>)>,
    installed: Seq<bool>,
    k: int,
)
    requires
        0 <= k < entries.len(),
        k < installed.len(),
        installed[k],
        forall|j: int| 0 <= j < k ==> !(#[trigger] installed[j]),
    ensures
        first_installed(entries, installed, 0) == Some(entries[k]),
{
    lemma_first_installed(entries, installed, 0, k);
}

/// An entry is taken if and only if dsh is installed in one of them.
pub proof fn law_entry_is_taken_if_one_is_installed(
    entries: Seq<(Seq<char>, Seq<char>)>,
    installed: Seq<bool>,
)
    ensures
        first_installed(entries, installed, 0) is Some <==> exists|k: int|
            0 <= k < entries.len() && k < installed.len() && #[trigger] installed[k],
{
    if exists|k: int|
        0 <= k < entries.len() && k < installed.len() && #[trigger] installed[k] {
        let k = choose|k: int|
            0 <= k < entries.len() && k < installed.len() && #[trigger] installed[k];
        let least = lemma_least_installed(installed, k);
        lemma_first_installed(entries, installed, 0, least);
    } else {
        lemma_none_installed(entries, installed, 0);
    }
}

proof fn lemma_least_installed(installed: Seq<bool>, k: int) -> (least: int)
    requires
        0 <= k < installed.len(),
        installed[k],
    ensures
        0 <= least <= k,
        installed[least],
        forall|j: int| 0 <= j < least ==> !(#[trigger] installed[j]),
    decreases k,
{
    if exists|j: int| 0 <= j < k && #[trigger] installed[j] {
        let j = choose|j: int| 0 <= j < k && #[trigger] installed[j];
        lemma_least_installed(installed, j)
    } else {
        k
    }
}

/// An entry is removed if and only if one of its files is missing, kept if and only
/// if all are there, and else there is none.
pub proof fn law_only_broken_entries_are_removed(present: Seq<bool>)
    ensures
        cleanup_of(Some(present)) == EntryCleanup::Remove <==> exists|i: int|
            0 <= i < present.len() && !(#[trigger] present[i]),
        cleanup_of(Some(present)) == EntryCleanup::Keep <==> forall|i: int|
            0 <= i < present.len() ==> #[trigger] present[i],
        cleanup_of(None) == EntryCleanup::NotFound,
{
    if exists|i: int| 0 <= i < present.len() && !(#[trigger] present[i]) {
        let i = choose|i: int| 0 <= i < present.len() && !(#[trigger] present[i]);
        assert(present[i] == false);
        assert(present.contains(false));
    }
}

/// A log tells of broken modules wherever in it one of the two messages stands.
pub proof fn law_message_tells_of_broken_modules(before: Seq<char>, after: Seq<char>)
    ensures
        tells_of_broken_modules(before + "Cannot find package"@ + after),
        tells_of_broken_modules(before + "plugin tree failed to load"@ + after),
{
    text::lemma_contains_between(before, "Cannot find package"@, after);
    text::lemma_contains_between(before, "plugin tree failed to load"@, after);
}

/// A log without either message does not.
pub proof fn law_other_logs_tell_of_nothing(log: Seq<char>)
    requires
        forall|i: int| !(#[trigger] text::occurs_at(log, "Cannot find package"@, i)),
        forall|i: int| !(#[trigger] text::occurs_at(log, "plugin tree failed to load"@, i)),
    ensures
        !tells_of_broken_modules(log),
{
}

proof fn lemma_entry_index(text: Seq<char>, from: int, i: int) -> (k: int)
    requires
        0 <= from <= i < text.len(),
        entry_at(text, i) is Some,
    ensures
        0 <= k < entries_from(text, from).len(),
        entries_from(text, from)[k] == entry_at(text, i)->0,
        entries_from(text, from).skip(k + 1) == entries_from(text, i + 1),
    decreases i - from,
{
    let all = entries_from(text, from);
    if from == i {
        assert(all.skip(1) =~= entries_from(text, from + 1));
        0
    } else {
        let k = lemma_entry_index(text, from + 1, i);
        let rest = entries_from(text, from + 1);
        if entry_at(text, from) is Some {
            assert(all.skip(k + 2) =~= rest.skip(k + 1));
            assert(all[k + 1] == rest[k]);
            k + 1
        } else {
            k
        }
    }
}

/// The entries come in the order in which the log speaks of them.
pub proof fn law_entries_come_in_the_order_of_the_log(text: Seq<char>, i: int, j: int) -> (at: (
    int,
    int,
))
    requires
        0 <= i < j < text.len(),
        entry_at(text, i) is Some,
        entry_at(text, j) is Some,
    ensures
        0 <= at.0 < at.1 < entries_from(text, 0).len(),
        entries_from(text, 0)[at.0] == entry_at(text, i)->0,
        entries_from(text, 0)[at.1] == entry_at(text, j)->0,
{
    let k = lemma_entry_index(text, 0, i);
    let l = lemma_entry_index(text, i + 1, j);
    assert(entries_from(text, 0).skip(k + 1)[l] == entries_from(text, 0)[k + 1 + l]);
    (k, k + 1 + l)
}


proof fn lemma_last_occurrence_occurs(text: Seq<char>, needle: Seq<char>, i: int)
    ensures
        last_occurrence(text, needle, i) matches Some(at) ==> 0 <= at <= i && text::occurs_at(
            text,
            needle,
            at,
        ),
    decreases i + 1,
{
    if i >= 0 {
        lemma_last_occurrence_occurs(text, needle, i - 1);
    }
}

/// What an entry says stands in the log: the directory, then nothing but
/// separators, then `_npx`, then at most one separator, then the name, which goes
/// on as far as there are hexadecimal digits. The directory begins its line, or
/// follows `file:///` there, whose last slash it keeps unless it begins with a
/// drive.
pub proof fn law_entry_is_what_the_log_says(
    text: Seq<char>,
    i: int,
    dir: Seq<char>,
    hash: Seq<char>,
) -> (at: (int, int))
    requires
        entry_at(text, i) == Some((dir, hash)),
    ensures
        text::occurs_at(text, "_npx"@, i),
        text::occurs_at(text, dir, at.0),
        at.0 + dir.len() <= i,
        forall|j: int| at.0 + dir.len() <= j < i ==> separator()(#[trigger] text[j]),
        forall|j: int| at.0 <= j < i ==> within_line()(#[trigger] text[j]),
        dir.len() > 0 ==> !separator()(dir.last()),
        at.0 == 0 || !within_line()(text[at.0 - 1]) || text::occurs_at(
            text,
            "file:///"@,
            at.0 - 8,
        ) && names_drive(text.subrange(at.0, i)) || text::occurs_at(text, "file:///"@, at.0 - 7),
        at.1 == i + 4 || at.1 == i + 5 && separator()(text[i + 4]),
        text::occurs_at(text, hash, at.1),
        at.1 + hash.len() < text.len() ==> !hex_digit()(text[at.1 + hash.len()]),
        hash.len() >= 8,
        forall|j: int| 0 <= j < hash.len() ==> hex_digit()(#[trigger] hash[j]),
{
    reveal_strlit("_npx");
    reveal_strlit("file:///");
    let rest = text.skip(i + 4);
    let from = if rest.len() > 0 && separator()(rest[0]) {
        i + 5
    } else {
        i + 4
    };
    let behind = behind_marker(text, i);
    assert(behind =~= text.skip(from));
    text::lemma_run(behind, hex_digit());
    assert(text.subrange(from, from + hash.len()) =~= hash);
    if from + hash.len() < text.len() {
        assert(text[from + hash.len()] == behind[hash.len() as int]);
    }
    let head = text.take(i);
    let t = text::tail_len(head, within_line()) as int;
    text::lemma_tail(head, within_line());
    let start = i - t;
    let line = line_before(text, i);
    assert(line =~= text.subrange(start, i));
    lemma_last_occurrence_occurs(line, "file:///"@, line.len() as int);
    let found = last_occurrence(line, "file:///"@, line.len() as int);
    let cut = match found {
        Some(k) => if names_drive(line.skip(k + 8)) {
            k + 8
        } else {
            k + 7
        },
        None => 0,
    };
    let path = line.skip(cut);
    assert(found is None ==> path =~= line);
    text::lemma_tail(path, separator());
    let a = start + cut;
    assert(path =~= text.subrange(a, i));
    assert(text.subrange(a, a + dir.len()) =~= dir);
    assert forall|j: int| a + dir.len() <= j < i implies separator()(#[trigger] text[j]) by {
        assert(path[j - a] == text[j]);
    }
    assert forall|j: int| a <= j < i implies within_line()(#[trigger] text[j]) by {
        assert(head[j] == text[j]);
    }
    if dir.len() > 0 {
        assert(dir.last() == path[dir.len() - 1]);
    }
    if found is Some {
        let k = found->0;
        assert(text.subrange(start + k, start + k + 8) =~= line.subrange(k, k + 8));
        assert(text::occurs_at(text, "file:///"@, start + k));
    } else if start > 0 {
        assert(head[start - 1] == text[start - 1]);
    }
    (a, from)
}

proof fn lemma_hash_behind(
    text: Seq<char>,
    front: Seq<char>,
    between: Seq<char>,
    hash: Seq<char>,
    rest: Seq<char>,
)
    requires
        text == front + "_npx"@ + between + hash + rest,
        between.len() <= 1,
        between.len() == 1 ==> separator()(between[0]),
        hash.len() > 0,
        forall|i: int| 0 <= i < hash.len() ==> hex_digit()(#[trigger] hash[i]),
        rest.len() > 0 ==> !hex_digit()(rest[0]),
    ensures
        text::occurs_at(text, "_npx"@, front.len() as int),
        hash_at(text, front.len() as int) == hash,
{
    reveal_strlit("_npx");
    let i = front.len() as int;
    assert(text.subrange(i, i + 4) =~= "_npx"@);
    assert(hex_digit()(hash[0]));
    let behind = text.skip(i + 4);
    assert(behind =~= between + hash + rest);
    assert(behind[0] == if between.len() == 1 {
        between[0]
    } else {
        hash[0]
    });
    let follows = behind_marker(text, i);
    assert(follows =~= hash + rest);
    assert forall|k: int| 0 <= k < hash.len() implies hex_digit()(#[trigger] follows[k]) by {
        assert(follows[k] == hash[k]);
    }
    text::lemma_run_len(follows, hex_digit(), hash.len() as int);
    assert(hash_at(text, i) =~= hash);
}

/// A path that stands in a line of its own names its entry too, with whatever
/// separators it is written, at any place in the log.
pub proof fn law_plain_path_names_its_entry(
    before: Seq<char>,
    dir: Seq<char>,
    separators: Seq<char>,
    between: Seq<char>,
    hash: Seq<char>,
    after: Seq<char>,
)
    requires
        before.len() > 0 ==> !within_line()(before.last()),
        encode_utf8(dir).len() >= 3,
        dir.len() > 0,
        !separator()(dir.last()),
        forall|i: int| 0 <= i < dir.len() ==> within_line()(#[trigger] dir[i]),
        forall|i: int| 0 <= i < separators.len() ==> separator()(#[trigger] separators[i]),
        !text::contains_text(dir + separators, "file:///"@),
        between.len() <= 1,
        between.len() == 1 ==> separator()(between[0]),
        hash.len() >= 8,
        forall|i: int| 0 <= i < hash.len() ==> hex_digit()(#[trigger] hash[i]),
        after.len() > 0 ==> !hex_digit()(after[0]),
    ensures
        entries_from(before + dir + separators + "_npx"@ + between + hash + after, 0).contains(
            (dir, hash),
        ),
{
    let text = before + dir + separators + "_npx"@ + between + hash + after;
    let front = before + dir + separators;
    let x = dir + separators;
    let i = front.len() as int;
    lemma_hash_behind(text, front, between, hash, after);
    let head = text.take(i);
    assert(head =~= before + x);
    assert forall|k: int| head.len() - x.len() <= k < head.len() implies within_line()(
        #[trigger] head[k],
    ) by {
        let m = k - before.len();
        assert(head[k] == x[m]);
        if m < dir.len() {
            assert(x[m] == dir[m]);
        } else {
            assert(x[m] == separators[m - dir.len()]);
        }
    }
    if before.len() > 0 {
        assert(head[head.len() - x.len() - 1] == before.last());
    }
    text::lemma_tail_len(head, within_line(), x.len() as int);
    assert(line_before(text, i) =~= x);
    assert forall|j: int| !text::occurs_at(x, "file:///"@, j) by {}
    lemma_no_occurrence(x, "file:///"@, x.len() as int);
    assert forall|k: int| x.len() - separators.len() <= k < x.len() implies separator()(
        #[trigger] x[k],
    ) by {
        assert(x[k] == separators[k - dir.len()]);
    }
    assert(x[x.len() - separators.len() - 1] == dir.last());
    text::lemma_tail_len(x, separator(), separators.len() as int);
    assert(path_of_line(x) =~= dir);
    lemma_entry_is_found(text, 0, i);
}

/// The entry that is taken by what the log says and where dsh is installed is one of
/// those of which the log speaks.
pub proof fn law_taken_entry_stands_in_the_log(text: Seq<char>, installed: Seq<bool>)
    requires
        first_installed(entries_from(text, 0), installed, 0) is Some,
    ensures
        entries_from(text, 0).contains(first_installed(entries_from(text, 0), installed, 0)->0),
{
    let entries = entries_from(text, 0);
    law_entry_is_taken_if_one_is_installed(entries, installed);
    let k = choose|k: int|
        0 <= k < entries.len() && k < installed.len() && #[trigger] installed[k];
    let least = lemma_least_installed(installed, k);
    lemma_first_installed(entries, installed, 0, least);
    assert(entries[least] == first_installed(entries, installed, 0)->0);
}


/// Where an entry, its package of dsh and the files by which it is known to be whole
/// lie: in the directory from the log, below `_npx` and the name.
pub proof fn law_entries_and_their_packages_lie_below_the_directory(
    place: Location<String>,
    dir: Seq<char>,
    hash: Seq<char>,
    package: Seq<char>,
)
    requires
        is_entry(place, (dir, hash)),
    ensures
        place.root@ == dir,
        place.trail() == seq!["_npx"@, hash],
        package_trail(place.trail()) == seq![
            "_npx"@,
            hash,
            "node_modules"@,
            "@deepseek-ai"@,
            "dsh"@,
        ],
        manifest_trail(place.trail(), package) == seq![
            "_npx"@,
            hash,
            "node_modules"@,
            "@deepseek-ai"@,
            package,
            "package.json"@,
        ],
{
    assert(package_trail(place.trail()) =~= seq![
        "_npx"@,
        hash,
        "node_modules"@,
        "@deepseek-ai"@,
        "dsh"@,
    ]);
    assert(manifest_trail(place.trail(), package) =~= seq![
        "_npx"@,
        hash,
        "node_modules"@,
        "@deepseek-ai"@,
        package,
        "package.json"@,
    ]);
}

/// The packages by which an entry is known to be whole: the language models, the
/// timer and the web application.
pub proof fn law_key_packages(package: Seq<char>)
    ensures
        key_packages().contains(package) <==> package == "dsh-llm"@ || package
            == "cordis-plugin-timer"@ || package == "dsh-web-app"@,
{
    let all = key_packages();
    assert(all[0] == "dsh-llm"@ && all[1] == "cordis-plugin-timer"@ && all[2] == "dsh-web-app"@);
}


/// The characters that matter in a path of the log: sixteen digits in small and
/// capital letters, two separators, and two that end a line.
pub proof fn law_characters_of_a_path(c: char)
    ensures
        hex_digit()(c) <==> number::is_digit(c) || c == 'a' || c == 'b' || c == 'c' || c == 'd' || c
            == 'e' || c == 'f' || c == 'A' || c == 'B' || c == 'C' || c == 'D' || c == 'E' || c
            == 'F',
        separator()(c) <==> c == '/' || c == '\\',
        within_line()(c) <==> !(c == '\n' || c == '\r'),
{
}

/// A drive is a letter, small or capital, and a colon, whatever follows; nothing
/// else is one.
pub proof fn law_drives_are_letters(letter: char, second: char, rest: Seq<char>)
    ensures
        names_drive(seq![letter, second] + rest) <==> second == ':' && 'a'
            <= text::ascii_lower(letter) <= 'z',
        !names_drive(seq![letter]),
        !names_drive(Seq::empty()),
{
    let path = seq![letter, second] + rest;
    assert(path[0] == letter && path[1] == second);
}

}
