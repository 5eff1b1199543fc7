//! Environment variables: what a child process must not inherit, and what the
//! log tells of them after a failure.

use crate::place;
use crate::text;
use vstd::prelude::*;

verus! {

/// `name` begins with `prefix`, whatever the case of its letters.
pub open spec fn named(name: Seq<char>, prefix: Seq<char>) -> bool {
    prefix.is_prefix_of(text::ascii_lowercase(name))
}

/// The variable configures npm, and neither its proxy nor its registry.
pub open spec fn is_suspect(name: Seq<char>) -> bool {
    let lower = text::ascii_lowercase(name);
    named(name, "npm_config_"@) && !text::contains_text(lower, "proxy"@) && !text::contains_text(
        lower,
        "registry"@,
    )
}

/// Those of `names` that are suspect, in order.
pub open spec fn suspects(names: Seq<Seq<char>>) -> Seq<Seq<char>>
    decreases names.len(),
{
    if names.len() == 0 {
        seq![]
    } else if is_suspect(names.last()) {
        suspects(names.drop_last()).push(names.last())
    } else {
        suspects(names.drop_last())
    }
}

/// The variables that a child process must not have, if its environment holds
/// `names`.
pub open spec fn removals(names: Seq<Seq<char>>) -> Seq<Seq<char>> {
    seq!["NODE_OPTIONS"@, "NODE_PATH"@] + suspects(names)
}

/// The variable may tell something about a failure of Node.js or npm.
pub open spec fn is_interesting(name: Seq<char>) -> bool {
    let lower = text::ascii_lowercase(name);
    ||| named(name, "npm_config_"@)
    ||| named(name, "node_"@)
    ||| named(name, "electron"@)
    ||| named(name, "dsh_"@)
    ||| lower == "path"@
    ||| lower == "pnpm_home"@
    ||| lower == "nvm_symlink"@
}

/// What the log tells of the variable. The value of one that configures npm may
/// be a token and is left out.
pub open spec fn variable_line(name: Seq<char>, value: Seq<char>) -> Seq<char> {
    if named(name, "npm_config_"@) {
        "  "@ + name + "（值省略）"@
    } else {
        "  "@ + name + "="@ + value
    }
}

/// What the log tells of the variables, line by line.
pub open spec fn variable_lines(variables: Seq<(Seq<char>, Seq<char>)>) -> Seq<char>
    decreases variables.len(),
{
    if variables.len() == 0 {
        seq![]
    } else {
        let (name, value) = variables.last();
        let before = variable_lines(variables.drop_last());
        if is_interesting(name) {
            before + "\n"@ + variable_line(name, value)
        } else {
            before
        }
    }
}

/// The texts of names and values.
pub open spec fn pairs(variables: Seq<(String, String)>) -> Seq<(Seq<char>, Seq<char>)> {
    variables.map_values(|v: (String, String)| (v.0@, v.1@))
}

/// Whether the variable configures npm, and neither its proxy nor its registry.
fn suspect(name: &str) -> (found: bool)
    ensures
        found == is_suspect(name@),
{
    let lower = text::lower_chars(name);
    let prefix = text::chars_of("npm_config_");
    let proxy = text::chars_of("proxy");
    let registry = text::chars_of("registry");
    text::begins_with(&lower, &prefix) && !text::has(&lower, &proxy) && !text::has(
        &lower,
        &registry,
    )
}

/// The variables to remove for a child process whose environment would hold
/// `names`: those that disturb how Node.js and npm find modules. All others
/// stay.
pub fn sanitize_child_env(names: &Vec<String>) -> (removed: Vec<String>)
    ensures
        place::texts(removed@) == removals(place::texts(names@)),
{
    let mut removed: Vec<String> = Vec::new();
    removed.push("NODE_OPTIONS".to_owned());
    removed.push("NODE_PATH".to_owned());
    let ghost all = place::texts(names@);
    let mut i: usize = 0;
    assert(all.take(0) =~= seq![]);
    assert(place::texts(removed@) =~= removals(all.take(0)));
    while i < names.len()
        invariant
            i <= names.len(),
            all == place::texts(names@),
            place::texts(removed@) == removals(all.take(i as int)),
        decreases names.len() - i,
    {
        let ghost before = removed@;
        let name = names[i].as_str();
        assert(all.take(i + 1).drop_last() =~= all.take(i as int));
        assert(all.take(i + 1).last() == name@);
        if suspect(name) {
            removed.push(name.to_owned());
            assert(place::texts(removed@) =~= place::texts(before).push(name@));
            assert(removals(all.take(i + 1)) =~= removals(all.take(i as int)).push(name@));
        }
        i += 1;
    }
    assert(all.take(i as int) =~= all);
    removed
}

/// Whether `name`, in small letters, begins with `prefix`.
fn has_prefix(lower: &[char], prefix: &str) -> (found: bool)
    ensures
        found == prefix@.is_prefix_of(lower@),
{
    let prefix = text::chars_of(prefix);
    text::begins_with(lower, &prefix)
}

fn is(lower: &[char], name: &str) -> (same: bool)
    ensures
        same == (lower@ == name@),
{
    let name = text::chars_of(name);
    text::same_chars(lower, &name)
}

/// What the log tells of the environment after a failure: a line for each
/// variable that matters to Node.js and npm. `None` if there is no such variable.
pub fn dump_env_diagnostics(variables: &Vec<(String, String)>) -> (note: Option<String>)
    ensures
        match note {
            Some(note) => note@ == "dsh-desktop: 环境诊断："@ + variable_lines(
                pairs(variables@),
            ) && variable_lines(pairs(variables@)).len() > 0,
            None => variable_lines(pairs(variables@)).len() == 0,
        },
{
    let mut note = "dsh-desktop: 环境诊断：".to_owned();
    let mut any = false;
    let ghost all = pairs(variables@);
    let mut i: usize = 0;
    assert(all.take(0) =~= seq![]);
    assert(note@ =~= "dsh-desktop: 环境诊断："@ + variable_lines(all.take(0)));
    while i < variables.len()
        invariant
            i <= variables.len(),
            all == pairs(variables@),
            note@ == "dsh-desktop: 环境诊断："@ + variable_lines(all.take(i as int)),
            any == (variable_lines(all.take(i as int)).len() > 0),
        decreases variables.len() - i,
    {
        let name = variables[i].0.as_str();
        let value = variables[i].1.as_str();
        let lower = text::lower_chars(name);
        proof {
            assert(all.take(i + 1).drop_last() =~= all.take(i as int));
            assert(all.take(i + 1).last() == (name@, value@));
        }
        let npm = has_prefix(&lower, "npm_config_");
        if npm || has_prefix(&lower, "node_") || has_prefix(&lower, "electron") || has_prefix(
            &lower,
            "dsh_",
        ) || is(&lower, "path") || is(&lower, "pnpm_home") || is(&lower, "nvm_symlink") {
            let ghost before = note@;
            note.append("\n");
            note.append("  ");
            note.append(name);
            if npm {
                note.append("（值省略）");
            } else {
                note.append("=");
                note.append(value);
            }
            any = true;
            proof {
                reveal_strlit("\n");
                assert(note@ =~= before + ("\n"@ + variable_line(name@, value@)));
                assert(note@ =~= "dsh-desktop: 环境诊断："@ + variable_lines(all.take(i + 1)));
            }
        }
        i += 1;
    }
    assert(all.take(i as int) =~= all);
    if any {
        Some(note)
    } else {
        None
    }
}

proof fn lemma_suspects(names: Seq<Seq<char>>, name: Seq<char>)
    ensures
        suspects(names).contains(name) <==> names.contains(name) && is_suspect(name),
    decreases names.len(),
{
    if names.len() > 0 {
        let rest = names.drop_last();
        lemma_suspects(rest, name);
        assert(names =~= rest.push(names.last()));
        if names.contains(name) {
            let i = choose|i: int| 0 <= i < names.len() && names[i] == name;
            if i < rest.len() {
                assert(rest[i] == name);
            }
        }
        if rest.contains(name) {
            let i = choose|i: int| 0 <= i < rest.len() && rest[i] == name;
            assert(names[i] == name);
        }
        if is_suspect(names.last()) {
            let some = suspects(rest);
            let more = some.push(names.last());
            if more.contains(name) {
                let i = choose|i: int| 0 <= i < more.len() && more[i] == name;
                if i < some.len() {
                    assert(some[i] == name);
                }
            }
            if some.contains(name) {
                let i = choose|i: int| 0 <= i < some.len() && some[i] == name;
                assert(more[i] == name);
            }
            assert(more[some.len() as int] == names.last());
        }
    }
}

/// What is removed for a child process: `NODE_OPTIONS`, `NODE_PATH` and what
/// configures npm other than its proxy and registry. Everything else stays.
pub proof fn law_only_disturbing_variables_go(names: Seq<Seq<char>>, name: Seq<char>)
    ensures
        removals(names).contains(name) <==> name == "NODE_OPTIONS"@ || name == "NODE_PATH"@ || (
        names.contains(name) && is_suspect(name)),
{
    lemma_suspects(names, name);
    let fixed = seq!["NODE_OPTIONS"@, "NODE_PATH"@];
    let all = removals(names);
    if all.contains(name) {
        let i = choose|i: int| 0 <= i < all.len() && all[i] == name;
        if i >= 2 {
            assert(suspects(names)[i - 2] == name);
        }
    }
    assert(all[0] == "NODE_OPTIONS"@);
    assert(all[1] == "NODE_PATH"@);
    if suspects(names).contains(name) {
        let i = choose|i: int| 0 <= i < suspects(names).len() && suspects(names)[i] == name;
        assert(all[i + 2] == name);
    }
}

/// The log tells nothing of the values with which npm is configured: other
/// values give the same lines.
pub proof fn law_npm_values_stay_secret(
    one: Seq<(Seq<char>, Seq<char>)>,
    other: Seq<(Seq<char>, Seq<char>)>,
)
    requires
        one.len() == other.len(),
        forall|i: int|
            0 <= i < one.len() ==> (#[trigger] one[i]).0 == other[i].0 && (named(
                one[i].0,
                "npm_config_"@,
            ) || one[i].1 == other[i].1),
    ensures
        variable_lines(one) == variable_lines(other),
    decreases one.len(),
{
    if one.len() > 0 {
        let a = one.drop_last();
        let b = other.drop_last();
        assert forall|i: int| 0 <= i < a.len() implies (#[trigger] a[i]).0 == b[i].0 && (named(
            a[i].0,
            "npm_config_"@,
        ) || a[i].1 == b[i].1) by {
            assert(a[i] == one[i]);
            assert(b[i] == other[i]);
        }
        law_npm_values_stay_secret(a, b);
        assert(one[one.len() - 1] == one.last());
        assert(other[one.len() - 1] == other.last());
    }
}


/// Whether a variable disturbs npm does not depend on the case of its letters.
pub proof fn law_case_does_not_matter(name: Seq<char>)
    ensures
        is_suspect(name) == is_suspect(text::ascii_lowercase(name)),
        is_interesting(name) == is_interesting(text::ascii_lowercase(name)),
{
    text::law_small_letters_stay_small(name);
}

/// A setting of npm stays if it is about a proxy or the registry, wherever in the
/// name that is said.
pub proof fn law_proxy_and_registry_stay(name: Seq<char>, before: Seq<char>, after: Seq<char>)
    requires
        text::ascii_lowercase(name) == before + "proxy"@ + after || text::ascii_lowercase(name)
            == before + "registry"@ + after,
    ensures
        !is_suspect(name),
        forall|names: Seq<Seq<char>>|
            name != "NODE_OPTIONS"@ && name != "NODE_PATH"@ ==> !(#[trigger] removals(
                names,
            )).contains(name),
{
    text::lemma_contains_between(before, "proxy"@, after);
    text::lemma_contains_between(before, "registry"@, after);
    assert forall|names: Seq<Seq<char>>|
        name != "NODE_OPTIONS"@ && name != "NODE_PATH"@ implies !(#[trigger] removals(
        names,
    )).contains(name) by {
        law_only_disturbing_variables_go(names, name);
    }
}

/// Every other setting of npm is removed, and nothing that is none is, but for
/// `NODE_OPTIONS` and `NODE_PATH`.
pub proof fn law_other_npm_settings_go(names: Seq<Seq<char>>, name: Seq<char>)
    requires
        names.contains(name),
        name != "NODE_OPTIONS"@,
        name != "NODE_PATH"@,
        forall|i: int| !(#[trigger] text::occurs_at(text::ascii_lowercase(name), "proxy"@, i)),
        forall|i: int| !(#[trigger] text::occurs_at(text::ascii_lowercase(name), "registry"@, i)),
    ensures
        removals(names).contains(name) <==> text::ascii_lowercase(name).len() >= 11
            && text::ascii_lowercase(name).take(11) == "npm_config_"@,
{
    law_only_disturbing_variables_go(names, name);
    let lower = text::ascii_lowercase(name);
    reveal_strlit("npm_config_");
    if lower.len() >= 11 {
        assert(lower.take(11) =~= lower.subrange(0, 11));
    }
}

/// `NODE_OPTIONS` and `NODE_PATH` are always removed.
pub proof fn law_node_variables_always_go(names: Seq<Seq<char>>)
    ensures
        removals(names).contains("NODE_OPTIONS"@),
        removals(names).contains("NODE_PATH"@),
{
    law_only_disturbing_variables_go(names, "NODE_OPTIONS"@);
    law_only_disturbing_variables_go(names, "NODE_PATH"@);
}

/// What the log tells of some variables and then of others is what it tells of all.
pub proof fn law_variables_are_told_in_order(
    one: Seq<(Seq<char>, Seq<char>)>,
    other: Seq<(Seq<char>, Seq<char>)>,
)
    ensures
        variable_lines(one + other) == variable_lines(one) + variable_lines(other),
    decreases other.len(),
{
    if other.len() == 0 {
        assert(one + other =~= one);
        assert(variable_lines(one) + variable_lines(other) =~= variable_lines(one));
    } else {
        law_variables_are_told_in_order(one, other.drop_last());
        assert((one + other).drop_last() =~= one + other.drop_last());
        assert((one + other).last() == other.last());
        assert(variable_lines(one + other) =~= variable_lines(one) + variable_lines(other));
    }
}

/// A variable is told of if and only if it is about npm, Node.js, Electron or dsh,
/// or is a search path; then in a line of its own that holds its name, and its
/// value unless it configures npm.
pub proof fn law_variables_that_matter_are_told(name: Seq<char>, value: Seq<char>)
    ensures
        ({
            let lower = text::ascii_lowercase(name);
            let told = variable_lines(seq![(name, value)]);
            let npm = "npm_config_"@.is_prefix_of(lower);
            let matters = npm || "node_"@.is_prefix_of(lower) || "electron"@.is_prefix_of(lower)
                || "dsh_"@.is_prefix_of(lower) || lower == "path"@ || lower == "pnpm_home"@
                || lower == "nvm_symlink"@;
            &&& !matters ==> told.len() == 0
            &&& matters && npm ==> told == "\n"@ + "  "@ + name + "（值省略）"@
            &&& matters && !npm ==> told == "\n"@ + "  "@ + name + "="@ + value
        }),
{
    let one = seq![(name, value)];
    assert(one.drop_last() =~= Seq::<(Seq<char>, Seq<char>)>::empty());
    reveal_with_fuel(variable_lines, 2);
    let told = variable_lines(one);
    if named(name, "npm_config_"@) {
        assert(is_interesting(name) ==> told =~= "\n"@ + "  "@ + name + "（值省略）"@);
    } else {
        assert(is_interesting(name) ==> told =~= "\n"@ + "  "@ + name + "="@ + value);
    }
}

}
