//! `shell.exec`: one shell command in a directory under the sandbox root.
//!
//! Paths are held as text and are absolute; looking one up, running the
//! command and classifying a path as protected is left to the caller.

use vstd::prelude::*;
use crate::json::{
    items_view,
    law_a_member_is_found_by_its_name,
    members_view,
    Json,
    JsonView,
};
use crate::outcome::{
    is_random_uuid,
    AivyxError,
    ErrorView,
    OutcomeView,
    ToolId,
    ToolOutcome,
    Verification,
};
use crate::planner::{text_of, Tool};
use crate::text::{
    begins_with,
    chars_of,
    join,
    joined,
    law_no_separator_no_parting,
    law_nothing_to_replace,
    law_replacing_starts_at_the_first,
    law_separators_part,
    occurs,
    occurs_at,
    path_form,
    path_text,
    pieces,
    replace_all,
    replaced,
    same_text,
    split,
    starts_with,
    string_of,
    texts,
    white_space,
    Separator,
};
use crate::tools::command::{failure, tool_failed, tool_failed_with};
use crate::tools::schema::{field, field_schema, law_a_field_has_its_type, name_list};

verus! {

/// How long a command may take if the call does not say.
pub const DEFAULT_TIMEOUT_MS: u64 = 30_000;

/// How long a command may take at most.
pub const MAX_TIMEOUT_MS: u64 = 600_000;

// ---------------------------------------------------------------------------
// Paths
// ---------------------------------------------------------------------------

/// The names along a path: what stands between its slashes, without what is
/// empty or a single dot.
pub open spec fn kept_names(parts: Seq<Seq<char>>) -> Seq<Seq<char>>
    decreases parts.len(),
{
    if parts.len() == 0 {
        Seq::empty()
    } else {
        let before = kept_names(parts.drop_last());
        if parts.last().len() == 0 || parts.last() == "."@ {
            before
        } else {
            before.push(parts.last())
        }
    }
}

/// The names along a path.
pub open spec fn path_names(path: Seq<char>) -> Seq<Seq<char>> {
    kept_names(pieces(path, Separator::Slash))
}

/// The names along a path once each `..` has taken back the name before it;
/// none where that would leave `floor` names or fewer to take from.
pub open spec fn collapsed(names: Seq<Seq<char>>, floor: nat) -> Option<Seq<Seq<char>>>
    decreases names.len(),
{
    if names.len() == 0 {
        Some(Seq::empty())
    } else {
        match collapsed(names.drop_last(), floor) {
            None => None,
            Some(stack) => if names.last() == ".."@ {
                if stack.len() <= floor {
                    None
                } else {
                    Some(stack.drop_last())
                }
            } else {
                Some(stack.push(names.last()))
            },
        }
    }
}

/// Whether `s` starts with `prefix`.
pub open spec fn names_start_with(s: Seq<Seq<char>>, prefix: Seq<Seq<char>>) -> bool {
    &&& prefix.len() <= s.len()
    &&& s.take(prefix.len() as int) == prefix
}

/// `input` seen from `root`: an absolute path stands for itself.
pub open spec fn seen_from(root: Seq<char>, input: Seq<char>) -> Seq<char> {
    if begins_with(input, "/"@) {
        input
    } else {
        root + "/"@ + input
    }
}

/// The names along `input` as seen from `root`, where they stay under it.
pub open spec fn resolved_names(root: Seq<char>, input: Seq<char>) -> Option<Seq<Seq<char>>> {
    match collapsed(path_names(seen_from(root, input)), path_names(root).len()) {
        Some(stack) => if names_start_with(stack, path_names(root)) {
            Some(stack)
        } else {
            None
        },
        None => None,
    }
}

/// The absolute path with the given names.
pub open spec fn path_of(names: Seq<Seq<char>>) -> Seq<char> {
    "/"@ + joined(names, "/"@)
}

/// `input` as seen from `root`, where it stays under it.
pub open spec fn resolved(root: Seq<char>, input: Seq<char>) -> Option<Seq<char>> {
    match resolved_names(root, input) {
        Some(names) => Some(path_of(names)),
        None => None,
    }
}

fn names_of(path: &str) -> (r: Vec<String>)
    ensures
        texts(r@) == path_names(path@),
{
    let parts: Vec<String> = split(path, Separator::Slash);
    let ghost all = pieces(path@, Separator::Slash);
    let mut out: Vec<String> = Vec::new();
    assert(texts(out@) =~= kept_names(all.take(0)));
    let mut i: usize = 0;
    while i < parts.len()
        invariant
            i <= parts@.len(),
            texts(parts@) == all,
            texts(out@) == kept_names(all.take(i as int)),
        decreases parts@.len() - i,
    {
        assert(all.take(i + 1).drop_last() =~= all.take(i as int));
        assert(all.take(i + 1).last() == parts@[i as int]@);
        let part: &String = &parts[i];
        if !part.as_str().is_empty() && !same_text(part.as_str(), ".") {
            let ghost before = out@;
            out.push(part.clone());
            assert(texts(out@) =~= texts(before).push(part@));
        }
        i = i + 1;
    }
    assert(all.take(i as int) =~= all);
    out
}

fn starts_with_names(names: &Vec<String>, prefix: &Vec<String>) -> (r: bool)
    ensures
        r == names_start_with(texts(names@), texts(prefix@)),
{
    let ghost n = texts(names@);
    let ghost p = texts(prefix@);
    if prefix.len() > names.len() {
        return false;
    }
    let mut i: usize = 0;
    while i < prefix.len()
        invariant
            i <= prefix@.len() <= names@.len(),
            n == texts(names@),
            p == texts(prefix@),
            forall|j: int| 0 <= j < i ==> n[j] == p[j],
        decreases prefix@.len() - i,
    {
        if !same_text(names[i].as_str(), prefix[i].as_str()) {
            assert(n.take(p.len() as int)[i as int] != p[i as int]);
            return false;
        }
        i = i + 1;
    }
    assert(n.take(p.len() as int) =~= p);
    true
}

/// Resolves `input` against `root` by the text of the paths alone. There is
/// no result where that leads out of `root`.
pub fn lexical_resolve(root: &str, input: &str) -> (r: Option<String>)
    ensures
        text_of(r) == resolved(root@, input@),
{
    let full: String = if starts_with(input, "/") {
        input.to_owned()
    } else {
        let mut path: String = root.to_owned();
        path.push_str("/");
        path.push_str(input);
        path
    };
    assert(full@ =~= seen_from(root@, input@));
    let root_names: Vec<String> = names_of(root);
    let names: Vec<String> = names_of(full.as_str());
    let ghost all = path_names(full@);
    let ghost floor = path_names(root@).len();
    let mut stack: Vec<String> = Vec::new();
    assert(texts(stack@) =~= Seq::empty());
    let mut i: usize = 0;
    while i < names.len()
        invariant
            i <= names@.len(),
            texts(names@) == all,
            texts(root_names@) == path_names(root@),
            floor == path_names(root@).len(),
            full@ == seen_from(root@, input@),
            all == path_names(full@),
            collapsed(all.take(i as int), floor) == Some(texts(stack@)),
        decreases names@.len() - i,
    {
        assert(all.take(i + 1).drop_last() =~= all.take(i as int));
        assert(all.take(i + 1).last() == names@[i as int]@);
        assert(texts(root_names@).len() == root_names@.len());
        let ghost before = stack@;
        if same_text(names[i].as_str(), "..") {
            if stack.len() <= root_names.len() {
                proof {
                    lemma_collapse_fails(all, floor, i + 1);
                }
                return None;
            }
            stack.pop();
            assert(texts(stack@) =~= texts(before).drop_last());
        } else {
            stack.push(names[i].clone());
            assert(texts(stack@) =~= texts(before).push(names@[i as int]@));
        }
        i = i + 1;
    }
    assert(all.take(i as int) =~= all);
    if !starts_with_names(&stack, &root_names) {
        return None;
    }
    let rest: String = join(&stack, "/");
    let mut path: String = "/".to_owned();
    path.push_str(rest.as_str());
    Some(path)
}

proof fn lemma_collapse_fails(names: Seq<Seq<char>>, floor: nat, i: int)
    requires
        0 <= i <= names.len(),
        collapsed(names.take(i), floor) is None,
    ensures
        collapsed(names, floor) is None,
    decreases names.len() - i,
{
    if i < names.len() {
        assert(names.take(i + 1).drop_last() =~= names.take(i));
        lemma_collapse_fails(names, floor, i + 1);
    } else {
        assert(names.take(i) =~= names);
    }
}

proof fn lemma_collapsed_has_no_dots(names: Seq<Seq<char>>, floor: nat)
    ensures
        collapsed(names, floor) matches Some(stack) ==> forall|i: int|
            0 <= i < stack.len() ==> #[trigger] stack[i] != ".."@,
    decreases names.len(),
{
    if names.len() > 0 {
        lemma_collapsed_has_no_dots(names.drop_last(), floor);
    }
}

/// A path that is resolved lies under the root: the root's names come first,
/// and nothing in it leads back.
pub proof fn law_resolved_path_stays_under_the_root(root: Seq<char>, input: Seq<char>)
    ensures
        resolved_names(root, input) matches Some(names) ==> {
            &&& names_start_with(names, path_names(root))
            &&& forall|i: int| 0 <= i < names.len() ==> #[trigger] names[i] != ".."@
        },
{
    lemma_collapsed_has_no_dots(path_names(seen_from(root, input)), path_names(root).len());
}

// ---------------------------------------------------------------------------
// The input
// ---------------------------------------------------------------------------

/// The command, if it is not empty.
pub open spec fn command_of(input: JsonView) -> Option<Seq<char>> {
    match input.get_str("cmd"@) {
        Some(c) => if c.len() == 0 {
            None
        } else {
            Some(c)
        },
        None => None,
    }
}

/// The directory that a call asks for.
pub open spec fn cwd_of(input: JsonView) -> Option<Seq<char>> {
    match input.get("args"@) {
        Some(a) => a.get_str("cwd"@),
        None => None,
    }
}

/// The time limit of a call: what it asks for, within bounds.
pub open spec fn timeout_of(input: JsonView) -> u64 {
    let asked = match input.get("args"@) {
        Some(a) => a.get_u64("timeout_ms"@),
        None => None,
    };
    let ms = match asked {
        Some(n) => n,
        None => DEFAULT_TIMEOUT_MS,
    };
    if ms < 1 {
        1
    } else if ms > MAX_TIMEOUT_MS {
        MAX_TIMEOUT_MS
    } else {
        ms
    }
}

/// The members that are strings, in order.
pub open spec fn string_entries(m: Seq<(Seq<char>, JsonView)>) -> Seq<(Seq<char>, Seq<char>)>
    decreases m.len(),
{
    if m.len() == 0 {
        Seq::empty()
    } else {
        let before = string_entries(m.drop_last());
        match m.last().1.str() {
            Some(s) => before.push((m.last().0, s)),
            None => before,
        }
    }
}

/// The variables that a call declares.
pub open spec fn env_of(input: JsonView) -> Seq<(Seq<char>, Seq<char>)> {
    match input.get("args"@) {
        Some(a) => match a.get("env"@) {
            Some(JsonView::Object(m)) => string_entries(m),
            _ => Seq::empty(),
        },
        None => Seq::empty(),
    }
}

/// Variables by their texts.
pub open spec fn pairs(v: Seq<(String, String)>) -> Seq<(Seq<char>, Seq<char>)> {
    v.map_values(|p: (String, String)| (p.0@, p.1@))
}

/// The directory that a call asks for.
pub fn input_cwd(input: &Json) -> (r: Option<&String>)
    ensures
        crate::json::opt_text(r) == cwd_of(input@),
{
    match input.get("args") {
        Some(a) => a.get_str("cwd"),
        None => None,
    }
}

/// The time limit of a call.
pub fn input_timeout_ms(input: &Json) -> (r: u64)
    ensures
        r == timeout_of(input@),
        1 <= r <= MAX_TIMEOUT_MS,
{
    let asked: Option<u64> = match input.get("args") {
        Some(a) => a.get_u64("timeout_ms"),
        None => None,
    };
    let ms: u64 = match asked {
        Some(n) => n,
        None => DEFAULT_TIMEOUT_MS,
    };
    if ms < 1 {
        1
    } else if ms > MAX_TIMEOUT_MS {
        MAX_TIMEOUT_MS
    } else {
        ms
    }
}

/// The variables that a call declares. What is not a string is passed over.
pub fn input_env(input: &Json) -> (r: Vec<(String, String)>)
    ensures
        pairs(r@) == env_of(input@),
{
    let mut out: Vec<(String, String)> = Vec::new();
    assert(pairs(out@) =~= Seq::empty());
    match input.get("args") {
        Some(a) => match a.get("env") {
            Some(env) => match env {
                Json::Object(m) => {
                    let ghost all = members_view(m@);
                    proof {
                        crate::json::lemma_members_view(m@);
                    }
                    let mut i: usize = 0;
                    while i < m.len()
                        invariant
                            i <= m@.len(),
                            all.len() == m@.len(),
                            forall|j: int|
                                0 <= j < m@.len() ==> #[trigger] all[j] == (m@[j].0@, m@[j].1@),
                            pairs(out@) == string_entries(all.take(i as int)),
                        decreases m@.len() - i,
                    {
                        assert(all.take(i + 1).drop_last() =~= all.take(i as int));
                        assert(all.take(i + 1).last() == all[i as int]);
                        match m[i].1.as_str() {
                            Some(s) => {
                                let ghost before = out@;
                                out.push((m[i].0.clone(), s.clone()));
                                assert(pairs(out@) =~= pairs(before).push((m@[i as int].0@, s@)));
                            },
                            None => {},
                        }
                        i = i + 1;
                    }
                    assert(all.take(i as int) =~= all);
                },
                _ => {},
            },
            None => {},
        },
        None => {},
    }
    out
}

// ---------------------------------------------------------------------------
// Protected locations
// ---------------------------------------------------------------------------

/// A word of a command with the home directory written out.
pub open spec fn with_home(word: Seq<char>, home: Option<Seq<char>>) -> Seq<char> {
    match home {
        None => word,
        Some(h) => {
            let expanded = if begins_with(word, "~/"@) {
                h + "/"@ + word.skip(2)
            } else if word == "~"@ {
                h
            } else {
                word
            };
            replaced(replaced(expanded, "${HOME}"@, h), "$HOME"@, h)
        },
    }
}

/// The pieces of a command that are not empty.
pub open spec fn nonempty(parts: Seq<Seq<char>>) -> Seq<Seq<char>>
    decreases parts.len(),
{
    if parts.len() == 0 {
        Seq::empty()
    } else if parts.last().len() == 0 {
        nonempty(parts.drop_last())
    } else {
        nonempty(parts.drop_last()).push(parts.last())
    }
}

/// The words of a command.
pub open spec fn command_words(cmd: Seq<char>) -> Seq<Seq<char>> {
    nonempty(pieces(cmd, Separator::ShellWord))
}

/// The paths that the words of a command may stand for.
pub open spec fn command_paths(cmd: Seq<char>, home: Option<Seq<char>>) -> Seq<Seq<char>> {
    command_words(cmd).map_values(|w: Seq<char>| with_home(w, home))
}

/// The words of a command.
pub fn words_of(cmd: &str) -> (r: Vec<String>)
    ensures
        texts(r@) == command_words(cmd@),
{
    let parts: Vec<String> = split(cmd, Separator::ShellWord);
    let ghost all = pieces(cmd@, Separator::ShellWord);
    let mut out: Vec<String> = Vec::new();
    assert(texts(out@) =~= nonempty(all.take(0)));
    let mut i: usize = 0;
    while i < parts.len()
        invariant
            i <= parts@.len(),
            texts(parts@) == all,
            texts(out@) == nonempty(all.take(i as int)),
        decreases parts@.len() - i,
    {
        assert(all.take(i + 1).drop_last() =~= all.take(i as int));
        assert(all.take(i + 1).last() == parts@[i as int]@);
        if !parts[i].as_str().is_empty() {
            let ghost before = out@;
            out.push(parts[i].clone());
            assert(texts(out@) =~= texts(before).push(parts@[i as int]@));
        }
        i = i + 1;
    }
    assert(all.take(i as int) =~= all);
    out
}

fn expand_home(word: &str, home: &Option<String>) -> (r: String)
    ensures
        r@ == with_home(word@, text_of(*home)),
{
    match home {
        None => word.to_owned(),
        Some(h) => {
            proof {
                reveal_strlit("${HOME}");
                reveal_strlit("$HOME");
                reveal_strlit("~/");
            }
            let v: Vec<char> = chars_of(word);
            let expanded: String = if starts_with(word, "~/") {
                let mut path: String = h.clone();
                path.push_str("/");
                let rest: String = string_of(&v, 2, v.len());
                path.push_str(rest.as_str());
                assert(rest@ =~= word@.skip(2));
                path
            } else if same_text(word, "~") {
                h.clone()
            } else {
                word.to_owned()
            };
            let braced: String = replace_all(expanded.as_str(), "${HOME}", h.as_str());
            replace_all(braced.as_str(), "$HOME", h.as_str())
        },
    }
}

/// The paths that the words of a command may stand for, in the order of the
/// words.
pub fn candidate_paths(cmd: &str, home: &Option<String>) -> (r: Vec<String>)
    ensures
        texts(r@) == command_paths(cmd@, text_of(*home)),
{
    let words: Vec<String> = words_of(cmd);
    let ghost all = command_paths(cmd@, text_of(*home));
    let mut out: Vec<String> = Vec::new();
    assert(texts(out@) =~= all.take(0));
    let mut i: usize = 0;
    while i < words.len()
        invariant
            i <= words@.len(),
            texts(words@) == command_words(cmd@),
            all == command_paths(cmd@, text_of(*home)),
            texts(out@) == all.take(i as int),
        decreases words@.len() - i,
    {
        assert(texts(words@)[i as int] == words@[i as int]@);
        let path: String = expand_home(words[i].as_str(), home);
        let ghost before = out@;
        out.push(path);
        assert(texts(out@) =~= texts(before).push(path@));
        assert(all.take(i + 1) =~= all.take(i as int).push(all[i as int]));
        i = i + 1;
    }
    assert(all.take(i as int) =~= all);
    out
}

/// Whether the word at `i` is the first that stands for a protected location,
/// given for each word why it does, if it does.
pub open spec fn first_protected(verdicts: Seq<Option<String>>, i: int) -> bool {
    &&& 0 <= i < verdicts.len()
    &&& verdicts[i] is Some
    &&& forall|j: int| 0 <= j < i ==> (#[trigger] verdicts[j]) is None
}

/// Whether a word stands for a protected location.
pub open spec fn names_protected(verdicts: Seq<Option<String>>) -> bool {
    exists|i: int| 0 <= i < verdicts.len() && (#[trigger] verdicts[i]) is Some
}

/// The first word of a command that stands for a protected location, and why
/// it does. `verdicts` says for each of [`candidate_paths`] why it is
/// protected, if it is.
pub fn sensitive_command_hit(cmd: &str, verdicts: &Vec<Option<String>>) -> (r: Option<
    (String, String),
>)
    requires
        verdicts@.len() == command_words(cmd@).len(),
    ensures
        match r {
            Some((word, reason)) => exists|i: int| #[trigger]
                first_protected(verdicts@, i) && word@ == command_words(cmd@)[i] && reason@
                    == verdicts@[i]->0@,
            None => forall|i: int| 0 <= i < verdicts@.len() ==> (#[trigger] verdicts@[i]) is None,
        },
{
    let words: Vec<String> = words_of(cmd);
    assert(texts(words@).len() == words@.len());
    let mut i: usize = 0;
    while i < verdicts.len()
        invariant
            i <= verdicts@.len(),
            texts(words@) == command_words(cmd@),
            words@.len() == verdicts@.len(),
            forall|j: int| 0 <= j < i ==> (#[trigger] verdicts@[j]) is None,
        decreases verdicts@.len() - i,
    {
        match &verdicts[i] {
            Some(reason) => {
                assert(first_protected(verdicts@, i as int));
                assert(texts(words@)[i as int] == words@[i as int]@);
                return Some((words[i].clone(), reason.clone()));
            },
            None => {},
        }
        i = i + 1;
    }
    None
}

// ---------------------------------------------------------------------------
// The environment
// ---------------------------------------------------------------------------

/// The variables of the process that a command gets to see.
pub open spec fn safe_names() -> Seq<Seq<char>> {
    seq!["PATH"@, "HOME"@, "USER"@, "LANG"@, "TERM"@]
}

/// The value of the first variable called `name`.
pub open spec fn value_of(env: Seq<(Seq<char>, Seq<char>)>, name: Seq<char>) -> Option<Seq<char>>
    decreases env.len(),
{
    if env.len() == 0 {
        None
    } else if env[0].0 == name {
        Some(env[0].1)
    } else {
        value_of(env.drop_first(), name)
    }
}

/// The variables of `names` that `env` has.
pub open spec fn picked(env: Seq<(Seq<char>, Seq<char>)>, names: Seq<Seq<char>>) -> Seq<
    (Seq<char>, Seq<char>),
>
    decreases names.len(),
{
    if names.len() == 0 {
        Seq::empty()
    } else {
        let before = picked(env, names.drop_last());
        match value_of(env, names.last()) {
            Some(v) => before.push((names.last(), v)),
            None => before,
        }
    }
}

/// What is set for a command, in this order: the safe ones of the process's
/// variables, then those that the call declares.
pub open spec fn child_variables(
    process: Seq<(Seq<char>, Seq<char>)>,
    declared: Seq<(Seq<char>, Seq<char>)>,
) -> Seq<(Seq<char>, Seq<char>)> {
    picked(process, safe_names()) + declared
}

fn find_value(env: &Vec<(String, String)>, name: &str) -> (r: Option<String>)
    ensures
        text_of(r) == value_of(pairs(env@), name@),
{
    let ghost all = pairs(env@);
    assert(all.skip(0) =~= all);
    let mut i: usize = 0;
    while i < env.len()
        invariant
            i <= env@.len(),
            all == pairs(env@),
            value_of(all, name@) == value_of(all.skip(i as int), name@),
        decreases env@.len() - i,
    {
        assert(all.skip(i as int)[0] == all[i as int]);
        assert(all.skip(i as int).drop_first() =~= all.skip(i + 1));
        if same_text(env[i].0.as_str(), name) {
            return Some(env[i].1.clone());
        }
        i = i + 1;
    }
    None
}

fn pick(out: &mut Vec<(String, String)>, env: &Vec<(String, String)>, name: &str)
    ensures
        pairs(final(out)@) == match value_of(pairs(env@), name@) {
            Some(v) => pairs(old(out)@).push((name@, v)),
            None => pairs(old(out)@),
        },
{
    match find_value(env, name) {
        Some(v) => {
            let ghost value = v@;
            out.push((name.to_owned(), v));
            assert(pairs(out@) =~= pairs(old(out)@).push((name@, value)));
        },
        None => {},
    }
}

/// What is set for a command, given the process's variables and those that
/// the call declares. Where a name occurs twice, the later one counts.
pub fn child_env(process: &Vec<(String, String)>, declared: &Vec<(String, String)>) -> (r: Vec<
    (String, String),
>)
    ensures
        pairs(r@) == child_variables(pairs(process@), pairs(declared@)),
{
    let ghost p = pairs(process@);
    let ghost names = safe_names();
    let mut out: Vec<(String, String)> = Vec::new();
    assert(pairs(out@) =~= picked(p, names.take(0)));
    pick(&mut out, process, "PATH");
    assert(names.take(1).drop_last() =~= names.take(0));
    assert(pairs(out@) =~= picked(p, names.take(1)));
    pick(&mut out, process, "HOME");
    assert(names.take(2).drop_last() =~= names.take(1));
    assert(pairs(out@) =~= picked(p, names.take(2)));
    pick(&mut out, process, "USER");
    assert(names.take(3).drop_last() =~= names.take(2));
    assert(pairs(out@) =~= picked(p, names.take(3)));
    pick(&mut out, process, "LANG");
    assert(names.take(4).drop_last() =~= names.take(3));
    assert(pairs(out@) =~= picked(p, names.take(4)));
    pick(&mut out, process, "TERM");
    assert(names.take(5).drop_last() =~= names.take(4));
    assert(names.take(5) =~= names);
    assert(pairs(out@) =~= picked(p, names));
    let ghost head = pairs(out@);
    let ghost d = pairs(declared@);
    assert(head + d.take(0) =~= head);
    let mut i: usize = 0;
    while i < declared.len()
        invariant
            i <= declared@.len(),
            d == pairs(declared@),
            pairs(out@) == head + d.take(i as int),
        decreases declared@.len() - i,
    {
        let ghost before = out@;
        out.push((declared[i].0.clone(), declared[i].1.clone()));
        assert(pairs(out@) =~= pairs(before).push(d[i as int]));
        assert(head + d.take(i + 1) =~= (head + d.take(i as int)).push(d[i as int]));
        i = i + 1;
    }
    assert(d.take(i as int) =~= d);
    out
}

proof fn lemma_picked(env: Seq<(Seq<char>, Seq<char>)>, names: Seq<Seq<char>>)
    ensures
        forall|i: int|
            0 <= i < picked(env, names).len() ==> names.contains(
                (#[trigger] picked(env, names)[i]).0,
            ),
    decreases names.len(),
{
    if names.len() > 0 {
        let rest = names.drop_last();
        lemma_picked(env, rest);
        assert forall|i: int| 0 <= i < picked(env, names).len() implies names.contains(
            (#[trigger] picked(env, names)[i]).0,
        ) by {
            if i < picked(env, rest).len() {
                assert(picked(env, names)[i] == picked(env, rest)[i]);
                let k = choose|k: int| 0 <= k < rest.len() && rest[k] == picked(env, rest)[i].0;
                assert(names[k] == rest[k]);
            } else {
                assert(names[names.len() - 1] == names.last());
            }
        }
    }
}

/// Nothing of the process's environment reaches a command but the safe
/// variables: whatever else it gets, the call has declared.
pub proof fn law_environment_is_isolated(
    process: Seq<(Seq<char>, Seq<char>)>,
    declared: Seq<(Seq<char>, Seq<char>)>,
    i: int,
)
    requires
        0 <= i < child_variables(process, declared).len(),
    ensures
        safe_names().contains(child_variables(process, declared)[i].0) || declared.contains(
            child_variables(process, declared)[i],
        ),
{
    lemma_picked(process, safe_names());
    let head = picked(process, safe_names());
    if i >= head.len() {
        assert(declared[i - head.len()] == child_variables(process, declared)[i]);
    }
}

// ---------------------------------------------------------------------------
// The tool
// ---------------------------------------------------------------------------

/// The scope that no role holds.
pub const SHELL_DENY_SCOPE: &'static str = "shell.exec:cwd:/aivyx/__deny__/invalid-input";

/// The scope that no role holds.
pub fn deny_scope() -> (r: String)
    ensures
        r@ == SHELL_DENY_SCOPE@,
{
    SHELL_DENY_SCOPE.to_owned()
}

/// What the file system says about the configured root.
#[derive(Debug, PartialEq, Eq)]
pub enum RootProbe {
    /// It cannot be resolved, for the reason given.
    Unresolved(String),
    /// Its canonical form, and whether that is a directory.
    Resolved { canonical: String, is_dir: bool },
}

/// What `shell.exec` is made from.
#[derive(Debug)]
pub struct ShellExecToolConfig {
    cwd_root: String,
}

impl View for ShellExecToolConfig {
    type V = Seq<char>;

    closed spec fn view(&self) -> Seq<char> {
        self.cwd_root@
    }
}

/// Runs shell commands under a directory.
#[derive(Debug)]
pub struct ShellExecTool {
    id: ToolId,
    cwd_root: String,
    sensitive: bool,
    require_enforcement: bool,
}

/// What a [`ShellExecTool`] stands for.
pub ghost struct ShellToolView {
    pub id: ToolId,
    pub cwd_root: Seq<char>,
    pub sensitive: bool,
    pub require_enforcement: bool,
}

impl View for ShellExecTool {
    type V = ShellToolView;

    closed spec fn view(&self) -> ShellToolView {
        ShellToolView {
            id: self.id,
            cwd_root: self.cwd_root@,
            sensitive: self.sensitive,
            require_enforcement: self.require_enforcement,
        }
    }
}

impl ShellExecToolConfig {
    /// The directory under which commands may run.
    pub fn new(cwd_root: String) -> (r: ShellExecToolConfig)
        ensures
            r@ == cwd_root@,
    {
        ShellExecToolConfig { cwd_root }
    }

    /// The tool, given what the file system says about the directory. It runs
    /// confined and has no guard against protected locations.
    pub fn build(self, probe: &RootProbe) -> (r: Result<ShellExecTool, AivyxError>)
        ensures
            match *probe {
                RootProbe::Unresolved(reason) => r matches Err(e) && e@ == ErrorView::Config(
                    "shell.exec cwd_root "@ + path_form(self@) + " cannot be canonicalized: "@
                        + reason@,
                ),
                RootProbe::Resolved { canonical, is_dir } => if is_dir {
                    r matches Ok(tool) && is_random_uuid(tool@.id.0) && tool@.cwd_root
                        == canonical@ && !tool@.sensitive && tool@.require_enforcement
                } else {
                    r matches Err(e) && e@ == ErrorView::Config(
                        "shell.exec cwd_root "@ + path_form(canonical@)
                            + " is not a directory"@,
                    )
                },
            },
    {
        match probe {
            RootProbe::Unresolved(reason) => {
                let mut msg: String = "shell.exec cwd_root ".to_owned();
                let form: String = path_text(self.cwd_root.as_str());
                msg.push_str(form.as_str());
                msg.push_str(" cannot be canonicalized: ");
                msg.push_str(reason.as_str());
                Err(AivyxError::Config(msg))
            },
            RootProbe::Resolved { canonical, is_dir } => {
                if !*is_dir {
                    let mut msg: String = "shell.exec cwd_root ".to_owned();
                    let form: String = path_text(canonical.as_str());
                    msg.push_str(form.as_str());
                    msg.push_str(" is not a directory");
                    return Err(AivyxError::Config(msg));
                }
                Ok(
                    ShellExecTool {
                        id: ToolId::new(),
                        cwd_root: canonical.clone(),
                        sensitive: false,
                        require_enforcement: true,
                    },
                )
            },
        }
    }
}

/// A command that has passed the checks on its input.
#[derive(Debug, PartialEq, Eq)]
pub struct ShellRequest {
    pub cmd: String,
    pub timeout_ms: u64,
    /// The directory that was asked for, by the text of its path.
    pub lexical_cwd: String,
    pub env: Vec<(String, String)>,
}

/// A command that is ready to run.
#[derive(Debug, PartialEq, Eq)]
pub struct ShellRun {
    pub cmd: String,
    pub timeout_ms: u64,
    /// The canonical form of the directory.
    pub cwd: String,
    pub env: Vec<(String, String)>,
}

/// What a [`ShellRequest`] or a [`ShellRun`] stands for.
pub ghost struct ShellCallView {
    pub cmd: Seq<char>,
    pub timeout_ms: u64,
    pub cwd: Seq<char>,
    pub env: Seq<(Seq<char>, Seq<char>)>,
}

impl View for ShellRequest {
    type V = ShellCallView;

    open spec fn view(&self) -> ShellCallView {
        ShellCallView {
            cmd: self.cmd@,
            timeout_ms: self.timeout_ms,
            cwd: self.lexical_cwd@,
            env: pairs(self.env@),
        }
    }
}

impl View for ShellRun {
    type V = ShellCallView;

    open spec fn view(&self) -> ShellCallView {
        ShellCallView {
            cmd: self.cmd@,
            timeout_ms: self.timeout_ms,
            cwd: self.cwd@,
            env: pairs(self.env@),
        }
    }
}

/// What became of a command.
#[derive(Debug, PartialEq, Eq)]
pub enum ShellResult {
    SpawnFailed(String),
    WaitFailed(String),
    TimedOut,
    Exited { code: Option<i32>, stdout: String, stderr: String },
}

/// The directory that a call asks for: the root, unless it names another.
pub open spec fn requested_cwd(root: Seq<char>, input: JsonView) -> Seq<char> {
    match cwd_of(input) {
        Some(c) => c,
        None => root,
    }
}

/// The call that an input asks for, where its directory is `cwd`.
pub open spec fn call_asked_for(input: JsonView, cwd: Seq<char>) -> ShellCallView {
    ShellCallView {
        cmd: command_of(input)->0,
        timeout_ms: timeout_of(input),
        cwd,
        env: env_of(input),
    }
}

/// The scope that a call with this input needs.
pub open spec fn shell_scope(root: Seq<char>, input: JsonView, legal: bool) -> Seq<char> {
    if command_of(input) is None {
        SHELL_DENY_SCOPE@
    } else {
        match resolved(root, requested_cwd(root, input)) {
            Some(path) => if legal {
                "shell.exec:cwd:"@ + path
            } else {
                SHELL_DENY_SCOPE@
            },
            None => SHELL_DENY_SCOPE@,
        }
    }
}

/// Why a command is refused that names a protected location.
pub open spec fn protected_text(word: Seq<char>, reason: Seq<char>) -> Seq<char> {
    "refusing to run this command — it references "@ + word + ", a protected location ("@ + reason
        + "). shell.exec will not read secrets or write persistence targets; add the path to `[access] allow_sensitive_paths` if you intend it."@
}

/// A whole number as JSON.
pub open spec fn code_view(n: i32) -> JsonView {
    if n < 0 {
        JsonView::Signed(n as i64)
    } else {
        JsonView::Unsigned(n as u64)
    }
}

/// What `shell.exec` answers for a command that ran.
pub open spec fn shell_output(
    run: ShellRun,
    code: i32,
    stdout: Seq<char>,
    stderr: Seq<char>,
    timed_out: bool,
) -> OutcomeView {
    OutcomeView::Completed {
        output: JsonView::Object(
            seq![
                ("cmd"@, JsonView::Str(run.cmd@)),
                ("cwd"@, JsonView::Str(run.cwd@)),
                ("exit_code"@, code_view(code)),
                ("stderr"@, JsonView::Str(stderr)),
                ("stdout"@, JsonView::Str(stdout)),
                ("timed_out"@, JsonView::Bool(timed_out)),
                ("timeout_ms"@, JsonView::Unsigned(run.timeout_ms)),
            ],
        ),
        verified: Verification::NotApplicable,
    }
}

/// What `shell.exec` answers, given what became of the command. A command
/// that ended badly, or not in time, has still been run.
pub open spec fn shell_outcome(id: ToolId, run: ShellRun, result: ShellResult) -> OutcomeView {
    match result {
        ShellResult::SpawnFailed(e) => failure(id, "spawn failed: "@ + e@),
        ShellResult::WaitFailed(e) => failure(id, "wait failed: "@ + e@),
        ShellResult::TimedOut => shell_output(
            run,
            -1i32,
            Seq::empty(),
            Seq::empty(),
            true,
        ),
        ShellResult::Exited { code, stdout, stderr } => shell_output(
            run,
            match code {
                Some(n) => n,
                None => -1i32,
            },
            stdout@,
            stderr@,
            false,
        ),
    }
}

/// Whether a canonical path lies under the root.
pub open spec fn lies_under(root: Seq<char>, path: Seq<char>) -> bool {
    names_start_with(path_names(path), path_names(root))
}

/// What a command has printed is answered as it was printed, each stream under
/// its own name, beside the command, its directory, its exit code and its time
/// limit. A command that was killed or ran out of time has the exit code -1;
/// one that could not be run or waited for is a failure that says why.
pub proof fn law_the_answer_holds_what_was_printed(id: ToolId, run: ShellRun, result: ShellResult)
    ensures
        match result {
            ShellResult::Exited { code, stdout, stderr } => {
                &&& shell_outcome(id, run, result) matches OutcomeView::Completed {
                    output,
                    verified,
                }
                &&& output.get_str("stdout"@) == Some(stdout@)
                &&& output.get_str("stderr"@) == Some(stderr@)
                &&& output.get_str("cmd"@) == Some(run.cmd@)
                &&& output.get_str("cwd"@) == Some(run.cwd@)
                &&& output.get_bool("timed_out"@) == Some(false)
                &&& output.get_u64("timeout_ms"@) == Some(run.timeout_ms)
                &&& output.get("exit_code"@) matches Some(shown)
                &&& match code {
                    Some(n) => if n < 0 {
                        shown matches JsonView::Signed(m) && m == n
                    } else {
                        shown matches JsonView::Unsigned(m) && m == n
                    },
                    None => shown == JsonView::Signed(-1i64),
                }
                &&& verified == Verification::NotApplicable
            },
            ShellResult::TimedOut => {
                &&& shell_outcome(id, run, result) matches OutcomeView::Completed {
                    output,
                    verified,
                }
                &&& output.get_str("stdout"@) == Some(Seq::<char>::empty())
                &&& output.get_str("stderr"@) == Some(Seq::<char>::empty())
                &&& output.get_str("cmd"@) == Some(run.cmd@)
                &&& output.get_str("cwd"@) == Some(run.cwd@)
                &&& output.get_bool("timed_out"@) == Some(true)
                &&& output.get_u64("timeout_ms"@) == Some(run.timeout_ms)
                &&& output.get("exit_code"@) == Some(JsonView::Signed(-1i64))
                &&& verified == Verification::NotApplicable
            },
            ShellResult::SpawnFailed(e) => shell_outcome(id, run, result) == OutcomeView::Failed(
                ErrorView::Tool { tool: id, detail: "spawn failed: "@ + e@ },
            ),
            ShellResult::WaitFailed(e) => shell_outcome(id, run, result) == OutcomeView::Failed(
                ErrorView::Tool { tool: id, detail: "wait failed: "@ + e@ },
            ),
        },
{
    if let OutcomeView::Completed { output, verified } = shell_outcome(id, run, result) {
        let m = output->Object_0;
        reveal_strlit("cmd");
        reveal_strlit("cwd");
        reveal_strlit("exit_code");
        reveal_strlit("stderr");
        reveal_strlit("stdout");
        reveal_strlit("timed_out");
        reveal_strlit("timeout_ms");
        assert("cmd"@[1] != "cwd"@[1]);
        assert("cmd"@.len() != "exit_code"@.len());
        assert("cmd"@.len() != "stderr"@.len());
        assert("cmd"@.len() != "stdout"@.len());
        assert("cmd"@.len() != "timed_out"@.len());
        assert("cmd"@.len() != "timeout_ms"@.len());
        assert("cwd"@.len() != "exit_code"@.len());
        assert("cwd"@.len() != "stderr"@.len());
        assert("cwd"@.len() != "stdout"@.len());
        assert("cwd"@.len() != "timed_out"@.len());
        assert("cwd"@.len() != "timeout_ms"@.len());
        assert("exit_code"@.len() != "stderr"@.len());
        assert("exit_code"@.len() != "stdout"@.len());
        assert("exit_code"@[0] != "timed_out"@[0]);
        assert("exit_code"@.len() != "timeout_ms"@.len());
        assert("stderr"@[3] != "stdout"@[3]);
        assert("stderr"@.len() != "timed_out"@.len());
        assert("stderr"@.len() != "timeout_ms"@.len());
        assert("stdout"@.len() != "timed_out"@.len());
        assert("stdout"@.len() != "timeout_ms"@.len());
        assert("timed_out"@.len() != "timeout_ms"@.len());
        assert(m[0].0 == "cmd"@);
        assert(m[1].0 == "cwd"@);
        assert(m[2].0 == "exit_code"@);
        assert(m[3].0 == "stderr"@);
        assert(m[4].0 == "stdout"@);
        assert(m[5].0 == "timed_out"@);
        assert(m[6].0 == "timeout_ms"@);
        law_a_member_is_found_by_its_name(m, 0);
        law_a_member_is_found_by_its_name(m, 1);
        law_a_member_is_found_by_its_name(m, 2);
        law_a_member_is_found_by_its_name(m, 3);
        law_a_member_is_found_by_its_name(m, 4);
        law_a_member_is_found_by_its_name(m, 5);
        law_a_member_is_found_by_its_name(m, 6);
    }
}

fn completed(run: &ShellRun, code: i32, stdout: &str, stderr: &str, timed_out: bool) -> (r:
    ToolOutcome)
    ensures
        r@ == shell_output(*run, code, stdout@, stderr@, timed_out),
{
    let exit_code: Json = if code < 0 {
        Json::Signed(code as i64)
    } else {
        Json::Unsigned(code as u64)
    };
    assert(exit_code@ == code_view(code));
    let mut m: Vec<(String, Json)> = Json::no_members();
    Json::push_member(&mut m, "cmd", Json::string(run.cmd.as_str()));
    Json::push_member(&mut m, "cwd", Json::string(run.cwd.as_str()));
    Json::push_member(&mut m, "exit_code", exit_code);
    Json::push_member(&mut m, "stderr", Json::string(stderr));
    Json::push_member(&mut m, "stdout", Json::string(stdout));
    Json::push_member(&mut m, "timed_out", Json::Bool(timed_out));
    Json::push_member(&mut m, "timeout_ms", Json::Unsigned(run.timeout_ms));
    assert(members_view(m@) =~= seq![
        ("cmd"@, JsonView::Str(run.cmd@)),
        ("cwd"@, JsonView::Str(run.cwd@)),
        ("exit_code"@, code_view(code)),
        ("stderr"@, JsonView::Str(stderr@)),
        ("stdout"@, JsonView::Str(stdout@)),
        ("timed_out"@, JsonView::Bool(timed_out)),
        ("timeout_ms"@, JsonView::Unsigned(run.timeout_ms)),
    ]);
    ToolOutcome::Completed { output: Json::Object(m), verified: Verification::NotApplicable }
}

/// What the model is told of `shell.exec`.
pub const SHELL_DESCRIPTION: &'static str =
    "Run a shell command inside the agent's shell.exec sandbox root and return its stdout, stderr, and exit code. The `args.cwd` field (optional) picks a subdirectory of the sandbox root; `args.timeout_ms` (optional, default 30000, max 600000) sets a wall-clock timeout. Output is bundled into one result — no streaming.";

impl ShellExecTool {
    pub fn id(&self) -> (r: ToolId)
        ensures
            r == self@.id,
    {
        self.id
    }

    /// The canonical form of the directory under which commands may run.
    pub fn cwd_root(&self) -> (r: &String)
        ensures
            r@ == self@.cwd_root,
    {
        &self.cwd_root
    }

    /// Whether commands may only run confined.
    pub fn require_enforcement(&self) -> (r: bool)
        ensures
            r == self@.require_enforcement,
    {
        self.require_enforcement
    }

    /// Whether commands that name a protected location are refused.
    pub fn with_sensitive_policy(self, enabled: bool) -> (r: ShellExecTool)
        ensures
            r@ == (ShellToolView { sensitive: enabled, ..self@ }),
    {
        ShellExecTool { sensitive: enabled, ..self }
    }

    /// Whether commands may only run confined.
    pub fn with_confiner(self, require_enforcement: bool) -> (r: ShellExecTool)
        ensures
            r@ == (ShellToolView { require_enforcement, ..self@ }),
    {
        ShellExecTool { require_enforcement, ..self }
    }

    pub fn name(&self) -> (r: &'static str)
        ensures
            r@ == "shell.exec"@,
    {
        "shell.exec"
    }

    /// What the model is told of the tool.
    pub fn description(&self) -> (r: &'static str)
        ensures
            r@ == SHELL_DESCRIPTION@,
    {
        SHELL_DESCRIPTION
    }

    /// The tool as it is registered.
    pub fn to_tool(&self) -> (r: Tool)
        ensures
            r.id == self@.id,
            r.name@ == "shell.exec"@,
            r.description@ == SHELL_DESCRIPTION@,
            r.input_schema@ == shell_schema(),
    {
        Tool {
            id: self.id,
            name: self.name().to_owned(),
            description: self.description().to_owned(),
            input_schema: shell_exec_input_schema(),
        }
    }

    /// A command can change anything under the root.
    pub fn mutates_fs_root(&self) -> (r: bool)
        ensures
            r,
    {
        true
    }

    /// What a command prints can come from anywhere.
    pub fn output_is_untrusted(&self) -> (r: bool)
        ensures
            r,
    {
        true
    }

    /// The scope that a call with this input needs. `legal` says whether the
    /// scope for its directory is well formed.
    pub fn required_scope(&self, input: &Json, legal: bool) -> (r: String)
        ensures
            r@ == shell_scope(self@.cwd_root, input@, legal),
    {
        match input.get_str("cmd") {
            None => {
                return deny_scope();
            },
            Some(cmd) => {
                if cmd.as_str().is_empty() {
                    return deny_scope();
                }
            },
        }
        let path: Option<String> = match input_cwd(input) {
            Some(c) => lexical_resolve(self.cwd_root.as_str(), c.as_str()),
            None => lexical_resolve(self.cwd_root.as_str(), self.cwd_root.as_str()),
        };
        match path {
            Some(p) => if legal {
                let mut scope: String = "shell.exec:cwd:".to_owned();
                scope.push_str(p.as_str());
                scope
            } else {
                deny_scope()
            },
            None => deny_scope(),
        }
    }

    /// Checks the input of a call. `verdicts` says for each of the
    /// [`candidate_paths`] of its command why it is protected, if it is; they
    /// count only where the guard is on.
    pub fn prepare(&self, input: &Json, verdicts: &Vec<Option<String>>) -> (r: Result<
        ShellRequest,
        ToolOutcome,
    >)
        requires
            self@.sensitive && command_of(input@) is Some ==> verdicts@.len() == command_words(
                command_of(input@)->0,
            ).len(),
        ensures
            if command_of(input@) is None {
                r matches Err(o) && o@ == failure(
                    self@.id,
                    "input must have a non-empty string `cmd` field"@,
                )
            } else if self@.sensitive && names_protected(verdicts@) {
                &&& r matches Err(o)
                &&& exists|i: int| #[trigger]
                    first_protected(verdicts@, i) && o@ == failure(
                        self@.id,
                        protected_text(
                            command_words(command_of(input@)->0)[i],
                            verdicts@[i]->0@,
                        ),
                    )
            } else {
                match resolved(self@.cwd_root, requested_cwd(self@.cwd_root, input@)) {
                    None => r matches Err(o) && o@ == OutcomeView::Failed(
                        ErrorView::Internal(
                            "shell.exec: lexical resolve escaped sandbox after scope gate admitted the call (cwd="@
                                + path_form(requested_cwd(self@.cwd_root, input@)) + ")"@,
                        ),
                    ),
                    Some(path) => {
                        &&& r matches Ok(q)
                        &&& q.cmd@ == command_of(input@)->0
                        &&& q.timeout_ms == timeout_of(input@)
                        &&& q.lexical_cwd@ == path
                        &&& pairs(q.env@) == env_of(input@)
                        &&& q@ == call_asked_for(input@, path)
                    },
                }
            },
    {
        let cmd: String = match input.get_str("cmd") {
            None => {
                return Err(
                    tool_failed_with(self.id, "input must have a non-empty string `cmd` field"),
                );
            },
            Some(cmd) => {
                if cmd.as_str().is_empty() {
                    return Err(
                        tool_failed_with(
                            self.id,
                            "input must have a non-empty string `cmd` field",
                        ),
                    );
                }
                cmd.clone()
            },
        };
        let timeout_ms: u64 = input_timeout_ms(input);
        if self.sensitive {
            match sensitive_command_hit(cmd.as_str(), verdicts) {
                Some((word, reason)) => {
                    let mut detail: String =
                        "refusing to run this command — it references ".to_owned();
                    detail.push_str(word.as_str());
                    detail.push_str(", a protected location (");
                    detail.push_str(reason.as_str());
                    detail.push_str(
                        "). shell.exec will not read secrets or write persistence targets; add the path to `[access] allow_sensitive_paths` if you intend it.",
                    );
                    assert(detail@ =~= protected_text(word@, reason@));
                    return Err(tool_failed(self.id, detail));
                },
                None => {},
            }
        }
        let requested: String = match input_cwd(input) {
            Some(c) => c.clone(),
            None => self.cwd_root.clone(),
        };
        match lexical_resolve(self.cwd_root.as_str(), requested.as_str()) {
            None => {
                let mut detail: String =
                    "shell.exec: lexical resolve escaped sandbox after scope gate admitted the call (cwd=".to_owned();
                let form: String = path_text(requested.as_str());
                detail.push_str(form.as_str());
                detail.push_str(")");
                Err(ToolOutcome::Failed(AivyxError::Internal(detail)))
            },
            Some(lexical_cwd) => Ok(
                ShellRequest { cmd, timeout_ms, lexical_cwd, env: input_env(input) },
            ),
        }
    }

    /// Checks the directory of a command once more, by its canonical form or
    /// the reason why it has none.
    pub fn enter(&self, request: ShellRequest, canonical: Result<String, String>) -> (r: Result<
        ShellRun,
        ToolOutcome,
    >)
        ensures
            match canonical {
                Err(e) => r matches Err(o) && o@ == failure(
                    self@.id,
                    "cannot canonicalize cwd "@ + path_form(request.lexical_cwd@) + ": "@ + e@,
                ),
                Ok(path) => if lies_under(self@.cwd_root, path@) {
                    &&& r matches Ok(run)
                    &&& run.cmd@ == request.cmd@
                    &&& run.timeout_ms == request.timeout_ms
                    &&& run.cwd@ == path@
                    &&& run.env == request.env
                    &&& run@ == (ShellCallView { cwd: path@, ..request@ })
                } else {
                    r matches Err(o) && o@ == failure(
                        self@.id,
                        "cwd "@ + path_form(path@) + " escapes sandbox root "@ + path_form(
                            self@.cwd_root,
                        ) + " after symlink resolution"@,
                    )
                },
            },
    {
        match canonical {
            Err(e) => {
                let mut detail: String = "cannot canonicalize cwd ".to_owned();
                let form: String = path_text(request.lexical_cwd.as_str());
                detail.push_str(form.as_str());
                detail.push_str(": ");
                detail.push_str(e.as_str());
                Err(tool_failed(self.id, detail))
            },
            Ok(path) => {
                let names: Vec<String> = names_of(path.as_str());
                let root: Vec<String> = names_of(self.cwd_root.as_str());
                if !starts_with_names(&names, &root) {
                    let mut detail: String = "cwd ".to_owned();
                    let form: String = path_text(path.as_str());
                    detail.push_str(form.as_str());
                    detail.push_str(" escapes sandbox root ");
                    let root_form: String = path_text(self.cwd_root.as_str());
                    detail.push_str(root_form.as_str());
                    detail.push_str(" after symlink resolution");
                    return Err(tool_failed(self.id, detail));
                }
                Ok(
                    ShellRun {
                        cmd: request.cmd,
                        timeout_ms: request.timeout_ms,
                        cwd: path,
                        env: request.env,
                    },
                )
            },
        }
    }

    /// The answer, once the command has run.
    pub fn finish(&self, run: &ShellRun, result: &ShellResult) -> (r: ToolOutcome)
        ensures
            r@ == shell_outcome(self@.id, *run, *result),
    {
        match result {
            ShellResult::SpawnFailed(e) => {
                let mut detail: String = "spawn failed: ".to_owned();
                detail.push_str(e.as_str());
                tool_failed(self.id, detail)
            },
            ShellResult::WaitFailed(e) => {
                let mut detail: String = "wait failed: ".to_owned();
                detail.push_str(e.as_str());
                tool_failed(self.id, detail)
            },
            ShellResult::TimedOut => {
                let nothing: String = String::new();
                completed(run, -1, nothing.as_str(), nothing.as_str(), true)
            },
            ShellResult::Exited { code, stdout, stderr } => {
                let n: i32 = match code {
                    Some(n) => *n,
                    None => -1,
                };
                completed(run, n, stdout.as_str(), stderr.as_str(), false)
            },
        }
    }
}

/// A call for which there is a scope that can be held has a command, and a
/// directory under the root.
pub proof fn law_scope_and_checks_agree(tool: ShellToolView, input: JsonView)
    ensures
        shell_scope(tool.cwd_root, input, true) != SHELL_DENY_SCOPE@ ==> command_of(input) is Some
            && resolved(tool.cwd_root, requested_cwd(tool.cwd_root, input)) is Some,
{
}

// ---------------------------------------------------------------------------
// The schema
// ---------------------------------------------------------------------------

/// The schema of the variables that a call declares.
pub open spec fn env_schema() -> JsonView {
    JsonView::Object(
        seq![
            (
                "additionalProperties"@,
                JsonView::Object(seq![("type"@, JsonView::Str("string"@))]),
            ),
            (
                "description"@,
                JsonView::Str(
                    "Environment variables to set for this command. Keys are variable names, values are strings. The daemon's own environment is NOT inherited — only PATH, HOME, USER, LANG, TERM are injected as defaults, plus any vars declared here."@,
                ),
            ),
            ("type"@, JsonView::Str("object"@)),
        ],
    )
}

/// The schema of the time limit.
pub open spec fn timeout_schema() -> JsonView {
    JsonView::Object(
        seq![
            (
                "description"@,
                JsonView::Str(
                    "Wall-clock timeout in milliseconds. Default 30000; maximum 600000 (10 minutes)."@,
                ),
            ),
            ("maximum"@, JsonView::Unsigned(MAX_TIMEOUT_MS)),
            ("minimum"@, JsonView::Unsigned(1)),
            ("type"@, JsonView::Str("integer"@)),
        ],
    )
}

/// The schema of the optional arguments.
pub open spec fn args_schema() -> JsonView {
    JsonView::Object(
        seq![
            ("additionalProperties"@, JsonView::Bool(false)),
            (
                "properties"@,
                JsonView::Object(
                    seq![
                        (
                            "cwd"@,
                            field_schema(
                                "string"@,
                                "Working directory for the command. Must resolve under the agent's shell.exec sandbox root. Default: the sandbox root itself."@,
                            ),
                        ),
                        ("env"@, env_schema()),
                        ("timeout_ms"@, timeout_schema()),
                    ],
                ),
            ),
            ("type"@, JsonView::Str("object"@)),
        ],
    )
}

/// The schema of `shell.exec`.
pub open spec fn shell_schema() -> JsonView {
    JsonView::Object(
        seq![
            ("additionalProperties"@, JsonView::Bool(false)),
            (
                "properties"@,
                JsonView::Object(
                    seq![
                        ("args"@, args_schema()),
                        (
                            "cmd"@,
                            field_schema(
                                "string"@,
                                "Shell command to execute, passed to `sh -c`. Non-empty required. The tool does not interpret pipes/redirects itself — `sh` handles that."@,
                            ),
                        ),
                    ],
                ),
            ),
            ("required"@, JsonView::Array(name_list(seq!["cmd"@]))),
            ("type"@, JsonView::Str("object"@)),
        ],
    )
}

fn env_field() -> (r: Json)
    ensures
        r@ == env_schema(),
{
    let mut value: Vec<(String, Json)> = Json::no_members();
    Json::push_member(&mut value, "type", Json::string("string"));
    assert(members_view(value@) =~= seq![("type"@, JsonView::Str("string"@))]);
    let mut m: Vec<(String, Json)> = Json::no_members();
    Json::push_member(&mut m, "additionalProperties", Json::Object(value));
    Json::push_member(
        &mut m,
        "description",
        Json::string(
            "Environment variables to set for this command. Keys are variable names, values are strings. The daemon's own environment is NOT inherited — only PATH, HOME, USER, LANG, TERM are injected as defaults, plus any vars declared here.",
        ),
    );
    Json::push_member(&mut m, "type", Json::string("object"));
    assert(members_view(m@) =~= env_schema()->Object_0);
    Json::Object(m)
}

fn timeout_field() -> (r: Json)
    ensures
        r@ == timeout_schema(),
{
    let mut m: Vec<(String, Json)> = Json::no_members();
    Json::push_member(
        &mut m,
        "description",
        Json::string(
            "Wall-clock timeout in milliseconds. Default 30000; maximum 600000 (10 minutes).",
        ),
    );
    Json::push_member(&mut m, "maximum", Json::Unsigned(MAX_TIMEOUT_MS));
    Json::push_member(&mut m, "minimum", Json::Unsigned(1));
    Json::push_member(&mut m, "type", Json::string("integer"));
    assert(members_view(m@) =~= timeout_schema()->Object_0);
    Json::Object(m)
}

fn args_field() -> (r: Json)
    ensures
        r@ == args_schema(),
{
    let mut p: Vec<(String, Json)> = Json::no_members();
    Json::push_member(
        &mut p,
        "cwd",
        field(
            "string",
            "Working directory for the command. Must resolve under the agent's shell.exec sandbox root. Default: the sandbox root itself.",
        ),
    );
    Json::push_member(&mut p, "env", env_field());
    Json::push_member(&mut p, "timeout_ms", timeout_field());
    assert(members_view(p@) =~= args_schema()->Object_0[1].1->Object_0);
    let mut m: Vec<(String, Json)> = Json::no_members();
    Json::push_member(&mut m, "additionalProperties", Json::Bool(false));
    Json::push_member(&mut m, "properties", Json::Object(p));
    Json::push_member(&mut m, "type", Json::string("object"));
    assert(members_view(m@) =~= args_schema()->Object_0);
    Json::Object(m)
}

/// The schema of `shell.exec`.
pub fn shell_exec_input_schema() -> (r: Json)
    ensures
        r@ == shell_schema(),
{
    let mut p: Vec<(String, Json)> = Json::no_members();
    Json::push_member(&mut p, "args", args_field());
    Json::push_member(
        &mut p,
        "cmd",
        field(
            "string",
            "Shell command to execute, passed to `sh -c`. Non-empty required. The tool does not interpret pipes/redirects itself — `sh` handles that.",
        ),
    );
    assert(members_view(p@) =~= shell_schema()->Object_0[1].1->Object_0);
    let mut required: Vec<Json> = Vec::new();
    Json::push_item(&mut required, Json::string("cmd"));
    assert(items_view(required@) =~= name_list(seq!["cmd"@]));
    let mut m: Vec<(String, Json)> = Json::no_members();
    Json::push_member(&mut m, "additionalProperties", Json::Bool(false));
    Json::push_member(&mut m, "properties", Json::Object(p));
    Json::push_member(&mut m, "required", Json::Array(required));
    Json::push_member(&mut m, "type", Json::string("object"));
    assert(members_view(m@) =~= shell_schema()->Object_0);
    Json::Object(m)
}

// ---------------------------------------------------------------------------
// What holds of every call
// ---------------------------------------------------------------------------

/// A command is run as the input gives it, in the directory that the input asks
/// for, or else in the root.
pub proof fn law_what_is_asked_for(root: Seq<char>, input: JsonView)
    ensures
        command_of(input) == match input.get("cmd"@) {
            Some(JsonView::Str(c)) => if c.len() > 0 {
                Some(c)
            } else {
                None
            },
            _ => None,
        },
        requested_cwd(root, input) == match input.get("args"@) {
            Some(args) => match args.get("cwd"@) {
                Some(JsonView::Str(c)) => c,
                _ => root,
            },
            None => root,
        },
{
}

/// A command gets the time that its input asks for, but no less than a
/// millisecond and no more than ten minutes; half a minute where nothing is
/// asked for.
pub proof fn law_time_is_limited(input: JsonView)
    ensures
        ({
            let asked = match input.get("args"@) {
                Some(args) => args.get_u64("timeout_ms"@),
                None => None,
            };
            match asked {
                Some(n) => if 1 <= n <= 600_000 {
                    timeout_of(input) == n
                } else if n > 600_000 {
                    timeout_of(input) == 600_000
                } else {
                    timeout_of(input) == 1
                },
                None => timeout_of(input) == 30_000,
            }
        }),
{
}

/// The variables that a call declares are the members of its `env`, in their
/// order and with their values; those that are no strings are passed over.
pub proof fn law_declared_variables_are_those_of_the_input(input: JsonView)
    ensures
        ({
            let env = match input.get("args"@) {
                Some(args) => args.get("env"@),
                None => None,
            };
            env_of(input) == match env {
                Some(JsonView::Object(m)) => m.filter(
                    |e: (Seq<char>, JsonView)| e.1 is Str,
                ).map_values(|e: (Seq<char>, JsonView)| (e.0, e.1->Str_0)),
                _ => Seq::<(Seq<char>, Seq<char>)>::empty(),
            }
        }),
{
    if let Some(args) = input.get("args"@) {
        if let Some(JsonView::Object(m)) = args.get("env"@) {
            lemma_string_entries(m);
        }
    }
}

proof fn lemma_string_entries(m: Seq<(Seq<char>, JsonView)>)
    ensures
        string_entries(m) == m.filter(|e: (Seq<char>, JsonView)| e.1 is Str).map_values(
            |e: (Seq<char>, JsonView)| (e.0, e.1->Str_0),
        ),
    decreases m.len(),
{
    let is_string = |e: (Seq<char>, JsonView)| e.1 is Str;
    let pair = |e: (Seq<char>, JsonView)| (e.0, e.1->Str_0);
    reveal(Seq::filter);
    if m.len() > 0 {
        let rest = m.drop_last();
        lemma_string_entries(rest);
        if m.last().1 is Str {
            assert(rest.filter(is_string).push(m.last()).map_values(pair) =~= rest.filter(
                is_string,
            ).map_values(pair).push(pair(m.last())));
        }
    } else {
        assert(m.filter(is_string).map_values(pair) =~= Seq::<(Seq<char>, Seq<char>)>::empty());
    }
}

/// A command gets all that its call declares, behind whatever else it gets, so
/// that what is declared counts.
pub proof fn law_declared_variables_come_last(
    process: Seq<(Seq<char>, Seq<char>)>,
    declared: Seq<(Seq<char>, Seq<char>)>,
)
    ensures
        declared.is_suffix_of(child_variables(process, declared)),
{
    let all = child_variables(process, declared);
    assert(declared =~= all.skip(all.len() - declared.len()));
}

/// A command gets the search path, the home directory, the user, the language
/// and the terminal of the process, each with its first value, where the process
/// has it.
pub proof fn law_safe_variables_are_passed_on(
    process: Seq<(Seq<char>, Seq<char>)>,
    declared: Seq<(Seq<char>, Seq<char>)>,
    i: int,
)
    requires
        0 <= i < process.len(),
        forall|j: int| 0 <= j < i ==> (#[trigger] process[j]).0 != process[i].0,
        process[i].0 == "PATH"@ || process[i].0 == "HOME"@ || process[i].0 == "USER"@
            || process[i].0 == "LANG"@ || process[i].0 == "TERM"@,
    ensures
        child_variables(process, declared).contains(process[i]),
{
    let name = process[i].0;
    lemma_first_value(process, i);
    assert(safe_names()[0] == "PATH"@);
    assert(safe_names()[1] == "HOME"@);
    assert(safe_names()[2] == "USER"@);
    assert(safe_names()[3] == "LANG"@);
    assert(safe_names()[4] == "TERM"@);
    let n = choose|n: int| 0 <= n < 5 && #[trigger] safe_names()[n] == name;
    let k = lemma_picked_holds(process, safe_names(), n);
    assert(child_variables(process, declared)[k] == process[i]);
}

proof fn lemma_first_value(env: Seq<(Seq<char>, Seq<char>)>, i: int)
    requires
        0 <= i < env.len(),
        forall|j: int| 0 <= j < i ==> (#[trigger] env[j]).0 != env[i].0,
    ensures
        value_of(env, env[i].0) == Some(env[i].1),
    decreases env.len(),
{
    if i > 0 {
        let rest = env.drop_first();
        assert(env[0].0 != env[i].0);
        assert forall|j: int| 0 <= j < i - 1 implies (#[trigger] rest[j]).0 != rest[i - 1].0 by {
            assert(env[j + 1].0 != env[i].0);
        }
        lemma_first_value(rest, i - 1);
    }
}

proof fn lemma_picked_holds(
    env: Seq<(Seq<char>, Seq<char>)>,
    names: Seq<Seq<char>>,
    n: int,
) -> (k: int)
    requires
        0 <= n < names.len(),
        value_of(env, names[n]) is Some,
    ensures
        0 <= k < picked(env, names).len(),
        picked(env, names)[k] == (names[n], value_of(env, names[n])->0),
    decreases names.len(),
{
    if n == names.len() - 1 {
        picked(env, names).len() - 1
    } else {
        assert(names.drop_last()[n] == names[n]);
        lemma_picked_holds(env, names.drop_last(), n)
    }
}

// ---------------------------------------------------------------------------
// Words and paths
// ---------------------------------------------------------------------------

/// The words of a command are parted by white space, by the signs that the shell
/// reads between words, by quotation marks and by the equals sign: what stands
/// before one and what stands behind it have nothing to do with each other.
pub proof fn law_signs_part_words(before: Seq<char>, c: char, after: Seq<char>)
    requires
        white_space(c) || c == '|' || c == '&' || c == ';' || c == '<' || c == '>' || c == '(' || c
            == ')' || c == '`' || c == '"' || c == '\'' || c == '=',
    ensures
        command_words(before.push(c) + after) == command_words(before) + command_words(after),
{
    law_separators_part(before, c, after, Separator::ShellWord);
    lemma_nonempty_parts(
        pieces(before, Separator::ShellWord),
        pieces(after, Separator::ShellWord),
    );
}

proof fn lemma_nonempty_parts(a: Seq<Seq<char>>, b: Seq<Seq<char>>)
    ensures
        nonempty(a + b) == nonempty(a) + nonempty(b),
    decreases b.len(),
{
    if b.len() > 0 {
        lemma_nonempty_parts(a, b.drop_last());
        assert((a + b).drop_last() =~= a + b.drop_last());
        assert(nonempty(a + b) =~= nonempty(a) + nonempty(b));
    } else {
        assert(a + b =~= a);
        assert(nonempty(a + b) =~= nonempty(a) + nonempty(b));
    }
}

/// Where none of these signs occurs, a command is one word, unless it is empty.
pub proof fn law_no_sign_one_word(cmd: Seq<char>)
    requires
        forall|i: int|
            0 <= i < cmd.len() ==> {
                let c = #[trigger] cmd[i];
                !(white_space(c) || c == '|' || c == '&' || c == ';' || c == '<' || c == '>' || c
                    == '(' || c == ')' || c == '`' || c == '"' || c == '\'' || c == '=')
            },
    ensures
        command_words(cmd) == if cmd.len() == 0 {
            Seq::<Seq<char>>::empty()
        } else {
            seq![cmd]
        },
{
    law_no_separator_no_parting(cmd, Separator::ShellWord);
    assert(seq![cmd].drop_last() =~= Seq::<Seq<char>>::empty());
    reveal_with_fuel(nonempty, 2);
    assert(command_words(cmd) =~= if cmd.len() == 0 {
        Seq::<Seq<char>>::empty()
    } else {
        seq![cmd]
    });
}

proof fn lemma_no_dollar(s: Seq<char>, needle: Seq<char>)
    requires
        !s.contains('$'),
        needle.len() > 0,
        needle[0] == '$',
    ensures
        !occurs(s, needle),
{
    if occurs(s, needle) {
        let i = choose|i: int| #[trigger] occurs_at(s, needle, i);
        assert(s.subrange(i, i + needle.len())[0] == s[i]);
        assert(s.contains(s[i]));
    }
}

proof fn lemma_home_is_put_in(
    before: Seq<char>,
    sign: Seq<char>,
    after: Seq<char>,
    home: Seq<char>,
)
    requires
        !before.contains('$'),
        !after.contains('$'),
        sign.len() > 0,
        sign[0] == '$',
    ensures
        replaced(before + sign + after, sign, home) == before + home + after,
{
    let s = before + sign + after;
    assert forall|i: int| 0 <= i < before.len() implies !#[trigger] occurs_at(s, sign, i) by {
        if occurs_at(s, sign, i) {
            assert(s.subrange(i, i + sign.len())[0] == s[i]);
            assert(s[i] == before[i]);
            assert(before.contains(before[i]));
        }
    }
    law_replacing_starts_at_the_first(before, sign, after, home);
    lemma_no_dollar(after, sign);
    law_nothing_to_replace(after, sign, home);
}

/// Where the home directory is known, it is put in the place of a leading tilde
/// and of the variable, with braces or without; a word that holds neither is
/// left as it is, and so is every word where the home directory is not known.
pub proof fn law_home_is_written_out(
    word: Seq<char>,
    home: Seq<char>,
    before: Seq<char>,
    after: Seq<char>,
)
    requires
        !home.contains('$'),
        !before.contains('$'),
        !after.contains('$'),
        before.len() > 0 ==> before[0] != '~',
    ensures
        with_home(word, None) == word,
        !word.contains('$') && !(word.len() > 0 && word[0] == '~') ==> with_home(word, Some(home))
            == word,
        with_home("~"@, Some(home)) == home,
        with_home("~/"@ + after, Some(home)) == home + "/"@ + after,
        with_home(before + "$HOME"@ + after, Some(home)) == before + home + after,
        with_home(before + "${HOME}"@ + after, Some(home)) == before + home + after,
{
    let plain = "$HOME"@;
    let braced = "${HOME}"@;
    reveal_strlit("~");
    reveal_strlit("~/");
    reveal_strlit("/");
    reveal_strlit("$HOME");
    reveal_strlit("${HOME}");
    if !word.contains('$') && !(word.len() > 0 && word[0] == '~') {
        if begins_with(word, "~/"@) {
            assert(word.subrange(0, 2)[0] == word[0]);
        }
        lemma_no_dollar(word, braced);
        lemma_no_dollar(word, plain);
        law_nothing_to_replace(word, braced, home);
        law_nothing_to_replace(word, plain, home);
    }
    lemma_no_dollar(home, braced);
    lemma_no_dollar(home, plain);
    law_nothing_to_replace(home, braced, home);
    law_nothing_to_replace(home, plain, home);
    let tilde = "~/"@ + after;
    let path = home + "/"@ + after;
    assert(tilde.subrange(0, 2) =~= "~/"@);
    assert(tilde.skip(2) =~= after);
    assert(!path.contains('$')) by {
        if path.contains('$') {
            let i = choose|i: int| 0 <= i < path.len() && path[i] == '$';
            if i < home.len() {
                assert(home.contains(home[i]));
            } else if i > home.len() {
                assert(after.contains(after[i - home.len() - 1]));
            }
        }
    }
    lemma_no_dollar(path, braced);
    lemma_no_dollar(path, plain);
    law_nothing_to_replace(path, braced, home);
    law_nothing_to_replace(path, plain, home);
    let done = before + home + after;
    assert(!done.contains('$')) by {
        if done.contains('$') {
            let i = choose|i: int| 0 <= i < done.len() && done[i] == '$';
            if i < before.len() {
                assert(before.contains(before[i]));
            } else if i < before.len() + home.len() {
                assert(home.contains(home[i - before.len()]));
            } else {
                assert(after.contains(after[i - before.len() - home.len()]));
            }
        }
    }
    lemma_no_dollar(done, plain);
    law_nothing_to_replace(done, plain, home);
    let one = before + plain + after;
    let other = before + braced + after;
    assert(one[0] != '~');
    assert(other[0] != '~');
    if begins_with(one, "~/"@) {
        assert(one.subrange(0, 2)[0] == one[0]);
    }
    if begins_with(other, "~/"@) {
        assert(other.subrange(0, 2)[0] == other[0]);
    }
    lemma_home_is_put_in(before, braced, after, home);
    assert(!occurs(one, braced)) by {
        if occurs(one, braced) {
            let i = choose|i: int| #[trigger] occurs_at(one, braced, i);
            let n = before.len() as int;
            assert(one.subrange(i, i + 7)[0] == one[i]);
            assert(one.subrange(i, i + 7)[1] == one[i + 1]);
            if i < n {
                assert(before.contains(before[i]));
            } else if i == n {
                assert(one[i + 1] == plain[1]);
            } else if i < n + 5 {
                assert(one[i] == plain[i - n]);
            } else {
                assert(after.contains(after[i - n - 5]));
            }
        }
    }
    law_nothing_to_replace(one, braced, home);
    lemma_home_is_put_in(before, plain, after, home);
}

/// The names along a path are those before a slash and those behind it, and what
/// holds no slash is a name, unless it is empty or a single dot.
pub proof fn law_slashes_part_names(before: Seq<char>, after: Seq<char>, name: Seq<char>)
    requires
        !name.contains('/'),
    ensures
        path_names(before.push('/') + after) == path_names(before) + path_names(after),
        path_names(name) == if name.len() == 0 || name == "."@ {
            Seq::<Seq<char>>::empty()
        } else {
            seq![name]
        },
{
    law_separators_part(before, '/', after, Separator::Slash);
    lemma_kept_names_part(pieces(before, Separator::Slash), pieces(after, Separator::Slash));
    assert forall|i: int| 0 <= i < name.len() implies !crate::text::separates(
        Separator::Slash,
        #[trigger] name[i],
    ) by {
        assert(name.contains(name[i]));
    }
    law_no_separator_no_parting(name, Separator::Slash);
    reveal_with_fuel(kept_names, 2);
    assert(seq![name].drop_last() =~= Seq::<Seq<char>>::empty());
    assert(path_names(name) =~= if name.len() == 0 || name == "."@ {
        Seq::<Seq<char>>::empty()
    } else {
        seq![name]
    });
}

proof fn lemma_kept_names_part(a: Seq<Seq<char>>, b: Seq<Seq<char>>)
    ensures
        kept_names(a + b) == kept_names(a) + kept_names(b),
    decreases b.len(),
{
    if b.len() > 0 {
        lemma_kept_names_part(a, b.drop_last());
        assert((a + b).drop_last() =~= a + b.drop_last());
        assert(kept_names(a + b) =~= kept_names(a) + kept_names(b));
    } else {
        assert(a + b =~= a);
        assert(kept_names(a + b) =~= kept_names(a) + kept_names(b));
    }
}

proof fn lemma_plain_names_stay(names: Seq<Seq<char>>, floor: nat)
    requires
        !names.contains(".."@),
    ensures
        collapsed(names, floor) == Some(names),
    decreases names.len(),
{
    if names.len() > 0 {
        let rest = names.drop_last();
        assert(!rest.contains(".."@)) by {
            if rest.contains(".."@) {
                let i = choose|i: int| 0 <= i < rest.len() && rest[i] == ".."@;
                assert(names[i] == ".."@);
            }
        }
        lemma_plain_names_stay(rest, floor);
        assert(names[names.len() - 1] != ".."@) by {
            assert(names.contains(names[names.len() - 1]));
        }
        assert(rest.push(names.last()) =~= names);
    } else {
        assert(names =~= Seq::<Seq<char>>::empty());
    }
}

/// A relative path without a way back is resolved to the root's names followed
/// by its own; an absolute one to itself where it starts with the root's names,
/// and to nothing where it does not.
pub proof fn law_plain_paths_are_resolved_as_they_are(root: Seq<char>, input: Seq<char>)
    requires
        !path_names(root).contains(".."@),
        !path_names(input).contains(".."@),
    ensures
        !(input.len() > 0 && input[0] == '/') ==> resolved(root, input) == Some(
            "/"@ + joined(path_names(root) + path_names(input), "/"@),
        ),
        input.len() > 0 && input[0] == '/' ==> resolved(root, input) == if path_names(
            root,
        ).is_prefix_of(path_names(input)) {
            Some("/"@ + joined(path_names(input), "/"@))
        } else {
            None
        },
{
    let r = path_names(root);
    let n = path_names(input);
    reveal_strlit("/");
    if input.len() > 0 && input[0] == '/' {
        assert(input.subrange(0, 1) =~= "/"@);
        lemma_plain_names_stay(n, r.len());
        if r.is_prefix_of(n) {
            assert(n.take(r.len() as int) =~= r);
        }
        if names_start_with(n, r) {
            assert(r.is_prefix_of(n));
        }
    } else {
        if begins_with(input, "/"@) {
            assert(input.subrange(0, 1)[0] == input[0]);
        }
        assert(root + "/"@ + input =~= root.push('/') + input);
        law_slashes_part_names(root, input, Seq::<char>::empty());
        let all = r + n;
        assert(!all.contains(".."@)) by {
            if all.contains(".."@) {
                let i = choose|i: int| 0 <= i < all.len() && all[i] == ".."@;
                if i < r.len() {
                    assert(r.contains(r[i]));
                } else {
                    assert(n.contains(n[i - r.len()]));
                }
            }
        }
        lemma_plain_names_stay(all, r.len());
        assert(all.take(r.len() as int) =~= r);
    }
}

/// A way back takes back the name before it, as long as that is not one of the
/// root's; where it is, there is no result.
pub proof fn law_a_way_back_takes_one_name(root: Seq<char>, input: Seq<char>)
    requires
        !path_names(root).contains(".."@),
        !path_names(input).contains(".."@),
        input.len() > 0,
        input[0] != '/',
    ensures
        resolved(root, input + "/.."@) == if path_names(input).len() == 0 {
            None
        } else {
            Some("/"@ + joined(path_names(root) + path_names(input).drop_last(), "/"@))
        },
{
    let r = path_names(root);
    let n = path_names(input);
    let back = input + "/.."@;
    reveal_strlit("/");
    reveal_strlit("..");
    reveal_strlit(".");
    reveal_strlit("/..");
    assert(back[0] == input[0]);
    if begins_with(back, "/"@) {
        assert(back.subrange(0, 1)[0] == back[0]);
    }
    assert(back =~= input.push('/') + ".."@);
    assert(!".."@.contains('/'));
    law_slashes_part_names(input, ".."@, ".."@);
    assert(path_names(back) == n + seq![".."@]);
    let full = seen_from(root, back);
    assert(full =~= root.push('/') + back);
    law_slashes_part_names(root, back, Seq::<char>::empty());
    let names = path_names(full);
    let all = r + n;
    assert(!all.contains(".."@)) by {
        if all.contains(".."@) {
            let i = choose|i: int| 0 <= i < all.len() && all[i] == ".."@;
            if i < r.len() {
                assert(r.contains(r[i]));
            } else {
                assert(n.contains(n[i - r.len()]));
            }
        }
    }
    lemma_plain_names_stay(all, r.len());
    assert(names.drop_last() =~= all);
    assert(names.last() == ".."@);
    if n.len() > 0 {
        assert(all.drop_last() =~= r + n.drop_last());
        assert(all.drop_last().take(r.len() as int) =~= r);
    }
}

/// A call needs the scope of the directory it asks for, where it has a command,
/// that directory lies under the root, and the scope is well formed. In every
/// other case it needs the scope that nobody holds.
pub proof fn law_a_scope_is_for_the_directory(root: Seq<char>, input: JsonView, legal: bool)
    ensures
        shell_scope(root, input, legal) == match (
            command_of(input),
            resolved(root, requested_cwd(root, input)),
        ) {
            (Some(_), Some(path)) => if legal {
                "shell.exec:cwd:"@ + path
            } else {
                "shell.exec:cwd:/aivyx/__deny__/invalid-input"@
            },
            _ => "shell.exec:cwd:/aivyx/__deny__/invalid-input"@,
        },
{
}

/// A refusal names the word that stands for a protected location, and why it is
/// protected.
pub proof fn law_a_refusal_names_the_word(word: Seq<char>, reason: Seq<char>)
    ensures
        begins_with(
            protected_text(word, reason),
            "refusing to run this command — it references "@ + word + ", a protected location ("@
                + reason,
        ),
{
    let start = "refusing to run this command — it references "@ + word
        + ", a protected location ("@ + reason;
    assert(protected_text(word, reason).subrange(0, start.len() as int) =~= start);
}

/// A canonical path lies under the root where its names start with the root's.
pub proof fn law_what_lies_under_the_root(root: Seq<char>, path: Seq<char>)
    ensures
        lies_under(root, path) <==> path_names(root).is_prefix_of(path_names(path)),
{
    let r = path_names(root);
    let p = path_names(path);
    if r.is_prefix_of(p) {
        assert(p.take(r.len() as int) =~= r);
    }
}

/// The schema asks for a command and declares what else is read, each with its
/// type: the directory, the variables and the time limit, which lies between a
/// millisecond and ten minutes. Nothing else is allowed.
pub proof fn law_the_schema_declares_what_is_read()
    ensures
        ({
            &&& shell_schema().get_str("type"@) == Some("object"@)
            &&& shell_schema().get_bool("additionalProperties"@) == Some(false)
            &&& shell_schema().get_array("required"@) == Some(seq![JsonView::Str("cmd"@)])
            &&& shell_schema().get("properties"@) matches Some(p)
            &&& p.get("cmd"@) matches Some(c)
            &&& c.get_str("type"@) == Some("string"@)
            &&& p.get("args"@) matches Some(a)
            &&& a.get_str("type"@) == Some("object"@)
            &&& a.get_bool("additionalProperties"@) == Some(false)
            &&& a.get("properties"@) matches Some(q)
            &&& q.get("cwd"@) matches Some(d)
            &&& d.get_str("type"@) == Some("string"@)
            &&& q.get("env"@) matches Some(e)
            &&& e.get_str("type"@) == Some("object"@)
            &&& q.get("timeout_ms"@) matches Some(t)
            &&& t.get_str("type"@) == Some("integer"@)
            &&& t.get_u64("minimum"@) == Some(1u64)
            &&& t.get_u64("maximum"@) == Some(600_000u64)
        }),
{
    let m = shell_schema()->Object_0;
    reveal_strlit("additionalProperties");
    reveal_strlit("properties");
    reveal_strlit("required");
    reveal_strlit("type");
    assert("additionalProperties"@.len() != "properties"@.len());
    assert("additionalProperties"@.len() != "required"@.len());
    assert("additionalProperties"@.len() != "type"@.len());
    assert("properties"@.len() != "required"@.len());
    assert("properties"@.len() != "type"@.len());
    assert("required"@.len() != "type"@.len());
    assert(m[0].0 == "additionalProperties"@);
    assert(m[1].0 == "properties"@);
    assert(m[2].0 == "required"@);
    assert(m[3].0 == "type"@);
    law_a_member_is_found_by_its_name(m, 0);
    law_a_member_is_found_by_its_name(m, 1);
    law_a_member_is_found_by_its_name(m, 2);
    law_a_member_is_found_by_its_name(m, 3);
    assert(name_list(seq!["cmd"@]) =~= seq![JsonView::Str("cmd"@)]);
    let p = m[1].1->Object_0;
    reveal_strlit("args");
    reveal_strlit("cmd");
    assert("args"@.len() != "cmd"@.len());
    assert(p[0].0 == "args"@);
    assert(p[1].0 == "cmd"@);
    law_a_member_is_found_by_its_name(p, 0);
    law_a_member_is_found_by_its_name(p, 1);
    law_a_field_has_its_type(
        "string"@,
        "Shell command to execute, passed to `sh -c`. Non-empty required. The tool does not interpret pipes/redirects itself — `sh` handles that."@,
    );
    lemma_args_schema();
}

proof fn lemma_args_schema()
    ensures
        ({
            let a = args_schema();
            &&& a.get_str("type"@) == Some("object"@)
            &&& a.get_bool("additionalProperties"@) == Some(false)
            &&& a.get("properties"@) matches Some(q)
            &&& q.get("cwd"@) matches Some(d)
            &&& d.get_str("type"@) == Some("string"@)
            &&& q.get("env"@) matches Some(e)
            &&& e.get_str("type"@) == Some("object"@)
            &&& q.get("timeout_ms"@) matches Some(t)
            &&& t.get_str("type"@) == Some("integer"@)
            &&& t.get_u64("minimum"@) == Some(1u64)
            &&& t.get_u64("maximum"@) == Some(600_000u64)
        }),
{
    let m = args_schema()->Object_0;
    reveal_strlit("additionalProperties");
    reveal_strlit("properties");
    reveal_strlit("type");
    assert("additionalProperties"@.len() != "properties"@.len());
    assert("additionalProperties"@.len() != "type"@.len());
    assert("properties"@.len() != "type"@.len());
    assert(m[0].0 == "additionalProperties"@);
    assert(m[1].0 == "properties"@);
    assert(m[2].0 == "type"@);
    law_a_member_is_found_by_its_name(m, 0);
    law_a_member_is_found_by_its_name(m, 1);
    law_a_member_is_found_by_its_name(m, 2);
    let q = m[1].1->Object_0;
    reveal_strlit("cwd");
    reveal_strlit("env");
    reveal_strlit("timeout_ms");
    assert("cwd"@[0] != "env"@[0]);
    assert("cwd"@.len() != "timeout_ms"@.len());
    assert("env"@.len() != "timeout_ms"@.len());
    assert(q[0].0 == "cwd"@);
    assert(q[1].0 == "env"@);
    assert(q[2].0 == "timeout_ms"@);
    law_a_member_is_found_by_its_name(q, 0);
    law_a_member_is_found_by_its_name(q, 1);
    law_a_member_is_found_by_its_name(q, 2);
    law_a_field_has_its_type(
        "string"@,
        "Working directory for the command. Must resolve under the agent's shell.exec sandbox root. Default: the sandbox root itself."@,
    );
    let e = env_schema()->Object_0;
    reveal_strlit("additionalProperties");
    reveal_strlit("description");
    reveal_strlit("type");
    assert("additionalProperties"@.len() != "description"@.len());
    assert("additionalProperties"@.len() != "type"@.len());
    assert("description"@.len() != "type"@.len());
    assert(e[0].0 == "additionalProperties"@);
    assert(e[1].0 == "description"@);
    assert(e[2].0 == "type"@);
    law_a_member_is_found_by_its_name(e, 0);
    law_a_member_is_found_by_its_name(e, 1);
    law_a_member_is_found_by_its_name(e, 2);
    let t = timeout_schema()->Object_0;
    reveal_strlit("description");
    reveal_strlit("maximum");
    reveal_strlit("minimum");
    reveal_strlit("type");
    assert("description"@.len() != "maximum"@.len());
    assert("description"@.len() != "minimum"@.len());
    assert("description"@.len() != "type"@.len());
    assert("maximum"@[1] != "minimum"@[1]);
    assert("maximum"@.len() != "type"@.len());
    assert("minimum"@.len() != "type"@.len());
    assert(t[0].0 == "description"@);
    assert(t[1].0 == "maximum"@);
    assert(t[2].0 == "minimum"@);
    assert(t[3].0 == "type"@);
    law_a_member_is_found_by_its_name(t, 0);
    law_a_member_is_found_by_its_name(t, 1);
    law_a_member_is_found_by_its_name(t, 2);
    law_a_member_is_found_by_its_name(t, 3);
}

/// Each word of a command stands for one path, in the order of the words, and a
/// command names a protected location exactly where one of them is protected;
/// then there is a first.
pub proof fn law_a_protected_word_is_found(
    cmd: Seq<char>,
    home: Option<Seq<char>>,
    verdicts: Seq<Option<String>>,
)
    ensures
        command_paths(cmd, home).len() == command_words(cmd).len(),
        forall|i: int|
            0 <= i < command_words(cmd).len() ==> #[trigger] command_paths(cmd, home)[i]
                == with_home(command_words(cmd)[i], home),
        names_protected(verdicts) <==> !(forall|i: int|
            0 <= i < verdicts.len() ==> (#[trigger] verdicts[i]) is None),
        names_protected(verdicts) ==> exists|i: int| #[trigger] first_protected(verdicts, i),
{
    if names_protected(verdicts) {
        lemma_first_protected(verdicts, verdicts.len() as int);
    }
}

proof fn lemma_first_protected(verdicts: Seq<Option<String>>, n: int)
    requires
        0 <= n <= verdicts.len(),
        exists|i: int| 0 <= i < n && (#[trigger] verdicts[i]) is Some,
    ensures
        exists|i: int| #[trigger] first_protected(verdicts, i),
    decreases n,
{
    if exists|i: int| 0 <= i < n - 1 && (#[trigger] verdicts[i]) is Some {
        lemma_first_protected(verdicts, n - 1);
    } else {
        assert(verdicts[n - 1] is Some);
        assert(first_protected(verdicts, n - 1));
    }
}

/// A call that is made is the one that its input asks for: with its command, in
/// the directory it was resolved to, with the variables it declares and no
/// others, and within the time it asks for.
pub proof fn law_a_call_is_the_one_asked_for(input: JsonView, cwd: Seq<char>)
    requires
        command_of(input) is Some,
    ensures
        ({
            let c = call_asked_for(input, cwd);
            &&& input.get("cmd"@) == Some(JsonView::Str(c.cmd))
            &&& c.cwd == cwd
            &&& input.get("args"@) matches Some(args) ==> {
                &&& args.get_u64("timeout_ms"@) matches Some(n) ==> (1 <= n <= 600_000
                    ==> c.timeout_ms == n)
                &&& args.get_u64("timeout_ms"@) is None ==> c.timeout_ms == 30_000
                &&& args.get("env"@) matches Some(JsonView::Object(m)) ==> forall|i: int|
                    0 <= i < m.len() && (#[trigger] m[i]).1 is Str ==> c.env.contains(
                        (m[i].0, m[i].1->Str_0),
                    )
                &&& !(args.get("env"@) matches Some(JsonView::Object(_))) ==> c.env.len() == 0
            }
            &&& input.get("args"@) is None ==> c.timeout_ms == 30_000 && c.env.len() == 0
        }),
{
    if let Some(args) = input.get("args"@) {
        if let Some(JsonView::Object(m)) = args.get("env"@) {
            assert forall|i: int| 0 <= i < m.len() && (#[trigger] m[i]).1 is Str implies env_of(
                input,
            ).contains((m[i].0, m[i].1->Str_0)) by {
                lemma_string_entry(m, i);
            }
        }
    }
}

proof fn lemma_string_entry(m: Seq<(Seq<char>, JsonView)>, i: int)
    requires
        0 <= i < m.len(),
        m[i].1 is Str,
    ensures
        string_entries(m).contains((m[i].0, m[i].1->Str_0)),
    decreases m.len(),
{
    let all = string_entries(m);
    if i == m.len() - 1 {
        assert(all[all.len() - 1] == (m[i].0, m[i].1->Str_0));
    } else {
        let rest = m.drop_last();
        let some = string_entries(rest);
        lemma_string_entry(rest, i);
        assert(rest[i] == m[i]);
        let k = choose|k: int| 0 <= k < some.len() && some[k] == (m[i].0, m[i].1->Str_0);
        assert(all[k] == some[k]);
    }
}

/// A call is known by what it stands for.
pub proof fn law_shell_calls_are_told_apart(a: ShellRun, b: ShellRun)
    requires
        a@ == b@,
    ensures
        a.cmd@ == b.cmd@,
        a.timeout_ms == b.timeout_ms,
        a.cwd@ == b.cwd@,
        pairs(a.env@) == pairs(b.env@),
{
}

/// Names are gone through one by one: a name is added to those before it, and a
/// way back takes the last one away, unless no more than `floor` are left; then
/// there is no result, whatever follows.
pub proof fn law_names_are_gone_through_one_by_one(
    names: Seq<Seq<char>>,
    name: Seq<char>,
    floor: nat,
)
    ensures
        collapsed(Seq::empty(), floor) == Some(Seq::<Seq<char>>::empty()),
        collapsed(names.push(name), floor) == match collapsed(names, floor) {
            None => None,
            Some(stack) => if name != ".."@ {
                Some(stack.push(name))
            } else if stack.len() > floor {
                Some(stack.drop_last())
            } else {
                None
            },
        },
{
    assert(names.push(name).drop_last() =~= names);
}

/// A path is resolved by going through its names, an absolute one from the top
/// and a relative one from the root, no way back leading out of the root; and
/// what comes out must start with the root's names.
pub proof fn law_how_a_path_is_resolved(root: Seq<char>, input: Seq<char>)
    ensures
        ({
            let r = path_names(root);
            let names = if input.len() > 0 && input[0] == '/' {
                path_names(input)
            } else {
                r + path_names(input)
            };
            resolved(root, input) == match collapsed(names, r.len()) {
                Some(stack) => if r.is_prefix_of(stack) {
                    Some("/"@ + joined(stack, "/"@))
                } else {
                    None
                },
                None => None,
            }
        }),
{
    let r = path_names(root);
    reveal_strlit("/");
    if input.len() > 0 && input[0] == '/' {
        assert(input.subrange(0, 1) =~= "/"@);
    } else {
        if begins_with(input, "/"@) {
            assert(input.subrange(0, 1)[0] == input[0]);
        }
        assert(root + "/"@ + input =~= root.push('/') + input);
        law_slashes_part_names(root, input, Seq::<char>::empty());
    }
    if let Some(stack) = collapsed(path_names(seen_from(root, input)), r.len()) {
        if r.is_prefix_of(stack) {
            assert(stack.take(r.len() as int) =~= r);
        }
    }
}

} // verus!
