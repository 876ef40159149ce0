//! `git.status`, `git.diff` and `git.commit` on the repositories that the
//! operator allows.
//!
//! Paths are held as text, in the canonical form that the file system gives
//! them; looking a path up and running `git` is left to the caller.

use vstd::prelude::*;
use crate::json::{
    items_view,
    law_a_member_is_found_by_its_name,
    members_view,
    Json,
    JsonView,
};
use crate::outcome::{
    is_random_uuid,
    AivyxError,
    ErrorView,
    OutcomeView,
    ToolId,
    ToolOutcome,
    Verification,
};
use crate::planner::{text_of, Tool};
use crate::text::{
    begins_with,
    blank,
    byte_prefix,
    chars_before,
    chars_of,
    contains,
    debug_form,
    debug_text,
    decimal_text,
    is_blank,
    is_boundary,
    lemma_byte_prefix,
    lines,
    lines_of,
    occurs,
    path_form,
    path_text,
    push_decimal,
    same_text,
    split_point,
    starts_with,
    string_of,
    texts,
    trim,
    trimmed,
    utf8_len,
};
use crate::tools::command::{
    describe_exit,
    exit_detail,
    failure,
    no_args,
    push_arg,
    run_succeeded,
    tool_failed,
    tool_failed_with,
    CommandRun,
};
use crate::tools::schema::{
    field,
    field_schema,
    law_a_field_has_its_type,
    law_an_object_has_its_properties,
    name_list,
    object,
    object_schema,
};

verus! {

// ---------------------------------------------------------------------------
// The allowed repositories
// ---------------------------------------------------------------------------

/// What the file system says about a configured path.
#[derive(Debug, PartialEq, Eq)]
pub enum RepoProbe {
    /// It cannot be resolved, for the reason given.
    Unresolved(String),
    /// Its canonical form, whether that is a directory, and whether there is
    /// a `.git` in it.
    Resolved { canonical: String, is_dir: bool, has_git: bool },
}

/// Whether a configured path is a repository.
pub open spec fn is_repo(p: RepoProbe) -> bool {
    p matches RepoProbe::Resolved { is_dir, has_git, .. } && is_dir && has_git
}

/// The canonical form of a path that was resolved.
pub open spec fn canonical_of(p: RepoProbe) -> Seq<char> {
    match p {
        RepoProbe::Resolved { canonical, .. } => canonical@,
        RepoProbe::Unresolved(_) => Seq::empty(),
    }
}

/// The canonical forms of a sequence of paths.
pub open spec fn canonical_forms(probes: Seq<RepoProbe>) -> Seq<Seq<char>> {
    probes.map_values(|p: RepoProbe| canonical_of(p))
}

/// What is wrong with a configured path that is no repository.
pub open spec fn repo_complaint(label: Seq<char>, repo: Seq<char>, p: RepoProbe) -> Seq<char> {
    match p {
        RepoProbe::Unresolved(reason) => label + " allow-set entry "@ + path_form(repo)
            + " cannot be canonicalized: "@ + reason@,
        RepoProbe::Resolved { canonical, is_dir, has_git } => if !is_dir {
            label + " allow-set entry "@ + path_form(canonical@) + " is not a directory"@
        } else {
            label + " allow-set entry "@ + path_form(canonical@)
                + " is not a git repo (no .git/ entry)"@
        },
    }
}

/// The canonical forms of the configured paths, or the complaint about the
/// first that is no repository.
pub fn canonicalize_repo_allow_set(
    repos: &Vec<String>,
    probes: &Vec<RepoProbe>,
    label: &str,
) -> (r: Result<Vec<String>, AivyxError>)
    requires
        repos@.len() == probes@.len(),
    ensures
        match r {
            Ok(v) => (forall|i: int| 0 <= i < probes@.len() ==> is_repo(#[trigger] probes@[i]))
                && texts(v@) == canonical_forms(probes@),
            Err(e) => exists|i: int|
                {
                    &&& 0 <= i < probes@.len()
                    &&& !is_repo(#[trigger] probes@[i])
                    &&& forall|j: int| 0 <= j < i ==> is_repo(#[trigger] probes@[j])
                    &&& e@ == ErrorView::Config(repo_complaint(label@, repos@[i]@, probes@[i]))
                },
        },
{
    let mut out: Vec<String> = Vec::new();
    let mut i: usize = 0;
    while i < probes.len()
        invariant
            i <= probes@.len(),
            repos@.len() == probes@.len(),
            forall|j: int| 0 <= j < i ==> is_repo(#[trigger] probes@[j]),
            texts(out@) == canonical_forms(probes@).take(i as int),
        decreases probes@.len() - i,
    {
        match &probes[i] {
            RepoProbe::Unresolved(reason) => {
                let mut msg: String = label.to_owned();
                msg.push_str(" allow-set entry ");
                let form: String = path_text(repos[i].as_str());
                msg.push_str(form.as_str());
                msg.push_str(" cannot be canonicalized: ");
                msg.push_str(reason.as_str());
                assert(!is_repo(probes@[i as int]));
                return Err(AivyxError::Config(msg));
            },
            RepoProbe::Resolved { canonical, is_dir, has_git } => {
                if !*is_dir {
                    let mut msg: String = label.to_owned();
                    msg.push_str(" allow-set entry ");
                    let form: String = path_text(canonical.as_str());
                    msg.push_str(form.as_str());
                    msg.push_str(" is not a directory");
                    assert(!is_repo(probes@[i as int]));
                    return Err(AivyxError::Config(msg));
                }
                if !*has_git {
                    let mut msg: String = label.to_owned();
                    msg.push_str(" allow-set entry ");
                    let form: String = path_text(canonical.as_str());
                    msg.push_str(form.as_str());
                    msg.push_str(" is not a git repo (no .git/ entry)");
                    assert(!is_repo(probes@[i as int]));
                    return Err(AivyxError::Config(msg));
                }
                let ghost before = out@;
                out.push(canonical.clone());
                assert(texts(out@) =~= texts(before).push(canonical@));
                assert(canonical_forms(probes@).take(i + 1) =~= canonical_forms(probes@).take(
                    i as int,
                ).push(canonical@));
            },
        }
        i = i + 1;
    }
    assert(canonical_forms(probes@).take(i as int) =~= canonical_forms(probes@));
    Ok(out)
}

/// Whether a text is among the given ones.
pub fn is_among(text: &str, all: &Vec<String>) -> (r: bool)
    ensures
        r == texts(all@).contains(text@),
{
    let mut i: usize = 0;
    while i < all.len()
        invariant
            i <= all@.len(),
            forall|j: int| 0 <= j < i ==> #[trigger] texts(all@)[j] != text@,
        decreases all@.len() - i,
    {
        if same_text(all[i].as_str(), text) {
            assert(texts(all@)[i as int] == text@);
            return true;
        }
        i = i + 1;
    }
    false
}

/// The repository that an input names: its `repo` field must be a string, the
/// path must have a canonical form, and that form must be an allowed one.
pub open spec fn resolved_repo(
    input: JsonView,
    canonical: Option<Seq<char>>,
    repos: Seq<Seq<char>>,
) -> Option<Seq<char>> {
    if input.get_str("repo"@) is Some && canonical is Some && repos.contains(canonical->0) {
        canonical
    } else {
        None
    }
}

/// The repository that an input names, where `canonical` is the canonical
/// form of its `repo` field, if the file system has one.
pub fn resolve_repo(input: &Json, canonical: &Option<String>, repos: &Vec<String>) -> (r: Option<
    String,
>)
    ensures
        text_of(r) == resolved_repo(input@, text_of(*canonical), texts(repos@)),
{
    if input.get_str("repo").is_none() {
        return None;
    }
    match canonical {
        Some(c) => if is_among(c.as_str(), repos) {
            Some(c.clone())
        } else {
            None
        },
        None => None,
    }
}

/// Remembers which repositories a warning was given for.
pub struct WarnedRepos {
    seen: Vec<String>,
}

impl View for WarnedRepos {
    type V = Seq<Seq<char>>;

    closed spec fn view(&self) -> Seq<Seq<char>> {
        texts(self.seen@)
    }
}

impl WarnedRepos {
    /// No warning was given yet.
    pub fn new() -> (r: WarnedRepos)
        ensures
            r@ == Seq::<Seq<char>>::empty(),
    {
        let r: WarnedRepos = WarnedRepos { seen: Vec::new() };
        assert(r@ =~= Seq::empty());
        r
    }

    /// Whether a warning about `repo` is due: it is once.
    pub fn should_warn_once(&mut self, repo: &str) -> (r: bool)
        ensures
            r == !old(self)@.contains(repo@),
            final(self)@ == if r {
                old(self)@.push(repo@)
            } else {
                old(self)@
            },
    {
        if is_among(repo, &self.seen) {
            return false;
        }
        self.seen.push(repo.to_owned());
        assert(self@ =~= old(self)@.push(repo@));
        true
    }
}

/// A warning that was due is not due again.
pub proof fn law_warning_is_due_once(seen: Seq<Seq<char>>, repo: Seq<char>)
    ensures
        seen.push(repo).contains(repo),
{
    assert(seen.push(repo)[seen.len() as int] == repo);
}

/// Whether `git` may run confined to the repository: not where its `.git` is
/// a file, for then what `git` needs lies elsewhere.
pub fn may_confine(git_is_file: bool) -> (r: bool)
    ensures
        r == !git_is_file,
{
    !git_is_file
}

// ---------------------------------------------------------------------------
// Scopes
// ---------------------------------------------------------------------------

/// The scope that no role holds, for reading.
pub const READ_DENY_SCOPE: &'static str = "git.read:/__aivyx_unresolvable__";

/// The scope that no role holds, for writing.
pub const WRITE_DENY_SCOPE: &'static str = "git.write:/__aivyx_unresolvable__";

/// The scope that no role holds, for reading.
pub fn deny_scope() -> (r: String)
    ensures
        r@ == READ_DENY_SCOPE@,
{
    READ_DENY_SCOPE.to_owned()
}

/// The scope that no role holds, for writing.
pub fn write_deny_scope() -> (r: String)
    ensures
        r@ == WRITE_DENY_SCOPE@,
{
    WRITE_DENY_SCOPE.to_owned()
}

/// The scope for a repository, where there is one and the scope is legal.
pub open spec fn scope_for(
    base: Seq<char>,
    repo: Option<Seq<char>>,
    legal: bool,
    denied: Seq<char>,
) -> Seq<char> {
    match repo {
        Some(p) => if legal {
            base + p
        } else {
            denied
        },
        None => denied,
    }
}

fn required_scope(base: &str, repo: Option<String>, legal: bool, denied: &str) -> (r: String)
    ensures
        r@ == scope_for(base@, text_of(repo), legal, denied@),
{
    match repo {
        Some(p) => if legal {
            let mut scope: String = base.to_owned();
            scope.push_str(p.as_str());
            scope
        } else {
            denied.to_owned()
        },
        None => denied.to_owned(),
    }
}

/// A read grant never covers a write: the two scopes that nobody holds differ
/// in their base.
pub proof fn law_deny_scopes_differ()
    ensures
        READ_DENY_SCOPE@ != WRITE_DENY_SCOPE@,
        begins_with(READ_DENY_SCOPE@, "git.read:"@),
        begins_with(WRITE_DENY_SCOPE@, "git.write:"@),
{
    reveal_strlit("git.read:/__aivyx_unresolvable__");
    reveal_strlit("git.write:/__aivyx_unresolvable__");
    reveal_strlit("git.read:");
    reveal_strlit("git.write:");
    assert(READ_DENY_SCOPE@.len() != WRITE_DENY_SCOPE@.len());
    assert(READ_DENY_SCOPE@.subrange(0, 9) =~= "git.read:"@);
    assert(WRITE_DENY_SCOPE@.subrange(0, 10) =~= "git.write:"@);
}

// ---------------------------------------------------------------------------
// Schemas
// ---------------------------------------------------------------------------

/// The schema of the field that names the repository.
pub open spec fn repo_field() -> (Seq<char>, JsonView) {
    ("repo"@, field_schema("string"@, "Path to a configured allowed git repo."@))
}

/// The schema of `git.status`.
pub open spec fn status_schema() -> JsonView {
    object_schema(seq![repo_field()], seq!["repo"@])
}

/// The schema of `git.diff`.
pub open spec fn diff_schema() -> JsonView {
    object_schema(
        seq![
            (
                "cached"@,
                field_schema(
                    "boolean"@,
                    "When true, show the staged diff (`git diff --cached`). Default false."@,
                ),
            ),
            (
                "path"@,
                field_schema(
                    "string"@,
                    "Optional repo-relative path to scope the diff to one file or directory. Must not start with `/` and must not contain `..`."@,
                ),
            ),
            repo_field(),
        ],
        seq!["repo"@],
    )
}

/// The schema of the paths that `git.commit` stages.
pub open spec fn paths_schema() -> JsonView {
    JsonView::Object(
        seq![
            (
                "description"@,
                JsonView::Str(
                    "Repo-relative file paths to stage and commit. Each must not start with `/` and must not contain `..`."@,
                ),
            ),
            ("items"@, JsonView::Object(seq![("type"@, JsonView::Str("string"@))])),
            ("minItems"@, JsonView::Unsigned(1)),
            ("type"@, JsonView::Str("array"@)),
        ],
    )
}

/// The schema of `git.commit`.
pub open spec fn commit_schema() -> JsonView {
    object_schema(
        seq![
            (
                "confirmed"@,
                field_schema(
                    "boolean"@,
                    "Set to `true` ONLY after the operator has approved this specific commit. Required when the operator has enabled confirm-first for destructive operations."@,
                ),
            ),
            ("message"@, field_schema("string"@, "Commit message. Must be non-empty."@)),
            ("paths"@, paths_schema()),
            repo_field(),
        ],
        seq!["repo"@, "message"@, "paths"@],
    )
}

fn push_repo_field(m: &mut Vec<(String, Json)>)
    ensures
        members_view(final(m)@) == members_view(old(m)@).push(repo_field()),
{
    Json::push_member(m, "repo", field("string", "Path to a configured allowed git repo."));
}

/// The schema of `git.status`.
pub fn status_input_schema() -> (r: Json)
    ensures
        r@ == status_schema(),
{
    let mut m: Vec<(String, Json)> = Json::no_members();
    push_repo_field(&mut m);
    let mut required: Vec<Json> = Vec::new();
    Json::push_item(&mut required, Json::string("repo"));
    assert(members_view(m@) =~= seq![repo_field()]);
    assert(items_view(required@) =~= name_list(seq!["repo"@]));
    object(m, required)
}

/// The schema of `git.diff`.
pub fn diff_input_schema() -> (r: Json)
    ensures
        r@ == diff_schema(),
{
    let mut m: Vec<(String, Json)> = Json::no_members();
    Json::push_member(
        &mut m,
        "cached",
        field("boolean", "When true, show the staged diff (`git diff --cached`). Default false."),
    );
    Json::push_member(
        &mut m,
        "path",
        field(
            "string",
            "Optional repo-relative path to scope the diff to one file or directory. Must not start with `/` and must not contain `..`.",
        ),
    );
    push_repo_field(&mut m);
    let mut required: Vec<Json> = Vec::new();
    Json::push_item(&mut required, Json::string("repo"));
    assert(items_view(required@) =~= name_list(seq!["repo"@]));
    let r: Json = object(m, required);
    assert(r@->Object_0[0].1->Object_0 =~= diff_schema()->Object_0[0].1->Object_0);
    r
}

fn paths_field() -> (r: Json)
    ensures
        r@ == paths_schema(),
{
    let mut item: Vec<(String, Json)> = Json::no_members();
    Json::push_member(&mut item, "type", Json::string("string"));
    let items: Json = Json::Object(item);
    assert(members_view(item@) =~= seq![("type"@, JsonView::Str("string"@))]);
    let mut m: Vec<(String, Json)> = Json::no_members();
    Json::push_member(
        &mut m,
        "description",
        Json::string(
            "Repo-relative file paths to stage and commit. Each must not start with `/` and must not contain `..`.",
        ),
    );
    Json::push_member(&mut m, "items", items);
    Json::push_member(&mut m, "minItems", Json::Unsigned(1));
    Json::push_member(&mut m, "type", Json::string("array"));
    let r: Json = Json::Object(m);
    assert(r@->Object_0 =~= paths_schema()->Object_0);
    r
}

/// The schema of `git.commit`.
pub fn commit_input_schema() -> (r: Json)
    ensures
        r@ == commit_schema(),
{
    let mut m: Vec<(String, Json)> = Json::no_members();
    Json::push_member(
        &mut m,
        "confirmed",
        field(
            "boolean",
            "Set to `true` ONLY after the operator has approved this specific commit. Required when the operator has enabled confirm-first for destructive operations.",
        ),
    );
    Json::push_member(&mut m, "message", field("string", "Commit message. Must be non-empty."));
    Json::push_member(&mut m, "paths", paths_field());
    push_repo_field(&mut m);
    let mut required: Vec<Json> = Vec::new();
    Json::push_item(&mut required, Json::string("repo"));
    Json::push_item(&mut required, Json::string("message"));
    Json::push_item(&mut required, Json::string("paths"));
    assert(items_view(required@) =~= name_list(seq!["repo"@, "message"@, "paths"@]));
    let r: Json = object(m, required);
    assert(r@->Object_0[0].1->Object_0 =~= commit_schema()->Object_0[0].1->Object_0);
    r
}

// ---------------------------------------------------------------------------
// Configuration
// ---------------------------------------------------------------------------

/// What the two reading tools are made from.
#[derive(Debug)]
pub struct GitReadToolConfig {
    repos: Vec<String>,
    require_enforcement: bool,
}

/// What a [`GitReadToolConfig`] stands for.
pub ghost struct ReadConfigView {
    pub repos: Seq<Seq<char>>,
    pub require_enforcement: bool,
}

impl View for GitReadToolConfig {
    type V = ReadConfigView;

    closed spec fn view(&self) -> ReadConfigView {
        ReadConfigView {
            repos: texts(self.repos@),
            require_enforcement: self.require_enforcement,
        }
    }
}

/// What a tool that reads repositories is: its id, the canonical forms of the
/// repositories it may touch, and whether it may only run confined.
pub ghost struct GitToolView {
    pub id: ToolId,
    pub repos: Seq<Seq<char>>,
    pub require_enforcement: bool,
}

/// A tool that reads, as it is made from its configuration.
pub open spec fn read_tool(config: ReadConfigView, probes: Seq<RepoProbe>, id: ToolId) -> GitToolView {
    GitToolView {
        id,
        repos: canonical_forms(probes),
        require_enforcement: config.require_enforcement,
    }
}

impl GitReadToolConfig {
    /// The operator's repositories, with confinement required.
    pub fn new(repos: Vec<String>) -> (r: GitReadToolConfig)
        ensures
            r@ == (ReadConfigView { repos: texts(repos@), require_enforcement: true }),
    {
        GitReadToolConfig { repos, require_enforcement: true }
    }

    /// Whether the tools may only run confined.
    pub fn with_require_enforcement(self, require_enforcement: bool) -> (r: GitReadToolConfig)
        ensures
            r@ == (ReadConfigView { require_enforcement, ..self@ }),
    {
        GitReadToolConfig { repos: self.repos, require_enforcement }
    }

    /// The two tools, given what the file system says about each of the
    /// configured paths.
    pub fn build(self, probes: &Vec<RepoProbe>) -> (r: Result<
        (GitStatusTool, GitDiffTool),
        AivyxError,
    >)
        requires
            self@.repos.len() == probes@.len(),
        ensures
            match r {
                Ok((status, diff)) => {
                    &&& forall|i: int| 0 <= i < probes@.len() ==> is_repo(#[trigger] probes@[i])
                    &&& is_random_uuid(status@.id.0)
                    &&& status@.repos == canonical_forms(probes@)
                    &&& status@.require_enforcement == self@.require_enforcement
                    &&& is_random_uuid(diff@.id.0)
                    &&& diff@.repos == canonical_forms(probes@)
                    &&& diff@.require_enforcement == self@.require_enforcement
                    &&& status@ == read_tool(self@, probes@, status@.id)
                    &&& diff@ == read_tool(self@, probes@, diff@.id)
                },
                Err(e) => exists|i: int|
                    {
                        &&& 0 <= i < probes@.len()
                        &&& !is_repo(#[trigger] probes@[i])
                        &&& forall|j: int| 0 <= j < i ==> is_repo(#[trigger] probes@[j])
                        &&& e@ == ErrorView::Config(
                            repo_complaint("git.read"@, self@.repos[i], probes@[i]),
                        )
                    },
            },
    {
        match canonicalize_repo_allow_set(&self.repos, probes, "git.read") {
            Err(e) => Err(e),
            Ok(repos) => {
                let again: Vec<String> = copy_texts(&repos);
                Ok(
                    (
                        GitStatusTool {
                            id: ToolId::new(),
                            repos,
                            require_enforcement: self.require_enforcement,
                        },
                        GitDiffTool {
                            id: ToolId::new(),
                            repos: again,
                            require_enforcement: self.require_enforcement,
                        },
                    ),
                )
            },
        }
    }
}

/// The same texts once more.
pub fn copy_texts(v: &Vec<String>) -> (r: Vec<String>)
    ensures
        texts(r@) == texts(v@),
{
    let mut out: Vec<String> = Vec::new();
    let mut i: usize = 0;
    while i < v.len()
        invariant
            i <= v@.len(),
            texts(out@) == texts(v@).take(i as int),
        decreases v@.len() - i,
    {
        let ghost before = out@;
        out.push(v[i].clone());
        assert(texts(out@) =~= texts(before).push(v@[i as int]@));
        assert(texts(v@).take(i + 1) =~= texts(v@).take(i as int).push(v@[i as int]@));
        i = i + 1;
    }
    assert(texts(v@).take(i as int) =~= texts(v@));
    out
}

/// What the committing tool is made from.
#[derive(Debug)]
pub struct GitWriteToolConfig {
    repos: Vec<String>,
    confirm_destructive: bool,
    require_enforcement: bool,
    checkpointers: Vec<String>,
}

/// What a [`GitWriteToolConfig`] stands for.
pub ghost struct WriteConfigView {
    pub repos: Seq<Seq<char>>,
    pub confirm_destructive: bool,
    pub require_enforcement: bool,
    pub checkpointers: Seq<Seq<char>>,
}

impl View for GitWriteToolConfig {
    type V = WriteConfigView;

    closed spec fn view(&self) -> WriteConfigView {
        WriteConfigView {
            repos: texts(self.repos@),
            confirm_destructive: self.confirm_destructive,
            require_enforcement: self.require_enforcement,
            checkpointers: texts(self.checkpointers@),
        }
    }
}

impl GitWriteToolConfig {
    /// The operator's repositories, with confinement required, no
    /// confirmation asked for and no checkpoints taken.
    pub fn new(repos: Vec<String>) -> (r: GitWriteToolConfig)
        ensures
            r@ == (WriteConfigView {
                repos: texts(repos@),
                confirm_destructive: false,
                require_enforcement: true,
                checkpointers: Seq::empty(),
            }),
    {
        let r: GitWriteToolConfig = GitWriteToolConfig {
            repos,
            confirm_destructive: false,
            require_enforcement: true,
            checkpointers: Vec::new(),
        };
        assert(r@.checkpointers =~= Seq::empty());
        r
    }

    /// Whether a commit must be confirmed.
    pub fn with_confirm_destructive(self, confirm: bool) -> (r: GitWriteToolConfig)
        ensures
            r@ == (WriteConfigView { confirm_destructive: confirm, ..self@ }),
    {
        GitWriteToolConfig { confirm_destructive: confirm, ..self }
    }

    /// Whether the tool may only run confined.
    pub fn with_require_enforcement(self, require_enforcement: bool) -> (r: GitWriteToolConfig)
        ensures
            r@ == (WriteConfigView { require_enforcement, ..self@ }),
    {
        GitWriteToolConfig { require_enforcement, ..self }
    }

    /// The repositories, by their canonical forms, of which a checkpoint is
    /// taken before each commit.
    pub fn with_checkpointers(self, checkpointers: Vec<String>) -> (r: GitWriteToolConfig)
        ensures
            r@ == (WriteConfigView { checkpointers: texts(checkpointers@), ..self@ }),
    {
        GitWriteToolConfig { checkpointers, ..self }
    }

    /// The tool, given what the file system says about each of the configured
    /// paths.
    pub fn build(self, probes: &Vec<RepoProbe>) -> (r: Result<GitCommitTool, AivyxError>)
        requires
            self@.repos.len() == probes@.len(),
        ensures
            match r {
                Ok(tool) => {
                    &&& forall|i: int| 0 <= i < probes@.len() ==> is_repo(#[trigger] probes@[i])
                    &&& is_random_uuid(tool@.id.0)
                    &&& tool@.repos == canonical_forms(probes@)
                    &&& tool@.confirm_destructive == self@.confirm_destructive
                    &&& tool@.require_enforcement == self@.require_enforcement
                    &&& tool@.checkpointers == self@.checkpointers
                    &&& tool@ == write_tool(self@, probes@, tool@.id)
                },
                Err(e) => exists|i: int|
                    {
                        &&& 0 <= i < probes@.len()
                        &&& !is_repo(#[trigger] probes@[i])
                        &&& forall|j: int| 0 <= j < i ==> is_repo(#[trigger] probes@[j])
                        &&& e@ == ErrorView::Config(
                            repo_complaint("git.write"@, self@.repos[i], probes@[i]),
                        )
                    },
            },
    {
        match canonicalize_repo_allow_set(&self.repos, probes, "git.write") {
            Err(e) => Err(e),
            Ok(repos) => Ok(
                GitCommitTool {
                    id: ToolId::new(),
                    repos,
                    confirm_destructive: self.confirm_destructive,
                    require_enforcement: self.require_enforcement,
                    checkpointers: self.checkpointers,
                },
            ),
        }
    }
}

/// A `git` command: the repository it runs in, and its arguments.
#[derive(Debug, PartialEq, Eq)]
pub struct GitCommand {
    pub repo: String,
    pub args: Vec<String>,
}

// ---------------------------------------------------------------------------
// git.status
// ---------------------------------------------------------------------------

/// Lists what differs in a repository.
#[derive(Debug)]
pub struct GitStatusTool {
    id: ToolId,
    repos: Vec<String>,
    require_enforcement: bool,
}

impl View for GitStatusTool {
    type V = GitToolView;

    closed spec fn view(&self) -> GitToolView {
        GitToolView {
            id: self.id,
            repos: texts(self.repos@),
            require_enforcement: self.require_enforcement,
        }
    }
}

/// Whether a line can be taken apart: where it has four bytes or more, its
/// status code and its path must begin and end between characters.
pub open spec fn line_is_sound(line: Seq<char>) -> bool {
    utf8_len(line) >= 4 ==> is_boundary(line, 2) && is_boundary(line, 3)
}

/// Whether every line of the output can be taken apart.
pub open spec fn porcelain_is_sound(stdout: Seq<char>) -> bool {
    forall|i: int| 0 <= i < lines_of(stdout).len() ==> line_is_sound(#[trigger] lines_of(stdout)[i])
}

/// A line as an entry: a code of two bytes, one byte between, and the path.
pub open spec fn status_entry(line: Seq<char>) -> JsonView {
    JsonView::Object(
        seq![
            ("path"@, JsonView::Str(line.skip(chars_before(line, 3) as int))),
            ("status_code"@, JsonView::Str(line.take(chars_before(line, 2) as int))),
        ],
    )
}

/// The entries of the lines that are long enough to hold one.
pub open spec fn status_entries(lines: Seq<Seq<char>>) -> Seq<JsonView>
    decreases lines.len(),
{
    if lines.len() == 0 {
        Seq::empty()
    } else {
        let rest = status_entries(lines.drop_last());
        if utf8_len(lines.last()) < 4 {
            rest
        } else {
            rest.push(status_entry(lines.last()))
        }
    }
}

fn has_four_bytes(line: &str) -> (r: bool)
    ensures
        r == (utf8_len(line@) >= 4),
{
    let v: Vec<char> = chars_of(line);
    let shown: String = crate::text::truncate(line, 3);
    let w: Vec<char> = chars_of(shown.as_str());
    proof {
        crate::text::lemma_byte_prefix(line@, 3);
        if utf8_len(line@) > 3 {
            crate::text::lemma_byte_prefix(line@.drop_last(), 3);
        }
    }
    w.len() < v.len()
}

/// Whether every line of the output can be taken apart.
pub fn is_porcelain(stdout: &str) -> (r: bool)
    ensures
        r == porcelain_is_sound(stdout@),
{
    let all: Vec<String> = lines(stdout);
    let ghost t = lines_of(stdout@);
    let mut i: usize = 0;
    while i < all.len()
        invariant
            i <= all@.len(),
            texts(all@) == t,
            t == lines_of(stdout@),
            forall|j: int| 0 <= j < i ==> line_is_sound(#[trigger] t[j]),
        decreases all@.len() - i,
    {
        assert(t[i as int] == all@[i as int]@);
        let line: &str = all[i].as_str();
        if has_four_bytes(line) && (split_point(line, 2).is_none() || split_point(
            line,
            3,
        ).is_none()) {
            assert(!line_is_sound(t[i as int]));
            return false;
        }
        i = i + 1;
    }
    true
}

/// The entries of what `git status --porcelain` prints.
pub fn parse_porcelain(stdout: &str) -> (r: Vec<Json>)
    requires
        porcelain_is_sound(stdout@),
    ensures
        items_view(r@) == status_entries(lines_of(stdout@)),
{
    let all: Vec<String> = lines(stdout);
    let ghost t = lines_of(stdout@);
    let mut out: Vec<Json> = Vec::new();
    let mut i: usize = 0;
    while i < all.len()
        invariant
            i <= all@.len(),
            texts(all@) == t,
            t == lines_of(stdout@),
            porcelain_is_sound(stdout@),
            items_view(out@) == status_entries(t.take(i as int)),
        decreases all@.len() - i,
    {
        assert(t[i as int] == all@[i as int]@);
        assert(line_is_sound(t[i as int]));
        assert(t.take(i + 1).drop_last() =~= t.take(i as int));
        let line: &str = all[i].as_str();
        if has_four_bytes(line) {
            let v: Vec<char> = chars_of(line);
            match (split_point(line, 2), split_point(line, 3)) {
                (Some(code_end), Some(path_start)) => {
                    let code: String = string_of(&v, 0, code_end);
                    let path: String = string_of(&v, path_start, v.len());
                    assert(code@ =~= line@.take(code_end as int));
                    assert(path@ =~= line@.skip(path_start as int));
                    let mut m: Vec<(String, Json)> = Json::no_members();
                    Json::push_member(&mut m, "path", Json::Str(path));
                    Json::push_member(&mut m, "status_code", Json::Str(code));
                    assert(members_view(m@) =~= status_entry(line@)->Object_0);
                    Json::push_item(&mut out, Json::Object(m));
                },
                _ => {},
            }
        }
        i = i + 1;
    }
    assert(t.take(i as int) =~= t);
    out
}

/// What `git.status` answers, given how its command ended.
pub open spec fn status_outcome(id: ToolId, repo: Seq<char>, run: CommandRun) -> OutcomeView {
    match run {
        CommandRun::SpawnFailed(e) => failure(id, "git.status: spawn failed: "@ + e@),
        CommandRun::Exited { code, stdout, stderr } => if code == Some(0i32) {
            OutcomeView::Completed {
                output: JsonView::Object(
                    seq![
                        ("entries"@, JsonView::Array(status_entries(lines_of(stdout@)))),
                        ("repo"@, JsonView::Str(repo)),
                    ],
                ),
                verified: Verification::Verified,
            }
        } else {
            failure(id, exit_detail("git.status:"@, code, trimmed(stderr@)))
        },
    }
}

/// The arguments of the command for a status.
pub open spec fn status_args(repo: Seq<char>) -> Seq<Seq<char>> {
    seq!["-C"@, repo, "status"@, "--porcelain"@, "--untracked-files=all"@]
}

fn spawn_failed(id: ToolId, head: &str, error: &str) -> (r: ToolOutcome)
    ensures
        r@ == failure(id, head@ + error@),
{
    let mut detail: String = head.to_owned();
    detail.push_str(error);
    tool_failed(id, detail)
}

fn exit_failed(id: ToolId, head: &str, code: Option<i32>, said: &str) -> (r: ToolOutcome)
    ensures
        r@ == failure(id, exit_detail(head@, code, trimmed(said@))),
{
    let said: String = trim(said);
    tool_failed(id, describe_exit(head, code, said.as_str()))
}

/// What the model is told of `git.status`.
pub const STATUS_DESCRIPTION: &'static str =
    "Run `git status --porcelain` against a configured repo path. Input is a JSON object with a `repo` field naming one of the operator's allowed git repos (canonical path match). Returns a JSON object with an `entries` array — each entry has `status_code` (the two-char porcelain code) and `path`.";

impl GitStatusTool {
    pub fn id(&self) -> (r: ToolId)
        ensures
            r == self@.id,
    {
        self.id
    }

    /// The canonical forms of the repositories it may touch.
    pub fn repos(&self) -> (r: &Vec<String>)
        ensures
            texts(r@) == self@.repos,
    {
        &self.repos
    }

    /// Whether it may only run confined.
    pub fn require_enforcement(&self) -> (r: bool)
        ensures
            r == self@.require_enforcement,
    {
        self.require_enforcement
    }

    pub fn name(&self) -> (r: &'static str)
        ensures
            r@ == "git.status"@,
    {
        "git.status"
    }

    /// What the model is told of the tool.
    pub fn description(&self) -> (r: &'static str)
        ensures
            r@ == STATUS_DESCRIPTION@,
    {
        STATUS_DESCRIPTION
    }

    /// The tool as it is registered.
    pub fn to_tool(&self) -> (r: Tool)
        ensures
            r.id == self@.id,
            r.name@ == "git.status"@,
            r.description@ == STATUS_DESCRIPTION@,
            r.input_schema@ == status_schema(),
    {
        Tool {
            id: self.id,
            name: self.name().to_owned(),
            description: self.description().to_owned(),
            input_schema: status_input_schema(),
        }
    }

    /// File names come from whoever wrote the branch.
    pub fn output_is_untrusted(&self) -> (r: bool)
        ensures
            r,
    {
        true
    }

    /// The scope that a call with this input needs. `canonical` is the
    /// canonical form of its `repo` field, and `legal` says whether the scope
    /// for it is well formed.
    pub fn required_scope(&self, input: &Json, canonical: &Option<String>, legal: bool) -> (r:
        String)
        ensures
            r@ == scope_for(
                "git.read:"@,
                resolved_repo(input@, text_of(*canonical), self@.repos),
                legal,
                READ_DENY_SCOPE@,
            ),
    {
        required_scope(
            "git.read:",
            resolve_repo(input, canonical, &self.repos),
            legal,
            READ_DENY_SCOPE,
        )
    }

    /// The command to run, or why there is none.
    pub fn command(&self, input: &Json, canonical: &Option<String>) -> (r: Result<
        GitCommand,
        ToolOutcome,
    >)
        ensures
            match resolved_repo(input@, text_of(*canonical), self@.repos) {
                None => r matches Err(o) && o@ == failure(
                    self@.id,
                    "git.status: `repo` field missing or not in allow-set"@,
                ),
                Some(p) => r matches Ok(c) && c.repo@ == p && texts(c.args@) == seq![
                    "-C"@,
                    p,
                    "status"@,
                    "--porcelain"@,
                    "--untracked-files=all"@,
                ] && texts(c.args@) == status_args(p),
            },
    {
        match resolve_repo(input, canonical, &self.repos) {
            None => Err(
                tool_failed_with(
                    self.id,
                    "git.status: `repo` field missing or not in allow-set",
                ),
            ),
            Some(repo) => {
                let mut args: Vec<String> = no_args();
                push_arg(&mut args, "-C");
                push_arg(&mut args, repo.as_str());
                push_arg(&mut args, "status");
                push_arg(&mut args, "--porcelain");
                push_arg(&mut args, "--untracked-files=all");
                assert(texts(args@) =~= seq![
                    "-C"@,
                    repo@,
                    "status"@,
                    "--porcelain"@,
                    "--untracked-files=all"@,
                ]);
                Ok(GitCommand { repo, args })
            },
        }
    }

    /// The answer, once the command has run in `repo`.
    pub fn finish(&self, repo: &str, run: &CommandRun) -> (r: ToolOutcome)
        requires
            run matches CommandRun::Exited { code, stdout, .. } ==> (code == Some(0i32)
                ==> porcelain_is_sound(stdout@)),
        ensures
            r@ == status_outcome(self@.id, repo@, *run),
    {
        match run {
            CommandRun::SpawnFailed(e) => spawn_failed(
                self.id,
                "git.status: spawn failed: ",
                e.as_str(),
            ),
            CommandRun::Exited { code, stdout, stderr } => {
                let ok: bool = match code {
                    Some(n) => *n == 0,
                    None => false,
                };
                if !ok {
                    return exit_failed(self.id, "git.status:", *code, stderr.as_str());
                }
                let entries: Json = Json::Array(parse_porcelain(stdout.as_str()));
                let mut m: Vec<(String, Json)> = Json::no_members();
                Json::push_member(&mut m, "entries", entries);
                Json::push_member(&mut m, "repo", Json::string(repo));
                assert(members_view(m@) =~= seq![
                    ("entries"@, JsonView::Array(status_entries(lines_of(stdout@)))),
                    ("repo"@, JsonView::Str(repo@)),
                ]);
                ToolOutcome::Completed {
                    output: Json::Object(m),
                    verified: Verification::Verified,
                }
            },
        }
    }
}

// ---------------------------------------------------------------------------
// git.diff
// ---------------------------------------------------------------------------

/// Shows what differs in a repository.
#[derive(Debug)]
pub struct GitDiffTool {
    id: ToolId,
    repos: Vec<String>,
    require_enforcement: bool,
}

impl View for GitDiffTool {
    type V = GitToolView;

    closed spec fn view(&self) -> GitToolView {
        GitToolView {
            id: self.id,
            repos: texts(self.repos@),
            require_enforcement: self.require_enforcement,
        }
    }
}

/// Whether a path could lead out of the repository.
pub open spec fn leads_out(path: Seq<char>) -> bool {
    begins_with(path, "/"@) || occurs(path, ".."@)
}

fn may_lead_out(path: &str) -> (r: bool)
    ensures
        r == leads_out(path@),
{
    starts_with(path, "/") || contains(path, "..")
}

/// A diff that is to be made.
#[derive(Debug, PartialEq, Eq)]
pub struct DiffPlan {
    pub command: GitCommand,
    pub cached: bool,
    pub path: Option<String>,
}

/// What a [`DiffPlan`] stands for.
pub ghost struct DiffView {
    pub repo: Seq<char>,
    pub args: Seq<Seq<char>>,
    pub cached: bool,
    pub path: Option<Seq<char>>,
}

impl View for DiffPlan {
    type V = DiffView;

    open spec fn view(&self) -> DiffView {
        DiffView {
            repo: self.command.repo@,
            args: texts(self.command.args@),
            cached: self.cached,
            path: text_of(self.path),
        }
    }
}

/// The diff that an input asks for in `repo`.
pub open spec fn diff_asked_for(input: JsonView, repo: Seq<char>) -> DiffView {
    DiffView {
        repo,
        args: diff_args(repo, wants_cached(input), input.get_str("path"@)),
        cached: wants_cached(input),
        path: input.get_str("path"@),
    }
}

/// The arguments of the command for a diff.
pub open spec fn diff_args(repo: Seq<char>, cached: bool, path: Option<Seq<char>>) -> Seq<Seq<char>> {
    let base = seq!["-C"@, repo, "diff"@];
    let staged = if cached {
        base.push("--cached"@)
    } else {
        base
    };
    match path {
        Some(p) => staged.push("--"@).push(p),
        None => staged,
    }
}

/// A string, or `null` where there is none.
pub open spec fn string_or_null(s: Option<Seq<char>>) -> JsonView {
    match s {
        Some(t) => JsonView::Str(t),
        None => JsonView::Null,
    }
}

/// What `git.diff` answers, given how its command ended.
pub open spec fn diff_outcome(
    id: ToolId,
    repo: Seq<char>,
    cached: bool,
    path: Option<Seq<char>>,
    run: CommandRun,
) -> OutcomeView {
    match run {
        CommandRun::SpawnFailed(e) => failure(id, "git.diff: spawn failed: "@ + e@),
        CommandRun::Exited { code, stdout, stderr } => if code == Some(0i32) {
            OutcomeView::Completed {
                output: JsonView::Object(
                    seq![
                        ("cached"@, JsonView::Bool(cached)),
                        ("diff"@, JsonView::Str(stdout@)),
                        ("path"@, string_or_null(path)),
                        ("repo"@, JsonView::Str(repo)),
                    ],
                ),
                verified: Verification::Verified,
            }
        } else {
            failure(id, exit_detail("git.diff:"@, code, trimmed(stderr@)))
        },
    }
}

/// Whether an input asks for the staged diff.
pub open spec fn wants_cached(input: JsonView) -> bool {
    input.get_bool("cached"@) == Some(true)
}

/// What the model is told of `git.diff`.
pub const DIFF_DESCRIPTION: &'static str =
    "Run `git diff` against a configured repo path. Input is a JSON object with a `repo` field naming one of the operator's allowed git repos (canonical path match), an optional `cached` boolean (`true` for the staged diff, default false for the working-tree diff), and an optional `path` string scoping the diff to a single file or directory within the repo. Returns a JSON object with a `diff` field carrying the unified-diff output as a string.";

impl GitDiffTool {
    pub fn id(&self) -> (r: ToolId)
        ensures
            r == self@.id,
    {
        self.id
    }

    /// The canonical forms of the repositories it may touch.
    pub fn repos(&self) -> (r: &Vec<String>)
        ensures
            texts(r@) == self@.repos,
    {
        &self.repos
    }

    /// Whether it may only run confined.
    pub fn require_enforcement(&self) -> (r: bool)
        ensures
            r == self@.require_enforcement,
    {
        self.require_enforcement
    }

    pub fn name(&self) -> (r: &'static str)
        ensures
            r@ == "git.diff"@,
    {
        "git.diff"
    }

    /// What the model is told of the tool.
    pub fn description(&self) -> (r: &'static str)
        ensures
            r@ == DIFF_DESCRIPTION@,
    {
        DIFF_DESCRIPTION
    }

    /// The tool as it is registered.
    pub fn to_tool(&self) -> (r: Tool)
        ensures
            r.id == self@.id,
            r.name@ == "git.diff"@,
            r.description@ == DIFF_DESCRIPTION@,
            r.input_schema@ == diff_schema(),
    {
        Tool {
            id: self.id,
            name: self.name().to_owned(),
            description: self.description().to_owned(),
            input_schema: diff_input_schema(),
        }
    }

    /// What a branch holds comes from whoever wrote it.
    pub fn output_is_untrusted(&self) -> (r: bool)
        ensures
            r,
    {
        true
    }

    /// The scope that a call with this input needs, as for `git.status`.
    pub fn required_scope(&self, input: &Json, canonical: &Option<String>, legal: bool) -> (r:
        String)
        ensures
            r@ == scope_for(
                "git.read:"@,
                resolved_repo(input@, text_of(*canonical), self@.repos),
                legal,
                READ_DENY_SCOPE@,
            ),
    {
        required_scope(
            "git.read:",
            resolve_repo(input, canonical, &self.repos),
            legal,
            READ_DENY_SCOPE,
        )
    }

    /// The diff to make, or why there is none.
    pub fn plan(&self, input: &Json, canonical: &Option<String>) -> (r: Result<
        DiffPlan,
        ToolOutcome,
    >)
        ensures
            match resolved_repo(input@, text_of(*canonical), self@.repos) {
                None => r matches Err(o) && o@ == failure(
                    self@.id,
                    "git.diff: `repo` field missing or not in allow-set"@,
                ),
                Some(repo) => {
                    let path = input@.get_str("path"@);
                    if path matches Some(p) && leads_out(p) {
                        r matches Err(o) && o@ == failure(
                            self@.id,
                            "git.diff: `path` must be repo-relative and must not contain `..`; got "@
                                + debug_form(path->0),
                        )
                    } else {
                        &&& r matches Ok(plan)
                        &&& plan.command.repo@ == repo
                        &&& plan.cached == wants_cached(input@)
                        &&& text_of(plan.path) == path
                        &&& texts(plan.command.args@) == diff_args(repo, plan.cached, path)
                        &&& plan@ == diff_asked_for(input@, repo)
                    }
                },
            },
    {
        let repo: String = match resolve_repo(input, canonical, &self.repos) {
            None => {
                return Err(
                    tool_failed_with(
                        self.id,
                        "git.diff: `repo` field missing or not in allow-set",
                    ),
                );
            },
            Some(repo) => repo,
        };
        let cached: bool = match input.get_bool("cached") {
            Some(b) => b,
            None => false,
        };
        let path: Option<String> = match input.get_str("path") {
            Some(p) => Some(p.clone()),
            None => None,
        };
        let mut args: Vec<String> = no_args();
        push_arg(&mut args, "-C");
        push_arg(&mut args, repo.as_str());
        push_arg(&mut args, "diff");
        if cached {
            push_arg(&mut args, "--cached");
        }
        match &path {
            Some(p) => {
                if may_lead_out(p.as_str()) {
                    let mut detail: String =
                        "git.diff: `path` must be repo-relative and must not contain `..`; got ".to_owned();
                    let form: String = debug_text(p.as_str());
                    detail.push_str(form.as_str());
                    return Err(tool_failed(self.id, detail));
                }
                push_arg(&mut args, "--");
                push_arg(&mut args, p.as_str());
            },
            None => {},
        }
        assert(texts(args@) =~= diff_args(repo@, cached, text_of(path)));
        Ok(DiffPlan { command: GitCommand { repo, args }, cached, path })
    }

    /// The answer, once the command has run.
    pub fn finish(&self, plan: &DiffPlan, run: &CommandRun) -> (r: ToolOutcome)
        ensures
            r@ == diff_outcome(
                self@.id,
                plan.command.repo@,
                plan.cached,
                text_of(plan.path),
                *run,
            ),
    {
        match run {
            CommandRun::SpawnFailed(e) => spawn_failed(
                self.id,
                "git.diff: spawn failed: ",
                e.as_str(),
            ),
            CommandRun::Exited { code, stdout, stderr } => {
                let ok: bool = match code {
                    Some(n) => *n == 0,
                    None => false,
                };
                if !ok {
                    return exit_failed(self.id, "git.diff:", *code, stderr.as_str());
                }
                let path: Json = match &plan.path {
                    Some(p) => Json::string(p.as_str()),
                    None => Json::Null,
                };
                assert(path@ == string_or_null(text_of(plan.path)));
                let mut m: Vec<(String, Json)> = Json::no_members();
                Json::push_member(&mut m, "cached", Json::Bool(plan.cached));
                Json::push_member(&mut m, "diff", Json::string(stdout.as_str()));
                Json::push_member(&mut m, "path", path);
                Json::push_member(&mut m, "repo", Json::string(plan.command.repo.as_str()));
                assert(members_view(m@) =~= seq![
                    ("cached"@, JsonView::Bool(plan.cached)),
                    ("diff"@, JsonView::Str(stdout@)),
                    ("path"@, string_or_null(text_of(plan.path))),
                    ("repo"@, JsonView::Str(plan.command.repo@)),
                ]);
                ToolOutcome::Completed {
                    output: Json::Object(m),
                    verified: Verification::Verified,
                }
            },
        }
    }
}

// ---------------------------------------------------------------------------
// git.commit
// ---------------------------------------------------------------------------

/// Stages files of a repository and commits them.
#[derive(Debug)]
pub struct GitCommitTool {
    id: ToolId,
    repos: Vec<String>,
    confirm_destructive: bool,
    require_enforcement: bool,
    checkpointers: Vec<String>,
}

/// What a [`GitCommitTool`] stands for.
pub ghost struct CommitToolView {
    pub id: ToolId,
    pub repos: Seq<Seq<char>>,
    pub confirm_destructive: bool,
    pub require_enforcement: bool,
    pub checkpointers: Seq<Seq<char>>,
}

impl View for GitCommitTool {
    type V = CommitToolView;

    closed spec fn view(&self) -> CommitToolView {
        CommitToolView {
            id: self.id,
            repos: texts(self.repos@),
            confirm_destructive: self.confirm_destructive,
            require_enforcement: self.require_enforcement,
            checkpointers: texts(self.checkpointers@),
        }
    }
}

/// The tool that commits, as it is made from its configuration.
pub open spec fn write_tool(
    config: WriteConfigView,
    probes: Seq<RepoProbe>,
    id: ToolId,
) -> CommitToolView {
    CommitToolView {
        id,
        repos: canonical_forms(probes),
        confirm_destructive: config.confirm_destructive,
        require_enforcement: config.require_enforcement,
        checkpointers: config.checkpointers,
    }
}

/// What is wrong with the first unusable one of the paths to stage.
pub open spec fn paths_problem(items: Seq<JsonView>) -> Option<Seq<char>>
    decreases items.len(),
{
    if items.len() == 0 {
        None
    } else {
        match items[0].str() {
            None => Some("git.commit: every entry in `paths` must be a string"@),
            Some(p) => if leads_out(p) {
                Some(
                    "git.commit: each `paths` entry must be repo-relative and must not contain `..`; got "@
                        + debug_form(p),
                )
            } else {
                paths_problem(items.drop_first())
            },
        }
    }
}

/// The texts of items that are strings.
pub open spec fn item_texts(items: Seq<JsonView>) -> Seq<Seq<char>> {
    items.map_values(
        |i: JsonView|
            match i.str() {
                Some(s) => s,
                None => Seq::empty(),
            },
    )
}

/// What is asked before an unconfirmed commit.
pub open spec fn confirm_text(count: nat, repo: Seq<char>) -> Seq<char> {
    "git.commit: refusing to commit "@ + decimal_text(count) + " path(s) to "@ + repo
        + " without confirmation. This writes repo history and the operator enabled confirm-first (`[access] confirm_destructive`). Show the operator the paths and message, get approval, then re-call with `confirmed: true`."@
}

/// The message of a commit, if the input has one that is not blank.
pub open spec fn commit_message(input: JsonView) -> Option<Seq<char>> {
    match input.get_str("message"@) {
        Some(m) => if blank(m) {
            None
        } else {
            Some(m)
        },
        None => None,
    }
}

/// Whether the operator has confirmed what the input asks for.
pub open spec fn is_confirmed(input: JsonView) -> bool {
    input.get_bool("confirmed"@) == Some(true)
}

/// Why a commit is refused, if it is.
pub open spec fn commit_refusal(
    tool: CommitToolView,
    input: JsonView,
    canonical: Option<Seq<char>>,
) -> Option<Seq<char>> {
    let repo = resolved_repo(input, canonical, tool.repos);
    let paths = input.get_array("paths"@);
    if repo is None {
        Some("git.commit: `repo` field missing or not in allow-set"@)
    } else if commit_message(input) is None {
        Some("git.commit: `message` must be a non-empty string"@)
    } else if paths is None || paths->0.len() == 0 {
        Some(
            "git.commit: `paths` must be a non-empty array of repo-relative file paths to stage"@,
        )
    } else if paths_problem(paths->0) is Some {
        paths_problem(paths->0)
    } else if tool.confirm_destructive && !is_confirmed(input) {
        Some(confirm_text(paths->0.len(), repo->0))
    } else {
        None
    }
}

/// Which of its three commands a commit has come to.
#[derive(Debug, Clone, Copy, PartialEq, Eq, Structural)]
pub enum CommitStage {
    Adding,
    Committing,
    ReadingHead,
}

/// A commit under way.
#[derive(Debug, PartialEq, Eq)]
pub struct CommitRun {
    pub tool: ToolId,
    pub repo: String,
    pub message: String,
    pub paths: Vec<String>,
    /// Whether a checkpoint of the repository is taken first.
    pub checkpoint: bool,
    pub stage: CommitStage,
}

/// What a [`CommitRun`] stands for.
pub ghost struct CommitView {
    pub tool: ToolId,
    pub repo: Seq<char>,
    pub message: Seq<char>,
    pub paths: Seq<Seq<char>>,
    pub checkpoint: bool,
    pub stage: CommitStage,
}

impl View for CommitRun {
    type V = CommitView;

    open spec fn view(&self) -> CommitView {
        CommitView {
            tool: self.tool,
            repo: self.repo@,
            message: self.message@,
            paths: texts(self.paths@),
            checkpoint: self.checkpoint,
            stage: self.stage,
        }
    }
}

/// The commit that an input asks for, where it is not refused.
pub open spec fn commit_asked_for(
    tool: CommitToolView,
    input: JsonView,
    canonical: Option<Seq<char>>,
) -> CommitView {
    CommitView {
        tool: tool.id,
        repo: canonical->0,
        message: commit_message(input)->0,
        paths: item_texts(input.get_array("paths"@)->0),
        checkpoint: tool.checkpointers.contains(canonical->0),
        stage: CommitStage::Adding,
    }
}

/// The arguments of the command that a commit has come to.
pub open spec fn commit_args(c: CommitView) -> Seq<Seq<char>> {
    match c.stage {
        CommitStage::Adding => seq!["-C"@, c.repo, "add"@, "--"@] + c.paths,
        CommitStage::Committing => seq!["-C"@, c.repo, "commit"@, "-m"@, c.message],
        CommitStage::ReadingHead => seq!["-C"@, c.repo, "rev-parse"@, "HEAD"@],
    }
}

/// What comes next in a commit: another command, or the answer.
#[derive(Debug, PartialEq, Eq)]
pub enum CommitNext {
    Run(CommitRun),
    Done(ToolOutcome),
}

/// What a [`CommitNext`] stands for.
pub ghost enum CommitNextView {
    Run(CommitView),
    Done(OutcomeView),
}

impl View for CommitNext {
    type V = CommitNextView;

    open spec fn view(&self) -> CommitNextView {
        match *self {
            CommitNext::Run(c) => CommitNextView::Run(c@),
            CommitNext::Done(o) => CommitNextView::Done(o@),
        }
    }
}

/// What `git.commit` answers once the commit is made.
pub open spec fn commit_done(c: CommitView, hash: Seq<char>) -> OutcomeView {
    OutcomeView::Completed {
        output: JsonView::Object(
            seq![
                ("commit"@, JsonView::Str(hash)),
                ("committed"@, JsonView::Bool(true)),
                ("message"@, JsonView::Str(c.message)),
                ("paths"@, JsonView::Array(name_list(c.paths))),
                ("repo"@, JsonView::Str(c.repo)),
            ],
        ),
        verified: Verification::Verified,
    }
}

/// What comes of a commit once the command it has come to has run. Not being
/// told the new commit's name is no failure.
pub open spec fn commit_step(c: CommitView, run: CommandRun) -> CommitNextView {
    match c.stage {
        CommitStage::Adding => match run {
            CommandRun::SpawnFailed(e) => CommitNextView::Done(
                failure(c.tool, "git.commit: `git add` spawn failed: "@ + e@),
            ),
            CommandRun::Exited { code, stdout, stderr } => if code == Some(0i32) {
                CommitNextView::Run(CommitView { stage: CommitStage::Committing, ..c })
            } else {
                CommitNextView::Done(
                    failure(
                        c.tool,
                        exit_detail("git.commit: `git add`"@, code, trimmed(stderr@)),
                    ),
                )
            },
        },
        CommitStage::Committing => match run {
            CommandRun::SpawnFailed(e) => CommitNextView::Done(
                failure(c.tool, "git.commit: `git commit` spawn failed: "@ + e@),
            ),
            CommandRun::Exited { code, stdout, stderr } => if code == Some(0i32) {
                CommitNextView::Run(CommitView { stage: CommitStage::ReadingHead, ..c })
            } else {
                CommitNextView::Done(
                    failure(
                        c.tool,
                        exit_detail(
                            "git.commit: `git commit`"@,
                            code,
                            if blank(stderr@) {
                                trimmed(stdout@)
                            } else {
                                trimmed(stderr@)
                            },
                        ),
                    ),
                )
            },
        },
        CommitStage::ReadingHead => CommitNextView::Done(
            commit_done(
                c,
                match run {
                    CommandRun::Exited { code, stdout, stderr } => if code == Some(0i32) {
                        trimmed(stdout@)
                    } else {
                        Seq::empty()
                    },
                    CommandRun::SpawnFailed(_) => Seq::empty(),
                },
            ),
        ),
    }
}

/// Whether the operator has confirmed what the input asks for.
pub fn git_is_confirmed(input: &Json) -> (r: bool)
    ensures
        r == is_confirmed(input@),
{
    match input.get_bool("confirmed") {
        Some(b) => b,
        None => false,
    }
}

fn collect_paths(items: &Vec<Json>) -> (r: Result<Vec<String>, String>)
    ensures
        match r {
            Ok(v) => paths_problem(items_view(items@)) is None && texts(v@) == item_texts(
                items_view(items@),
            ),
            Err(detail) => paths_problem(items_view(items@)) == Some(detail@),
        },
{
    let ghost all = items_view(items@);
    proof {
        crate::json::lemma_items_view(items@);
        assert(all.skip(0) =~= all);
    }
    let mut out: Vec<String> = Vec::new();
    let mut i: usize = 0;
    while i < items.len()
        invariant
            i <= items@.len(),
            all == items_view(items@),
            all.len() == items@.len(),
            forall|j: int| 0 <= j < items@.len() ==> #[trigger] all[j] == items@[j]@,
            paths_problem(all) == paths_problem(all.skip(i as int)),
            texts(out@) == item_texts(all).take(i as int),
        decreases items@.len() - i,
    {
        assert(all.skip(i as int)[0] == items@[i as int]@);
        assert(all.skip(i as int).drop_first() =~= all.skip(i + 1));
        match items[i].as_str() {
            None => {
                return Err("git.commit: every entry in `paths` must be a string".to_owned());
            },
            Some(p) => {
                if may_lead_out(p.as_str()) {
                    let mut detail: String =
                        "git.commit: each `paths` entry must be repo-relative and must not contain `..`; got ".to_owned();
                    let form: String = debug_text(p.as_str());
                    detail.push_str(form.as_str());
                    return Err(detail);
                }
                let ghost before = out@;
                out.push(p.clone());
                assert(texts(out@) =~= texts(before).push(p@));
                assert(item_texts(all).take(i + 1) =~= item_texts(all).take(i as int).push(p@));
            },
        }
        i = i + 1;
    }
    assert(item_texts(all).take(i as int) =~= item_texts(all));
    Ok(out)
}

/// What the model is told of `git.commit`.
pub const COMMIT_DESCRIPTION: &'static str =
    "Stage the given paths and create a commit in a configured repo. Input is a JSON object with a `repo` field naming one of the operator's allowed git repos (canonical path match), a `message` string (the commit message), and a `paths` array of repo-relative file paths to stage (each must not start with `/` or contain `..`). When the operator has enabled confirm-first for destructive ops, also pass `confirmed: true` after showing them what will be committed. Returns the new commit hash. Writing history is irreversible — Trusted tier only.";

impl GitCommitTool {
    pub fn id(&self) -> (r: ToolId)
        ensures
            r == self@.id,
    {
        self.id
    }

    /// The canonical forms of the repositories it may touch.
    pub fn repos(&self) -> (r: &Vec<String>)
        ensures
            texts(r@) == self@.repos,
    {
        &self.repos
    }

    /// Whether it may only run confined.
    pub fn require_enforcement(&self) -> (r: bool)
        ensures
            r == self@.require_enforcement,
    {
        self.require_enforcement
    }

    pub fn name(&self) -> (r: &'static str)
        ensures
            r@ == "git.commit"@,
    {
        "git.commit"
    }

    /// What the model is told of the tool.
    pub fn description(&self) -> (r: &'static str)
        ensures
            r@ == COMMIT_DESCRIPTION@,
    {
        COMMIT_DESCRIPTION
    }

    /// The tool as it is registered.
    pub fn to_tool(&self) -> (r: Tool)
        ensures
            r.id == self@.id,
            r.name@ == "git.commit"@,
            r.description@ == COMMIT_DESCRIPTION@,
            r.input_schema@ == commit_schema(),
    {
        Tool {
            id: self.id,
            name: self.name().to_owned(),
            description: self.description().to_owned(),
            input_schema: commit_input_schema(),
        }
    }

    /// What `git` prints can repeat what somebody else wrote.
    pub fn output_is_untrusted(&self) -> (r: bool)
        ensures
            r,
    {
        true
    }

    /// It takes its own checkpoints, of the repository it works on.
    pub fn mutates_fs_root(&self) -> (r: bool)
        ensures
            !r,
    {
        false
    }

    /// The scope that a call with this input needs. `canonical` is the
    /// canonical form of its `repo` field, and `legal` says whether the scope
    /// for it is well formed.
    pub fn required_scope(&self, input: &Json, canonical: &Option<String>, legal: bool) -> (r:
        String)
        ensures
            r@ == scope_for(
                "git.write:"@,
                resolved_repo(input@, text_of(*canonical), self@.repos),
                legal,
                WRITE_DENY_SCOPE@,
            ),
    {
        required_scope(
            "git.write:",
            resolve_repo(input, canonical, &self.repos),
            legal,
            WRITE_DENY_SCOPE,
        )
    }

    /// The commit to make, or why it is refused.
    pub fn plan(&self, input: &Json, canonical: &Option<String>) -> (r: Result<
        CommitRun,
        ToolOutcome,
    >)
        ensures
            match commit_refusal(self@, input@, text_of(*canonical)) {
                Some(detail) => r matches Err(o) && o@ == failure(self@.id, detail),
                None => r matches Ok(c) && c@ == commit_asked_for(
                    self@,
                    input@,
                    text_of(*canonical),
                ),
            },
    {
        let repo: String = match resolve_repo(input, canonical, &self.repos) {
            None => {
                return Err(
                    tool_failed_with(
                        self.id,
                        "git.commit: `repo` field missing or not in allow-set",
                    ),
                );
            },
            Some(repo) => repo,
        };
        let message: String = match input.get_str("message") {
            Some(m) => {
                if is_blank(m.as_str()) {
                    return Err(
                        tool_failed_with(
                            self.id,
                            "git.commit: `message` must be a non-empty string",
                        ),
                    );
                }
                m.clone()
            },
            None => {
                return Err(
                    tool_failed_with(self.id, "git.commit: `message` must be a non-empty string"),
                );
            },
        };
        let items: &Vec<Json> = match input.get_array("paths") {
            Some(v) => v,
            None => {
                return Err(
                    tool_failed_with(
                        self.id,
                        "git.commit: `paths` must be a non-empty array of repo-relative file paths to stage",
                    ),
                );
            },
        };
        proof {
            crate::json::lemma_items_view(items@);
        }
        if items.len() == 0 {
            return Err(
                tool_failed_with(
                    self.id,
                    "git.commit: `paths` must be a non-empty array of repo-relative file paths to stage",
                ),
            );
        }
        let paths: Vec<String> = match collect_paths(items) {
            Err(detail) => {
                return Err(tool_failed(self.id, detail));
            },
            Ok(paths) => paths,
        };
        if self.confirm_destructive && !git_is_confirmed(input) {
            let mut detail: String = "git.commit: refusing to commit ".to_owned();
            push_decimal(&mut detail, items.len() as u64);
            detail.push_str(" path(s) to ");
            detail.push_str(repo.as_str());
            detail.push_str(
                " without confirmation. This writes repo history and the operator enabled confirm-first (`[access] confirm_destructive`). Show the operator the paths and message, get approval, then re-call with `confirmed: true`.",
            );
            assert(detail@ =~= confirm_text(items@.len(), repo@));
            return Err(tool_failed(self.id, detail));
        }
        let checkpoint: bool = is_among(repo.as_str(), &self.checkpointers);
        Ok(
            CommitRun {
                tool: self.id,
                repo,
                message,
                paths,
                checkpoint,
                stage: CommitStage::Adding,
            },
        )
    }
}

impl CommitRun {
    /// The command that the commit has come to.
    pub fn command(&self) -> (r: GitCommand)
        ensures
            r.repo@ == self@.repo,
            texts(r.args@) == commit_args(self@),
    {
        let mut args: Vec<String> = no_args();
        push_arg(&mut args, "-C");
        push_arg(&mut args, self.repo.as_str());
        match self.stage {
            CommitStage::Adding => {
                push_arg(&mut args, "add");
                push_arg(&mut args, "--");
                let ghost head = seq!["-C"@, self.repo@, "add"@, "--"@];
                assert(texts(args@) =~= head + self@.paths.take(0));
                let mut i: usize = 0;
                while i < self.paths.len()
                    invariant
                        i <= self.paths@.len(),
                        texts(args@) == head + self@.paths.take(i as int),
                    decreases self.paths@.len() - i,
                {
                    push_arg(&mut args, self.paths[i].as_str());
                    assert(head + self@.paths.take(i + 1) =~= (head + self@.paths.take(
                        i as int,
                    )).push(self.paths@[i as int]@));
                    i = i + 1;
                }
                assert(self@.paths.take(i as int) =~= self@.paths);
            },
            CommitStage::Committing => {
                push_arg(&mut args, "commit");
                push_arg(&mut args, "-m");
                push_arg(&mut args, self.message.as_str());
            },
            CommitStage::ReadingHead => {
                push_arg(&mut args, "rev-parse");
                push_arg(&mut args, "HEAD");
            },
        }
        assert(texts(args@) =~= commit_args(self@));
        GitCommand { repo: self.repo.clone(), args }
    }

    fn completed(&self, hash: String) -> (r: ToolOutcome)
        ensures
            r@ == commit_done(self@, hash@),
    {
        let mut items: Vec<Json> = Vec::new();
        let ghost all = name_list(self@.paths);
        assert(items_view(items@) =~= all.take(0));
        let mut i: usize = 0;
        while i < self.paths.len()
            invariant
                i <= self.paths@.len(),
                all == name_list(self@.paths),
                items_view(items@) == all.take(i as int),
            decreases self.paths@.len() - i,
        {
            Json::push_item(&mut items, Json::string(self.paths[i].as_str()));
            assert(all.take(i + 1) =~= all.take(i as int).push(all[i as int]));
            i = i + 1;
        }
        assert(all.take(i as int) =~= all);
        let paths: Json = Json::Array(items);
        let mut m: Vec<(String, Json)> = Json::no_members();
        Json::push_member(&mut m, "commit", Json::Str(hash));
        Json::push_member(&mut m, "committed", Json::Bool(true));
        Json::push_member(&mut m, "message", Json::string(self.message.as_str()));
        Json::push_member(&mut m, "paths", paths);
        Json::push_member(&mut m, "repo", Json::string(self.repo.as_str()));
        assert(members_view(m@) =~= seq![
            ("commit"@, JsonView::Str(hash@)),
            ("committed"@, JsonView::Bool(true)),
            ("message"@, JsonView::Str(self@.message)),
            ("paths"@, JsonView::Array(all)),
            ("repo"@, JsonView::Str(self@.repo)),
        ]);
        ToolOutcome::Completed { output: Json::Object(m), verified: Verification::Verified }
    }

    /// What comes next, once the command has run.
    pub fn advance(self, run: &CommandRun) -> (r: CommitNext)
        ensures
            r@ == commit_step(self@, *run),
    {
        let ok: bool = match run {
            CommandRun::Exited { code: Some(n), .. } => *n == 0,
            _ => false,
        };
        match self.stage {
            CommitStage::Adding => match run {
                CommandRun::SpawnFailed(e) => CommitNext::Done(
                    spawn_failed(
                        self.tool,
                        "git.commit: `git add` spawn failed: ",
                        e.as_str(),
                    ),
                ),
                CommandRun::Exited { code, stdout: _, stderr } => {
                    if ok {
                        CommitNext::Run(CommitRun { stage: CommitStage::Committing, ..self })
                    } else {
                        CommitNext::Done(
                            exit_failed(
                                self.tool,
                                "git.commit: `git add`",
                                *code,
                                stderr.as_str(),
                            ),
                        )
                    }
                },
            },
            CommitStage::Committing => match run {
                CommandRun::SpawnFailed(e) => CommitNext::Done(
                    spawn_failed(
                        self.tool,
                        "git.commit: `git commit` spawn failed: ",
                        e.as_str(),
                    ),
                ),
                CommandRun::Exited { code, stdout, stderr } => {
                    if ok {
                        CommitNext::Run(CommitRun { stage: CommitStage::ReadingHead, ..self })
                    } else if is_blank(stderr.as_str()) {
                        CommitNext::Done(
                            exit_failed(
                                self.tool,
                                "git.commit: `git commit`",
                                *code,
                                stdout.as_str(),
                            ),
                        )
                    } else {
                        CommitNext::Done(
                            exit_failed(
                                self.tool,
                                "git.commit: `git commit`",
                                *code,
                                stderr.as_str(),
                            ),
                        )
                    }
                },
            },
            CommitStage::ReadingHead => {
                let hash: String = match run {
                    CommandRun::Exited { code: _, stdout, stderr: _ } => if ok {
                        trim(stdout.as_str())
                    } else {
                        String::new()
                    },
                    CommandRun::SpawnFailed(_) => String::new(),
                };
                CommitNext::Done(self.completed(hash))
            },
        }
    }
}

// ---------------------------------------------------------------------------
// What holds of every commit
// ---------------------------------------------------------------------------

proof fn lemma_no_path_leads_out(items: Seq<JsonView>)
    requires
        paths_problem(items) is None,
    ensures
        forall|i: int|
            0 <= i < items.len() ==> (#[trigger] items[i]).str() is Some && !leads_out(
                items[i].str()->0,
            ),
    decreases items.len(),
{
    if items.len() > 0 {
        let rest = items.drop_first();
        lemma_no_path_leads_out(rest);
        assert forall|i: int| 0 <= i < items.len() implies (#[trigger] items[i]).str() is Some
            && !leads_out(items[i].str()->0) by {
            if i > 0 {
                assert(rest[i - 1] == items[i]);
            }
        }
    }
}

/// A commit that is not refused works on an allowed repository, has a message
/// and stages at least one path, none of which leads out of the repository;
/// and it is confirmed where the operator asks for that.
pub proof fn law_commit_stays_in_its_repo(
    tool: CommitToolView,
    input: JsonView,
    canonical: Option<Seq<char>>,
)
    requires
        commit_refusal(tool, input, canonical) is None,
    ensures
        ({
            let c = commit_asked_for(tool, input, canonical);
            &&& tool.repos.contains(c.repo)
            &&& !blank(c.message)
            &&& c.paths.len() > 0
            &&& forall|i: int| 0 <= i < c.paths.len() ==> !leads_out(#[trigger] c.paths[i])
            &&& tool.confirm_destructive ==> is_confirmed(input)
        }),
{
    let items = input.get_array("paths"@)->0;
    let c = commit_asked_for(tool, input, canonical);
    lemma_no_path_leads_out(items);
    assert forall|i: int| 0 <= i < c.paths.len() implies !leads_out(#[trigger] c.paths[i]) by {
        assert(items[i].str() is Some);
    }
}

proof fn lemma_sound_paths_pass(items: Seq<JsonView>)
    requires
        forall|i: int|
            0 <= i < items.len() ==> (#[trigger] items[i]).str() is Some && !leads_out(
                items[i].str()->0,
            ),
    ensures
        paths_problem(items) is None,
    decreases items.len(),
{
    if items.len() > 0 {
        let rest = items.drop_first();
        assert(items[0].str() is Some);
        assert forall|i: int| 0 <= i < rest.len() implies (#[trigger] rest[i]).str() is Some
            && !leads_out(rest[i].str()->0) by {
            assert(rest[i] == items[i + 1]);
        }
        lemma_sound_paths_pass(rest);
    }
}

/// A path leads out where it starts with a slash, or has two dots in a row.
pub proof fn law_what_leads_out(path: Seq<char>)
    ensures
        leads_out(path) <==> (path.len() > 0 && path[0] == '/') || exists|i: int|
            0 <= i < path.len() - 1 && #[trigger] path[i] == '.' && path[i + 1] == '.',
{
    reveal_strlit("/");
    reveal_strlit("..");
    assert(begins_with(path, "/"@) <==> path.len() > 0 && path[0] == '/') by {
        if path.len() > 0 && path[0] == '/' {
            assert(path.subrange(0, 1) =~= "/"@);
        }
        if begins_with(path, "/"@) {
            assert(path.subrange(0, 1)[0] == path[0]);
        }
    }
    if occurs(path, ".."@) {
        let i = choose|i: int| #[trigger] crate::text::occurs_at(path, ".."@, i);
        assert(path.subrange(i, i + 2)[0] == path[i]);
        assert(path.subrange(i, i + 2)[1] == path[i + 1]);
    }
    if exists|i: int| 0 <= i < path.len() - 1 && #[trigger] path[i] == '.' && path[i + 1] == '.' {
        let i = choose|i: int|
            0 <= i < path.len() - 1 && #[trigger] path[i] == '.' && path[i + 1] == '.';
        assert(path.subrange(i, i + 2) =~= ".."@);
        assert(crate::text::occurs_at(path, ".."@, i));
    }
}

/// A commit goes ahead exactly where its input names an allowed repository, has
/// a message that is not blank and at least one path, each of them a string
/// that stays in the repository, and where it is confirmed if the operator asks
/// for that.
pub proof fn law_when_a_commit_goes_ahead(
    tool: CommitToolView,
    input: JsonView,
    canonical: Option<Seq<char>>,
)
    ensures
        commit_refusal(tool, input, canonical) is None <==> {
            &&& input.get_str("repo"@) is Some
            &&& canonical is Some
            &&& tool.repos.contains(canonical->0)
            &&& input.get_str("message"@) matches Some(message)
            &&& !blank(message)
            &&& input.get_array("paths"@) matches Some(items)
            &&& items.len() > 0
            &&& forall|i: int|
                0 <= i < items.len() ==> ((#[trigger] items[i]).str() matches Some(p)
                    && !leads_out(p))
            &&& tool.confirm_destructive ==> input.get_bool("confirmed"@) == Some(true)
        },
{
    if let Some(items) = input.get_array("paths"@) {
        if paths_problem(items) is None {
            lemma_no_path_leads_out(items);
        }
        if forall|i: int|
            0 <= i < items.len() ==> ((#[trigger] items[i]).str() matches Some(p) && !leads_out(p)) {
            lemma_sound_paths_pass(items);
        }
    }
}

/// A commit stages just the paths that its input names, in their order, each as
/// it is written there; with the message that the input gives, in the
/// repository that it names.
pub proof fn law_every_path_is_staged(
    tool: CommitToolView,
    input: JsonView,
    canonical: Option<Seq<char>>,
)
    requires
        commit_refusal(tool, input, canonical) is None,
    ensures
        ({
            let c = commit_asked_for(tool, input, canonical);
            let args = commit_args(c);
            &&& input.get_array("paths"@) matches Some(items)
            &&& args.len() == 4 + items.len()
            &&& args[0] == "-C"@
            &&& Some(args[1]) == canonical
            &&& args[2] == "add"@
            &&& args[3] == "--"@
            &&& forall|i: int|
                0 <= i < items.len() ==> #[trigger] items[i] == JsonView::Str(args.skip(4)[i])
            &&& Some(c.message) == input.get_str("message"@)
            &&& Some(c.repo) == canonical
            &&& c.checkpoint == tool.checkpointers.contains(c.repo)
            &&& c.tool == tool.id
        }),
{
    let c = commit_asked_for(tool, input, canonical);
    let items = input.get_array("paths"@)->0;
    lemma_no_path_leads_out(items);
    assert forall|i: int| 0 <= i < items.len() implies #[trigger] items[i] == JsonView::Str(
        commit_args(c).skip(4)[i],
    ) by {
        assert(items[i].str() is Some);
        assert(commit_args(c).skip(4)[i] == c.paths[i]);
    }
}

/// Where each command goes well, a commit comes to an end after three: the
/// paths are staged, then history is written with the message, then the new
/// commit's name is read. The answer holds that name, the repository, the
/// message and the paths as the input gave them.
pub proof fn law_a_commit_answers_what_it_did(
    tool: CommitToolView,
    input: JsonView,
    canonical: Option<Seq<char>>,
    added: CommandRun,
    committed: CommandRun,
    read: CommandRun,
)
    requires
        commit_refusal(tool, input, canonical) is None,
        run_succeeded(added),
        run_succeeded(committed),
    ensures
        ({
            let c = commit_asked_for(tool, input, canonical);
            &&& commit_step(c, added) matches CommitNextView::Run(second)
            &&& commit_args(second) == seq![
                "-C"@,
                canonical->0,
                "commit"@,
                "-m"@,
                input.get_str("message"@)->0,
            ]
            &&& commit_step(second, committed) matches CommitNextView::Run(third)
            &&& commit_args(third) == seq!["-C"@, canonical->0, "rev-parse"@, "HEAD"@]
            &&& commit_step(third, read) matches CommitNextView::Done(
                OutcomeView::Completed { output, verified },
            )
            &&& output.get_str("repo"@) == canonical
            &&& output.get_str("message"@) == input.get_str("message"@)
            &&& output.get_bool("committed"@) == Some(true)
            &&& output.get_array("paths"@) == input.get_array("paths"@)
            &&& output.get_str("commit"@) == Some(
                match read {
                    CommandRun::Exited { code, stdout, stderr } => if code == Some(0i32) {
                        trimmed(stdout@)
                    } else {
                        Seq::empty()
                    },
                    CommandRun::SpawnFailed(_) => Seq::empty(),
                },
            )
            &&& verified == Verification::Verified
        }),
{
    let c = commit_asked_for(tool, input, canonical);
    let items = input.get_array("paths"@)->0;
    lemma_no_path_leads_out(items);
    let second = commit_step(c, added)->Run_0;
    let third = commit_step(second, committed)->Run_0;
    let done = commit_step(third, read)->Done_0;
    assert(name_list(c.paths) =~= items) by {
        assert forall|i: int| 0 <= i < items.len() implies #[trigger] name_list(c.paths)[i]
            == items[i] by {
            assert(items[i].str() is Some);
        }
    }
    if let OutcomeView::Completed { output, verified } = done {
        let m = output->Object_0;
        reveal_strlit("commit");
        reveal_strlit("committed");
        reveal_strlit("message");
        reveal_strlit("paths");
        reveal_strlit("repo");
        assert("commit"@.len() != "committed"@.len());
        assert("commit"@.len() != "message"@.len());
        assert("commit"@.len() != "paths"@.len());
        assert("commit"@.len() != "repo"@.len());
        assert("committed"@.len() != "message"@.len());
        assert("committed"@.len() != "paths"@.len());
        assert("committed"@.len() != "repo"@.len());
        assert("message"@.len() != "paths"@.len());
        assert("message"@.len() != "repo"@.len());
        assert("paths"@.len() != "repo"@.len());
        assert(m[0].0 == "commit"@);
        assert(m[1].0 == "committed"@);
        assert(m[2].0 == "message"@);
        assert(m[3].0 == "paths"@);
        assert(m[4].0 == "repo"@);
        law_a_member_is_found_by_its_name(m, 0);
        law_a_member_is_found_by_its_name(m, 1);
        law_a_member_is_found_by_its_name(m, 2);
        law_a_member_is_found_by_its_name(m, 3);
        law_a_member_is_found_by_its_name(m, 4);
    }
}

/// A command of a commit that goes wrong ends it with a failure of the tool,
/// and the failure ends with what the system or `git` says about it: what `git`
/// wrote to standard error or, for a commit where that is blank, what it
/// printed.
pub proof fn law_a_failed_commit_says_why(c: CommitView, run: CommandRun)
    requires
        c.stage != CommitStage::ReadingHead,
        !run_succeeded(run),
    ensures
        ({
            let said = match run {
                CommandRun::SpawnFailed(e) => e@,
                CommandRun::Exited { code, stdout, stderr } => if c.stage == CommitStage::Committing
                    && blank(stderr@) {
                    trimmed(stdout@)
                } else {
                    trimmed(stderr@)
                },
            };
            &&& commit_step(c, run) matches CommitNextView::Done(
                OutcomeView::Failed(ErrorView::Tool { tool, detail }),
            )
            &&& tool == c.tool
            &&& said.is_suffix_of(detail)
            &&& run matches CommandRun::Exited { code, .. } ==> occurs(
                detail,
                " exit code "@ + crate::text::code_form(code) + ": "@,
            )
        }),
{
    let detail = commit_step(c, run)->Done_0->Failed_0->Tool_detail;
    match run {
        CommandRun::SpawnFailed(e) => {
            assert(e@ =~= detail.skip(detail.len() - e@.len()));
        },
        CommandRun::Exited { code, stdout, stderr } => {
            let said = if c.stage == CommitStage::Committing && blank(stderr@) {
                trimmed(stdout@)
            } else {
                trimmed(stderr@)
            };
            assert(said =~= detail.skip(detail.len() - said.len()));
            let mid = " exit code "@ + crate::text::code_form(code) + ": "@;
            let at = detail.len() - said.len() - mid.len();
            assert(detail.subrange(at, at + mid.len()) =~= mid);
            assert(crate::text::occurs_at(detail, mid, at));
        },
    }
}

/// History is written only after staging went well, and a commit that was
/// made is reported as made whatever becomes of the look-up of its name.
pub proof fn law_commit_follows_staging(c: CommitView, run: CommandRun)
    ensures
        c.stage == CommitStage::Adding ==> (commit_step(c, run) is Run <==> run_succeeded(run)),
        commit_step(c, run) matches CommitNextView::Run(d) ==> d.paths == c.paths && d.repo
            == c.repo && d.message == c.message && d.stage != CommitStage::Adding,
        c.stage == CommitStage::ReadingHead ==> (commit_step(c, run) matches CommitNextView::Done(
            o,
        ) && o is Completed),
{
}

// ---------------------------------------------------------------------------
// What holds of every status and diff
// ---------------------------------------------------------------------------

/// A call needs a scope that names its repository, in its canonical form, where
/// the input names one that is allowed and the scope is well formed. In every
/// other case it needs the scope that nobody holds.
pub proof fn law_a_scope_is_for_the_named_repo(
    base: Seq<char>,
    input: JsonView,
    canonical: Option<Seq<char>>,
    repos: Seq<Seq<char>>,
    legal: bool,
    denied: Seq<char>,
)
    ensures
        scope_for(base, resolved_repo(input, canonical, repos), legal, denied) == (if legal
            && input.get_str("repo"@) is Some && (canonical matches Some(p) && repos.contains(p)) {
            base + canonical->0
        } else {
            denied
        }),
{
}

/// Each line of four bytes or more is an entry, in the order of the lines, and
/// no other line is.
pub proof fn law_every_long_line_is_an_entry(lines: Seq<Seq<char>>)
    ensures
        status_entries(lines) == lines.filter(|line: Seq<char>| utf8_len(line) >= 4).map_values(
            |line: Seq<char>| status_entry(line),
        ),
    decreases lines.len(),
{
    let long = |line: Seq<char>| utf8_len(line) >= 4;
    let entry = |line: Seq<char>| status_entry(line);
    if lines.len() > 0 {
        law_every_long_line_is_an_entry(lines.drop_last());
        reveal(Seq::filter);
        let rest = lines.drop_last().filter(long);
        assert(rest.push(lines.last()).map_values(entry) =~= rest.map_values(entry).push(
            entry(lines.last()),
        ));
    } else {
        reveal(Seq::filter);
        assert(lines.filter(long).map_values(entry) =~= Seq::<JsonView>::empty());
    }
}

/// An entry and its line say the same: the line is the status code, which has
/// two bytes, one byte more, and the path.
pub proof fn law_an_entry_is_its_line(line: Seq<char>)
    requires
        utf8_len(line) >= 4,
        line_is_sound(line),
    ensures
        status_entry(line).get_str("status_code"@) matches Some(code) && (status_entry(line).get_str(
            "path"@,
        ) matches Some(path) && {
            &&& utf8_len(code) == 2
            &&& exists|gap: Seq<char>| line == code + gap + path && #[trigger] utf8_len(gap) == 1
        }),
{
    let m = status_entry(line)->Object_0;
    reveal_strlit("path");
    reveal_strlit("status_code");
    assert("path"@.len() != "status_code"@.len());
    assert(m[0].0 == "path"@);
    assert(m[1].0 == "status_code"@);
    law_a_member_is_found_by_its_name(m, 0);
    law_a_member_is_found_by_its_name(m, 1);
    let two = byte_prefix(line, 2);
    let three = byte_prefix(line, 3);
    lemma_byte_prefix(line, 2);
    lemma_byte_prefix(line, 3);
    lemma_utf8_len_grows(line, two.len() as int, three.len() as int);
    let gap = line.subrange(two.len() as int, three.len() as int);
    lemma_utf8_len_adds(two, gap);
    assert(two + gap =~= three);
    assert(line =~= two + gap + line.skip(three.len() as int));
}

proof fn lemma_utf8_len_adds(a: Seq<char>, b: Seq<char>)
    ensures
        utf8_len(a + b) == utf8_len(a) + utf8_len(b),
    decreases b.len(),
{
    if b.len() > 0 {
        lemma_utf8_len_adds(a, b.drop_last());
        assert((a + b).drop_last() =~= a + b.drop_last());
    } else {
        assert(a + b =~= a);
    }
}

proof fn lemma_utf8_len_grows(s: Seq<char>, i: int, j: int)
    requires
        0 <= i <= s.len(),
        0 <= j <= s.len(),
        utf8_len(s.take(i)) < utf8_len(s.take(j)),
    ensures
        i < j,
{
    if j <= i {
        lemma_utf8_len_adds(s.take(j), s.subrange(j, i));
        assert(s.take(j) + s.subrange(j, i) =~= s.take(i));
    }
}

/// Where `git status` went well, the answer names the repository and lists the
/// entries of what was printed; otherwise it is a failure of the tool that ends
/// with what the system or `git` says.
pub proof fn law_a_status_answers_what_git_says(id: ToolId, repo: Seq<char>, run: CommandRun)
    ensures
        match run {
            CommandRun::Exited { code, stdout, stderr } => if code == Some(0i32) {
                &&& status_outcome(id, repo, run) matches OutcomeView::Completed { output, verified }
                &&& output.get_str("repo"@) == Some(repo)
                &&& output.get_array("entries"@) == Some(
                    lines_of(stdout@).filter(|line: Seq<char>| utf8_len(line) >= 4).map_values(
                        |line: Seq<char>| status_entry(line),
                    ),
                )
                &&& verified == Verification::Verified
            } else {
                &&& status_outcome(id, repo, run) matches OutcomeView::Failed(
                    ErrorView::Tool { tool, detail },
                )
                &&& tool == id
                &&& trimmed(stderr@).is_suffix_of(detail)
            },
            CommandRun::SpawnFailed(e) => {
                &&& status_outcome(id, repo, run) matches OutcomeView::Failed(
                    ErrorView::Tool { tool, detail },
                )
                &&& tool == id
                &&& e@.is_suffix_of(detail)
            },
        },
{
    match run {
        CommandRun::Exited { code, stdout, stderr } => if code == Some(0i32) {
            law_every_long_line_is_an_entry(lines_of(stdout@));
            let m = status_outcome(id, repo, run)->Completed_output->Object_0;
            reveal_strlit("entries");
            reveal_strlit("repo");
            assert("entries"@.len() != "repo"@.len());
            assert(m[0].0 == "entries"@);
            assert(m[1].0 == "repo"@);
            law_a_member_is_found_by_its_name(m, 0);
            law_a_member_is_found_by_its_name(m, 1);
        } else {
            let detail = status_outcome(id, repo, run)->Failed_0->Tool_detail;
            let said = trimmed(stderr@);
            assert(said =~= detail.skip(detail.len() - said.len()));
        },
        CommandRun::SpawnFailed(e) => {
            let detail = status_outcome(id, repo, run)->Failed_0->Tool_detail;
            assert(e@ =~= detail.skip(detail.len() - e@.len()));
        },
    }
}

/// A diff is made in its repository, of what is staged exactly where that is
/// asked for, and of one path exactly where one is given.
pub proof fn law_a_diff_is_of_what_was_asked(
    repo: Seq<char>,
    cached: bool,
    path: Option<Seq<char>>,
)
    ensures
        ({
            let args = diff_args(repo, cached, path);
            let n = if cached {
                4int
            } else {
                3int
            };
            &&& args[0] == "-C"@
            &&& args[1] == repo
            &&& args[2] == "diff"@
            &&& cached ==> args[3] == "--cached"@
            &&& match path {
                Some(p) => args.skip(n) == seq!["--"@, p],
                None => args.len() == n,
            }
        }),
{
    let args = diff_args(repo, cached, path);
    let n = if cached {
        4int
    } else {
        3int
    };
    if let Some(p) = path {
        assert(args.skip(n) =~= seq!["--"@, p]);
    }
}

/// Where `git diff` went well, the answer holds what was printed, as it was
/// printed, beside the repository, the path and whether it is of what is staged;
/// otherwise it is a failure of the tool that ends with what the system or
/// `git` says.
pub proof fn law_a_diff_answers_what_git_says(
    id: ToolId,
    repo: Seq<char>,
    cached: bool,
    path: Option<Seq<char>>,
    run: CommandRun,
)
    ensures
        match run {
            CommandRun::Exited { code, stdout, stderr } => if code == Some(0i32) {
                &&& diff_outcome(id, repo, cached, path, run) matches OutcomeView::Completed {
                    output,
                    verified,
                }
                &&& output.get_str("diff"@) == Some(stdout@)
                &&& output.get_str("repo"@) == Some(repo)
                &&& output.get_bool("cached"@) == Some(cached)
                &&& match path {
                    Some(p) => output.get_str("path"@) == Some(p),
                    None => output.get("path"@) == Some(JsonView::Null),
                }
                &&& verified == Verification::Verified
            } else {
                &&& diff_outcome(id, repo, cached, path, run) matches OutcomeView::Failed(
                    ErrorView::Tool { tool, detail },
                )
                &&& tool == id
                &&& trimmed(stderr@).is_suffix_of(detail)
            },
            CommandRun::SpawnFailed(e) => {
                &&& diff_outcome(id, repo, cached, path, run) matches OutcomeView::Failed(
                    ErrorView::Tool { tool, detail },
                )
                &&& tool == id
                &&& e@.is_suffix_of(detail)
            },
        },
{
    let outcome = diff_outcome(id, repo, cached, path, run);
    match run {
        CommandRun::Exited { code, stdout, stderr } => if code == Some(0i32) {
            let m = outcome->Completed_output->Object_0;
            reveal_strlit("cached");
            reveal_strlit("diff");
            reveal_strlit("path");
            reveal_strlit("repo");
            assert("cached"@.len() != "diff"@.len());
            assert("cached"@.len() != "path"@.len());
            assert("cached"@.len() != "repo"@.len());
            assert("diff"@[0] != "path"@[0]);
            assert("diff"@[0] != "repo"@[0]);
            assert("path"@[0] != "repo"@[0]);
            assert(m[0].0 == "cached"@);
            assert(m[1].0 == "diff"@);
            assert(m[2].0 == "path"@);
            assert(m[3].0 == "repo"@);
            law_a_member_is_found_by_its_name(m, 0);
            law_a_member_is_found_by_its_name(m, 1);
            law_a_member_is_found_by_its_name(m, 2);
            law_a_member_is_found_by_its_name(m, 3);
        } else {
            let detail = outcome->Failed_0->Tool_detail;
            let said = trimmed(stderr@);
            assert(said =~= detail.skip(detail.len() - said.len()));
        },
        CommandRun::SpawnFailed(e) => {
            let detail = outcome->Failed_0->Tool_detail;
            assert(e@ =~= detail.skip(detail.len() - e@.len()));
        },
    }
}

/// A diff is of what is staged only where the input says so outright.
pub proof fn law_staged_diffs_are_asked_for(input: JsonView)
    ensures
        wants_cached(input) <==> input.get("cached"@) == Some(JsonView::Bool(true)),
{
}

/// What is allowed is the canonical form of each configured path, in their
/// order; and a path is a repository exactly where it was resolved to a
/// directory with a `.git` in it.
pub proof fn law_canonical_forms_are_allowed(probes: Seq<RepoProbe>, i: int)
    requires
        0 <= i < probes.len(),
    ensures
        canonical_forms(probes).len() == probes.len(),
        match probes[i] {
            RepoProbe::Resolved { canonical, is_dir, has_git } => canonical_forms(probes)[i]
                == canonical@ && is_repo(probes[i]) == (is_dir && has_git),
            RepoProbe::Unresolved(_) => !is_repo(probes[i]),
        },
{
}

/// A complaint about a configured path starts with whose setting it is and
/// names the path; about one that could not be resolved, it says why.
pub proof fn law_complaints_name_the_path(label: Seq<char>, repo: Seq<char>, probe: RepoProbe)
    ensures
        label.is_prefix_of(repo_complaint(label, repo, probe)),
        probe matches RepoProbe::Unresolved(reason) ==> reason@.is_suffix_of(
            repo_complaint(label, repo, probe),
        ) && occurs(repo_complaint(label, repo, probe), path_form(repo)),
        probe matches RepoProbe::Resolved { canonical, is_dir, .. } ==> occurs(
            repo_complaint(label, repo, probe),
            path_form(canonical@),
        ) && (if is_dir {
            " is not a git repo (no .git/ entry)"@
        } else {
            " is not a directory"@
        }).is_suffix_of(repo_complaint(label, repo, probe)),
{
    let text = repo_complaint(label, repo, probe);
    let at = label.len() + " allow-set entry "@.len() as int;
    assert(label =~= text.take(label.len() as int));
    match probe {
        RepoProbe::Unresolved(reason) => {
            assert(reason@ =~= text.skip(text.len() - reason@.len()));
            assert(text.subrange(at, at + path_form(repo).len()) =~= path_form(repo));
            assert(crate::text::occurs_at(text, path_form(repo), at));
        },
        RepoProbe::Resolved { canonical, is_dir, has_git } => {
            let form = path_form(canonical@);
            let end = if is_dir {
                " is not a git repo (no .git/ entry)"@
            } else {
                " is not a directory"@
            };
            assert(end =~= text.skip(text.len() - end.len()));
            assert(text.subrange(at, at + form.len()) =~= form);
            assert(crate::text::occurs_at(text, form, at));
        },
    }
}

// ---------------------------------------------------------------------------
// What is asked of an input, and why it is refused
// ---------------------------------------------------------------------------

/// Every schema asks for a repository and declares the fields that the tool
/// reads, each with the type that is read: the flag and the path of a diff, the
/// message, the paths and the confirmation of a commit.
pub proof fn law_schemas_declare_what_is_read()
    ensures
        ({
            &&& status_schema().get_str("type"@) == Some("object"@)
            &&& status_schema().get_array("required"@) == Some(seq![JsonView::Str("repo"@)])
            &&& status_schema().get("properties"@) matches Some(p)
            &&& p.get("repo"@) matches Some(f)
            &&& f.get_str("type"@) == Some("string"@)
        }),
        ({
            &&& diff_schema().get_str("type"@) == Some("object"@)
            &&& diff_schema().get_array("required"@) == Some(seq![JsonView::Str("repo"@)])
            &&& diff_schema().get("properties"@) matches Some(p)
            &&& p.get("repo"@) matches Some(f)
            &&& f.get_str("type"@) == Some("string"@)
            &&& p.get("cached"@) matches Some(g)
            &&& g.get_str("type"@) == Some("boolean"@)
            &&& p.get("path"@) matches Some(h)
            &&& h.get_str("type"@) == Some("string"@)
        }),
        ({
            &&& commit_schema().get_str("type"@) == Some("object"@)
            &&& commit_schema().get_array("required"@) == Some(
                seq![JsonView::Str("repo"@), JsonView::Str("message"@), JsonView::Str("paths"@)],
            )
            &&& commit_schema().get("properties"@) matches Some(p)
            &&& p.get("repo"@) matches Some(f)
            &&& f.get_str("type"@) == Some("string"@)
            &&& p.get("message"@) matches Some(g)
            &&& g.get_str("type"@) == Some("string"@)
            &&& p.get("confirmed"@) matches Some(h)
            &&& h.get_str("type"@) == Some("boolean"@)
            &&& p.get("paths"@) matches Some(k)
            &&& k.get_str("type"@) == Some("array"@)
            &&& k.get_u64("minItems"@) == Some(1u64)
            &&& k.get("items"@) matches Some(i)
            &&& i.get_str("type"@) == Some("string"@)
        }),
{
    let repo = "Path to a configured allowed git repo."@;
    law_a_field_has_its_type("string"@, repo);
    law_an_object_has_its_properties(seq![repo_field()], seq!["repo"@]);
    assert(seq!["repo"@].map_values(|name: Seq<char>| JsonView::Str(name)) =~= seq![
        JsonView::Str("repo"@),
    ]);
    let sm = status_schema().get("properties"@)->0->Object_0;
    law_a_member_is_found_by_its_name(sm, 0);
    lemma_diff_schema();
    lemma_commit_schema();
}

proof fn lemma_diff_schema()
    ensures
        ({
            &&& diff_schema().get_str("type"@) == Some("object"@)
            &&& diff_schema().get_array("required"@) == Some(seq![JsonView::Str("repo"@)])
            &&& diff_schema().get("properties"@) matches Some(p)
            &&& p.get("repo"@) matches Some(f)
            &&& f.get_str("type"@) == Some("string"@)
            &&& p.get("cached"@) matches Some(g)
            &&& g.get_str("type"@) == Some("boolean"@)
            &&& p.get("path"@) matches Some(h)
            &&& h.get_str("type"@) == Some("string"@)
        }),
{
    let of_repo = "Path to a configured allowed git repo."@;
    let of_cached = "When true, show the staged diff (`git diff --cached`). Default false."@;
    let of_path =
        "Optional repo-relative path to scope the diff to one file or directory. Must not start with `/` and must not contain `..`."@;
    let m = seq![
        ("cached"@, field_schema("boolean"@, of_cached)),
        ("path"@, field_schema("string"@, of_path)),
        repo_field(),
    ];
    law_a_field_has_its_type("string"@, of_repo);
    law_a_field_has_its_type("boolean"@, of_cached);
    law_a_field_has_its_type("string"@, of_path);
    law_an_object_has_its_properties(m, seq!["repo"@]);
    assert(seq!["repo"@].map_values(|name: Seq<char>| JsonView::Str(name)) =~= seq![
        JsonView::Str("repo"@),
    ]);
    reveal_strlit("cached");
    reveal_strlit("path");
    reveal_strlit("repo");
    assert("cached"@.len() != "path"@.len());
    assert("cached"@.len() != "repo"@.len());
    assert("path"@[0] != "repo"@[0]);
    assert(m[0].0 == "cached"@);
    assert(m[1].0 == "path"@);
    assert(m[2].0 == "repo"@);
    law_a_member_is_found_by_its_name(m, 0);
    law_a_member_is_found_by_its_name(m, 1);
    law_a_member_is_found_by_its_name(m, 2);
}

proof fn lemma_commit_schema()
    ensures
        ({
            &&& commit_schema().get_str("type"@) == Some("object"@)
            &&& commit_schema().get_array("required"@) == Some(
                seq![JsonView::Str("repo"@), JsonView::Str("message"@), JsonView::Str("paths"@)],
            )
            &&& commit_schema().get("properties"@) matches Some(p)
            &&& p.get("repo"@) matches Some(f)
            &&& f.get_str("type"@) == Some("string"@)
            &&& p.get("message"@) matches Some(g)
            &&& g.get_str("type"@) == Some("string"@)
            &&& p.get("confirmed"@) matches Some(h)
            &&& h.get_str("type"@) == Some("boolean"@)
            &&& p.get("paths"@) == Some(paths_schema())
            &&& paths_schema().get_str("type"@) == Some("array"@)
            &&& paths_schema().get_u64("minItems"@) == Some(1u64)
            &&& paths_schema().get("items"@) matches Some(i)
            &&& i.get_str("type"@) == Some("string"@)
        }),
{
    let of_repo = "Path to a configured allowed git repo."@;
    let of_confirmed =
        "Set to `true` ONLY after the operator has approved this specific commit. Required when the operator has enabled confirm-first for destructive operations."@;
    let of_message = "Commit message. Must be non-empty."@;
    let m = seq![
        ("confirmed"@, field_schema("boolean"@, of_confirmed)),
        ("message"@, field_schema("string"@, of_message)),
        ("paths"@, paths_schema()),
        repo_field(),
    ];
    let needed = seq!["repo"@, "message"@, "paths"@];
    law_a_field_has_its_type("string"@, of_repo);
    law_a_field_has_its_type("boolean"@, of_confirmed);
    law_a_field_has_its_type("string"@, of_message);
    law_an_object_has_its_properties(m, needed);
    assert(needed.map_values(|name: Seq<char>| JsonView::Str(name)) =~= seq![
        JsonView::Str("repo"@),
        JsonView::Str("message"@),
        JsonView::Str("paths"@),
    ]);
    reveal_strlit("confirmed");
    reveal_strlit("message");
    reveal_strlit("paths");
    reveal_strlit("repo");
    assert("confirmed"@.len() != "message"@.len());
    assert("confirmed"@.len() != "paths"@.len());
    assert("confirmed"@.len() != "repo"@.len());
    assert("message"@.len() != "paths"@.len());
    assert("message"@.len() != "repo"@.len());
    assert("paths"@.len() != "repo"@.len());
    assert(m[0].0 == "confirmed"@);
    assert(m[1].0 == "message"@);
    assert(m[2].0 == "paths"@);
    assert(m[3].0 == "repo"@);
    law_a_member_is_found_by_its_name(m, 0);
    law_a_member_is_found_by_its_name(m, 1);
    law_a_member_is_found_by_its_name(m, 2);
    law_a_member_is_found_by_its_name(m, 3);
    let q = paths_schema()->Object_0;
    reveal_strlit("description");
    reveal_strlit("items");
    reveal_strlit("minItems");
    reveal_strlit("type");
    assert("description"@.len() != "items"@.len());
    assert("description"@.len() != "minItems"@.len());
    assert("description"@.len() != "type"@.len());
    assert("items"@.len() != "minItems"@.len());
    assert("items"@.len() != "type"@.len());
    assert("minItems"@.len() != "type"@.len());
    assert(q[0].0 == "description"@);
    assert(q[1].0 == "items"@);
    assert(q[2].0 == "minItems"@);
    assert(q[3].0 == "type"@);
    law_a_member_is_found_by_its_name(q, 0);
    law_a_member_is_found_by_its_name(q, 1);
    law_a_member_is_found_by_its_name(q, 2);
    law_a_member_is_found_by_its_name(q, 3);
    let i = q[1].1->Object_0;
    law_a_member_is_found_by_its_name(i, 0);
}

/// A refused commit is told the first thing that is wrong with it: the
/// repository, then the message, then the paths, by the first that cannot be
/// used, and at last that it is not confirmed, with how many paths it would
/// stage and where.
pub proof fn law_a_refused_commit_is_told_why(
    tool: CommitToolView,
    input: JsonView,
    canonical: Option<Seq<char>>,
)
    ensures
        ({
            let refusal = commit_refusal(tool, input, canonical);
            let allowed = input.get_str("repo"@) is Some && (canonical matches Some(p)
                && tool.repos.contains(p));
            let worded = input.get_str("message"@) matches Some(m) && !blank(m);
            &&& !allowed ==> refusal == Some(
                "git.commit: `repo` field missing or not in allow-set"@,
            )
            &&& allowed && !worded ==> refusal == Some(
                "git.commit: `message` must be a non-empty string"@,
            )
            &&& allowed && worded ==> match input.get_array("paths"@) {
                Some(items) => if items.len() == 0 {
                    refusal == Some(
                        "git.commit: `paths` must be a non-empty array of repo-relative file paths to stage"@,
                    )
                } else {
                    forall|i: int|
                        {
                            &&& 0 <= i < items.len()
                            &&& forall|j: int|
                                0 <= j < i ==> ((#[trigger] items[j]).str() matches Some(p)
                                    && !leads_out(p))
                        } ==> match (#[trigger] items[i]).str() {
                            None => refusal == Some(
                                "git.commit: every entry in `paths` must be a string"@,
                            ),
                            Some(p) => leads_out(p) ==> (refusal matches Some(text) && debug_form(
                                p,
                            ).is_suffix_of(text)),
                        }
                },
                None => refusal == Some(
                    "git.commit: `paths` must be a non-empty array of repo-relative file paths to stage"@,
                ),
            }
        }),
{
    if let Some(items) = input.get_array("paths"@) {
        assert forall|i: int|
            {
                &&& 0 <= i < items.len()
                &&& forall|j: int|
                    0 <= j < i ==> ((#[trigger] items[j]).str() matches Some(p) && !leads_out(p))
            } implies match (#[trigger] items[i]).str() {
            None => paths_problem(items) == Some(
                "git.commit: every entry in `paths` must be a string"@,
            ),
            Some(p) => leads_out(p) ==> (paths_problem(items) matches Some(text) && debug_form(
                p,
            ).is_suffix_of(text)),
        } by {
            lemma_first_problem(items, i);
        }
    }
}

proof fn lemma_first_problem(items: Seq<JsonView>, i: int)
    requires
        0 <= i < items.len(),
        forall|j: int|
            0 <= j < i ==> ((#[trigger] items[j]).str() matches Some(p) && !leads_out(p)),
    ensures
        match items[i].str() {
            None => paths_problem(items) == Some(
                "git.commit: every entry in `paths` must be a string"@,
            ),
            Some(p) => leads_out(p) ==> (paths_problem(items) matches Some(text) && debug_form(
                p,
            ).is_suffix_of(text)),
        },
    decreases items.len(),
{
    if i > 0 {
        let rest = items.drop_first();
        assert(items[0].str() is Some);
        assert forall|j: int| 0 <= j < i - 1 implies ((#[trigger] rest[j]).str() matches Some(p)
            && !leads_out(p)) by {
            assert(rest[j] == items[j + 1]);
        }
        lemma_first_problem(rest, i - 1);
    } else if let Some(p) = items[0].str() {
        if leads_out(p) {
            let text = paths_problem(items)->0;
            assert(debug_form(p) =~= text.skip(text.len() - debug_form(p).len()));
        }
    }
}

/// Who has not confirmed a commit is told how many paths it would stage, and in
/// which repository.
pub proof fn law_an_unconfirmed_commit_is_explained(
    tool: CommitToolView,
    input: JsonView,
    canonical: Option<Seq<char>>,
)
    requires
        commit_refusal(
            CommitToolView { confirm_destructive: false, ..tool },
            input,
            canonical,
        ) is None,
        tool.confirm_destructive,
        input.get_bool("confirmed"@) != Some(true),
    ensures
        commit_refusal(tool, input, canonical) matches Some(text) && begins_with(
            text,
            "git.commit: refusing to commit "@ + decimal_text(input.get_array("paths"@)->0.len())
                + " path(s) to "@ + canonical->0 + " without confirmation."@,
        ),
{
    let start = "git.commit: refusing to commit "@ + decimal_text(
        input.get_array("paths"@)->0.len(),
    ) + " path(s) to "@ + canonical->0 + " without confirmation."@;
    let text = commit_refusal(tool, input, canonical)->0;
    let long =
        " without confirmation. This writes repo history and the operator enabled confirm-first (`[access] confirm_destructive`). Show the operator the paths and message, get approval, then re-call with `confirmed: true`."@;
    reveal_strlit(" without confirmation.");
    reveal_strlit(
        " without confirmation. This writes repo history and the operator enabled confirm-first (`[access] confirm_destructive`). Show the operator the paths and message, get approval, then re-call with `confirmed: true`.",
    );
    assert(" without confirmation."@ =~= long.take(" without confirmation."@.len() as int));
    assert(text.subrange(0, start.len() as int) =~= start);
}

/// A commit under way is known by what it stands for.
pub proof fn law_commits_are_told_apart(a: CommitRun, b: CommitRun)
    requires
        a@ == b@,
    ensures
        a.tool == b.tool,
        a.repo@ == b.repo@,
        a.message@ == b.message@,
        texts(a.paths@) == texts(b.paths@),
        a.checkpoint == b.checkpoint,
        a.stage == b.stage,
{
}

/// A status is taken in its repository, in the form that can be taken apart, and
/// of every file that is not tracked.
pub proof fn law_a_status_is_of_the_whole_repo(repo: Seq<char>)
    ensures
        ({
            let args = status_args(repo);
            &&& args.len() == 5
            &&& args[0] == "-C"@
            &&& args[1] == repo
            &&& args[2] == "status"@
            &&& args.contains("--porcelain"@)
            &&& args.contains("--untracked-files=all"@)
        }),
{
    let args = status_args(repo);
    assert(args[3] == "--porcelain"@);
    assert(args[4] == "--untracked-files=all"@);
}

/// A diff that is made is the one that its input asks for: in the repository it
/// names, of what is staged exactly where it says so, and of just the path that
/// it gives, if it gives one.
pub proof fn law_a_diff_is_the_one_asked_for(input: JsonView, repo: Seq<char>)
    ensures
        ({
            let d = diff_asked_for(input, repo);
            &&& d.repo == repo
            &&& d.args[1] == repo
            &&& d.cached <==> input.get("cached"@) == Some(JsonView::Bool(true))
            &&& d.cached ==> d.args[3] == "--cached"@
            &&& match input.get("path"@) {
                Some(JsonView::Str(p)) => d.path == Some(p) && d.args.last() == p
                    && d.args[d.args.len() - 2] == "--"@,
                _ => d.path is None && d.args.len() == if d.cached {
                    4int
                } else {
                    3int
                },
            }
        }),
{
}

/// A tool is made as it was configured: it may touch the configured paths, in
/// their canonical forms and no others, and keeps what was set about
/// confirmation, confinement and checkpoints.
pub proof fn law_tools_are_made_as_configured(
    read: ReadConfigView,
    write: WriteConfigView,
    probes: Seq<RepoProbe>,
    id: ToolId,
)
    requires
        forall|i: int| 0 <= i < probes.len() ==> is_repo(#[trigger] probes[i]),
    ensures
        ({
            let r = read_tool(read, probes, id);
            let w = write_tool(write, probes, id);
            &&& r.id == id && w.id == id
            &&& r.repos.len() == probes.len() && w.repos.len() == probes.len()
            &&& forall|i: int|
                0 <= i < probes.len() ==> (#[trigger] probes[i] matches RepoProbe::Resolved {
                    canonical,
                    ..
                } && r.repos[i] == canonical@ && w.repos[i] == canonical@)
            &&& r.require_enforcement == read.require_enforcement
            &&& w.require_enforcement == write.require_enforcement
            &&& w.confirm_destructive == write.confirm_destructive
            &&& w.checkpointers == write.checkpointers
        }),
{
    assert forall|i: int| 0 <= i < probes.len() implies (#[trigger] probes[i] matches
    RepoProbe::Resolved { canonical, .. } && canonical_forms(probes)[i] == canonical@) by {
        assert(is_repo(probes[i]));
    }
}

} // verus!
