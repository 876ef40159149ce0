use aivyx::json::Json;
use aivyx::outcome::{AivyxError, ToolId, ToolOutcome, Verification};
use aivyx::planner::Tool;
use aivyx::tools::command::CommandRun;
use aivyx::tools::git::{
    commit_input_schema, deny_scope, diff_input_schema, is_porcelain, may_confine,
    parse_porcelain, resolve_repo, status_input_schema, write_deny_scope, CommitNext, CommitRun,
    GitCommitTool, GitReadToolConfig, GitStatusTool, GitWriteToolConfig, RepoProbe, WarnedRepos,
};
use aivyx::tools::quality::check_tool_quality;
use aivyx::tools::routing::{
    Availability, Candidate, Decision, RoutingExplainTool, RoutingStatusTool,
};
use aivyx::tools::shell::{
    candidate_paths, child_env, input_timeout_ms, lexical_resolve, sensitive_command_hit,
    words_of, RootProbe, ShellExecTool, ShellExecToolConfig, ShellResult, ShellRun,
};
use aivyx::tools::skill_defaults::{
    render_default_skills_section, render_exclusion_notice, render_skill_entry, Skill,
    SkillDefaultsListTool, SkillDefaultsReadTool, SkillSource, SkillSummary,
};

// ---------------------------------------------------------------------------
// Helpers
// ---------------------------------------------------------------------------

fn s(text: &str) -> Json {
    Json::Str(text.to_string())
}

fn obj(members: Vec<(&str, Json)>) -> Json {
    Json::Object(members.into_iter().map(|(k, v)| (k.to_string(), v)).collect())
}

fn parsed(j: &Json) -> serde_json::Value {
    serde_json::from_str(&j.to_text()).unwrap()
}

fn output(outcome: ToolOutcome) -> serde_json::Value {
    match outcome {
        ToolOutcome::Completed { output, .. } => parsed(&output),
        other => panic!("expected Completed, got {other:?}"),
    }
}

fn detail(outcome: &ToolOutcome) -> String {
    match outcome {
        ToolOutcome::Failed(AivyxError::Tool { detail, .. }) => detail.clone(),
        other => panic!("expected Failed(Tool), got {other:?}"),
    }
}

fn texts(v: &[&str]) -> Vec<String> {
    v.iter().map(|t| t.to_string()).collect()
}

fn repo_at(path: &str) -> RepoProbe {
    RepoProbe::Resolved { canonical: path.to_string(), is_dir: true, has_git: true }
}

fn exited(code: i32, stdout: &str, stderr: &str) -> CommandRun {
    CommandRun::Exited {
        code: Some(code),
        stdout: stdout.to_string(),
        stderr: stderr.to_string(),
    }
}

// ---------------------------------------------------------------------------
// git.status and git.diff
// ---------------------------------------------------------------------------

#[test]
fn parse_porcelain_handles_typical_status_lines() {
    let entries = parse_porcelain(" M src/foo.rs\n?? new.txt\nA  staged.rs\n");
    assert_eq!(entries.len(), 3);
    assert_eq!(parsed(&entries[0])["status_code"], " M");
    assert_eq!(parsed(&entries[0])["path"], "src/foo.rs");
    assert_eq!(parsed(&entries[1])["status_code"], "??");
    assert_eq!(parsed(&entries[1])["path"], "new.txt");
    assert_eq!(parsed(&entries[2])["status_code"], "A ");
    assert_eq!(parsed(&entries[2])["path"], "staged.rs");
}

#[test]
fn parse_porcelain_empty_stdout_returns_empty_vec() {
    assert!(parse_porcelain("").is_empty());
}

#[test]
fn parse_porcelain_handles_rename_arrow_form() {
    let entries = parse_porcelain("R  old.rs -> new.rs\n");
    assert_eq!(entries.len(), 1);
    assert_eq!(parsed(&entries[0])["status_code"], "R ");
    assert_eq!(parsed(&entries[0])["path"], "old.rs -> new.rs");
}

#[test]
fn parse_porcelain_skips_too_short_lines() {
    let entries = parse_porcelain("X\n  \nA  ok.rs\n");
    assert_eq!(entries.len(), 1);
    assert_eq!(parsed(&entries[0])["path"], "ok.rs");
}

#[test]
fn porcelain_is_cut_between_characters_only() {
    assert!(is_porcelain(" M größe.txt\n"));
    assert!(is_porcelain("é\n"));
    assert!(!is_porcelain("Mé x\n"));
}

#[test]
fn deny_scope_parses_and_is_unsatisfiable() {
    assert_eq!(deny_scope(), "git.read:/__aivyx_unresolvable__");
    assert_ne!(deny_scope(), "git.read:/home/me/projects/aivyx");
}

#[test]
fn write_deny_scope_is_git_write_and_unsatisfiable() {
    assert!(write_deny_scope().starts_with("git.write:"));
    assert_ne!(write_deny_scope(), "git.write:/home/me/projects/aivyx");
    assert_ne!(write_deny_scope(), deny_scope());
}

#[test]
fn resolve_repo_returns_none_when_input_missing() {
    let allowed = texts(&["/tmp"]);
    assert!(resolve_repo(&obj(vec![]), &None, &allowed).is_none());
    assert!(resolve_repo(&obj(vec![]), &Some("/tmp".to_string()), &allowed).is_none());
}

#[test]
fn resolve_repo_returns_none_when_input_not_in_allow_set() {
    let allowed = texts(&["/definitely-not-a-real-path-aivyx"]);
    let input = obj(vec![("repo", s("/tmp"))]);
    assert!(resolve_repo(&input, &Some("/tmp".to_string()), &allowed).is_none());
    assert!(resolve_repo(&input, &None, &allowed).is_none());
}

#[test]
fn status_input_schema_requires_repo() {
    assert_eq!(parsed(&status_input_schema())["required"][0], "repo");
}

#[test]
fn diff_input_schema_requires_repo_and_allows_optional_cached_and_path() {
    let schema = parsed(&diff_input_schema());
    assert_eq!(schema["required"][0], "repo");
    assert!(schema["properties"].as_object().unwrap().contains_key("cached"));
    assert!(schema["properties"].as_object().unwrap().contains_key("path"));
}

#[test]
fn config_build_rejects_nonexistent_path() {
    let config = GitReadToolConfig::new(texts(&["/definitely-not-a-real-path-aivyx-git"]));
    let err = config.build(&vec![RepoProbe::Unresolved("no such file".to_string())]).unwrap_err();
    assert_eq!(
        err,
        AivyxError::Config(
            "git.read allow-set entry \"/definitely-not-a-real-path-aivyx-git\" cannot be \
             canonicalized: no such file"
                .to_string()
        )
    );
}

#[test]
fn config_build_rejects_path_that_is_not_a_git_repo() {
    let probe =
        RepoProbe::Resolved { canonical: "/tmp".to_string(), is_dir: true, has_git: false };
    match GitReadToolConfig::new(texts(&["/tmp"])).build(&vec![probe]).unwrap_err() {
        AivyxError::Config(msg) => assert!(msg.contains("not a git repo"), "{msg}"),
        other => panic!("expected Config, got {other:?}"),
    }
}

#[test]
fn write_config_rejects_non_repo_dir() {
    let probe =
        RepoProbe::Resolved { canonical: "/tmp".to_string(), is_dir: true, has_git: false };
    match GitWriteToolConfig::new(texts(&["/tmp"])).build(&vec![probe]).unwrap_err() {
        AivyxError::Config(msg) => assert!(msg.contains("not a git repo"), "{msg}"),
        other => panic!("expected Config, got {other:?}"),
    }
}

#[test]
fn a_file_is_no_repository() {
    let probe =
        RepoProbe::Resolved { canonical: "/etc/hosts".to_string(), is_dir: false, has_git: false };
    match GitReadToolConfig::new(texts(&["/r", "/x"])).build(&vec![repo_at("/r"), probe]) {
        Err(AivyxError::Config(msg)) => {
            assert_eq!(msg, "git.read allow-set entry \"/etc/hosts\" is not a directory")
        }
        other => panic!("expected Config, got {other:?}"),
    }
}

#[test]
fn git_status_output_is_untrusted_for_bulwark() {
    let (status, _) = GitReadToolConfig::new(vec![]).build(&vec![]).unwrap();
    assert!(status.output_is_untrusted());
}

#[test]
fn git_diff_output_is_untrusted_for_bulwark() {
    let (_, diff) = GitReadToolConfig::new(vec![]).build(&vec![]).unwrap();
    assert!(diff.output_is_untrusted());
}

fn status_tool() -> GitStatusTool {
    GitReadToolConfig::new(texts(&["/link"])).build(&vec![repo_at("/repo")]).unwrap().0
}

#[test]
fn status_runs_in_the_canonical_repo() {
    let tool = status_tool();
    let input = obj(vec![("repo", s("/link"))]);
    let here = Some("/repo".to_string());
    assert_eq!(tool.repos(), &texts(&["/repo"]));
    assert_eq!(tool.required_scope(&input, &here, true), "git.read:/repo");
    assert_eq!(tool.required_scope(&input, &here, false), deny_scope());
    assert_eq!(tool.required_scope(&input, &None, true), deny_scope());
    let command = tool.command(&input, &here).unwrap();
    assert_eq!(
        command.args,
        texts(&["-C", "/repo", "status", "--porcelain", "--untracked-files=all"])
    );
    let refused = tool.command(&input, &Some("/other".to_string())).unwrap_err();
    assert_eq!(detail(&refused), "git.status: `repo` field missing or not in allow-set");
}

#[test]
fn status_shows_what_git_prints() {
    let tool = status_tool();
    let shown = output(tool.finish("/repo", &exited(0, "?? a.txt\n", "")));
    assert_eq!(shown["repo"], "/repo");
    assert_eq!(shown["entries"][0]["path"], "a.txt");
    let failed = tool.finish("/repo", &exited(128, "", "fatal: broken\n"));
    assert_eq!(detail(&failed), "git.status: exit code Some(128): fatal: broken");
    let spawn = tool.finish("/repo", &CommandRun::SpawnFailed("no git".to_string()));
    assert_eq!(detail(&spawn), "git.status: spawn failed: no git");
}

#[test]
fn diff_passes_its_options_on() {
    let diff = GitReadToolConfig::new(texts(&["/repo"])).build(&vec![repo_at("/repo")]).unwrap().1;
    let here = Some("/repo".to_string());
    let input = obj(vec![("cached", Json::Bool(true)), ("path", s("src")), ("repo", s("/repo"))]);
    let plan = diff.plan(&input, &here).unwrap();
    assert_eq!(plan.command.args, texts(&["-C", "/repo", "diff", "--cached", "--", "src"]));
    let shown = output(diff.finish(&plan, &exited(0, "+line\n", "")));
    assert_eq!(shown["diff"], "+line\n");
    assert_eq!(shown["cached"], true);
    assert_eq!(shown["path"], "src");
    let bare = diff.plan(&obj(vec![("repo", s("/repo"))]), &here).unwrap();
    assert_eq!(bare.command.args, texts(&["-C", "/repo", "diff"]));
    let bad = obj(vec![("path", s("../x")), ("repo", s("/repo"))]);
    assert!(diff.plan(&bad, &here).is_err());
}

// ---------------------------------------------------------------------------
// git.commit
// ---------------------------------------------------------------------------

fn commit_tool(confirm: bool, checkpointers: &[&str]) -> GitCommitTool {
    GitWriteToolConfig::new(texts(&["/a", "/b"]))
        .with_confirm_destructive(confirm)
        .with_checkpointers(texts(checkpointers))
        .build(&vec![repo_at("/a"), repo_at("/b")])
        .unwrap()
}

fn commit_input(repo: &str, message: &str, paths: &[&str]) -> Json {
    obj(vec![
        ("message", s(message)),
        ("paths", Json::Array(paths.iter().map(|p| s(p)).collect())),
        ("repo", s(repo)),
    ])
}

fn plan(tool: &GitCommitTool, input: &Json, repo: &str) -> Result<CommitRun, ToolOutcome> {
    tool.plan(input, &Some(repo.to_string()))
}

fn next(step: CommitNext) -> CommitRun {
    match step {
        CommitNext::Run(run) => run,
        other => panic!("expected another command, got {other:?}"),
    }
}

#[test]
fn commit_input_schema_requires_repo_message_and_paths() {
    let schema = parsed(&commit_input_schema());
    let required: Vec<&str> =
        schema["required"].as_array().unwrap().iter().map(|v| v.as_str().unwrap()).collect();
    assert!(required.contains(&"repo"));
    assert!(required.contains(&"message"));
    assert!(required.contains(&"paths"));
    assert!(schema["properties"].as_object().unwrap().contains_key("confirmed"));
}

#[test]
fn git_commit_does_not_mutate_fs_root() {
    let tool = GitWriteToolConfig::new(vec![]).build(&vec![]).unwrap();
    assert!(!tool.mutates_fs_root());
}

#[test]
fn git_commit_output_is_untrusted_for_bulwark() {
    let tool = GitWriteToolConfig::new(vec![]).build(&vec![]).unwrap();
    assert!(tool.output_is_untrusted());
}

#[test]
fn commit_happy_path_stages_and_commits() {
    let tool = commit_tool(false, &[]);
    let run = plan(&tool, &commit_input("/a", "add hello", &["hello.txt"]), "/a").unwrap();
    assert_eq!(run.command().args, texts(&["-C", "/a", "add", "--", "hello.txt"]));
    let run = next(run.advance(&exited(0, "", "")));
    assert_eq!(run.command().args, texts(&["-C", "/a", "commit", "-m", "add hello"]));
    let run = next(run.advance(&exited(0, "[main abc]", "")));
    assert_eq!(run.command().args, texts(&["-C", "/a", "rev-parse", "HEAD"]));
    match run.advance(&exited(0, "0123456789abcdef\n", "")) {
        CommitNext::Done(outcome) => {
            let shown = output(outcome);
            assert_eq!(shown["committed"], true);
            assert_eq!(shown["commit"], "0123456789abcdef");
            assert_eq!(shown["paths"][0], "hello.txt");
        }
        other => panic!("expected the answer, got {other:?}"),
    }
}

#[test]
fn a_commit_whose_name_cannot_be_read_is_still_made() {
    let tool = commit_tool(false, &[]);
    let run = plan(&tool, &commit_input("/a", "m", &["f"]), "/a").unwrap();
    let run = next(next(run.advance(&exited(0, "", ""))).advance(&exited(0, "", "")));
    match run.advance(&CommandRun::SpawnFailed("gone".to_string())) {
        CommitNext::Done(outcome) => {
            let shown = output(outcome);
            assert_eq!(shown["committed"], true);
            assert_eq!(shown["commit"], "");
        }
        other => panic!("expected the answer, got {other:?}"),
    }
}

#[test]
fn a_failed_command_ends_the_commit() {
    let tool = commit_tool(false, &[]);
    let start = || plan(&tool, &commit_input("/a", "m", &["f"]), "/a").unwrap();
    match start().advance(&exited(1, "", "pathspec\n")) {
        CommitNext::Done(outcome) => {
            assert_eq!(detail(&outcome), "git.commit: `git add` exit code Some(1): pathspec")
        }
        other => panic!("expected the answer, got {other:?}"),
    }
    match next(start().advance(&exited(0, "", ""))).advance(&exited(1, "nothing to commit\n", " ")) {
        CommitNext::Done(outcome) => assert_eq!(
            detail(&outcome),
            "git.commit: `git commit` exit code Some(1): nothing to commit"
        ),
        other => panic!("expected the answer, got {other:?}"),
    }
}

#[test]
fn commit_denied_for_repo_outside_allow_set() {
    let tool = GitWriteToolConfig::new(vec![]).build(&vec![]).unwrap();
    let input = commit_input("/a", "x", &["a"]);
    assert_eq!(tool.required_scope(&input, &Some("/a".to_string()), true), write_deny_scope());
    let refused = plan(&tool, &input, "/a").unwrap_err();
    assert!(detail(&refused).contains("not in allow-set"));
}

#[test]
fn commit_confirm_first_refuses_without_confirmation() {
    let tool = commit_tool(true, &[]);
    let refused = plan(&tool, &commit_input("/a", "m", &["f.txt"]), "/a").unwrap_err();
    assert!(detail(&refused).contains("without confirmation"));
    let confirmed = obj(vec![
        ("confirmed", Json::Bool(true)),
        ("message", s("m")),
        ("paths", Json::Array(vec![s("f.txt")])),
        ("repo", s("/a")),
    ]);
    assert!(plan(&tool, &confirmed, "/a").is_ok());
}

#[test]
fn commit_rejects_path_traversal_and_empty_inputs() {
    let tool = commit_tool(false, &[]);
    let refusal = |message: &str, paths: &[&str]| {
        detail(&plan(&tool, &commit_input("/a", message, paths), "/a").unwrap_err())
    };
    assert!(refusal("m", &["../escape.txt"]).contains("must not contain"));
    assert!(refusal("m", &["ok", "/etc/passwd"]).contains("must not contain"));
    assert!(refusal("  ", &["a"]).contains("message"));
    assert!(refusal("m", &[]).contains("paths"));
    let numbers = obj(vec![
        ("message", s("m")),
        ("paths", Json::Array(vec![Json::Unsigned(1)])),
        ("repo", s("/a")),
    ]);
    assert!(detail(&plan(&tool, &numbers, "/a").unwrap_err()).contains("must be a string"));
}

#[test]
fn commit_checkpoints_the_correct_repo_when_multiple_are_configured() {
    let tool = commit_tool(false, &["/a"]);
    assert!(plan(&tool, &commit_input("/a", "m", &["f"]), "/a").unwrap().checkpoint);
    assert!(!plan(&tool, &commit_input("/b", "m", &["f"]), "/b").unwrap().checkpoint);
}

#[test]
fn commit_does_not_checkpoint_a_confirm_first_refused_call() {
    let tool = commit_tool(true, &["/a"]);
    assert!(plan(&tool, &commit_input("/a", "m", &["f"]), "/a").is_err());
}

#[test]
fn commit_skips_checkpoint_for_a_repo_with_no_entry_in_the_map() {
    let tool = commit_tool(false, &[]);
    assert!(!plan(&tool, &commit_input("/a", "m", &["f"]), "/a").unwrap().checkpoint);
}

#[test]
fn confiner_for_falls_back_to_noop_when_git_is_a_file() {
    assert!(!may_confine(true));
}

#[test]
fn confiner_for_uses_the_real_confiner_for_a_normal_repo() {
    assert!(may_confine(false));
}

#[test]
fn should_warn_once_fires_once_per_repo_then_stays_silent() {
    let mut warned = WarnedRepos::new();
    assert!(warned.should_warn_once("/a"));
    assert!(!warned.should_warn_once("/a"));
    assert!(warned.should_warn_once("/b"));
}

// ---------------------------------------------------------------------------
// shell.exec
// ---------------------------------------------------------------------------

const ROOT: &str = "/srv/sandbox";

fn shell() -> ShellExecTool {
    let probe = RootProbe::Resolved { canonical: ROOT.to_string(), is_dir: true };
    ShellExecToolConfig::new(ROOT.to_string()).build(&probe).unwrap()
}

fn cmd(text: &str) -> Json {
    obj(vec![("cmd", s(text))])
}

fn cmd_in(text: &str, cwd: &str) -> Json {
    obj(vec![("args", obj(vec![("cwd", s(cwd))])), ("cmd", s(text))])
}

fn run_of(tool: &ShellExecTool, input: &Json) -> ShellRun {
    let request = tool.prepare(input, &vec![]).unwrap();
    let cwd = request.lexical_cwd.clone();
    tool.enter(request, Ok(cwd)).unwrap()
}

#[test]
fn shell_exec_mutates_fs_root() {
    assert!(shell().mutates_fs_root());
}

#[test]
fn shell_exec_output_is_untrusted_for_bulwark() {
    assert!(shell().output_is_untrusted());
}

#[test]
fn a_root_that_is_no_directory_is_refused() {
    let unresolved = RootProbe::Unresolved("no such file".to_string());
    assert!(matches!(
        ShellExecToolConfig::new(ROOT.to_string()).build(&unresolved),
        Err(AivyxError::Config(_))
    ));
    let file = RootProbe::Resolved { canonical: ROOT.to_string(), is_dir: false };
    assert!(matches!(
        ShellExecToolConfig::new(ROOT.to_string()).build(&file),
        Err(AivyxError::Config(_))
    ));
}

#[test]
fn required_scope_uses_canonical_cwd_root_for_missing_cwd() {
    assert_eq!(shell().required_scope(&cmd("echo hi"), true), format!("shell.exec:cwd:{ROOT}"));
}

#[test]
fn required_scope_uses_subdir_when_cwd_set() {
    let sub = format!("{ROOT}/sub");
    assert_eq!(
        shell().required_scope(&cmd_in("ls", &sub), true),
        format!("shell.exec:cwd:{sub}")
    );
    assert_eq!(
        shell().required_scope(&cmd_in("ls", "sub/./x/.."), true),
        format!("shell.exec:cwd:{sub}")
    );
}

#[test]
fn required_scope_for_missing_cmd_is_deny_scope() {
    assert!(shell().required_scope(&obj(vec![]), true).contains("__deny__"));
}

#[test]
fn required_scope_for_empty_cmd_is_deny_scope() {
    assert!(shell().required_scope(&cmd(""), true).contains("__deny__"));
}

#[test]
fn required_scope_lexical_cwd_escape_is_deny_scope() {
    let escape = format!("{ROOT}/../../../etc");
    assert!(shell().required_scope(&cmd_in("cat passwd", &escape), true).contains("__deny__"));
}

#[test]
fn paths_are_collapsed_under_the_root() {
    let at = |input: &str| lexical_resolve(ROOT, input);
    assert_eq!(at("a/b"), Some(format!("{ROOT}/a/b")));
    assert_eq!(at("./a/../b"), Some(format!("{ROOT}/b")));
    assert_eq!(at("/srv/sandbox"), Some(ROOT.to_string()));
    assert_eq!(at("/srv/sandboxed"), None);
    assert_eq!(at(".."), None);
    assert_eq!(at("/etc"), None);
}

#[test]
fn execute_captures_stdout_and_exit_code() {
    let tool = shell();
    let run = run_of(&tool, &cmd("printf hello"));
    assert_eq!(run.cmd, "printf hello");
    assert_eq!(run.timeout_ms, 30_000);
    let result = ShellResult::Exited {
        code: Some(0),
        stdout: "hello".to_string(),
        stderr: String::new(),
    };
    match tool.finish(&run, &result) {
        ToolOutcome::Completed { output, verified } => {
            assert_eq!(parsed(&output)["stdout"], "hello");
            assert_eq!(parsed(&output)["exit_code"], 0);
            assert_eq!(parsed(&output)["timed_out"], false);
            assert_eq!(verified, Verification::NotApplicable);
        }
        other => panic!("expected Completed, got {other:?}"),
    }
}

#[test]
fn execute_nonzero_exit_is_still_completed() {
    let tool = shell();
    let run = run_of(&tool, &cmd("sh -c 'exit 7'"));
    let result = |code: Option<i32>| ShellResult::Exited {
        code,
        stdout: String::new(),
        stderr: String::new(),
    };
    let shown = output(tool.finish(&run, &result(Some(7))));
    assert_eq!(shown["exit_code"], 7);
    assert_eq!(shown["timed_out"], false);
    assert_eq!(output(tool.finish(&run, &result(None)))["exit_code"], -1);
}

#[test]
fn execute_timeout_fires_and_returns_timed_out_true() {
    let tool = shell();
    let input = obj(vec![
        ("args", obj(vec![("timeout_ms", Json::Unsigned(50))])),
        ("cmd", s("sleep 5")),
    ]);
    let run = run_of(&tool, &input);
    let shown = output(tool.finish(&run, &ShellResult::TimedOut));
    assert_eq!(shown["timed_out"], true);
    assert_eq!(shown["timeout_ms"], 50);
}

#[test]
fn a_command_that_cannot_run_fails() {
    let tool = shell();
    let run = run_of(&tool, &cmd("true"));
    let spawn = tool.finish(&run, &ShellResult::SpawnFailed("x".to_string()));
    assert_eq!(detail(&spawn), "spawn failed: x");
    let wait = tool.finish(&run, &ShellResult::WaitFailed("y".to_string()));
    assert_eq!(detail(&wait), "wait failed: y");
}

#[test]
fn a_timeout_is_kept_within_its_limits() {
    let with = |n: u64| obj(vec![("args", obj(vec![("timeout_ms", Json::Unsigned(n))]))]);
    assert_eq!(input_timeout_ms(&obj(vec![])), 30_000);
    assert_eq!(input_timeout_ms(&with(50)), 50);
    assert_eq!(input_timeout_ms(&with(1_000_000)), 600_000);
}

#[test]
fn execute_uses_provided_cwd() {
    let tool = shell();
    let run = run_of(&tool, &cmd_in("cat sentinel.txt", &format!("{ROOT}/workdir")));
    assert_eq!(run.cwd, format!("{ROOT}/workdir"));
}

#[test]
fn execute_cwd_outside_sandbox_fails_with_escape_detail() {
    let escape = format!("{ROOT}/../../../etc");
    match shell().prepare(&cmd_in("true", &escape), &vec![]) {
        Err(ToolOutcome::Failed(AivyxError::Internal(msg))) => {
            assert!(msg.contains("lexical resolve escaped sandbox"), "{msg}")
        }
        other => panic!("expected an internal failure, got {other:?}"),
    }
}

#[test]
fn a_link_out_of_the_sandbox_is_refused() {
    let tool = shell();
    let request = |tool: &ShellExecTool| tool.prepare(&cmd_in("true", "link"), &vec![]).unwrap();
    let out = tool.enter(request(&tool), Ok("/etc".to_string())).unwrap_err();
    assert_eq!(
        detail(&out),
        "cwd \"/etc\" escapes sandbox root \"/srv/sandbox\" after symlink resolution"
    );
    let gone = tool.enter(request(&tool), Err("no such file".to_string())).unwrap_err();
    assert_eq!(
        detail(&gone),
        "cannot canonicalize cwd \"/srv/sandbox/link\": no such file"
    );
}

fn env(v: &[(&str, &str)]) -> Vec<(String, String)> {
    v.iter().map(|(k, w)| (k.to_string(), w.to_string())).collect()
}

#[test]
fn execute_env_is_cleared_by_default() {
    let process = env(&[("AIVYX_TEST_SECRET_CANARY", "leaked"), ("PATH", "/bin")]);
    assert_eq!(child_env(&process, &vec![]), env(&[("PATH", "/bin")]));
}

#[test]
fn execute_declared_env_vars_are_passed() {
    let input = obj(vec![
        ("args", obj(vec![("env", obj(vec![("MY_CUSTOM_VAR", s("hello_phase42"))]))])),
        ("cmd", s("printenv MY_CUSTOM_VAR")),
    ]);
    let run = run_of(&shell(), &input);
    assert_eq!(
        child_env(&vec![], &run.env),
        env(&[("MY_CUSTOM_VAR", "hello_phase42")])
    );
}

#[test]
fn execute_safe_defaults_are_injected() {
    let process = env(&[("TERM", "xterm"), ("HOME", "/root"), ("X", "y"), ("PATH", "/bin")]);
    assert_eq!(
        child_env(&process, &env(&[("PATH", "/mine")])),
        env(&[("PATH", "/bin"), ("HOME", "/root"), ("TERM", "xterm"), ("PATH", "/mine")])
    );
}

/// Whether a path is one that the guard protects.
fn protects(path: &str) -> Option<String> {
    ["/.ssh/", "/.aws/", "/.gnupg/", ".env", "/.bashrc", "crontab"]
        .iter()
        .find(|p| path.contains(**p))
        .map(|p| p.to_string())
}

fn verdicts(command: &str) -> Vec<Option<String>> {
    let paths = candidate_paths(command, &Some("/home/me".to_string()));
    paths.iter().map(|p| protects(p)).collect()
}

#[test]
fn guard_refuses_reading_ssh_key_via_shell() {
    let tool = shell().with_sensitive_policy(true);
    for command in [
        "cat ~/.ssh/id_rsa",
        "cat /home/someone/.aws/credentials",
        "cp ~/.gnupg/secring.gpg /tmp/x",
        "cat app.env",
        "cat \"$HOME/.ssh/id_rsa\"",
    ] {
        let refused = tool.prepare(&cmd(command), &verdicts(command)).unwrap_err();
        assert!(detail(&refused).contains("protected location"), "{command}");
    }
}

#[test]
fn guard_refuses_persistence_write_via_shell() {
    let tool = shell().with_sensitive_policy(true);
    for command in
        ["echo evil >> ~/.bashrc", "echo key >> ~/.ssh/authorized_keys", "crontab -l"]
    {
        let refused = tool.prepare(&cmd(command), &verdicts(command)).unwrap_err();
        assert!(detail(&refused).contains("protected location"), "{command}");
    }
}

#[test]
fn guard_allows_ordinary_commands() {
    let tool = shell().with_sensitive_policy(true);
    for command in ["echo hi", "ls -la", "cat notes.txt"] {
        assert!(tool.prepare(&cmd(command), &verdicts(command)).is_ok(), "{command}");
    }
}

#[test]
fn a_refusal_names_the_first_protected_word() {
    let tool = shell().with_sensitive_policy(true);
    let command = "cat notes.txt ~/.ssh/id_rsa ~/.aws/credentials";
    let refused = tool.prepare(&cmd(command), &verdicts(command)).unwrap_err();
    assert_eq!(
        detail(&refused),
        "refusing to run this command — it references ~/.ssh/id_rsa, a protected location \
         (/.ssh/). shell.exec will not read secrets or write persistence targets; add the path \
         to `[access] allow_sensitive_paths` if you intend it."
    );
}

#[test]
fn disabled_policy_is_byte_identical_no_op() {
    let command = "echo ~/.ssh/id_rsa";
    assert!(sensitive_command_hit(command, &verdicts(command)).is_some());
    assert!(shell().prepare(&cmd(command), &verdicts(command)).is_ok());
}

#[test]
fn commands_are_taken_apart_into_words() {
    assert_eq!(words_of("cat a;rm -f 'b'|tee>c"), texts(&["cat", "a", "rm", "-f", "b", "tee", "c"]));
    assert_eq!(
        candidate_paths("~ ${HOME}/x y", &Some("/h".to_string())),
        texts(&["/h", "/h/x", "y"])
    );
}

#[test]
fn input_schema_matches_nested_shell_exec_contract() {
    let schema = parsed(&shell().to_tool().input_schema);
    assert_eq!(schema["type"], "object");
    assert_eq!(schema["required"].as_array().unwrap().len(), 1);
    assert_eq!(schema["required"][0], "cmd");
    assert_eq!(schema["additionalProperties"], false);
    let args = &schema["properties"]["args"];
    assert_eq!(args["type"], "object");
    assert_eq!(args["additionalProperties"], false);
    assert_eq!(args["properties"]["cwd"]["type"], "string");
    assert_eq!(args["properties"]["timeout_ms"]["type"], "integer");
    assert_eq!(args["properties"]["env"]["type"], "object");
    assert_eq!(
        args["properties"]["env"]["additionalProperties"],
        serde_json::from_str::<serde_json::Value>(r#"{"type":"string"}"#).unwrap()
    );
}

// ---------------------------------------------------------------------------
// The quality floor
// ---------------------------------------------------------------------------

#[test]
fn substrate_tools_meet_quality_floor() {
    let (status, diff) = GitReadToolConfig::new(vec![]).build(&vec![]).unwrap();
    let commit = GitWriteToolConfig::new(vec![]).build(&vec![]).unwrap();
    let tools = vec![
        status.to_tool(),
        diff.to_tool(),
        commit.to_tool(),
        shell().to_tool(),
        RoutingStatusTool::new().to_tool(),
        RoutingExplainTool::new().to_tool(),
        SkillDefaultsListTool::new().to_tool(),
        SkillDefaultsReadTool::new().to_tool(),
    ];
    for tool in &tools {
        assert_eq!(check_tool_quality(tool), Vec::<String>::new(), "{}", tool.name);
    }
}

#[test]
fn quality_helper_flags_bad_metadata() {
    let bad = Tool {
        id: ToolId::new(),
        name: "bad".to_string(),
        description: "x".to_string(),
        input_schema: s("not an object"),
    };
    let issues = check_tool_quality(&bad);
    assert!(issues.iter().any(|i| i.contains("not dotted")), "{issues:?}");
    assert!(issues.iter().any(|i| i.contains("description too short")), "{issues:?}");
    assert!(issues.iter().any(|i| i.contains("not a JSON object")), "{issues:?}");
    assert_eq!(issues[0], "name \"bad\" is not dotted (expected domain.verb)");
}

// ---------------------------------------------------------------------------
// routing.status and routing.explain
// ---------------------------------------------------------------------------

fn candidates() -> Vec<Candidate> {
    vec![
        Candidate {
            model: "small@default".to_string(),
            tier: "small".to_string(),
            capabilities: texts(&["completion"]),
            unknown_capabilities: texts(&["tools"]),
            context_window: None,
            availability: Availability::Unverified,
        },
        Candidate {
            model: "big@gpu".to_string(),
            tier: "large".to_string(),
            capabilities: texts(&["completion", "tools"]),
            unknown_capabilities: vec![],
            context_window: Some(32_768),
            availability: Availability::Available,
        },
    ]
}

fn decision() -> Option<Decision> {
    Some(Decision {
        model: "big@gpu".to_string(),
        task: "plan".to_string(),
        reason: "needs tools".to_string(),
    })
}

#[test]
fn status_lists_the_default_and_every_candidate() {
    let shown = output(RoutingStatusTool::new().execute("small@default", &candidates()));
    assert_eq!(shown["default"], "small@default");
    assert_eq!(shown["candidates"].as_array().unwrap().len(), 2);
    let small = &shown["candidates"][0];
    assert_eq!(small["model"], "small@default");
    assert_eq!(small["unknown_capabilities"][0], "tools");
    assert_eq!(small["context_window"], serde_json::Value::Null);
    assert_eq!(small["availability"], "unverified");
    let big = &shown["candidates"][1];
    assert_eq!(big["model"], "big@gpu");
    assert_eq!(big["tier"], "large");
    assert_eq!(big["capabilities"].as_array().unwrap().len(), 2);
    assert_eq!(big["capabilities"][1], "tools");
    assert!(big["unknown_capabilities"].as_array().unwrap().is_empty());
    assert_eq!(big["context_window"], 32_768);
    assert_eq!(big["availability"], "available");
}

#[test]
fn explain_is_null_before_any_routed_call() {
    let tool = RoutingExplainTool::new();
    let session = tool.session(&obj(vec![]), "current").unwrap();
    let shown = output(tool.finish(&session, &None));
    assert_eq!(shown["decision"], serde_json::Value::Null);
    assert!(shown.get("decision").is_some());
    assert_eq!(shown["session"], "current");
}

#[test]
fn explain_defaults_to_the_calling_turns_session() {
    let tool = RoutingExplainTool::new();
    assert_eq!(tool.session(&obj(vec![("session", Json::Null)]), "current").unwrap(), "current");
    let session = tool.session(&obj(vec![]), "current").unwrap();
    let shown = output(tool.finish(&session, &decision()));
    assert_eq!(shown["model"], "big@gpu");
    assert_eq!(shown["task"], "plan");
    assert_eq!(shown["reason"], "needs tools");
    assert!(shown.get("decision").is_none());
}

#[test]
fn explain_honours_an_explicit_session() {
    let tool = RoutingExplainTool::new();
    let session = tool.session(&obj(vec![("session", s("sess-1"))]), "current").unwrap();
    assert_eq!(session, "sess-1");
    let shown = output(tool.finish(&session, &decision()));
    assert_eq!(shown["session"], "sess-1");
    assert_eq!(shown["model"], "big@gpu");
}

#[test]
fn explain_rejects_a_non_string_session() {
    let tool = RoutingExplainTool::new();
    for bad in [Json::Unsigned(7), s("")] {
        let refused = tool.session(&obj(vec![("session", bad)]), "current").unwrap_err();
        assert!(detail(&refused).contains("session"));
    }
}

#[test]
fn scopes_floor_trust_and_metadata() {
    let status = RoutingStatusTool::new();
    let explain = RoutingExplainTool::new();
    assert_eq!(status.required_scope(&obj(vec![])), "routing.status");
    assert_eq!(explain.required_scope(&obj(vec![])), "routing.read");
    assert!(status.auto_grantable_in_backcompat_floor());
    assert!(explain.auto_grantable_in_backcompat_floor());
    assert!(status.output_is_untrusted());
    assert!(explain.output_is_untrusted());
    assert_eq!(check_tool_quality(&status.to_tool()), Vec::<String>::new());
    assert_eq!(check_tool_quality(&explain.to_tool()), Vec::<String>::new());
}

// ---------------------------------------------------------------------------
// skill_defaults.list and skill_defaults.read
// ---------------------------------------------------------------------------

fn summary(name: &str, description: &str, source: SkillSource) -> SkillSummary {
    SkillSummary { name: name.to_string(), description: description.to_string(), source }
}

fn bundled() -> Vec<SkillSummary> {
    vec![
        summary("systematic-debugging", "Find the cause first.", SkillSource::Bundled),
        summary("writing-plans", "Plan before code.", SkillSource::Bundled),
    ]
}

#[test]
fn list_returns_name_and_description_for_every_bundled_skill() {
    let shown = output(SkillDefaultsListTool::new().execute(&bundled()));
    let skills = shown["skills"].as_array().unwrap();
    assert_eq!(skills.len(), 2);
    assert_eq!(skills[0]["name"], "systematic-debugging");
    assert_eq!(skills[0]["description"], "Find the cause first.");
    assert!(skills[0].get("body").is_none());
}

#[test]
fn read_returns_the_real_body_for_a_known_bundled_skill() {
    let tool = SkillDefaultsReadTool::new();
    let name = tool.skill_name(&obj(vec![("skill", s("systematic-debugging"))])).unwrap();
    let skill = Skill {
        name: "systematic-debugging".to_string(),
        description: "Find the cause first.".to_string(),
        body: "Reproduce it.".to_string(),
    };
    let shown = output(tool.finish(&name, &Some(skill), &vec![]));
    assert_eq!(shown["name"], "systematic-debugging");
    assert!(shown["body"].as_str().unwrap().contains("Reproduce"));
}

#[test]
fn read_fails_cleanly_on_an_unknown_name() {
    let tool = SkillDefaultsReadTool::new();
    let name = tool.skill_name(&obj(vec![("skill", s("does-not-exist"))])).unwrap();
    let names = texts(&["systematic-debugging", "writing-plans"]);
    assert_eq!(
        detail(&tool.finish(&name, &None, &names)),
        "skill_defaults.read: no default skill named \"does-not-exist\" -- valid skills: \
         systematic-debugging, writing-plans"
    );
}

#[test]
fn read_fails_cleanly_on_missing_skill_field() {
    let tool = SkillDefaultsReadTool::new();
    for input in [obj(vec![]), obj(vec![("skill", s(""))]), obj(vec![("skill", Json::Null)])] {
        assert_eq!(
            detail(&tool.skill_name(&input).unwrap_err()),
            "skill_defaults.read: `skill` field missing or empty"
        );
    }
}

#[test]
fn list_required_scope_is_skill_defaults_list() {
    let tool = SkillDefaultsListTool::new();
    assert_eq!(tool.required_scope(&obj(vec![])), "skill_defaults.list");
    assert!(tool.auto_grantable_in_backcompat_floor());
}

#[test]
fn read_required_scope_is_skill_defaults_read() {
    let tool = SkillDefaultsReadTool::new();
    assert_eq!(tool.required_scope(&obj(vec![("skill", s("x"))])), "skill_defaults.read");
    assert!(tool.auto_grantable_in_backcompat_floor());
}

#[test]
fn read_output_is_marked_untrusted() {
    assert!(SkillDefaultsReadTool::new().output_is_untrusted());
}

#[test]
fn render_includes_every_bundled_skill_name_and_description() {
    let section = render_default_skills_section(&bundled(), &vec![false, false]);
    assert!(section.contains("systematic-debugging"));
    assert!(section.contains("writing-plans"));
    assert_eq!(
        section,
        "## Default skills\n\n- systematic-debugging: Find the cause first.\n- writing-plans: \
         Plan before code.\n\nUse `skill_defaults.read` with a skill's name to read its full \
         procedure.\n"
    );
}

#[test]
fn render_excludes_an_overlay_entry_containing_an_injection_marker() {
    let mut skills = bundled();
    skills.push(summary("suspicious-skill", "marked text", SkillSource::Project));
    skills.push(summary("kept-skill", "plain text", SkillSource::User));
    let section = render_default_skills_section(&skills, &vec![false, false, true, false]);
    assert!(!section.contains("suspicious-skill"));
    assert!(section.contains("kept-skill"));
    assert_eq!(
        render_exclusion_notice("suspicious-skill", "marked"),
        "aivyx-pa: skill_defaults: excluding \"suspicious-skill\" from the Default skills \
         listing -- injection marker \"marked\" matched in overlay-sourced content"
    );
}

#[test]
fn render_skill_entry_never_excludes_a_bundled_source_even_when_it_would_match() {
    let entry = render_skill_entry(
        &summary("fake-bundled-skill", "marked text", SkillSource::Bundled),
        true,
    );
    assert!(entry.unwrap().contains("fake-bundled-skill"));
}

#[test]
fn paths_are_shown_as_paths() {
    let missing = RootProbe::Unresolved("no such file".to_string());
    let shown = |root: &str| {
        ShellExecToolConfig::new(root.to_string()).build(&missing).unwrap_err().detail().clone()
    };
    for root in ["/plain", "/it's here", "/a \"b\""] {
        assert_eq!(
            shown(root),
            format!(
                "shell.exec cwd_root {:?} cannot be canonicalized: no such file",
                std::path::Path::new(root)
            )
        );
    }
}

#[test]
fn built_tools_have_random_ids() {
    let (status, diff) = GitReadToolConfig::new(vec![]).build(&vec![]).unwrap();
    let commit = GitWriteToolConfig::new(vec![]).build(&vec![]).unwrap();
    for id in [status.id(), diff.id(), commit.id(), shell().id()] {
        assert_eq!((id.0 >> 76) & 0xf, 4);
        assert_eq!((id.0 >> 62) & 0x3, 2);
    }
    assert_ne!(status.id(), diff.id());
}
