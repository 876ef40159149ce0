//! Commands that a tool has run for it, and what came of them.

use vstd::prelude::*;
use crate::outcome::{AivyxError, ErrorView, OutcomeView, ToolId, ToolOutcome};
use crate::text::{code_form, push_code, texts};

verus! {

/// What became of a command: it could not be started, or it ended.
#[derive(Debug, PartialEq, Eq)]
pub enum CommandRun {
    SpawnFailed(String),
    Exited { code: Option<i32>, stdout: String, stderr: String },
}

/// Whether a command ended well.
pub open spec fn run_succeeded(run: CommandRun) -> bool {
    run matches CommandRun::Exited { code, .. } && code == Some(0i32)
}

/// Appends an argument.
pub fn push_arg(args: &mut Vec<String>, arg: &str)
    ensures
        texts(final(args)@) == texts(old(args)@).push(arg@),
{
    args.push(arg.to_owned());
    assert(texts(args@) =~= texts(old(args)@).push(arg@));
}

/// No arguments.
pub fn no_args() -> (r: Vec<String>)
    ensures
        texts(r@) == Seq::<Seq<char>>::empty(),
{
    let r: Vec<String> = Vec::new();
    assert(texts(r@) =~= Seq::empty());
    r
}

/// A failure of the tool `id`.
pub open spec fn failure(id: ToolId, detail: Seq<char>) -> OutcomeView {
    OutcomeView::Failed(ErrorView::Tool { tool: id, detail })
}

/// A failure of the tool `id`.
pub fn tool_failed(id: ToolId, detail: String) -> (r: ToolOutcome)
    ensures
        r@ == failure(id, detail@),
{
    ToolOutcome::Failed(AivyxError::Tool { tool: id, detail })
}

/// A failure of the tool `id`.
pub fn tool_failed_with(id: ToolId, detail: &str) -> (r: ToolOutcome)
    ensures
        r@ == failure(id, detail@),
{
    tool_failed(id, detail.to_owned())
}

/// What is said of a command that ended badly: `head`, its exit code and what
/// it had to say.
pub open spec fn exit_detail(head: Seq<char>, code: Option<i32>, said: Seq<char>) -> Seq<char> {
    head + " exit code "@ + code_form(code) + ": "@ + said
}

/// What is said of a command that ended badly.
pub fn describe_exit(head: &str, code: Option<i32>, said: &str) -> (r: String)
    ensures
        r@ == exit_detail(head@, code, said@),
{
    let mut out: String = head.to_owned();
    out.push_str(" exit code ");
    push_code(&mut out, code);
    out.push_str(": ");
    out.push_str(said);
    out
}

} // verus!
