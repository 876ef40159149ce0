//! What the model gets to see of a tool call's outcome.

use vstd::prelude::*;
use crate::json::{json_text, law_a_member_is_found_by_its_name, Json, JsonView};
use crate::outcome::{OutcomeView, ToolId, ToolOutcome};
use crate::text::{
    before_first,
    begins_with,
    chars_of,
    decimal_text,
    occurs,
    occurs_at,
    push_decimal,
    string_of,
};

verus! {

// ---------------------------------------------------------------------------
// Rendering
// ---------------------------------------------------------------------------

/// The envelope of an outcome other than success.
pub open spec fn envelope(kind: Seq<char>, message: Seq<char>) -> JsonView {
    JsonView::Object(
        seq![("error"@, JsonView::Str(kind)), ("message"@, JsonView::Str(message))],
    )
}

/// The value that the model sees of an outcome: a tool's output as it is, or
/// else the kind of failure and what there is to say about it.
pub open spec fn shown_value(o: OutcomeView) -> JsonView {
    match o {
        OutcomeView::Completed { output, verified } => output,
        OutcomeView::Denied { scope } => envelope(
            "denied"@,
            "scope "@ + scope + " not granted"@,
        ),
        OutcomeView::NotInRole { tool_name } => envelope(
            "not_in_role"@,
            "tool "@ + tool_name + " is not in the active role's allowlist"@,
        ),
        OutcomeView::RateLimited { tool_name, reason } => envelope(
            "rate_limited"@,
            "tool "@ + tool_name + " throttled: "@ + reason,
        ),
        OutcomeView::RequiresEscalation { reason } => envelope("requires_escalation"@, reason),
        OutcomeView::Failed(e) => envelope("failed"@, e.detail()),
    }
}

fn envelope_text(kind: &str, message: &str) -> (r: String)
    ensures
        r@ == json_text(envelope(kind@, message@)),
{
    let mut m: Vec<(String, Json)> = Json::no_members();
    Json::push_member(&mut m, "error", Json::string(kind));
    Json::push_member(&mut m, "message", Json::string(message));
    let j: Json = Json::Object(m);
    assert(j@ == JsonView::Object(crate::json::members_view(m@)));
    assert(crate::json::members_view(m@) =~= seq![
        ("error"@, JsonView::Str(kind@)),
        ("message"@, JsonView::Str(message@)),
    ]);
    j.to_text()
}

/// Writes an outcome as the content of a tool result. Everything but a
/// completed call is an error.
pub fn render_tool_result(outcome: &ToolOutcome) -> (r: (String, bool))
    ensures
        r.0@ == json_text(shown_value(outcome@)),
        r.1 == !(outcome@ is Completed),
{
    match outcome {
        ToolOutcome::Completed { output, verified: _ } => (output.to_text(), false),
        ToolOutcome::Denied { scope } => {
            let mut message: String = String::new();
            message.push_str("scope ");
            message.push_str(scope.as_str());
            message.push_str(" not granted");
            assert(message@ =~= "scope "@ + scope@ + " not granted"@);
            (envelope_text("denied", message.as_str()), true)
        },
        ToolOutcome::NotInRole { tool_name } => {
            let mut message: String = String::new();
            message.push_str("tool ");
            message.push_str(tool_name.as_str());
            message.push_str(" is not in the active role's allowlist");
            assert(message@ =~= "tool "@ + tool_name@ + " is not in the active role's allowlist"@);
            (envelope_text("not_in_role", message.as_str()), true)
        },
        ToolOutcome::RateLimited { tool_name, reason } => {
            let mut message: String = String::new();
            message.push_str("tool ");
            message.push_str(tool_name.as_str());
            message.push_str(" throttled: ");
            message.push_str(reason.as_str());
            assert(message@ =~= "tool "@ + tool_name@ + " throttled: "@ + reason@);
            (envelope_text("rate_limited", message.as_str()), true)
        },
        ToolOutcome::RequiresEscalation { reason } => {
            (envelope_text("requires_escalation", reason.as_str()), true)
        },
        ToolOutcome::Failed(e) => (envelope_text("failed", e.detail().as_str()), true),
    }
}

// ---------------------------------------------------------------------------
// Capping
// ---------------------------------------------------------------------------

/// However small the context window, a tool result may have this many
/// characters.
pub const TOOL_RESULT_CAP_FLOOR_CHARS: usize = 4_000;

/// How many characters a tool result may have: half the context window, at
/// four characters a token.
pub open spec fn result_budget(window: nat) -> nat {
    if window * 2 < TOOL_RESULT_CAP_FLOOR_CHARS {
        TOOL_RESULT_CAP_FLOOR_CHARS as nat
    } else {
        window * 2
    }
}

/// The note behind a tool result that was cut short.
pub open spec fn truncation_note(shown: nat, total: nat) -> Seq<char> {
    "\n…[tool output truncated: showing "@ + decimal_text(shown) + " of "@ + decimal_text(total)
        + " chars — the result was too large for the model's context; request a narrower read if the missing part matters]"@
}

/// A tool result as it enters the conversation.
pub open spec fn capped(content: Seq<char>, window: Option<usize>) -> Seq<char> {
    match window {
        None => content,
        Some(w) => {
            let max = result_budget(w as nat);
            if content.len() <= max {
                content
            } else {
                content.take(max as int) + truncation_note(max, content.len())
            }
        },
    }
}

/// Cuts a tool result to what the context window can bear: its start stays,
/// and a note says how much is missing.
pub fn cap_tool_result_content(content: String, window_tokens: Option<usize>) -> (r: String)
    requires
        window_tokens matches Some(w) ==> w * 2 <= usize::MAX,
    ensures
        r@ == capped(content@, window_tokens),
{
    let window: usize = match window_tokens {
        None => {
            return content;
        },
        Some(w) => w,
    };
    let max_chars: usize = if window * 2 < TOOL_RESULT_CAP_FLOOR_CHARS {
        TOOL_RESULT_CAP_FLOOR_CHARS
    } else {
        window * 2
    };
    let all: Vec<char> = chars_of(content.as_str());
    let total: usize = all.len();
    if total <= max_chars {
        return content;
    }
    let mut out: String = string_of(&all, 0, max_chars);
    let ghost head = out@;
    assert(head =~= content@.take(max_chars as int));
    out.push_str("\n…[tool output truncated: showing ");
    push_decimal(&mut out, max_chars as u64);
    out.push_str(" of ");
    push_decimal(&mut out, total as u64);
    out.push_str(
        " chars — the result was too large for the model's context; request a narrower read if the missing part matters]",
    );
    assert(out@ =~= head + truncation_note(max_chars as nat, total as nat));
    out
}

/// A result within the budget is not touched; a longer one keeps exactly the
/// budget's worth of its start.
pub proof fn law_cap_keeps_the_head(content: Seq<char>, window: usize)
    ensures
        content.len() <= result_budget(window as nat) ==> capped(content, Some(window)) == content,
        content.len() > result_budget(window as nat) ==> {
            &&& capped(content, Some(window)).len() > result_budget(window as nat)
            &&& capped(content, Some(window)).take(result_budget(window as nat) as int)
                == content.take(result_budget(window as nat) as int)
        },
        capped(content, None) == content,
{
    let max = result_budget(window as nat);
    if content.len() > max {
        reveal_strlit("\n…[tool output truncated: showing ");
        assert(truncation_note(max, content.len()).len() > 0);
        assert(capped(content, Some(window)).take(max as int) =~= content.take(max as int));
    }
}

// ---------------------------------------------------------------------------
// Repeated failures
// ---------------------------------------------------------------------------

/// After this many failures of one tool in a row the model is told to stop.
pub const TOOL_FAILURE_NUDGE_THRESHOLD: usize = 3;

/// What the advice to stop begins with.
pub const TOOL_FAILURE_NUDGE_MARKER: &'static str = "\n\n[SYSTEM NOTE:";

/// How often a tool has failed in a row, after one more outcome of `tool`.
pub open spec fn next_streak(
    streak: Option<(ToolId, usize)>,
    tool: ToolId,
    is_error: bool,
) -> Option<(ToolId, usize)> {
    if !is_error {
        None
    } else {
        match streak {
            Some((id, count)) => if id == tool {
                Some((id, (count + 1) as usize))
            } else {
                Some((tool, 1))
            },
            None => Some((tool, 1)),
        }
    }
}

/// The streak of failures after one more outcome of `tool`.
pub fn advance_streak(streak: Option<(ToolId, usize)>, tool: ToolId, is_error: bool) -> (r: Option<
    (ToolId, usize),
>)
    requires
        streak matches Some((id, count)) ==> count < usize::MAX,
    ensures
        r == next_streak(streak, tool, is_error),
{
    if !is_error {
        return None;
    }
    match streak {
        Some((id, count)) => if id == tool {
            Some((id, count + 1))
        } else {
            Some((tool, 1))
        },
        None => Some((tool, 1)),
    }
}

/// The advice to stop calling `tool_name`.
pub open spec fn nudge(tool_name: Seq<char>) -> Seq<char> {
    TOOL_FAILURE_NUDGE_MARKER@ + " "@ + tool_name + " has failed "@ + decimal_text(
        TOOL_FAILURE_NUDGE_THRESHOLD as nat,
    )
        + " times in a row. Stop retrying it — report the outage to the operator instead of trying an unrelated approach.]"@
}

/// Appends the advice to stop calling `tool_name`.
pub fn push_nudge(content: &mut String, tool_name: &str)
    ensures
        final(content)@ == old(content)@ + nudge(tool_name@),
{
    content.push_str(TOOL_FAILURE_NUDGE_MARKER);
    content.push_str(" ");
    content.push_str(tool_name);
    content.push_str(" has failed ");
    push_decimal(content, TOOL_FAILURE_NUDGE_THRESHOLD as u64);
    content.push_str(
        " times in a row. Stop retrying it — report the outage to the operator instead of trying an unrelated approach.]",
    );
    assert(content@ =~= old(content)@ + nudge(tool_name@));
}

/// The tool result with the advice to stop cut off: all that a tool itself
/// has said.
pub open spec fn without_nudge(content: Seq<char>) -> Seq<char> {
    before_first(content, TOOL_FAILURE_NUDGE_MARKER@)
}

proof fn lemma_marker()
    ensures
        TOOL_FAILURE_NUDGE_MARKER@.len() == 15,
        TOOL_FAILURE_NUDGE_MARKER@[0] == '\n',
        TOOL_FAILURE_NUDGE_MARKER@[1] == '\n',
        forall|i: int| 2 <= i < 15 ==> #[trigger] TOOL_FAILURE_NUDGE_MARKER@[i] != '\n',
{
    reveal_strlit("\n\n[SYSTEM NOTE:");
}

/// Cutting the advice off leaves a text in which its marker does not occur.
pub proof fn law_no_nudge_is_left(content: Seq<char>)
    ensures
        !occurs(without_nudge(content), TOOL_FAILURE_NUDGE_MARKER@),
{
    lemma_marker();
    crate::text::lemma_before_first(content, TOOL_FAILURE_NUDGE_MARKER@);
}

/// Cutting the advice off undoes appending it, for a result that does not
/// itself hold the marker.
pub proof fn law_nudge_is_cut_off_again(content: Seq<char>, tool_name: Seq<char>)
    requires
        !occurs(content, TOOL_FAILURE_NUDGE_MARKER@),
    ensures
        without_nudge(content + nudge(tool_name)) == content,
        without_nudge(content) == content,
{
    lemma_marker();
    let m = TOOL_FAILURE_NUDGE_MARKER@;
    assert(nudge(tool_name).take(m.len() as int) =~= m);
    lemma_cut_undoes_append(content, nudge(tool_name));
    crate::text::lemma_before_first(content, m);
}

proof fn lemma_cut_undoes_append(content: Seq<char>, tail: Seq<char>)
    requires
        !occurs(content, TOOL_FAILURE_NUDGE_MARKER@),
        tail.len() >= TOOL_FAILURE_NUDGE_MARKER@.len(),
        tail.take(TOOL_FAILURE_NUDGE_MARKER@.len() as int) == TOOL_FAILURE_NUDGE_MARKER@,
    ensures
        without_nudge(content + tail) == content,
{
    lemma_marker();
    let m = TOOL_FAILURE_NUDGE_MARKER@;
    let all = content + tail;
    let n = content.len() as int;
    crate::text::lemma_before_first(all, m);
    assert(all.subrange(n, n + m.len()) =~= tail.take(m.len() as int));
    assert(occurs_at(all, m, n));
    lemma_first_is_first(all, m, n);
    let i = without_nudge(all).len() as int;
    assert(occurs_at(all, m, i));
    let found = all.subrange(i, i + m.len());
    if i < n {
        if i + m.len() <= n {
            assert(content.subrange(i, i + m.len()) =~= found);
            assert(occurs_at(content, m, i));
        } else {
            // The two markers overlap, so that one's end would be the other's start.
            let k = n - i;
            assert(all.subrange(n, n + m.len())[0] == all[n]);
            assert(all.subrange(n, n + m.len())[1] == all[n + 1]);
            assert(found[k] == all[n]);
            assert(m[k] == '\n');
            assert(k == 1);
            assert(found[2] == all[n + 1]);
            assert(m[2] == '\n');
        }
        assert(false);
    }
    assert(all.take(i) =~= content);
}

proof fn lemma_first_is_first(hay: Seq<char>, needle: Seq<char>, at: int)
    requires
        needle.len() > 0,
        occurs_at(hay, needle, at),
    ensures
        before_first(hay, needle).len() <= at,
    decreases hay.len(),
{
    if hay.len() > 0 && !begins_with(hay, needle) {
        let t = hay.drop_first();
        assert(t.subrange(at - 1, at - 1 + needle.len()) =~= hay.subrange(
            at,
            at + needle.len(),
        ));
        lemma_first_is_first(t, needle, at - 1);
    }
}

/// What a tool has put out is shown as it is. Every other outcome is shown as an
/// object that names the kind of refusal or failure, and says in words what was
/// refused or what went wrong.
pub proof fn law_what_is_shown_of_an_outcome(o: OutcomeView)
    ensures
        ({
            let kind = shown_value(o).get_str("error"@);
            let words = shown_value(o).get_str("message"@);
            match o {
                OutcomeView::Completed { output, verified } => shown_value(o) == output,
                OutcomeView::Denied { scope } => kind == Some("denied"@) && words == Some(
                    "scope "@ + scope + " not granted"@,
                ),
                OutcomeView::NotInRole { tool_name } => kind == Some("not_in_role"@) && words
                    == Some("tool "@ + tool_name + " is not in the active role's allowlist"@),
                OutcomeView::RateLimited { tool_name, reason } => kind == Some("rate_limited"@)
                    && words == Some("tool "@ + tool_name + " throttled: "@ + reason),
                OutcomeView::RequiresEscalation { reason } => kind == Some("requires_escalation"@)
                    && words == Some(reason),
                OutcomeView::Failed(e) => kind == Some("failed"@) && words == Some(
                    match e {
                        crate::outcome::ErrorView::Config(s) => s,
                        crate::outcome::ErrorView::Tool { tool, detail } => detail,
                        crate::outcome::ErrorView::Channel(s) => s,
                        crate::outcome::ErrorView::Internal(s) => s,
                    },
                ),
            }
        }),
{
    if !(o is Completed) {
        let m = shown_value(o)->Object_0;
        reveal_strlit("error");
        reveal_strlit("message");
        assert("error"@.len() != "message"@.len());
        assert(m[0].0 == "error"@);
        assert(m[1].0 == "message"@);
        law_a_member_is_found_by_its_name(m, 0);
        law_a_member_is_found_by_its_name(m, 1);
    }
}

/// A result may have as many characters as twice the window has tokens, and 4000
/// in any case. Of a longer one that many are kept, and it is said behind them
/// how many are shown, and of how many.
pub proof fn law_a_cut_result_says_so(content: Seq<char>, window: usize)
    ensures
        ({
            let max = if window * 2 < 4_000 {
                4_000int
            } else {
                window * 2
            };
            if content.len() <= max {
                capped(content, Some(window)) == content
            } else {
                &&& capped(content, Some(window)).take(max) == content.take(max)
                &&& capped(content, Some(window)).skip(max) == "\n…[tool output truncated: showing "@
                    + decimal_text(max as nat) + " of "@ + decimal_text(content.len())
                    + " chars — the result was too large for the model's context; request a narrower read if the missing part matters]"@
            }
        }),
{
    let max = result_budget(window as nat) as int;
    if content.len() > max {
        assert(capped(content, Some(window)).take(max) =~= content.take(max));
        assert(capped(content, Some(window)).skip(max) =~= truncation_note(
            max as nat,
            content.len(),
        ));
    }
}

/// The advice to stop starts with its marker and names the tool.
pub proof fn law_the_advice_names_the_tool(tool_name: Seq<char>)
    ensures
        begins_with(
            nudge(tool_name),
            TOOL_FAILURE_NUDGE_MARKER@ + " "@ + tool_name + " has failed "@ + decimal_text(3)
                + " times in a row."@,
        ),
{
    let start = TOOL_FAILURE_NUDGE_MARKER@ + " "@ + tool_name + " has failed "@ + decimal_text(3)
        + " times in a row."@;
    let end =
        " times in a row. Stop retrying it — report the outage to the operator instead of trying an unrelated approach.]"@;
    reveal_strlit(" times in a row.");
    reveal_strlit(
        " times in a row. Stop retrying it — report the outage to the operator instead of trying an unrelated approach.]",
    );
    assert(" times in a row."@ =~= end.take(" times in a row."@.len() as int));
    assert(nudge(tool_name).subrange(0, start.len() as int) =~= start);
}

} // verus!
