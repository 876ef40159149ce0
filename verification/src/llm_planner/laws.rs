//! What a planner promises over a turn: how the conversation before and after
//! a step are related, whatever the step is about.

use vstd::prelude::*;
use crate::llm_planner::calls::{verdict_on, verdicts_on, PlannedView, VerdictView};
use crate::llm_planner::input::{
    law_a_query_is_blank_without_words,
    law_a_query_is_made_of_the_texts,
};
use crate::llm_planner::message::{
    seeded,
    summary_line,
    summary_lines,
    turn_messages,
    BlockView,
    MessageView,
    PriorView,
};
use crate::llm_planner::prune::{
    law_kept_part_is_the_longest_that_fits,
    room,
    tail_tokens,
    TokenEstimate,
};
use crate::llm_planner::config::ConfigView;
use crate::llm_planner::request::{context_need, prefix_hash, DescriptorView};
use crate::llm_planner::turn::{
    advertised,
    all_decided,
    batch_of,
    begun,
    blamed_name,
    calls_of,
    charged,
    cut,
    decided,
    drop_count,
    fresh,
    is_cut,
    law_repair_is_bounded,
    next_after,
    observed,
    plan_of,
    prefix_key,
    recall_due,
    refine_due,
    replied,
    report_of,
    request_of,
    result_texts,
    said,
    seed_due,
    served_by,
    sized,
    tainted,
    wants_slot,
    warm_up_of,
    with_a_message,
    PlannerView,
    Recall,
    StepEndView,
    StepNextView,
    REPAIR_ROUNDS,
};
use crate::outcome::{usage_fits, LlmUsage, OutcomeView, ToolId};
use crate::planner::{RequestView, StepView, ToolView};
use crate::text::{before_first, blank, decimal_text, joined};

verus! {

// ---------------------------------------------------------------------------
// The cut
// ---------------------------------------------------------------------------

/// A conversation is cut where there is a window, the system prompt and the
/// conversation together take up more than four fifths of it, and there is more
/// than one message; in no other case.
pub proof fn law_a_cut_is_due(v: PlannerView, estimate: TokenEstimate)
    ensures
        is_cut(v, estimate) <==> (v.config.context_window_tokens matches Some(w) && estimate.system
            + estimate.history > w * 4 / 5 && estimate.each@.len() > 1),
{
}

/// After a cut, the system prompt and what is kept of the conversation take up
/// four fifths of the window at most, unless the last message alone is kept or
/// the system prompt takes up more by itself; in the latter case nothing but
/// the last message is kept that takes up anything. With one message more the
/// sum would exceed four fifths.
pub proof fn law_a_cut_fits_the_window(v: PlannerView, estimate: TokenEstimate)
    requires
        is_cut(v, estimate),
    ensures
        ({
            let limit = v.config.context_window_tokens->0 * 4 / 5;
            let each = estimate.each@;
            let k = drop_count(v, estimate);
            &&& 0 <= k < each.len()
            &&& k < each.len() - 1 && estimate.system <= limit ==> estimate.system + tail_tokens(
                each,
                k,
            ) <= limit
            &&& k < each.len() - 1 && estimate.system > limit ==> tail_tokens(each, k) <= 0
            &&& k > 0 ==> estimate.system + tail_tokens(each, k - 1) > limit
        }),
{
    law_kept_part_is_the_longest_that_fits(
        estimate.each@,
        room(v.config.context_window_tokens->0, estimate.system),
    );
}

/// A cut drops the oldest messages and keeps the others as they are, in their
/// order. In front of them stands a notice with the number of messages
/// dropped, and behind it the turn's task where that was among them.
pub proof fn law_a_cut_drops_the_oldest(v: PlannerView, estimate: TokenEstimate)
    requires
        v.wf(),
        estimate.each@.len() == v.history.len(),
        v.history.len() < usize::MAX,
    ensures
        ({
            let k = drop_count(v, estimate);
            let c = cut(v, estimate);
            let extra = c.history.len() - (v.history.len() - k);
            if is_cut(v, estimate) && k > 0 {
                &&& c.history.skip(extra) == v.history.skip(k)
                &&& c.history[0] == (MessageView::User {
                    content: seq![
                        BlockView::Text {
                            text: "[Earlier context pruned: "@ + decimal_text(k as nat)
                                + " messages removed to fit context window]"@,
                        },
                    ],
                })
                &&& match v.task {
                    Some(t) => if t < k {
                        extra == 2 && c.history[1] == v.history[t as int] && c.task == Some(1usize)
                    } else {
                        extra == 1 && c.task is Some && c.task->0 == t - k + 1
                    },
                    None => extra == 1 && c.task is None,
                }
            } else {
                c.history == v.history && c.task == v.task && (v.pruned + v.history.len()
                    <= usize::MAX ==> c.pruned == v.pruned)
            }
        }),
{
    let k = drop_count(v, estimate);
    let c = cut(v, estimate);
    let extra = c.history.len() - (v.history.len() - k);
    if is_cut(v, estimate) {
        law_a_cut_fits_the_window(v, estimate);
        if k > 0 {
            assert(c.history.skip(extra) =~= v.history.skip(k));
        }
    }
}

/// A cut touches the conversation alone: the configuration, the tools, what is
/// waited for, what was counted and what was spent stay as they are. How large
/// the conversation was before is recorded where it is cut.
pub proof fn law_a_cut_touches_the_conversation_alone(v: PlannerView, estimate: TokenEstimate)
    ensures
        ({
            let c = cut(v, estimate);
            &&& c == (PlannerView {
                history: c.history,
                task: c.task,
                fitted: true,
                pruned: c.pruned,
                usage: c.usage,
                ..v
            })
            &&& c.usage.input_tokens == v.usage.input_tokens
            &&& c.usage.output_tokens == v.usage.output_tokens
            &&& c.usage.cache_creation_input_tokens == v.usage.cache_creation_input_tokens
            &&& c.usage.cache_read_input_tokens == v.usage.cache_read_input_tokens
            &&& c.usage.context_tokens_after_pruning == v.usage.context_tokens_after_pruning
            &&& is_cut(v, estimate) && estimate.system + estimate.history <= u32::MAX
                ==> c.usage.context_tokens_before_pruning == estimate.system + estimate.history
            &&& !is_cut(v, estimate) ==> c.usage == v.usage
        }),
{
}

// ---------------------------------------------------------------------------
// The reply
// ---------------------------------------------------------------------------

proof fn lemma_decided_in_order(v: PlannerView, calls: Seq<PlannedView>, verdicts: Seq<VerdictView>)
    requires
        calls.len() == verdicts.len(),
    ensures
        ({
            let a = all_decided(v, calls, verdicts);
            &&& a == (PlannerView {
                history: a.history,
                pending: a.pending,
                fitted: a.fitted,
                ..v
            })
            &&& v.history.is_prefix_of(a.history)
            &&& v.pending.is_prefix_of(a.pending)
        }),
    decreases calls.len(),
{
    if calls.len() > 0 {
        lemma_decided_in_order(v, calls.drop_last(), verdicts.drop_last());
        let b = all_decided(v, calls.drop_last(), verdicts.drop_last());
        let a = all_decided(v, calls, verdicts);
        assert(a == decided(b, calls.last().call_id, verdicts.last()));
        assert(v.history =~= a.history.take(v.history.len() as int));
        assert(v.pending =~= a.pending.take(v.pending.len() as int));
    }
}

/// A reply is put behind the conversation as it came: the assistant's text,
/// and for each call, in their order, its id, the name the model used for the
/// tool, and its input.
pub proof fn law_a_reply_is_recorded(
    v: PlannerView,
    end: StepEndView,
    model: Seq<char>,
    verdicts: Seq<VerdictView>,
    repair_rounds: int,
)
    requires
        end matches StepEndView::FinalMessage { text, usage, calls } ==> verdicts.len()
            == calls.len(),
        end matches StepEndView::ToolCalls { calls, text_so_far, usage } ==> verdicts.len()
            == calls.len(),
    ensures
        ({
            let h = replied(v, end, model, verdicts, repair_rounds).0.history;
            let n = v.history.len() as int;
            &&& n <= h.len()
            &&& h.take(n) == v.history
            &&& end matches StepEndView::FinalMessage { text, usage, calls } ==> {
                &&& n < h.len()
                &&& h[n] matches MessageView::Assistant { text: spoken, tool_calls }
                &&& spoken == text
                &&& tool_calls.len() == calls.len()
                &&& forall|i: int|
                    0 <= i < calls.len() ==> {
                        &&& (#[trigger] tool_calls[i]).call_id == calls[i].call_id
                        &&& tool_calls[i].tool_name == calls[i].tool_name
                        &&& tool_calls[i].input == calls[i].input
                    }
            }
            &&& end matches StepEndView::ToolCalls { calls, text_so_far, usage } ==> {
                &&& n < h.len()
                &&& h[n] matches MessageView::Assistant { text: spoken, tool_calls }
                &&& spoken == text_so_far
                &&& tool_calls.len() == calls.len()
                &&& forall|i: int|
                    0 <= i < calls.len() ==> {
                        &&& (#[trigger] tool_calls[i]).call_id == calls[i].call_id
                        &&& tool_calls[i].tool_name == calls[i].tool_name
                        &&& tool_calls[i].input == calls[i].input
                    }
            }
        }),
{
    let h = replied(v, end, model, verdicts, repair_rounds).0.history;
    match end {
        StepEndView::FinalMessage { text, usage, calls } => {
            let s = said(charged(v, usage, model), text, calls);
            lemma_decided_in_order(s, calls, verdicts);
            assert(h.take(v.history.len() as int) =~= v.history);
            assert(h[v.history.len() as int] == s.history[v.history.len() as int]);
        },
        StepEndView::ToolCalls { calls, text_so_far, usage } => {
            let s = said(charged(v, usage, model), text_so_far, calls);
            lemma_decided_in_order(s, calls, verdicts);
            assert(h.take(v.history.len() as int) =~= v.history);
            assert(h[v.history.len() as int] == s.history[v.history.len() as int]);
        },
        _ => {
            assert(h.take(v.history.len() as int) =~= v.history);
        },
    }
}

/// What is found about the calls of a reply is acted on: behind the reply the
/// calls that are not dispatched are answered, those that are are waited for, and
/// what follows is what the verdicts call for.
pub proof fn law_a_reply_is_acted_on(
    v: PlannerView,
    end: StepEndView,
    model: Seq<char>,
    calls: Seq<PlannedView>,
    verdicts: Seq<VerdictView>,
    repair_rounds: int,
)
    requires
        verdicts.len() == calls.len(),
        (end matches StepEndView::FinalMessage { text, usage, calls: c } && c == calls && c.len()
            > 0) || (end matches StepEndView::ToolCalls { calls: c, text_so_far, usage } && c
            == calls),
    ensures
        ({
            let (after, next) = replied(v, end, model, verdicts, repair_rounds);
            let decisions = calls.zip_with(verdicts);
            &&& after.pending == v.pending + decisions.filter(
                |d: (PlannedView, VerdictView)| d.1 is Dispatch,
            ).map_values(|d: (PlannedView, VerdictView)| d.0.call_id)
            &&& after.history.skip(v.history.len() as int + 1) == decisions.filter(
                |d: (PlannedView, VerdictView)| !(d.1 is Dispatch),
            ).map_values(
                |d: (PlannedView, VerdictView)|
                    MessageView::ToolResult {
                        call_id: d.0.call_id,
                        content: match d.1 {
                            VerdictView::Unknown(content) => content,
                            VerdictView::Invalid(content) => content,
                            VerdictView::Dispatch(_) => Seq::empty(),
                        },
                        is_error: true,
                    },
            )
            &&& next == next_after(verdicts, repair_rounds)
        }),
{
    let after = replied(v, end, model, verdicts, repair_rounds).0;
    let s = match end {
        StepEndView::FinalMessage { text, usage, calls: c } => said(
            charged(v, usage, model),
            text,
            calls,
        ),
        StepEndView::ToolCalls { calls: c, text_so_far, usage } => said(
            charged(v, usage, model),
            text_so_far,
            calls,
        ),
        _ => v,
    };
    law_each_call_is_waited_for_or_answered(s, calls, verdicts);
    let answers = calls.zip_with(verdicts).filter(
        |d: (PlannedView, VerdictView)| !(d.1 is Dispatch),
    ).map_values(
        |d: (PlannedView, VerdictView)|
            MessageView::ToolResult {
                call_id: d.0.call_id,
                content: match d.1 {
                    VerdictView::Unknown(content) => content,
                    VerdictView::Invalid(content) => content,
                    VerdictView::Dispatch(_) => Seq::empty(),
                },
                is_error: true,
            },
    );
    assert(after.history == s.history + answers);
    assert(after.history.skip(v.history.len() as int + 1) =~= answers);
}

/// A step that was cancelled stops the turn, one that failed ends it with the
/// provider's error, and neither leaves a trace. A reply without calls ends the
/// turn with the model's text.
pub proof fn law_what_a_reply_leads_to(
    v: PlannerView,
    end: StepEndView,
    model: Seq<char>,
    verdicts: Seq<VerdictView>,
    repair_rounds: int,
)
    ensures
        ({
            let (after, next) = replied(v, end, model, verdicts, repair_rounds);
            match end {
                StepEndView::Cancelled => after == v && next == StepNextView::Done(StepView::Stop),
                StepEndView::Failed(e) => after == v && next == StepNextView::Done(
                    StepView::FinalMessage("LLM error: "@ + e),
                ),
                StepEndView::FinalMessage { text, usage, calls } => calls.len() == 0 ==> next
                    == StepNextView::Done(StepView::FinalMessage(text)),
                StepEndView::ToolCalls { calls, text_so_far, usage } => true,
            }
        }),
{
}

/// What a reply has cost is added to the turn's usage, each kind of token to its
/// own count; and of the planner nothing changes but the conversation, what is
/// waited for, and what was spent.
pub proof fn law_a_reply_is_paid_for(
    v: PlannerView,
    end: StepEndView,
    model: Seq<char>,
    verdicts: Seq<VerdictView>,
    repair_rounds: int,
)
    requires
        end matches StepEndView::FinalMessage { text, usage, calls } ==> verdicts.len()
            == calls.len() && usage_fits(v.usage, usage),
        end matches StepEndView::ToolCalls { calls, text_so_far, usage } ==> verdicts.len()
            == calls.len() && usage_fits(v.usage, usage),
    ensures
        ({
            let a = replied(v, end, model, verdicts, repair_rounds).0;
            let spent = match end {
                StepEndView::FinalMessage { text, usage, calls } => Some(usage),
                StepEndView::ToolCalls { calls, text_so_far, usage } => Some(usage),
                _ => None,
            };
            &&& a == (PlannerView {
                history: a.history,
                pending: a.pending,
                fitted: a.fitted,
                usage: a.usage,
                costs: a.costs,
                ..v
            })
            &&& match spent {
                Some(u) => {
                    &&& a.usage.input_tokens == v.usage.input_tokens + u.input_tokens
                    &&& a.usage.output_tokens == v.usage.output_tokens + u.output_tokens
                    &&& a.usage.cache_creation_input_tokens == v.usage.cache_creation_input_tokens
                        + u.cache_creation_input_tokens
                    &&& a.usage.cache_read_input_tokens == v.usage.cache_read_input_tokens
                        + u.cache_read_input_tokens
                    &&& a.usage.context_tokens_before_pruning
                        == v.usage.context_tokens_before_pruning
                    &&& a.usage.context_tokens_after_pruning == v.usage.context_tokens_after_pruning
                    &&& a.costs == crate::llm_planner::costs::cost_added(v.costs, model, u)
                },
                None => a.usage == v.usage && a.costs == v.costs,
            }
        }),
{
    match end {
        StepEndView::FinalMessage { text, usage, calls } => {
            lemma_decided_in_order(said(charged(v, usage, model), text, calls), calls, verdicts);
        },
        StepEndView::ToolCalls { calls, text_so_far, usage } => {
            lemma_decided_in_order(
                said(charged(v, usage, model), text_so_far, calls),
                calls,
                verdicts,
            );
        },
        _ => {},
    }
}

/// The calls of a reply that are dispatched are waited for, under their ids and
/// in their order. The others are answered in the conversation, in their order,
/// each under its id and with what was found wrong, as an error.
pub proof fn law_each_call_is_waited_for_or_answered(
    v: PlannerView,
    calls: Seq<PlannedView>,
    verdicts: Seq<VerdictView>,
)
    requires
        calls.len() == verdicts.len(),
    ensures
        ({
            let a = all_decided(v, calls, verdicts);
            let decisions = calls.zip_with(verdicts);
            &&& a.pending == v.pending + decisions.filter(
                |d: (PlannedView, VerdictView)| d.1 is Dispatch,
            ).map_values(|d: (PlannedView, VerdictView)| d.0.call_id)
            &&& a.history == v.history + decisions.filter(
                |d: (PlannedView, VerdictView)| !(d.1 is Dispatch),
            ).map_values(
                |d: (PlannedView, VerdictView)|
                    MessageView::ToolResult {
                        call_id: d.0.call_id,
                        content: match d.1 {
                            VerdictView::Unknown(content) => content,
                            VerdictView::Invalid(content) => content,
                            VerdictView::Dispatch(_) => Seq::empty(),
                        },
                        is_error: true,
                    },
            )
        }),
    decreases calls.len(),
{
    let a = all_decided(v, calls, verdicts);
    let decisions = calls.zip_with(verdicts);
    let sent = |d: (PlannedView, VerdictView)| d.1 is Dispatch;
    let kept = |d: (PlannedView, VerdictView)| !(d.1 is Dispatch);
    let id = |d: (PlannedView, VerdictView)| d.0.call_id;
    let answer = |d: (PlannedView, VerdictView)|
        MessageView::ToolResult {
            call_id: d.0.call_id,
            content: match d.1 {
                VerdictView::Unknown(content) => content,
                VerdictView::Invalid(content) => content,
                VerdictView::Dispatch(_) => Seq::empty(),
            },
            is_error: true,
        };
    reveal(Seq::filter);
    if calls.len() > 0 {
        let cs = calls.drop_last();
        let vs = verdicts.drop_last();
        let last = (calls.last(), verdicts.last());
        let rest = cs.zip_with(vs);
        law_each_call_is_waited_for_or_answered(v, cs, vs);
        assert(decisions.drop_last() =~= rest);
        assert(decisions.last() == last);
        let b = all_decided(v, cs, vs);
        assert(a == decided(b, calls.last().call_id, verdicts.last()));
        if verdicts.last() is Dispatch {
            assert(decisions.filter(sent) == rest.filter(sent).push(last));
            assert(rest.filter(sent).push(last).map_values(id) =~= rest.filter(sent).map_values(
                id,
            ).push(id(last)));
            assert(a.pending =~= v.pending + decisions.filter(sent).map_values(id));
        } else {
            assert(decisions.filter(kept) == rest.filter(kept).push(last));
            assert(rest.filter(kept).push(last).map_values(answer) =~= rest.filter(kept).map_values(
                answer,
            ).push(answer(last)));
            assert(a.history =~= v.history + decisions.filter(kept).map_values(answer));
        }
    } else {
        assert(decisions.filter(sent).map_values(id) =~= Seq::<Seq<char>>::empty());
        assert(decisions.filter(kept).map_values(answer) =~= Seq::<MessageView>::empty());
        assert(a.pending =~= v.pending + decisions.filter(sent).map_values(id));
        assert(a.history =~= v.history + decisions.filter(kept).map_values(answer));
    }
}

/// The calls that are dispatched are handed out in their order: one alone, or
/// several together. Where there is none the model is asked again, which takes a
/// round of repair exactly where an input was found wrong.
pub proof fn law_what_follows_the_verdicts(verdicts: Seq<VerdictView>, repair_rounds: int)
    ensures
        ({
            let batch = verdicts.filter(|x: VerdictView| x is Dispatch).map_values(
                |x: VerdictView| x->Dispatch_0,
            );
            &&& batch_of(verdicts) == batch
            &&& next_after(verdicts, repair_rounds) == if batch.len() == 0 {
                StepNextView::AskAgain(
                    repair_rounds + if exists|i: int|
                        0 <= i < verdicts.len() && (#[trigger] verdicts[i]) is Invalid {
                        1int
                    } else {
                        0int
                    },
                )
            } else if batch.len() == 1 {
                StepNextView::Done(StepView::ToolCall(batch[0]))
            } else {
                StepNextView::Done(StepView::ToolCalls(batch))
            }
        }),
{
    lemma_batch_is_filtered(verdicts);
}

proof fn lemma_batch_is_filtered(verdicts: Seq<VerdictView>)
    ensures
        batch_of(verdicts) == verdicts.filter(|x: VerdictView| x is Dispatch).map_values(
            |x: VerdictView| x->Dispatch_0,
        ),
    decreases verdicts.len(),
{
    let sent = |x: VerdictView| x is Dispatch;
    let request = |x: VerdictView| x->Dispatch_0;
    reveal(Seq::filter);
    if verdicts.len() > 0 {
        let rest = verdicts.drop_last();
        lemma_batch_is_filtered(rest);
        if verdicts.last() is Dispatch {
            assert(rest.filter(sent).push(verdicts.last()).map_values(request) =~= rest.filter(
                sent,
            ).map_values(request).push(request(verdicts.last())));
        }
    } else {
        assert(verdicts.filter(sent).map_values(request) =~= Seq::<RequestView>::empty());
    }
}

/// What is handed out belongs to what is waited for: the request at each place
/// is that of the call whose id waits at that place, with the input that the
/// model gave and the tag that it was found under, if it was found in a text.
pub proof fn law_requests_belong_to_the_calls_waited_for(
    v: PlannerView,
    tools: Seq<ToolView>,
    threshold: u32,
    calls: Seq<PlannedView>,
    validate: bool,
    k: int,
)
    requires
        0 <= k < batch_of(verdicts_on(tools, threshold, calls, validate)).len(),
    ensures
        ({
            let verdicts = verdicts_on(tools, threshold, calls, validate);
            let request = batch_of(verdicts)[k];
            let pending = all_decided(v, calls, verdicts).pending;
            &&& pending.len() == v.pending.len() + batch_of(verdicts).len()
            &&& exists|i: int|
                {
                    &&& 0 <= i < calls.len()
                    &&& (#[trigger] calls[i]).call_id == pending[v.pending.len() + k]
                    &&& calls[i].input == request.input
                    &&& calls[i].extracted_from_text == request.extracted_from_text
                    &&& request.auto_corrected_from matches Some(name) ==> name
                        == calls[i].tool_name
                }
        }),
    decreases calls.len(),
{
    let verdicts = verdicts_on(tools, threshold, calls, validate);
    if calls.len() > 0 {
        let cs = calls.drop_last();
        let vs = verdicts_on(tools, threshold, cs, validate);
        assert(verdicts.drop_last() =~= vs);
        let b = all_decided(v, cs, vs);
        let last = calls[calls.len() - 1];
        assert(verdicts.last() == verdict_on(tools, threshold, last, validate));
        assert(all_decided(v, calls, verdicts) == decided(b, last.call_id, verdicts.last()));
        lemma_pending_counts(v, cs, vs);
        if k < batch_of(vs).len() {
            law_requests_belong_to_the_calls_waited_for(v, tools, threshold, cs, validate, k);
            let i = choose|i: int|
                {
                    &&& 0 <= i < cs.len()
                    &&& (#[trigger] cs[i]).call_id == b.pending[v.pending.len() + k]
                    &&& cs[i].input == batch_of(vs)[k].input
                    &&& cs[i].extracted_from_text == batch_of(vs)[k].extracted_from_text
                    &&& batch_of(vs)[k].auto_corrected_from matches Some(name) ==> name
                        == cs[i].tool_name
                };
            assert(calls[i] == cs[i]);
        }
    }
}

proof fn lemma_pending_counts(v: PlannerView, calls: Seq<PlannedView>, verdicts: Seq<VerdictView>)
    requires
        calls.len() == verdicts.len(),
    ensures
        all_decided(v, calls, verdicts).pending.len() == v.pending.len() + batch_of(verdicts).len(),
    decreases calls.len(),
{
    if calls.len() > 0 {
        lemma_pending_counts(v, calls.drop_last(), verdicts.drop_last());
    }
}

/// A step is charged to the model that the router used last, where requests are
/// routed, the conversation has a session that the router takes, and it has
/// used one; otherwise to the configured model.
pub proof fn law_who_is_charged(v: PlannerView, last_served: Option<Seq<char>>, routable: bool)
    ensures
        v.routing is None || !routable || v.route_session is None || last_served is None
            ==> served_by(v, last_served, routable) == v.config.model,
        v.routing is Some && routable && v.route_session is Some ==> (last_served matches Some(m)
            ==> served_by(v, last_served, routable) == m),
{
}

// ---------------------------------------------------------------------------
// The outcome of a call
// ---------------------------------------------------------------------------

/// An outcome adds one result to the conversation and takes the call that has
/// waited longest off the list; it says that it is an error exactly where the
/// tool did not complete; and it touches nothing else but the count of failures.
pub proof fn law_an_outcome_adds_one_result(
    v: PlannerView,
    tools: Seq<ToolView>,
    tool: ToolId,
    outcome: OutcomeView,
)
    ensures
        ({
            let a = observed(v, tools, tool, outcome);
            &&& a == (PlannerView {
                history: a.history,
                pending: a.pending,
                failures: a.failures,
                fitted: false,
                ..v
            })
            &&& a.history.len() == v.history.len() + 1
            &&& a.history.drop_last() == v.history
            &&& a.history.last() matches MessageView::ToolResult { call_id, content, is_error }
            &&& is_error == !(outcome is Completed)
            &&& v.pending.len() > 0 ==> call_id == v.pending[0] && a.pending == v.pending.skip(1)
            &&& v.pending.len() == 0 ==> call_id == "unknown-call"@ && a.pending == v.pending
        }),
{
    let a = observed(v, tools, tool, outcome);
    assert(a.history.drop_last() =~= v.history);
    if v.pending.len() > 0 {
        assert(a.pending =~= v.pending.skip(1));
    }
}

// ---------------------------------------------------------------------------
// The start of a turn
// ---------------------------------------------------------------------------

/// The memory and the refiner are asked exactly where there is one and the user
/// has written a word; earlier turns exactly where there is a seeder and the
/// conversation is still empty.
pub proof fn law_what_is_asked_before_a_turn(v: PlannerView, content: Seq<BlockView>)
    ensures
        ({
            let words = exists|i: int|
                0 <= i < content.len() && (#[trigger] content[i] matches BlockView::Text { text }
                    && !blank(text));
            &&& recall_due(v, content) <==> v.config.context_provider && words
            &&& refine_due(v, content) <==> v.config.system_prompt_refiner && words
            &&& seed_due(v) <==> v.config.conversation_seeder && v.history.len() == 0
        }),
{
    law_a_query_is_blank_without_words(content);
}

/// A turn's task is the user's message, block by block; where the memory was
/// asked and had something to say, that stands in front of it.
pub proof fn law_the_task_is_what_the_user_said(
    v: PlannerView,
    session: Seq<char>,
    content: Seq<BlockView>,
    recalled: Option<Recall>,
    refined: Option<Seq<char>>,
    prior: Seq<PriorView>,
)
    ensures
        ({
            let b = begun(v, session, content, recalled, refined, prior);
            let words = exists|i: int|
                0 <= i < content.len() && (#[trigger] content[i] matches BlockView::Text { text }
                    && !blank(text));
            &&& b.history.len() > 0
            &&& b.history.last() matches MessageView::User { content: shown }
            &&& if v.config.context_provider && words && recalled is Some {
                shown.len() == content.len() + 1 && shown[0] == (BlockView::Text {
                    text: recalled->0.block@,
                }) && shown.skip(1) == content
            } else {
                shown == content
            }
        }),
{
    let b = begun(v, session, content, recalled, refined, prior);
    law_what_is_asked_before_a_turn(v, content);
    if let MessageView::User { content: shown } = b.history.last() {
        if recall_due(v, content) && recalled is Some {
            assert(shown.skip(1) =~= content);
        }
    }
}

/// Earlier turns are put in front of the task where they were asked for, and
/// nowhere else; the conversation itself is never changed by it.
pub proof fn law_earlier_turns_precede_the_task(
    v: PlannerView,
    session: Seq<char>,
    content: Seq<BlockView>,
    recalled: Option<Recall>,
    refined: Option<Seq<char>>,
    prior: Seq<PriorView>,
)
    ensures
        ({
            let before = begun(v, session, content, recalled, refined, prior).history.drop_last();
            if v.config.conversation_seeder && v.history.len() == 0 {
                before.len() == seeded(prior).len() && forall|i: int|
                    0 <= i < before.len() ==> #[trigger] before[i] == if seeded(prior)[i].is_user {
                        MessageView::User {
                            content: seq![BlockView::Text { text: seeded(prior)[i].text }],
                        }
                    } else {
                        MessageView::Assistant {
                            text: seeded(prior)[i].text,
                            tool_calls: Seq::empty(),
                        }
                    }
            } else {
                before == v.history
            }
        }),
{
    let before = begun(v, session, content, recalled, refined, prior).history.drop_last();
    if v.config.conversation_seeder && v.history.len() == 0 {
        assert(before =~= turn_messages(seeded(prior)));
    } else {
        assert(before =~= v.history);
    }
}

/// The start of a turn changes the conversation, the system prompt where it was
/// offered for a change and one came back, and the session that requests are
/// routed by, which is the conversation that was set or else the message's own;
/// it forgets the calls of the turn before, and touches nothing else.
pub proof fn law_what_the_start_of_a_turn_changes(
    v: PlannerView,
    session: Seq<char>,
    content: Seq<BlockView>,
    recalled: Option<Recall>,
    refined: Option<Seq<char>>,
    prior: Seq<PriorView>,
)
    ensures
        ({
            let b = begun(v, session, content, recalled, refined, prior);
            let words = exists|i: int|
                0 <= i < content.len() && (#[trigger] content[i] matches BlockView::Text { text }
                    && !blank(text));
            &&& b.config.system_prompt == if v.config.system_prompt_refiner && words && refined is Some {
                refined
            } else {
                v.config.system_prompt
            }
            &&& b.config == (ConfigView {
                system_prompt: b.config.system_prompt,
                ..v.config
            })
            &&& b.route_session == Some(
                match v.conversation {
                    Some(c) => c,
                    None => session,
                },
            )
            &&& b.pending == Seq::<Seq<char>>::empty()
            &&& b == (PlannerView {
                config: b.config,
                history: b.history,
                pending: b.pending,
                task: b.task,
                fitted: false,
                route_session: b.route_session,
                ..v
            })
        }),
{
    law_what_is_asked_before_a_turn(v, content);
}

// ---------------------------------------------------------------------------
// The request
// ---------------------------------------------------------------------------

/// A request carries the planner's whole conversation, the tools it advertises,
/// and its settings, unchanged. It hints at the prefix where a broker chooses
/// the slot, and at the task and the session where requests are routed, and in
/// no other case.
pub proof fn law_a_request_carries_the_conversation(v: PlannerView, history_tokens: usize)
    ensures
        ({
            let r = request_of(v, history_tokens);
            &&& r.messages == v.history
            &&& r.tools == v.tools
            &&& r.model == v.config.model
            &&& r.system == v.config.system_prompt
            &&& r.max_tokens == v.config.max_tokens
            &&& r.temperature == v.config.temperature
            &&& r.id_slot == v.kv_slot
            &&& r.slot_hint is Some <==> v.broker
            &&& r.slot_hint matches Some(h) ==> h.prefix_hash == prefix_hash(
                v.config.system_prompt,
                v.tools,
            )
            &&& r.route is Some <==> v.routing is Some
            &&& r.route matches Some(h) ==> Some(h.task) == v.routing && h.session
                == v.route_session && h.estimated_prompt_tokens == context_need(
                history_tokens,
                r.system,
                r.tools,
                r.max_tokens,
            )
        }),
{
}

/// A slot is looked up under what the server is, what it runs, and the prefix
/// that each request will start with.
pub proof fn law_a_slot_is_keyed_by_the_prefix(v: PlannerView, history_tokens: usize)
    requires
        wants_slot(v),
    ensures
        ({
            let key = prefix_key(v);
            let r = request_of(v, history_tokens);
            &&& v.kv_cache matches Some(kv)
            &&& key.backend_id == kv.backend_id
            &&& key.model_id == kv.model_id
            &&& key.build_hash == kv.build_hash
            &&& key.prefix_hash == prefix_hash(r.system, r.tools)
        }),
{
}

// ---------------------------------------------------------------------------
// What is advertised and what was said
// ---------------------------------------------------------------------------

/// With an allowlist, the tools that are on it are advertised, in the registry's
/// order, each with its own name, description and schema.
pub proof fn law_allowed_tools_are_advertised_as_they_are(
    tools: Seq<ToolView>,
    allowlist: Seq<Seq<char>>,
)
    ensures
        advertised(tools, Some(allowlist)) == tools.filter(
            |t: ToolView| allowlist.contains(t.name),
        ).map_values(
            |t: ToolView|
                DescriptorView {
                    name: t.name,
                    description: t.description,
                    input_schema: t.input_schema,
                },
        ),
    decreases tools.len(),
{
    let allowed = |t: ToolView| allowlist.contains(t.name);
    let shown = |t: ToolView|
        DescriptorView { name: t.name, description: t.description, input_schema: t.input_schema };
    reveal(Seq::filter);
    if tools.len() > 0 {
        let rest = tools.drop_last();
        law_allowed_tools_are_advertised_as_they_are(rest, allowlist);
        if allowed(tools.last()) {
            assert(rest.filter(allowed).push(tools.last()).map_values(shown) =~= rest.filter(
                allowed,
            ).map_values(shown).push(shown(tools.last())));
        }
    } else {
        assert(tools.filter(allowed).map_values(shown) =~= Seq::<DescriptorView>::empty());
    }
}

/// A planner starts with its configuration and its tools, and with nothing else:
/// no conversation, nothing to wait for, nothing spent and nothing counted.
pub proof fn law_a_planner_starts_empty(tools: Seq<ToolView>, config: ConfigView)
    ensures
        ({
            let v = fresh(tools, config);
            &&& v.config == config
            &&& v.tools == advertised(tools, config.tool_allowlist)
            &&& v.history.len() == 0
            &&& v.pending.len() == 0
            &&& v.failures is None
            &&& v.pruned == 0
            &&& v.task is None
            &&& !v.fitted
            &&& v.kv_cache is None
            &&& v.kv_slot is None
            &&& !v.broker
            &&& v.routing is None
            &&& v.route_session is None
            &&& v.conversation is None
            &&& v.costs.len() == 0
            &&& !v.taint
            &&& v.usage.input_tokens == 0
            &&& v.usage.output_tokens == 0
            &&& v.usage.cache_creation_input_tokens == 0
            &&& v.usage.cache_read_input_tokens == 0
            &&& v.usage.context_tokens_before_pruning == 0
            &&& v.usage.context_tokens_after_pruning == 0
        }),
{
}

/// What the tools have said are the results in the conversation, in their order,
/// each up to the advice to stop, where it carries that.
pub proof fn law_what_the_tools_have_said(history: Seq<MessageView>)
    ensures
        result_texts(history) == history.filter(
            |m: MessageView| m is ToolResult,
        ).map_values(|m: MessageView| before_first(m->ToolResult_content, "\n\n[SYSTEM NOTE:"@)),
    decreases history.len(),
{
    let is_result = |m: MessageView| m is ToolResult;
    let text = |m: MessageView| before_first(m->ToolResult_content, "\n\n[SYSTEM NOTE:"@);
    reveal(Seq::filter);
    if history.len() > 0 {
        let rest = history.drop_last();
        law_what_the_tools_have_said(rest);
        if history.last() is ToolResult {
            assert(rest.filter(is_result).push(history.last()).map_values(text) =~= rest.filter(
                is_result,
            ).map_values(text).push(text(history.last())));
        }
    } else {
        assert(history.filter(is_result).map_values(text) =~= Seq::<Seq<char>>::empty());
    }
}

/// A model gets two rounds to repair wrong inputs: its inputs are held to the
/// schemas before the first and the second of them, and not any more then.
pub proof fn law_there_are_two_rounds_of_repair(
    tools: Seq<ToolView>,
    threshold: u32,
    calls: Seq<PlannedView>,
    repair_rounds: int,
)
    requires
        0 <= repair_rounds <= 2,
    ensures
        REPAIR_ROUNDS == 2,
        next_after(
            verdicts_on(tools, threshold, calls, repair_rounds < 2),
            repair_rounds,
        ) matches StepNextView::AskAgain(rounds) ==> rounds <= 2,
{
    law_repair_is_bounded(tools, threshold, calls, repair_rounds);
}

/// The calls that are judged are those of the reply, whether the model asked for
/// them outright or they were found in its text.
pub proof fn law_which_calls_are_judged(text: Seq<char>, usage: LlmUsage, calls: Seq<PlannedView>)
    ensures
        calls_of(StepEndView::FinalMessage { text, usage, calls }) == calls,
        calls_of(StepEndView::ToolCalls { calls, text_so_far: text, usage }) == calls,
        calls_of(StepEndView::Cancelled).len() == 0,
        calls_of(StepEndView::Failed(text)).len() == 0,
{
}

/// A tool that is registered is blamed by its name.
pub proof fn law_who_is_blamed(tools: Seq<ToolView>, tool: ToolId, i: int)
    requires
        0 <= i < tools.len(),
        tools[i].id == tool,
        forall|j: int| 0 <= j < i ==> (#[trigger] tools[j]).id != tool,
    ensures
        blamed_name(tools, tool) == tools[i].name,
{
    crate::planner::law_an_id_finds_its_first_tool(tools, tool, i);
}

/// The plan for a turn names its conversation, offers the system prompt as it
/// stands, or an empty one, and asks with what the user has written.
pub proof fn law_what_is_offered_before_a_turn(
    v: PlannerView,
    session: Seq<char>,
    content: Seq<BlockView>,
)
    ensures
        ({
            let plan = plan_of(v, session, content);
            let words = exists|i: int|
                0 <= i < content.len() && (#[trigger] content[i] matches BlockView::Text { text }
                    && !blank(text));
            &&& plan.conversation == match v.conversation {
                Some(c) => c,
                None => session,
            }
            &&& plan.query == joined(
                content.filter(|b: BlockView| b is Text).map_values(|b: BlockView| b->Text_text),
                " "@,
            )
            &&& plan.recall <==> v.config.context_provider && words
            &&& plan.refine <==> v.config.system_prompt_refiner && words
            &&& plan.seed <==> v.config.conversation_seeder && v.history.len() == 0
            &&& v.config.system_prompt matches Some(p) ==> plan.base_prompt == p
            &&& v.config.system_prompt is None ==> plan.base_prompt.len() == 0
        }),
{
    law_what_is_asked_before_a_turn(v, content);
    law_a_query_is_made_of_the_texts(content);
}

/// A conversation is marked as holding private matter exactly where that is
/// wanted, the memory was asked, and what it had to say is private and not
/// blank; and it is the turn's own that is marked.
pub proof fn law_private_matter_is_marked(
    v: PlannerView,
    session: Seq<char>,
    content: Seq<BlockView>,
    recalled: Option<Recall>,
)
    ensures
        tainted(v, session, content, recalled) is Some <==> v.taint && v.config.context_provider
            && (exists|i: int|
            0 <= i < content.len() && (#[trigger] content[i] matches BlockView::Text { text }
                && !blank(text))) && (recalled matches Some(x) && x.sensitive && !blank(x.block@)),
        tainted(v, session, content, recalled) matches Some(c) ==> c == match v.conversation {
            Some(set) => set,
            None => session,
        },
{
    law_what_is_asked_before_a_turn(v, content);
}

/// What is reported of a cut is how many messages are missing from the
/// conversation, and, where somebody wants to keep it, a summary of just those.
pub proof fn law_a_cut_is_reported(v: PlannerView, estimate: TokenEstimate)
    requires
        v.wf(),
        is_cut(v, estimate),
        estimate.each@.len() == v.history.len(),
        v.history.len() < usize::MAX,
    ensures
        ({
            let report = report_of(v, estimate);
            let gone = v.history.take(report.count);
            &&& 0 <= report.count < v.history.len()
            &&& v.history.skip(report.count).is_suffix_of(cut(v, estimate).history)
            &&& report.summary == if v.config.prune_sink && report.count > 0 {
                Some(joined(gone.map_values(|m: MessageView| summary_line(m)), seq!['\n']))
            } else {
                None
            }
        }),
{
    let report = report_of(v, estimate);
    let gone = v.history.take(report.count);
    let after = cut(v, estimate).history;
    let kept = v.history.skip(report.count);
    law_a_cut_fits_the_window(v, estimate);
    law_a_cut_drops_the_oldest(v, estimate);
    assert(kept =~= after.skip(after.len() - kept.len()));
    assert(gone.map_values(|m: MessageView| summary_line(m)) =~= summary_lines(gone));
}

/// A slot is warmed up with the prefix of the requests that will be pinned to
/// it: their model, their system prompt and their tools. One token is asked for,
/// in that slot.
pub proof fn law_a_slot_is_warmed_up_with_the_prefix(
    v: PlannerView,
    slot: u32,
    warm_up: Seq<MessageView>,
    history_tokens: usize,
)
    ensures
        ({
            let w = warm_up_of(v, slot, warm_up);
            let r = request_of(PlannerView { kv_slot: Some(slot), ..v }, history_tokens);
            &&& w.model == r.model
            &&& w.system == r.system
            &&& w.tools == r.tools
            &&& w.id_slot == r.id_slot
            &&& w.messages == warm_up
            &&& w.max_tokens == 1
            &&& w.slot_hint is None
            &&& w.route is None
            &&& w.temperature is None
        }),
{
}

/// There is always something to send, and what was said is sent as it is.
pub proof fn law_there_is_always_something_to_send(v: PlannerView, history_tokens: usize)
    ensures
        request_of(with_a_message(v), history_tokens).messages.len() > 0,
        v.history.len() > 0 ==> with_a_message(v) == v,
        v.history.len() == 0 ==> request_of(with_a_message(v), history_tokens).messages == seq![
            MessageView::User { content: seq![BlockView::Text { text: ""@ }] },
        ],
        with_a_message(v) == (PlannerView {
            history: with_a_message(v).history,
            fitted: with_a_message(v).fitted,
            ..v
        }),
{
}

/// How large the cut conversation is estimated to be is recorded beside what was
/// spent, and changes nothing else.
pub proof fn law_the_size_is_recorded(v: PlannerView, tokens: int)
    requires
        0 <= tokens <= u32::MAX,
    ensures
        ({
            let s = sized(v, tokens);
            &&& s == (PlannerView { usage: s.usage, ..v })
            &&& s.usage.context_tokens_after_pruning == tokens
            &&& s.usage.context_tokens_before_pruning == v.usage.context_tokens_before_pruning
            &&& s.usage.input_tokens == v.usage.input_tokens
            &&& s.usage.output_tokens == v.usage.output_tokens
            &&& s.usage.cache_creation_input_tokens == v.usage.cache_creation_input_tokens
            &&& s.usage.cache_read_input_tokens == v.usage.cache_read_input_tokens
        }),
{
}

} // verus!
