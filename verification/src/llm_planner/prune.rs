//! Keeping the conversation within the context window: which messages are
//! dropped, and what stands in their place.

use vstd::prelude::*;
use crate::llm_planner::message::{messages, user_text_view, LlmMessage, MessageView};
use crate::text::{decimal_text, push_decimal};

verus! {

/// How many tokens the request is estimated at.
#[derive(Debug)]
pub struct TokenEstimate {
    /// The system prompt.
    pub system: usize,
    /// The whole conversation.
    pub history: usize,
    /// Each message of the conversation by itself.
    pub each: Vec<usize>,
}

/// How many tokens the messages from `k` on are estimated at.
pub open spec fn tail_tokens(each: Seq<usize>, k: int) -> int
    decreases each.len() - k,
{
    if 0 <= k < each.len() {
        each[k] + tail_tokens(each, k + 1)
    } else {
        0
    }
}

/// How far the part that is kept can reach back from `k` within `target`.
pub open spec fn grown(each: Seq<usize>, k: int, target: int) -> int
    decreases k,
{
    if k > 0 && tail_tokens(each, k - 1) <= target {
        grown(each, k - 1, target)
    } else {
        k
    }
}

/// The first message that is kept: the last one is in any case, and those
/// before it as far as they fit in with it.
pub open spec fn keep_from(each: Seq<usize>, target: int) -> int {
    grown(each, each.len() - 1, target)
}

/// The size from which on messages are dropped: four fifths of the window.
pub open spec fn budget(window: usize) -> int {
    (window * 4) / 5
}

/// Whether the conversation has to be cut.
pub open spec fn over_budget(window: Option<usize>, system: usize, history: usize, len: nat) -> bool {
    window matches Some(w) && system + history > budget(w) && len > 1
}

/// What the messages may take up: the budget, less the system prompt.
pub open spec fn room(window: usize, system: usize) -> int {
    if budget(window) >= system {
        budget(window) - system
    } else {
        0
    }
}

/// What stands for `count` dropped messages.
pub open spec fn sentinel(count: nat) -> MessageView {
    user_text_view(
        "[Earlier context pruned: "@ + decimal_text(count)
            + " messages removed to fit context window]"@,
    )
}

/// The conversation once the first `count` messages are dropped: the notice,
/// then the message at `task` if it was among them, then what is kept.
pub open spec fn pruned(history: Seq<MessageView>, count: int, task: Option<usize>) -> Seq<
    MessageView,
> {
    if count == 0 {
        history
    } else {
        match task {
            Some(t) => if t < count {
                seq![sentinel(count as nat), history[t as int]] + history.skip(count)
            } else {
                seq![sentinel(count as nat)] + history.skip(count)
            },
            None => seq![sentinel(count as nat)] + history.skip(count),
        }
    }
}

/// Where the message at `task` stands once the first `count` are dropped.
pub open spec fn pruned_task(count: int, task: Option<usize>) -> Option<usize> {
    if count == 0 {
        task
    } else {
        match task {
            Some(t) => if t < count {
                Some(1usize)
            } else {
                Some((t - count + 1) as usize)
            },
            None => None,
        }
    }
}

proof fn lemma_tail_mono(each: Seq<usize>, k: int)
    requires
        0 < k <= each.len(),
    ensures
        tail_tokens(each, k) <= tail_tokens(each, k - 1),
        tail_tokens(each, k) >= 0,
    decreases each.len() - k,
{
    if k < each.len() {
        lemma_tail_mono(each, k + 1);
    }
}

proof fn lemma_grown(each: Seq<usize>, k: int, target: int)
    requires
        0 <= k < each.len(),
    ensures
        0 <= grown(each, k, target) <= k,
        grown(each, k, target) < k ==> tail_tokens(each, grown(each, k, target)) <= target,
        grown(each, k, target) > 0 ==> tail_tokens(each, grown(each, k, target) - 1) > target,
    decreases k,
{
    if k > 0 && tail_tokens(each, k - 1) <= target {
        lemma_grown(each, k - 1, target);
    }
}

/// What the messages from one on are estimated at is what that message is
/// estimated at, and those behind it.
pub proof fn law_estimates_add_up(each: Seq<usize>, k: int)
    ensures
        0 <= k < each.len() ==> tail_tokens(each, k) == each[k] + tail_tokens(each, k + 1),
        tail_tokens(each, each.len() as int) == 0,
{
}

/// Dropping never takes the last message; what is kept fits into `target`
/// unless it is that message alone; and one message more would not fit.
pub proof fn law_kept_part_is_the_longest_that_fits(each: Seq<usize>, target: int)
    requires
        each.len() > 0,
    ensures
        0 <= keep_from(each, target) < each.len(),
        keep_from(each, target) < each.len() - 1 ==> tail_tokens(each, keep_from(each, target))
            <= target,
        keep_from(each, target) > 0 ==> tail_tokens(each, keep_from(each, target) - 1) > target,
{
    lemma_grown(each, each.len() - 1, target);
}

/// Whatever is dropped, the task message is still there afterwards, at the
/// place that is remembered for it, and so is the last message.
pub proof fn law_pruning_keeps_the_task(history: Seq<MessageView>, count: int, task: Option<usize>)
    requires
        0 <= count < history.len(),
        task matches Some(t) ==> t < history.len(),
        history.len() <= usize::MAX,
    ensures
        task matches Some(t) ==> {
            &&& pruned_task(count, task) is Some
            &&& (pruned_task(count, task)->0) < pruned(history, count, task).len()
            &&& pruned(history, count, task)[pruned_task(count, task)->0 as int]
                == history[t as int]
        },
        pruned(history, count, task).last() == history.last(),
        pruned(history, count, task).len() <= history.len() + 1,
{
}

/// Where the part that is kept begins.
fn find_keep_from(each: &Vec<usize>, target: usize) -> (r: usize)
    requires
        each@.len() > 0,
        tail_tokens(each@, 0) <= usize::MAX,
    ensures
        r == keep_from(each@, target as int),
        r < each@.len(),
{
    let mut k: usize = each.len() - 1;
    let mut tail: usize = each[k];
    proof {
        assert(tail_tokens(each@, k + 1) == 0);
        lemma_all_tails(each@, k as int);
    }
    proof {
        if k > 0 {
            lemma_all_tails(each@, k - 1);
        }
    }
    while k > 0 && tail + each[k - 1] <= target
        invariant
            k < each@.len(),
            tail == tail_tokens(each@, k as int),
            k > 0 ==> tail_tokens(each@, k - 1) <= usize::MAX,
            tail_tokens(each@, 0) <= usize::MAX,
            grown(each@, k as int, target as int) == keep_from(each@, target as int),
        decreases k,
    {
        tail = tail + each[k - 1];
        k = k - 1;
        proof {
            if k > 0 {
                lemma_all_tails(each@, k - 1);
            }
        }
    }
    proof {
        if k > 0 {
            assert(tail_tokens(each@, k - 1) == each@[k - 1] + tail);
        }
    }
    k
}

proof fn lemma_all_tails(each: Seq<usize>, k: int)
    requires
        0 <= k <= each.len(),
    ensures
        0 <= tail_tokens(each, k) <= tail_tokens(each, 0),
    decreases k,
{
    if k > 0 {
        lemma_tail_mono(each, k);
        lemma_all_tails(each, k - 1);
    } else if each.len() > 0 {
        lemma_tail_mono(each, 1);
    }
}

/// How many messages have to go, if the conversation has to be cut at all.
pub fn prune_count(window: Option<usize>, estimate: &TokenEstimate) -> (r: Option<usize>)
    requires
        window matches Some(w) ==> w * 4 <= usize::MAX,
        estimate.system + estimate.history <= usize::MAX,
        tail_tokens(estimate.each@, 0) <= usize::MAX,
    ensures
        r is Some <==> over_budget(
            window,
            estimate.system,
            estimate.history,
            estimate.each@.len(),
        ),
        r matches Some(k) ==> window is Some && k == keep_from(
            estimate.each@,
            room(window->0, estimate.system),
        ) && k < estimate.each@.len(),
        r is Some <==> (window matches Some(w) && estimate.system + estimate.history > w * 4 / 5
            && estimate.each@.len() > 1),
        r matches Some(k) ==> {
            let limit = window->0 * 4 / 5;
            &&& k + 1 < estimate.each@.len() && estimate.system <= limit ==> estimate.system
                + tail_tokens(estimate.each@, k as int) <= limit
            &&& k > 0 ==> estimate.system + tail_tokens(estimate.each@, k - 1) > limit
        },
{
    proof {
        if window is Some && estimate.each@.len() > 0 {
            law_kept_part_is_the_longest_that_fits(
                estimate.each@,
                room(window->0, estimate.system),
            );
        }
    }
    match window {
        None => None,
        Some(w) => {
            let limit: usize = w * 4 / 5;
            let total: usize = estimate.system + estimate.history;
            if total > limit && estimate.each.len() > 1 {
                let target: usize = if limit >= estimate.system {
                    limit - estimate.system
                } else {
                    0
                };
                Some(find_keep_from(&estimate.each, target))
            } else {
                None
            }
        },
    }
}

/// The notice that stands for `count` dropped messages.
fn sentinel_message(count: usize) -> (r: LlmMessage)
    ensures
        r@ == sentinel(count as nat),
{
    let mut text: String = String::new();
    text.push_str("[Earlier context pruned: ");
    push_decimal(&mut text, count as u64);
    text.push_str(" messages removed to fit context window]");
    assert(text@ =~= "[Earlier context pruned: "@ + decimal_text(count as nat)
        + " messages removed to fit context window]"@);
    LlmMessage::user_text(text)
}

/// Drops the first `count` messages, all but the task message.
pub fn drop_messages(history: Vec<LlmMessage>, count: usize, task: Option<usize>) -> (r: Vec<
    LlmMessage,
>)
    requires
        count < history@.len(),
        task matches Some(t) ==> t < history@.len(),
    ensures
        messages(r@) == pruned(messages(history@), count as int, task),
{
    if count == 0 {
        return history;
    }
    let ghost all = messages(history@);
    let mut out: Vec<LlmMessage> = Vec::new();
    out.push(sentinel_message(count));
    assert(messages(out@) =~= seq![sentinel(count as nat)]);
    match task {
        Some(t) => {
            if t < count {
                let m: LlmMessage = history[t].copy();
                out.push(m);
                assert(messages(out@) =~= seq![sentinel(count as nat), all[t as int]]);
            }
        },
        None => {},
    }
    let ghost head = messages(out@);
    let mut rest: Vec<LlmMessage> = history;
    let mut kept: Vec<LlmMessage> = rest.split_off(count);
    assert(messages(kept@) =~= all.skip(count as int));
    let ghost o = out@;
    let ghost k = kept@;
    out.append(&mut kept);
    assert(messages(out@) =~= messages(o) + messages(k));
    assert(messages(out@) =~= head + all.skip(count as int));
    out
}

} // verus!
