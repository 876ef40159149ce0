//! The planner's state over a turn, and how each event changes it. Whoever
//! drives the planner does the outside work (asks the model, the memory, the
//! slot pool) and hands the answers in.

use std::collections::VecDeque;
use vstd::prelude::*;
use crate::json::json_text;
use crate::llm_planner::calls::{
    planned,
    process_calls,
    scores_fit,
    verdicts,
    verdicts_on,
    CallVerdict,
    PlannedCall,
    PlannedView,
    VerdictView,
};
use crate::llm_planner::config::{ConfigView, LlmPlannerConfig};
use crate::llm_planner::costs::{
    add_cost,
    cost_added,
    costs_are,
    costs_view,
    report_costs,
    reported_costs,
};
use crate::llm_planner::input::{query_of, Message};
use crate::llm_planner::kv::{
    after_check_out,
    checked_out,
    finished,
    key_of,
    over,
    CacheKey,
    KeyView,
    KvCacheConfig,
    KvConfigView,
    KvStep,
    KvWarning,
};
use crate::llm_planner::message::{
    blocks,
    messages,
    priors,
    records,
    seeded,
    seeded_history_messages,
    summarise_pruned,
    summary_of,
    turn_messages,
    user_text_view,
    BlockView,
    ContentBlock,
    LlmMessage,
    LlmToolCallRecord,
    MessageView,
    PriorTurn,
    PriorView,
    RecordView,
};
use crate::llm_planner::prune::{
    drop_messages,
    keep_from,
    over_budget,
    prune_count,
    pruned,
    pruned_task,
    room,
    sentinel,
    tail_tokens,
    TokenEstimate,
};
use crate::llm_planner::request::{
    compute_prefix_hash,
    context_need,
    descriptors,
    prefix_hash,
    route_estimate,
    DescriptorView,
    LlmRequest,
    LlmRequestView,
    LlmToolDescriptor,
    RouteHint,
    RouteHintView,
    SlotHint,
    SlotHintView,
};
use crate::llm_planner::tool_result::{
    advance_streak,
    cap_tool_result_content,
    capped,
    next_streak,
    nudge,
    push_nudge,
    render_tool_result,
    shown_value,
    without_nudge,
    TOOL_FAILURE_NUDGE_MARKER,
    TOOL_FAILURE_NUDGE_THRESHOLD,
};
use crate::outcome::{
    no_usage,
    usage_fits,
    usage_plus,
    LlmUsage,
    OutcomeView,
    TokenUsage,
    ToolId,
    ToolOutcome,
};
use crate::planner::{
    requests,
    text_of,
    tool_by_id,
    NextStep,
    RequestView,
    StepView,
    Tool,
    ToolCallRequest,
    ToolRegistry,
    ToolView,
};
use crate::text::{blank, is_blank, same_text, texts, until_first};

verus! {

// ---------------------------------------------------------------------------
// The planner
// ---------------------------------------------------------------------------

/// Asks a language model for the steps of one turn.
pub struct LlmPlanner {
    config: LlmPlannerConfig,
    tools: Vec<LlmToolDescriptor>,
    history: Vec<LlmMessage>,
    pending_call_ids: VecDeque<String>,
    consecutive_tool_failures: Option<(ToolId, usize)>,
    accumulated_usage: TokenUsage,
    pruned_message_count: usize,
    task_message_index: Option<usize>,
    fitted: bool,
    kv_cache: Option<KvCacheConfig>,
    kv_slot_id: Option<u32>,
    broker_slot_hint: bool,
    routing: Option<String>,
    route_session: Option<String>,
    conversation: Option<String>,
    turn_costs: Vec<(String, TokenUsage)>,
    taint: bool,
}

/// What an [`LlmPlanner`] stands for.
pub ghost struct PlannerView {
    pub config: ConfigView,
    /// The tools that are advertised to the model.
    pub tools: Seq<DescriptorView>,
    /// The conversation as it is sent to the model.
    pub history: Seq<MessageView>,
    /// The calls that were dispatched and whose outcome is not known yet.
    pub pending: Seq<Seq<char>>,
    /// The tool that has failed last, and how often in a row.
    pub failures: Option<(ToolId, usize)>,
    pub usage: TokenUsage,
    /// How many messages were dropped.
    pub pruned: usize,
    /// Where the turn's task stands in the conversation.
    pub task: Option<usize>,
    /// Whether the conversation was held to the context window since it last
    /// changed.
    pub fitted: bool,
    pub kv_cache: Option<KvConfigView>,
    pub kv_slot: Option<u32>,
    pub broker: bool,
    /// The kind of task that requests are routed by.
    pub routing: Option<Seq<char>>,
    pub route_session: Option<Seq<char>>,
    pub conversation: Option<Seq<char>>,
    /// What each model has spent.
    pub costs: Seq<(Seq<char>, TokenUsage)>,
    /// Whether a sensitive recall is to be reported.
    pub taint: bool,
}

impl View for LlmPlanner {
    type V = PlannerView;

    closed spec fn view(&self) -> PlannerView {
        PlannerView {
            config: self.config@,
            tools: descriptors(self.tools@),
            history: messages(self.history@),
            pending: texts(self.pending_call_ids@),
            failures: self.consecutive_tool_failures,
            usage: self.accumulated_usage,
            pruned: self.pruned_message_count,
            task: self.task_message_index,
            fitted: self.fitted,
            kv_cache: match self.kv_cache {
                Some(kv) => Some(kv@),
                None => None,
            },
            kv_slot: self.kv_slot_id,
            broker: self.broker_slot_hint,
            routing: text_of(self.routing),
            route_session: text_of(self.route_session),
            conversation: text_of(self.conversation),
            costs: costs_view(self.turn_costs@),
            taint: self.taint,
        }
    }
}

impl PlannerView {
    /// What holds of every planner: the task stands in the conversation; slots
    /// are dealt with here or by a broker, never both; a slot is held only
    /// where slots are dealt with here and the prompt is never rewritten; and
    /// the models' costs are those of the turn.
    pub open spec fn wf(self) -> bool {
        &&& self.task matches Some(t) ==> t < self.history.len()
        &&& !(self.kv_cache is Some && self.broker)
        &&& self.kv_slot is Some ==> self.kv_cache is Some && !self.config.system_prompt_refiner
        &&& costs_are(self.costs, self.usage)
        &&& self.routing is None ==> forall|i: int|
            0 <= i < self.costs.len() ==> (#[trigger] self.costs[i]).0 == self.config.model
    }
}

/// The tools that a role may use, as they are advertised.
pub open spec fn advertised(tools: Seq<ToolView>, allowlist: Option<Seq<Seq<char>>>) -> Seq<
    DescriptorView,
>
    decreases tools.len(),
{
    if tools.len() == 0 {
        Seq::empty()
    } else {
        let rest = advertised(tools.drop_last(), allowlist);
        let tool = tools.last();
        if allowlist is None || allowlist->0.contains(tool.name) {
            rest.push(
                DescriptorView {
                    name: tool.name,
                    description: tool.description,
                    input_schema: tool.input_schema,
                },
            )
        } else {
            rest
        }
    }
}

/// No tool outside the allowlist is ever advertised, and every tool on it is.
pub proof fn law_the_allowlist_decides(tools: Seq<ToolView>, allowlist: Seq<Seq<char>>)
    ensures
        forall|i: int|
            0 <= i < advertised(tools, Some(allowlist)).len() ==> allowlist.contains(
                (#[trigger] advertised(tools, Some(allowlist))[i]).name,
            ),
        forall|k: int|
            0 <= k < tools.len() && allowlist.contains((#[trigger] tools[k]).name) ==> exists|
                i: int,
            |
                0 <= i < advertised(tools, Some(allowlist)).len() && (#[trigger] advertised(
                    tools,
                    Some(allowlist),
                )[i]).name == tools[k].name,
    decreases tools.len(),
{
    if tools.len() > 0 {
        let init = tools.drop_last();
        let before = advertised(init, Some(allowlist));
        let all = advertised(tools, Some(allowlist));
        law_the_allowlist_decides(init, allowlist);
        assert forall|i: int| 0 <= i < all.len() implies allowlist.contains(
            (#[trigger] all[i]).name,
        ) by {
            if i < before.len() {
                assert(all[i] == before[i]);
            }
        }
        assert forall|k: int|
            0 <= k < tools.len() && allowlist.contains((#[trigger] tools[k]).name) implies exists|
                i: int,
            |
                0 <= i < all.len() && (#[trigger] all[i]).name == tools[k].name by {
            if k < init.len() {
                assert(init[k] == tools[k]);
                let i = choose|i: int|
                    0 <= i < before.len() && (#[trigger] before[i]).name == init[k].name;
                assert(all[i] == before[i]);
            } else {
                assert(all[all.len() - 1].name == tools[k].name);
            }
        }
    }
}

/// Without an allowlist every registered tool is advertised, in the
/// registry's order.
pub proof fn law_no_allowlist_hides_nothing(tools: Seq<ToolView>)
    ensures
        advertised(tools, None) == tools.map_values(
            |t: ToolView|
                DescriptorView {
                    name: t.name,
                    description: t.description,
                    input_schema: t.input_schema,
                },
        ),
    decreases tools.len(),
{
    let shown = |t: ToolView|
        DescriptorView { name: t.name, description: t.description, input_schema: t.input_schema };
    if tools.len() > 0 {
        law_no_allowlist_hides_nothing(tools.drop_last());
        assert(tools.drop_last().map_values(shown) =~= tools.map_values(shown).drop_last());
    }
    assert(advertised(tools, None) =~= tools.map_values(shown));
}

/// A planner at the start of its turn.
pub open spec fn fresh(tools: Seq<ToolView>, config: ConfigView) -> PlannerView {
    PlannerView {
        config,
        tools: advertised(tools, config.tool_allowlist),
        history: Seq::empty(),
        pending: Seq::empty(),
        failures: None,
        usage: no_usage(),
        pruned: 0,
        task: None,
        fitted: false,
        kv_cache: None,
        kv_slot: None,
        broker: false,
        routing: None,
        route_session: None,
        conversation: None,
        costs: Seq::empty(),
        taint: false,
    }
}

fn name_among(names: &Vec<String>, name: &str) -> (r: bool)
    ensures
        r == texts(names@).contains(name@),
{
    let ghost all = texts(names@);
    let mut i: usize = 0;
    while i < names.len()
        invariant
            i <= names@.len(),
            all == texts(names@),
            forall|j: int| 0 <= j < i ==> #[trigger] all[j] != name@,
        decreases names@.len() - i,
    {
        assert(all[i as int] == names@[i as int]@);
        if same_text(names[i].as_str(), name) {
            return true;
        }
        i = i + 1;
    }
    false
}

impl LlmPlanner {
    /// A planner for one turn. Only tools on the allowlist, if there is one,
    /// are ever advertised to the model.
    pub fn new(registry: &ToolRegistry, config: LlmPlannerConfig) -> (r: LlmPlanner)
        ensures
            r@ == fresh(registry@, config@),
            r@.wf(),
    {
        let ghost all = registry@;
        let ghost allow = config@.tool_allowlist;
        let mut tools: Vec<LlmToolDescriptor> = Vec::new();
        assert(descriptors(tools@) =~= Seq::empty());
        let mut i: usize = 0;
        while i < registry.len()
            invariant
                i <= all.len(),
                all == registry@,
                allow == config@.tool_allowlist,
                descriptors(tools@) == advertised(all.take(i as int), allow),
            decreases all.len() - i,
        {
            let tool: &Tool = registry.at(i);
            assert(all.take(i + 1).drop_last() =~= all.take(i as int));
            assert(all.take(i + 1).last() == tool@);
            let allowed: bool = match &config.tool_allowlist {
                Some(names) => name_among(names, tool.name.as_str()),
                None => true,
            };
            if allowed {
                let d: LlmToolDescriptor = LlmToolDescriptor {
                    name: tool.name.clone(),
                    description: tool.description.clone(),
                    input_schema: tool.input_schema.copy(),
                };
                let ghost before = tools@;
                tools.push(d);
                assert(descriptors(tools@) =~= descriptors(before).push(d@));
            }
            i = i + 1;
        }
        assert(all.take(i as int) =~= all);
        let r: LlmPlanner = LlmPlanner {
            config,
            tools,
            history: Vec::new(),
            pending_call_ids: VecDeque::new(),
            consecutive_tool_failures: None,
            accumulated_usage: TokenUsage::default(),
            pruned_message_count: 0,
            task_message_index: None,
            fitted: false,
            kv_cache: None,
            kv_slot_id: None,
            broker_slot_hint: false,
            routing: None,
            route_session: None,
            conversation: None,
            turn_costs: Vec::new(),
            taint: false,
        };
        assert(r@.history =~= Seq::empty());
        assert(r@.pending =~= Seq::empty());
        assert(r@.costs =~= Seq::empty());
        r
    }

    /// Lets the planner keep its prefix loaded in a slot of its own server.
    pub fn with_kv_cache(self, cache: KvCacheConfig) -> (r: LlmPlanner)
        requires
            self@.wf(),
            !self@.broker,
        ensures
            r@ == (PlannerView { kv_cache: Some(cache@), ..self@ }),
            r@.wf(),
    {
        LlmPlanner { kv_cache: Some(cache), ..self }
    }

    /// Lets a broker choose the slot: each request says which prefix it has.
    pub fn with_broker_slot_hint(self) -> (r: LlmPlanner)
        requires
            self@.wf(),
            self@.kv_cache is None,
        ensures
            r@ == (PlannerView { broker: true, ..self@ }),
            r@.wf(),
    {
        LlmPlanner { broker_slot_hint: true, ..self }
    }

    /// Lets each request be routed to a model that suits the kind of task.
    pub fn with_routing(self, task: String) -> (r: LlmPlanner)
        requires
            self@.wf(),
        ensures
            r@ == (PlannerView { routing: Some(task@), ..self@ }),
            r@.wf(),
    {
        LlmPlanner { routing: Some(task), ..self }
    }

    /// Asks for sensitive recalls to be reported.
    pub fn with_taint(self) -> (r: LlmPlanner)
        requires
            self@.wf(),
        ensures
            r@ == (PlannerView { taint: true, ..self@ }),
            r@.wf(),
    {
        LlmPlanner { taint: true, ..self }
    }

    /// The conversation so far.
    pub fn history(&self) -> (r: &Vec<LlmMessage>)
        ensures
            messages(r@) == self@.history,
    {
        &self.history
    }

    /// How many messages were dropped to fit the context window.
    pub fn pruned_message_count(&self) -> (r: usize)
        ensures
            r == self@.pruned,
    {
        self.pruned_message_count
    }

    /// The names of the tools that are advertised, in the registry's order.
    pub fn advertised_tool_names(&self) -> (r: Vec<String>)
        ensures
            texts(r@) == self@.tools.map_values(|d: DescriptorView| d.name),
    {
        let ghost all = self@.tools.map_values(|d: DescriptorView| d.name);
        let mut out: Vec<String> = Vec::new();
        let mut i: usize = 0;
        while i < self.tools.len()
            invariant
                i <= self.tools@.len(),
                all == self@.tools.map_values(|d: DescriptorView| d.name),
                texts(out@) == all.take(i as int),
            decreases self.tools@.len() - i,
        {
            let name: String = self.tools[i].name.clone();
            let ghost before = out@;
            out.push(name);
            assert(texts(out@) =~= texts(before).push(name@));
            assert(all[i as int] == name@);
            assert(all.take(i + 1) =~= all.take(i as int).push(all[i as int]));
            i = i + 1;
        }
        assert(all.take(i as int) =~= all);
        out
    }

    /// What the turn has spent so far.
    pub fn turn_usage(&self) -> (r: TokenUsage)
        ensures
            r == self@.usage,
    {
        self.accumulated_usage
    }

    /// The configured model.
    pub fn model(&self) -> (r: &String)
        ensures
            r@ == self@.config.model,
    {
        &self.config.model
    }

    /// What each model has spent.
    pub fn turn_costs(&self) -> (r: Vec<(String, TokenUsage)>)
        ensures
            costs_view(r@) == reported_costs(self@.costs, self@.usage, self@.config.model),
    {
        report_costs(&self.turn_costs, self.accumulated_usage, &self.config.model)
    }
}

// ---------------------------------------------------------------------------
// The slot
// ---------------------------------------------------------------------------

/// Whether a slot is to be asked for: slots are dealt with here, none is held
/// yet, and the prompt is not rewritten after the slot has been loaded.
pub open spec fn wants_slot(v: PlannerView) -> bool {
    v.kv_slot is None && v.kv_cache is Some && !v.config.system_prompt_refiner
}

/// The key of the planner's stable prefix.
pub open spec fn prefix_key(v: PlannerView) -> KeyView {
    key_of(v.kv_cache->0, prefix_hash(v.config.system_prompt, v.tools))
}

/// The request that loads the stable prefix into a slot.
pub open spec fn warm_up_of(v: PlannerView, slot: u32, warm_up: Seq<MessageView>) -> LlmRequestView {
    LlmRequestView {
        model: v.config.model,
        system: v.config.system_prompt,
        messages: warm_up,
        tools: v.tools,
        max_tokens: 1,
        temperature: None,
        id_slot: Some(slot),
        slot_hint: None,
        route: None,
    }
}

impl LlmPlanner {
    /// Whether a slot is to be asked for.
    pub fn wants_slot(&self) -> (r: bool)
        ensures
            r == wants_slot(self@),
    {
        self.kv_slot_id.is_none() && self.kv_cache.is_some() && !self.config.system_prompt_refiner
    }

    /// Takes the slot that the pool has given out, of which `loaded` is the
    /// prefix it is known to hold; `None` where no slot was free. The slot is
    /// the planner's from now on, whatever comes of the next steps.
    pub fn ensure_kv_slot_checked_out(&mut self, given: Option<(u32, Option<String>)>) -> (r: KvStep)
        requires
            old(self)@.wf(),
            wants_slot(old(self)@),
        ensures
            final(self)@.wf(),
            match given {
                None => final(self)@ == old(self)@ && r@ == over(Some(KvWarning::PoolFull)),
                Some((slot, loaded)) => {
                    &&& final(self)@ == (PlannerView { kv_slot: Some(slot), ..old(self)@ })
                    &&& r@ == checked_out(slot, text_of(loaded), prefix_key(old(self)@))
                },
            },
    {
        match given {
            None => finished(Some(KvWarning::PoolFull)),
            Some((slot, loaded)) => {
                self.kv_slot_id = Some(slot);
                match &self.kv_cache {
                    Some(kv) => {
                        let hash: String = compute_prefix_hash(
                            &self.config.system_prompt,
                            &self.tools,
                        );
                        after_check_out(slot, &loaded, CacheKey::new(kv, hash))
                    },
                    None => finished(None),
                }
            },
        }
    }

    /// The conversation that a slot is warmed up with: an empty user message,
    /// without which servers refuse a request.
    pub fn warm_up_messages() -> (r: Vec<LlmMessage>)
        ensures
            messages(r@) == seq![user_text_view(""@)],
    {
        let mut out: Vec<LlmMessage> = Vec::new();
        out.push(LlmMessage::user_text("".to_owned()));
        assert(messages(out@) =~= seq![user_text_view(""@)]);
        out
    }

    /// The request that loads the stable prefix into `slot`. Nothing of the
    /// conversation is in it.
    pub fn warm_up_request<'a>(&'a self, slot: u32, warm_up: &'a Vec<LlmMessage>) -> (r: LlmRequest<
        'a,
    >)
        ensures
            r@ == (LlmRequestView {
                model: self@.config.model,
                system: self@.config.system_prompt,
                messages: messages(warm_up@),
                tools: self@.tools,
                max_tokens: 1,
                temperature: None,
                id_slot: Some(slot),
                slot_hint: None,
                route: None,
            }),
            r@ == warm_up_of(self@, slot, messages(warm_up@)),
    {
        LlmRequest {
            model: &self.config.model,
            system: &self.config.system_prompt,
            messages: warm_up,
            tools: &self.tools,
            max_tokens: 1,
            temperature: None,
            id_slot: Some(slot),
            slot_hint: None,
            route: None,
        }
    }

    /// The slot to give back when the planner is done.
    pub fn slot_to_release(&self) -> (r: Option<u32>)
        requires
            self@.wf(),
        ensures
            r == self@.kv_slot,
    {
        if self.kv_cache.is_some() {
            self.kv_slot_id
        } else {
            None
        }
    }
}

/// A slot is never taken twice in a turn, never beside a broker, and never
/// where the prompt is rewritten.
pub proof fn law_a_slot_is_taken_once(v: PlannerView, slot: u32)
    requires
        v.wf(),
    ensures
        wants_slot(v) ==> !v.broker && !wants_slot(PlannerView { kv_slot: Some(slot), ..v }),
        v.config.system_prompt_refiner ==> !wants_slot(v) && v.kv_slot is None,
        v.broker ==> !wants_slot(v) && v.kv_slot is None,
{
}

// ---------------------------------------------------------------------------
// The start of a turn
// ---------------------------------------------------------------------------

/// What the memory has to say to a message.
#[derive(Debug, PartialEq, Eq)]
pub struct Recall {
    pub block: String,
    /// Whether it is private to the operator.
    pub sensitive: bool,
}

/// What is to be asked before a turn can start.
#[derive(Debug, PartialEq, Eq)]
pub struct TurnPlan {
    /// The conversation that the turn belongs to.
    pub conversation: String,
    /// What the user has written.
    pub query: String,
    /// Whether the memory is asked.
    pub recall: bool,
    /// Whether the system prompt is offered for a change.
    pub refine: bool,
    /// The system prompt that is offered.
    pub base_prompt: String,
    /// Whether the session's earlier turns are asked for.
    pub seed: bool,
}

/// The answers to a [`TurnPlan`].
#[derive(Debug, PartialEq, Eq)]
pub struct TurnReplies {
    pub recalled: Option<Recall>,
    pub refined: Option<String>,
    pub prior: Vec<PriorTurn>,
}

/// What a [`TurnPlan`] stands for.
pub ghost struct PlanView {
    pub conversation: Seq<char>,
    pub query: Seq<char>,
    pub recall: bool,
    pub refine: bool,
    pub base_prompt: Seq<char>,
    pub seed: bool,
}

impl View for TurnPlan {
    type V = PlanView;

    open spec fn view(&self) -> PlanView {
        PlanView {
            conversation: self.conversation@,
            query: self.query@,
            recall: self.recall,
            refine: self.refine,
            base_prompt: self.base_prompt@,
            seed: self.seed,
        }
    }
}

/// What is to be asked before a turn can start.
pub open spec fn plan_of(v: PlannerView, session: Seq<char>, content: Seq<BlockView>) -> PlanView {
    PlanView {
        conversation: conversation_of(v, session),
        query: query_of(content),
        recall: recall_due(v, content),
        refine: refine_due(v, content),
        base_prompt: match v.config.system_prompt {
            Some(p) => p,
            None => Seq::empty(),
        },
        seed: seed_due(v),
    }
}

/// The conversation to mark as holding private matter, if there is one.
pub open spec fn tainted(
    v: PlannerView,
    session: Seq<char>,
    content: Seq<BlockView>,
    recalled: Option<Recall>,
) -> Option<Seq<char>> {
    if v.taint && recall_due(v, content) && (recalled matches Some(x) && x.sensitive && !blank(
        x.block@,
    )) {
        Some(conversation_of(v, session))
    } else {
        None
    }
}

/// The conversation that a turn belongs to: the one that was set, or else the
/// message's own session.
pub open spec fn conversation_of(v: PlannerView, session: Seq<char>) -> Seq<char> {
    match v.conversation {
        Some(c) => c,
        None => session,
    }
}

/// Whether the memory is asked: there is one, and the user has written
/// something.
pub open spec fn recall_due(v: PlannerView, content: Seq<BlockView>) -> bool {
    v.config.context_provider && !blank(query_of(content))
}

/// Whether the system prompt is offered for a change.
pub open spec fn refine_due(v: PlannerView, content: Seq<BlockView>) -> bool {
    v.config.system_prompt_refiner && !blank(query_of(content))
}

/// Whether the session's earlier turns are asked for.
pub open spec fn seed_due(v: PlannerView) -> bool {
    v.config.conversation_seeder && v.history.len() == 0
}

/// The user message of the turn: what was recalled stands in front.
pub open spec fn task_content(
    v: PlannerView,
    content: Seq<BlockView>,
    recalled: Option<Recall>,
) -> Seq<BlockView> {
    match recalled {
        Some(r) => if recall_due(v, content) {
            seq![BlockView::Text { text: r.block@ }] + content
        } else {
            content
        },
        None => content,
    }
}

/// The conversation before the user message.
pub open spec fn seeded_history(v: PlannerView, prior: Seq<PriorView>) -> Seq<MessageView> {
    if seed_due(v) {
        v.history + turn_messages(seeded(prior))
    } else {
        v.history
    }
}

/// The planner once the turn has started.
pub open spec fn begun(
    v: PlannerView,
    session: Seq<char>,
    content: Seq<BlockView>,
    recalled: Option<Recall>,
    refined: Option<Seq<char>>,
    prior: Seq<PriorView>,
) -> PlannerView {
    let before = seeded_history(v, prior);
    PlannerView {
        config: ConfigView {
            system_prompt: if refine_due(v, content) && refined is Some {
                refined
            } else {
                v.config.system_prompt
            },
            ..v.config
        },
        history: before.push(MessageView::User { content: task_content(v, content, recalled) }),
        pending: Seq::empty(),
        task: Some(before.len() as usize),
        fitted: false,
        route_session: Some(conversation_of(v, session)),
        ..v
    }
}

impl LlmPlanner {
    /// Sets the conversation that the turn belongs to.
    pub fn set_conversation(&mut self, session: String)
        requires
            old(self)@.wf(),
        ensures
            final(self)@ == (PlannerView { conversation: Some(session@), ..old(self)@ }),
            final(self)@.wf(),
    {
        self.conversation = Some(session);
    }

    fn conversation_for(&self, session: &String) -> (r: String)
        ensures
            r@ == conversation_of(self@, session@),
    {
        match &self.conversation {
            Some(c) => c.clone(),
            None => session.clone(),
        }
    }

    /// What is to be asked before the turn can start.
    pub fn plan_turn(&self, message: &Message) -> (r: TurnPlan)
        ensures
            r.conversation@ == conversation_of(self@, message.session@),
            r.query@ == query_of(message.content@),
            r.recall == recall_due(self@, message.content@),
            r.refine == refine_due(self@, message.content@),
            r.base_prompt@ == (match self@.config.system_prompt {
                Some(p) => p,
                None => Seq::empty(),
            }),
            r.seed == seed_due(self@),
            r@ == plan_of(self@, message.session@, message.content@),
    {
        let query: String = message.content.query_text();
        let has_query: bool = !is_blank(query.as_str());
        let base_prompt: String = match &self.config.system_prompt {
            Some(p) => p.clone(),
            None => String::new(),
        };
        assert(messages(self.history@).len() == self.history@.len());
        TurnPlan {
            conversation: self.conversation_for(&message.session),
            query,
            recall: self.config.context_provider && has_query,
            refine: self.config.system_prompt_refiner && has_query,
            base_prompt,
            seed: self.config.conversation_seeder && self.history.len() == 0,
        }
    }

    /// The conversation to mark as holding private matter, which has to happen
    /// before any model sees it.
    pub fn taint_due(&self, message: &Message, recalled: &Option<Recall>) -> (r: Option<String>)
        ensures
            r is Some <==> self@.taint && recall_due(self@, message.content@) && (
            recalled matches Some(x) && x.sensitive && !blank(x.block@)),
            r matches Some(c) ==> c@ == conversation_of(self@, message.session@),
            text_of(r) == tainted(self@, message.session@, message.content@, *recalled),
    {
        let query: String = message.content.query_text();
        if !self.taint || !self.config.context_provider || is_blank(query.as_str()) {
            return None;
        }
        match recalled {
            Some(x) => if x.sensitive && !is_blank(x.block.as_str()) {
                Some(self.conversation_for(&message.session))
            } else {
                None
            },
            None => None,
        }
    }

    /// Starts the turn with the user's message and what was answered to the
    /// plan. An answer to what was not asked changes nothing.
    pub fn begin_turn(&mut self, message: &Message, replies: TurnReplies)
        requires
            old(self)@.wf(),
        ensures
            final(self)@ == begun(
                old(self)@,
                message.session@,
                message.content@,
                replies.recalled,
                text_of(replies.refined),
                priors(replies.prior@),
            ),
            final(self)@.wf(),
    {
        let ghost v = self@;
        let query: String = message.content.query_text();
        let has_query: bool = !is_blank(query.as_str());
        self.route_session = Some(self.conversation_for(&message.session));
        let mut content: Vec<ContentBlock> = message.content.to_blocks();
        if self.config.context_provider && has_query {
            if let Some(recall) = replies.recalled {
                let ghost before = content@;
                let block: ContentBlock = ContentBlock::text(recall.block);
                content.insert(0, block);
                assert(blocks(content@) =~= seq![block@] + blocks(before));
            }
        }
        assert(blocks(content@) == task_content(v, message.content@, replies.recalled));
        if self.config.system_prompt_refiner && has_query {
            if let Some(refined) = replies.refined {
                self.config.system_prompt = Some(refined);
            }
        }
        let ghost prior = priors(replies.prior@);
        assert(messages(self.history@).len() == self.history@.len());
        if self.config.conversation_seeder && self.history.len() == 0 {
            let mut more: Vec<LlmMessage> = seeded_history_messages(replies.prior);
            let ghost h = self.history@;
            let ghost m = more@;
            self.history.append(&mut more);
            assert(messages(self.history@) =~= messages(h) + messages(m));
        }
        let ghost h = self.history@;
        assert(messages(h) == seeded_history(v, prior));
        assert(messages(h).len() == h.len());
        let place: usize = self.history.len();
        let task: LlmMessage = LlmMessage::User { content };
        self.history.push(task);
        assert(messages(self.history@) =~= messages(h).push(task@));
        self.task_message_index = Some(place);
        self.fitted = false;
        self.pending_call_ids.clear();
        assert(texts(self.pending_call_ids@) =~= Seq::empty());
    }
}

/// Once a turn has started, its task is the last message and the one that is
/// remembered as the task; no call is pending; and what was there before is
/// still in front of it.
pub proof fn law_a_turn_starts_with_its_task(
    v: PlannerView,
    session: Seq<char>,
    content: Seq<BlockView>,
    recalled: Option<Recall>,
    refined: Option<Seq<char>>,
    prior: Seq<PriorView>,
)
    requires
        v.history.len() + turn_messages(seeded(prior)).len() < usize::MAX,
    ensures
        ({
            let b = begun(v, session, content, recalled, refined, prior);
            &&& b.task is Some
            &&& b.task->0 == b.history.len() - 1
            &&& b.history.last() == (MessageView::User {
                content: task_content(v, content, recalled),
            })
            &&& b.pending.len() == 0
            &&& v.history.is_prefix_of(b.history)
        }),
{
    let b = begun(v, session, content, recalled, refined, prior);
    assert(b.history.take(v.history.len() as int) =~= v.history);
}

/// Without a memory, a seeder and a refiner, a turn adds just the user's
/// message to the conversation and leaves the system prompt as it is.
pub proof fn law_a_bare_turn_adds_just_the_message(
    v: PlannerView,
    session: Seq<char>,
    content: Seq<BlockView>,
    recalled: Option<Recall>,
    refined: Option<Seq<char>>,
    prior: Seq<PriorView>,
)
    requires
        !v.config.context_provider,
        !v.config.system_prompt_refiner,
        !v.config.conversation_seeder,
    ensures
        begun(v, session, content, recalled, refined, prior).history == v.history.push(
            MessageView::User { content },
        ),
        begun(v, session, content, recalled, refined, prior).config == v.config,
{
}

// ---------------------------------------------------------------------------
// Before each request
// ---------------------------------------------------------------------------

/// What was dropped from the conversation.
#[derive(Debug, PartialEq, Eq)]
pub struct PruneReport {
    pub count: usize,
    /// What the dropped messages said, where somebody wants to keep it.
    pub summary: Option<String>,
}

/// How many messages have to go, where the conversation is cut.
pub open spec fn drop_count(v: PlannerView, estimate: TokenEstimate) -> int {
    keep_from(estimate.each@, room(v.config.context_window_tokens->0, estimate.system))
}

/// Whether the conversation is cut.
pub open spec fn is_cut(v: PlannerView, estimate: TokenEstimate) -> bool {
    over_budget(
        v.config.context_window_tokens,
        estimate.system,
        estimate.history,
        estimate.each@.len(),
    )
}

/// The planner once the conversation was cut to fit.
pub open spec fn cut(v: PlannerView, estimate: TokenEstimate) -> PlannerView {
    if is_cut(v, estimate) {
        let count = drop_count(v, estimate);
        PlannerView {
            history: pruned(v.history, count, v.task),
            task: pruned_task(count, v.task),
            fitted: true,
            pruned: (v.pruned + count) as usize,
            usage: TokenUsage {
                context_tokens_before_pruning: (estimate.system + estimate.history) as u32,
                ..v.usage
            },
            ..v
        }
    } else {
        PlannerView { fitted: true, ..v }
    }
}

/// What a [`PruneReport`] stands for.
pub ghost struct ReportView {
    pub count: int,
    pub summary: Option<Seq<char>>,
}

impl View for PruneReport {
    type V = ReportView;

    open spec fn view(&self) -> ReportView {
        ReportView { count: self.count as int, summary: text_of(self.summary) }
    }
}

/// What is reported of a cut.
pub open spec fn report_of(v: PlannerView, estimate: TokenEstimate) -> ReportView {
    let count = drop_count(v, estimate);
    ReportView {
        count,
        summary: if v.config.prune_sink && count > 0 {
            Some(summary_of(v.history.take(count)))
        } else {
            None
        },
    }
}

/// Whether the conversation may be sent: where there is a context window, it
/// was held to it as it stands.
pub open spec fn may_ask(v: PlannerView) -> bool {
    v.config.context_window_tokens is Some ==> v.fitted
}

/// The planner with something to send: an empty message where nothing was said.
pub open spec fn with_a_message(v: PlannerView) -> PlannerView {
    if v.history.len() == 0 {
        PlannerView { history: seq![user_text_view(""@)], fitted: false, ..v }
    } else {
        v
    }
}

/// The planner once it is known how large the cut conversation is.
pub open spec fn sized(v: PlannerView, tokens: int) -> PlannerView {
    PlannerView {
        usage: TokenUsage { context_tokens_after_pruning: tokens as u32, ..v.usage },
        ..v
    }
}

impl LlmPlanner {
    /// Makes sure that there is something to send: providers refuse a
    /// conversation without messages.
    pub fn ensure_history(&mut self)
        requires
            old(self)@.wf(),
        ensures
            final(self)@ == (PlannerView {
                history: if old(self)@.history.len() == 0 {
                    seq![user_text_view(""@)]
                } else {
                    old(self)@.history
                },
                fitted: old(self)@.fitted && old(self)@.history.len() > 0,
                ..old(self)@
            }),
            final(self)@ == with_a_message(old(self)@),
            final(self)@.wf(),
    {
        assert(messages(self.history@).len() == self.history@.len());
        if self.history.len() == 0 {
            self.fitted = false;
            self.history.push(LlmMessage::user_text("".to_owned()));
            assert(messages(self.history@) =~= seq![user_text_view(""@)]);
        }
    }

    /// Cuts the conversation to fit the context window, which has to be done
    /// before each request: the oldest messages go, all but the turn's task.
    /// There is a report wherever the
    /// conversation is too large, also where nothing can be dropped.
    pub fn prune(&mut self, estimate: &TokenEstimate) -> (r: Option<PruneReport>)
        requires
            old(self)@.wf(),
            estimate.each@.len() == old(self)@.history.len(),
            old(self)@.config.context_window_tokens matches Some(w) ==> w * 4 <= usize::MAX,
            estimate.system + estimate.history <= usize::MAX,
            tail_tokens(estimate.each@, 0) <= usize::MAX,
            old(self)@.pruned + old(self)@.history.len() <= usize::MAX,
        ensures
            final(self)@ == cut(old(self)@, *estimate),
            final(self)@.wf(),
            r is Some <==> is_cut(old(self)@, *estimate),
            r matches Some(report) ==> {
                &&& report.count == drop_count(old(self)@, *estimate)
                &&& text_of(report.summary) == if old(self)@.config.prune_sink && report.count
                    > 0 {
                    Some(summary_of(old(self)@.history.take(report.count as int)))
                } else {
                    None
                }
                &&& report@ == report_of(old(self)@, *estimate)
            },
    {
        let ghost v = self@;
        assert(messages(self.history@).len() == self.history@.len());
        self.fitted = true;
        let count: usize = match prune_count(self.config.context_window_tokens, estimate) {
            None => {
                return None;
            },
            Some(count) => count,
        };
        let total: usize = estimate.system + estimate.history;
        self.accumulated_usage.context_tokens_before_pruning = total as u32;
        proof {
            law_estimates_are_no_spending(v, self.accumulated_usage);
        }
        if count == 0 {
            return Some(PruneReport { count, summary: None });
        }
        let summary: Option<String> = if self.config.prune_sink {
            Some(summarise_pruned(&self.history, count))
        } else {
            None
        };
        let mut all: Vec<LlmMessage> = Vec::new();
        std::mem::swap(&mut all, &mut self.history);
        self.history = drop_messages(all, count, self.task_message_index);
        match self.task_message_index {
            Some(task) => {
                self.task_message_index = Some(
                    if task < count {
                        1
                    } else {
                        task - count + 1
                    },
                );
            },
            None => {},
        }
        self.pruned_message_count = self.pruned_message_count + count;
        Some(PruneReport { count, summary })
    }

    /// Records how large the conversation is estimated to be once it was cut.
    pub fn record_pruned(&mut self, system_tokens: usize, history_tokens: usize)
        requires
            old(self)@.wf(),
            system_tokens + history_tokens <= usize::MAX,
        ensures
            final(self)@ == (PlannerView {
                usage: TokenUsage {
                    context_tokens_after_pruning: (system_tokens + history_tokens) as u32,
                    ..old(self)@.usage
                },
                ..old(self)@
            }),
            final(self)@ == sized(old(self)@, system_tokens + history_tokens),
            final(self)@.wf(),
    {
        let ghost v = self@;
        let total: usize = system_tokens + history_tokens;
        self.accumulated_usage.context_tokens_after_pruning = total as u32;
        proof {
            law_estimates_are_no_spending(v, self.accumulated_usage);
        }
    }

    /// The next request to the model, the conversation being estimated at
    /// `history_tokens`. Where there is a context window, [`Self::prune`] comes
    /// first.
    pub fn request(&self, history_tokens: usize) -> (r: LlmRequest<'_>)
        requires
            may_ask(self@),
        ensures
            r@ == request_of(self@, history_tokens),
    {
        let slot_hint: Option<SlotHint> = if self.broker_slot_hint {
            Some(
                SlotHint {
                    prefix_hash: compute_prefix_hash(&self.config.system_prompt, &self.tools),
                    preferred_slot: self.kv_slot_id,
                },
            )
        } else {
            None
        };
        let route: Option<RouteHint> = match &self.routing {
            Some(task) => {
                let session: Option<String> = match &self.route_session {
                    Some(s) => Some(s.clone()),
                    None => None,
                };
                Some(
                    RouteHint {
                        task: task.clone(),
                        session,
                        estimated_prompt_tokens: route_estimate(
                            history_tokens,
                            &self.config.system_prompt,
                            &self.tools,
                            self.config.max_tokens,
                        ),
                    },
                )
            },
            None => None,
        };
        LlmRequest {
            model: &self.config.model,
            system: &self.config.system_prompt,
            messages: &self.history,
            tools: &self.tools,
            max_tokens: self.config.max_tokens,
            temperature: self.config.temperature,
            id_slot: self.kv_slot_id,
            slot_hint,
            route,
        }
    }
}

/// The request that a planner sends: the whole conversation, the advertised
/// tools and the configured knobs. A hint at the prefix goes along where a
/// broker chooses the slot, and a hint at the task where requests are routed.
pub open spec fn request_of(v: PlannerView, history_tokens: usize) -> LlmRequestView {
    LlmRequestView {
        model: v.config.model,
        system: v.config.system_prompt,
        messages: v.history,
        tools: v.tools,
        max_tokens: v.config.max_tokens,
        temperature: v.config.temperature,
        id_slot: v.kv_slot,
        slot_hint: if v.broker {
            Some(
                SlotHintView {
                    prefix_hash: prefix_hash(v.config.system_prompt, v.tools),
                    preferred_slot: v.kv_slot,
                },
            )
        } else {
            None
        },
        route: match v.routing {
            Some(task) => Some(
                RouteHintView {
                    task,
                    session: v.route_session,
                    estimated_prompt_tokens: context_need(
                        history_tokens,
                        v.config.system_prompt,
                        v.tools,
                        v.config.max_tokens,
                    ),
                },
            ),
            None => None,
        },
    }
}

/// The estimates around pruning are no spending: a usage that differs in them
/// alone belongs to the same costs.
pub proof fn law_estimates_are_no_spending(v: PlannerView, usage: TokenUsage)
    requires
        v.wf(),
        usage.input_tokens == v.usage.input_tokens,
        usage.output_tokens == v.usage.output_tokens,
        usage.cache_creation_input_tokens == v.usage.cache_creation_input_tokens,
        usage.cache_read_input_tokens == v.usage.cache_read_input_tokens,
    ensures
        (PlannerView { usage, ..v }).wf(),
{
}

/// A turn never loses its task: however often the conversation is cut, the
/// message that was the task before is the task afterwards, and the last
/// message stays the last.
pub proof fn law_a_cut_keeps_the_task(v: PlannerView, estimate: TokenEstimate)
    requires
        v.wf(),
        v.history.len() > 0,
        v.history.len() < usize::MAX,
        estimate.each@.len() == v.history.len(),
    ensures
        cut(v, estimate).history.last() == v.history.last(),
        v.task matches Some(t) ==> {
            &&& cut(v, estimate).task is Some
            &&& (cut(v, estimate).task->0) < cut(v, estimate).history.len()
            &&& cut(v, estimate).history[cut(v, estimate).task->0 as int] == v.history[t as int]
        },
{
    if is_cut(v, estimate) {
        let target = room(v.config.context_window_tokens->0, estimate.system);
        crate::llm_planner::prune::law_kept_part_is_the_longest_that_fits(
            estimate.each@,
            target,
        );
        crate::llm_planner::prune::law_pruning_keeps_the_task(
            v.history,
            drop_count(v, estimate),
            v.task,
        );
    }
}

/// Without a context window nothing is ever dropped.
pub proof fn law_no_window_no_cut(v: PlannerView, estimate: TokenEstimate)
    requires
        v.config.context_window_tokens is None,
    ensures
        cut(v, estimate) == (PlannerView { fitted: true, ..v }),
{
}

/// Where messages are dropped, the request says so first of all, and they are
/// counted.
pub proof fn law_a_cut_is_announced(v: PlannerView, estimate: TokenEstimate, history_tokens: usize)
    requires
        is_cut(v, estimate),
        drop_count(v, estimate) > 0,
        v.pruned + drop_count(v, estimate) <= usize::MAX,
    ensures
        request_of(cut(v, estimate), history_tokens).messages[0] == sentinel(
            drop_count(v, estimate) as nat,
        ),
        cut(v, estimate).pruned == v.pruned + drop_count(v, estimate),
{
}

/// A request pins a slot or hints at a prefix, never both.
pub proof fn law_a_request_pins_or_hints(v: PlannerView, history_tokens: usize)
    requires
        v.wf(),
    ensures
        !(request_of(v, history_tokens).id_slot is Some && request_of(
            v,
            history_tokens,
        ).slot_hint is Some),
        request_of(v, history_tokens).slot_hint matches Some(h) ==> h.preferred_slot is None,
{
}

// ---------------------------------------------------------------------------
// The reply
// ---------------------------------------------------------------------------

/// How a request to the model ended.
#[derive(Debug, PartialEq, Eq)]
#[allow(inconsistent_fields)]
pub enum LlmStepEnd {
    /// It was cancelled on the way.
    Cancelled,
    /// The provider reported an error.
    Failed(String),
    /// The model is done. `calls` are those that were found in its text.
    FinalMessage { text: String, usage: LlmUsage, calls: Vec<PlannedCall> },
    /// The model wants tools called.
    ToolCalls { calls: Vec<PlannedCall>, text_so_far: String, usage: LlmUsage },
}

/// What an [`LlmStepEnd`] stands for.
#[allow(inconsistent_fields)]
pub ghost enum StepEndView {
    Cancelled,
    Failed(Seq<char>),
    FinalMessage { text: Seq<char>, usage: LlmUsage, calls: Seq<PlannedView> },
    ToolCalls { calls: Seq<PlannedView>, text_so_far: Seq<char>, usage: LlmUsage },
}

impl View for LlmStepEnd {
    type V = StepEndView;

    open spec fn view(&self) -> StepEndView {
        match *self {
            LlmStepEnd::Cancelled => StepEndView::Cancelled,
            LlmStepEnd::Failed(e) => StepEndView::Failed(e@),
            LlmStepEnd::FinalMessage { text, usage, calls } => StepEndView::FinalMessage {
                text: text@,
                usage,
                calls: planned(calls@),
            },
            LlmStepEnd::ToolCalls { calls, text_so_far, usage } => StepEndView::ToolCalls {
                calls: planned(calls@),
                text_so_far: text_so_far@,
                usage,
            },
        }
    }
}

/// What follows a reply.
#[derive(Debug, PartialEq, Eq)]
pub enum StepNext {
    /// The model is asked again, after so many rounds of repair. Where there
    /// is a context window, the conversation is held to it first.
    AskAgain(usize),
    /// The step is decided.
    Done(NextStep),
}

/// What a [`StepNext`] stands for.
pub ghost enum StepNextView {
    AskAgain(int),
    Done(StepView),
}

impl View for StepNext {
    type V = StepNextView;

    open spec fn view(&self) -> StepNextView {
        match *self {
            StepNext::AskAgain(rounds) => StepNextView::AskAgain(rounds as int),
            StepNext::Done(step) => StepNextView::Done(step@),
        }
    }
}

/// How many rounds the model gets to repair wrong inputs.
pub const REPAIR_ROUNDS: usize = 2;

/// The model that has served a step: the one that the router used last for
/// this session, or else the configured one. `routable` says whether the
/// router takes the conversation at all.
pub open spec fn served_by(v: PlannerView, last_served: Option<Seq<char>>, routable: bool) -> Seq<
    char,
> {
    if v.routing is Some && routable && v.route_session is Some && last_served is Some {
        last_served->0
    } else {
        v.config.model
    }
}

/// The planner once a step was charged.
pub open spec fn charged(v: PlannerView, step: LlmUsage, model: Seq<char>) -> PlannerView {
    PlannerView {
        usage: usage_plus(v.usage, step),
        costs: cost_added(v.costs, model, step),
        ..v
    }
}

/// The calls of a reply, as they stand in the conversation.
pub open spec fn call_records(calls: Seq<PlannedView>) -> Seq<RecordView> {
    calls.map_values(
        |c: PlannedView|
            RecordView { call_id: c.call_id, tool_name: c.tool_name, input: c.input },
    )
}

/// The planner once the reply stands in the conversation.
pub open spec fn said(v: PlannerView, text: Seq<char>, calls: Seq<PlannedView>) -> PlannerView {
    PlannerView {
        history: v.history.push(
            MessageView::Assistant { text, tool_calls: call_records(calls) },
        ),
        fitted: false,
        ..v
    }
}

/// The planner once a call was decided: it waits for the outcome of one that
/// is dispatched, and answers the others itself.
pub open spec fn decided(v: PlannerView, call_id: Seq<char>, verdict: VerdictView) -> PlannerView {
    match verdict {
        VerdictView::Dispatch(_) => PlannerView { pending: v.pending.push(call_id), ..v },
        VerdictView::Unknown(content) => PlannerView {
            history: v.history.push(MessageView::ToolResult { call_id, content, is_error: true }),
            fitted: false,
            ..v
        },
        VerdictView::Invalid(content) => PlannerView {
            history: v.history.push(MessageView::ToolResult { call_id, content, is_error: true }),
            fitted: false,
            ..v
        },
    }
}

/// The planner once all calls of a reply were decided, one after the other.
pub open spec fn all_decided(
    v: PlannerView,
    calls: Seq<PlannedView>,
    verdicts: Seq<VerdictView>,
) -> PlannerView
    decreases calls.len(),
{
    if calls.len() == 0 {
        v
    } else {
        decided(
            all_decided(v, calls.drop_last(), verdicts.drop_last()),
            calls.last().call_id,
            verdicts.last(),
        )
    }
}

/// The calls that are dispatched, in their order.
pub open spec fn batch_of(verdicts: Seq<VerdictView>) -> Seq<RequestView>
    decreases verdicts.len(),
{
    if verdicts.len() == 0 {
        Seq::empty()
    } else {
        let rest = batch_of(verdicts.drop_last());
        match verdicts.last() {
            VerdictView::Dispatch(request) => rest.push(request),
            _ => rest,
        }
    }
}

/// Whether the model has an input to repair.
pub open spec fn any_invalid(verdicts: Seq<VerdictView>) -> bool {
    exists|i: int| 0 <= i < verdicts.len() && #[trigger] verdicts[i] is Invalid
}

/// What follows the verdicts: the dispatched calls, or where there are none,
/// another request. A reply with an input to repair takes one round.
pub open spec fn next_after(verdicts: Seq<VerdictView>, repair_rounds: int) -> StepNextView {
    let batch = batch_of(verdicts);
    if batch.len() == 0 {
        StepNextView::AskAgain(
            if any_invalid(verdicts) {
                repair_rounds + 1
            } else {
                repair_rounds
            },
        )
    } else if batch.len() == 1 {
        StepNextView::Done(StepView::ToolCall(batch[0]))
    } else {
        StepNextView::Done(StepView::ToolCalls(batch))
    }
}

/// Whether a step's usage can be charged.
pub open spec fn charge_fits(v: PlannerView, end: StepEndView) -> bool {
    match end {
        StepEndView::FinalMessage { text, usage, calls } => usage_fits(v.usage, usage),
        StepEndView::ToolCalls { calls, text_so_far, usage } => usage_fits(v.usage, usage),
        _ => true,
    }
}

/// The calls of a reply.
pub open spec fn calls_of(end: StepEndView) -> Seq<PlannedView> {
    match end {
        StepEndView::FinalMessage { text, usage, calls } => calls,
        StepEndView::ToolCalls { calls, text_so_far, usage } => calls,
        _ => Seq::empty(),
    }
}

/// The planner after a reply, and what follows.
pub open spec fn replied(
    v: PlannerView,
    end: StepEndView,
    model: Seq<char>,
    verdicts: Seq<VerdictView>,
    repair_rounds: int,
) -> (PlannerView, StepNextView) {
    match end {
        StepEndView::Cancelled => (v, StepNextView::Done(StepView::Stop)),
        StepEndView::Failed(e) => (
            v,
            StepNextView::Done(StepView::FinalMessage("LLM error: "@ + e)),
        ),
        StepEndView::FinalMessage { text, usage, calls } => {
            let s = said(charged(v, usage, model), text, calls);
            if calls.len() == 0 {
                (s, StepNextView::Done(StepView::FinalMessage(text)))
            } else {
                (all_decided(s, calls, verdicts), next_after(verdicts, repair_rounds))
            }
        },
        StepEndView::ToolCalls { calls, text_so_far, usage } => {
            let s = said(charged(v, usage, model), text_so_far, calls);
            (all_decided(s, calls, verdicts), next_after(verdicts, repair_rounds))
        },
    }
}

proof fn lemma_charged_is_wf(v: PlannerView, step: LlmUsage, model: Seq<char>)
    requires
        v.wf(),
        usage_fits(v.usage, step),
        v.routing is None ==> model == v.config.model,
    ensures
        charged(v, step, model).wf(),
{
    crate::llm_planner::costs::law_costs_follow_the_usage(v.costs, v.usage, model, step);
    if v.routing is None {
        lemma_all_by_one(v.costs, model, step);
    }
}

proof fn lemma_all_by_one(costs: Seq<(Seq<char>, TokenUsage)>, model: Seq<char>, step: LlmUsage)
    requires
        forall|i: int| 0 <= i < costs.len() ==> (#[trigger] costs[i]).0 == model,
    ensures
        forall|i: int|
            0 <= i < cost_added(costs, model, step).len() ==> (#[trigger] cost_added(
                costs,
                model,
                step,
            )[i]).0 == model,
{
}

proof fn lemma_all_decided(v: PlannerView, calls: Seq<PlannedView>, verdicts: Seq<VerdictView>)
    requires
        v.wf(),
        calls.len() == verdicts.len(),
    ensures
        all_decided(v, calls, verdicts).wf(),
        v.history.is_prefix_of(all_decided(v, calls, verdicts).history),
        v.pending.is_prefix_of(all_decided(v, calls, verdicts).pending),
    decreases calls.len(),
{
    if calls.len() > 0 {
        lemma_all_decided(v, calls.drop_last(), verdicts.drop_last());
    }
}

impl LlmPlanner {
    /// The model that has served the last step.
    pub fn served_model(&self, last_served: &Option<String>, routable: bool) -> (r: String)
        ensures
            r@ == served_by(self@, text_of(*last_served), routable),
    {
        if self.routing.is_some() && routable && self.route_session.is_some() {
            if let Some(model) = last_served {
                return model.clone();
            }
        }
        self.config.model.clone()
    }

    /// Charges a step to the turn and to the model that has served it.
    fn accumulate(&mut self, usage: LlmUsage, served: String)
        requires
            old(self)@.wf(),
            usage_fits(old(self)@.usage, usage),
            old(self)@.routing is None ==> served@ == old(self)@.config.model,
        ensures
            final(self)@ == charged(old(self)@, usage, served@),
            final(self)@.wf(),
    {
        let ghost v = self@;
        proof {
            assert forall|i: int| 0 <= i < self.turn_costs@.len() implies usage_fits(
                (#[trigger] self.turn_costs@[i]).1,
                usage,
            ) by {
                assert(v.costs[i] == (self.turn_costs@[i].0@, self.turn_costs@[i].1));
                crate::llm_planner::costs::lemma_each_is_within_the_total(v.costs, i);
            }
            lemma_charged_is_wf(v, usage, served@);
        }
        self.accumulated_usage = self.accumulated_usage.plus(usage);
        add_cost(&mut self.turn_costs, served, usage);
    }

    /// Puts a reply into the conversation.
    fn push_reply(&mut self, text: String, calls: &Vec<PlannedCall>)
        requires
            old(self)@.wf(),
        ensures
            final(self)@ == said(old(self)@, text@, planned(calls@)),
            final(self)@.wf(),
    {
        let ghost all = call_records(planned(calls@));
        let mut list: Vec<LlmToolCallRecord> = Vec::new();
        let mut i: usize = 0;
        while i < calls.len()
            invariant
                i <= calls@.len(),
                all == call_records(planned(calls@)),
                records(list@) == all.take(i as int),
            decreases calls@.len() - i,
        {
            let c: LlmToolCallRecord = LlmToolCallRecord {
                call_id: calls[i].call_id.clone(),
                tool_name: calls[i].tool_name.clone(),
                input: calls[i].input.copy(),
            };
            let ghost before = list@;
            list.push(c);
            assert(records(list@) =~= records(before).push(c@));
            assert(all[i as int] == c@);
            assert(all.take(i + 1) =~= all.take(i as int).push(all[i as int]));
            i = i + 1;
        }
        assert(all.take(i as int) =~= all);
        let ghost h = self.history@;
        let m: LlmMessage = LlmMessage::Assistant { text, tool_calls: list };
        self.history.push(m);
        self.fitted = false;
        assert(messages(self.history@) =~= messages(h).push(m@));
    }

    /// Acts on the verdicts on the calls of a reply that stands in the
    /// conversation.
    pub fn take_verdicts(
        &mut self,
        calls: &Vec<PlannedCall>,
        given: Vec<CallVerdict>,
        repair_rounds: usize,
    ) -> (r: StepNext)
        requires
            old(self)@.wf(),
            calls@.len() == given@.len(),
            repair_rounds < usize::MAX,
        ensures
            final(self)@ == all_decided(old(self)@, planned(calls@), verdicts(given@)),
            final(self)@.wf(),
            r@ == next_after(verdicts(given@), repair_rounds as int),
    {
        let ghost v = self@;
        let ghost cs = planned(calls@);
        let ghost vs = verdicts(given@);
        let mut rest: VecDeque<CallVerdict> = queued(given);
        let mut batch: Vec<ToolCallRequest> = Vec::new();
        let mut had_invalid: bool = false;
        let mut i: usize = 0;
        while i < calls.len()
            invariant
                i <= calls@.len(),
                cs == planned(calls@),
                calls@.len() == cs.len() == vs.len(),
                v.wf(),
                self@ == all_decided(v, cs.take(i as int), vs.take(i as int)),
                verdicts(rest@) == vs.skip(i as int),
                requests(batch@) == batch_of(vs.take(i as int)),
                had_invalid == any_invalid(vs.take(i as int)),
            decreases calls@.len() - i,
        {
            proof {
                assert(cs.take(i + 1).drop_last() =~= cs.take(i as int));
                assert(vs.take(i + 1).drop_last() =~= vs.take(i as int));
                assert(cs.take(i + 1).last() == calls@[i as int]@);
                assert(verdicts(rest@).len() == rest@.len());
                assert(vs.skip(i as int).len() == vs.len() - i);
                assert(verdicts(rest@)[0] == rest@[0]@);
                assert(vs.skip(i as int)[0] == vs[i as int]);
                assert(vs.take(i + 1).last() == rest@[0]@);
                lemma_any_invalid(vs, i as int);
            }
            let call_id: String = calls[i].call_id.clone();
            let ghost h = self.history@;
            let ghost p = self.pending_call_ids@;
            let ghost before = batch@;
            let ghost q = rest@;
            match rest.pop_front() {
                Some(CallVerdict::Dispatch(request)) => {
                    self.pending_call_ids.push_back(call_id);
                    assert(texts(self.pending_call_ids@) =~= texts(p).push(call_id@));
                    batch.push(request);
                    assert(requests(batch@) =~= requests(before).push(request@));
                },
                Some(CallVerdict::Unknown(content)) => {
                    let m: LlmMessage = LlmMessage::ToolResult { call_id, content, is_error: true };
                    self.history.push(m);
                    self.fitted = false;
                    assert(messages(self.history@) =~= messages(h).push(m@));
                },
                Some(CallVerdict::Invalid(content)) => {
                    had_invalid = true;
                    let m: LlmMessage = LlmMessage::ToolResult { call_id, content, is_error: true };
                    self.history.push(m);
                    self.fitted = false;
                    assert(messages(self.history@) =~= messages(h).push(m@));
                },
                None => {},
            }
            assert(rest@ =~= q.drop_first());
            assert(verdicts(rest@) =~= verdicts(q).drop_first());
            assert(verdicts(rest@) =~= vs.skip(i + 1));
            i = i + 1;
        }
        proof {
            assert(cs.take(i as int) =~= cs);
            assert(vs.take(i as int) =~= vs);
            lemma_all_decided(v, cs, vs);
            assert(requests(batch@).len() == batch@.len());
        }
        if batch.len() == 0 {
            if had_invalid {
                return StepNext::AskAgain(repair_rounds + 1);
            }
            return StepNext::AskAgain(repair_rounds);
        }
        if batch.len() == 1 {
            let ghost all = batch@;
            if let Some(request) = batch.pop() {
                assert(requests(all)[0] == request@);
                return StepNext::Done(
                    NextStep::ToolCall {
                        tool_id: request.tool_id,
                        input: request.input,
                        auto_corrected_from: request.auto_corrected_from,
                        extracted_from_text: request.extracted_from_text,
                    },
                );
            }
        }
        StepNext::Done(NextStep::ToolCalls(batch))
    }

    /// Takes in how a request ended, and says what follows. `last_served` is
    /// the model that the router used last for this session, `routable`
    /// whether it takes the conversation, `repair_rounds` how many rounds of
    /// repair the step has already taken.
    pub fn next_step(
        &mut self,
        registry: &ToolRegistry,
        end: LlmStepEnd,
        last_served: &Option<String>,
        routable: bool,
        repair_rounds: usize,
    ) -> (r: StepNext)
        requires
            old(self)@.wf(),
            charge_fits(old(self)@, end@),
            scores_fit(calls_of(end@), registry@.len()),
            repair_rounds < usize::MAX,
        ensures
            final(self)@.wf(),
            (final(self)@, r@) == replied(
                old(self)@,
                end@,
                served_by(old(self)@, text_of(*last_served), routable),
                verdicts_on(
                    registry@,
                    old(self)@.config.tool_name_auto_correct_threshold,
                    calls_of(end@),
                    repair_rounds < REPAIR_ROUNDS,
                ),
                repair_rounds as int,
            ),
    {
        match end {
            LlmStepEnd::Cancelled => StepNext::Done(NextStep::Stop),
            LlmStepEnd::Failed(e) => {
                let mut text: String = "LLM error: ".to_owned();
                text.push_str(e.as_str());
                StepNext::Done(NextStep::FinalMessage(text))
            },
            LlmStepEnd::FinalMessage { text, usage, calls } => {
                let served: String = self.served_model(last_served, routable);
                self.accumulate(usage, served);
                assert(planned(calls@).len() == calls@.len());
                if calls.len() == 0 {
                    self.push_reply(text.clone(), &calls);
                    return StepNext::Done(NextStep::FinalMessage(text));
                }
                self.push_reply(text, &calls);
                let given: Vec<CallVerdict> = process_calls(
                    registry,
                    self.config.tool_name_auto_correct_threshold,
                    &calls,
                    repair_rounds < REPAIR_ROUNDS,
                );
                assert(verdicts(given@).len() == given@.len());
                self.take_verdicts(&calls, given, repair_rounds)
            },
            LlmStepEnd::ToolCalls { calls, text_so_far, usage } => {
                let served: String = self.served_model(last_served, routable);
                self.accumulate(usage, served);
                self.push_reply(text_so_far, &calls);
                let given: Vec<CallVerdict> = process_calls(
                    registry,
                    self.config.tool_name_auto_correct_threshold,
                    &calls,
                    repair_rounds < REPAIR_ROUNDS,
                );
                assert(planned(calls@).len() == calls@.len());
                assert(verdicts(given@).len() == given@.len());
                self.take_verdicts(&calls, given, repair_rounds)
            },
        }
    }
}

fn queued(v: Vec<CallVerdict>) -> (r: VecDeque<CallVerdict>)
    ensures
        r@ == v@,
{
    let mut rest: Vec<CallVerdict> = v;
    let mut queue: VecDeque<CallVerdict> = VecDeque::new();
    while rest.len() > 0
        invariant
            rest@ + queue@ == v@,
        decreases rest@.len(),
    {
        let ghost before = rest@;
        match rest.pop() {
            Some(x) => {
                queue.push_front(x);
                assert(before == rest@.push(x));
            },
            None => {},
        }
    }
    queue
}

proof fn lemma_any_invalid(vs: Seq<VerdictView>, i: int)
    requires
        0 <= i < vs.len(),
    ensures
        any_invalid(vs.take(i + 1)) == (any_invalid(vs.take(i)) || vs[i] is Invalid),
{
    if any_invalid(vs.take(i)) {
        let k = choose|k: int| 0 <= k < i && #[trigger] vs.take(i)[k] is Invalid;
        assert(vs.take(i + 1)[k] is Invalid);
    }
    if vs[i] is Invalid {
        assert(vs.take(i + 1)[i] is Invalid);
    }
    if any_invalid(vs.take(i + 1)) {
        let k = choose|k: int| 0 <= k < i + 1 && #[trigger] vs.take(i + 1)[k] is Invalid;
        if k < i {
            assert(vs.take(i)[k] is Invalid);
        }
    }
}

/// A model never gets more than two rounds to repair its inputs: from then on
/// they are not validated any more, so that no round is counted.
pub proof fn law_repair_is_bounded(
    tools: Seq<ToolView>,
    threshold: u32,
    calls: Seq<PlannedView>,
    repair_rounds: int,
)
    requires
        0 <= repair_rounds <= REPAIR_ROUNDS,
    ensures
        next_after(
            verdicts_on(tools, threshold, calls, repair_rounds < REPAIR_ROUNDS),
            repair_rounds,
        ) matches StepNextView::AskAgain(rounds) ==> rounds <= REPAIR_ROUNDS,
{
    let vs = verdicts_on(tools, threshold, calls, repair_rounds < REPAIR_ROUNDS);
    if repair_rounds == REPAIR_ROUNDS && any_invalid(vs) {
        let i = choose|i: int| 0 <= i < vs.len() && #[trigger] vs[i] is Invalid;
        assert(vs[i] == crate::llm_planner::calls::verdict_on(
            tools,
            threshold,
            calls[i],
            false,
        ));
    }
}

/// Once the rounds of repair are used up, a reply whose tools all exist is
/// never sent back: each of its calls is dispatched as it is.
pub proof fn law_spent_repair_dispatches(
    tools: Seq<ToolView>,
    threshold: u32,
    calls: Seq<PlannedView>,
)
    requires
        forall|i: int|
            0 <= i < calls.len() ==> crate::llm_planner::calls::resolved(
                tools,
                threshold,
                #[trigger] calls[i],
            ) is Some,
    ensures
        batch_of(verdicts_on(tools, threshold, calls, false)).len() == calls.len(),
    decreases calls.len(),
{
    let vs = verdicts_on(tools, threshold, calls, false);
    if calls.len() > 0 {
        let rest = calls.drop_last();
        assert forall|i: int| 0 <= i < rest.len() implies crate::llm_planner::calls::resolved(
            tools,
            threshold,
            #[trigger] rest[i],
        ) is Some by {
            assert(rest[i] == calls[i]);
        }
        law_spent_repair_dispatches(tools, threshold, rest);
        assert(vs.drop_last() =~= verdicts_on(tools, threshold, rest, false));
        let last = calls[calls.len() - 1];
        assert(crate::llm_planner::calls::resolved(tools, threshold, last) is Some);
        assert(vs.last() == crate::llm_planner::calls::verdict_on(tools, threshold, last, false));
    }
}

/// Each call of a reply is either dispatched, and then waited for, or
/// answered at once, under its own id; none is lost and none is counted
/// twice.
pub proof fn law_every_call_is_accounted_for(
    v: PlannerView,
    calls: Seq<PlannedView>,
    verdicts: Seq<VerdictView>,
)
    requires
        calls.len() == verdicts.len(),
    ensures
        ({
            let a = all_decided(v, calls, verdicts);
            &&& v.history.is_prefix_of(a.history)
            &&& v.pending.is_prefix_of(a.pending)
            &&& a.pending.len() - v.pending.len() == batch_of(verdicts).len()
            &&& (a.pending.len() - v.pending.len()) + (a.history.len() - v.history.len())
                == calls.len()
            &&& forall|i: int|
                0 <= i < calls.len() ==> if #[trigger] verdicts[i] is Dispatch {
                    a.pending.contains(calls[i].call_id)
                } else {
                    exists|k: int|
                        v.history.len() <= k < a.history.len() && (#[trigger] a.history[k] matches
                        MessageView::ToolResult { call_id, content, is_error } && call_id
                            == calls[i].call_id && is_error)
                }
        }),
    decreases calls.len(),
{
    let a = all_decided(v, calls, verdicts);
    if calls.len() > 0 {
        let cs = calls.drop_last();
        let vs = verdicts.drop_last();
        let b = all_decided(v, cs, vs);
        law_every_call_is_accounted_for(v, cs, vs);
        assert(a == decided(b, calls.last().call_id, verdicts.last()));
        assert forall|i: int| 0 <= i < calls.len() implies if #[trigger] verdicts[i] is Dispatch {
            a.pending.contains(calls[i].call_id)
        } else {
            exists|k: int|
                v.history.len() <= k < a.history.len() && (#[trigger] a.history[k] matches
                MessageView::ToolResult { call_id, content, is_error } && call_id
                    == calls[i].call_id && is_error)
        } by {
            if i < cs.len() {
                assert(vs[i] == verdicts[i]);
                assert(cs[i] == calls[i]);
                if verdicts[i] is Dispatch {
                    let k = choose|k: int| 0 <= k < b.pending.len() && b.pending[k]
                        == calls[i].call_id;
                    assert(a.pending[k] == calls[i].call_id);
                } else {
                    let k = choose|k: int|
                        v.history.len() <= k < b.history.len() && (#[trigger] b.history[k] matches
                        MessageView::ToolResult { call_id, content, is_error } && call_id
                            == calls[i].call_id && is_error);
                    assert(a.history[k] == b.history[k]);
                }
            } else if verdicts[i] is Dispatch {
                assert(a.pending[a.pending.len() - 1] == calls[i].call_id);
            } else {
                assert(a.history[a.history.len() - 1] == a.history.last());
            }
        }
    }
}

// ---------------------------------------------------------------------------
// The outcome of a call
// ---------------------------------------------------------------------------

/// The call that an outcome answers: the one that has waited longest.
pub open spec fn answered_call(v: PlannerView) -> Seq<char> {
    if v.pending.len() > 0 {
        v.pending[0]
    } else {
        "unknown-call"@
    }
}

/// The name by which the model is told to stop calling a tool.
pub open spec fn blamed_name(tools: Seq<ToolView>, tool: ToolId) -> Seq<char> {
    match tool_by_id(tools, tool) {
        Some(t) => t.name,
        None => "the tool"@,
    }
}

/// What the model gets to see of an outcome: the result, cut to size, and the
/// advice to stop where the tool has failed too often.
pub open spec fn result_content(
    v: PlannerView,
    tools: Seq<ToolView>,
    tool: ToolId,
    outcome: OutcomeView,
) -> Seq<char> {
    let result = capped(json_text(shown_value(outcome)), v.config.context_window_tokens);
    if next_streak(v.failures, tool, !(outcome is Completed)) == Some(
        (tool, TOOL_FAILURE_NUDGE_THRESHOLD),
    ) {
        result + nudge(blamed_name(tools, tool))
    } else {
        result
    }
}

/// The planner once it has seen the outcome of a call.
pub open spec fn observed(
    v: PlannerView,
    tools: Seq<ToolView>,
    tool: ToolId,
    outcome: OutcomeView,
) -> PlannerView {
    PlannerView {
        history: v.history.push(
            MessageView::ToolResult {
                call_id: answered_call(v),
                content: result_content(v, tools, tool, outcome),
                is_error: !(outcome is Completed),
            },
        ),
        pending: if v.pending.len() > 0 {
            v.pending.drop_first()
        } else {
            v.pending
        },
        failures: next_streak(v.failures, tool, !(outcome is Completed)),
        fitted: false,
        ..v
    }
}

/// The tool results of a conversation, without what was added to them.
pub open spec fn result_texts(history: Seq<MessageView>) -> Seq<Seq<char>>
    decreases history.len(),
{
    if history.len() == 0 {
        Seq::empty()
    } else {
        let rest = result_texts(history.drop_last());
        match history.last() {
            MessageView::ToolResult { call_id, content, is_error } => rest.push(
                without_nudge(content),
            ),
            _ => rest,
        }
    }
}

impl LlmPlanner {
    /// Takes in the outcome of a call: it answers the call that has waited
    /// longest.
    pub fn observe_tool_outcome(
        &mut self,
        registry: &ToolRegistry,
        tool_id: ToolId,
        outcome: &ToolOutcome,
    )
        requires
            old(self)@.wf(),
            old(self)@.config.context_window_tokens matches Some(w) ==> w * 2 <= usize::MAX,
            old(self)@.failures matches Some((id, count)) ==> count < usize::MAX,
        ensures
            final(self)@ == observed(old(self)@, registry@, tool_id, outcome@),
            final(self)@.wf(),
    {
        let ghost v = self@;
        let ghost p = self.pending_call_ids@;
        assert(texts(p).len() == p.len());
        let call_id: String = match self.pending_call_ids.pop_front() {
            Some(id) => {
                assert(texts(p)[0] == id@);
                assert(texts(self.pending_call_ids@) =~= texts(p).drop_first());
                id
            },
            None => "unknown-call".to_owned(),
        };
        let (rendered, is_error): (String, bool) = render_tool_result(outcome);
        let mut content: String = cap_tool_result_content(
            rendered,
            self.config.context_window_tokens,
        );
        self.consecutive_tool_failures = advance_streak(
            self.consecutive_tool_failures,
            tool_id,
            is_error,
        );
        if let Some((id, count)) = self.consecutive_tool_failures {
            if id == tool_id && count == TOOL_FAILURE_NUDGE_THRESHOLD {
                match registry.get(tool_id) {
                    Some(tool) => push_nudge(&mut content, tool.name.as_str()),
                    None => push_nudge(&mut content, "the tool"),
                }
            }
        }
        let ghost h = self.history@;
        let m: LlmMessage = LlmMessage::ToolResult { call_id, content, is_error };
        self.history.push(m);
        self.fitted = false;
        assert(messages(self.history@) =~= messages(h).push(m@));
    }

    /// What the tools themselves have said in this turn.
    pub fn tool_result_texts(&self) -> (r: Vec<String>)
        ensures
            texts(r@) == result_texts(self@.history),
    {
        let ghost all = self@.history;
        let mut out: Vec<String> = Vec::new();
        assert(texts(out@) =~= Seq::empty());
        proof {
            reveal_strlit("\n\n[SYSTEM NOTE:");
        }
        let mut i: usize = 0;
        while i < self.history.len()
            invariant
                i <= self.history@.len(),
                all == self@.history,
                all == messages(self.history@),
                TOOL_FAILURE_NUDGE_MARKER@.len() > 0,
                texts(out@) == result_texts(all.take(i as int)),
            decreases self.history@.len() - i,
        {
            assert(all.take(i + 1).drop_last() =~= all.take(i as int));
            assert(all.take(i + 1).last() == self.history@[i as int]@);
            if let LlmMessage::ToolResult { call_id: _, content, is_error: _ } = &self.history[i] {
                let text: String = until_first(content.as_str(), TOOL_FAILURE_NUDGE_MARKER);
                let ghost before = out@;
                out.push(text);
                assert(texts(out@) =~= texts(before).push(text@));
            }
            i = i + 1;
        }
        assert(all.take(i as int) =~= all);
        out
    }
}

proof fn lemma_verdicts_ask_for_a_cut(
    v: PlannerView,
    calls: Seq<PlannedView>,
    verdicts: Seq<VerdictView>,
)
    requires
        !v.fitted,
    ensures
        !all_decided(v, calls, verdicts).fitted,
        all_decided(v, calls, verdicts).config == v.config,
    decreases calls.len(),
{
    if calls.len() > 0 {
        lemma_verdicts_ask_for_a_cut(v, calls.drop_last(), verdicts.drop_last());
    }
}

/// Where there is a context window, no request goes out that was not held to
/// it: neither the first one of a turn, nor one that asks the model again, nor
/// one after a tool's outcome may be sent before the conversation, as it then
/// stands, was cut.
pub proof fn law_every_request_is_held_to_the_window(
    v: PlannerView,
    session: Seq<char>,
    content: Seq<BlockView>,
    recalled: Option<Recall>,
    refined: Option<Seq<char>>,
    prior: Seq<PriorView>,
    end: StepEndView,
    model: Seq<char>,
    verdicts: Seq<VerdictView>,
    repair_rounds: int,
    tools: Seq<ToolView>,
    tool: ToolId,
    outcome: OutcomeView,
    estimate: TokenEstimate,
)
    requires
        v.config.context_window_tokens is Some,
    ensures
        !may_ask(begun(v, session, content, recalled, refined, prior)),
        replied(v, end, model, verdicts, repair_rounds).1 is AskAgain ==> !may_ask(
            replied(v, end, model, verdicts, repair_rounds).0,
        ),
        !may_ask(observed(v, tools, tool, outcome)),
        may_ask(cut(v, estimate)),
{
    match end {
        StepEndView::FinalMessage { text, usage, calls } => {
            let s = said(charged(v, usage, model), text, calls);
            lemma_verdicts_ask_for_a_cut(s, calls, verdicts);
        },
        StepEndView::ToolCalls { calls, text_so_far, usage } => {
            let s = said(charged(v, usage, model), text_so_far, calls);
            lemma_verdicts_ask_for_a_cut(s, calls, verdicts);
        },
        _ => {},
    }
}

/// A dispatched call is answered under its own id by the first outcome that
/// comes in, where no other call waits.
pub proof fn law_an_outcome_answers_its_call(
    v: PlannerView,
    tools: Seq<ToolView>,
    call_id: Seq<char>,
    request: RequestView,
    outcome: OutcomeView,
)
    requires
        v.pending.len() == 0,
    ensures
        ({
            let waiting = decided(v, call_id, VerdictView::Dispatch(request));
            let done = observed(waiting, tools, request.tool_id, outcome);
            &&& done.pending == v.pending
            &&& done.history == v.history.push(
                MessageView::ToolResult {
                    call_id,
                    content: result_content(v, tools, request.tool_id, outcome),
                    is_error: !(outcome is Completed),
                },
            )
        }),
{
    let waiting = decided(v, call_id, VerdictView::Dispatch(request));
    let done = observed(waiting, tools, request.tool_id, outcome);
    assert(done.pending =~= v.pending);
}

/// Calls are answered in the order in which they were dispatched.
pub proof fn law_outcomes_answer_in_order(
    v: PlannerView,
    tools: Seq<ToolView>,
    first: ToolId,
    one: OutcomeView,
    second: ToolId,
    other: OutcomeView,
)
    requires
        v.pending.len() >= 2,
    ensures
        ({
            let w = observed(observed(v, tools, first, one), tools, second, other);
            let n = v.history.len() as int;
            &&& w.history[n] matches MessageView::ToolResult { call_id, content, is_error }
                && call_id == v.pending[0]
            &&& w.history[n + 1] matches MessageView::ToolResult { call_id, content, is_error }
                && call_id == v.pending[1]
            &&& w.pending == v.pending.skip(2)
        }),
{
    let w = observed(observed(v, tools, first, one), tools, second, other);
    assert(w.pending =~= v.pending.skip(2));
}

/// How many outcomes in a row, the last one among them, are failures of the
/// tool that was called last.
pub open spec fn streak(seen: Seq<(ToolId, OutcomeView)>) -> nat
    decreases seen.len(),
{
    if seen.len() == 0 || seen.last().1 is Completed {
        0
    } else if seen.len() >= 2 && seen[seen.len() - 2].0 == seen.last().0 {
        1 + streak(seen.drop_last())
    } else {
        1
    }
}

/// Whether the last `n` outcomes are failures of the tool that was called
/// last.
pub open spec fn fails_in_a_row(seen: Seq<(ToolId, OutcomeView)>, n: int) -> bool {
    &&& 0 <= n <= seen.len()
    &&& forall|i: int|
        seen.len() - n <= i < seen.len() ==> (#[trigger] seen[i]).0 == seen.last().0 && !(
        seen[i].1 is Completed)
}

/// What is remembered of the outcomes seen so far.
pub open spec fn counted(seen: Seq<(ToolId, OutcomeView)>) -> Option<(ToolId, usize)> {
    if streak(seen) == 0 {
        None
    } else {
        Some((seen.last().0, streak(seen) as usize))
    }
}

/// The streak is the longest run of failures of the last tool with which the
/// outcomes end.
pub proof fn law_the_streak_is_the_longest_run(seen: Seq<(ToolId, OutcomeView)>)
    ensures
        fails_in_a_row(seen, streak(seen) as int),
        forall|n: int| #[trigger] fails_in_a_row(seen, n) ==> n <= streak(seen),
    decreases seen.len(),
{
    let s = streak(seen) as int;
    if seen.len() > 0 {
        let rest = seen.drop_last();
        let last = seen.len() - 1;
        law_the_streak_is_the_longest_run(rest);
        if s > 1 {
            assert(rest.last() == seen[seen.len() - 2]);
            assert forall|i: int| seen.len() - s <= i < seen.len() implies (#[trigger] seen[i]).0
                == seen.last().0 && !(seen[i].1 is Completed) by {
                if i < last {
                    assert(rest[i] == seen[i]);
                }
            }
        }
        assert forall|n: int| #[trigger] fails_in_a_row(seen, n) implies n <= s by {
            if n > 0 {
                assert(seen[last] == seen.last());
            }
            if n > 1 {
                assert(seen[last - 1].0 == seen.last().0);
                assert forall|i: int| rest.len() - (n - 1) <= i < rest.len() implies (
                #[trigger] rest[i]).0 == rest.last().0 && !(rest[i].1 is Completed) by {
                    assert(rest[i] == seen[i]);
                }
                assert(fails_in_a_row(rest, n - 1));
            }
        }
    }
}

proof fn lemma_streak_is_short(seen: Seq<(ToolId, OutcomeView)>)
    ensures
        streak(seen) <= seen.len(),
    decreases seen.len(),
{
    if seen.len() > 0 {
        lemma_streak_is_short(seen.drop_last());
    }
}

/// The model is told to stop exactly with the third failure of a tool in a
/// row: an outcome adds one result to the conversation, and the advice goes
/// with it if and only if it makes the streak three long. What the failures
/// are about does not matter; a success or another tool's outcome starts the
/// count anew.
pub proof fn law_the_third_failure_is_remarked_on(
    v: PlannerView,
    tools: Seq<ToolView>,
    seen: Seq<(ToolId, OutcomeView)>,
    tool: ToolId,
    outcome: OutcomeView,
)
    requires
        v.failures == counted(seen),
        seen.len() < usize::MAX,
    ensures
        ({
            let now = seen.push((tool, outcome));
            let done = observed(v, tools, tool, outcome);
            let result = capped(json_text(shown_value(outcome)), v.config.context_window_tokens);
            &&& done.failures == counted(now)
            &&& done.history == v.history.push(
                MessageView::ToolResult {
                    call_id: answered_call(v),
                    content: if streak(now) == 3 {
                        result + nudge(blamed_name(tools, tool))
                    } else {
                        result
                    },
                    is_error: !(outcome is Completed),
                },
            )
        }),
{
    let now = seen.push((tool, outcome));
    lemma_streak_is_short(seen);
    assert(now.drop_last() =~= seen);
    if seen.len() > 0 {
        assert(now[now.len() - 2] == seen.last());
    }
}

/// The planner after each of some outcomes.
pub open spec fn observed_all(
    v: PlannerView,
    tools: Seq<ToolView>,
    seen: Seq<(ToolId, OutcomeView)>,
) -> PlannerView
    decreases seen.len(),
{
    if seen.len() == 0 {
        v
    } else {
        observed(
            observed_all(v, tools, seen.drop_last()),
            tools,
            seen.last().0,
            seen.last().1,
        )
    }
}

/// Whatever tools are called in whatever order, and however they come out: of
/// a planner that has seen no failure yet, the last of the outcomes carries the
/// advice to stop if and only if it is the third failure of its tool in a row.
pub proof fn law_advice_comes_once_in_a_streak(
    v: PlannerView,
    tools: Seq<ToolView>,
    seen: Seq<(ToolId, OutcomeView)>,
)
    requires
        v.failures is None,
        0 < seen.len() <= usize::MAX,
    ensures
        ({
            let before = observed_all(v, tools, seen.drop_last());
            let (tool, outcome) = seen.last();
            let result = capped(json_text(shown_value(outcome)), v.config.context_window_tokens);
            observed_all(v, tools, seen).history == before.history.push(
                MessageView::ToolResult {
                    call_id: answered_call(before),
                    content: if streak(seen) == 3 {
                        result + nudge(blamed_name(tools, tool))
                    } else {
                        result
                    },
                    is_error: !(outcome is Completed),
                },
            )
        }),
{
    let rest = seen.drop_last();
    lemma_outcomes_are_counted(v, tools, rest);
    assert(rest.push(seen.last()) =~= seen);
    law_the_third_failure_is_remarked_on(
        observed_all(v, tools, rest),
        tools,
        rest,
        seen.last().0,
        seen.last().1,
    );
}

proof fn lemma_outcomes_are_counted(
    v: PlannerView,
    tools: Seq<ToolView>,
    seen: Seq<(ToolId, OutcomeView)>,
)
    requires
        v.failures is None,
        seen.len() <= usize::MAX,
    ensures
        observed_all(v, tools, seen).config == v.config,
        observed_all(v, tools, seen).failures == counted(seen),
    decreases seen.len(),
{
    if seen.len() > 0 {
        let rest = seen.drop_last();
        lemma_outcomes_are_counted(v, tools, rest);
        assert(rest.push(seen.last()) =~= seen);
        law_the_third_failure_is_remarked_on(
            observed_all(v, tools, rest),
            tools,
            rest,
            seen.last().0,
            seen.last().1,
        );
    }
}

proof fn lemma_verdicts_are_not_counted(
    v: PlannerView,
    calls: Seq<PlannedView>,
    verdicts: Seq<VerdictView>,
)
    ensures
        all_decided(v, calls, verdicts).failures == v.failures,
    decreases calls.len(),
{
    if calls.len() > 0 {
        lemma_verdicts_are_not_counted(v, calls.drop_last(), verdicts.drop_last());
    }
}

/// Only outcomes count: a fresh planner has seen no failure, and neither the
/// start of a turn nor a cut nor a reply changes what was seen.
pub proof fn law_only_outcomes_are_counted(
    v: PlannerView,
    session: Seq<char>,
    content: Seq<BlockView>,
    recalled: Option<Recall>,
    refined: Option<Seq<char>>,
    prior: Seq<PriorView>,
    end: StepEndView,
    model: Seq<char>,
    verdicts: Seq<VerdictView>,
    repair_rounds: int,
    tools: Seq<ToolView>,
    config: ConfigView,
    estimate: TokenEstimate,
)
    ensures
        fresh(tools, config).failures == counted(Seq::empty()),
        begun(v, session, content, recalled, refined, prior).failures == v.failures,
        cut(v, estimate).failures == v.failures,
        replied(v, end, model, verdicts, repair_rounds).0.failures == v.failures,
{
    match end {
        StepEndView::FinalMessage { text, usage, calls } => {
            lemma_verdicts_are_not_counted(
                said(charged(v, usage, model), text, calls),
                calls,
                verdicts,
            );
        },
        StepEndView::ToolCalls { calls, text_so_far, usage } => {
            lemma_verdicts_are_not_counted(
                said(charged(v, usage, model), text_so_far, calls),
                calls,
                verdicts,
            );
        },
        _ => {},
    }
}

/// A success, or a failure of another tool, starts the count anew.
pub proof fn law_the_streak_is_broken(
    v: PlannerView,
    tools: Seq<ToolView>,
    tool: ToolId,
    outcome: OutcomeView,
)
    ensures
        outcome is Completed ==> observed(v, tools, tool, outcome).failures is None,
        !(outcome is Completed) && (v.failures matches Some((id, count)) && id != tool)
            ==> observed(v, tools, tool, outcome).failures == Some((tool, 1usize)),
{
}

/// What the tools have said never holds the advice to stop.
pub proof fn law_result_texts_hold_no_advice(history: Seq<MessageView>)
    ensures
        forall|i: int|
            0 <= i < result_texts(history).len() ==> !crate::text::occurs(
                #[trigger] result_texts(history)[i],
                TOOL_FAILURE_NUDGE_MARKER@,
            ),
    decreases history.len(),
{
    if history.len() > 0 {
        let rest = result_texts(history.drop_last());
        let all = result_texts(history);
        law_result_texts_hold_no_advice(history.drop_last());
        if let MessageView::ToolResult { call_id, content, is_error } = history.last() {
            crate::llm_planner::tool_result::law_no_nudge_is_left(content);
        }
        assert forall|i: int| 0 <= i < all.len() implies !crate::text::occurs(
            #[trigger] all[i],
            TOOL_FAILURE_NUDGE_MARKER@,
        ) by {
            if i < rest.len() {
                assert(all[i] == rest[i]);
            }
        }
    }
}

/// Without routing, the turn's costs are just the configured model with the
/// turn's usage.
pub proof fn law_unrouted_turns_cost_one_model(v: PlannerView)
    requires
        v.wf(),
        v.routing is None,
        v.config.model.len() > 0,
    ensures
        reported_costs(v.costs, v.usage, v.config.model) == seq![(v.config.model, v.usage)],
{
    if v.costs.len() >= 2 {
        assert(v.costs[0].0 != v.costs[1].0);
    }
    crate::llm_planner::costs::law_one_model_is_charged_for_the_turn(
        v.costs,
        v.usage,
        v.config.model,
    );
}

} // verus!
