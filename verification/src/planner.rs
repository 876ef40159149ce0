//! The steps of a turn, the scripted planner, and the registry in which the
//! turn loop looks tools up.

use std::collections::VecDeque;
use vstd::prelude::*;
use crate::json::{Json, JsonView};
use crate::outcome::{ToolId, ToolOutcomeSummary};
use crate::text::same_text;

verus! {

/// What the turn loop does next.
#[derive(Debug, PartialEq, Eq)]
pub enum NextStep {
    /// Call one tool. `auto_corrected_from` is the name the model gave where
    /// it is not the tool's own; `extracted_from_text` is the tag around the
    /// call where it stood in the reply's text.
    ToolCall {
        tool_id: ToolId,
        input: Json,
        auto_corrected_from: Option<String>,
        extracted_from_text: Option<String>,
    },
    /// Call several tools at once.
    ToolCalls(Vec<ToolCallRequest>),
    /// The turn ends with this message.
    FinalMessage(String),
    /// The turn ends without a message.
    Stop,
}

/// One call of a batch.
#[derive(Debug, PartialEq, Eq)]
pub struct ToolCallRequest {
    pub tool_id: ToolId,
    pub input: Json,
    pub auto_corrected_from: Option<String>,
    pub extracted_from_text: Option<String>,
}

/// What a [`ToolCallRequest`] stands for.
pub ghost struct RequestView {
    pub tool_id: ToolId,
    pub input: JsonView,
    pub auto_corrected_from: Option<Seq<char>>,
    pub extracted_from_text: Option<Seq<char>>,
}

/// An optional string by its text.
pub open spec fn text_of(s: Option<String>) -> Option<Seq<char>> {
    match s {
        Some(t) => Some(t@),
        None => None,
    }
}

impl View for ToolCallRequest {
    type V = RequestView;

    open spec fn view(&self) -> RequestView {
        RequestView {
            tool_id: self.tool_id,
            input: self.input@,
            auto_corrected_from: text_of(self.auto_corrected_from),
            extracted_from_text: text_of(self.extracted_from_text),
        }
    }
}

/// What a [`NextStep`] stands for. A single call is a batch of one.
pub ghost enum StepView {
    ToolCall(RequestView),
    ToolCalls(Seq<RequestView>),
    FinalMessage(Seq<char>),
    Stop,
}

/// The requests of a batch.
pub open spec fn requests(v: Seq<ToolCallRequest>) -> Seq<RequestView> {
    v.map_values(|r: ToolCallRequest| r@)
}

impl View for NextStep {
    type V = StepView;

    open spec fn view(&self) -> StepView {
        match *self {
            NextStep::ToolCall { tool_id, input, auto_corrected_from, extracted_from_text } =>
                StepView::ToolCall(
                RequestView {
                    tool_id,
                    input: input@,
                    auto_corrected_from: text_of(auto_corrected_from),
                    extracted_from_text: text_of(extracted_from_text),
                },
            ),
            NextStep::ToolCalls(v) => StepView::ToolCalls(requests(v@)),
            NextStep::FinalMessage(s) => StepView::FinalMessage(s@),
            NextStep::Stop => StepView::Stop,
        }
    }
}

/// What the planner is shown of an executed step: the outcome's kind, not
/// its payload.
#[derive(Debug, Clone, Copy, PartialEq, Eq)]
pub struct StepObservation {
    pub tool_id: ToolId,
    pub summary: ToolOutcomeSummary,
}

// ---------------------------------------------------------------------------
// The scripted planner
// ---------------------------------------------------------------------------

/// Walks a fixed script of steps.
pub struct VecPlanner {
    steps: VecDeque<NextStep>,
}

impl VecPlanner {
    /// The steps still to come.
    pub closed spec fn steps(self) -> Seq<NextStep> {
        self.steps@
    }

    pub fn new(steps: Vec<NextStep>) -> (r: VecPlanner)
        ensures
            r.steps() == steps@,
    {
        let mut rest: Vec<NextStep> = steps;
        let mut queue: VecDeque<NextStep> = VecDeque::new();
        while rest.len() > 0
            invariant
                rest@ + queue@ == steps@,
            decreases rest@.len(),
        {
            let ghost before = rest@;
            match rest.pop() {
                Some(step) => {
                    queue.push_front(step);
                    assert(before == rest@.push(step));
                },
                None => {},
            }
        }
        VecPlanner { steps: queue }
    }

    /// The next step of the script, or `Stop` once it is over.
    pub fn next_step(&mut self) -> (r: NextStep)
        ensures
            old(self).steps().len() > 0 ==> r == old(self).steps()[0] && final(self).steps()
                == old(self).steps().drop_first(),
            old(self).steps().len() == 0 ==> r is Stop && final(self).steps()
                == old(self).steps(),
    {
        match self.steps.pop_front() {
            Some(step) => step,
            None => NextStep::Stop,
        }
    }
}

// ---------------------------------------------------------------------------
// The tool registry
// ---------------------------------------------------------------------------

/// A registered tool: how it is found and how it is advertised.
#[derive(Debug, PartialEq, Eq)]
pub struct Tool {
    pub id: ToolId,
    pub name: String,
    pub description: String,
    pub input_schema: Json,
}

/// What a [`Tool`] stands for.
pub ghost struct ToolView {
    pub id: ToolId,
    pub name: Seq<char>,
    pub description: Seq<char>,
    pub input_schema: JsonView,
}

impl View for Tool {
    type V = ToolView;

    open spec fn view(&self) -> ToolView {
        ToolView {
            id: self.id,
            name: self.name@,
            description: self.description@,
            input_schema: self.input_schema@,
        }
    }
}

impl Tool {
    /// The same tool once more.
    pub fn copy(&self) -> (r: Tool)
        ensures
            r@ == self@,
    {
        Tool {
            id: self.id,
            name: self.name.clone(),
            description: self.description.clone(),
            input_schema: self.input_schema.copy(),
        }
    }
}

/// The tools of a sequence.
pub open spec fn tools_view(v: Seq<Tool>) -> Seq<ToolView> {
    v.map_values(|t: Tool| t@)
}

/// The first tool with the id `id`.
pub open spec fn tool_by_id(tools: Seq<ToolView>, id: ToolId) -> Option<ToolView>
    decreases tools.len(),
{
    if tools.len() == 0 {
        None
    } else if tools[0].id == id {
        Some(tools[0])
    } else {
        tool_by_id(tools.drop_first(), id)
    }
}

/// The id of the first tool called `name`.
pub open spec fn id_by_name(tools: Seq<ToolView>, name: Seq<char>) -> Option<ToolId>
    decreases tools.len(),
{
    if tools.len() == 0 {
        None
    } else if tools[0].name == name {
        Some(tools[0].id)
    } else {
        id_by_name(tools.drop_first(), name)
    }
}

/// The tools whose id is not among `ids`, in their order.
pub open spec fn without_ids(tools: Seq<ToolView>, ids: Seq<ToolId>) -> Seq<ToolView>
    decreases tools.len(),
{
    if tools.len() == 0 {
        Seq::empty()
    } else {
        let rest = without_ids(tools.drop_last(), ids);
        if ids.contains(tools.last().id) {
            rest
        } else {
            rest.push(tools.last())
        }
    }
}

/// How the turn loop looks tools up. Scanned from the front: where two tools
/// share an id or a name, the one registered first is found.
pub struct ToolRegistry {
    tools: Vec<Tool>,
}

impl View for ToolRegistry {
    type V = Seq<ToolView>;

    closed spec fn view(&self) -> Seq<ToolView> {
        tools_view(self.tools@)
    }
}

fn id_among(ids: &Vec<ToolId>, id: ToolId) -> (r: bool)
    ensures
        r == ids@.contains(id),
{
    let mut i: usize = 0;
    while i < ids.len()
        invariant
            i <= ids@.len(),
            forall|j: int| 0 <= j < i ==> ids@[j] != id,
        decreases ids@.len() - i,
    {
        if ids[i] == id {
            return true;
        }
        i = i + 1;
    }
    false
}

impl ToolRegistry {
    pub fn new(tools: Vec<Tool>) -> (r: ToolRegistry)
        ensures
            r@ == tools_view(tools@),
    {
        ToolRegistry { tools }
    }

    /// The tool with the id `id`.
    pub fn get(&self, id: ToolId) -> (r: Option<&Tool>)
        ensures
            match r {
                Some(t) => tool_by_id(self@, id) == Some(t@),
                None => tool_by_id(self@, id) is None,
            },
    {
        let mut i: usize = 0;
        assert(self@.skip(0) == self@);
        while i < self.tools.len()
            invariant
                i <= self.tools@.len(),
                self@.len() == self.tools@.len(),
                tool_by_id(self@, id) == tool_by_id(self@.skip(i as int), id),
            decreases self.tools@.len() - i,
        {
            assert(self@.skip(i as int)[0] == self.tools@[i as int]@);
            assert(self@.skip(i as int).drop_first() == self@.skip(i + 1));
            if self.tools[i].id == id {
                return Some(&self.tools[i]);
            }
            i = i + 1;
        }
        None
    }

    pub fn is_empty(&self) -> (r: bool)
        ensures
            r == (self@.len() == 0),
    {
        self.tools.len() == 0
    }

    /// How many tools there are.
    pub fn len(&self) -> (r: usize)
        ensures
            r == self@.len(),
    {
        self.tools.len()
    }

    /// The tool registered at position `i`.
    pub fn at(&self, i: usize) -> (r: &Tool)
        requires
            i < self@.len(),
        ensures
            r@ == self@[i as int],
    {
        &self.tools[i]
    }

    /// Every registered tool, in the order of registration.
    pub fn snapshot(&self) -> (r: Vec<Tool>)
        ensures
            tools_view(r@) == self@,
    {
        let mut out: Vec<Tool> = Vec::new();
        let mut i: usize = 0;
        while i < self.tools.len()
            invariant
                i <= self.tools@.len(),
                self@.len() == self.tools@.len(),
                tools_view(out@) == self@.take(i as int),
            decreases self.tools@.len() - i,
        {
            let t: Tool = self.tools[i].copy();
            let ghost before = out@;
            out.push(t);
            assert(tools_view(out@) =~= tools_view(before).push(t@));
            assert(self@.take(i + 1) =~= self@.take(i as int).push(self@[i as int]));
            i = i + 1;
        }
        assert(self@.take(i as int) == self@);
        out
    }

    /// The id of the tool called `name`.
    pub fn find_by_name(&self, name: &str) -> (r: Option<ToolId>)
        ensures
            r == id_by_name(self@, name@),
    {
        let mut i: usize = 0;
        assert(self@.skip(0) == self@);
        while i < self.tools.len()
            invariant
                i <= self.tools@.len(),
                self@.len() == self.tools@.len(),
                id_by_name(self@, name@) == id_by_name(self@.skip(i as int), name@),
            decreases self.tools@.len() - i,
        {
            assert(self@.skip(i as int)[0] == self.tools@[i as int]@);
            assert(self@.skip(i as int).drop_first() == self@.skip(i + 1));
            if same_text(self.tools[i].name.as_str(), name) {
                return Some(self.tools[i].id);
            }
            i = i + 1;
        }
        None
    }

    /// Removes the tools with the given ids and appends `additions`. Returns
    /// how many were removed and how many were added.
    pub fn replace_tools(&mut self, remove_ids: &Vec<ToolId>, additions: Vec<Tool>) -> (r: (
        usize,
        usize,
    ))
        ensures
            final(self)@ == replaced_tools(old(self)@, remove_ids@, tools_view(additions@)),
            r.0 == old(self)@.len() - without_ids(old(self)@, remove_ids@).len(),
            r.1 == additions@.len(),
    {
        let mut rest: Vec<Tool> = Vec::new();
        std::mem::swap(&mut rest, &mut self.tools);
        let ghost all = rest@;
        let before: usize = rest.len();
        let mut kept: Vec<Tool> = Vec::new();
        let mut i: usize = 0;
        while i < before
            invariant
                i <= before == all.len(),
                rest@ == all,
                tools_view(kept@) == without_ids(tools_view(all).take(i as int), remove_ids@),
                kept@.len() <= i,
            decreases before - i,
        {
            assert(tools_view(all).take(i + 1).drop_last() =~= tools_view(all).take(i as int));
            assert(tools_view(all).take(i + 1).last() == all[i as int]@);
            if !id_among(remove_ids, rest[i].id) {
                let t: Tool = rest[i].copy();
                let ghost prior = kept@;
                kept.push(t);
                assert(tools_view(kept@) =~= tools_view(prior).push(t@));
            }
            i = i + 1;
        }
        assert(tools_view(all).take(i as int) =~= tools_view(all));
        assert(tools_view(kept@).len() == kept@.len());
        let removed: usize = before - kept.len();
        let added: usize = additions.len();
        let mut more: Vec<Tool> = additions;
        let ghost prior = kept@;
        kept.append(&mut more);
        assert(tools_view(kept@) =~= tools_view(prior) + tools_view(additions@));
        self.tools = kept;
        (removed, added)
    }
}

// ---------------------------------------------------------------------------
// What a replacement does to look-ups
// ---------------------------------------------------------------------------

/// The registered tools once those with the given ids were replaced.
pub open spec fn replaced_tools(
    tools: Seq<ToolView>,
    removed: Seq<ToolId>,
    additions: Seq<ToolView>,
) -> Seq<ToolView> {
    without_ids(tools, removed) + additions
}

proof fn lemma_found_in_front(tools: Seq<ToolView>, more: Seq<ToolView>, id: ToolId)
    ensures
        tool_by_id(tools + more, id) == if tool_by_id(tools, id) is Some {
            tool_by_id(tools, id)
        } else {
            tool_by_id(more, id)
        },
    decreases tools.len(),
{
    if tools.len() > 0 {
        assert((tools + more).drop_first() =~= tools.drop_first() + more);
        lemma_found_in_front(tools.drop_first(), more, id);
    } else {
        assert(tools + more =~= more);
    }
}

proof fn lemma_without_ids(tools: Seq<ToolView>, removed: Seq<ToolId>, id: ToolId)
    ensures
        tool_by_id(without_ids(tools, removed), id) == if removed.contains(id) {
            None
        } else {
            tool_by_id(tools, id)
        },
    decreases tools.len(),
{
    if tools.len() > 0 {
        let init = tools.drop_last();
        let last = seq![tools.last()];
        lemma_without_ids(init, removed, id);
        assert(tools =~= init + last);
        lemma_found_in_front(init, last, id);
        let kept = without_ids(init, removed);
        lemma_found_in_front(kept, last, id);
        assert(kept.push(tools.last()) =~= kept + last);
        assert(last.drop_first() =~= Seq::empty());
        assert(tool_by_id(last.drop_first(), id) is None);
    }
}

/// After a replacement a tool is found under an id exactly as follows: one
/// that was removed is gone unless it was added anew, one that was neither
/// removed nor added is found as before, and one that was added is found
/// unless a tool that stayed has its id.
pub proof fn law_replacement_and_lookup(
    tools: Seq<ToolView>,
    removed: Seq<ToolId>,
    additions: Seq<ToolView>,
    id: ToolId,
)
    ensures
        removed.contains(id) ==> tool_by_id(replaced_tools(tools, removed, additions), id)
            == tool_by_id(additions, id),
        !removed.contains(id) && tool_by_id(tools, id) is Some ==> tool_by_id(
            replaced_tools(tools, removed, additions),
            id,
        ) == tool_by_id(tools, id),
        tool_by_id(tools, id) is None ==> tool_by_id(
            replaced_tools(tools, removed, additions),
            id,
        ) == tool_by_id(additions, id),
{
    lemma_without_ids(tools, removed, id);
    lemma_found_in_front(without_ids(tools, removed), additions, id);
}

/// A replacement of nothing by nothing changes nothing.
pub proof fn law_empty_replacement(tools: Seq<ToolView>)
    ensures
        replaced_tools(tools, Seq::empty(), Seq::empty()) == tools,
    decreases tools.len(),
{
    if tools.len() > 0 {
        law_empty_replacement(tools.drop_last());
        assert(without_ids(tools.drop_last(), Seq::empty()) =~= replaced_tools(
            tools.drop_last(),
            Seq::empty(),
            Seq::empty(),
        ));
        assert(replaced_tools(tools, Seq::empty(), Seq::empty()) =~= tools);
    } else {
        assert(replaced_tools(tools, Seq::empty(), Seq::empty()) =~= tools);
    }
}

/// A name finds the first tool that has it.
pub proof fn law_a_name_finds_its_first_tool(tools: Seq<ToolView>, name: Seq<char>, i: int)
    requires
        0 <= i < tools.len(),
        tools[i].name == name,
        forall|j: int| 0 <= j < i ==> (#[trigger] tools[j]).name != name,
    ensures
        id_by_name(tools, name) == Some(tools[i].id),
    decreases tools.len(),
{
    if i > 0 {
        let rest = tools.drop_first();
        assert(tools[0].name != name);
        assert forall|j: int| 0 <= j < i - 1 implies (#[trigger] rest[j]).name != name by {
            assert(tools[j + 1].name != name);
        }
        law_a_name_finds_its_first_tool(rest, name, i - 1);
    }
}

/// A name finds a tool exactly where one has it.
pub proof fn law_a_name_is_found_where_a_tool_has_it(tools: Seq<ToolView>, name: Seq<char>)
    ensures
        id_by_name(tools, name) is Some <==> exists|i: int|
            0 <= i < tools.len() && (#[trigger] tools[i]).name == name,
{
    if exists|i: int| 0 <= i < tools.len() && (#[trigger] tools[i]).name == name {
        let i = choose|i: int| 0 <= i < tools.len() && (#[trigger] tools[i]).name == name;
        lemma_named_is_found(tools, name, i);
    }
    if id_by_name(tools, name) is Some {
        let i = lemma_named_place(tools, name);
        assert(tools[i].name == name);
    }
}

proof fn lemma_named_is_found(tools: Seq<ToolView>, name: Seq<char>, i: int)
    requires
        0 <= i < tools.len(),
        tools[i].name == name,
    ensures
        id_by_name(tools, name) is Some,
    decreases tools.len(),
{
    if i > 0 {
        lemma_named_is_found(tools.drop_first(), name, i - 1);
    }
}

proof fn lemma_named_place(tools: Seq<ToolView>, name: Seq<char>) -> (i: int)
    requires
        id_by_name(tools, name) is Some,
    ensures
        0 <= i < tools.len(),
        tools[i].name == name,
    decreases tools.len(),
{
    if tools[0].name == name {
        0
    } else {
        1 + lemma_named_place(tools.drop_first(), name)
    }
}

/// An id finds the first tool that has it.
pub proof fn law_an_id_finds_its_first_tool(tools: Seq<ToolView>, id: ToolId, i: int)
    requires
        0 <= i < tools.len(),
        tools[i].id == id,
        forall|j: int| 0 <= j < i ==> (#[trigger] tools[j]).id != id,
    ensures
        tool_by_id(tools, id) == Some(tools[i]),
    decreases tools.len(),
{
    if i > 0 {
        let rest = tools.drop_first();
        assert(tools[0].id != id);
        assert forall|j: int| 0 <= j < i - 1 implies (#[trigger] rest[j]).id != id by {
            assert(tools[j + 1].id != id);
        }
        law_an_id_finds_its_first_tool(rest, id, i - 1);
    }
}

/// An id finds a tool exactly where one has it.
pub proof fn law_an_id_is_found_where_a_tool_has_it(tools: Seq<ToolView>, id: ToolId)
    ensures
        tool_by_id(tools, id) is Some <==> exists|i: int|
            0 <= i < tools.len() && (#[trigger] tools[i]).id == id,
{
    if exists|i: int| 0 <= i < tools.len() && (#[trigger] tools[i]).id == id {
        let i = choose|i: int| 0 <= i < tools.len() && (#[trigger] tools[i]).id == id;
        lemma_known_is_found(tools, id, i);
    }
    if tool_by_id(tools, id) is Some {
        let i = lemma_known_place(tools, id);
        assert(tools[i].id == id);
    }
}

proof fn lemma_known_is_found(tools: Seq<ToolView>, id: ToolId, i: int)
    requires
        0 <= i < tools.len(),
        tools[i].id == id,
    ensures
        tool_by_id(tools, id) is Some,
    decreases tools.len(),
{
    if i > 0 {
        lemma_known_is_found(tools.drop_first(), id, i - 1);
    }
}

proof fn lemma_known_place(tools: Seq<ToolView>, id: ToolId) -> (i: int)
    requires
        tool_by_id(tools, id) is Some,
    ensures
        0 <= i < tools.len(),
        tools[i].id == id,
    decreases tools.len(),
{
    if tools[0].id == id {
        0
    } else {
        1 + lemma_known_place(tools.drop_first(), id)
    }
}

/// A replacement takes out the tools with the given ids, keeps the others as
/// they are and in their order, and puts the additions behind them.
pub proof fn law_a_replacement_keeps_the_others(
    tools: Seq<ToolView>,
    removed: Seq<ToolId>,
    additions: Seq<ToolView>,
)
    ensures
        replaced_tools(tools, removed, additions) == tools.filter(
            |t: ToolView| !removed.contains(t.id),
        ) + additions,
{
    lemma_without_ids_filters(tools, removed);
}

proof fn lemma_without_ids_filters(tools: Seq<ToolView>, removed: Seq<ToolId>)
    ensures
        without_ids(tools, removed) == tools.filter(|t: ToolView| !removed.contains(t.id)),
    decreases tools.len(),
{
    reveal(Seq::filter);
    if tools.len() > 0 {
        lemma_without_ids_filters(tools.drop_last(), removed);
    } else {
        assert(without_ids(tools, removed) =~= tools.filter(
            |t: ToolView| !removed.contains(t.id),
        ));
    }
}

/// A tool is known by what it stands for, and so is a request for a call.
pub proof fn law_tools_and_requests_are_told_apart(
    a: Tool,
    b: Tool,
    c: ToolCallRequest,
    d: ToolCallRequest,
)
    ensures
        a@ == b@ ==> a.id == b.id && a.name@ == b.name@ && a.description@ == b.description@
            && a.input_schema@ == b.input_schema@,
        c@ == d@ ==> c.tool_id == d.tool_id && c.input@ == d.input@ && text_of(
            c.auto_corrected_from,
        ) == text_of(d.auto_corrected_from) && text_of(c.extracted_from_text) == text_of(
            d.extracted_from_text,
        ),
{
}

/// A step is known by what it stands for: which tools are called with what, or
/// what is said at the end.
pub proof fn law_steps_are_told_apart(a: NextStep, b: NextStep)
    requires
        a@ == b@,
    ensures
        match (a, b) {
            (
                NextStep::ToolCall {
                    tool_id: i,
                    input: x,
                    auto_corrected_from: f,
                    extracted_from_text: s,
                },
                NextStep::ToolCall {
                    tool_id: j,
                    input: y,
                    auto_corrected_from: g,
                    extracted_from_text: t,
                },
            ) => i == j && x@ == y@ && text_of(f) == text_of(g) && text_of(s) == text_of(t),
            (NextStep::ToolCalls(x), NextStep::ToolCalls(y)) => x@.len() == y@.len() && forall|
                i: int,
            |
                0 <= i < x@.len() ==> (#[trigger] x@[i])@ == y@[i]@,
            (NextStep::FinalMessage(s), NextStep::FinalMessage(t)) => s@ == t@,
            (NextStep::Stop, NextStep::Stop) => true,
            _ => false,
        },
{
    if let (NextStep::ToolCalls(x), NextStep::ToolCalls(y)) = (a, b) {
        assert(requests(x@).len() == requests(y@).len());
        assert forall|i: int| 0 <= i < x@.len() implies (#[trigger] x@[i])@ == y@[i]@ by {
            assert(requests(x@)[i] == x@[i]@);
            assert(requests(y@)[i] == y@[i]@);
        }
    }
}

} // verus!
