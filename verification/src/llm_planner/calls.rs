//! What becomes of the tool calls in a reply: each is dispatched, or answered
//! at once with what is wrong with it.

use vstd::prelude::*;
use crate::json::{
    items_view,
    json_text,
    law_a_member_is_found_by_its_name,
    members_view,
    Json,
    JsonView,
};
use crate::llm_planner::resolve::{
    build_unknown_tool_message,
    digest,
    first_n,
    fuzzy_recover_tool_name,
    ranked,
    ranking_view,
    recovered,
    schema_violations,
    scored,
    top_n_similar_tools,
    unknown_tool_message,
    validate_tool_input,
    value_of,
};
use crate::outcome::ToolId;
use crate::planner::{
    id_by_name,
    text_of,
    tool_by_id,
    RequestView,
    ToolCallRequest,
    ToolRegistry,
    ToolView,
};

verus! {

// ---------------------------------------------------------------------------
// The calls of a reply
// ---------------------------------------------------------------------------

/// A tool call of a reply.
#[derive(Debug, PartialEq, Eq)]
pub struct PlannedCall {
    pub call_id: String,
    pub tool_name: String,
    pub input: Json,
    /// How like each registered tool's name the given one is, as bit patterns
    /// of single-precision floats.
    pub similarity: Vec<u32>,
    /// The tag around the call where it stood in the reply's text.
    pub extracted_from_text: Option<String>,
}

/// What a [`PlannedCall`] stands for.
pub ghost struct PlannedView {
    pub call_id: Seq<char>,
    pub tool_name: Seq<char>,
    pub input: JsonView,
    pub similarity: Seq<u32>,
    pub extracted_from_text: Option<Seq<char>>,
}

impl View for PlannedCall {
    type V = PlannedView;

    open spec fn view(&self) -> PlannedView {
        PlannedView {
            call_id: self.call_id@,
            tool_name: self.tool_name@,
            input: self.input@,
            similarity: self.similarity@,
            extracted_from_text: text_of(self.extracted_from_text),
        }
    }
}

/// The calls of a sequence.
pub open spec fn planned(v: Seq<PlannedCall>) -> Seq<PlannedView> {
    v.map_values(|c: PlannedCall| c@)
}

/// Whether every call knows how like each of `count` tools its name is.
pub open spec fn scores_fit(calls: Seq<PlannedView>, count: nat) -> bool {
    forall|i: int| 0 <= i < calls.len() ==> (#[trigger] calls[i]).similarity.len() == count
}

/// A tool call that was found in the text of a reply.
#[derive(Debug, PartialEq, Eq)]
pub struct ExtractedToolCall {
    pub tool_name: String,
    pub arguments: Json,
    pub wrapper_tag: String,
    /// As in [`PlannedCall`].
    pub similarity: Vec<u32>,
}

/// What an [`ExtractedToolCall`] stands for.
pub ghost struct ExtractedView {
    pub tool_name: Seq<char>,
    pub arguments: JsonView,
    pub wrapper_tag: Seq<char>,
    pub similarity: Seq<u32>,
}

impl View for ExtractedToolCall {
    type V = ExtractedView;

    open spec fn view(&self) -> ExtractedView {
        ExtractedView {
            tool_name: self.tool_name@,
            arguments: self.arguments@,
            wrapper_tag: self.wrapper_tag@,
            similarity: self.similarity@,
        }
    }
}

/// An extracted call as a call of the reply, under the given id.
pub open spec fn planned_extract(e: ExtractedView, call_id: Seq<char>) -> PlannedView {
    PlannedView {
        call_id,
        tool_name: e.tool_name,
        input: e.arguments,
        similarity: e.similarity,
        extracted_from_text: Some(e.wrapper_tag),
    }
}

/// Whether `c` is a lower-case hexadecimal digit.
pub open spec fn hex_digit(c: char) -> bool {
    ('0' <= c && c <= '9') || ('a' <= c && c <= 'f')
}

/// Whether `s` has the form of a hyphenated UUID.
pub open spec fn uuid_form(s: Seq<char>) -> bool {
    &&& s.len() == 36
    &&& forall|i: int|
        0 <= i < 36 ==> if i == 8 || i == 13 || i == 18 || i == 23 {
            #[trigger] s[i] == '-'
        } else {
            hex_digit(s[i])
        }
}

/// `uuid::Uuid::new_v4`, as `Display` writes it: hyphenated, in lower case.
/// The digits are random.
#[verifier::external_body]
fn random_uuid() -> (r: String)
    ensures
        uuid_form(r@),
{
    uuid::Uuid::new_v4().to_string()
}

/// Whether `s` is an id made up for an extracted call.
pub open spec fn extracted_id(s: Seq<char>) -> bool {
    exists|u: Seq<char>| #[trigger] uuid_form(u) && s == "extracted-"@ + u
}

/// Makes a call that was found in the text into a call of the reply, under an
/// id made from `unique`.
pub fn synthesize_call(e: &ExtractedToolCall, unique: &str) -> (r: PlannedCall)
    ensures
        r@ == planned_extract(e@, "extracted-"@ + unique@),
{
    let mut call_id: String = "extracted-".to_owned();
    call_id.push_str(unique);
    PlannedCall {
        call_id,
        tool_name: e.tool_name.clone(),
        input: e.arguments.copy(),
        similarity: copied(&e.similarity),
        extracted_from_text: Some(e.wrapper_tag.clone()),
    }
}

/// Makes calls that were found in the text into calls of the reply, each
/// under an id drawn at random for it.
pub fn synthesize_calls(extracted: Vec<ExtractedToolCall>) -> (r: Vec<PlannedCall>)
    ensures
        r@.len() == extracted@.len(),
        forall|i: int|
            0 <= i < r@.len() ==> extracted_id((#[trigger] r@[i]).call_id@) && r@[i]@
                == planned_extract(extracted@[i]@, r@[i].call_id@),
{
    let mut out: Vec<PlannedCall> = Vec::new();
    let mut i: usize = 0;
    while i < extracted.len()
        invariant
            i <= extracted@.len(),
            out@.len() == i,
            forall|j: int|
                0 <= j < i ==> extracted_id((#[trigger] out@[j]).call_id@) && out@[j]@
                    == planned_extract(extracted@[j]@, out@[j].call_id@),
        decreases extracted@.len() - i,
    {
        let id: String = random_uuid();
        let call: PlannedCall = synthesize_call(&extracted[i], id.as_str());
        assert(uuid_form(id@) && call@.call_id == "extracted-"@ + id@);
        out.push(call);
        i = i + 1;
    }
    out
}

fn copied(v: &Vec<u32>) -> (r: Vec<u32>)
    ensures
        r@ == v@,
{
    let mut out: Vec<u32> = Vec::new();
    let mut i: usize = 0;
    while i < v.len()
        invariant
            i <= v@.len(),
            out@ == v@.take(i as int),
        decreases v@.len() - i,
    {
        out.push(v[i]);
        assert(v@.take(i + 1) =~= v@.take(i as int).push(v@[i as int]));
        i = i + 1;
    }
    assert(v@.take(i as int) =~= v@);
    out
}

// ---------------------------------------------------------------------------
// The verdict on a call
// ---------------------------------------------------------------------------

/// How many tools are suggested for a name that cannot be recovered.
pub const SUGGESTED_TOOLS: usize = 3;

/// The names of a ranking, as JSON.
pub open spec fn name_items(s: Seq<(Seq<char>, u32)>) -> Seq<JsonView> {
    s.map_values(|e: (Seq<char>, u32)| JsonView::Str(e.0))
}

/// The answer to a call of a tool that does not exist.
pub open spec fn unknown_body(name: Seq<char>, suggestions: Seq<(Seq<char>, u32)>) -> JsonView {
    let error = ("error"@, JsonView::Str("unknown_tool"@));
    let message = ("message"@, JsonView::Str(unknown_tool_message(name, suggestions)));
    if suggestions.len() == 0 {
        JsonView::Object(seq![error, message])
    } else {
        JsonView::Object(
            seq![("did_you_mean"@, JsonView::Array(name_items(suggestions))), error, message],
        )
    }
}

/// The answer to a call whose input does not fit the tool's schema.
pub open spec fn invalid_body(problem: Seq<char>, schema: JsonView) -> JsonView {
    JsonView::Object(
        seq![
            ("error"@, JsonView::Str("invalid_input"@)),
            ("expected_schema"@, schema),
            ("message"@, JsonView::Str(problem)),
        ],
    )
}

/// What becomes of a call.
#[derive(Debug, PartialEq, Eq)]
pub enum CallVerdict {
    /// The tool is called.
    Dispatch(ToolCallRequest),
    /// No such tool: the model gets this answer.
    Unknown(String),
    /// The input is wrong: the model gets this answer, to repair it.
    Invalid(String),
}

/// What a [`CallVerdict`] stands for.
pub ghost enum VerdictView {
    Dispatch(RequestView),
    Unknown(Seq<char>),
    Invalid(Seq<char>),
}

impl View for CallVerdict {
    type V = VerdictView;

    open spec fn view(&self) -> VerdictView {
        match *self {
            CallVerdict::Dispatch(request) => VerdictView::Dispatch(request@),
            CallVerdict::Unknown(content) => VerdictView::Unknown(content@),
            CallVerdict::Invalid(content) => VerdictView::Invalid(content@),
        }
    }
}

/// The verdicts of a sequence.
pub open spec fn verdicts(v: Seq<CallVerdict>) -> Seq<VerdictView> {
    v.map_values(|x: CallVerdict| x@)
}

/// The tool that a call is for: the one with the given name, or else the one
/// that the name is taken for.
pub open spec fn resolved(tools: Seq<ToolView>, threshold: u32, call: PlannedView) -> Option<
    ToolId,
> {
    match id_by_name(tools, call.tool_name) {
        Some(id) => Some(id),
        None => recovered(tools, call.similarity, threshold),
    }
}

/// The request that a call of the tool `id` becomes. A name that is not the
/// tool's own is kept for the record.
pub open spec fn request_for(tools: Seq<ToolView>, call: PlannedView, id: ToolId) -> RequestView {
    RequestView {
        tool_id: id,
        input: call.input,
        auto_corrected_from: if id_by_name(tools, call.tool_name) is Some {
            None
        } else {
            Some(call.tool_name)
        },
        extracted_from_text: call.extracted_from_text,
    }
}

/// What becomes of a call, where `problem` is what is wrong with its input.
pub open spec fn settled(
    tools: Seq<ToolView>,
    threshold: u32,
    call: PlannedView,
    problem: Option<Seq<char>>,
) -> VerdictView {
    match resolved(tools, threshold, call) {
        None => VerdictView::Unknown(
            json_text(
                unknown_body(
                    call.tool_name,
                    first_n(ranked(scored(tools, call.similarity)), SUGGESTED_TOOLS as nat),
                ),
            ),
        ),
        Some(id) => match (problem, tool_by_id(tools, id)) {
            (Some(p), Some(tool)) => VerdictView::Invalid(
                json_text(invalid_body(p, tool.input_schema)),
            ),
            _ => VerdictView::Dispatch(request_for(tools, call, id)),
        },
    }
}

/// What is wrong with a call's input by the schema of the tool it is for.
pub open spec fn input_problem(tools: Seq<ToolView>, threshold: u32, call: PlannedView) -> Option<
    Seq<char>,
> {
    match resolved(tools, threshold, call) {
        None => None,
        Some(id) => match tool_by_id(tools, id) {
            None => None,
            Some(tool) => digest(
                schema_violations(value_of(tool.input_schema), value_of(call.input)),
            ),
        },
    }
}

/// What becomes of a call, its input being validated or not.
pub open spec fn verdict_on(
    tools: Seq<ToolView>,
    threshold: u32,
    call: PlannedView,
    validate: bool,
) -> VerdictView {
    settled(
        tools,
        threshold,
        call,
        if validate {
            input_problem(tools, threshold, call)
        } else {
            None
        },
    )
}

/// What becomes of each call of a reply.
pub open spec fn verdicts_on(
    tools: Seq<ToolView>,
    threshold: u32,
    calls: Seq<PlannedView>,
    validate: bool,
) -> Seq<VerdictView> {
    calls.map_values(|c: PlannedView| verdict_on(tools, threshold, c, validate))
}

fn name_list(suggestions: &Vec<(String, u32)>) -> (r: Json)
    ensures
        r@ == JsonView::Array(name_items(ranking_view(suggestions@))),
{
    let ghost all = name_items(ranking_view(suggestions@));
    let mut items: Vec<Json> = Vec::new();
    assert(items_view(items@) =~= Seq::empty());
    let mut i: usize = 0;
    while i < suggestions.len()
        invariant
            i <= suggestions@.len(),
            all == name_items(ranking_view(suggestions@)),
            items_view(items@) == all.take(i as int),
        decreases suggestions@.len() - i,
    {
        Json::push_item(&mut items, Json::string(suggestions[i].0.as_str()));
        assert(all.take(i + 1) =~= all.take(i as int).push(all[i as int]));
        i = i + 1;
    }
    assert(all.take(i as int) =~= all);
    Json::Array(items)
}

fn unknown_answer(name: &str, suggestions: &Vec<(String, u32)>) -> (r: String)
    ensures
        r@ == json_text(unknown_body(name@, ranking_view(suggestions@))),
{
    let message: String = build_unknown_tool_message(name, suggestions);
    let ghost v = ranking_view(suggestions@);
    assert(v.len() == suggestions@.len());
    let mut m: Vec<(String, Json)> = Json::no_members();
    if suggestions.len() > 0 {
        Json::push_member(&mut m, "did_you_mean", name_list(suggestions));
    }
    Json::push_member(&mut m, "error", Json::string("unknown_tool"));
    Json::push_member(&mut m, "message", Json::string(message.as_str()));
    let j: Json = Json::Object(m);
    proof {
        let error = ("error"@, JsonView::Str("unknown_tool"@));
        let text = ("message"@, JsonView::Str(message@));
        if v.len() > 0 {
            assert(members_view(m@) =~= seq![
                ("did_you_mean"@, JsonView::Array(name_items(v))),
                error,
                text,
            ]);
        } else {
            assert(members_view(m@) =~= seq![error, text]);
        }
        assert(j@ == unknown_body(name@, v));
    }
    j.to_text()
}

fn invalid_answer(problem: &str, schema: &Json) -> (r: String)
    ensures
        r@ == json_text(invalid_body(problem@, schema@)),
{
    let mut m: Vec<(String, Json)> = Json::no_members();
    Json::push_member(&mut m, "error", Json::string("invalid_input"));
    Json::push_member(&mut m, "expected_schema", schema.copy());
    Json::push_member(&mut m, "message", Json::string(problem));
    let j: Json = Json::Object(m);
    assert(members_view(m@) =~= seq![
        ("error"@, JsonView::Str("invalid_input"@)),
        ("expected_schema"@, schema@),
        ("message"@, JsonView::Str(problem@)),
    ]);
    assert(j@ == invalid_body(problem@, schema@));
    j.to_text()
}

/// The tool that a call is for.
pub fn resolve_call(registry: &ToolRegistry, threshold: u32, call: &PlannedCall) -> (r: Option<
    ToolId,
>)
    requires
        call@.similarity.len() == registry@.len(),
    ensures
        r == resolved(registry@, threshold, call@),
{
    match registry.find_by_name(call.tool_name.as_str()) {
        Some(id) => Some(id),
        None => fuzzy_recover_tool_name(registry, &call.similarity, threshold),
    }
}

/// Decides what becomes of a call, where `problem` is what is wrong with its
/// input.
pub fn settle_call(
    registry: &ToolRegistry,
    threshold: u32,
    call: &PlannedCall,
    problem: Option<String>,
) -> (r: CallVerdict)
    requires
        call@.similarity.len() == registry@.len(),
    ensures
        r@ == settled(registry@, threshold, call@, text_of(problem)),
{
    let id: ToolId = match resolve_call(registry, threshold, call) {
        None => {
            let suggestions: Vec<(String, u32)> = top_n_similar_tools(
                registry,
                &call.similarity,
                SUGGESTED_TOOLS,
            );
            return CallVerdict::Unknown(unknown_answer(call.tool_name.as_str(), &suggestions));
        },
        Some(id) => id,
    };
    if let Some(p) = problem {
        if let Some(tool) = registry.get(id) {
            return CallVerdict::Invalid(invalid_answer(p.as_str(), &tool.input_schema));
        }
    }
    let auto_corrected_from: Option<String> = match registry.find_by_name(
        call.tool_name.as_str(),
    ) {
        Some(_) => None,
        None => Some(call.tool_name.clone()),
    };
    let extracted_from_text: Option<String> = match &call.extracted_from_text {
        Some(tag) => Some(tag.clone()),
        None => None,
    };
    CallVerdict::Dispatch(
        ToolCallRequest {
            tool_id: id,
            input: call.input.copy(),
            auto_corrected_from,
            extracted_from_text,
        },
    )
}

/// Decides what becomes of a call: the tool is found by its name, or by a
/// name like it; its input is validated if that is asked for.
pub fn process_one_call(
    registry: &ToolRegistry,
    threshold: u32,
    call: &PlannedCall,
    validate_enabled: bool,
) -> (r: CallVerdict)
    requires
        call@.similarity.len() == registry@.len(),
    ensures
        r@ == verdict_on(registry@, threshold, call@, validate_enabled),
{
    let mut problem: Option<String> = None;
    if validate_enabled {
        if let Some(id) = resolve_call(registry, threshold, call) {
            if let Some(tool) = registry.get(id) {
                if let Err(summary) = validate_tool_input(&tool.input_schema, &call.input) {
                    problem = Some(summary);
                }
            }
        }
    }
    settle_call(registry, threshold, call, problem)
}

/// Decides what becomes of each call of a reply.
pub fn process_calls(
    registry: &ToolRegistry,
    threshold: u32,
    calls: &Vec<PlannedCall>,
    validate_enabled: bool,
) -> (r: Vec<CallVerdict>)
    requires
        scores_fit(planned(calls@), registry@.len()),
    ensures
        verdicts(r@) == verdicts_on(registry@, threshold, planned(calls@), validate_enabled),
{
    let ghost all = verdicts_on(registry@, threshold, planned(calls@), validate_enabled);
    let mut out: Vec<CallVerdict> = Vec::new();
    let mut i: usize = 0;
    while i < calls.len()
        invariant
            i <= calls@.len(),
            scores_fit(planned(calls@), registry@.len()),
            all == verdicts_on(registry@, threshold, planned(calls@), validate_enabled),
            verdicts(out@) == all.take(i as int),
        decreases calls@.len() - i,
    {
        assert(planned(calls@)[i as int] == calls@[i as int]@);
        let v: CallVerdict = process_one_call(registry, threshold, &calls[i], validate_enabled);
        let ghost before = out@;
        out.push(v);
        assert(verdicts(out@) =~= verdicts(before).push(v@));
        assert(all.take(i + 1) =~= all.take(i as int).push(all[i as int]));
        i = i + 1;
    }
    assert(all.take(i as int) =~= all);
    out
}

// ---------------------------------------------------------------------------
// What holds of every verdict
// ---------------------------------------------------------------------------

proof fn lemma_found_id_is_registered(tools: Seq<ToolView>, name: Seq<char>)
    requires
        id_by_name(tools, name) is Some,
    ensures
        tool_by_id(tools, id_by_name(tools, name)->0) is Some,
    decreases tools.len(),
{
    if tools[0].name != name {
        lemma_found_id_is_registered(tools.drop_first(), name);
    }
}

/// A call that is dispatched goes to a registered tool, with the input that
/// the model gave.
pub proof fn law_dispatch_is_to_a_registered_tool(
    tools: Seq<ToolView>,
    threshold: u32,
    call: PlannedView,
    problem: Option<Seq<char>>,
)
    ensures
        settled(tools, threshold, call, problem) matches VerdictView::Dispatch(request) ==> {
            &&& tool_by_id(tools, request.tool_id) is Some
            &&& request.input == call.input
        },
{
    if let Some(id) = id_by_name(tools, call.tool_name) {
        lemma_found_id_is_registered(tools, call.tool_name);
    } else if exists|i: int|
        crate::llm_planner::resolve::is_best(call.similarity, threshold, i) {
        let b = choose|i: int|
            crate::llm_planner::resolve::is_best(call.similarity, threshold, i);
        if id_by_name(tools, tools[b].name) is Some {
            lemma_found_id_is_registered(tools, tools[b].name);
        }
    }
}

/// A call by a tool's own name is never taken for a call of another tool, and
/// one by another name says so in its request.
pub proof fn law_own_names_are_not_corrected(
    tools: Seq<ToolView>,
    threshold: u32,
    call: PlannedView,
    problem: Option<Seq<char>>,
)
    ensures
        settled(tools, threshold, call, problem) matches VerdictView::Dispatch(request) ==> {
            &&& request.auto_corrected_from is None <==> id_by_name(tools, call.tool_name) is Some
            &&& id_by_name(tools, call.tool_name) matches Some(id) ==> request.tool_id == id
            &&& request.auto_corrected_from matches Some(name) ==> name == call.tool_name
        },
{
}

/// Without validation, a call of a tool that exists is dispatched whatever
/// its input.
pub proof fn law_unvalidated_calls_are_dispatched(
    tools: Seq<ToolView>,
    threshold: u32,
    call: PlannedView,
)
    requires
        resolved(tools, threshold, call) is Some,
    ensures
        verdict_on(tools, threshold, call, false) is Dispatch,
{
}

/// A call of a tool that exists, whose input is not found wrong, is dispatched
/// to that tool with the input that the model gave, and keeps the tag it was
/// found under; one by a name that no tool has says so.
pub proof fn law_a_sound_call_is_dispatched(
    tools: Seq<ToolView>,
    threshold: u32,
    call: PlannedView,
    id: ToolId,
)
    requires
        resolved(tools, threshold, call) == Some(id),
    ensures
        ({
            &&& settled(tools, threshold, call, None) matches VerdictView::Dispatch(request)
            &&& request.tool_id == id
            &&& request.input == call.input
            &&& request.extracted_from_text == call.extracted_from_text
            &&& request.auto_corrected_from == if exists|i: int|
                0 <= i < tools.len() && (#[trigger] tools[i]).name == call.tool_name {
                None
            } else {
                Some(call.tool_name)
            }
        }),
{
    crate::planner::law_a_name_is_found_where_a_tool_has_it(tools, call.tool_name);
}

/// A call by the name of a tool is a call of that tool: of the first, where
/// several have the name. Only a call by another name is taken for one of the
/// tool that scores best.
pub proof fn law_names_come_before_scores(
    tools: Seq<ToolView>,
    threshold: u32,
    call: PlannedView,
    i: int,
)
    requires
        0 <= i < tools.len(),
        tools[i].name == call.tool_name,
        forall|j: int| 0 <= j < i ==> (#[trigger] tools[j]).name != call.tool_name,
    ensures
        resolved(tools, threshold, call) == Some(tools[i].id),
{
    crate::planner::law_a_name_finds_its_first_tool(tools, call.tool_name, i);
}

/// A call of a tool that does not exist is answered with an object that says so,
/// names the tool as the model did, and lists the names of the three tools that
/// score best, where there are any tools at all.
pub proof fn law_an_unknown_tool_is_answered(
    tools: Seq<ToolView>,
    threshold: u32,
    call: PlannedView,
    problem: Option<Seq<char>>,
)
    requires
        resolved(tools, threshold, call) is None,
    ensures
        ({
            let best = first_n(ranked(scored(tools, call.similarity)), 3);
            exists|body: JsonView|
                {
                    &&& settled(tools, threshold, call, problem) == VerdictView::Unknown(
                        #[trigger] json_text(body),
                    )
                    &&& body.get_str("error"@) == Some("unknown_tool"@)
                    &&& body.get_str("message"@) == Some(
                        unknown_tool_message(call.tool_name, best),
                    )
                    &&& tools.len() > 0 ==> body.get_array("did_you_mean"@) == Some(
                        best.map_values(|e: (Seq<char>, u32)| JsonView::Str(e.0)),
                    )
                    &&& tools.len() == 0 ==> body.get("did_you_mean"@) is None
                }
        }),
{
    let best = first_n(ranked(scored(tools, call.similarity)), 3);
    let body = unknown_body(call.tool_name, best);
    let m = body->Object_0;
    crate::llm_planner::resolve::law_ranking_sorts(scored(tools, call.similarity));
    assert(settled(tools, threshold, call, problem) == VerdictView::Unknown(json_text(body)));
    if best.len() > 0 {
        reveal_strlit("did_you_mean");
        reveal_strlit("error");
        reveal_strlit("message");
        assert("did_you_mean"@.len() != "error"@.len());
        assert("did_you_mean"@.len() != "message"@.len());
        assert("error"@.len() != "message"@.len());
        assert(m[0].0 == "did_you_mean"@);
        assert(m[1].0 == "error"@);
        assert(m[2].0 == "message"@);
        law_a_member_is_found_by_its_name(m, 0);
        law_a_member_is_found_by_its_name(m, 1);
        law_a_member_is_found_by_its_name(m, 2);
    } else {
        reveal_strlit("error");
        reveal_strlit("message");
        assert("error"@.len() != "message"@.len());
        assert(m[0].0 == "error"@);
        assert(m[1].0 == "message"@);
        law_a_member_is_found_by_its_name(m, 0);
        law_a_member_is_found_by_its_name(m, 1);
        reveal_strlit("did_you_mean");
        crate::json::law_no_member_no_value(body, "did_you_mean"@);
    }
}

/// A call whose input is found wrong is answered with an object that says what
/// is wrong and shows the schema that the tool expects.
pub proof fn law_a_wrong_input_is_answered(
    tools: Seq<ToolView>,
    threshold: u32,
    call: PlannedView,
    problem: Seq<char>,
    id: ToolId,
    tool: ToolView,
)
    requires
        resolved(tools, threshold, call) == Some(id),
        tool_by_id(tools, id) == Some(tool),
    ensures
        exists|body: JsonView|
            {
                &&& settled(tools, threshold, call, Some(problem)) == VerdictView::Invalid(
                    #[trigger] json_text(body),
                )
                &&& body.get_str("error"@) == Some("invalid_input"@)
                &&& body.get_str("message"@) == Some(problem)
                &&& body.get("expected_schema"@) == Some(tool.input_schema)
            },
{
    let body = invalid_body(problem, tool.input_schema);
    let m = body->Object_0;
    assert(settled(tools, threshold, call, Some(problem)) == VerdictView::Invalid(json_text(body)));
    reveal_strlit("error");
    reveal_strlit("expected_schema");
    reveal_strlit("message");
    assert("error"@.len() != "expected_schema"@.len());
    assert("error"@.len() != "message"@.len());
    assert("expected_schema"@.len() != "message"@.len());
    assert(m[0].0 == "error"@);
    assert(m[1].0 == "expected_schema"@);
    assert(m[2].0 == "message"@);
    law_a_member_is_found_by_its_name(m, 0);
    law_a_member_is_found_by_its_name(m, 1);
    law_a_member_is_found_by_its_name(m, 2);
}

/// An input is held to the schema of the tool that its call goes to, exactly
/// where that is asked for.
pub proof fn law_inputs_are_held_to_the_schema(
    tools: Seq<ToolView>,
    threshold: u32,
    call: PlannedView,
    id: ToolId,
    tool: ToolView,
)
    requires
        resolved(tools, threshold, call) == Some(id),
        tool_by_id(tools, id) == Some(tool),
    ensures
        verdict_on(tools, threshold, call, false) is Dispatch,
        ({
            let found = schema_violations(value_of(tool.input_schema), value_of(call.input));
            &&& verdict_on(tools, threshold, call, true) is Dispatch <==> (found is None
                || found->0.len() == 0)
            &&& verdict_on(tools, threshold, call, true) == settled(
                tools,
                threshold,
                call,
                digest(found),
            )
        }),
{
}

/// Each call gets the verdict that it would get alone, in the order of the
/// calls.
pub proof fn law_calls_are_judged_one_by_one(
    tools: Seq<ToolView>,
    threshold: u32,
    calls: Seq<PlannedView>,
    validate: bool,
)
    ensures
        verdicts_on(tools, threshold, calls, validate).len() == calls.len(),
        forall|i: int|
            0 <= i < calls.len() ==> #[trigger] verdicts_on(tools, threshold, calls, validate)[i]
                == verdict_on(tools, threshold, calls[i], validate),
{
}

/// A call that was found in a text is planned as it was found: the tool, the
/// arguments and the scores, under the tag that it stood in.
pub proof fn law_a_found_call_is_planned_as_it_is(e: ExtractedView, call_id: Seq<char>)
    ensures
        ({
            let c = planned_extract(e, call_id);
            &&& c.call_id == call_id
            &&& c.tool_name == e.tool_name
            &&& c.input == e.arguments
            &&& c.similarity == e.similarity
            &&& c.extracted_from_text == Some(e.wrapper_tag)
        }),
{
}

/// A call is known by what it stands for.
pub proof fn law_calls_are_told_apart(a: PlannedCall, b: PlannedCall)
    requires
        a@ == b@,
    ensures
        a.call_id@ == b.call_id@,
        a.tool_name@ == b.tool_name@,
        a.input@ == b.input@,
        a.similarity@ == b.similarity@,
        text_of(a.extracted_from_text) == text_of(b.extracted_from_text),
{
}

/// A call by a name that no tool has goes to the tool that is recovered from the
/// scores, if one is.
pub proof fn law_other_names_go_by_the_scores(
    tools: Seq<ToolView>,
    threshold: u32,
    call: PlannedView,
)
    requires
        forall|i: int| 0 <= i < tools.len() ==> (#[trigger] tools[i]).name != call.tool_name,
    ensures
        resolved(tools, threshold, call) == recovered(tools, call.similarity, threshold),
{
    crate::planner::law_a_name_is_found_where_a_tool_has_it(tools, call.tool_name);
}

/// The id of a call that was found in a text says so, and goes on with a UUID in
/// its hyphenated form.
pub proof fn law_ids_of_extracted_calls(id: Seq<char>)
    ensures
        extracted_id(id) <==> {
            &&& id.len() == 46
            &&& id.take(10) == "extracted-"@
            &&& forall|i: int|
                10 <= i < 46 ==> if i == 18 || i == 23 || i == 28 || i == 33 {
                    #[trigger] id[i] == '-'
                } else {
                    '0' <= id[i] <= '9' || 'a' <= id[i] <= 'f'
                }
        },
{
    reveal_strlit("extracted-");
    if extracted_id(id) {
        let u = choose|u: Seq<char>| #[trigger] uuid_form(u) && id == "extracted-"@ + u;
        assert(id.take(10) =~= "extracted-"@);
        assert forall|i: int| 10 <= i < 46 implies if i == 18 || i == 23 || i == 28 || i == 33 {
            #[trigger] id[i] == '-'
        } else {
            '0' <= id[i] <= '9' || 'a' <= id[i] <= 'f'
        } by {
            assert(id[i] == u[i - 10]);
        }
    }
    if id.len() == 46 && id.take(10) == "extracted-"@ && (forall|i: int|
        10 <= i < 46 ==> if i == 18 || i == 23 || i == 28 || i == 33 {
            #[trigger] id[i] == '-'
        } else {
            '0' <= id[i] <= '9' || 'a' <= id[i] <= 'f'
        }) {
        let u = id.skip(10);
        assert(id =~= "extracted-"@ + u);
        assert forall|i: int| 0 <= i < 36 implies if i == 8 || i == 13 || i == 18 || i == 23 {
            #[trigger] u[i] == '-'
        } else {
            hex_digit(u[i])
        } by {
            assert(u[i] == id[i + 10]);
        }
        assert(uuid_form(u));
    }
}

} // verus!
