//! Views of the model router: its candidates, and what it decided last for a
//! session.

use vstd::prelude::*;
use crate::json::{
    items_view,
    law_a_member_is_found_by_its_name,
    members_view,
    Json,
    JsonView,
};
use crate::outcome::{is_random_uuid, OutcomeView, ToolId, ToolOutcome, Verification};
use crate::planner::Tool;
use crate::text::texts;
use crate::tools::command::{failure, tool_failed_with};
use crate::tools::schema::{
    empty_object,
    empty_schema,
    field,
    field_schema,
    law_a_field_has_its_type,
    law_an_object_has_its_properties,
    name_list,
    object,
    object_schema,
    string_array,
};

verus! {

// ---------------------------------------------------------------------------
// What the router tells
// ---------------------------------------------------------------------------

/// Whether a model can be had.
#[derive(Debug, Clone, Copy, PartialEq, Eq, Structural)]
pub enum Availability {
    Available,
    Unverified,
    Unavailable,
}

/// A model that the router may choose.
#[derive(Debug, PartialEq, Eq)]
pub struct Candidate {
    /// The model's id and its endpoint, with an `@` between them.
    pub model: String,
    pub tier: String,
    pub capabilities: Vec<String>,
    /// What the model is assumed to be capable of, unconfirmed.
    pub unknown_capabilities: Vec<String>,
    pub context_window: Option<u64>,
    pub availability: Availability,
}

/// What the router decided last for a session.
#[derive(Debug, PartialEq, Eq)]
pub struct Decision {
    pub model: String,
    pub task: String,
    pub reason: String,
}

/// The word for an availability.
pub open spec fn availability_label(a: Availability) -> Seq<char> {
    match a {
        Availability::Available => "available"@,
        Availability::Unverified => "unverified"@,
        Availability::Unavailable => "unavailable"@,
    }
}

impl Availability {
    /// The word for it.
    pub fn label(&self) -> (r: &'static str)
        ensures
            r@ == availability_label(*self),
    {
        match self {
            Availability::Available => "available",
            Availability::Unverified => "unverified",
            Availability::Unavailable => "unavailable",
        }
    }
}

// ---------------------------------------------------------------------------
// routing.status
// ---------------------------------------------------------------------------

/// A number, or `null` where there is none.
pub open spec fn number_or_null(n: Option<u64>) -> JsonView {
    match n {
        Some(n) => JsonView::Unsigned(n),
        None => JsonView::Null,
    }
}

/// A candidate as it is shown.
pub open spec fn candidate_json(c: Candidate) -> JsonView {
    JsonView::Object(
        seq![
            ("availability"@, JsonView::Str(availability_label(c.availability))),
            ("capabilities"@, JsonView::Array(name_list(texts(c.capabilities@)))),
            ("context_window"@, number_or_null(c.context_window)),
            ("model"@, JsonView::Str(c.model@)),
            ("tier"@, JsonView::Str(c.tier@)),
            ("unknown_capabilities"@, JsonView::Array(name_list(texts(c.unknown_capabilities@)))),
        ],
    )
}

/// What is shown of the router: the configured model and every candidate, in
/// the router's order.
pub open spec fn status_json(default: Seq<char>, candidates: Seq<Candidate>) -> JsonView {
    JsonView::Object(
        seq![
            (
                "candidates"@,
                JsonView::Array(candidates.map_values(|c: Candidate| candidate_json(c))),
            ),
            ("default"@, JsonView::Str(default)),
        ],
    )
}

impl Candidate {
    fn to_json(&self) -> (r: Json)
        ensures
            r@ == candidate_json(*self),
    {
        let window: Json = match self.context_window {
            Some(n) => Json::Unsigned(n),
            None => Json::Null,
        };
        let mut m: Vec<(String, Json)> = Json::no_members();
        Json::push_member(&mut m, "availability", Json::string(self.availability.label()));
        Json::push_member(&mut m, "capabilities", string_array(&self.capabilities));
        Json::push_member(&mut m, "context_window", window);
        Json::push_member(&mut m, "model", Json::string(self.model.as_str()));
        Json::push_member(&mut m, "tier", Json::string(self.tier.as_str()));
        Json::push_member(
            &mut m,
            "unknown_capabilities",
            string_array(&self.unknown_capabilities),
        );
        let j: Json = Json::Object(m);
        assert(JsonView::Object(members_view(m@)) == candidate_json(*self)) by {
            assert(members_view(m@) =~= seq![
                ("availability"@, JsonView::Str(availability_label(self.availability))),
                ("capabilities"@, JsonView::Array(name_list(texts(self.capabilities@)))),
                ("context_window"@, number_or_null(self.context_window)),
                ("model"@, JsonView::Str(self.model@)),
                ("tier"@, JsonView::Str(self.tier@)),
                (
                    "unknown_capabilities"@,
                    JsonView::Array(name_list(texts(self.unknown_capabilities@))),
                ),
            ]);
        }
        j
    }
}

/// `routing.status`: the router's candidates.
#[derive(Debug)]
pub struct RoutingStatusTool {
    id: ToolId,
}

impl RoutingStatusTool {
    pub closed spec fn tool_id(self) -> ToolId {
        self.id
    }

    /// The tool, under an id drawn at random.
    pub fn new() -> (r: RoutingStatusTool)
        ensures
            is_random_uuid(r.tool_id().0),
    {
        RoutingStatusTool { id: ToolId::new() }
    }

    pub fn id(&self) -> (r: ToolId)
        ensures
            r == self.tool_id(),
    {
        self.id
    }

    pub fn name(&self) -> (r: &'static str)
        ensures
            r@ == "routing.status"@,
    {
        "routing.status"
    }

    /// What the model is told of the tool.
    pub fn description(&self) -> (r: &'static str)
        ensures
            r@ == STATUS_DESCRIPTION@,
    {
        STATUS_DESCRIPTION
    }

    /// The tool as it is registered.
    pub fn to_tool(&self) -> (r: Tool)
        ensures
            r.id == self.tool_id(),
            r.name@ == "routing.status"@,
            r.description@ == STATUS_DESCRIPTION@,
            r.input_schema@ == empty_schema(),
    {
        Tool {
            id: self.id,
            name: self.name().to_owned(),
            description: self.description().to_owned(),
            input_schema: status_input_schema(),
        }
    }

    pub fn required_scope(&self, _input: &Json) -> (r: String)
        ensures
            r@ == "routing.status"@,
    {
        "routing.status".to_owned()
    }

    /// The tool only reads what the daemon itself knows.
    pub fn auto_grantable_in_backcompat_floor(&self) -> (r: bool)
        ensures
            r,
    {
        true
    }

    /// The names of models come from the endpoints.
    pub fn output_is_untrusted(&self) -> (r: bool)
        ensures
            r,
    {
        true
    }

    /// Shows the router's candidates.
    pub fn execute(&self, default: &str, candidates: &Vec<Candidate>) -> (r: ToolOutcome)
        ensures
            r@ == (OutcomeView::Completed {
                output: status_json(default@, candidates@),
                verified: Verification::Verified,
            }),
    {
        let ghost all = candidates@.map_values(|c: Candidate| candidate_json(c));
        let mut items: Vec<Json> = Vec::new();
        assert(items_view(items@) =~= Seq::empty());
        let mut i: usize = 0;
        while i < candidates.len()
            invariant
                i <= candidates@.len(),
                all == candidates@.map_values(|c: Candidate| candidate_json(c)),
                items_view(items@) == all.take(i as int),
            decreases candidates@.len() - i,
        {
            Json::push_item(&mut items, candidates[i].to_json());
            assert(all.take(i + 1) =~= all.take(i as int).push(all[i as int]));
            i = i + 1;
        }
        assert(all.take(i as int) =~= all);
        let list: Json = Json::Array(items);
        let ghost l = list@;
        let mut m: Vec<(String, Json)> = Json::no_members();
        Json::push_member(&mut m, "candidates", list);
        Json::push_member(&mut m, "default", Json::string(default));
        let output: Json = Json::Object(m);
        assert(members_view(m@) =~= seq![("candidates"@, l), ("default"@, JsonView::Str(default@))]);
        ToolOutcome::Completed { output, verified: Verification::Verified }
    }
}

/// What the model is told of `routing.status`.
pub const STATUS_DESCRIPTION: &'static str =
    "Show the model router's candidates. Input is a JSON object (no fields required). Returns a JSON object with `default` (the configured model, as `id@endpoint`) and a `candidates` array — each entry has `model` (`id@endpoint`), `tier`, `capabilities` (known), `unknown_capabilities` (assumed but unconfirmed), `context_window` (tokens, or null when unknown) and `availability` (`available`, `unverified` or `unavailable`).";

// ---------------------------------------------------------------------------
// routing.explain
// ---------------------------------------------------------------------------

/// What the model is told of `routing.explain`.
pub const EXPLAIN_DESCRIPTION: &'static str =
    "Explain which model the router last chose for a conversation, and why. Input is a JSON object with an optional `session` field (a session id; defaults to the current conversation). Returns a JSON object with `session`, `model` (`id@endpoint`), `task` (the kind of call that was routed) and `reason`, or `decision: null` when nothing has been routed for that session yet.";

/// The session that is asked about: the given one, or else the current one;
/// nothing where what is given is not a text or is empty.
pub open spec fn asked_session(input: JsonView, current: Seq<char>) -> Option<Seq<char>> {
    match input.get("session"@) {
        None => Some(current),
        Some(JsonView::Null) => Some(current),
        Some(JsonView::Str(s)) => if s.len() > 0 {
            Some(s)
        } else {
            None
        },
        Some(_) => None,
    }
}

/// What is shown of a decision.
pub open spec fn decision_json(session: Seq<char>, decision: Option<Decision>) -> JsonView {
    match decision {
        Some(d) => JsonView::Object(
            seq![
                ("model"@, JsonView::Str(d.model@)),
                ("reason"@, JsonView::Str(d.reason@)),
                ("session"@, JsonView::Str(session)),
                ("task"@, JsonView::Str(d.task@)),
            ],
        ),
        None => JsonView::Object(
            seq![("decision"@, JsonView::Null), ("session"@, JsonView::Str(session))],
        ),
    }
}

/// `routing.explain`: what the router decided last for a session.
#[derive(Debug)]
pub struct RoutingExplainTool {
    id: ToolId,
}

impl RoutingExplainTool {
    pub closed spec fn tool_id(self) -> ToolId {
        self.id
    }

    /// The tool, under an id drawn at random.
    pub fn new() -> (r: RoutingExplainTool)
        ensures
            is_random_uuid(r.tool_id().0),
    {
        RoutingExplainTool { id: ToolId::new() }
    }

    pub fn id(&self) -> (r: ToolId)
        ensures
            r == self.tool_id(),
    {
        self.id
    }

    pub fn name(&self) -> (r: &'static str)
        ensures
            r@ == "routing.explain"@,
    {
        "routing.explain"
    }

    /// What the model is told of the tool.
    pub fn description(&self) -> (r: &'static str)
        ensures
            r@ == EXPLAIN_DESCRIPTION@,
    {
        EXPLAIN_DESCRIPTION
    }

    /// The tool as it is registered.
    pub fn to_tool(&self) -> (r: Tool)
        ensures
            r.id == self.tool_id(),
            r.name@ == "routing.explain"@,
            r.description@ == EXPLAIN_DESCRIPTION@,
            r.input_schema@ == explain_schema(),
    {
        Tool {
            id: self.id,
            name: self.name().to_owned(),
            description: self.description().to_owned(),
            input_schema: explain_input_schema(),
        }
    }

    pub fn required_scope(&self, _input: &Json) -> (r: String)
        ensures
            r@ == "routing.read"@,
    {
        "routing.read".to_owned()
    }

    /// The tool only reads what the daemon itself knows.
    pub fn auto_grantable_in_backcompat_floor(&self) -> (r: bool)
        ensures
            r,
    {
        true
    }

    /// The names of models come from the endpoints.
    pub fn output_is_untrusted(&self) -> (r: bool)
        ensures
            r,
    {
        true
    }

    /// The session that is asked about, or what is wrong with the input.
    pub fn session(&self, input: &Json, current: &str) -> (r: Result<String, ToolOutcome>)
        ensures
            match r {
                Ok(s) => asked_session(input@, current@) == Some(s@),
                Err(o) => asked_session(input@, current@) is None && o@ == failure(
                    self.tool_id(),
                    "routing.explain: `session` must be a non-empty string"@,
                ),
            },
    {
        match input.get("session") {
            None => Ok(current.to_owned()),
            Some(Json::Null) => Ok(current.to_owned()),
            Some(Json::Str(s)) => if !s.as_str().is_empty() {
                Ok(s.clone())
            } else {
                Err(
                    tool_failed_with(
                        self.id,
                        "routing.explain: `session` must be a non-empty string",
                    ),
                )
            },
            Some(_) => Err(
                tool_failed_with(self.id, "routing.explain: `session` must be a non-empty string"),
            ),
        }
    }

    /// Shows what the router decided last for the session, if anything.
    pub fn finish(&self, session: &str, decision: &Option<Decision>) -> (r: ToolOutcome)
        ensures
            r@ == (OutcomeView::Completed {
                output: decision_json(session@, *decision),
                verified: Verification::Verified,
            }),
    {
        let mut m: Vec<(String, Json)> = Json::no_members();
        match decision {
            Some(d) => {
                Json::push_member(&mut m, "model", Json::string(d.model.as_str()));
                Json::push_member(&mut m, "reason", Json::string(d.reason.as_str()));
                Json::push_member(&mut m, "session", Json::string(session));
                Json::push_member(&mut m, "task", Json::string(d.task.as_str()));
                assert(members_view(m@) =~= seq![
                    ("model"@, JsonView::Str(d.model@)),
                    ("reason"@, JsonView::Str(d.reason@)),
                    ("session"@, JsonView::Str(session@)),
                    ("task"@, JsonView::Str(d.task@)),
                ]);
            },
            None => {
                Json::push_member(&mut m, "decision", Json::Null);
                Json::push_member(&mut m, "session", Json::string(session));
                assert(members_view(m@) =~= seq![
                    ("decision"@, JsonView::Null),
                    ("session"@, JsonView::Str(session@)),
                ]);
            },
        }
        let output: Json = Json::Object(m);
        ToolOutcome::Completed { output, verified: Verification::Verified }
    }
}

// ---------------------------------------------------------------------------
// Schemas
// ---------------------------------------------------------------------------

/// The input of `routing.explain`.
pub open spec fn explain_schema() -> JsonView {
    object_schema(
        seq![
            (
                "session"@,
                field_schema(
                    "string"@,
                    "Session id to explain; omit for the current conversation."@,
                ),
            ),
        ],
        Seq::empty(),
    )
}

/// The input of `routing.status`: nothing.
pub fn status_input_schema() -> (r: Json)
    ensures
        r@ == empty_schema(),
{
    empty_object()
}

/// The input of `routing.explain`.
pub fn explain_input_schema() -> (r: Json)
    ensures
        r@ == explain_schema(),
{
    let session: Json = field(
        "string",
        "Session id to explain; omit for the current conversation.",
    );
    let ghost s = session@;
    let mut m: Vec<(String, Json)> = Json::no_members();
    Json::push_member(&mut m, "session", session);
    assert(members_view(m@) =~= seq![("session"@, s)]);
    let none: Vec<Json> = Vec::new();
    assert(items_view(none@) =~= name_list(Seq::empty()));
    object(m, none)
}

/// The session that is explained is the given one, or the current one where
/// none is given.
pub proof fn law_the_current_session_is_the_default(
    input: JsonView,
    current: Seq<char>,
    given: Seq<char>,
)
    requires
        given.len() > 0,
    ensures
        input.get("session"@) is None ==> asked_session(input, current) == Some(current),
        input.get("session"@) == Some(JsonView::Null) ==> asked_session(input, current) == Some(
            current,
        ),
        input.get("session"@) == Some(JsonView::Str(given)) ==> asked_session(input, current)
            == Some(given),
{
}

/// The status names the default, and shows each candidate, in their order, with
/// all that the router tells of it.
pub proof fn law_the_status_shows_each_candidate(
    default: Seq<char>,
    candidates: Seq<Candidate>,
    i: int,
)
    requires
        0 <= i < candidates.len(),
    ensures
        ({
            let c = candidates[i];
            &&& status_json(default, candidates).get_str("default"@) == Some(default)
            &&& status_json(default, candidates).get_array("candidates"@) matches Some(items)
            &&& items.len() == candidates.len()
            &&& items[i].get_str("model"@) == Some(c.model@)
            &&& items[i].get_str("tier"@) == Some(c.tier@)
            &&& items[i].get_str("availability"@) == Some(
                match c.availability {
                    Availability::Available => "available"@,
                    Availability::Unverified => "unverified"@,
                    Availability::Unavailable => "unavailable"@,
                },
            )
            &&& items[i].get_array("capabilities"@) == Some(
                c.capabilities@.map_values(|s: String| JsonView::Str(s@)),
            )
            &&& items[i].get_array("unknown_capabilities"@) == Some(
                c.unknown_capabilities@.map_values(|s: String| JsonView::Str(s@)),
            )
            &&& match c.context_window {
                Some(n) => items[i].get_u64("context_window"@) == Some(n),
                None => items[i].get("context_window"@) == Some(JsonView::Null),
            }
        }),
{
    let c = candidates[i];
    let top = status_json(default, candidates)->Object_0;
    let m = candidate_json(c)->Object_0;
    reveal_strlit("candidates");
    reveal_strlit("default");
    assert("candidates"@.len() != "default"@.len());
    assert(top[0].0 == "candidates"@);
    assert(top[1].0 == "default"@);
    law_a_member_is_found_by_its_name(top, 0);
    law_a_member_is_found_by_its_name(top, 1);
    reveal_strlit("availability");
    reveal_strlit("capabilities");
    reveal_strlit("context_window");
    reveal_strlit("model");
    reveal_strlit("tier");
    reveal_strlit("unknown_capabilities");
    assert("availability"@[0] != "capabilities"@[0]);
    assert("availability"@.len() != "context_window"@.len());
    assert("availability"@.len() != "model"@.len());
    assert("availability"@.len() != "tier"@.len());
    assert("availability"@.len() != "unknown_capabilities"@.len());
    assert("capabilities"@.len() != "context_window"@.len());
    assert("capabilities"@.len() != "model"@.len());
    assert("capabilities"@.len() != "tier"@.len());
    assert("capabilities"@.len() != "unknown_capabilities"@.len());
    assert("context_window"@.len() != "model"@.len());
    assert("context_window"@.len() != "tier"@.len());
    assert("context_window"@.len() != "unknown_capabilities"@.len());
    assert("model"@.len() != "tier"@.len());
    assert("model"@.len() != "unknown_capabilities"@.len());
    assert("tier"@.len() != "unknown_capabilities"@.len());
    assert(m[0].0 == "availability"@);
    assert(m[1].0 == "capabilities"@);
    assert(m[2].0 == "context_window"@);
    assert(m[3].0 == "model"@);
    assert(m[4].0 == "tier"@);
    assert(m[5].0 == "unknown_capabilities"@);
    law_a_member_is_found_by_its_name(m, 0);
    law_a_member_is_found_by_its_name(m, 1);
    law_a_member_is_found_by_its_name(m, 2);
    law_a_member_is_found_by_its_name(m, 3);
    law_a_member_is_found_by_its_name(m, 4);
    law_a_member_is_found_by_its_name(m, 5);
    assert(name_list(texts(c.capabilities@)) =~= c.capabilities@.map_values(
        |s: String| JsonView::Str(s@),
    ));
    assert(name_list(texts(c.unknown_capabilities@)) =~= c.unknown_capabilities@.map_values(
        |s: String| JsonView::Str(s@),
    ));
}

/// An explanation is about the session that was asked for. It holds the model
/// that was chosen, the task and the reason, where there is a decision, and says
/// that there is none where there is not.
pub proof fn law_an_explanation_is_of_the_decision(session: Seq<char>, decision: Option<Decision>)
    ensures
        ({
            let shown = decision_json(session, decision);
            &&& shown.get_str("session"@) == Some(session)
            &&& match decision {
                Some(d) => {
                    &&& shown.get_str("model"@) == Some(d.model@)
                    &&& shown.get_str("task"@) == Some(d.task@)
                    &&& shown.get_str("reason"@) == Some(d.reason@)
                },
                None => shown.get("decision"@) == Some(JsonView::Null),
            }
        }),
{
    let m = decision_json(session, decision)->Object_0;
    if decision is Some {
        reveal_strlit("model");
        reveal_strlit("reason");
        reveal_strlit("session");
        reveal_strlit("task");
        assert("model"@.len() != "reason"@.len());
        assert("model"@.len() != "session"@.len());
        assert("model"@.len() != "task"@.len());
        assert("reason"@.len() != "session"@.len());
        assert("reason"@.len() != "task"@.len());
        assert("session"@.len() != "task"@.len());
        assert(m[0].0 == "model"@);
        assert(m[1].0 == "reason"@);
        assert(m[2].0 == "session"@);
        assert(m[3].0 == "task"@);
        law_a_member_is_found_by_its_name(m, 0);
        law_a_member_is_found_by_its_name(m, 1);
        law_a_member_is_found_by_its_name(m, 2);
        law_a_member_is_found_by_its_name(m, 3);
    } else {
        reveal_strlit("decision");
        reveal_strlit("session");
        assert("decision"@.len() != "session"@.len());
        assert(m[0].0 == "decision"@);
        assert(m[1].0 == "session"@);
        law_a_member_is_found_by_its_name(m, 0);
        law_a_member_is_found_by_its_name(m, 1);
    }
}

/// There is nothing to explain exactly where the input gives a session that is
/// empty or no string.
pub proof fn law_when_no_session_is_named(input: JsonView, current: Seq<char>)
    ensures
        asked_session(input, current) is None <==> (input.get("session"@) matches Some(j) && !(
        j is Null) && !(j matches JsonView::Str(s) && s.len() > 0)),
{
}

/// The schema for an explanation declares the session, and does not ask for it.
pub proof fn law_the_schema_leaves_the_session_open()
    ensures
        ({
            &&& explain_schema().get_str("type"@) == Some("object"@)
            &&& explain_schema().get_array("required"@) == Some(Seq::<JsonView>::empty())
            &&& explain_schema().get("properties"@) matches Some(p)
            &&& p.get("session"@) matches Some(f)
            &&& f.get_str("type"@) == Some("string"@)
        }),
{
    let about = "Session id to explain; omit for the current conversation."@;
    let m = seq![("session"@, field_schema("string"@, about))];
    law_a_field_has_its_type("string"@, about);
    law_an_object_has_its_properties(m, Seq::empty());
    assert(Seq::<Seq<char>>::empty().map_values(|name: Seq<char>| JsonView::Str(name)) =~= Seq::<
        JsonView,
    >::empty());
    law_a_member_is_found_by_its_name(m, 0);
}

} // verus!
