//! The default skills: listing them, reading one, and the section of the
//! system prompt that names them.

use vstd::prelude::*;
use crate::json::{
    items_view,
    law_a_member_is_found_by_its_name,
    members_view,
    Json,
    JsonView,
};
use crate::outcome::{is_random_uuid, OutcomeView, ToolId, ToolOutcome, Verification};
use crate::planner::Tool;
use crate::text::{debug_form, debug_text, join, joined, texts};
use crate::tools::command::{failure, tool_failed, tool_failed_with};
use crate::tools::schema::{
    empty_object,
    empty_schema,
    field,
    field_schema,
    law_a_field_has_its_type,
    law_an_object_has_its_properties,
    name_list,
    object,
    object_schema,
};

verus! {

/// Where a skill comes from.
#[derive(Debug, Clone, Copy, PartialEq, Eq, Structural)]
pub enum SkillSource {
    /// It is compiled in.
    Bundled,
    /// It lies in the user's directory.
    User,
    /// It lies in the project's directory.
    Project,
}

/// A skill without its body.
#[derive(Debug, PartialEq, Eq)]
pub struct SkillSummary {
    pub name: String,
    pub description: String,
    pub source: SkillSource,
}

/// A skill.
#[derive(Debug, PartialEq, Eq)]
pub struct Skill {
    pub name: String,
    pub description: String,
    pub body: String,
}

/// What a [`SkillSummary`] stands for.
pub ghost struct SummaryView {
    pub name: Seq<char>,
    pub description: Seq<char>,
    pub source: SkillSource,
}

impl View for SkillSummary {
    type V = SummaryView;

    open spec fn view(&self) -> SummaryView {
        SummaryView { name: self.name@, description: self.description@, source: self.source }
    }
}

/// The summaries of a sequence.
pub open spec fn summaries(v: Seq<SkillSummary>) -> Seq<SummaryView> {
    v.map_values(|s: SkillSummary| s@)
}

// ---------------------------------------------------------------------------
// skill_defaults.list
// ---------------------------------------------------------------------------

/// What the model is told of `skill_defaults.list`.
pub const LIST_DESCRIPTION: &'static str =
    "List every default skill from the shared skill library (compiled-in defaults plus any configured project/user overlay directories). Input is a JSON object (no fields required). Returns a JSON object with a `skills` array — each entry has `name` (stable skill identifier) and `description` (short summary of when the skill applies). The full body is elided here; use `skill_defaults.read` with a skill name to read it.";

/// A skill as it is listed.
pub open spec fn listed_skill(s: SummaryView) -> JsonView {
    JsonView::Object(
        seq![
            ("description"@, JsonView::Str(s.description)),
            ("name"@, JsonView::Str(s.name)),
        ],
    )
}

/// The list of skills.
pub open spec fn skill_list(skills: Seq<SummaryView>) -> JsonView {
    JsonView::Object(
        seq![
            ("skills"@, JsonView::Array(skills.map_values(|s: SummaryView| listed_skill(s)))),
        ],
    )
}

/// `skill_defaults.list`: names and descriptions of the skills, without
/// their bodies.
#[derive(Debug)]
pub struct SkillDefaultsListTool {
    id: ToolId,
}

impl SkillDefaultsListTool {
    pub closed spec fn tool_id(self) -> ToolId {
        self.id
    }

    /// The tool, under an id drawn at random.
    pub fn new() -> (r: SkillDefaultsListTool)
        ensures
            is_random_uuid(r.tool_id().0),
    {
        SkillDefaultsListTool { id: ToolId::new() }
    }

    pub fn id(&self) -> (r: ToolId)
        ensures
            r == self.tool_id(),
    {
        self.id
    }

    pub fn name(&self) -> (r: &'static str)
        ensures
            r@ == "skill_defaults.list"@,
    {
        "skill_defaults.list"
    }

    /// What the model is told of the tool.
    pub fn description(&self) -> (r: &'static str)
        ensures
            r@ == LIST_DESCRIPTION@,
    {
        LIST_DESCRIPTION
    }

    /// The tool as it is registered.
    pub fn to_tool(&self) -> (r: Tool)
        ensures
            r.id == self.tool_id(),
            r.name@ == "skill_defaults.list"@,
            r.description@ == LIST_DESCRIPTION@,
            r.input_schema@ == empty_schema(),
    {
        Tool {
            id: self.id,
            name: self.name().to_owned(),
            description: self.description().to_owned(),
            input_schema: list_input_schema(),
        }
    }

    pub fn required_scope(&self, _input: &Json) -> (r: String)
        ensures
            r@ == "skill_defaults.list"@,
    {
        "skill_defaults.list".to_owned()
    }

    /// The tool only reads a fixed set of skills.
    pub fn auto_grantable_in_backcompat_floor(&self) -> (r: bool)
        ensures
            r,
    {
        true
    }

    /// Lists the skills.
    pub fn execute(&self, skills: &Vec<SkillSummary>) -> (r: ToolOutcome)
        ensures
            r@ == (OutcomeView::Completed {
                output: skill_list(summaries(skills@)),
                verified: Verification::Verified,
            }),
    {
        let ghost all = summaries(skills@).map_values(|s: SummaryView| listed_skill(s));
        let mut items: Vec<Json> = Vec::new();
        assert(items_view(items@) =~= Seq::empty());
        let mut i: usize = 0;
        while i < skills.len()
            invariant
                i <= skills@.len(),
                all == summaries(skills@).map_values(|s: SummaryView| listed_skill(s)),
                items_view(items@) == all.take(i as int),
            decreases skills@.len() - i,
        {
            let mut m: Vec<(String, Json)> = Json::no_members();
            Json::push_member(&mut m, "description", Json::string(skills[i].description.as_str()));
            Json::push_member(&mut m, "name", Json::string(skills[i].name.as_str()));
            let j: Json = Json::Object(m);
            assert(members_view(m@) =~= seq![
                ("description"@, JsonView::Str(skills@[i as int].description@)),
                ("name"@, JsonView::Str(skills@[i as int].name@)),
            ]);
            assert(j@ == all[i as int]);
            Json::push_item(&mut items, j);
            assert(all.take(i + 1) =~= all.take(i as int).push(all[i as int]));
            i = i + 1;
        }
        assert(all.take(i as int) =~= all);
        let list: Json = Json::Array(items);
        let ghost l = list@;
        let mut m: Vec<(String, Json)> = Json::no_members();
        Json::push_member(&mut m, "skills", list);
        assert(members_view(m@) =~= seq![("skills"@, l)]);
        ToolOutcome::Completed { output: Json::Object(m), verified: Verification::Verified }
    }
}

// ---------------------------------------------------------------------------
// skill_defaults.read
// ---------------------------------------------------------------------------

/// What the model is told of `skill_defaults.read`.
pub const READ_DESCRIPTION: &'static str =
    "Read the full body of one default skill from the shared skill library. Input is a JSON object with a `skill` field (the skill's stable identifier from `skill_defaults.list`). Returns a JSON object with `name`, `description`, and `body` (the full text). Fails cleanly if no skill with that name exists.";

/// The skill that is asked for: a text that is not empty.
pub open spec fn asked_skill(input: JsonView) -> Option<Seq<char>> {
    match input.get_str("skill"@) {
        Some(s) => if s.len() > 0 {
            Some(s)
        } else {
            None
        },
        None => None,
    }
}

/// A skill as it is read.
pub open spec fn read_skill(s: Skill) -> JsonView {
    JsonView::Object(
        seq![
            ("body"@, JsonView::Str(s.body@)),
            ("description"@, JsonView::Str(s.description@)),
            ("name"@, JsonView::Str(s.name@)),
        ],
    )
}

/// What is said of a skill that does not exist: which ones do.
pub open spec fn no_such_skill(name: Seq<char>, names: Seq<Seq<char>>) -> Seq<char> {
    "skill_defaults.read: no default skill named "@ + debug_form(name) + " -- valid skills: "@
        + joined(names, ", "@)
}

/// `skill_defaults.read`: the whole of one skill.
#[derive(Debug)]
pub struct SkillDefaultsReadTool {
    id: ToolId,
}

impl SkillDefaultsReadTool {
    pub closed spec fn tool_id(self) -> ToolId {
        self.id
    }

    /// The tool, under an id drawn at random.
    pub fn new() -> (r: SkillDefaultsReadTool)
        ensures
            is_random_uuid(r.tool_id().0),
    {
        SkillDefaultsReadTool { id: ToolId::new() }
    }

    pub fn id(&self) -> (r: ToolId)
        ensures
            r == self.tool_id(),
    {
        self.id
    }

    pub fn name(&self) -> (r: &'static str)
        ensures
            r@ == "skill_defaults.read"@,
    {
        "skill_defaults.read"
    }

    /// What the model is told of the tool.
    pub fn description(&self) -> (r: &'static str)
        ensures
            r@ == READ_DESCRIPTION@,
    {
        READ_DESCRIPTION
    }

    /// The tool as it is registered.
    pub fn to_tool(&self) -> (r: Tool)
        ensures
            r.id == self.tool_id(),
            r.name@ == "skill_defaults.read"@,
            r.description@ == READ_DESCRIPTION@,
            r.input_schema@ == read_schema(),
    {
        Tool {
            id: self.id,
            name: self.name().to_owned(),
            description: self.description().to_owned(),
            input_schema: read_input_schema(),
        }
    }

    pub fn required_scope(&self, _input: &Json) -> (r: String)
        ensures
            r@ == "skill_defaults.read"@,
    {
        "skill_defaults.read".to_owned()
    }

    /// The tool only reads a fixed set of skills.
    pub fn auto_grantable_in_backcompat_floor(&self) -> (r: bool)
        ensures
            r,
    {
        true
    }

    /// A skill may come from a directory that anybody can write to.
    pub fn output_is_untrusted(&self) -> (r: bool)
        ensures
            r,
    {
        true
    }

    /// The skill that is asked for, or what is wrong with the input.
    pub fn skill_name(&self, input: &Json) -> (r: Result<String, ToolOutcome>)
        ensures
            match r {
                Ok(name) => asked_skill(input@) == Some(name@),
                Err(o) => asked_skill(input@) is None && o@ == failure(
                    self.tool_id(),
                    "skill_defaults.read: `skill` field missing or empty"@,
                ),
            },
    {
        if let Some(s) = input.get_str("skill") {
            if !s.as_str().is_empty() {
                return Ok(s.clone());
            }
        }
        Err(tool_failed_with(self.id, "skill_defaults.read: `skill` field missing or empty"))
    }

    /// Shows the skill that was found under `name`, or says which skills
    /// there are.
    pub fn finish(&self, name: &str, found: &Option<Skill>, names: &Vec<String>) -> (r: ToolOutcome)
        ensures
            r@ == (match *found {
                Some(skill) => OutcomeView::Completed {
                    output: read_skill(skill),
                    verified: Verification::Verified,
                },
                None => failure(self.tool_id(), no_such_skill(name@, texts(names@))),
            }),
    {
        match found {
            Some(skill) => {
                let mut m: Vec<(String, Json)> = Json::no_members();
                Json::push_member(&mut m, "body", Json::string(skill.body.as_str()));
                Json::push_member(&mut m, "description", Json::string(skill.description.as_str()));
                Json::push_member(&mut m, "name", Json::string(skill.name.as_str()));
                assert(members_view(m@) =~= seq![
                    ("body"@, JsonView::Str(skill.body@)),
                    ("description"@, JsonView::Str(skill.description@)),
                    ("name"@, JsonView::Str(skill.name@)),
                ]);
                ToolOutcome::Completed { output: Json::Object(m), verified: Verification::Verified }
            },
            None => {
                let mut detail: String = "skill_defaults.read: no default skill named ".to_owned();
                let shown: String = debug_text(name);
                let list: String = join(names, ", ");
                detail.push_str(shown.as_str());
                detail.push_str(" -- valid skills: ");
                detail.push_str(list.as_str());
                assert(detail@ =~= no_such_skill(name@, texts(names@)));
                tool_failed(self.id, detail)
            },
        }
    }
}

// ---------------------------------------------------------------------------
// The section of the system prompt
// ---------------------------------------------------------------------------

/// The line that lists a skill.
pub open spec fn entry_line(s: SummaryView) -> Seq<char> {
    "- "@ + s.name + ": "@ + s.description + "\n"@
}

/// Whether a skill is left out of the prompt: its line, which an injection
/// guard has looked at, holds a marker, and it is not compiled in.
pub open spec fn left_out(s: SummaryView, marked: bool) -> bool {
    marked && s.source != SkillSource::Bundled
}

/// The lines of the skills that are not left out, in their order.
pub open spec fn entry_lines(skills: Seq<SummaryView>, marked: Seq<bool>) -> Seq<char>
    decreases skills.len(),
{
    if skills.len() == 0 {
        Seq::empty()
    } else {
        let rest = entry_lines(skills.drop_last(), marked.drop_last());
        if left_out(skills.last(), marked.last()) {
            rest
        } else {
            rest + entry_line(skills.last())
        }
    }
}

/// The section of the system prompt that names the skills.
pub open spec fn skills_section(skills: Seq<SummaryView>, marked: Seq<bool>) -> Seq<char> {
    "## Default skills\n\n"@ + entry_lines(skills, marked)
        + "\nUse `skill_defaults.read` with a skill's name to read its full procedure.\n"@
}

impl SkillSummary {
    /// The line that lists the skill: what an injection guard has to look at.
    pub fn line(&self) -> (r: String)
        ensures
            r@ == entry_line(self@),
    {
        let mut out: String = "- ".to_owned();
        out.push_str(self.name.as_str());
        out.push_str(": ");
        out.push_str(self.description.as_str());
        out.push_str("\n");
        assert(out@ =~= entry_line(self@));
        out
    }

    /// Whether an injection guard has to look at the line at all.
    pub fn needs_scan(&self) -> (r: bool)
        ensures
            r == (self.source != SkillSource::Bundled),
    {
        self.source != SkillSource::Bundled
    }
}

/// The line that lists a skill, unless it is left out. `marked` says whether
/// an injection guard has found a marker in the line.
pub fn render_skill_entry(summary: &SkillSummary, marked: bool) -> (r: Option<String>)
    ensures
        r is None <==> left_out(summary@, marked),
        r matches Some(line) ==> line@ == entry_line(summary@),
{
    if summary.needs_scan() && marked {
        None
    } else {
        Some(summary.line())
    }
}

/// What is printed of a skill that is left out.
pub open spec fn exclusion_notice(name: Seq<char>, pattern: Seq<char>) -> Seq<char> {
    "aivyx-pa: skill_defaults: excluding "@ + debug_form(name)
        + " from the Default skills listing -- injection marker "@ + debug_form(pattern)
        + " matched in overlay-sourced content"@
}

/// What is printed of a skill that is left out because of `pattern`.
pub fn render_exclusion_notice(name: &str, pattern: &str) -> (r: String)
    ensures
        r@ == exclusion_notice(name@, pattern@),
{
    let mut out: String = "aivyx-pa: skill_defaults: excluding ".to_owned();
    let shown: String = debug_text(name);
    out.push_str(shown.as_str());
    out.push_str(" from the Default skills listing -- injection marker ");
    let found: String = debug_text(pattern);
    out.push_str(found.as_str());
    out.push_str(" matched in overlay-sourced content");
    assert(out@ =~= exclusion_notice(name@, pattern@));
    out
}

/// The section of the system prompt that names the skills. `marked` says of
/// each whether an injection guard has found a marker in its line.
pub fn render_default_skills_section(skills: &Vec<SkillSummary>, marked: &Vec<bool>) -> (r: String)
    requires
        skills@.len() == marked@.len(),
    ensures
        r@ == skills_section(summaries(skills@), marked@),
{
    let ghost all = summaries(skills@);
    let mut out: String = "## Default skills\n\n".to_owned();
    let ghost head = out@;
    let mut i: usize = 0;
    assert(out@ =~= head + entry_lines(all.take(0), marked@.take(0)));
    while i < skills.len()
        invariant
            i <= skills@.len() == marked@.len(),
            all == summaries(skills@),
            out@ == head + entry_lines(all.take(i as int), marked@.take(i as int)),
        decreases skills@.len() - i,
    {
        assert(all.take(i + 1).drop_last() =~= all.take(i as int));
        assert(marked@.take(i + 1).drop_last() =~= marked@.take(i as int));
        assert(all.take(i + 1).last() == skills@[i as int]@);
        if let Some(entry) = render_skill_entry(&skills[i], marked[i]) {
            let ghost before = out@;
            out.push_str(entry.as_str());
            assert(out@ =~= head + entry_lines(all.take(i + 1), marked@.take(i + 1)));
        }
        i = i + 1;
    }
    assert(all.take(i as int) =~= all);
    assert(marked@.take(i as int) =~= marked@);
    out.push_str(
        "\nUse `skill_defaults.read` with a skill's name to read its full procedure.\n",
    );
    assert(out@ =~= skills_section(all, marked@));
    out
}

/// A skill that is compiled in is never left out, whatever is found in it;
/// one from a directory is left out exactly when a marker is found.
pub proof fn law_only_marked_overlays_are_left_out(s: SummaryView, marked: bool)
    ensures
        s.source == SkillSource::Bundled ==> !left_out(s, marked),
        s.source != SkillSource::Bundled ==> left_out(s, marked) == marked,
{
}

/// Where nothing is marked, every skill's line stands in the section.
pub proof fn law_unmarked_skills_are_all_listed(skills: Seq<SummaryView>, marked: Seq<bool>)
    requires
        skills.len() == marked.len(),
        forall|i: int| 0 <= i < marked.len() ==> !#[trigger] marked[i],
    ensures
        entry_lines(skills, marked) == skills.map_values(
            |s: SummaryView| entry_line(s),
        ).flatten_alt(),
    decreases skills.len(),
{
    let lines = skills.map_values(|s: SummaryView| entry_line(s));
    if skills.len() > 0 {
        let rest = skills.drop_last();
        assert forall|i: int| 0 <= i < marked.drop_last().len() implies !#[trigger] marked.drop_last()[i] by {
            assert(!marked[i]);
        }
        assert(!marked[marked.len() - 1]);
        law_unmarked_skills_are_all_listed(rest, marked.drop_last());
        assert(lines.drop_last() =~= rest.map_values(|s: SummaryView| entry_line(s)));
    }
}

// ---------------------------------------------------------------------------
// Schemas
// ---------------------------------------------------------------------------

/// The input of `skill_defaults.read`.
pub open spec fn read_schema() -> JsonView {
    object_schema(
        seq![
            (
                "skill"@,
                field_schema(
                    "string"@,
                    "Stable skill identifier (from skill_defaults.list)."@,
                ),
            ),
        ],
        seq!["skill"@],
    )
}

/// The input of `skill_defaults.list`: nothing.
pub fn list_input_schema() -> (r: Json)
    ensures
        r@ == empty_schema(),
{
    empty_object()
}

/// The input of `skill_defaults.read`.
pub fn read_input_schema() -> (r: Json)
    ensures
        r@ == read_schema(),
{
    let skill: Json = field("string", "Stable skill identifier (from skill_defaults.list).");
    let ghost s = skill@;
    let mut m: Vec<(String, Json)> = Json::no_members();
    Json::push_member(&mut m, "skill", skill);
    assert(members_view(m@) =~= seq![("skill"@, s)]);
    let mut required: Vec<Json> = Vec::new();
    assert(items_view(required@) =~= Seq::empty());
    Json::push_item(&mut required, Json::string("skill"));
    assert(items_view(required@) =~= name_list(seq!["skill"@]));
    object(m, required)
}

/// The list shows each skill, in their order, by its name and its description.
pub proof fn law_the_list_shows_each_skill(skills: Seq<SummaryView>, i: int)
    requires
        0 <= i < skills.len(),
    ensures
        ({
            &&& skill_list(skills).get_array("skills"@) matches Some(items)
            &&& items.len() == skills.len()
            &&& items[i].get_str("name"@) == Some(skills[i].name)
            &&& items[i].get_str("description"@) == Some(skills[i].description)
        }),
{
    let top = skill_list(skills)->Object_0;
    let m = listed_skill(skills[i])->Object_0;
    reveal_strlit("skills");
    assert(top[0].0 == "skills"@);
    law_a_member_is_found_by_its_name(top, 0);
    reveal_strlit("description");
    reveal_strlit("name");
    assert("description"@.len() != "name"@.len());
    assert(m[0].0 == "description"@);
    assert(m[1].0 == "name"@);
    law_a_member_is_found_by_its_name(m, 0);
    law_a_member_is_found_by_its_name(m, 1);
}

/// A skill is read whole: its name, its description and its body.
pub proof fn law_a_skill_is_read_whole(s: Skill)
    ensures
        read_skill(s).get_str("name"@) == Some(s.name@),
        read_skill(s).get_str("description"@) == Some(s.description@),
        read_skill(s).get_str("body"@) == Some(s.body@),
{
    let m = read_skill(s)->Object_0;
    reveal_strlit("body");
    reveal_strlit("description");
    reveal_strlit("name");
    assert("body"@.len() != "description"@.len());
    assert("body"@[0] != "name"@[0]);
    assert("description"@.len() != "name"@.len());
    assert(m[0].0 == "body"@);
    assert(m[1].0 == "description"@);
    assert(m[2].0 == "name"@);
    law_a_member_is_found_by_its_name(m, 0);
    law_a_member_is_found_by_its_name(m, 1);
    law_a_member_is_found_by_its_name(m, 2);
}

/// The skill that is asked for is the one that the input names, where it names
/// one.
pub proof fn law_which_skill_is_asked_for(input: JsonView, name: Seq<char>)
    ensures
        asked_skill(input) == Some(name) <==> input.get("skill"@) == Some(JsonView::Str(name))
            && name.len() > 0,
{
}

/// The section lists the skills that are not left out, in their order, each on a
/// line with its name and its description, between its heading and the advice
/// on how to read one. Left out is what carries a mark and is not compiled in.
pub proof fn law_the_section_lists_the_skills(skills: Seq<SummaryView>, marked: Seq<bool>)
    requires
        skills.len() == marked.len(),
    ensures
        skills_section(skills, marked) == "## Default skills\n\n"@ + skills.zip_with(marked).filter(
            |e: (SummaryView, bool)| !(e.1 && e.0.source != SkillSource::Bundled),
        ).map_values(
            |e: (SummaryView, bool)| "- "@ + e.0.name + ": "@ + e.0.description + "\n"@,
        ).flatten()
            + "\nUse `skill_defaults.read` with a skill's name to read its full procedure.\n"@,
{
    lemma_entry_lines(skills, marked);
}

proof fn lemma_entry_lines(skills: Seq<SummaryView>, marked: Seq<bool>)
    requires
        skills.len() == marked.len(),
    ensures
        entry_lines(skills, marked) == skills.zip_with(marked).filter(
            |e: (SummaryView, bool)| !(e.1 && e.0.source != SkillSource::Bundled),
        ).map_values(
            |e: (SummaryView, bool)| "- "@ + e.0.name + ": "@ + e.0.description + "\n"@,
        ).flatten(),
    decreases skills.len(),
{
    let all = skills.zip_with(marked);
    let shown = |e: (SummaryView, bool)| !(e.1 && e.0.source != SkillSource::Bundled);
    let line = |e: (SummaryView, bool)| "- "@ + e.0.name + ": "@ + e.0.description + "\n"@;
    reveal(Seq::filter);
    if skills.len() > 0 {
        let s = skills.drop_last();
        let m = marked.drop_last();
        lemma_entry_lines(s, m);
        let rest = s.zip_with(m);
        let last = (skills.last(), marked.last());
        assert(all.drop_last() =~= rest);
        assert(all.last() == last);
        if shown(last) {
            let lines = rest.filter(shown).map_values(line);
            assert(rest.filter(shown).push(last).map_values(line) =~= lines.push(line(last)));
            lines.lemma_flatten_push(line(last));
            assert(entry_lines(skills, marked) =~= entry_lines(s, m) + line(last));
        }
    } else {
        assert(all.filter(shown).map_values(line) =~= Seq::<Seq<char>>::empty());
        assert(entry_lines(skills, marked) =~= all.filter(shown).map_values(line).flatten());
    }
}

/// Who asks for a skill that there is not is told its name and the names of
/// those that there are.
pub proof fn law_an_unknown_skill_is_answered(name: Seq<char>, names: Seq<Seq<char>>)
    ensures
        joined(names, ", "@).is_suffix_of(no_such_skill(name, names)),
        crate::text::occurs(no_such_skill(name, names), debug_form(name)),
{
    let text = no_such_skill(name, names);
    let list = joined(names, ", "@);
    let at = "skill_defaults.read: no default skill named "@.len() as int;
    assert(list =~= text.skip(text.len() - list.len()));
    assert(text.subrange(at, at + debug_form(name).len()) =~= debug_form(name));
    assert(crate::text::occurs_at(text, debug_form(name), at));
}

/// The notice on a skill that is left out names it and the marker that was
/// found.
pub proof fn law_a_notice_names_the_skill_and_the_marker(name: Seq<char>, pattern: Seq<char>)
    ensures
        crate::text::occurs(exclusion_notice(name, pattern), debug_form(name)),
        crate::text::occurs(exclusion_notice(name, pattern), debug_form(pattern)),
{
    let text = exclusion_notice(name, pattern);
    let at = "aivyx-pa: skill_defaults: excluding "@.len() as int;
    let mid = " from the Default skills listing -- injection marker "@;
    let n = at + debug_form(name).len() + mid.len();
    assert(text.subrange(at, at + debug_form(name).len()) =~= debug_form(name));
    assert(crate::text::occurs_at(text, debug_form(name), at));
    assert(text.subrange(n, n + debug_form(pattern).len()) =~= debug_form(pattern));
    assert(crate::text::occurs_at(text, debug_form(pattern), n));
}

/// The schema for reading a skill asks for its name.
pub proof fn law_the_schema_asks_for_a_name()
    ensures
        ({
            &&& read_schema().get_str("type"@) == Some("object"@)
            &&& read_schema().get_array("required"@) == Some(seq![JsonView::Str("skill"@)])
            &&& read_schema().get("properties"@) matches Some(p)
            &&& p.get("skill"@) matches Some(f)
            &&& f.get_str("type"@) == Some("string"@)
        }),
{
    let about = "Stable skill identifier (from skill_defaults.list)."@;
    let m = seq![("skill"@, field_schema("string"@, about))];
    law_a_field_has_its_type("string"@, about);
    law_an_object_has_its_properties(m, seq!["skill"@]);
    assert(seq!["skill"@].map_values(|name: Seq<char>| JsonView::Str(name)) =~= seq![
        JsonView::Str("skill"@),
    ]);
    law_a_member_is_found_by_its_name(m, 0);
}

} // verus!
