//! The judge that decides whether a turn is worth a refinement of the
//! persona: what it is asked, and what is made of its answer.

use vstd::prelude::*;
use crate::planner::text_of;
use crate::text::{chars_of, same_text, string_of, texts};

verus! {

// ---------------------------------------------------------------------------
// The request
// ---------------------------------------------------------------------------

/// An approved skill, as the judge sees it.
#[derive(Debug, PartialEq, Eq)]
pub struct ExistingSkillSnapshot {
    pub name: String,
    pub trigger: String,
    /// The start of the procedure.
    pub procedure_summary: String,
}

/// The persona as it stands, as the judge sees it. The last two hold JSON.
#[derive(Debug, PartialEq, Eq)]
pub struct ExistingPersonaSnapshot {
    pub assistant_name: Option<String>,
    pub operator_profile: Option<String>,
    pub communication_style: Option<String>,
    pub primary_use_cases: Vec<String>,
    pub behavioral_preferences: Vec<String>,
    pub behavioral_constraints: Vec<String>,
    pub learned_context: Vec<String>,
    pub communication_adaptations: Vec<String>,
    pub character_traits: Vec<String>,
    pub relationship_milestones: Vec<String>,
    pub learned_skills: Vec<ExistingSkillSnapshot>,
    pub profile_hints: Vec<String>,
    pub role_drafts: Vec<String>,
}

/// A persona in which nothing is set.
pub open spec fn persona_is_empty(p: ExistingPersonaSnapshot) -> bool {
    &&& p.assistant_name is None
    &&& p.operator_profile is None
    &&& p.communication_style is None
    &&& p.primary_use_cases@.len() == 0
    &&& p.behavioral_preferences@.len() == 0
    &&& p.behavioral_constraints@.len() == 0
    &&& p.learned_context@.len() == 0
    &&& p.communication_adaptations@.len() == 0
    &&& p.character_traits@.len() == 0
    &&& p.relationship_milestones@.len() == 0
    &&& p.learned_skills@.len() == 0
    &&& p.profile_hints@.len() == 0
    &&& p.role_drafts@.len() == 0
}

impl Default for ExistingPersonaSnapshot {
    fn default() -> (r: ExistingPersonaSnapshot)
        ensures
            persona_is_empty(r),
    {
        ExistingPersonaSnapshot {
            assistant_name: None,
            operator_profile: None,
            communication_style: None,
            primary_use_cases: Vec::new(),
            behavioral_preferences: Vec::new(),
            behavioral_constraints: Vec::new(),
            learned_context: Vec::new(),
            communication_adaptations: Vec::new(),
            character_traits: Vec::new(),
            relationship_milestones: Vec::new(),
            learned_skills: Vec::new(),
            profile_hints: Vec::new(),
            role_drafts: Vec::new(),
        }
    }
}

impl ExistingPersonaSnapshot {
    /// Whether nothing is set.
    pub fn is_empty(&self) -> (r: bool)
        ensures
            r == persona_is_empty(*self),
    {
        self.assistant_name.is_none() && self.operator_profile.is_none()
            && self.communication_style.is_none() && self.primary_use_cases.len() == 0
            && self.behavioral_preferences.len() == 0 && self.behavioral_constraints.len() == 0
            && self.learned_context.len() == 0 && self.communication_adaptations.len() == 0
            && self.character_traits.len() == 0 && self.relationship_milestones.len() == 0
            && self.learned_skills.len() == 0 && self.profile_hints.len() == 0
            && self.role_drafts.len() == 0
    }
}

/// How a turn failed.
#[derive(Debug, Clone, Copy, PartialEq, Eq, Structural)]
pub enum FailureKind {
    Failed,
    TimedOut,
    Cancelled,
    Escalated,
}

/// The name of a kind of failure.
pub open spec fn failure_label(kind: FailureKind) -> Seq<char> {
    match kind {
        FailureKind::Failed => "failed"@,
        FailureKind::TimedOut => "timed_out"@,
        FailureKind::Cancelled => "cancelled"@,
        FailureKind::Escalated => "escalated"@,
    }
}

impl FailureKind {
    pub fn label(&self) -> (r: &'static str)
        ensures
            r@ == failure_label(*self),
    {
        match self {
            FailureKind::Failed => "failed",
            FailureKind::TimedOut => "timed_out",
            FailureKind::Cancelled => "cancelled",
            FailureKind::Escalated => "escalated",
        }
    }
}

/// What the judge is asked about: a turn that worked, or one that failed.
#[derive(Debug, PartialEq, Eq)]
pub enum ProposalSource {
    CompletedTurn,
    FailedTurn { kind: FailureKind, summary: String },
}

impl ProposalSource {
    /// The name of the source in the audit log.
    pub fn label(&self) -> (r: &'static str)
        ensures
            r@ == (match *self {
                ProposalSource::CompletedTurn => "completed_turn"@,
                ProposalSource::FailedTurn { .. } => "failed_turn"@,
            }),
    {
        match self {
            ProposalSource::CompletedTurn => "completed_turn",
            ProposalSource::FailedTurn { .. } => "failed_turn",
        }
    }
}

impl Default for ProposalSource {
    fn default() -> (r: ProposalSource)
        ensures
            r is CompletedTurn,
    {
        ProposalSource::CompletedTurn
    }
}

/// What the judge is to decide on.
#[derive(Debug)]
pub struct JudgeRequest<'a> {
    /// What happened in the turn.
    pub turn_summary: &'a str,
    pub existing_persona: &'a ExistingPersonaSnapshot,
    pub model: &'a str,
    pub max_tokens: u32,
    pub source: ProposalSource,
}

// ---------------------------------------------------------------------------
// The answer
// ---------------------------------------------------------------------------

/// A field of the operator's declared profile.
#[derive(Debug, Clone, Copy, PartialEq, Eq, Structural)]
pub enum ProfileField {
    AssistantName,
    OperatorProfile,
    CommunicationStyle,
    PrimaryUseCases,
    BehavioralPreferences,
    BehavioralConstraints,
}

/// The name of a field in the configuration.
pub open spec fn field_label(field: ProfileField) -> Seq<char> {
    match field {
        ProfileField::AssistantName => "assistant_name"@,
        ProfileField::OperatorProfile => "operator_profile"@,
        ProfileField::CommunicationStyle => "communication_style"@,
        ProfileField::PrimaryUseCases => "primary_use_cases"@,
        ProfileField::BehavioralPreferences => "behavioral_preferences"@,
        ProfileField::BehavioralConstraints => "behavioral_constraints"@,
    }
}

impl ProfileField {
    pub fn label(&self) -> (r: &'static str)
        ensures
            r@ == field_label(*self),
    {
        match self {
            ProfileField::AssistantName => "assistant_name",
            ProfileField::OperatorProfile => "operator_profile",
            ProfileField::CommunicationStyle => "communication_style",
            ProfileField::PrimaryUseCases => "primary_use_cases",
            ProfileField::BehavioralPreferences => "behavioral_preferences",
            ProfileField::BehavioralConstraints => "behavioral_constraints",
        }
    }
}

/// A skill that the judge proposes.
#[derive(Debug, PartialEq, Eq)]
pub struct SkillDraft {
    pub name: String,
    pub trigger: String,
    pub procedure: String,
}

/// What the judge proposes, in the shape that its category calls for.
#[derive(Debug, PartialEq, Eq)]
pub enum ProposedDraft {
    LearnedSkill { name: String, trigger: String, procedure: String },
    ListAppend { value: String },
    ScalarSet { value: String },
    ProfileHint { field: ProfileField, suggested_value: String, rationale: String },
    RoleDefinitionSuggestion {
        name: String,
        parent: Option<String>,
        system_prompt_addendum: String,
        tool_allowlist_additions: Vec<String>,
        rationale: String,
    },
}

/// How many characters of a proposal its display name shows.
pub const DISPLAY_CHARS: usize = 80;

/// How many characters of a hint's value its summary shows.
pub const HINT_CHARS: usize = 60;

/// `s`, cut to `max` characters and an ellipsis if it has more.
pub open spec fn shortened(s: Seq<char>, max: nat) -> Seq<char> {
    if s.len() > max {
        s.take(max as int).push('…')
    } else {
        s
    }
}

/// `s`, cut to `max` characters if it has more.
pub open spec fn cut(s: Seq<char>, max: nat) -> Seq<char> {
    if s.len() > max {
        s.take(max as int)
    } else {
        s
    }
}

fn shorten(s: &str, max: usize) -> (r: String)
    ensures
        r@ == shortened(s@, max as nat),
{
    let v: Vec<char> = chars_of(s);
    if v.len() > max {
        let mut out: String = string_of(&v, 0, max);
        out.push('…');
        assert(out@ =~= shortened(s@, max as nat));
        out
    } else {
        s.to_owned()
    }
}

fn cut_text(s: &str, max: usize) -> (r: String)
    ensures
        r@ == cut(s@, max as nat),
{
    let v: Vec<char> = chars_of(s);
    if v.len() > max {
        string_of(&v, 0, max)
    } else {
        s.to_owned()
    }
}

/// What a proposal is called in the audit log.
pub open spec fn draft_name(d: ProposedDraft) -> Seq<char> {
    match d {
        ProposedDraft::LearnedSkill { name, .. } => name@,
        ProposedDraft::ListAppend { value } => shortened(value@, DISPLAY_CHARS as nat),
        ProposedDraft::ScalarSet { value } => shortened(value@, DISPLAY_CHARS as nat),
        ProposedDraft::ProfileHint { field, suggested_value, .. } => shortened(
            field_label(field) + "="@ + suggested_value@,
            DISPLAY_CHARS as nat,
        ),
        ProposedDraft::RoleDefinitionSuggestion { name, .. } => name@,
    }
}

impl ProposedDraft {
    /// The skill that is proposed, if it is one.
    pub fn as_skill_draft(&self) -> (r: Option<SkillDraft>)
        ensures
            match *self {
                ProposedDraft::LearnedSkill { name, trigger, procedure } => r matches Some(d)
                    && d.name@ == name@ && d.trigger@ == trigger@ && d.procedure@ == procedure@,
                _ => r is None,
            },
    {
        match self {
            ProposedDraft::LearnedSkill { name, trigger, procedure } => Some(
                SkillDraft {
                    name: name.clone(),
                    trigger: trigger.clone(),
                    procedure: procedure.clone(),
                },
            ),
            _ => None,
        }
    }

    /// The name of the shape.
    pub fn kind_label(&self) -> (r: &'static str)
        ensures
            r@ == (match *self {
                ProposedDraft::LearnedSkill { .. } => "LearnedSkill"@,
                ProposedDraft::ListAppend { .. } => "ListAppend"@,
                ProposedDraft::ScalarSet { .. } => "ScalarSet"@,
                ProposedDraft::ProfileHint { .. } => "ProfileHint"@,
                ProposedDraft::RoleDefinitionSuggestion { .. } => "RoleDefinitionSuggestion"@,
            }),
    {
        match self {
            ProposedDraft::LearnedSkill { .. } => "LearnedSkill",
            ProposedDraft::ListAppend { .. } => "ListAppend",
            ProposedDraft::ScalarSet { .. } => "ScalarSet",
            ProposedDraft::ProfileHint { .. } => "ProfileHint",
            ProposedDraft::RoleDefinitionSuggestion { .. } => "RoleDefinitionSuggestion",
        }
    }

    /// What the proposal is called in the audit log.
    pub fn display_name(&self) -> (r: String)
        ensures
            r@ == draft_name(*self),
    {
        match self {
            ProposedDraft::LearnedSkill { name, .. } => name.clone(),
            ProposedDraft::ListAppend { value } => shorten(value.as_str(), DISPLAY_CHARS),
            ProposedDraft::ScalarSet { value } => shorten(value.as_str(), DISPLAY_CHARS),
            ProposedDraft::ProfileHint { field, suggested_value, .. } => {
                let mut combined: String = field.label().to_owned();
                combined.push_str("=");
                combined.push_str(suggested_value.as_str());
                shorten(combined.as_str(), DISPLAY_CHARS)
            },
            ProposedDraft::RoleDefinitionSuggestion { name, .. } => name.clone(),
        }
    }
}

/// The judge's answer. The confidence is held as the bit pattern of a
/// single-precision float.
#[derive(Debug, PartialEq, Eq)]
pub struct JudgeResponse {
    pub is_worth_proposing: bool,
    pub confidence: u32,
    pub category: Option<String>,
    pub proposed_draft: Option<ProposedDraft>,
    pub is_duplicate_of: Option<String>,
    pub reasoning: Option<String>,
}

impl JudgeResponse {
    /// The skill that is proposed, if one is.
    pub fn proposed_skill(&self) -> (r: Option<SkillDraft>)
        ensures
            match self.proposed_draft {
                Some(ProposedDraft::LearnedSkill { name, trigger, procedure }) => r matches Some(d)
                    && d.name@ == name@ && d.trigger@ == trigger@ && d.procedure@ == procedure@,
                _ => r is None,
            },
    {
        match &self.proposed_draft {
            Some(d) => d.as_skill_draft(),
            None => None,
        }
    }
}

/// Why the judge's answer cannot be used.
#[derive(Debug, PartialEq, Eq)]
pub enum JudgeError {
    /// The model could not be asked.
    Provider(String),
    /// The answer is not what was asked for.
    ParseFailure { raw: String },
    /// The confidence, by its bit pattern, is not between zero and one.
    ConfidenceOutOfRange(u32),
}

// ---------------------------------------------------------------------------
// The prompts
// ---------------------------------------------------------------------------

/// What the judge is told about its task.
pub const JUDGE_SYSTEM_PROMPT: &'static str = "You are a Persona-refinement judge for an AI personal \
assistant. Your job is to look at one turn (completed OR \
failed) and decide whether to propose a Persona refinement. \
\n\nThere are two source modes: \n\
- Completed turn (Phase 114 positive-pattern path): look for \
  reusable multi-step patterns worth saving as Persona \
  refinements.\n\
- Failed turn (Phase 115 negative-feedback path): the agent \
  failed, timed out, was cancelled, or escalated. Look for \
  refinements that would prevent this kind of failure from \
  recurring next time — typically BehavioralConstraints \
  (\"never X\"), LearnedContext (\"remember Y\"), or \
  CommunicationAdaptations (\"phrase Z this way\").\n\
\n\
The agent's Persona has thirteen categories; you pick the right \
one and draft the refinement in the shape that category expects. \
\n\nThe thirteen categories (and their expected draft shape):\n\
- LearnedSkill — a named procedure the assistant can invoke. \
  Draft: { kind: \"LearnedSkill\", name: kebab-case string, \
  trigger: string, procedure: markdown string }.\n\
- BehavioralPreferences — a single string the operator prefers \
  the assistant to follow (\"prefer terse replies\"). Draft: \
  { kind: \"ListAppend\", value: string }.\n\
- BehavioralConstraints — a single string the assistant must \
  avoid (\"never run shell commands without operator approval\"). \
  Draft: { kind: \"ListAppend\", value: string }.\n\
- LearnedContext — a fact about the operator's world the \
  assistant should remember (\"the operator's primary repo is \
  aivyx\"). Draft: { kind: \"ListAppend\", value: string }.\n\
- CommunicationAdaptations — a tone or style adaptation \
  (\"the operator likes brief responses with code blocks\"). \
  Draft: { kind: \"ListAppend\", value: string }.\n\
- CharacterTraits — a personality trait that emerged across \
  many turns (\"curious about underlying mechanisms\"). \
  Draft: { kind: \"ListAppend\", value: string }.\n\
- RelationshipMilestones — a noteworthy moment in the \
  operator-assistant relationship. \
  Draft: { kind: \"ListAppend\", value: string }.\n\
- PrimaryUseCases — a use-case the operator actually uses \
  the assistant for. Draft: { kind: \"ListAppend\", \
  value: string }.\n\
- AssistantName — a name for the assistant (scalar; rare). \
  Draft: { kind: \"ScalarSet\", value: string }.\n\
- OperatorProfile — a short identity-summary of the operator \
  (scalar; rare). Draft: { kind: \"ScalarSet\", value: \
  string }.\n\
- CommunicationStyle — the assistant's overall tone (scalar; \
  rare). Draft: { kind: \"ScalarSet\", value: string }.\n\
- ProfileHint (Phase 118) — a NOTED suggestion that the \
  operator-declared `[profile]` block in aivyx-pa.toml could be \
  refined. Targets one of six declared Profile fields: \
  AssistantName, OperatorProfile, CommunicationStyle, \
  PrimaryUseCases, BehavioralPreferences, BehavioralConstraints. \
  Draft: { kind: \"ProfileHint\", field: one of those six, \
  suggested_value: string, rationale: 1-3 sentences explaining \
  what recurring observation justifies the hint }.\n\
  IMPORTANT: ProfileHint is ALWAYS-STAGED for operator approval \
  regardless of your confidence — Profile is operator-declared \
  (P13). Your output is reviewed before any state changes; err \
  on the side of EXPLICIT rationales.\n\
- RoleDefinitionSuggestion (Phase 118) — a NOTED draft for an \
  entirely new Role definition the operator-curated Role config \
  could include. Draft: { kind: \"RoleDefinitionSuggestion\", \
  name: kebab-case string, parent: optional existing role name \
  to inherit from, system_prompt_addendum: markdown string \
  (additive over parent), tool_allowlist_additions: list of \
  tool-name strings (additive over parent), rationale: 1-3 \
  sentences explaining the recurring shape that justifies a \
  new role }.\n\
  IMPORTANT: RoleDefinitionSuggestion is ALWAYS-STAGED for \
  operator approval regardless of your confidence — the Role \
  config is operator-curated (P9). Your output is reviewed \
  before any state changes; err on the side of EXPLICIT \
  rationales.\n\
\n\
Return ONLY a single JSON object matching this schema:\n\
{\n\
  \"is_worth_proposing\": bool,\n\
  \"confidence\": float in [0.0, 1.0],\n\
  \"category\": one of the thirteen category names | null,\n\
  \"proposed_draft\": draft object (shape per the category) \
  | null,\n\
  \"is_duplicate_of\": existing entry name/value/description \
  | null,\n\
  \"reasoning\": short string explaining the verdict\n\
}\n\n\
Criteria:\n\
- Worth proposing: the turn shows a recurring or generalizable \
pattern worth saving, not a one-off chat. Pick the category \
that fits best.\n\
- Confidence: how strongly the pattern fits the picked \
category. Reserve >= 0.85 for clear, well-defined, recurring \
patterns. Scalar categories (AssistantName, OperatorProfile, \
CommunicationStyle) need very high confidence (>= 0.95) \
because each new value replaces the previous one.\n\
- ProfileHint / RoleDefinitionSuggestion (Phase 118): the \
operator REVIEWS every one of these before any state changes \
— the routing layer ignores your confidence for these two \
categories and stages all of them. So your rationale matters \
more than your confidence; the operator reads the rationale \
to decide whether to act. Use these categories when the turn \
suggests the declared Profile or Role config itself is \
misfit, not just that the Persona-chain should grow.\n\
- Duplicates: if the candidate is semantically the same as an \
existing Persona entry in ANY category, set is_duplicate_of \
to a description of that entry and is_worth_proposing to \
false.\n\
- No prose outside the JSON. No markdown fences. JSON only.";

/// What the judge is told about its task. It is the same for every turn.
pub fn build_system_prompt() -> (r: String)
    ensures
        r@ == JUDGE_SYSTEM_PROMPT@,
{
    JUDGE_SYSTEM_PROMPT.to_owned()
}

/// A list item per text.
pub open spec fn bullets(items: Seq<Seq<char>>) -> Seq<char>
    decreases items.len(),
{
    if items.len() == 0 {
        Seq::empty()
    } else {
        bullets(items.drop_last()) + "  - "@ + items.last() + "\n"@
    }
}

/// A category with one value, if it is set.
pub open spec fn scalar_part(label: Seq<char>, value: Option<Seq<char>>) -> Seq<char> {
    match value {
        Some(v) => "- **"@ + label + "** (scalar): "@ + v + "\n"@,
        None => Seq::empty(),
    }
}

/// A category with a list of values, if there are any.
pub open spec fn list_part(label: Seq<char>, items: Seq<Seq<char>>) -> Seq<char> {
    if items.len() == 0 {
        Seq::empty()
    } else {
        "- **"@ + label + "** (list):\n"@ + bullets(items)
    }
}

/// The entries for the approved skills.
pub open spec fn skill_entries(skills: Seq<ExistingSkillSnapshot>) -> Seq<char>
    decreases skills.len(),
{
    if skills.len() == 0 {
        Seq::empty()
    } else {
        skill_entries(skills.drop_last()) + "  - **"@ + skills.last().name@ + "** — trigger: "@
            + skills.last().trigger@ + "\n    summary: "@ + skills.last().procedure_summary@ + "\n"@
    }
}

/// The part for the approved skills, if there are any.
pub open spec fn skills_part(skills: Seq<ExistingSkillSnapshot>) -> Seq<char> {
    if skills.len() == 0 {
        Seq::empty()
    } else {
        "- **LearnedSkill** (list of named procedures):\n"@ + skill_entries(skills)
    }
}

/// The members of the object that the JSON text `text` stands for: each name
/// with its value, where that is a string. A value other than an object has
/// none; `None` where `text` is not JSON.
pub uninterp spec fn string_members(text: Seq<char>) -> Option<
    Seq<(Seq<char>, Option<Seq<char>>)>,
>;

/// Members by their texts.
pub open spec fn member_texts(v: Seq<(String, Option<String>)>) -> Seq<
    (Seq<char>, Option<Seq<char>>),
> {
    v.map_values(|m: (String, Option<String>)| (m.0@, text_of(m.1)))
}

/// Members by their texts, where there are any.
pub open spec fn opt_member_texts(v: Option<Vec<(String, Option<String>)>>) -> Option<
    Seq<(Seq<char>, Option<Seq<char>>)>,
> {
    match v {
        Some(m) => Some(member_texts(m@)),
        None => None,
    }
}

/// `serde_json::from_str` into a `Value`: the names and string values of the
/// members if it is an object, no members if it is another value, `None` if
/// the text cannot be read.
#[verifier::external_body]
fn read_string_members(text: &str) -> (r: Option<Vec<(String, Option<String>)>>)
    ensures
        opt_member_texts(r) == string_members(text@),
{
    let value: serde_json::Value = serde_json::from_str(text).ok()?;
    let members = value.as_object().into_iter().flatten();
    Some(members.map(|(k, v)| (k.clone(), v.as_str().map(str::to_owned))).collect())
}

/// The string called `key`, if the first member of that name is one.
pub open spec fn string_member(m: Seq<(Seq<char>, Option<Seq<char>>)>, key: Seq<char>) -> Option<
    Seq<char>,
>
    decreases m.len(),
{
    if m.len() == 0 {
        None
    } else if m[0].0 == key {
        m[0].1
    } else {
        string_member(m.drop_first(), key)
    }
}

fn find_string(members: &Vec<(String, Option<String>)>, key: &str) -> (r: Option<String>)
    ensures
        text_of(r) == string_member(member_texts(members@), key@),
{
    let ghost all = member_texts(members@);
    assert(all.skip(0) =~= all);
    let mut i: usize = 0;
    while i < members.len()
        invariant
            i <= members@.len(),
            all == member_texts(members@),
            string_member(all, key@) == string_member(all.skip(i as int), key@),
        decreases members@.len() - i,
    {
        assert(all.skip(i as int)[0] == all[i as int]);
        assert(all.skip(i as int).drop_first() =~= all.skip(i + 1));
        if same_text(members[i].0.as_str(), key) {
            return match &members[i].1 {
                Some(s) => Some(s.clone()),
                None => None,
            };
        }
        i = i + 1;
    }
    None
}

/// A text, or another where there is none.
pub open spec fn or_else(s: Option<Seq<char>>, other: Seq<char>) -> Seq<char> {
    match s {
        Some(t) => t,
        None => other,
    }
}

/// What the judge sees of a staged profile hint, given its members: the field
/// and the start of the value, or the start of what is stored where that is
/// not JSON.
pub open spec fn hint_summary(
    blob: Seq<char>,
    members: Option<Seq<(Seq<char>, Option<Seq<char>>)>>,
) -> Seq<char> {
    match members {
        Some(m) => "`"@ + or_else(string_member(m, "field"@), "?"@) + "` → \""@ + shortened(
            or_else(string_member(m, "suggested_value"@), Seq::empty()),
            HINT_CHARS as nat,
        ) + "\""@,
        None => cut(blob, DISPLAY_CHARS as nat),
    }
}

/// What the judge sees of a staged role, given its members: its name and the
/// role it builds on, or the start of what is stored where that is not JSON.
pub open spec fn role_summary(
    blob: Seq<char>,
    members: Option<Seq<(Seq<char>, Option<Seq<char>>)>>,
) -> Seq<char> {
    match members {
        Some(m) => "`"@ + or_else(string_member(m, "name"@), "?"@) + "`"@ + (match string_member(
            m,
            "parent"@,
        ) {
            Some(p) => " (parent: `"@ + p + "`)"@,
            None => Seq::empty(),
        }),
        None => cut(blob, DISPLAY_CHARS as nat),
    }
}

/// The summary of a staged profile hint whose members are `members`.
pub fn profile_hint_summary(blob: &str, members: &Option<Vec<(String, Option<String>)>>) -> (r:
    String)
    ensures
        r@ == hint_summary(blob@, opt_member_texts(*members)),
{
    match members {
        Some(m) => {
            let field: String = match find_string(m, "field") {
                Some(s) => s,
                None => "?".to_owned(),
            };
            let value: String = match find_string(m, "suggested_value") {
                Some(s) => s,
                None => String::new(),
            };
            let shown: String = shorten(value.as_str(), HINT_CHARS);
            let mut out: String = String::new();
            out.push_str("`");
            out.push_str(field.as_str());
            out.push_str("` → \"");
            out.push_str(shown.as_str());
            out.push_str("\"");
            assert(out@ =~= hint_summary(blob@, opt_member_texts(*members)));
            out
        },
        None => cut_text(blob, DISPLAY_CHARS),
    }
}

/// The summary of a staged role whose members are `members`.
pub fn role_draft_summary(blob: &str, members: &Option<Vec<(String, Option<String>)>>) -> (r:
    String)
    ensures
        r@ == role_summary(blob@, opt_member_texts(*members)),
{
    match members {
        Some(m) => {
            let name: String = match find_string(m, "name") {
                Some(s) => s,
                None => "?".to_owned(),
            };
            let mut out: String = String::new();
            out.push_str("`");
            out.push_str(name.as_str());
            out.push_str("`");
            match find_string(m, "parent") {
                Some(p) => {
                    out.push_str(" (parent: `");
                    out.push_str(p.as_str());
                    out.push_str("`)");
                },
                None => {},
            }
            assert(out@ =~= role_summary(blob@, opt_member_texts(*members)));
            out
        },
        None => cut_text(blob, DISPLAY_CHARS),
    }
}

/// The summary of a staged profile hint.
pub fn summarize_profile_hint_blob(blob: &str) -> (r: String)
    ensures
        r@ == hint_summary(blob@, string_members(blob@)),
{
    let members: Option<Vec<(String, Option<String>)>> = read_string_members(blob);
    profile_hint_summary(blob, &members)
}

/// The summary of a staged role.
pub fn summarize_role_draft_blob(blob: &str) -> (r: String)
    ensures
        r@ == role_summary(blob@, string_members(blob@)),
{
    let members: Option<Vec<(String, Option<String>)>> = read_string_members(blob);
    role_draft_summary(blob, &members)
}

/// The summary of each staged profile hint.
pub open spec fn hint_summaries(blobs: Seq<Seq<char>>) -> Seq<Seq<char>> {
    blobs.map_values(|b: Seq<char>| hint_summary(b, string_members(b)))
}

/// The summary of each staged role.
pub open spec fn role_summaries(blobs: Seq<Seq<char>>) -> Seq<Seq<char>> {
    blobs.map_values(|b: Seq<char>| role_summary(b, string_members(b)))
}

/// The part for the staged profile hints, if there are any.
pub open spec fn hints_part(blobs: Seq<Seq<char>>) -> Seq<char> {
    if blobs.len() == 0 {
        Seq::empty()
    } else {
        "- **ProfileHint** (Phase 118 — staged Profile-config refinement suggestions):\n"@
            + bullets(hint_summaries(blobs))
    }
}

/// The part for the staged roles, if there are any.
pub open spec fn roles_part(blobs: Seq<Seq<char>>) -> Seq<char> {
    if blobs.len() == 0 {
        Seq::empty()
    } else {
        "- **RoleDefinitionSuggestion** (Phase 118 — staged new-Role drafts):\n"@ + bullets(
            role_summaries(blobs),
        )
    }
}

/// What the judge is told to do about a failure.
pub const FAILURE_TASK: &'static str = "\n\nYour job: pick a Persona refinement that would prevent \
this kind of failure from recurring. Prefer BehavioralConstraints (\"never X\"), \
LearnedContext (\"remember Y\"), or CommunicationAdaptations (\"phrase Z this \
way\"). If the failure isn't actionable (e.g. transient network error, \
operator changed their mind for unrelated reasons), set is_worth_proposing \
to false.";

/// The part of the prompt on the turn itself.
pub open spec fn turn_part(source: ProposalSource, turn_summary: Seq<char>) -> Seq<char> {
    match source {
        ProposalSource::CompletedTurn => "## Completed turn\n\n"@ + turn_summary,
        ProposalSource::FailedTurn { kind, summary } =>
            "## Failed turn (correction context)\n\n"@ + "**Failure kind:** `"@ + failure_label(kind)
            + "`\n\n**Failure summary:** "@ + summary@ + "\n\n"@ + "**Turn narrative:**\n\n"@
            + turn_summary + FAILURE_TASK@,
    }
}

/// The part of the prompt on the persona's three single values.
pub open spec fn scalar_parts(p: ExistingPersonaSnapshot) -> Seq<char> {
    scalar_part("AssistantName"@, text_of(p.assistant_name)) + scalar_part(
        "OperatorProfile"@,
        text_of(p.operator_profile),
    ) + scalar_part("CommunicationStyle"@, text_of(p.communication_style))
}

/// The part of the prompt on the persona's seven lists.
pub open spec fn list_parts(p: ExistingPersonaSnapshot) -> Seq<char> {
    list_part("PrimaryUseCases"@, texts(p.primary_use_cases@)) + list_part(
        "BehavioralPreferences"@,
        texts(p.behavioral_preferences@),
    ) + list_part("BehavioralConstraints"@, texts(p.behavioral_constraints@)) + list_part(
        "LearnedContext"@,
        texts(p.learned_context@),
    ) + list_part("CommunicationAdaptations"@, texts(p.communication_adaptations@)) + list_part(
        "CharacterTraits"@,
        texts(p.character_traits@),
    ) + list_part("RelationshipMilestones"@, texts(p.relationship_milestones@))
}

/// The part of the prompt on the persona as it stands.
pub open spec fn persona_part(p: ExistingPersonaSnapshot) -> Seq<char> {
    if persona_is_empty(p) {
        "\n\n(no Persona state yet — every category is empty)\n\n"@
    } else {
        " (for cross-category dedup and pattern-awareness)\n\n"@ + scalar_parts(p) + list_parts(p)
            + skills_part(p.learned_skills@) + hints_part(texts(p.profile_hints@)) + roles_part(
            texts(p.role_drafts@),
        ) + "\n"@
    }
}

/// What the judge is asked about one turn.
pub open spec fn user_prompt(
    source: ProposalSource,
    turn_summary: Seq<char>,
    persona: ExistingPersonaSnapshot,
) -> Seq<char> {
    turn_part(source, turn_summary) + "\n\n## Current Persona state"@ + persona_part(persona)
        + "Respond with the JudgeResponse JSON now."@
}

fn render_bullet(out: &mut String, item: &str)
    ensures
        final(out)@ == old(out)@ + "  - "@ + item@ + "\n"@,
{
    out.push_str("  - ");
    out.push_str(item);
    out.push_str("\n");
}

fn render_scalar(out: &mut String, label: &str, value: &Option<String>)
    ensures
        final(out)@ == old(out)@ + scalar_part(label@, text_of(*value)),
{
    match value {
        Some(v) => {
            out.push_str("- **");
            out.push_str(label);
            out.push_str("** (scalar): ");
            out.push_str(v.as_str());
            out.push_str("\n");
        },
        None => {},
    }
    assert(out@ =~= old(out)@ + scalar_part(label@, text_of(*value)));
}

/// Appends a category with a list of values, if there are any.
pub fn render_list(out: &mut String, label: &str, items: &Vec<String>)
    ensures
        final(out)@ == old(out)@ + list_part(label@, texts(items@)),
{
    let ghost start = out@;
    if items.len() == 0 {
        assert(out@ =~= start + list_part(label@, texts(items@)));
        return ;
    }
    out.push_str("- **");
    out.push_str(label);
    out.push_str("** (list):\n");
    let ghost head = "- **"@ + label@ + "** (list):\n"@;
    let ghost all = texts(items@);
    assert(out@ =~= start + (head + bullets(all.take(0))));
    let mut i: usize = 0;
    while i < items.len()
        invariant
            i <= items@.len(),
            all == texts(items@),
            out@ == start + (head + bullets(all.take(i as int))),
        decreases items@.len() - i,
    {
        assert(all.take(i + 1).drop_last() =~= all.take(i as int));
        assert(all.take(i + 1).last() == items@[i as int]@);
        render_bullet(out, items[i].as_str());
        assert(out@ =~= start + (head + bullets(all.take(i + 1))));
        i = i + 1;
    }
    assert(all.take(i as int) =~= all);
}

fn render_skills(out: &mut String, skills: &Vec<ExistingSkillSnapshot>)
    ensures
        final(out)@ == old(out)@ + skills_part(skills@),
{
    let ghost start = out@;
    if skills.len() == 0 {
        assert(out@ =~= start + skills_part(skills@));
        return ;
    }
    out.push_str("- **LearnedSkill** (list of named procedures):\n");
    let ghost head = "- **LearnedSkill** (list of named procedures):\n"@;
    let ghost all = skills@;
    assert(out@ =~= start + (head + skill_entries(all.take(0))));
    let mut i: usize = 0;
    while i < skills.len()
        invariant
            i <= skills@.len(),
            all == skills@,
            out@ == start + (head + skill_entries(all.take(i as int))),
        decreases skills@.len() - i,
    {
        assert(all.take(i + 1).drop_last() =~= all.take(i as int));
        assert(all.take(i + 1).last() == skills@[i as int]);
        out.push_str("  - **");
        out.push_str(skills[i].name.as_str());
        out.push_str("** — trigger: ");
        out.push_str(skills[i].trigger.as_str());
        out.push_str("\n    summary: ");
        out.push_str(skills[i].procedure_summary.as_str());
        out.push_str("\n");
        assert(out@ =~= start + (head + skill_entries(all.take(i + 1))));
        i = i + 1;
    }
    assert(all.take(i as int) =~= all);
}

fn render_hints(out: &mut String, blobs: &Vec<String>)
    ensures
        final(out)@ == old(out)@ + hints_part(texts(blobs@)),
{
    let ghost start = out@;
    let ghost all = hint_summaries(texts(blobs@));
    if blobs.len() == 0 {
        assert(out@ =~= start + hints_part(texts(blobs@)));
        return ;
    }
    out.push_str(
        "- **ProfileHint** (Phase 118 — staged Profile-config refinement suggestions):\n",
    );
    let ghost head =
        "- **ProfileHint** (Phase 118 — staged Profile-config refinement suggestions):\n"@;
    assert(out@ =~= start + (head + bullets(all.take(0))));
    let mut i: usize = 0;
    while i < blobs.len()
        invariant
            i <= blobs@.len(),
            all == hint_summaries(texts(blobs@)),
            out@ == start + (head + bullets(all.take(i as int))),
        decreases blobs@.len() - i,
    {
        let summary: String = summarize_profile_hint_blob(blobs[i].as_str());
        assert(all.take(i + 1).drop_last() =~= all.take(i as int));
        assert(all.take(i + 1).last() == summary@);
        render_bullet(out, summary.as_str());
        assert(out@ =~= start + (head + bullets(all.take(i + 1))));
        i = i + 1;
    }
    assert(all.take(i as int) =~= all);
}

fn render_roles(out: &mut String, blobs: &Vec<String>)
    ensures
        final(out)@ == old(out)@ + roles_part(texts(blobs@)),
{
    let ghost start = out@;
    let ghost all = role_summaries(texts(blobs@));
    if blobs.len() == 0 {
        assert(out@ =~= start + roles_part(texts(blobs@)));
        return ;
    }
    out.push_str("- **RoleDefinitionSuggestion** (Phase 118 — staged new-Role drafts):\n");
    let ghost head = "- **RoleDefinitionSuggestion** (Phase 118 — staged new-Role drafts):\n"@;
    assert(out@ =~= start + (head + bullets(all.take(0))));
    let mut i: usize = 0;
    while i < blobs.len()
        invariant
            i <= blobs@.len(),
            all == role_summaries(texts(blobs@)),
            out@ == start + (head + bullets(all.take(i as int))),
        decreases blobs@.len() - i,
    {
        let summary: String = summarize_role_draft_blob(blobs[i].as_str());
        assert(all.take(i + 1).drop_last() =~= all.take(i as int));
        assert(all.take(i + 1).last() == summary@);
        render_bullet(out, summary.as_str());
        assert(out@ =~= start + (head + bullets(all.take(i + 1))));
        i = i + 1;
    }
    assert(all.take(i as int) =~= all);
}

fn render_turn(out: &mut String, source: &ProposalSource, turn_summary: &str)
    ensures
        final(out)@ == old(out)@ + turn_part(*source, turn_summary@),
{
    match source {
        ProposalSource::CompletedTurn => {
            out.push_str("## Completed turn\n\n");
            out.push_str(turn_summary);
        },
        ProposalSource::FailedTurn { kind, summary } => {
            out.push_str("## Failed turn (correction context)\n\n");
            out.push_str("**Failure kind:** `");
            out.push_str(kind.label());
            out.push_str("`\n\n**Failure summary:** ");
            out.push_str(summary.as_str());
            out.push_str("\n\n");
            out.push_str("**Turn narrative:**\n\n");
            out.push_str(turn_summary);
            out.push_str(FAILURE_TASK);
        },
    }
    assert(out@ =~= old(out)@ + turn_part(*source, turn_summary@));
}

fn render_lists(out: &mut String, p: &ExistingPersonaSnapshot)
    ensures
        final(out)@ == old(out)@ + list_parts(*p),
{
    render_list(out, "PrimaryUseCases", &p.primary_use_cases);
    render_list(out, "BehavioralPreferences", &p.behavioral_preferences);
    render_list(out, "BehavioralConstraints", &p.behavioral_constraints);
    render_list(out, "LearnedContext", &p.learned_context);
    render_list(out, "CommunicationAdaptations", &p.communication_adaptations);
    render_list(out, "CharacterTraits", &p.character_traits);
    render_list(out, "RelationshipMilestones", &p.relationship_milestones);
    assert(out@ =~= old(out)@ + list_parts(*p));
}

/// What the judge is asked about one turn: what happened in it, and what the
/// persona already holds.
pub fn build_user_prompt(request: &JudgeRequest<'_>) -> (r: String)
    ensures
        r@ == user_prompt(request.source, request.turn_summary@, *request.existing_persona),
{
    let mut s: String = String::new();
    render_turn(&mut s, &request.source, request.turn_summary);
    assert(s@ =~= turn_part(request.source, request.turn_summary@));
    s.push_str("\n\n## Current Persona state");
    let p: &ExistingPersonaSnapshot = request.existing_persona;
    let ghost head = s@;
    if p.is_empty() {
        s.push_str("\n\n(no Persona state yet — every category is empty)\n\n");
    } else {
        s.push_str(" (for cross-category dedup and pattern-awareness)\n\n");
        let ghost intro = s@;
        render_scalar(&mut s, "AssistantName", &p.assistant_name);
        render_scalar(&mut s, "OperatorProfile", &p.operator_profile);
        render_scalar(&mut s, "CommunicationStyle", &p.communication_style);
        assert(s@ =~= intro + scalar_parts(*p));
        render_lists(&mut s, p);
        render_skills(&mut s, &p.learned_skills);
        render_hints(&mut s, &p.profile_hints);
        render_roles(&mut s, &p.role_drafts);
        s.push_str("\n");
    }
    assert(s@ =~= head + persona_part(*p));
    s.push_str("Respond with the JudgeResponse JSON now.");
    s
}

// ---------------------------------------------------------------------------
// Reading the answer
// ---------------------------------------------------------------------------

/// Where a scan of a text stands: how many more braces were opened than
/// closed, and whether it is inside a quoted string, or behind a backslash
/// there.
pub ghost struct Scan {
    pub depth: int,
    pub in_string: bool,
    pub escape: bool,
}

/// Where every scan starts.
pub open spec fn at_rest() -> Scan {
    Scan { depth: 0, in_string: false, escape: false }
}

/// A scan that goes on over `c`.
pub open spec fn scan_over(s: Scan, c: char) -> Scan {
    if s.in_string {
        if s.escape {
            Scan { escape: false, ..s }
        } else if c == '\\' {
            Scan { escape: true, ..s }
        } else if c == '"' {
            Scan { in_string: false, ..s }
        } else {
            s
        }
    } else if c == '"' {
        Scan { in_string: true, ..s }
    } else if c == '{' {
        Scan { depth: s.depth + 1, ..s }
    } else if c == '}' {
        Scan { depth: s.depth - 1, ..s }
    } else {
        s
    }
}

/// The scan of the characters of `text` from `from` on, before `to`.
pub open spec fn scan(text: Seq<char>, from: int, to: int) -> Scan
    decreases to - from,
{
    if to <= from {
        at_rest()
    } else {
        scan_over(scan(text, from, to - 1), text[to - 1])
    }
}

/// Whether, counting from the start of the text, an outermost object begins at
/// `i`.
pub open spec fn opens_at(text: Seq<char>, i: int) -> bool {
    &&& 0 <= i < text.len()
    &&& text[i] == '{'
    &&& !scan(text, 0, i).in_string
    &&& scan(text, 0, i).depth == 0
}

/// Whether, counting from `from`, an outermost object ends with the character
/// at `j`.
pub open spec fn closes_at(text: Seq<char>, from: int, j: int) -> bool {
    &&& 0 <= j < text.len()
    &&& text[j] == '}'
    &&& !scan(text, from, j).in_string
    &&& scan(text, from, j).depth == 1
}

/// Whether the characters from `i` to `j` are the first outermost object of
/// `text`, braces and quotation marks being counted from its start.
pub open spec fn first_object(text: Seq<char>, i: int, j: int) -> bool {
    &&& opens_at(text, i)
    &&& closes_at(text, 0, j)
    &&& i < j
    &&& forall|k: int| 0 <= k < i ==> !#[trigger] opens_at(text, k)
    &&& forall|k: int| i < k < j ==> !#[trigger] closes_at(text, 0, k)
}

/// Whether the characters from `i` to `j` are a balanced `{...}`, taken by
/// themselves.
pub open spec fn block(text: Seq<char>, i: int, j: int) -> bool {
    &&& 0 <= i < j < text.len()
    &&& text[i] == '{'
    &&& closes_at(text, i, j)
    &&& forall|k: int| i < k < j ==> !#[trigger] closes_at(text, i, k)
}

/// Whether the characters from `i` to `j` are the first balanced `{...}`.
pub open spec fn first_block(text: Seq<char>, i: int, j: int) -> bool {
    &&& block(text, i, j)
    &&& forall|a: int, b: int| a < i ==> !#[trigger] block(text, a, b)
}

/// Whether an answer's object is the one from `i` to `j`: the first outermost
/// one, where the whole text can be counted through to it, and otherwise, what
/// stands before it being out of balance, the first that is balanced by
/// itself.
pub open spec fn answers_at(text: Seq<char>, i: int, j: int) -> bool {
    ||| first_object(text, i, j)
    ||| {
        &&& forall|a: int, b: int| !#[trigger] first_object(text, a, b)
        &&& first_block(text, i, j)
    }
}

/// Looks for the first outermost object, counting from the start.
fn find_object(text: &Vec<char>) -> (r: Option<(usize, usize)>)
    ensures
        match r {
            Some((i, j)) => first_object(text@, i as int, j as int),
            None => forall|i: int, j: int| !#[trigger] first_object(text@, i, j),
        },
{
    let ghost s = text@;
    let mut depth: i128 = 0;
    let mut start: Option<usize> = None;
    let mut in_string: bool = false;
    let mut escape: bool = false;
    let mut i: usize = 0;
    while i < text.len()
        invariant
            i <= text@.len(),
            text@ == s,
            scan(s, 0, i as int) == (Scan { depth: depth as int, in_string, escape }),
            -(i as int) <= depth <= i,
            match start {
                Some(b) => {
                    &&& b < i
                    &&& opens_at(s, b as int)
                    &&& forall|k: int| 0 <= k < b ==> !#[trigger] opens_at(s, k)
                    &&& forall|k: int| b < k < i ==> !#[trigger] closes_at(s, 0, k)
                },
                None => forall|k: int| 0 <= k < i ==> !#[trigger] opens_at(s, k),
            },
            start is Some <==> depth >= 1,
        decreases text@.len() - i,
    {
        let c: char = text[i];
        assert(scan(s, 0, i + 1) == scan_over(scan(s, 0, i as int), c));
        if in_string {
            if escape {
                escape = false;
            } else if c == '\\' {
                escape = true;
            } else if c == '"' {
                in_string = false;
            }
        } else if c == '"' {
            in_string = true;
        } else if c == '{' {
            if depth == 0 {
                start = Some(i);
            }
            depth = depth + 1;
        } else if c == '}' {
            depth = depth - 1;
            if depth == 0 {
                match start {
                    Some(b) => {
                        assert(first_object(s, b as int, i as int));
                        return Some((b, i));
                    },
                    None => {},
                }
            }
        }
        i = i + 1;
    }
    assert forall|b: int, j: int| !#[trigger] first_object(s, b, j) by {
        if first_object(s, b, j) {
            match start {
                Some(f) => {
                    if b < f {
                        assert(!opens_at(s, b));
                    } else if f < b {
                        assert(!opens_at(s, f as int));
                    }
                    assert(!closes_at(s, 0, j));
                },
                None => {
                    assert(!opens_at(s, b));
                },
            }
        }
    }
    None
}

/// Where the balanced `{...}` that begins at `from` ends, if it does.
fn block_end(text: &Vec<char>, from: usize) -> (r: Option<usize>)
    requires
        from < text@.len(),
        text@[from as int] == '{',
    ensures
        match r {
            Some(j) => block(text@, from as int, j as int),
            None => forall|j: int| !#[trigger] block(text@, from as int, j),
        },
{
    let ghost s = text@;
    let len: usize = text.len();
    let mut depth: usize = 1;
    let mut in_string: bool = false;
    let mut escape: bool = false;
    let mut j: usize = from + 1;
    assert(scan(s, from as int, from as int) == at_rest());
    assert(scan(s, from as int, j as int) == scan_over(at_rest(), '{'));
    while j < len
        invariant
            from < j <= len == text@.len(),
            text@ == s,
            s[from as int] == '{',
            scan(s, from as int, j as int) == (Scan { depth: depth as int, in_string, escape }),
            1 <= depth <= j - from,
            forall|k: int| from < k < j ==> !#[trigger] closes_at(s, from as int, k),
        decreases text@.len() - j,
    {
        let c: char = text[j];
        assert(scan(s, from as int, j + 1) == scan_over(scan(s, from as int, j as int), c));
        if in_string {
            if escape {
                escape = false;
            } else if c == '\\' {
                escape = true;
            } else if c == '"' {
                in_string = false;
            }
        } else if c == '"' {
            in_string = true;
        } else if c == '{' {
            depth = depth + 1;
        } else if c == '}' {
            if depth == 1 {
                assert(closes_at(s, from as int, j as int));
                return Some(j);
            }
            depth = depth - 1;
        }
        j = j + 1;
    }
    assert forall|b: int| !#[trigger] block(s, from as int, b) by {
        if block(s, from as int, b) {
            assert(!closes_at(s, from as int, b));
        }
    }
    None
}

/// Looks for the first balanced `{...}`.
fn find_block(text: &Vec<char>) -> (r: Option<(usize, usize)>)
    ensures
        match r {
            Some((i, j)) => first_block(text@, i as int, j as int),
            None => forall|i: int, j: int| !#[trigger] block(text@, i, j),
        },
{
    let mut i: usize = 0;
    while i < text.len()
        invariant
            i <= text@.len(),
            forall|a: int, b: int| a < i ==> !#[trigger] block(text@, a, b),
        decreases text@.len() - i,
    {
        if text[i] == '{' {
            if let Some(j) = block_end(text, i) {
                return Some((i, j));
            }
        }
        i = i + 1;
    }
    None
}

/// The object of an answer, whatever stands before and after it. Braces inside
/// its quoted strings are left out of account.
pub fn extract_first_json_object(s: &str) -> (r: Option<String>)
    ensures
        match r {
            Some(t) => exists|i: int, j: int| #[trigger]
                answers_at(s@, i, j) && t@ == s@.subrange(i, j + 1),
            None => forall|i: int, j: int| !#[trigger] answers_at(s@, i, j),
        },
{
    let text: Vec<char> = chars_of(s);
    match find_object(&text) {
        Some((i, j)) => {
            assert(answers_at(s@, i as int, j as int));
            Some(string_of(&text, i, j + 1))
        },
        None => match find_block(&text) {
            Some((i, j)) => {
                assert(answers_at(s@, i as int, j as int));
                Some(string_of(&text, i, j + 1))
            },
            None => None,
        },
    }
}

proof fn lemma_rest_behind_no_backslash(text: Seq<char>, from: int, to: int)
    ensures
        !scan(text, from, to).in_string ==> !scan(text, from, to).escape,
    decreases to - from,
{
    if to > from {
        lemma_rest_behind_no_backslash(text, from, to - 1);
    }
}

proof fn lemma_scan_from_rest(text: Seq<char>, i: int, k: int)
    requires
        0 <= i <= k,
        scan(text, 0, i) == at_rest(),
    ensures
        scan(text, 0, k) == scan(text, i, k),
    decreases k - i,
{
    if k > i {
        lemma_scan_from_rest(text, i, k - 1);
    }
}

proof fn lemma_object_is_block(text: Seq<char>, i: int, j: int)
    requires
        first_object(text, i, j),
    ensures
        block(text, i, j),
{
    lemma_rest_behind_no_backslash(text, 0, i);
    lemma_scan_from_rest(text, i, j);
    assert forall|k: int| i < k < j implies !#[trigger] closes_at(text, i, k) by {
        lemma_scan_from_rest(text, i, k);
        assert(!closes_at(text, 0, k));
    }
}

proof fn lemma_inside(text: Seq<char>, i: int, j: int, k: int)
    requires
        block(text, i, j),
        i < k <= j,
    ensures
        scan(text, i, k).depth >= 1,
    decreases k,
{
    assert(scan(text, i, k) == scan_over(scan(text, i, k - 1), text[k - 1]));
    if k > i + 1 {
        lemma_inside(text, i, j, k - 1);
        assert(!closes_at(text, i, k - 1));
    } else {
        assert(scan(text, i, i) == at_rest());
    }
}

/// An answer's object starts with its opening brace, ends with its closing
/// one, and everything between is inside it.
pub proof fn law_extracted_object_is_balanced(text: Seq<char>, i: int, j: int)
    requires
        answers_at(text, i, j),
    ensures
        block(text, i, j),
        text.subrange(i, j + 1)[0] == '{',
        text.subrange(i, j + 1).last() == '}',
        forall|k: int| i < k <= j ==> (#[trigger] scan(text, i, k)).depth >= 1,
        scan(text, i, j + 1).depth == 0,
{
    if first_object(text, i, j) {
        lemma_object_is_block(text, i, j);
    }
    assert forall|k: int| i < k <= j implies (#[trigger] scan(text, i, k)).depth >= 1 by {
        lemma_inside(text, i, j, k);
    }
    assert(scan(text, i, j + 1) == scan_over(scan(text, i, j), text[j]));
}

/// An answer's object is one and the same, however it is found.
pub proof fn law_first_object_is_unique(text: Seq<char>, i: int, j: int, k: int, l: int)
    requires
        answers_at(text, i, j),
        answers_at(text, k, l),
    ensures
        i == k,
        j == l,
{
    if first_object(text, i, j) {
        assert(first_object(text, k, l));
        if i < k {
            assert(!opens_at(text, i));
        } else if k < i {
            assert(!opens_at(text, k));
        }
        if j < l {
            assert(!closes_at(text, 0, j));
        } else if l < j {
            assert(!closes_at(text, 0, l));
        }
    } else {
        assert(!first_object(text, k, l));
        if i < k {
            assert(!block(text, i, j));
        } else if k < i {
            assert(!block(text, k, l));
        }
        if j < l {
            assert(!closes_at(text, i, j));
        } else if l < j {
            assert(!closes_at(text, i, l));
        }
    }
}

proof fn lemma_first_block_exists(text: Seq<char>, i: int, j: int)
    requires
        block(text, i, j),
    ensures
        exists|a: int, b: int| #[trigger] first_block(text, a, b),
    decreases i,
{
    if exists|a: int, b: int| a < i && #[trigger] block(text, a, b) {
        let (a, b) = choose|a: int, b: int| a < i && #[trigger] block(text, a, b);
        lemma_first_block_exists(text, a, b);
    } else {
        assert(first_block(text, i, j));
    }
}

/// Wherever a text holds a balanced `{...}`, an object is found in it.
pub proof fn law_a_balanced_block_is_found(text: Seq<char>, i: int, j: int)
    requires
        block(text, i, j),
    ensures
        exists|a: int, b: int| #[trigger] answers_at(text, a, b),
{
    if exists|a: int, b: int| #[trigger] first_object(text, a, b) {
        let (a, b) = choose|a: int, b: int| #[trigger] first_object(text, a, b);
        assert(answers_at(text, a, b));
    } else {
        lemma_first_block_exists(text, i, j);
        let (a, b) = choose|a: int, b: int| #[trigger] first_block(text, a, b);
        assert(answers_at(text, a, b));
    }
}

proof fn lemma_scan_within(preamble: Seq<char>, text: Seq<char>, from: int, to: int)
    requires
        0 <= from <= to <= text.len(),
    ensures
        scan(preamble + text, preamble.len() + from, preamble.len() + to) == scan(text, from, to),
    decreases to - from,
{
    if to > from {
        lemma_scan_within(preamble, text, from, to - 1);
        assert((preamble + text)[preamble.len() + to - 1] == text[to - 1]);
    }
}

proof fn lemma_block_within(preamble: Seq<char>, text: Seq<char>, i: int, j: int)
    requires
        0 <= i,
    ensures
        block(preamble + text, preamble.len() + i, preamble.len() + j) <==> block(text, i, j),
{
    let whole = preamble + text;
    let n = preamble.len() as int;
    assert forall|k: int| i <= k < text.len() implies #[trigger] closes_at(whole, n + i, n + k)
        == closes_at(text, i, k) by {
        lemma_scan_within(preamble, text, i, k);
        assert(whole[n + k] == text[k]);
    }
    if i < text.len() {
        assert(whole[n + i] == text[i]);
    }
    if block(whole, n + i, n + j) {
        assert(closes_at(whole, n + i, n + j) == closes_at(text, i, j));
        assert forall|k: int| i < k < j implies !#[trigger] closes_at(text, i, k) by {
            assert(!closes_at(whole, n + i, n + k));
        }
    }
    if block(text, i, j) {
        assert(closes_at(whole, n + i, n + j) == closes_at(text, i, j));
        assert forall|k: int| n + i < k < n + j implies !#[trigger] closes_at(whole, n + i, k) by {
            assert(closes_at(whole, n + i, n + (k - n)) == closes_at(text, i, k - n));
        }
    }
}

proof fn lemma_first_block_within(preamble: Seq<char>, text: Seq<char>, i: int, j: int)
    requires
        !preamble.contains('{'),
    ensures
        first_block(preamble + text, preamble.len() + i, preamble.len() + j) <==> first_block(
            text,
            i,
            j,
        ),
{
    let whole = preamble + text;
    let n = preamble.len() as int;
    assert forall|a: int, b: int| a < n implies !#[trigger] block(whole, a, b) by {
        if block(whole, a, b) {
            assert(whole[a] == preamble[a]);
        }
    }
    if i >= 0 {
        lemma_block_within(preamble, text, i, j);
    }
    if first_block(whole, n + i, n + j) {
        assert forall|a: int, b: int| a < i implies !#[trigger] block(text, a, b) by {
            if a >= 0 {
                lemma_block_within(preamble, text, a, b);
                assert(!block(whole, n + a, n + b));
            }
        }
    }
    if first_block(text, i, j) {
        assert forall|a: int, b: int| a < n + i implies !#[trigger] block(whole, a, b) by {
            if a >= n {
                lemma_block_within(preamble, text, a - n, b - n);
                assert(!block(text, a - n, b - n));
            }
        }
    }
}

proof fn lemma_scan_across(preamble: Seq<char>, text: Seq<char>, k: int)
    requires
        scan(preamble, 0, preamble.len() as int) == at_rest(),
        0 <= k <= text.len(),
    ensures
        scan(preamble + text, 0, preamble.len() + k) == scan(text, 0, k),
{
    lemma_same_scan(preamble + text, preamble, preamble.len() as int);
    lemma_scan_from_rest(preamble + text, preamble.len() as int, preamble.len() + k);
    lemma_scan_within(preamble, text, 0, k);
}

proof fn lemma_same_scan(one: Seq<char>, other: Seq<char>, k: int)
    requires
        0 <= k <= one.len(),
        k <= other.len(),
        forall|i: int| 0 <= i < k ==> #[trigger] one[i] == other[i],
    ensures
        scan(one, 0, k) == scan(other, 0, k),
    decreases k,
{
    if k > 0 {
        lemma_same_scan(one, other, k - 1);
        assert(one[k - 1] == other[k - 1]);
    }
}

proof fn lemma_first_object_within(preamble: Seq<char>, text: Seq<char>, i: int, j: int)
    requires
        !preamble.contains('{'),
        scan(preamble, 0, preamble.len() as int) == at_rest(),
    ensures
        first_object(preamble + text, preamble.len() + i, preamble.len() + j) <==> first_object(
            text,
            i,
            j,
        ),
{
    let whole = preamble + text;
    let n = preamble.len() as int;
    assert forall|k: int| 0 <= k < text.len() implies {
        &&& #[trigger] opens_at(whole, n + k) == opens_at(text, k)
        &&& closes_at(whole, 0, n + k) == closes_at(text, 0, k)
    } by {
        lemma_scan_across(preamble, text, k);
        assert(whole[n + k] == text[k]);
    }
    assert forall|k: int| 0 <= k < n implies !#[trigger] opens_at(whole, k) by {
        assert(whole[k] == preamble[k]);
    }
    if first_object(whole, n + i, n + j) {
        if i < 0 {
            assert(!opens_at(whole, n + i));
        }
        assert(opens_at(whole, n + i) == opens_at(text, i));
        assert(opens_at(whole, n + j) == opens_at(text, j));
        assert forall|k: int| 0 <= k < i implies !#[trigger] opens_at(text, k) by {
            assert(!opens_at(whole, n + k));
        }
        assert forall|k: int| i < k < j implies !#[trigger] closes_at(text, 0, k) by {
            assert(opens_at(whole, n + k) == opens_at(text, k));
            assert(!closes_at(whole, 0, n + k));
        }
    }
    if first_object(text, i, j) {
        assert(opens_at(whole, n + i) == opens_at(text, i));
        assert(opens_at(whole, n + j) == opens_at(text, j));
        assert forall|k: int| 0 <= k < n + i implies !#[trigger] opens_at(whole, k) by {
            if k >= n {
                assert(opens_at(whole, n + (k - n)) == opens_at(text, k - n));
            }
        }
        assert forall|k: int| n + i < k < n + j implies !#[trigger] closes_at(whole, 0, k) by {
            assert(opens_at(whole, n + (k - n)) == opens_at(text, k - n));
            assert(!closes_at(text, 0, k - n));
        }
    }
}

/// A preamble without an opening brace, whose quotation marks are paired, is
/// skipped: the same object is found behind it.
pub proof fn law_a_preamble_is_skipped(preamble: Seq<char>, text: Seq<char>, i: int, j: int)
    requires
        !preamble.contains('{'),
        scan(preamble, 0, preamble.len() as int) == at_rest(),
    ensures
        answers_at(preamble + text, preamble.len() + i, preamble.len() + j) <==> answers_at(
            text,
            i,
            j,
        ),
{
    let whole = preamble + text;
    let n = preamble.len() as int;
    lemma_first_object_within(preamble, text, i, j);
    lemma_first_block_within(preamble, text, i, j);
    if forall|a: int, b: int| !#[trigger] first_object(whole, a, b) {
        assert forall|a: int, b: int| !#[trigger] first_object(text, a, b) by {
            lemma_first_object_within(preamble, text, a, b);
            assert(!first_object(whole, n + a, n + b));
        }
    }
    if forall|a: int, b: int| !#[trigger] first_object(text, a, b) {
        assert forall|a: int, b: int| !#[trigger] first_object(whole, a, b) by {
            lemma_first_object_within(preamble, text, a - n, b - n);
            assert(!first_object(text, a - n, b - n));
        }
    }
}

/// A stray quotation mark or closing brace in a preamble hides nothing: where
/// the count goes wrong by it and finds no object, the balanced `{...}` that
/// follows is found by itself.
pub proof fn law_a_stray_mark_hides_nothing(preamble: Seq<char>, text: Seq<char>, j: int)
    requires
        !preamble.contains('{'),
        block(text, 0, j),
        forall|a: int, b: int| !#[trigger] first_object(preamble + text, a, b),
    ensures
        answers_at(preamble + text, preamble.len() as int, preamble.len() + j),
{
    lemma_first_block_within(preamble, text, 0, j);
    assert(first_block(text, 0, j));
}

/// Whether the float with the bit pattern `bits` is between zero and one.
/// Negative zero is.
pub open spec fn in_unit_range(bits: u32) -> bool {
    bits <= 0x3F80_0000 || bits == 0x8000_0000
}

/// Whether the model's answer can be used: it holds an object, that stands for an
/// answer, and its confidence lies between zero and one.
pub open spec fn is_usable(raw: Seq<char>, decoded: Option<JudgeResponse>) -> bool {
    &&& exists|i: int, j: int| answers_at(raw, i, j)
    &&& decoded matches Some(d) && in_unit_range(d.confidence)
}

/// Makes the judge's answer out of the model's: `decoded` is what the object
/// that [`extract_first_json_object`] finds in `raw` stands for, if it stands
/// for an answer at all.
pub fn parse_judge_response(raw: &str, decoded: Option<JudgeResponse>) -> (r: Result<
    JudgeResponse,
    JudgeError,
>)
    ensures
        r is Ok <==> is_usable(raw@, decoded),
        match r {
            Ok(response) => {
                &&& exists|i: int, j: int| answers_at(raw@, i, j)
                &&& decoded == Some(response)
                &&& in_unit_range(response.confidence)
            },
            Err(JudgeError::ParseFailure { raw: text }) => {
                &&& text@ == raw@
                &&& decoded is None || forall|i: int, j: int| !answers_at(raw@, i, j)
            },
            Err(JudgeError::ConfidenceOutOfRange(bits)) => {
                &&& exists|i: int, j: int| answers_at(raw@, i, j)
                &&& decoded matches Some(d) && d.confidence == bits && !in_unit_range(bits)
            },
            Err(JudgeError::Provider(_)) => false,
        },
{
    if extract_first_json_object(raw).is_none() {
        return Err(JudgeError::ParseFailure { raw: raw.to_owned() });
    }
    match decoded {
        None => Err(JudgeError::ParseFailure { raw: raw.to_owned() }),
        Some(response) => {
            let bits: u32 = response.confidence;
            if bits <= 0x3F80_0000 || bits == 0x8000_0000 {
                Ok(response)
            } else {
                Err(JudgeError::ConfidenceOutOfRange(bits))
            }
        },
    }
}

/// How the model ended its answer to the judge's request.
#[derive(Debug, PartialEq, Eq)]
pub enum JudgeReply {
    FinalMessage(String),
    ToolCalls,
}

/// The text of the model's answer. Asking for a tool is no answer.
pub fn judge_reply_text(reply: JudgeReply) -> (r: Result<String, JudgeError>)
    ensures
        match reply {
            JudgeReply::FinalMessage(text) => r == Ok::<String, JudgeError>(text),
            JudgeReply::ToolCalls => r matches Err(JudgeError::ParseFailure { raw }) && raw@
                == "judge emitted ToolCalls instead of FinalMessage"@,
        },
{
    match reply {
        JudgeReply::FinalMessage(text) => Ok(text),
        JudgeReply::ToolCalls => Err(
            JudgeError::ParseFailure {
                raw: "judge emitted ToolCalls instead of FinalMessage".to_owned(),
            },
        ),
    }
}

/// How freely the judge answers: the temperature 0.2, by its bit pattern.
pub const JUDGE_TEMPERATURE: u32 = 0x3E4C_CCCD;

/// The request that puts a turn to the judge: one user message, no tools.
#[derive(Debug, PartialEq, Eq)]
pub struct JudgeCall {
    pub model: String,
    pub system: String,
    pub user: String,
    pub max_tokens: u32,
    pub temperature: u32,
}

/// What a [`JudgeCall`] stands for.
pub ghost struct JudgeCallView {
    pub model: Seq<char>,
    pub system: Seq<char>,
    pub user: Seq<char>,
    pub max_tokens: u32,
    pub temperature: u32,
}

impl View for JudgeCall {
    type V = JudgeCallView;

    open spec fn view(&self) -> JudgeCallView {
        JudgeCallView {
            model: self.model@,
            system: self.system@,
            user: self.user@,
            max_tokens: self.max_tokens,
            temperature: self.temperature,
        }
    }
}

/// The request that puts a turn to the judge.
pub open spec fn call_for(request: JudgeRequest<'_>) -> JudgeCallView {
    JudgeCallView {
        model: request.model@,
        system: JUDGE_SYSTEM_PROMPT@,
        user: user_prompt(request.source, request.turn_summary@, *request.existing_persona),
        max_tokens: request.max_tokens,
        temperature: JUDGE_TEMPERATURE,
    }
}

/// The request that puts a turn to the judge.
pub fn judge_call(request: &JudgeRequest<'_>) -> (r: JudgeCall)
    ensures
        r@ == call_for(*request),
        r.model@ == request.model@,
        r.system@ == JUDGE_SYSTEM_PROMPT@,
        r.user@ == user_prompt(request.source, request.turn_summary@, *request.existing_persona),
        r.max_tokens == request.max_tokens,
        r.temperature == JUDGE_TEMPERATURE,
{
    JudgeCall {
        model: request.model.to_owned(),
        system: build_system_prompt(),
        user: build_user_prompt(request),
        max_tokens: request.max_tokens,
        temperature: JUDGE_TEMPERATURE,
    }
}

} // verus!
