//! What the judge's prompt promises: whatever the persona holds stands in it,
//! under the heading of its own category.

use vstd::prelude::*;
use crate::planner::text_of;
use crate::skill_proposer::judge::{
    answers_at,
    block,
    bullets,
    call_for,
    cut,
    draft_name,
    failure_label,
    field_label,
    hint_summary,
    hints_part,
    in_unit_range,
    is_usable,
    law_a_balanced_block_is_found,
    law_extracted_object_is_balanced,
    list_part,
    list_parts,
    persona_is_empty,
    persona_part,
    role_summary,
    roles_part,
    scalar_part,
    scalar_parts,
    skill_entries,
    skills_part,
    shortened,
    string_member,
    string_members,
    turn_part,
    user_prompt,
    ExistingPersonaSnapshot,
    ExistingSkillSnapshot,
    FailureKind,
    JudgeRequest,
    JudgeResponse,
    ProfileField,
    ProposalSource,
    ProposedDraft,
    FAILURE_TASK,
    JUDGE_SYSTEM_PROMPT,
};
use crate::text::{begins_with, occurs, occurs_at, texts};

verus! {

/// Whether `part` stands in `prompt`, and the next part, or the end of the
/// persona, right behind it.
pub open spec fn stands_in(prompt: Seq<char>, part: Seq<char>) -> bool {
    exists|i: int| #[trigger]
        occurs_at(prompt, part, i) && (begins_with(prompt.skip(i + part.len()), "- **"@)
            || begins_with(prompt.skip(i + part.len()), "\n"@))
}

/// Whether `prompt` has the heading of a list, and under it one bullet for each
/// of `items`, in their order and nothing else.
pub open spec fn lists_just(prompt: Seq<char>, category: Seq<char>, items: Seq<Seq<char>>) -> bool {
    stands_in(
        prompt,
        "- **"@ + category + "** (list):\n"@ + items.map_values(
            |item: Seq<char>| "  - "@ + item + "\n"@,
        ).flatten(),
    )
}

/// Whether no text has a line break in it.
pub open spec fn one_line_each(items: Seq<Seq<char>>) -> bool {
    forall|i: int, k: int|
        0 <= i < items.len() && 0 <= k < items[i].len() ==> #[trigger] items[i][k] != '\n'
}

// ---------------------------------------------------------------------------
// The prompt, taken apart
// ---------------------------------------------------------------------------

#[verifier::opaque]
spec fn parts_of(p: ExistingPersonaSnapshot) -> Seq<Seq<char>> {
    seq![
        scalar_part("AssistantName"@, text_of(p.assistant_name)),
        scalar_part("OperatorProfile"@, text_of(p.operator_profile)),
        scalar_part("CommunicationStyle"@, text_of(p.communication_style)),
        list_part("PrimaryUseCases"@, texts(p.primary_use_cases@)),
        list_part("BehavioralPreferences"@, texts(p.behavioral_preferences@)),
        list_part("BehavioralConstraints"@, texts(p.behavioral_constraints@)),
        list_part("LearnedContext"@, texts(p.learned_context@)),
        list_part("CommunicationAdaptations"@, texts(p.communication_adaptations@)),
        list_part("CharacterTraits"@, texts(p.character_traits@)),
        list_part("RelationshipMilestones"@, texts(p.relationship_milestones@)),
        skills_part(p.learned_skills@),
        hints_part(texts(p.profile_hints@)),
        roles_part(texts(p.role_drafts@)),
    ]
}

proof fn lemma_parts(p: ExistingPersonaSnapshot)
    ensures
        parts_of(p).len() == 13,
        parts_of(p)[0] == scalar_part("AssistantName"@, text_of(p.assistant_name)),
        parts_of(p)[1] == scalar_part("OperatorProfile"@, text_of(p.operator_profile)),
        parts_of(p)[2] == scalar_part("CommunicationStyle"@, text_of(p.communication_style)),
        parts_of(p)[3] == list_part("PrimaryUseCases"@, texts(p.primary_use_cases@)),
        parts_of(p)[4] == list_part("BehavioralPreferences"@, texts(p.behavioral_preferences@)),
        parts_of(p)[5] == list_part("BehavioralConstraints"@, texts(p.behavioral_constraints@)),
        parts_of(p)[6] == list_part("LearnedContext"@, texts(p.learned_context@)),
        parts_of(p)[7] == list_part("CommunicationAdaptations"@, texts(p.communication_adaptations@)),
        parts_of(p)[8] == list_part("CharacterTraits"@, texts(p.character_traits@)),
        parts_of(p)[9] == list_part("RelationshipMilestones"@, texts(p.relationship_milestones@)),
        parts_of(p)[10] == skills_part(p.learned_skills@),
        parts_of(p)[11] == hints_part(texts(p.profile_hints@)),
        parts_of(p)[12] == roles_part(texts(p.role_drafts@)),
{
    reveal(parts_of);
}

spec fn before(head: Seq<char>, parts: Seq<Seq<char>>, k: int) -> Seq<char>
    decreases k,
{
    if k <= 0 {
        head
    } else {
        before(head, parts, k - 1) + parts[k - 1]
    }
}

spec fn behind(parts: Seq<Seq<char>>, k: int, tail: Seq<char>) -> Seq<char>
    decreases parts.len() - k,
{
    if k >= parts.len() {
        tail
    } else {
        parts[k] + behind(parts, k + 1, tail)
    }
}

spec fn head_of(source: ProposalSource, turn_summary: Seq<char>) -> Seq<char> {
    turn_part(source, turn_summary) + "\n\n## Current Persona state"@
        + " (for cross-category dedup and pattern-awareness)\n\n"@
}

spec fn tail_text() -> Seq<char> {
    "\n"@ + "Respond with the JudgeResponse JSON now."@
}

proof fn lemma_assoc(a: Seq<char>, b: Seq<char>, c: Seq<char>)
    ensures
        (a + b) + c == a + (b + c),
{
    assert((a + b) + c =~= a + (b + c));
}

proof fn lemma_split_at(head: Seq<char>, parts: Seq<Seq<char>>, k: int, tail: Seq<char>)
    requires
        0 <= k <= parts.len(),
    ensures
        before(head, parts, k) + behind(parts, k, tail) == before(head, parts, parts.len() as int)
            + tail,
    decreases parts.len() - k,
{
    if k < parts.len() {
        lemma_split_at(head, parts, k + 1, tail);
        lemma_assoc(before(head, parts, k), parts[k], behind(parts, k + 1, tail));
    }
}

proof fn lemma_prompt_of_parts(
    source: ProposalSource,
    turn_summary: Seq<char>,
    p: ExistingPersonaSnapshot,
)
    requires
        !persona_is_empty(p),
    ensures
        user_prompt(source, turn_summary, p) == before(
            head_of(source, turn_summary),
            parts_of(p),
            13,
        ) + tail_text(),
        parts_of(p).len() == 13,
{
    let parts = parts_of(p);
    let head = head_of(source, turn_summary);
    let intro = turn_part(source, turn_summary) + "\n\n## Current Persona state"@;
    let lead = " (for cross-category dedup and pattern-awareness)\n\n"@;
    lemma_parts(p);
    reveal_with_fuel(before, 14);
    let three = before(head, parts, 3);
    let ten = before(head, parts, 10);
    lemma_three(head, parts[0], parts[1], parts[2]);
    assert(three == head + scalar_parts(p));
    lemma_seven(three, parts[3], parts[4], parts[5], parts[6], parts[7], parts[8], parts[9]);
    assert(ten == three + list_parts(p));
    let s = skills_part(p.learned_skills@);
    let h = hints_part(texts(p.profile_hints@));
    let r = roles_part(texts(p.role_drafts@));
    let all = before(head, parts, 13);
    assert(all == ten + s + h + r);
    let inner = lead + scalar_parts(p) + list_parts(p) + s + h + r;
    lemma_assoc(intro, lead, scalar_parts(p));
    lemma_assoc(intro, lead + scalar_parts(p), list_parts(p));
    lemma_three(intro, lead + scalar_parts(p) + list_parts(p), s, h);
    lemma_assoc(intro, lead + scalar_parts(p) + list_parts(p) + s + h, r);
    assert(all == intro + inner);
    assert(persona_part(p) == inner + "\n"@);
    lemma_assoc(intro, inner, "\n"@);
    lemma_assoc(intro + inner, "\n"@, "Respond with the JudgeResponse JSON now."@);
}

proof fn lemma_three(h: Seq<char>, a: Seq<char>, b: Seq<char>, c: Seq<char>)
    ensures
        h + a + b + c == h + (a + b + c),
{
    lemma_assoc(h, a, b);
    lemma_assoc(h, a + b, c);
}

proof fn lemma_seven(
    h: Seq<char>,
    a: Seq<char>,
    b: Seq<char>,
    c: Seq<char>,
    d: Seq<char>,
    e: Seq<char>,
    f: Seq<char>,
    g: Seq<char>,
)
    ensures
        h + a + b + c + d + e + f + g == h + (a + b + c + d + e + f + g),
{
    lemma_three(h, a, b, c);
    lemma_three(h, a + b + c, d, e);
    lemma_three(h, a + b + c + d + e, f, g);
}

proof fn lemma_part_in_place(
    source: ProposalSource,
    turn_summary: Seq<char>,
    p: ExistingPersonaSnapshot,
    k: int,
)
    requires
        !persona_is_empty(p),
        0 <= k < 13,
    ensures
        ({
            let prompt = user_prompt(source, turn_summary, p);
            let i = before(head_of(source, turn_summary), parts_of(p), k).len() as int;
            let part = parts_of(p)[k];
            &&& occurs_at(prompt, part, i)
            &&& prompt.skip(i + part.len()) == behind(parts_of(p), k + 1, tail_text())
            &&& stands_in(prompt, part)
        }),
{
    let prompt = user_prompt(source, turn_summary, p);
    let parts = parts_of(p);
    let a = before(head_of(source, turn_summary), parts, k);
    let part = parts[k];
    let b = behind(parts, k + 1, tail_text());
    lemma_prompt_of_parts(source, turn_summary, p);
    lemma_split_at(head_of(source, turn_summary), parts, k, tail_text());
    lemma_assoc(a, part, b);
    assert(prompt == a + (part + b));
    let i = a.len() as int;
    assert(prompt.subrange(i, i + part.len()) =~= part);
    assert(prompt.skip(i + part.len()) =~= b);
    lemma_parts_start_alike(p, k + 1);
    assert(occurs_at(prompt, part, i));
}

proof fn lemma_starts(s: Seq<char>, rest: Seq<char>)
    ensures
        begins_with("- **"@ + s + rest, "- **"@),
        begins_with("- **"@ + (s + rest), "- **"@),
{
    let whole = "- **"@ + s + rest;
    assert(whole.subrange(0, "- **"@.len() as int) =~= "- **"@);
    assert("- **"@ + (s + rest) =~= whole);
}

proof fn lemma_headings()
    ensures
        begins_with("- **LearnedSkill** (list of named procedures):\n"@, "- **"@),
        begins_with(
            "- **ProfileHint** (Phase 118 — staged Profile-config refinement suggestions):\n"@,
            "- **"@,
        ),
        begins_with(
            "- **RoleDefinitionSuggestion** (Phase 118 — staged new-Role drafts):\n"@,
            "- **"@,
        ),
{
    reveal_strlit("- **");
    reveal_strlit("- **LearnedSkill** (list of named procedures):\n");
    reveal_strlit(
        "- **ProfileHint** (Phase 118 — staged Profile-config refinement suggestions):\n",
    );
    reveal_strlit("- **RoleDefinitionSuggestion** (Phase 118 — staged new-Role drafts):\n");
    assert("- **LearnedSkill** (list of named procedures):\n"@.subrange(0, 4) =~= "- **"@);
    assert("- **ProfileHint** (Phase 118 — staged Profile-config refinement suggestions):\n"@.subrange(
        0,
        4,
    ) =~= "- **"@);
    assert("- **RoleDefinitionSuggestion** (Phase 118 — staged new-Role drafts):\n"@.subrange(0, 4)
        =~= "- **"@);
}

proof fn lemma_longer_starts_too(s: Seq<char>, more: Seq<char>)
    requires
        begins_with(s, "- **"@),
    ensures
        begins_with(s + more, "- **"@),
{
    let n = "- **"@.len() as int;
    assert((s + more).subrange(0, n) =~= s.subrange(0, n));
}

proof fn lemma_part_starts(p: ExistingPersonaSnapshot, k: int)
    requires
        0 <= k < 13,
    ensures
        parts_of(p)[k].len() == 0 || begins_with(parts_of(p)[k], "- **"@),
{
    lemma_parts(p);
    let part = parts_of(p)[k];
    lemma_headings();
    if k == 0 {
        if let Some(v) = text_of(p.assistant_name) {
            lemma_starts("AssistantName"@, "** (scalar): "@ + v + "\n"@);
            assert(part =~= "- **"@ + "AssistantName"@ + ("** (scalar): "@ + v + "\n"@));
        }
    }
    if k == 1 {
        if let Some(v) = text_of(p.operator_profile) {
            lemma_starts("OperatorProfile"@, "** (scalar): "@ + v + "\n"@);
            assert(part =~= "- **"@ + "OperatorProfile"@ + ("** (scalar): "@ + v + "\n"@));
        }
    }
    if k == 2 {
        if let Some(v) = text_of(p.communication_style) {
            lemma_starts("CommunicationStyle"@, "** (scalar): "@ + v + "\n"@);
            assert(part =~= "- **"@ + "CommunicationStyle"@ + ("** (scalar): "@ + v + "\n"@));
        }
    }
    if k == 3 {
        let items = texts(p.primary_use_cases@);
        lemma_starts("PrimaryUseCases"@, "** (list):\n"@ + bullets(items));
        if items.len() > 0 {
            assert(part =~= "- **"@ + "PrimaryUseCases"@ + ("** (list):\n"@ + bullets(items)));
        }
    }
    if k == 4 {
        let items = texts(p.behavioral_preferences@);
        lemma_starts("BehavioralPreferences"@, "** (list):\n"@ + bullets(items));
        if items.len() > 0 {
            assert(part =~= "- **"@ + "BehavioralPreferences"@ + ("** (list):\n"@ + bullets(items)));
        }
    }
    if k == 5 {
        let items = texts(p.behavioral_constraints@);
        lemma_starts("BehavioralConstraints"@, "** (list):\n"@ + bullets(items));
        if items.len() > 0 {
            assert(part =~= "- **"@ + "BehavioralConstraints"@ + ("** (list):\n"@ + bullets(items)));
        }
    }
    if k == 6 {
        let items = texts(p.learned_context@);
        lemma_starts("LearnedContext"@, "** (list):\n"@ + bullets(items));
        if items.len() > 0 {
            assert(part =~= "- **"@ + "LearnedContext"@ + ("** (list):\n"@ + bullets(items)));
        }
    }
    if k == 7 {
        let items = texts(p.communication_adaptations@);
        lemma_starts("CommunicationAdaptations"@, "** (list):\n"@ + bullets(items));
        if items.len() > 0 {
            assert(part =~= "- **"@ + "CommunicationAdaptations"@ + ("** (list):\n"@ + bullets(items)));
        }
    }
    if k == 8 {
        let items = texts(p.character_traits@);
        lemma_starts("CharacterTraits"@, "** (list):\n"@ + bullets(items));
        if items.len() > 0 {
            assert(part =~= "- **"@ + "CharacterTraits"@ + ("** (list):\n"@ + bullets(items)));
        }
    }
    if k == 9 {
        let items = texts(p.relationship_milestones@);
        lemma_starts("RelationshipMilestones"@, "** (list):\n"@ + bullets(items));
        if items.len() > 0 {
            assert(part =~= "- **"@ + "RelationshipMilestones"@ + ("** (list):\n"@ + bullets(items)));
        }
    }
    if k == 10 && p.learned_skills@.len() > 0 {
        lemma_longer_starts_too(
            "- **LearnedSkill** (list of named procedures):\n"@,
            skill_entries(p.learned_skills@),
        );
    }
    if k == 11 && p.profile_hints@.len() > 0 {
        lemma_longer_starts_too(
            "- **ProfileHint** (Phase 118 — staged Profile-config refinement suggestions):\n"@,
            bullets(crate::skill_proposer::judge::hint_summaries(texts(p.profile_hints@))),
        );
    }
    if k == 12 && p.role_drafts@.len() > 0 {
        lemma_longer_starts_too(
            "- **RoleDefinitionSuggestion** (Phase 118 — staged new-Role drafts):\n"@,
            bullets(crate::skill_proposer::judge::role_summaries(texts(p.role_drafts@))),
        );
    }
}

proof fn lemma_parts_start_alike(p: ExistingPersonaSnapshot, k: int)
    requires
        0 <= k <= 13,
    ensures
        begins_with(behind(parts_of(p), k, tail_text()), "- **"@) || begins_with(
            behind(parts_of(p), k, tail_text()),
            "\n"@,
        ),
    decreases 13 - k,
{
    let parts = parts_of(p);
    lemma_parts(p);
    if k < 13 {
        let rest = behind(parts, k + 1, tail_text());
        lemma_parts_start_alike(p, k + 1);
        lemma_part_starts(p, k);
        if parts[k].len() == 0 {
            assert(parts[k] + rest =~= rest);
        } else {
            lemma_longer_starts_too(parts[k], rest);
        }
    } else {
        assert(tail_text().subrange(0, "\n"@.len() as int) =~= "\n"@);
    }
}

proof fn lemma_bullets_are_lines(items: Seq<Seq<char>>)
    ensures
        bullets(items) == items.map_values(
            |item: Seq<char>| "  - "@ + item + "\n"@,
        ).flatten(),
    decreases items.len(),
{
    let line = |item: Seq<char>| "  - "@ + item + "\n"@;
    if items.len() > 0 {
        let rest = items.drop_last();
        lemma_bullets_are_lines(rest);
        assert(items.map_values(line) =~= rest.map_values(line).push(line(items.last())));
        rest.map_values(line).lemma_flatten_push(line(items.last()));
        assert(bullets(items) =~= bullets(rest) + line(items.last()));
    } else {
        assert(items.map_values(line) =~= Seq::<Seq<char>>::empty());
        assert(bullets(items) =~= items.map_values(line).flatten());
    }
}

// ---------------------------------------------------------------------------
// What stands in the prompt
// ---------------------------------------------------------------------------

/// Every entry of each of the persona's lists stands in the prompt as a bullet
/// under its own category's heading, in the list's order, and nothing else
/// stands there.
pub proof fn law_every_list_is_shown(
    source: ProposalSource,
    turn_summary: Seq<char>,
    p: ExistingPersonaSnapshot,
)
    ensures
        ({
            let prompt = user_prompt(source, turn_summary, p);
            &&& p.primary_use_cases@.len() > 0 ==> lists_just(
                prompt,
                "PrimaryUseCases"@,
                texts(p.primary_use_cases@),
            )
            &&& p.behavioral_preferences@.len() > 0 ==> lists_just(
                prompt,
                "BehavioralPreferences"@,
                texts(p.behavioral_preferences@),
            )
            &&& p.behavioral_constraints@.len() > 0 ==> lists_just(
                prompt,
                "BehavioralConstraints"@,
                texts(p.behavioral_constraints@),
            )
            &&& p.learned_context@.len() > 0 ==> lists_just(
                prompt,
                "LearnedContext"@,
                texts(p.learned_context@),
            )
            &&& p.communication_adaptations@.len() > 0 ==> lists_just(
                prompt,
                "CommunicationAdaptations"@,
                texts(p.communication_adaptations@),
            )
            &&& p.character_traits@.len() > 0 ==> lists_just(
                prompt,
                "CharacterTraits"@,
                texts(p.character_traits@),
            )
            &&& p.relationship_milestones@.len() > 0 ==> lists_just(
                prompt,
                "RelationshipMilestones"@,
                texts(p.relationship_milestones@),
            )
        }),
{
    if p.primary_use_cases@.len() > 0 {
        lemma_parts(p);
        lemma_list_is_shown(source, turn_summary, p, 3, "PrimaryUseCases"@, texts(p.primary_use_cases@));
    }
    if p.behavioral_preferences@.len() > 0 {
        lemma_parts(p);
        lemma_list_is_shown(source, turn_summary, p, 4, "BehavioralPreferences"@, texts(p.behavioral_preferences@));
    }
    if p.behavioral_constraints@.len() > 0 {
        lemma_parts(p);
        lemma_list_is_shown(source, turn_summary, p, 5, "BehavioralConstraints"@, texts(p.behavioral_constraints@));
    }
    if p.learned_context@.len() > 0 {
        lemma_parts(p);
        lemma_list_is_shown(source, turn_summary, p, 6, "LearnedContext"@, texts(p.learned_context@));
    }
    if p.communication_adaptations@.len() > 0 {
        lemma_parts(p);
        lemma_list_is_shown(source, turn_summary, p, 7, "CommunicationAdaptations"@, texts(p.communication_adaptations@));
    }
    if p.character_traits@.len() > 0 {
        lemma_parts(p);
        lemma_list_is_shown(source, turn_summary, p, 8, "CharacterTraits"@, texts(p.character_traits@));
    }
    if p.relationship_milestones@.len() > 0 {
        lemma_parts(p);
        lemma_list_is_shown(source, turn_summary, p, 9, "RelationshipMilestones"@, texts(p.relationship_milestones@));
    }
}

proof fn lemma_list_is_shown(
    source: ProposalSource,
    turn_summary: Seq<char>,
    p: ExistingPersonaSnapshot,
    k: int,
    category: Seq<char>,
    items: Seq<Seq<char>>,
)
    requires
        !persona_is_empty(p),
        0 <= k < 13,
        items.len() > 0,
        parts_of(p)[k] == list_part(category, items),
    ensures
        lists_just(user_prompt(source, turn_summary, p), category, items),
{
    lemma_part_in_place(source, turn_summary, p, k);
    lemma_bullets_are_lines(items);
}

/// Each of the persona's single values stands in the prompt under its own
/// category.
pub proof fn law_every_single_value_is_shown(
    source: ProposalSource,
    turn_summary: Seq<char>,
    p: ExistingPersonaSnapshot,
)
    ensures
        ({
            let prompt = user_prompt(source, turn_summary, p);
            &&& p.assistant_name matches Some(value) ==> stands_in(
                prompt,
                "- **"@ + "AssistantName"@ + "** (scalar): "@ + value@ + "\n"@,
            )
            &&& p.operator_profile matches Some(value) ==> stands_in(
                prompt,
                "- **"@ + "OperatorProfile"@ + "** (scalar): "@ + value@ + "\n"@,
            )
            &&& p.communication_style matches Some(value) ==> stands_in(
                prompt,
                "- **"@ + "CommunicationStyle"@ + "** (scalar): "@ + value@ + "\n"@,
            )
        }),
{
    if p.assistant_name is Some {
        lemma_parts(p);
        lemma_part_in_place(source, turn_summary, p, 0);
    }
    if p.operator_profile is Some {
        lemma_parts(p);
        lemma_part_in_place(source, turn_summary, p, 1);
    }
    if p.communication_style is Some {
        lemma_parts(p);
        lemma_part_in_place(source, turn_summary, p, 2);
    }
}

/// Every approved skill stands in the prompt with its name, its trigger and the
/// start of its procedure; every staged hint and every staged role stands there
/// with its summary; each under the heading of its category.
pub proof fn law_every_skill_hint_and_role_is_shown(
    source: ProposalSource,
    turn_summary: Seq<char>,
    p: ExistingPersonaSnapshot,
)
    ensures
        ({
            let prompt = user_prompt(source, turn_summary, p);
            &&& p.learned_skills@.len() > 0 ==> stands_in(
                prompt,
                "- **LearnedSkill** (list of named procedures):\n"@ + p.learned_skills@.map_values(
                    |s: ExistingSkillSnapshot|
                        "  - **"@ + s.name@ + "** — trigger: "@ + s.trigger@ + "\n    summary: "@
                            + s.procedure_summary@ + "\n"@,
                ).flatten(),
            )
            &&& p.profile_hints@.len() > 0 ==> stands_in(
                prompt,
                "- **ProfileHint** (Phase 118 — staged Profile-config refinement suggestions):\n"@
                    + p.profile_hints@.map_values(
                    |b: String| "  - "@ + hint_summary(b@, string_members(b@)) + "\n"@,
                ).flatten(),
            )
            &&& p.role_drafts@.len() > 0 ==> stands_in(
                prompt,
                "- **RoleDefinitionSuggestion** (Phase 118 — staged new-Role drafts):\n"@
                    + p.role_drafts@.map_values(
                    |b: String| "  - "@ + role_summary(b@, string_members(b@)) + "\n"@,
                ).flatten(),
            )
        }),
{
    if p.learned_skills@.len() > 0 {
        lemma_part_in_place(source, turn_summary, p, 10);
        lemma_parts(p);
        lemma_skills_are_lines(p.learned_skills@);
    }
    if p.profile_hints@.len() > 0 {
        let shown = crate::skill_proposer::judge::hint_summaries(texts(p.profile_hints@));
        let line = |item: Seq<char>| "  - "@ + item + "\n"@;
        lemma_part_in_place(source, turn_summary, p, 11);
        lemma_parts(p);
        lemma_bullets_are_lines(shown);
        assert(shown.map_values(line) =~= p.profile_hints@.map_values(
            |b: String| "  - "@ + hint_summary(b@, string_members(b@)) + "\n"@,
        ));
    }
    if p.role_drafts@.len() > 0 {
        let shown = crate::skill_proposer::judge::role_summaries(texts(p.role_drafts@));
        let line = |item: Seq<char>| "  - "@ + item + "\n"@;
        lemma_part_in_place(source, turn_summary, p, 12);
        lemma_parts(p);
        lemma_bullets_are_lines(shown);
        assert(shown.map_values(line) =~= p.role_drafts@.map_values(
            |b: String| "  - "@ + role_summary(b@, string_members(b@)) + "\n"@,
        ));
    }
}

proof fn lemma_skills_are_lines(skills: Seq<ExistingSkillSnapshot>)
    ensures
        skill_entries(skills) == skills.map_values(
            |s: ExistingSkillSnapshot|
                "  - **"@ + s.name@ + "** — trigger: "@ + s.trigger@ + "\n    summary: "@
                    + s.procedure_summary@ + "\n"@,
        ).flatten(),
    decreases skills.len(),
{
    let entry = |s: ExistingSkillSnapshot|
        "  - **"@ + s.name@ + "** — trigger: "@ + s.trigger@ + "\n    summary: "@
            + s.procedure_summary@ + "\n"@;
    if skills.len() > 0 {
        let rest = skills.drop_last();
        lemma_skills_are_lines(rest);
        assert(skills.map_values(entry) =~= rest.map_values(entry).push(entry(skills.last())));
        rest.map_values(entry).lemma_flatten_push(entry(skills.last()));
        assert(skill_entries(skills) =~= skill_entries(rest) + entry(skills.last()));
    } else {
        assert(skills.map_values(entry) =~= Seq::<Seq<char>>::empty());
        assert(skill_entries(skills) =~= skills.map_values(entry).flatten());
    }
}

/// The prompt starts with what happened: the turn's own summary and, of a turn
/// that failed, how and why it did. It ends with the request for an answer.
pub proof fn law_the_turn_comes_first(
    source: ProposalSource,
    turn_summary: Seq<char>,
    p: ExistingPersonaSnapshot,
)
    ensures
        ({
            let prompt = user_prompt(source, turn_summary, p);
            &&& match source {
                ProposalSource::CompletedTurn => begins_with(
                    prompt,
                    "## Completed turn\n\n"@ + turn_summary + "\n\n## Current Persona state"@,
                ),
                ProposalSource::FailedTurn { kind, summary } => begins_with(
                    prompt,
                    "## Failed turn (correction context)\n\n"@ + "**Failure kind:** `"@ + (
                    match kind {
                        FailureKind::Failed => "failed"@,
                        FailureKind::TimedOut => "timed_out"@,
                        FailureKind::Cancelled => "cancelled"@,
                        FailureKind::Escalated => "escalated"@,
                    }) + "`\n\n**Failure summary:** "@ + summary@ + "\n\n"@
                        + "**Turn narrative:**\n\n"@ + turn_summary + FAILURE_TASK@
                        + "\n\n## Current Persona state"@,
                ),
            }
            &&& "Respond with the JudgeResponse JSON now."@.is_suffix_of(prompt)
            &&& persona_is_empty(p) ==> occurs(
                prompt,
                "(no Persona state yet — every category is empty)"@,
            )
        }),
{
    let prompt = user_prompt(source, turn_summary, p);
    let last = "Respond with the JudgeResponse JSON now."@;
    assert(last =~= prompt.skip(prompt.len() - last.len()));
    match source {
        ProposalSource::CompletedTurn => {
            let start = "## Completed turn\n\n"@ + turn_summary + "\n\n## Current Persona state"@;
            assert(prompt.subrange(0, start.len() as int) =~= start);
        },
        ProposalSource::FailedTurn { kind, summary } => {
            let start = "## Failed turn (correction context)\n\n"@ + "**Failure kind:** `"@
                + failure_label(kind) + "`\n\n**Failure summary:** "@ + summary@ + "\n\n"@
                + "**Turn narrative:**\n\n"@ + turn_summary + FAILURE_TASK@
                + "\n\n## Current Persona state"@;
            assert(prompt.subrange(0, start.len() as int) =~= start);
        },
    }
    if persona_is_empty(p) {
        let note = "(no Persona state yet — every category is empty)"@;
        let part = "\n\n(no Persona state yet — every category is empty)\n\n"@;
        reveal_strlit("(no Persona state yet — every category is empty)");
        reveal_strlit("\n\n(no Persona state yet — every category is empty)\n\n");
        assert(part.subrange(2, part.len() - 2) =~= note);
        let at = 2 + turn_part(source, turn_summary).len() as int + "\n\n## Current Persona state"@.len();
        assert(prompt.subrange(at, at + note.len()) =~= note);
        assert(occurs_at(prompt, note, at));
    }
}

// ---------------------------------------------------------------------------
// What tells two prompts apart
// ---------------------------------------------------------------------------

proof fn lemma_before_alike(head: Seq<char>, a: Seq<Seq<char>>, b: Seq<Seq<char>>, k: int)
    requires
        forall|i: int| 0 <= i < k ==> a[i] == b[i],
    ensures
        before(head, a, k) == before(head, b, k),
    decreases k,
{
    if k > 0 {
        lemma_before_alike(head, a, b, k - 1);
    }
}

proof fn lemma_behind_alike(a: Seq<Seq<char>>, b: Seq<Seq<char>>, k: int, tail: Seq<char>)
    requires
        a.len() == b.len(),
        forall|i: int| k <= i < a.len() ==> a[i] == b[i],
    ensures
        behind(a, k, tail) == behind(b, k, tail),
    decreases a.len() - k,
{
    if k < a.len() {
        lemma_behind_alike(a, b, k + 1, tail);
    }
}

proof fn lemma_empty_differs(
    source: ProposalSource,
    turn_summary: Seq<char>,
    p: ExistingPersonaSnapshot,
    q: ExistingPersonaSnapshot,
)
    requires
        persona_is_empty(p),
        !persona_is_empty(q),
    ensures
        user_prompt(source, turn_summary, p) != user_prompt(source, turn_summary, q),
{
    let n = turn_part(source, turn_summary).len() + "\n\n## Current Persona state"@.len();
    reveal_strlit("\n\n(no Persona state yet — every category is empty)\n\n");
    reveal_strlit(" (for cross-category dedup and pattern-awareness)\n\n");
    assert(user_prompt(source, turn_summary, p)[n as int] == persona_part(p)[0]);
    assert(user_prompt(source, turn_summary, q)[n as int] == persona_part(q)[0]);
}

proof fn lemma_one_part_tells(
    source: ProposalSource,
    turn_summary: Seq<char>,
    p: ExistingPersonaSnapshot,
    q: ExistingPersonaSnapshot,
    k: int,
)
    requires
        user_prompt(source, turn_summary, p) == user_prompt(source, turn_summary, q),
        0 <= k < 13,
        forall|i: int| 0 <= i < 13 && i != k ==> parts_of(p)[i] == parts_of(q)[i],
    ensures
        parts_of(p)[k] == parts_of(q)[k],
{
    let prompt = user_prompt(source, turn_summary, p);
    let a = parts_of(p);
    let b = parts_of(q);
    if persona_is_empty(p) && !persona_is_empty(q) {
        lemma_empty_differs(source, turn_summary, p, q);
    }
    if persona_is_empty(q) && !persona_is_empty(p) {
        lemma_empty_differs(source, turn_summary, q, p);
    }
    if !persona_is_empty(p) {
        let head = head_of(source, turn_summary);
        lemma_part_in_place(source, turn_summary, p, k);
        lemma_part_in_place(source, turn_summary, q, k);
        lemma_prompt_of_parts(source, turn_summary, p);
        lemma_prompt_of_parts(source, turn_summary, q);
        lemma_before_alike(head, a, b, k);
        lemma_behind_alike(a, b, k + 1, tail_text());
        let i = before(head, a, k).len() as int;
        assert(prompt.skip(i + a[k].len()).len() == prompt.skip(i + b[k].len()).len());
        assert(a[k] == prompt.subrange(i, i + a[k].len()));
        assert(b[k] == prompt.subrange(i, i + b[k].len()));
    } else {
        lemma_parts(p);
        lemma_parts(q);
        assert(a[k] =~= b[k]);
    }
}

proof fn lemma_bullets_end(items: Seq<Seq<char>>)
    ensures
        items.len() > 0 ==> bullets(items).len() > 0 && bullets(items).last() == '\n',
{
    reveal_strlit("\n");
}

proof fn lemma_bullets_tell(a: Seq<Seq<char>>, b: Seq<Seq<char>>)
    requires
        bullets(a) == bullets(b),
        one_line_each(a),
        one_line_each(b),
    ensures
        a == b,
    decreases a.len(),
{
    reveal_strlit("\n");
    reveal_strlit("  - ");
    lemma_bullets_end(a);
    lemma_bullets_end(b);
    if a.len() > 0 && b.len() > 0 {
        let all = bullets(a);
        let x = bullets(a.drop_last());
        let y = bullets(b.drop_last());
        lemma_bullets_end(a.drop_last());
        lemma_bullets_end(b.drop_last());
        let s = a.last();
        let t = b.last();
        assert(all == x + "  - "@ + s + "\n"@);
        assert(all == y + "  - "@ + t + "\n"@);
        assert(a[a.len() - 1] == s && b[b.len() - 1] == t);
        if x.len() < y.len() {
            let k = y.len() - 1;
            assert(all[k] == '\n');
            if k < x.len() + 4 {
                assert(all[k] == "  - "@[k - x.len()]);
            } else {
                assert(all[k] == a[a.len() - 1][k - x.len() - 4]);
            }
        }
        if y.len() < x.len() {
            let k = x.len() - 1;
            assert(all[k] == '\n');
            if k < y.len() + 4 {
                assert(all[k] == "  - "@[k - y.len()]);
            } else {
                assert(all[k] == b[b.len() - 1][k - y.len() - 4]);
            }
        }
        assert(x =~= all.take(x.len() as int));
        assert(y =~= all.take(x.len() as int));
        assert(s =~= all.subrange(x.len() as int + 4, all.len() - 1));
        assert(t =~= all.subrange(x.len() as int + 4, all.len() - 1));
        assert(one_line_each(a.drop_last())) by {
            assert forall|i: int, k: int|
                0 <= i < a.drop_last().len() && 0 <= k < a.drop_last()[i].len() implies #[trigger] a.drop_last()[i][k]
                != '\n' by {
                assert(a[i][k] != '\n');
            }
        }
        assert(one_line_each(b.drop_last())) by {
            assert forall|i: int, k: int|
                0 <= i < b.drop_last().len() && 0 <= k < b.drop_last()[i].len() implies #[trigger] b.drop_last()[i][k]
                != '\n' by {
                assert(b[i][k] != '\n');
            }
        }
        lemma_bullets_tell(a.drop_last(), b.drop_last());
        assert(a =~= a.drop_last().push(s));
        assert(b =~= b.drop_last().push(t));
    } else {
        assert(a =~= b);
    }
}

proof fn lemma_list_part_tells(category: Seq<char>, a: Seq<Seq<char>>, b: Seq<Seq<char>>)
    requires
        list_part(category, a) == list_part(category, b),
        one_line_each(a),
        one_line_each(b),
    ensures
        a == b,
{
    reveal_strlit("- **");
    let head = "- **"@ + category + "** (list):\n"@;
    if a.len() > 0 && b.len() > 0 {
        assert(bullets(a) =~= list_part(category, a).skip(head.len() as int));
        assert(bullets(b) =~= list_part(category, b).skip(head.len() as int));
        lemma_bullets_tell(a, b);
    } else {
        if a.len() > 0 {
            assert(list_part(category, a).len() >= 4);
        }
        if b.len() > 0 {
            assert(list_part(category, b).len() >= 4);
        }
        assert(a =~= b);
    }
}

proof fn lemma_primary_use_cases_tell(
    source: ProposalSource,
    turn_summary: Seq<char>,
    p: ExistingPersonaSnapshot,
    q: ExistingPersonaSnapshot,
)
    requires
        user_prompt(source, turn_summary, p) == user_prompt(source, turn_summary, q),
        q == (ExistingPersonaSnapshot { primary_use_cases: q.primary_use_cases, ..p }),
        one_line_each(texts(p.primary_use_cases@)),
        one_line_each(texts(q.primary_use_cases@)),
    ensures
        texts(p.primary_use_cases@) == texts(q.primary_use_cases@),
{
    lemma_parts(p);
    lemma_parts(q);
    lemma_one_part_tells(source, turn_summary, p, q, 3);
    lemma_list_part_tells("PrimaryUseCases"@, texts(p.primary_use_cases@), texts(q.primary_use_cases@));
}

proof fn lemma_behavioral_preferences_tell(
    source: ProposalSource,
    turn_summary: Seq<char>,
    p: ExistingPersonaSnapshot,
    q: ExistingPersonaSnapshot,
)
    requires
        user_prompt(source, turn_summary, p) == user_prompt(source, turn_summary, q),
        q == (ExistingPersonaSnapshot { behavioral_preferences: q.behavioral_preferences, ..p }),
        one_line_each(texts(p.behavioral_preferences@)),
        one_line_each(texts(q.behavioral_preferences@)),
    ensures
        texts(p.behavioral_preferences@) == texts(q.behavioral_preferences@),
{
    lemma_parts(p);
    lemma_parts(q);
    lemma_one_part_tells(source, turn_summary, p, q, 4);
    lemma_list_part_tells("BehavioralPreferences"@, texts(p.behavioral_preferences@), texts(q.behavioral_preferences@));
}

proof fn lemma_behavioral_constraints_tell(
    source: ProposalSource,
    turn_summary: Seq<char>,
    p: ExistingPersonaSnapshot,
    q: ExistingPersonaSnapshot,
)
    requires
        user_prompt(source, turn_summary, p) == user_prompt(source, turn_summary, q),
        q == (ExistingPersonaSnapshot { behavioral_constraints: q.behavioral_constraints, ..p }),
        one_line_each(texts(p.behavioral_constraints@)),
        one_line_each(texts(q.behavioral_constraints@)),
    ensures
        texts(p.behavioral_constraints@) == texts(q.behavioral_constraints@),
{
    lemma_parts(p);
    lemma_parts(q);
    lemma_one_part_tells(source, turn_summary, p, q, 5);
    lemma_list_part_tells("BehavioralConstraints"@, texts(p.behavioral_constraints@), texts(q.behavioral_constraints@));
}

proof fn lemma_learned_context_tell(
    source: ProposalSource,
    turn_summary: Seq<char>,
    p: ExistingPersonaSnapshot,
    q: ExistingPersonaSnapshot,
)
    requires
        user_prompt(source, turn_summary, p) == user_prompt(source, turn_summary, q),
        q == (ExistingPersonaSnapshot { learned_context: q.learned_context, ..p }),
        one_line_each(texts(p.learned_context@)),
        one_line_each(texts(q.learned_context@)),
    ensures
        texts(p.learned_context@) == texts(q.learned_context@),
{
    lemma_parts(p);
    lemma_parts(q);
    lemma_one_part_tells(source, turn_summary, p, q, 6);
    lemma_list_part_tells("LearnedContext"@, texts(p.learned_context@), texts(q.learned_context@));
}

proof fn lemma_communication_adaptations_tell(
    source: ProposalSource,
    turn_summary: Seq<char>,
    p: ExistingPersonaSnapshot,
    q: ExistingPersonaSnapshot,
)
    requires
        user_prompt(source, turn_summary, p) == user_prompt(source, turn_summary, q),
        q == (ExistingPersonaSnapshot { communication_adaptations: q.communication_adaptations, ..p }),
        one_line_each(texts(p.communication_adaptations@)),
        one_line_each(texts(q.communication_adaptations@)),
    ensures
        texts(p.communication_adaptations@) == texts(q.communication_adaptations@),
{
    lemma_parts(p);
    lemma_parts(q);
    lemma_one_part_tells(source, turn_summary, p, q, 7);
    lemma_list_part_tells("CommunicationAdaptations"@, texts(p.communication_adaptations@), texts(q.communication_adaptations@));
}

proof fn lemma_character_traits_tell(
    source: ProposalSource,
    turn_summary: Seq<char>,
    p: ExistingPersonaSnapshot,
    q: ExistingPersonaSnapshot,
)
    requires
        user_prompt(source, turn_summary, p) == user_prompt(source, turn_summary, q),
        q == (ExistingPersonaSnapshot { character_traits: q.character_traits, ..p }),
        one_line_each(texts(p.character_traits@)),
        one_line_each(texts(q.character_traits@)),
    ensures
        texts(p.character_traits@) == texts(q.character_traits@),
{
    lemma_parts(p);
    lemma_parts(q);
    lemma_one_part_tells(source, turn_summary, p, q, 8);
    lemma_list_part_tells("CharacterTraits"@, texts(p.character_traits@), texts(q.character_traits@));
}

proof fn lemma_relationship_milestones_tell(
    source: ProposalSource,
    turn_summary: Seq<char>,
    p: ExistingPersonaSnapshot,
    q: ExistingPersonaSnapshot,
)
    requires
        user_prompt(source, turn_summary, p) == user_prompt(source, turn_summary, q),
        q == (ExistingPersonaSnapshot { relationship_milestones: q.relationship_milestones, ..p }),
        one_line_each(texts(p.relationship_milestones@)),
        one_line_each(texts(q.relationship_milestones@)),
    ensures
        texts(p.relationship_milestones@) == texts(q.relationship_milestones@),
{
    lemma_parts(p);
    lemma_parts(q);
    lemma_one_part_tells(source, turn_summary, p, q, 9);
    lemma_list_part_tells("RelationshipMilestones"@, texts(p.relationship_milestones@), texts(q.relationship_milestones@));
}

/// Two personas that differ in one list alone are never asked about in the same
/// words, as long as the entries of that list are single lines.
pub proof fn law_each_list_tells_personas_apart(
    source: ProposalSource,
    turn_summary: Seq<char>,
    p: ExistingPersonaSnapshot,
    q: ExistingPersonaSnapshot,
)
    requires
        user_prompt(source, turn_summary, p) == user_prompt(source, turn_summary, q),
    ensures
        q == (ExistingPersonaSnapshot { primary_use_cases: q.primary_use_cases, ..p }) && one_line_each(
            texts(p.primary_use_cases@),
        ) && one_line_each(texts(q.primary_use_cases@)) ==> texts(p.primary_use_cases@) == texts(
            q.primary_use_cases@,
        ),
        q == (ExistingPersonaSnapshot { behavioral_preferences: q.behavioral_preferences, ..p }) && one_line_each(
            texts(p.behavioral_preferences@),
        ) && one_line_each(texts(q.behavioral_preferences@)) ==> texts(p.behavioral_preferences@) == texts(
            q.behavioral_preferences@,
        ),
        q == (ExistingPersonaSnapshot { behavioral_constraints: q.behavioral_constraints, ..p }) && one_line_each(
            texts(p.behavioral_constraints@),
        ) && one_line_each(texts(q.behavioral_constraints@)) ==> texts(p.behavioral_constraints@) == texts(
            q.behavioral_constraints@,
        ),
        q == (ExistingPersonaSnapshot { learned_context: q.learned_context, ..p }) && one_line_each(
            texts(p.learned_context@),
        ) && one_line_each(texts(q.learned_context@)) ==> texts(p.learned_context@) == texts(
            q.learned_context@,
        ),
        q == (ExistingPersonaSnapshot { communication_adaptations: q.communication_adaptations, ..p }) && one_line_each(
            texts(p.communication_adaptations@),
        ) && one_line_each(texts(q.communication_adaptations@)) ==> texts(p.communication_adaptations@) == texts(
            q.communication_adaptations@,
        ),
        q == (ExistingPersonaSnapshot { character_traits: q.character_traits, ..p }) && one_line_each(
            texts(p.character_traits@),
        ) && one_line_each(texts(q.character_traits@)) ==> texts(p.character_traits@) == texts(
            q.character_traits@,
        ),
        q == (ExistingPersonaSnapshot { relationship_milestones: q.relationship_milestones, ..p }) && one_line_each(
            texts(p.relationship_milestones@),
        ) && one_line_each(texts(q.relationship_milestones@)) ==> texts(p.relationship_milestones@) == texts(
            q.relationship_milestones@,
        ),
{
    if q == (ExistingPersonaSnapshot { primary_use_cases: q.primary_use_cases, ..p }) && one_line_each(
        texts(p.primary_use_cases@),
    ) && one_line_each(texts(q.primary_use_cases@)) {
        lemma_primary_use_cases_tell(source, turn_summary, p, q);
    }
    if q == (ExistingPersonaSnapshot { behavioral_preferences: q.behavioral_preferences, ..p }) && one_line_each(
        texts(p.behavioral_preferences@),
    ) && one_line_each(texts(q.behavioral_preferences@)) {
        lemma_behavioral_preferences_tell(source, turn_summary, p, q);
    }
    if q == (ExistingPersonaSnapshot { behavioral_constraints: q.behavioral_constraints, ..p }) && one_line_each(
        texts(p.behavioral_constraints@),
    ) && one_line_each(texts(q.behavioral_constraints@)) {
        lemma_behavioral_constraints_tell(source, turn_summary, p, q);
    }
    if q == (ExistingPersonaSnapshot { learned_context: q.learned_context, ..p }) && one_line_each(
        texts(p.learned_context@),
    ) && one_line_each(texts(q.learned_context@)) {
        lemma_learned_context_tell(source, turn_summary, p, q);
    }
    if q == (ExistingPersonaSnapshot { communication_adaptations: q.communication_adaptations, ..p }) && one_line_each(
        texts(p.communication_adaptations@),
    ) && one_line_each(texts(q.communication_adaptations@)) {
        lemma_communication_adaptations_tell(source, turn_summary, p, q);
    }
    if q == (ExistingPersonaSnapshot { character_traits: q.character_traits, ..p }) && one_line_each(
        texts(p.character_traits@),
    ) && one_line_each(texts(q.character_traits@)) {
        lemma_character_traits_tell(source, turn_summary, p, q);
    }
    if q == (ExistingPersonaSnapshot { relationship_milestones: q.relationship_milestones, ..p }) && one_line_each(
        texts(p.relationship_milestones@),
    ) && one_line_each(texts(q.relationship_milestones@)) {
        lemma_relationship_milestones_tell(source, turn_summary, p, q);
    }
}

/// Two personas that differ in one of the single values alone are never asked
/// about in the same words.
pub proof fn law_each_single_value_tells_personas_apart(
    source: ProposalSource,
    turn_summary: Seq<char>,
    p: ExistingPersonaSnapshot,
    q: ExistingPersonaSnapshot,
)
    requires
        user_prompt(source, turn_summary, p) == user_prompt(source, turn_summary, q),
    ensures
        q == (ExistingPersonaSnapshot { assistant_name: q.assistant_name, ..p }) ==> text_of(p.assistant_name)
            == text_of(q.assistant_name),
        q == (ExistingPersonaSnapshot { operator_profile: q.operator_profile, ..p }) ==> text_of(p.operator_profile)
            == text_of(q.operator_profile),
        q == (ExistingPersonaSnapshot { communication_style: q.communication_style, ..p }) ==> text_of(p.communication_style)
            == text_of(q.communication_style),
{
    if q == (ExistingPersonaSnapshot { assistant_name: q.assistant_name, ..p }) {
        lemma_parts(p);
        lemma_parts(q);
        lemma_one_part_tells(source, turn_summary, p, q, 0);
        lemma_scalar_part_tells("AssistantName"@, text_of(p.assistant_name), text_of(q.assistant_name));
    }
    if q == (ExistingPersonaSnapshot { operator_profile: q.operator_profile, ..p }) {
        lemma_parts(p);
        lemma_parts(q);
        lemma_one_part_tells(source, turn_summary, p, q, 1);
        lemma_scalar_part_tells("OperatorProfile"@, text_of(p.operator_profile), text_of(q.operator_profile));
    }
    if q == (ExistingPersonaSnapshot { communication_style: q.communication_style, ..p }) {
        lemma_parts(p);
        lemma_parts(q);
        lemma_one_part_tells(source, turn_summary, p, q, 2);
        lemma_scalar_part_tells("CommunicationStyle"@, text_of(p.communication_style), text_of(q.communication_style));
    }
}

proof fn lemma_scalar_part_tells(category: Seq<char>, a: Option<Seq<char>>, b: Option<Seq<char>>)
    requires
        scalar_part(category, a) == scalar_part(category, b),
    ensures
        a == b,
{
    reveal_strlit("- **");
    reveal_strlit("\n");
    let head = "- **"@ + category + "** (scalar): "@;
    if a is Some {
        assert(scalar_part(category, a).len() >= 4);
    }
    if b is Some {
        assert(scalar_part(category, b).len() >= 4);
    }
    if a is Some && b is Some {
        let all = scalar_part(category, a);
        assert(a->0 =~= all.subrange(head.len() as int, all.len() - 1));
        assert(b->0 =~= all.subrange(head.len() as int, all.len() - 1));
    }
}

// ---------------------------------------------------------------------------
// Names and summaries
// ---------------------------------------------------------------------------

/// A text of no more characters than there is room for is shown as it is; of a
/// longer one just as many are shown, with an ellipsis behind them where that is
/// wanted.
pub proof fn law_long_texts_are_cut(s: Seq<char>, max: nat)
    ensures
        s.len() <= max ==> shortened(s, max) == s && cut(s, max) == s,
        s.len() > max ==> shortened(s, max) == s.take(max as int) + seq!['…'] && cut(s, max)
            == s.take(max as int),
{
    if s.len() > max {
        assert(shortened(s, max) =~= s.take(max as int) + seq!['…']);
    }
}

/// A proposal is called by its name where it has one, and otherwise by what it
/// proposes: the value, or the field and the value, up to 80 characters of it.
pub proof fn law_what_a_proposal_is_called(d: ProposedDraft)
    ensures
        match d {
            ProposedDraft::LearnedSkill { name, .. } => draft_name(d) == name@,
            ProposedDraft::RoleDefinitionSuggestion { name, .. } => draft_name(d) == name@,
            ProposedDraft::ListAppend { value } => {
                &&& value@.len() <= 80 ==> draft_name(d) == value@
                &&& value@.len() > 80 ==> draft_name(d) == value@.take(80).push('…')
            },
            ProposedDraft::ScalarSet { value } => {
                &&& value@.len() <= 80 ==> draft_name(d) == value@
                &&& value@.len() > 80 ==> draft_name(d) == value@.take(80).push('…')
            },
            ProposedDraft::ProfileHint { field, suggested_value, .. } => {
                let whole = field_label(field) + "="@ + suggested_value@;
                &&& whole.len() <= 80 ==> draft_name(d) == whole
                &&& whole.len() > 80 ==> draft_name(d) == whole.take(80).push('…')
            },
        },
{
}

/// No two kinds of failure and no two fields of the profile have the same name.
pub proof fn law_names_tell_kinds_apart(
    one: FailureKind,
    other: FailureKind,
    field: ProfileField,
    another: ProfileField,
)
    ensures
        failure_label(one) == failure_label(other) ==> one == other,
        field_label(field) == field_label(another) ==> field == another,
{
    reveal_strlit("failed");
    reveal_strlit("timed_out");
    reveal_strlit("cancelled");
    reveal_strlit("escalated");
    assert("failed"@.len() != "timed_out"@.len());
    assert("failed"@.len() != "cancelled"@.len());
    assert("failed"@.len() != "escalated"@.len());
    assert("timed_out"@[0] != "cancelled"@[0]);
    assert("timed_out"@[0] != "escalated"@[0]);
    assert("cancelled"@[0] != "escalated"@[0]);
    reveal_strlit("assistant_name");
    reveal_strlit("operator_profile");
    reveal_strlit("communication_style");
    reveal_strlit("primary_use_cases");
    reveal_strlit("behavioral_preferences");
    reveal_strlit("behavioral_constraints");
    assert("assistant_name"@.len() != "operator_profile"@.len());
    assert("assistant_name"@.len() != "communication_style"@.len());
    assert("assistant_name"@.len() != "primary_use_cases"@.len());
    assert("assistant_name"@.len() != "behavioral_preferences"@.len());
    assert("assistant_name"@.len() != "behavioral_constraints"@.len());
    assert("operator_profile"@.len() != "communication_style"@.len());
    assert("operator_profile"@.len() != "primary_use_cases"@.len());
    assert("operator_profile"@.len() != "behavioral_preferences"@.len());
    assert("operator_profile"@.len() != "behavioral_constraints"@.len());
    assert("communication_style"@.len() != "primary_use_cases"@.len());
    assert("communication_style"@.len() != "behavioral_preferences"@.len());
    assert("communication_style"@.len() != "behavioral_constraints"@.len());
    assert("primary_use_cases"@.len() != "behavioral_preferences"@.len());
    assert("primary_use_cases"@.len() != "behavioral_constraints"@.len());
    assert("behavioral_preferences"@[11] != "behavioral_constraints"@[11]);
}

/// The string under a name is that of the first member of the name, where it is
/// a string.
pub proof fn law_the_first_member_counts(
    m: Seq<(Seq<char>, Option<Seq<char>>)>,
    key: Seq<char>,
    i: int,
)
    requires
        0 <= i < m.len() ==> m[i].0 == key,
        0 <= i <= m.len(),
        forall|j: int| 0 <= j < i ==> (#[trigger] m[j]).0 != key,
    ensures
        i < m.len() ==> string_member(m, key) == m[i].1,
        i == m.len() ==> string_member(m, key) is None,
    decreases m.len(),
{
    if i > 0 {
        let rest = m.drop_first();
        assert(m[0].0 != key);
        assert forall|j: int| 0 <= j < i - 1 implies (#[trigger] rest[j]).0 != key by {
            assert(m[j + 1].0 != key);
        }
        law_the_first_member_counts(rest, key, i - 1);
    }
}

/// A staged hint is shown by the field it is about and the value it suggests, up
/// to 60 characters of it; a staged role by its name and the role it builds on,
/// where it names one; what is not JSON by its first 80 characters.
pub proof fn law_what_is_shown_of_a_staged_entry(
    blob: Seq<char>,
    m: Seq<(Seq<char>, Option<Seq<char>>)>,
)
    ensures
        ({
            let field = match string_member(m, "field"@) {
                Some(s) => s,
                None => "?"@,
            };
            let value = match string_member(m, "suggested_value"@) {
                Some(s) => s,
                None => Seq::empty(),
            };
            let name = match string_member(m, "name"@) {
                Some(s) => s,
                None => "?"@,
            };
            &&& hint_summary(blob, Some(m)) == "`"@ + field + "` → \""@ + (if value.len() <= 60 {
                value
            } else {
                value.take(60).push('…')
            }) + "\""@
            &&& role_summary(blob, Some(m)) == match string_member(m, "parent"@) {
                Some(parent) => "`"@ + name + "`"@ + (" (parent: `"@ + parent + "`)"@),
                None => "`"@ + name + "`"@ + Seq::<char>::empty(),
            }
            &&& hint_summary(blob, None) == (if blob.len() <= 80 {
                blob
            } else {
                blob.take(80)
            })
            &&& role_summary(blob, None) == (if blob.len() <= 80 {
                blob
            } else {
                blob.take(80)
            })
        }),
{
}

/// A confidence can be used where it lies between zero and one, both included:
/// of the numbers without a sign, which are ordered as their bit patterns are,
/// those up to the pattern of one, and of those with a sign zero alone.
pub proof fn law_a_confidence_lies_between_zero_and_one(bits: u32)
    ensures
        bits < 0x8000_0000 ==> (in_unit_range(bits) <==> bits <= 0x3F80_0000),
        bits >= 0x8000_0000 ==> (in_unit_range(bits) <==> bits == 0x8000_0000),
{
}

/// A turn is put to the judge with the model and the limit that were asked for,
/// under the judge's own instructions, and with a prompt about this turn and
/// this persona.
pub proof fn law_a_turn_is_put_to_the_judge(request: JudgeRequest<'_>)
    ensures
        ({
            let c = call_for(request);
            &&& c.model == request.model@
            &&& c.max_tokens == request.max_tokens
            &&& c.system == JUDGE_SYSTEM_PROMPT@
            &&& c.temperature == 0x3E4C_CCCD
            &&& c.user == user_prompt(
                request.source,
                request.turn_summary@,
                *request.existing_persona,
            )
        }),
{
}

/// An answer can be used exactly where there is a balanced `{...}` in it, that
/// stands for an answer, and the confidence of that lies between zero and one.
pub proof fn law_which_answers_can_be_used(raw: Seq<char>, decoded: Option<JudgeResponse>)
    ensures
        is_usable(raw, decoded) <==> (exists|i: int, j: int| #[trigger] block(raw, i, j)) && (
        decoded matches Some(d) && (d.confidence <= 0x3F80_0000 || d.confidence == 0x8000_0000)),
{
    if exists|i: int, j: int| #[trigger] block(raw, i, j) {
        let (i, j) = choose|i: int, j: int| #[trigger] block(raw, i, j);
        law_a_balanced_block_is_found(raw, i, j);
    }
    if exists|i: int, j: int| answers_at(raw, i, j) {
        let (i, j) = choose|i: int, j: int| answers_at(raw, i, j);
        law_extracted_object_is_balanced(raw, i, j);
    }
}

} // verus!
