use aivyx::skill_proposer::judge::{
    build_system_prompt,
    build_user_prompt,
    extract_first_json_object,
    judge_call,
    judge_reply_text,
    parse_judge_response,
    profile_hint_summary,
    role_draft_summary,
    summarize_profile_hint_blob,
    summarize_role_draft_blob,
    ExistingPersonaSnapshot,
    ExistingSkillSnapshot,
    FailureKind,
    JudgeError,
    JudgeReply,
    JudgeRequest,
    JudgeResponse,
    ProfileField,
    ProposalSource,
    ProposedDraft,
};

fn empty_persona() -> ExistingPersonaSnapshot {
    ExistingPersonaSnapshot::default()
}

fn text_at(v: &serde_json::Value, key: &str) -> Option<String> {
    v.get(key)?.as_str().map(|s| s.to_string())
}

fn decode_field(name: &str) -> Option<ProfileField> {
    match name {
        "AssistantName" => Some(ProfileField::AssistantName),
        "OperatorProfile" => Some(ProfileField::OperatorProfile),
        "CommunicationStyle" => Some(ProfileField::CommunicationStyle),
        "PrimaryUseCases" => Some(ProfileField::PrimaryUseCases),
        "BehavioralPreferences" => Some(ProfileField::BehavioralPreferences),
        "BehavioralConstraints" => Some(ProfileField::BehavioralConstraints),
        _ => None,
    }
}

fn decode_draft(v: &serde_json::Value) -> Option<ProposedDraft> {
    match v.get("kind")?.as_str()? {
        "LearnedSkill" => Some(ProposedDraft::LearnedSkill {
            name: text_at(v, "name")?,
            trigger: text_at(v, "trigger")?,
            procedure: text_at(v, "procedure")?,
        }),
        "ListAppend" => Some(ProposedDraft::ListAppend { value: text_at(v, "value")? }),
        "ScalarSet" => Some(ProposedDraft::ScalarSet { value: text_at(v, "value")? }),
        "ProfileHint" => Some(ProposedDraft::ProfileHint {
            field: decode_field(v.get("field")?.as_str()?)?,
            suggested_value: text_at(v, "suggested_value")?,
            rationale: text_at(v, "rationale")?,
        }),
        "RoleDefinitionSuggestion" => Some(ProposedDraft::RoleDefinitionSuggestion {
            name: text_at(v, "name")?,
            parent: text_at(v, "parent"),
            system_prompt_addendum: text_at(v, "system_prompt_addendum")?,
            tool_allowlist_additions: v
                .get("tool_allowlist_additions")?
                .as_array()?
                .iter()
                .filter_map(|i| i.as_str().map(|s| s.to_string()))
                .collect(),
            rationale: text_at(v, "rationale")?,
        }),
        _ => None,
    }
}

fn decode(text: &str) -> Option<JudgeResponse> {
    let v: serde_json::Value = serde_json::from_str(text).ok()?;
    let draft = match v.get("proposed_draft") {
        None => None,
        Some(d) if d.is_null() => None,
        Some(d) => Some(decode_draft(d)?),
    };
    Some(JudgeResponse {
        is_worth_proposing: v.get("is_worth_proposing")?.as_bool()?,
        confidence: (v.get("confidence")?.as_f64()? as f32).to_bits(),
        category: text_at(&v, "category"),
        proposed_draft: draft,
        is_duplicate_of: text_at(&v, "is_duplicate_of"),
        reasoning: text_at(&v, "reasoning"),
    })
}

fn parse(raw: &str) -> Result<JudgeResponse, JudgeError> {
    let decoded = extract_first_json_object(raw).and_then(|object| decode(&object));
    parse_judge_response(raw, decoded)
}

#[test]
fn system_prompt_includes_the_schema_and_criteria() {
    let p = build_system_prompt();
    assert!(p.contains("is_worth_proposing"));
    assert!(p.contains("confidence"));
    assert!(p.contains("category"));
    assert!(p.contains("proposed_draft"));
    assert!(p.contains("is_duplicate_of"));
    assert!(p.contains("reasoning"));
    assert!(p.contains("JSON only"));
}

#[test]
fn system_prompt_lists_all_thirteen_categories() {
    let p = build_system_prompt();
    for cat in [
        "LearnedSkill",
        "BehavioralPreferences",
        "BehavioralConstraints",
        "LearnedContext",
        "CommunicationAdaptations",
        "CharacterTraits",
        "RelationshipMilestones",
        "PrimaryUseCases",
        "AssistantName",
        "OperatorProfile",
        "CommunicationStyle",
        "ProfileHint",
        "RoleDefinitionSuggestion",
    ] {
        assert!(p.contains(cat), "system prompt missing category {cat}");
    }
}

#[test]
fn system_prompt_lists_all_five_draft_kinds() {
    let p = build_system_prompt();
    for kind in [
        "LearnedSkill",
        "ListAppend",
        "ScalarSet",
        "ProfileHint",
        "RoleDefinitionSuggestion",
    ] {
        assert!(p.contains(kind), "system prompt missing draft kind {kind}");
    }
}

#[test]
fn system_prompt_documents_phase_118_always_staged_contract() {
    let p = build_system_prompt();
    assert!(p.contains("ALWAYS-STAGED"));
    assert!(p.contains("P13"));
    assert!(p.contains("P9"));
    assert!(p.contains("EXPLICIT"));
    assert!(p.contains("rationale"));
}

#[test]
fn system_prompt_documents_six_profile_fields() {
    let p = build_system_prompt();
    for field in [
        "AssistantName",
        "OperatorProfile",
        "CommunicationStyle",
        "PrimaryUseCases",
        "BehavioralPreferences",
        "BehavioralConstraints",
    ] {
        assert!(p.contains(field), "missing ProfileField name {field}");
    }
}

#[test]
fn user_prompt_embeds_turn_summary_and_empty_persona() {
    let persona = empty_persona();
    let req = JudgeRequest {
        turn_summary: "User asked X; agent ran fs.read, web.fetch; replied Y.",
        existing_persona: &persona,
        model: "haiku-4-5",
        max_tokens: 800,
        source: ProposalSource::CompletedTurn,
    };
    let p = build_user_prompt(&req);
    assert!(p.contains("User asked X"));
    assert!(p.contains("no Persona state yet"));
}

#[test]
fn user_prompt_lists_existing_persona_state_across_categories() {
    let persona = ExistingPersonaSnapshot {
        assistant_name: Some("Aivyx PA".into()),
        behavioral_preferences: vec![
            "prefer terse replies".into(),
            "use code blocks for shell commands".into(),
        ],
        learned_skills: vec![ExistingSkillSnapshot {
            name: "research-topic".into(),
            trigger: "user asks 'research X'".into(),
            procedure_summary: "fs.read project notes, web.fetch ...".into(),
        }],
        ..ExistingPersonaSnapshot::default()
    };
    let req = JudgeRequest {
        turn_summary: "ignored",
        existing_persona: &persona,
        model: "m",
        max_tokens: 800,
        source: ProposalSource::CompletedTurn,
    };
    let p = build_user_prompt(&req);
    assert!(p.contains("AssistantName"));
    assert!(p.contains("Aivyx PA"));
    assert!(p.contains("BehavioralPreferences"));
    assert!(p.contains("prefer terse replies"));
    assert!(p.contains("LearnedSkill"));
    assert!(p.contains("research-topic"));
    assert!(p.contains("cross-category dedup"));
}

#[test]
fn user_prompt_renders_phase_118_profile_hints_as_summary_bullets() {
    let persona = ExistingPersonaSnapshot {
        profile_hints: vec![
            r#"{"field":"CommunicationStyle",
                "suggested_value":"terse and bullet-formatted",
                "rationale":"operator uses bullets"}"#
                .to_string(),
            r#"{"field":"PrimaryUseCases",
                "suggested_value":"oncall investigations",
                "rationale":"recurring task shape"}"#
                .to_string(),
        ],
        ..ExistingPersonaSnapshot::default()
    };
    let req = JudgeRequest {
        turn_summary: "ignored",
        existing_persona: &persona,
        model: "m",
        max_tokens: 800,
        source: ProposalSource::CompletedTurn,
    };
    let p = build_user_prompt(&req);
    assert!(p.contains("ProfileHint"));
    assert!(p.contains("CommunicationStyle"));
    assert!(p.contains("bullet-formatted"));
    assert!(p.contains("PrimaryUseCases"));
    assert!(p.contains("oncall"));
}

#[test]
fn user_prompt_renders_phase_118_role_drafts_as_name_plus_parent() {
    let persona = ExistingPersonaSnapshot {
        role_drafts: vec![
            r#"{"name":"research-deploy",
                "parent":"research",
                "system_prompt_addendum":"...",
                "tool_allowlist_additions":["git.commit"],
                "rationale":"recurring shape"}"#
                .to_string(),
            r#"{"name":"operator-mode",
                "parent":null,
                "system_prompt_addendum":"...",
                "tool_allowlist_additions":[],
                "rationale":"top-level"}"#
                .to_string(),
        ],
        ..ExistingPersonaSnapshot::default()
    };
    let req = JudgeRequest {
        turn_summary: "ignored",
        existing_persona: &persona,
        model: "m",
        max_tokens: 800,
        source: ProposalSource::CompletedTurn,
    };
    let p = build_user_prompt(&req);
    assert!(p.contains("RoleDefinitionSuggestion"));
    assert!(p.contains("research-deploy"));
    assert!(p.contains("parent: `research`"));
    assert!(p.contains("operator-mode"));
    assert!(!p.contains("parent: `null`"));
}

#[test]
fn user_prompt_handles_malformed_profile_hint_blob_defensively() {
    let persona = ExistingPersonaSnapshot {
        profile_hints: vec!["this is not json".to_string()],
        ..ExistingPersonaSnapshot::default()
    };
    let req = JudgeRequest {
        turn_summary: "ignored",
        existing_persona: &persona,
        model: "m",
        max_tokens: 800,
        source: ProposalSource::CompletedTurn,
    };
    let p = build_user_prompt(&req);
    assert!(p.contains("ProfileHint"));
    assert!(p.contains("this is not json"));
}


#[test]
fn parses_clean_learned_skill_response() {
    let raw = r#"{"is_worth_proposing":true,"confidence":0.91,
      "category":"LearnedSkill",
      "proposed_draft":{"kind":"LearnedSkill","name":"research-topic",
      "trigger":"research X","procedure":"step 1 ..."},
      "is_duplicate_of":null,"reasoning":"recurring multi-step pattern"}"#;
    let r = parse(raw).expect("parse");
    assert!(r.is_worth_proposing);
    assert!((f32::from_bits(r.confidence) - 0.91).abs() < 1e-6);
    assert_eq!(r.category.as_deref(), Some("LearnedSkill"));
    match r.proposed_draft.as_ref().unwrap() {
        ProposedDraft::LearnedSkill { name, .. } => {
            assert_eq!(name, "research-topic");
        }
        other => panic!("expected LearnedSkill draft, got {other:?}"),
    }
    assert_eq!(r.proposed_skill().unwrap().name, "research-topic");
}

#[test]
fn parses_list_append_response() {
    let raw = r#"{"is_worth_proposing":true,"confidence":0.88,
      "category":"BehavioralPreferences",
      "proposed_draft":{"kind":"ListAppend",
      "value":"prefer terse replies for command-style requests"},
      "is_duplicate_of":null}"#;
    let r = parse(raw).expect("parse");
    assert!(r.is_worth_proposing);
    assert_eq!(r.category.as_deref(), Some("BehavioralPreferences"));
    match r.proposed_draft.as_ref().unwrap() {
        ProposedDraft::ListAppend { value } => {
            assert!(value.contains("terse"));
        }
        other => panic!("expected ListAppend, got {other:?}"),
    }
    assert!(r.proposed_skill().is_none());
}

#[test]
fn parses_scalar_set_response() {
    let raw = r#"{"is_worth_proposing":true,"confidence":0.96,
      "category":"AssistantName",
      "proposed_draft":{"kind":"ScalarSet","value":"Aivyx PA"},
      "is_duplicate_of":null}"#;
    let r = parse(raw).expect("parse");
    assert!(r.is_worth_proposing);
    assert_eq!(r.category.as_deref(), Some("AssistantName"));
    match r.proposed_draft.as_ref().unwrap() {
        ProposedDraft::ScalarSet { value } => {
            assert_eq!(value, "Aivyx PA");
        }
        other => panic!("expected ScalarSet, got {other:?}"),
    }
}

#[test]
fn parses_response_wrapped_in_markdown_fences() {
    let raw = r#"Sure, here you go:
```json
{"is_worth_proposing":false,"confidence":0.4,"category":null,
 "proposed_draft":null,"is_duplicate_of":null,"reasoning":"one-off chat"}
```
that's my call."#;
    let r = parse(raw).expect("parse");
    assert!(!r.is_worth_proposing);
    assert!(r.proposed_draft.is_none());
    assert!(r.category.is_none());
}

#[test]
fn parses_response_with_short_preamble() {
    let raw = r#"This is my call: {"is_worth_proposing":true,
      "confidence":0.88,"category":"LearnedSkill",
      "proposed_draft":{"kind":"LearnedSkill","name":"a","trigger":"b",
      "procedure":"c"},"is_duplicate_of":null}"#;
    let r = parse(raw).expect("parse");
    assert!(r.is_worth_proposing);
}

#[test]
fn parses_response_with_dup_set() {
    let raw = r#"{"is_worth_proposing":false,"confidence":0.95,
      "category":null,"proposed_draft":null,
      "is_duplicate_of":"research-topic",
      "reasoning":"paraphrase of an existing skill"}"#;
    let r = parse(raw).expect("parse");
    assert!(!r.is_worth_proposing);
    assert_eq!(r.is_duplicate_of.as_deref(), Some("research-topic"));
}

#[test]
fn parses_response_with_omitted_optional_fields() {
    let raw = r#"{"is_worth_proposing":false,"confidence":0.2,
      "is_duplicate_of":null}"#;
    let r = parse(raw).expect("parse");
    assert!(!r.is_worth_proposing);
    assert!(r.category.is_none());
    assert!(r.proposed_draft.is_none());
}

#[test]
fn rejects_response_with_no_json_object() {
    let raw = "I'm not sure what to make of this turn.";
    let err = parse(raw).unwrap_err();
    assert!(matches!(err, JudgeError::ParseFailure { .. }));
}

#[test]
fn rejects_response_with_invalid_json() {
    let raw = r#"{ not really json }"#;
    assert!(parse(raw).is_err());
}

#[test]
fn rejects_confidence_above_one() {
    let raw = r#"{"is_worth_proposing":true,"confidence":1.5,
      "category":null,"proposed_draft":null,"is_duplicate_of":null}"#;
    let err = parse(raw).unwrap_err();
    assert!(matches!(err, JudgeError::ConfidenceOutOfRange(_)));
}

#[test]
fn rejects_confidence_below_zero() {
    let raw = r#"{"is_worth_proposing":true,"confidence":-0.1,
      "category":null,"proposed_draft":null,"is_duplicate_of":null}"#;
    let err = parse(raw).unwrap_err();
    assert!(matches!(err, JudgeError::ConfidenceOutOfRange(_)));
}

#[test]
fn extracts_balanced_object_in_presence_of_inner_braces() {
    let raw = r#"{"is_worth_proposing":true,"confidence":0.9,
      "category":"LearnedSkill",
      "proposed_draft":{"kind":"LearnedSkill","name":"x","trigger":"y",
      "procedure":"call shell.exec with {arg: value}"},
      "is_duplicate_of":null}"#;
    let r = parse(raw).expect("parse");
    assert!(r.is_worth_proposing);
    let proc_text = r.proposed_skill().unwrap().procedure;
    assert!(proc_text.contains("{arg: value}"));
}
#[test]
fn proposed_draft_kind_label_is_stable() {
    let learned = ProposedDraft::LearnedSkill {
        name: "x".into(),
        trigger: "y".into(),
        procedure: "z".into(),
    };
    assert_eq!(learned.kind_label(), "LearnedSkill");

    let list = ProposedDraft::ListAppend { value: "v".into() };
    assert_eq!(list.kind_label(), "ListAppend");

    let scalar = ProposedDraft::ScalarSet { value: "v".into() };
    assert_eq!(scalar.kind_label(), "ScalarSet");

    let hint = ProposedDraft::ProfileHint {
        field: ProfileField::CommunicationStyle,
        suggested_value: "terse".into(),
        rationale: "operator prefers brevity".into(),
    };
    assert_eq!(hint.kind_label(), "ProfileHint");

    let role = ProposedDraft::RoleDefinitionSuggestion {
        name: "research-deploy".into(),
        parent: Some("research".into()),
        system_prompt_addendum: "...".into(),
        tool_allowlist_additions: vec!["git.commit".into()],
        rationale: "recurring shape".into(),
    };
    assert_eq!(role.kind_label(), "RoleDefinitionSuggestion");
}


#[test]
fn proposal_source_default_is_completed_turn() {
    assert_eq!(ProposalSource::default(), ProposalSource::CompletedTurn);
}

#[test]
fn proposal_source_label_is_stable() {
    assert_eq!(ProposalSource::CompletedTurn.label(), "completed_turn");
    let failed = ProposalSource::FailedTurn {
        kind: FailureKind::Failed,
        summary: "boom".into(),
    };
    assert_eq!(failed.label(), "failed_turn");
}

#[test]
fn system_prompt_mentions_both_source_modes() {
    let p = build_system_prompt();
    assert!(p.contains("Completed turn"));
    assert!(p.contains("Failed turn"));
    assert!(p.contains("BehavioralConstraints"));
    assert!(p.contains("recurring"));
}

#[test]
fn user_prompt_for_completed_source_does_not_mention_failure_context() {
    let persona = empty_persona();
    let req = JudgeRequest {
        turn_summary: "user asked X; agent ran 3 tools",
        existing_persona: &persona,
        model: "m",
        max_tokens: 800,
        source: ProposalSource::CompletedTurn,
    };
    let p = build_user_prompt(&req);
    assert!(p.contains("Completed turn"));
    assert!(!p.contains("Failed turn"));
}

#[test]
fn user_prompt_for_failed_source_embeds_failure_kind_and_summary() {
    let persona = empty_persona();
    let req = JudgeRequest {
        turn_summary: "user asked for X; agent tried Y; planner errored",
        existing_persona: &persona,
        model: "m",
        max_tokens: 800,
        source: ProposalSource::FailedTurn {
            kind: FailureKind::Failed,
            summary: "planner returned MaxStepsExceeded".into(),
        },
    };
    let p = build_user_prompt(&req);
    assert!(p.contains("Failed turn"));
    assert!(p.contains("`failed`"));
    assert!(p.contains("MaxStepsExceeded"));
    assert!(p.contains("BehavioralConstraints"));
}

#[test]
fn user_prompt_for_timed_out_failure_carries_kind_label() {
    let persona = empty_persona();
    let req = JudgeRequest {
        turn_summary: "agent was working on X when budget exhausted",
        existing_persona: &persona,
        model: "m",
        max_tokens: 800,
        source: ProposalSource::FailedTurn {
            kind: FailureKind::TimedOut,
            summary: "exceeded 30 second budget at step 12".into(),
        },
    };
    let p = build_user_prompt(&req);
    assert!(p.contains("`timed_out`"));
    assert!(p.contains("30 second budget"));
}

#[test]
fn proposed_draft_as_skill_draft_returns_some_only_for_learned_skill() {
    let learned = ProposedDraft::LearnedSkill {
        name: "x".into(),
        trigger: "y".into(),
        procedure: "z".into(),
    };
    let sd = learned.as_skill_draft().unwrap();
    assert_eq!(sd.name, "x");
    assert_eq!(sd.trigger, "y");
    assert_eq!(sd.procedure, "z");

    assert!(
        ProposedDraft::ListAppend { value: "v".into() }
            .as_skill_draft()
            .is_none()
    );
    assert!(
        ProposedDraft::ScalarSet { value: "v".into() }
            .as_skill_draft()
            .is_none()
    );

    assert!(
        ProposedDraft::ProfileHint {
            field: ProfileField::OperatorProfile,
            suggested_value: "v".into(),
            rationale: "r".into(),
        }
        .as_skill_draft()
        .is_none()
    );
    assert!(
        ProposedDraft::RoleDefinitionSuggestion {
            name: "n".into(),
            parent: None,
            system_prompt_addendum: "p".into(),
            tool_allowlist_additions: vec![],
            rationale: "r".into(),
        }
        .as_skill_draft()
        .is_none()
    );
}


#[test]
fn parses_profile_hint_response() {
    let raw = r#"{"is_worth_proposing":true,"confidence":0.83,
      "category":"ProfileHint",
      "proposed_draft":{"kind":"ProfileHint",
      "field":"CommunicationStyle",
      "suggested_value":"terse and bullet-formatted",
      "rationale":"operator consistently uses bullets"},
      "is_duplicate_of":null}"#;
    let r = parse(raw).expect("parse");
    assert!(r.is_worth_proposing);
    assert_eq!(r.category.as_deref(), Some("ProfileHint"));
    match r.proposed_draft.as_ref().unwrap() {
        ProposedDraft::ProfileHint {
            field,
            suggested_value,
            rationale,
        } => {
            assert_eq!(
                *field,
                ProfileField::CommunicationStyle
            );
            assert!(suggested_value.contains("bullet-formatted"));
            assert!(rationale.contains("bullets"));
        }
        other => panic!("expected ProfileHint, got {other:?}"),
    }
    assert!(r.proposed_skill().is_none());
}

#[test]
fn parses_role_definition_suggestion_response() {
    let raw = r#"{"is_worth_proposing":true,"confidence":0.79,
      "category":"RoleDefinitionSuggestion",
      "proposed_draft":{"kind":"RoleDefinitionSuggestion",
      "name":"research-deploy",
      "parent":"research",
      "system_prompt_addendum":"After research, summarize deploy diff.",
      "tool_allowlist_additions":["git.commit","shell.deploy"],
      "rationale":"operator's research-then-deploy shape repeats"},
      "is_duplicate_of":null}"#;
    let r = parse(raw).expect("parse");
    assert!(r.is_worth_proposing);
    assert_eq!(r.category.as_deref(), Some("RoleDefinitionSuggestion"));
    match r.proposed_draft.as_ref().unwrap() {
        ProposedDraft::RoleDefinitionSuggestion {
            name,
            parent,
            system_prompt_addendum,
            tool_allowlist_additions,
            rationale,
        } => {
            assert_eq!(name, "research-deploy");
            assert_eq!(parent.as_deref(), Some("research"));
            assert!(system_prompt_addendum.contains("summarize"));
            assert_eq!(tool_allowlist_additions.len(), 2);
            assert!(rationale.contains("repeats"));
        }
        other => panic!("expected RoleDefinitionSuggestion, got {other:?}"),
    }
}

#[test]
fn profile_hint_display_name_carries_field_and_value() {
    let hint = ProposedDraft::ProfileHint {
        field: ProfileField::CommunicationStyle,
        suggested_value: "terse".into(),
        rationale: "...".into(),
    };
    let name = hint.display_name();
    assert!(name.contains("communication_style"));
    assert!(name.contains("terse"));
    assert!(name.contains("="));
}

#[test]
fn role_definition_suggestion_display_name_is_the_role_name() {
    let role = ProposedDraft::RoleDefinitionSuggestion {
        name: "research-deploy".into(),
        parent: None,
        system_prompt_addendum: "...".into(),
        tool_allowlist_additions: vec![],
        rationale: "...".into(),
    };
    assert_eq!(role.display_name(), "research-deploy");
}
#[test]
fn user_prompt_of_an_empty_persona_is_exact() {
    let persona = empty_persona();
    let req = JudgeRequest {
        turn_summary: "X",
        existing_persona: &persona,
        model: "m",
        max_tokens: 800,
        source: ProposalSource::CompletedTurn,
    };
    assert_eq!(
        build_user_prompt(&req),
        "## Completed turn\n\nX\n\n## Current Persona state\n\n(no Persona state yet — every \
         category is empty)\n\nRespond with the JudgeResponse JSON now."
    );
}

#[test]
fn user_prompt_of_a_full_persona_is_exact() {
    let persona = ExistingPersonaSnapshot {
        operator_profile: Some("dev".to_string()),
        learned_context: vec!["a".to_string(), "b".to_string()],
        learned_skills: vec![ExistingSkillSnapshot {
            name: "n".to_string(),
            trigger: "t".to_string(),
            procedure_summary: "p".to_string(),
        }],
        profile_hints: vec![r#"{"field":"F","suggested_value":"v"}"#.to_string()],
        role_drafts: vec![r#"{"name":"r","parent":"q"}"#.to_string()],
        ..ExistingPersonaSnapshot::default()
    };
    let req = JudgeRequest {
        turn_summary: "X",
        existing_persona: &persona,
        model: "m",
        max_tokens: 800,
        source: ProposalSource::FailedTurn {
            kind: FailureKind::Cancelled,
            summary: "why".to_string(),
        },
    };
    let p = build_user_prompt(&req);
    assert!(p.starts_with(
        "## Failed turn (correction context)\n\n**Failure kind:** `cancelled`\n\n**Failure \
         summary:** why\n\n**Turn narrative:**\n\nX\n\nYour job: pick a Persona refinement"
    ));
    assert!(p.ends_with(
        "\n\n## Current Persona state (for cross-category dedup and pattern-awareness)\n\n\
         - **OperatorProfile** (scalar): dev\n\
         - **LearnedContext** (list):\n  - a\n  - b\n\
         - **LearnedSkill** (list of named procedures):\n  - **n** — trigger: t\n    summary: p\n\
         - **ProfileHint** (Phase 118 — staged Profile-config refinement suggestions):\n  \
         - `F` → \"v\"\n\
         - **RoleDefinitionSuggestion** (Phase 118 — staged new-Role drafts):\n  \
         - `r` (parent: `q`)\n\nRespond with the JudgeResponse JSON now."
    ));
}

#[test]
fn stored_blobs_are_read_through_the_json_reader() {
    assert_eq!(
        summarize_profile_hint_blob(r#"{"suggested_value": "abc", "field": "X"}"#),
        "`X` → \"abc\""
    );
    assert_eq!(summarize_profile_hint_blob("[1, 2]"), "`?` → \"\"");
    assert_eq!(summarize_profile_hint_blob("{oops"), "{oops");
    assert_eq!(summarize_role_draft_blob(r#"{"name": 3}"#), "`?`");
    assert_eq!(summarize_role_draft_blob(r#"{"name":"n","parent":null}"#), "`n`");
    let long = "y".repeat(90);
    assert_eq!(summarize_role_draft_blob(&long), "y".repeat(80));
}

#[test]
fn summaries_follow_from_the_members() {
    let members = Some(vec![
        ("field".to_string(), Some("F".to_string())),
        ("suggested_value".to_string(), Some("v".repeat(61))),
    ]);
    assert_eq!(
        profile_hint_summary("ignored", &members),
        format!("`F` → \"{}…\"", "v".repeat(60))
    );
    assert_eq!(profile_hint_summary("raw", &None), "raw");
    assert_eq!(role_draft_summary("ignored", &Some(vec![])), "`?`");
    assert_eq!(role_draft_summary("raw", &None), "raw");
}

#[test]
fn extraction_respects_strings_and_nesting() {
    assert_eq!(extract_first_json_object("no braces"), None);
    assert_eq!(extract_first_json_object("{ open"), None);
    assert_eq!(
        extract_first_json_object(r#"x {"a":"}\"{"} y {"b":1}"#),
        Some(r#"{"a":"}\"{"}"#.to_string())
    );
    assert_eq!(extract_first_json_object("{{}}{}"), Some("{{}}".to_string()));
    assert_eq!(extract_first_json_object("é{ü}"), Some("{ü}".to_string()));
    assert_eq!(extract_first_json_object("} {a}"), Some("{a}".to_string()));
    assert_eq!(extract_first_json_object("} {{a}"), Some("{a}".to_string()));
}

#[test]
fn quoted_braces_before_the_object_do_not_count() {
    let object = Some(r#"{"a":1}"#.to_string());
    assert_eq!(extract_first_json_object(r#""{" {"a":1}"#), object);
    assert_eq!(extract_first_json_object(r#""{}" {"a":1}"#), object);
    assert_eq!(extract_first_json_object(r#""a \" {" {"a":1}"#), object);
}

#[test]
fn a_brace_that_is_never_closed_is_passed_over() {
    let object = Some(r#"{"a":1}"#.to_string());
    assert_eq!(extract_first_json_object(r#"{ see: {"a":1}"#), object);
    assert_eq!(extract_first_json_object(r#"{ 12" {"a":1}"#), object);
}

#[test]
fn a_preamble_is_skipped_whatever_it_holds() {
    let object = Some(r#"{"a":1}"#.to_string());
    for preamble in ["", "} ", "}}}", "the 5\" screen: ", "\"\\\"", "```json\n", "it's \"}\" "] {
        let raw = format!("{preamble}{}", r#"{"a":1} }"#);
        assert_eq!(extract_first_json_object(&raw), object, "{raw}");
    }
    let good = r#"{"is_worth_proposing":false,"confidence":0.4,"is_duplicate_of":null}"#;
    let answer = parse(&format!("}} 12\" {good}")).expect("parse");
    assert!(!answer.is_worth_proposing);
}

#[test]
fn confidence_bounds_are_inclusive() {
    let response = |bits: u32| JudgeResponse {
        is_worth_proposing: true,
        confidence: bits,
        category: None,
        proposed_draft: None,
        is_duplicate_of: None,
        reasoning: None,
    };
    for c in [0.0f32, -0.0, 0.5, 1.0] {
        assert!(parse_judge_response("{}", Some(response(c.to_bits()))).is_ok());
    }
    for c in [-0.1f32, 1.0000001, f32::INFINITY, f32::NEG_INFINITY, f32::NAN] {
        assert_eq!(
            parse_judge_response("{}", Some(response(c.to_bits()))).unwrap_err(),
            JudgeError::ConfidenceOutOfRange(c.to_bits())
        );
    }
    assert_eq!(
        parse_judge_response("none", Some(response(0))).unwrap_err(),
        JudgeError::ParseFailure { raw: "none".to_string() }
    );
}

#[test]
fn judge_asks_once_and_takes_only_text() {
    let persona = empty_persona();
    let req = JudgeRequest {
        turn_summary: "X",
        existing_persona: &persona,
        model: "m",
        max_tokens: 800,
        source: ProposalSource::CompletedTurn,
    };
    let call = judge_call(&req);
    assert_eq!(call.model, "m");
    assert_eq!(call.system, build_system_prompt());
    assert_eq!(call.user, build_user_prompt(&req));
    assert_eq!(call.max_tokens, 800);
    assert_eq!(f32::from_bits(call.temperature), 0.2);
    assert_eq!(judge_reply_text(JudgeReply::FinalMessage("t".to_string())), Ok("t".to_string()));
    assert_eq!(
        judge_reply_text(JudgeReply::ToolCalls),
        Err(JudgeError::ParseFailure {
            raw: "judge emitted ToolCalls instead of FinalMessage".to_string()
        })
    );
}

#[test]
fn long_display_names_are_shortened() {
    let draft = ProposedDraft::ScalarSet { value: "é".repeat(81) };
    assert_eq!(draft.display_name(), format!("{}…", "é".repeat(80)));
    let draft = ProposedDraft::ListAppend { value: "é".repeat(80) };
    assert_eq!(draft.display_name(), "é".repeat(80));
    let draft = ProposedDraft::ProfileHint {
        field: ProfileField::AssistantName,
        suggested_value: "z".repeat(80),
        rationale: String::new(),
    };
    assert_eq!(draft.display_name(), format!("assistant_name={}…", "z".repeat(65)));
}

/// Puts a turn to a judge that answers with `reply`.
fn judged(reply: JudgeReply) -> Result<JudgeResponse, JudgeError> {
    let persona = empty_persona();
    let call = judge_call(&JudgeRequest {
        turn_summary: "summary",
        existing_persona: &persona,
        model: "m",
        max_tokens: 800,
        source: ProposalSource::CompletedTurn,
    });
    assert_eq!(call.model, "m");
    assert_eq!(call.max_tokens, 800);
    assert!(call.user.contains("summary"));
    let text = judge_reply_text(reply)?;
    parse(&text)
}

#[test]
fn judge_returns_worth_proposing_branch_for_learned_skill() {
    let resp = judged(JudgeReply::FinalMessage(
        r#"{"is_worth_proposing":true,"confidence":0.92,
               "category":"LearnedSkill",
               "proposed_draft":{"kind":"LearnedSkill","name":"a",
               "trigger":"t","procedure":"p"},
               "is_duplicate_of":null,"reasoning":"r"}"#
            .to_string(),
    ))
    .expect("ok");
    assert!(resp.is_worth_proposing);
    assert!((f32::from_bits(resp.confidence) - 0.92).abs() < 1e-6);
    assert_eq!(resp.category.as_deref(), Some("LearnedSkill"));
    assert_eq!(resp.proposed_skill().unwrap().name, "a");
}

#[test]
fn judge_returns_list_append_for_behavioral_preference() {
    let resp = judged(JudgeReply::FinalMessage(
        r#"{"is_worth_proposing":true,"confidence":0.88,
               "category":"BehavioralPreferences",
               "proposed_draft":{"kind":"ListAppend",
               "value":"prefer terse replies"},
               "is_duplicate_of":null}"#
            .to_string(),
    ))
    .expect("ok");
    assert_eq!(resp.category.as_deref(), Some("BehavioralPreferences"));
    match resp.proposed_draft.unwrap() {
        ProposedDraft::ListAppend { value } => {
            assert!(value.contains("terse"));
        }
        other => panic!("expected ListAppend, got {other:?}"),
    }
}

#[test]
fn judge_returns_dup_branch() {
    let resp = judged(JudgeReply::FinalMessage(
        r#"{"is_worth_proposing":false,"confidence":0.96,
               "category":null,"proposed_draft":null,
               "is_duplicate_of":"existing-entry","reasoning":"dup"}"#
            .to_string(),
    ))
    .expect("ok");
    assert!(!resp.is_worth_proposing);
    assert_eq!(resp.is_duplicate_of.as_deref(), Some("existing-entry"));
}

#[test]
fn judge_returns_not_worth_branch() {
    let resp = judged(JudgeReply::FinalMessage(
        r#"{"is_worth_proposing":false,"confidence":0.3,
               "category":null,"proposed_draft":null,
               "is_duplicate_of":null,"reasoning":"one-off chat"}"#
            .to_string(),
    ))
    .expect("ok");
    assert!(!resp.is_worth_proposing);
}

#[test]
fn judge_propagates_parse_failure_for_garbage_response() {
    let err = judged(JudgeReply::FinalMessage("this is not json at all".to_string())).unwrap_err();
    assert!(matches!(err, JudgeError::ParseFailure { raw } if raw == "this is not json at all"));
    let err = judged(JudgeReply::ToolCalls).unwrap_err();
    assert!(matches!(err, JudgeError::ParseFailure { .. }));
}
