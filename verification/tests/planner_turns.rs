use std::hash::{Hash, Hasher};

use aivyx::json::Json;
use aivyx::llm_planner::calls::{
    process_one_call, settle_call, synthesize_call, synthesize_calls, CallVerdict,
    ExtractedToolCall, PlannedCall,
};
use aivyx::llm_planner::config::LlmPlannerConfig;
use aivyx::llm_planner::input::{ContentPart, Message, MessageContent};
use aivyx::llm_planner::kv::{
    after_restore, after_save, after_warm_up, CacheKey, KvCacheConfig, KvNext, KvWarning,
    RestoreReply, SaveReply, WarmUpReply, WarningLatch,
};
use aivyx::llm_planner::message::{ContentBlock, LlmMessage, PriorTurn};
use aivyx::llm_planner::prune::TokenEstimate;
use aivyx::llm_planner::request::{compute_prefix_hash, LlmToolDescriptor};
use aivyx::llm_planner::resolve::{
    build_unknown_tool_message,
    fuzzy_recover_tool_name,
    top_n_similar_tools,
    validate_tool_input,
    FUZZY_TOOL_NAME_THRESHOLD,
};
use aivyx::llm_planner::tool_result::render_tool_result;
use aivyx::llm_planner::turn::{LlmPlanner, LlmStepEnd, PruneReport, Recall, StepNext, TurnReplies};
use aivyx::outcome::{
    AivyxError,
    LlmUsage,
    TokenUsage,
    ToolId,
    ToolOutcome,
    ToolOutcomeSummary,
    Verification,
};
use aivyx::planner::{NextStep, Tool, ToolRegistry};

// ---------------------------------------------------------------------------
// Helpers
// ---------------------------------------------------------------------------

fn s(text: &str) -> Json {
    Json::Str(text.to_string())
}

fn obj(members: Vec<(&str, Json)>) -> Json {
    Json::Object(members.into_iter().map(|(k, v)| (k.to_string(), v)).collect())
}

fn empty() -> Json {
    obj(vec![])
}

fn plain_schema() -> Json {
    obj(vec![("type", s("object"))])
}

fn path_schema() -> Json {
    obj(vec![
        ("properties", obj(vec![("path", obj(vec![("type", s("string"))]))])),
        ("required", Json::Array(vec![s("path")])),
        ("type", s("object")),
    ])
}

fn tool(id: u128, name: &str) -> Tool {
    tool_with(id, name, plain_schema())
}

fn tool_with(id: u128, name: &str, schema: Json) -> Tool {
    Tool {
        id: ToolId(id),
        name: name.to_string(),
        description: "fake".to_string(),
        input_schema: schema,
    }
}

fn registry(tools: Vec<Tool>) -> ToolRegistry {
    ToolRegistry::new(tools)
}

/// How many words two names share, of those that they have.
fn similarity(a: &str, b: &str) -> u32 {
    let words = |t: &str| -> std::collections::BTreeSet<String> {
        t.split(|c: char| !c.is_alphanumeric()).map(str::to_string).collect()
    };
    let (x, y) = (words(a), words(b));
    let shared = x.intersection(&y).count() as f32;
    let all = x.union(&y).count() as f32;
    (shared / all).to_bits()
}

fn scores(registry: &ToolRegistry, name: &str) -> Vec<u32> {
    (0..registry.len()).map(|i| similarity(name, &registry.at(i).name)).collect()
}

fn call(registry: &ToolRegistry, id: &str, name: &str, input: Json) -> PlannedCall {
    PlannedCall {
        call_id: id.to_string(),
        tool_name: name.to_string(),
        input,
        similarity: scores(registry, name),
        extracted_from_text: None,
    }
}

fn extract(registry: &ToolRegistry, name: &str, arguments: Json, tag: &str) -> ExtractedToolCall {
    ExtractedToolCall {
        tool_name: name.to_string(),
        arguments,
        wrapper_tag: tag.to_string(),
        similarity: scores(registry, name),
    }
}

fn zero_usage() -> LlmUsage {
    usage(0, 0)
}

fn usage(input: u32, output: u32) -> LlmUsage {
    LlmUsage {
        input_tokens: input,
        output_tokens: output,
        cache_creation_input_tokens: 0,
        cache_read_input_tokens: 0,
    }
}

fn final_message(text: &str) -> LlmStepEnd {
    LlmStepEnd::FinalMessage { text: text.to_string(), usage: zero_usage(), calls: vec![] }
}

fn extracted_message(text: &str, extracted: Vec<ExtractedToolCall>) -> LlmStepEnd {
    LlmStepEnd::FinalMessage {
        text: text.to_string(),
        usage: zero_usage(),
        calls: synthesize_calls(extracted),
    }
}

fn tool_calls(calls: Vec<PlannedCall>) -> LlmStepEnd {
    LlmStepEnd::ToolCalls { calls, text_so_far: String::new(), usage: zero_usage() }
}

fn text_message(text: &str) -> Message {
    Message { session: "session-1".to_string(), content: MessageContent::Text(text.to_string()) }
}

fn no_replies() -> TurnReplies {
    TurnReplies { recalled: None, refined: None, prior: vec![] }
}

fn planner(registry: &ToolRegistry, model: &str) -> LlmPlanner {
    LlmPlanner::new(registry, LlmPlannerConfig::new(model.to_string()))
}

fn begun(registry: &ToolRegistry, model: &str, text: &str) -> LlmPlanner {
    let mut p = planner(registry, model);
    p.begin_turn(&text_message(text), no_replies());
    p
}

/// Hands the replies in, one after the other, until the step is decided.
fn step(p: &mut LlmPlanner, registry: &ToolRegistry, replies: Vec<LlmStepEnd>) -> NextStep {
    p.ensure_history();
    let mut rounds = 0;
    for reply in replies {
        prune(p);
        match p.next_step(registry, reply, &None, true, rounds) {
            StepNext::AskAgain(r) => rounds = r,
            StepNext::Done(next) => return next,
        }
    }
    panic!("the script is exhausted")
}

fn text_block(text: &str) -> ContentBlock {
    ContentBlock::Text { text: text.to_string() }
}

fn user_content(m: &LlmMessage) -> &Vec<ContentBlock> {
    match m {
        LlmMessage::User { content } => content,
        other => panic!("expected User, got {other:?}"),
    }
}

fn result_of(m: &LlmMessage) -> (&str, &str, bool) {
    match m {
        LlmMessage::ToolResult { call_id, content, is_error } => (call_id, content, *is_error),
        other => panic!("expected ToolResult, got {other:?}"),
    }
}

fn results_with(p: &LlmPlanner, word: &str) -> usize {
    p.history()
        .iter()
        .filter(|m| matches!(m, LlmMessage::ToolResult { content, .. } if content.contains(word)))
        .count()
}

fn last(p: &LlmPlanner) -> &LlmMessage {
    p.history().last().unwrap()
}

fn internal(text: &str) -> ToolOutcome {
    ToolOutcome::Failed(AivyxError::Internal(text.to_string()))
}

fn parsed(text: &str) -> serde_json::Value {
    serde_json::from_str(text).unwrap()
}

fn u(text: &str) -> PriorTurn {
    PriorTurn { is_user: true, text: text.to_string() }
}

fn a(text: &str) -> PriorTurn {
    PriorTurn { is_user: false, text: text.to_string() }
}

// ---------------------------------------------------------------------------
// The start of a turn
// ---------------------------------------------------------------------------

#[test]
fn final_message_path_returns_next_step_and_appends_history() {
    let r = registry(vec![]);
    let mut p = begun(&r, "haiku-4-5", "hi");
    let next = step(&mut p, &r, vec![final_message("hello")]);
    assert_eq!(next, NextStep::FinalMessage("hello".to_string()));
    assert_eq!(p.history().len(), 2);
    assert_eq!(user_content(&p.history()[0]), &vec![text_block("hi")]);
    match &p.history()[1] {
        LlmMessage::Assistant { text, tool_calls } => {
            assert_eq!(text, "hello");
            assert!(tool_calls.is_empty());
        }
        other => panic!("expected Assistant, got {other:?}"),
    }
}

fn recall_marks(block: Option<&str>, sensitive: bool) -> Option<String> {
    let r = registry(vec![]);
    let p = LlmPlanner::new(
        &r,
        LlmPlannerConfig::new("m".to_string()).with_context_provider(),
    )
    .with_taint();
    let recalled = block.map(|b| Recall { block: b.to_string(), sensitive });
    p.taint_due(&text_message("what's my color?"), &recalled)
}

#[test]
fn a_sensitive_providers_injection_marks_the_session() {
    assert_eq!(recall_marks(Some("- [notes] purple"), true), Some("session-1".to_string()));
}

#[test]
fn a_non_sensitive_providers_injection_does_not_mark() {
    assert_eq!(recall_marks(Some("## Relevant skill"), false), None);
}

#[test]
fn an_empty_injection_does_not_mark() {
    for block in [None, Some(""), Some("  \n")] {
        assert_eq!(recall_marks(block, true), None, "{block:?}");
    }
}

#[test]
fn without_a_sink_nothing_is_marked() {
    let r = registry(vec![]);
    let p = LlmPlanner::new(
        &r,
        LlmPlannerConfig::new("m".to_string()).with_context_provider(),
    );
    let recalled = Some(Recall { block: "x".to_string(), sensitive: true });
    assert_eq!(p.taint_due(&text_message("q"), &recalled), None);
}

fn with_memory() -> LlmPlanner {
    LlmPlanner::new(
        &registry(vec![]),
        LlmPlannerConfig::new("m".to_string()).with_context_provider(),
    )
}

fn recalled(block: &str) -> TurnReplies {
    TurnReplies {
        recalled: Some(Recall { block: block.to_string(), sensitive: false }),
        refined: None,
        prior: vec![],
    }
}

#[test]
fn context_provider_prepends_recalled_block() {
    let mut p = with_memory();
    let message = text_message("what's my color?");
    let plan = p.plan_turn(&message);
    assert!(plan.recall);
    assert_eq!(plan.query, "what's my color?");
    let block = "## Relevant context (auto-recalled)\n- [notes] purple";
    p.begin_turn(&message, recalled(block));
    assert_eq!(
        user_content(&p.history()[0]),
        &vec![text_block(block), text_block("what's my color?")]
    );
}

#[test]
fn context_provider_none_leaves_turn_unchanged() {
    let mut p = with_memory();
    assert!(p.plan_turn(&text_message("hi there")).recall);
    p.begin_turn(&text_message("hi there"), no_replies());
    assert_eq!(user_content(&p.history()[0]), &vec![text_block("hi there")]);
}

#[test]
fn no_context_provider_is_unchanged() {
    let mut p = planner(&registry(vec![]), "m");
    assert!(!p.plan_turn(&text_message("hello")).recall);
    p.begin_turn(&text_message("hello"), recalled("never asked for"));
    assert_eq!(user_content(&p.history()[0]), &vec![text_block("hello")]);
}

#[test]
fn context_provider_skipped_for_blank_query() {
    let mut p = with_memory();
    assert!(!p.plan_turn(&text_message("   ")).recall);
    p.begin_turn(&text_message("   "), recalled("SHOULD-NOT-APPEAR"));
    assert_eq!(user_content(&p.history()[0]), &vec![text_block("   ")]);
}

fn with_seeder() -> LlmPlannerConfig {
    LlmPlannerConfig::new("m".to_string()).with_conversation_seeder()
}

#[test]
fn conversation_seeder_replays_prior_before_current() {
    let mut p = LlmPlanner::new(&registry(vec![]), with_seeder());
    let message = text_message("follow-up?");
    assert!(p.plan_turn(&message).seed);
    let prior = vec![u("first question"), a("first answer")];
    p.begin_turn(&message, TurnReplies { recalled: None, refined: None, prior });
    assert_eq!(p.history().len(), 3);
    assert_eq!(user_content(&p.history()[0]), &vec![text_block("first question")]);
    assert!(
        matches!(&p.history()[1], LlmMessage::Assistant { text, .. } if text == "first answer")
    );
    assert_eq!(user_content(&p.history()[2]), &vec![text_block("follow-up?")]);
}

#[test]
fn conversation_seeder_empty_is_byte_identical() {
    let mut p = LlmPlanner::new(&registry(vec![]), with_seeder());
    p.begin_turn(&text_message("hello"), no_replies());
    assert_eq!(p.history().len(), 1);
    assert_eq!(user_content(&p.history()[0]), &vec![text_block("hello")]);
}

#[test]
fn conversation_seeder_composes_with_recall_block() {
    let mut p = LlmPlanner::new(&registry(vec![]), with_seeder().with_context_provider());
    let mut replies = recalled("RECALL-BLOCK");
    replies.prior = vec![u("prior q"), a("prior a")];
    p.begin_turn(&text_message("now?"), replies);
    assert_eq!(p.history().len(), 3);
    assert_eq!(
        user_content(&p.history()[2]),
        &vec![text_block("RECALL-BLOCK"), text_block("now?")]
    );
}

#[test]
fn a_running_conversation_is_not_seeded_again() {
    let mut p = LlmPlanner::new(&registry(vec![]), with_seeder());
    p.begin_turn(&text_message("one"), no_replies());
    assert!(!p.plan_turn(&text_message("two")).seed);
    let prior = vec![u("old"), a("older")];
    p.begin_turn(&text_message("two"), TurnReplies { recalled: None, refined: None, prior });
    assert_eq!(p.history().len(), 2);
}

fn with_refiner(prompt: &str) -> LlmPlanner {
    LlmPlanner::new(
        &registry(vec![]),
        LlmPlannerConfig::new("m".to_string())
            .with_system_prompt(prompt.to_string())
            .with_system_prompt_refiner(),
    )
}

fn refined(text: Option<&str>) -> TurnReplies {
    TurnReplies { recalled: None, refined: text.map(str::to_string), prior: vec![] }
}

#[test]
fn refiner_some_swaps_system_prompt_for_the_turn() {
    let mut p = with_refiner("BASE PROMPT");
    let message = text_message("help me ship");
    let plan = p.plan_turn(&message);
    assert!(plan.refine);
    assert_eq!(plan.query, "help me ship");
    assert_eq!(plan.base_prompt, "BASE PROMPT");
    p.begin_turn(&message, refined(Some("REFINED PERSONA PROMPT")));
    assert_eq!(p.request(0).system.as_deref(), Some("REFINED PERSONA PROMPT"));
}

#[test]
fn refiner_none_keeps_base_prompt() {
    let mut p = with_refiner("BASE PROMPT");
    assert!(p.plan_turn(&text_message("hi")).refine);
    p.begin_turn(&text_message("hi"), refined(None));
    assert_eq!(p.request(0).system.as_deref(), Some("BASE PROMPT"));
}

#[test]
fn no_refiner_is_unchanged() {
    let mut p = LlmPlanner::new(
        &registry(vec![]),
        LlmPlannerConfig::new("m".to_string()).with_system_prompt("BASE".to_string()),
    );
    assert!(!p.plan_turn(&text_message("hello")).refine);
    p.begin_turn(&text_message("hello"), refined(Some("never asked for")));
    assert_eq!(p.request(0).system.as_deref(), Some("BASE"));
}

#[test]
fn refiner_skipped_for_blank_query() {
    let mut p = with_refiner("BASE");
    assert!(!p.plan_turn(&text_message("   ")).refine);
    p.begin_turn(&text_message("   "), refined(Some("SHOULD-NOT-APPEAR")));
    assert_eq!(p.request(0).system.as_deref(), Some("BASE"));
}

#[test]
fn begin_turn_image_to_content_block() {
    let mut p = planner(&registry(vec![]), "test");
    let message = Message {
        session: "s".to_string(),
        content: MessageContent::Image {
            media_type: "image/png".to_string(),
            data: "iVA=".to_string(),
        },
    };
    p.begin_turn(&message, no_replies());
    assert_eq!(p.history().len(), 1);
    let content = user_content(&p.history()[0]);
    assert_eq!(content.len(), 1);
    assert_eq!(
        content[0],
        ContentBlock::ImageBase64 {
            media_type: "image/png".to_string(),
            data: "iVA=".to_string()
        }
    );
}

#[test]
fn begin_turn_mixed_content() {
    let mut p = planner(&registry(vec![]), "test");
    let message = Message {
        session: "s".to_string(),
        content: MessageContent::Mixed(vec![
            ContentPart::Text("describe this".to_string()),
            ContentPart::Image { media_type: "image/jpeg".to_string(), data: "/w==".to_string() },
            ContentPart::Text("please".to_string()),
        ]),
    };
    assert_eq!(p.plan_turn(&message).query, "describe this please");
    p.begin_turn(&message, no_replies());
    let content = user_content(&p.history()[0]);
    assert_eq!(content.len(), 3);
    assert_eq!(content[0], text_block("describe this"));
    assert!(matches!(&content[1], ContentBlock::ImageBase64 { .. }));
}

#[test]
fn a_document_has_no_query() {
    let p = LlmPlanner::new(
        &registry(vec![]),
        LlmPlannerConfig::new("m".to_string()).with_context_provider(),
    );
    let message = Message {
        session: "s".to_string(),
        content: MessageContent::Document {
            media_type: "application/pdf".to_string(),
            data: "JVBERi0=".to_string(),
        },
    };
    let plan = p.plan_turn(&message);
    assert_eq!(plan.query, "");
    assert!(!plan.recall);
}

#[test]
fn the_set_conversation_wins_over_the_messages_session() {
    let mut p = planner(&registry(vec![]), "m").with_routing("chat".to_string());
    assert_eq!(p.plan_turn(&text_message("hi")).conversation, "session-1");
    p.set_conversation("channel-7".to_string());
    assert_eq!(p.plan_turn(&text_message("hi")).conversation, "channel-7");
    p.begin_turn(&text_message("hi"), no_replies());
    assert_eq!(p.request(0).route.unwrap().session, Some("channel-7".to_string()));
}

#[test]
fn a_turn_without_a_start_sends_an_empty_message() {
    let mut p = planner(&registry(vec![]), "m");
    p.ensure_history();
    assert_eq!(p.history().len(), 1);
    assert_eq!(user_content(&p.history()[0]), &vec![text_block("")]);
    p.ensure_history();
    assert_eq!(p.history().len(), 1);
}

#[test]
fn the_allowlist_hides_tools() {
    let r = registry(vec![tool(1, "fs.read"), tool(2, "shell.exec"), tool(3, "web.fetch")]);
    let all = planner(&r, "m");
    assert_eq!(all.advertised_tool_names(), vec!["fs.read", "shell.exec", "web.fetch"]);
    let some = LlmPlanner::new(
        &r,
        LlmPlannerConfig::new("m".to_string())
            .with_tool_allowlist(Some(vec!["web.fetch".to_string(), "fs.read".to_string()])),
    );
    assert_eq!(some.advertised_tool_names(), vec!["fs.read", "web.fetch"]);
    let none = LlmPlanner::new(
        &r,
        LlmPlannerConfig::new("m".to_string()).with_tool_allowlist(Some(vec![])),
    );
    assert!(none.advertised_tool_names().is_empty());
}

// ---------------------------------------------------------------------------
// Replies
// ---------------------------------------------------------------------------

#[test]
fn tool_call_path_resolves_name_via_registry_and_appends_history() {
    let r = registry(vec![tool(7, "memory.read")]);
    let mut p = begun(&r, "haiku-4-5", "recall");
    let input = obj(vec![("query", s("yesterday"))]);
    let c = call(&r, "toolu_01", "memory.read", input);
    match step(&mut p, &r, vec![tool_calls(vec![c])]) {
        NextStep::ToolCall { tool_id, input, auto_corrected_from, extracted_from_text } => {
            assert_eq!(tool_id, ToolId(7));
            assert_eq!(input, obj(vec![("query", s("yesterday"))]));
            assert_eq!(auto_corrected_from, None);
            assert_eq!(extracted_from_text, None);
        }
        other => panic!("expected ToolCall, got {other:?}"),
    }
    match &p.history()[1] {
        LlmMessage::Assistant { tool_calls, .. } => {
            assert_eq!(tool_calls.len(), 1);
            assert_eq!(tool_calls[0].call_id, "toolu_01");
            assert_eq!(tool_calls[0].tool_name, "memory.read");
        }
        other => panic!("expected Assistant at index 1, got {other:?}"),
    }
}

#[test]
fn observe_tool_outcome_appends_success_result_to_history() {
    let r = registry(vec![tool(7, "memory.read")]);
    let mut p = begun(&r, "haiku-4-5", "go");
    let c = call(&r, "toolu_42", "memory.read", empty());
    step(&mut p, &r, vec![tool_calls(vec![c])]);
    let output = obj(vec![
        ("found", Json::Unsigned(3)),
        ("items", Json::Array(vec![s("a"), s("b"), s("c")])),
    ]);
    let outcome = ToolOutcome::Completed { output, verified: Verification::NotApplicable };
    p.observe_tool_outcome(&r, ToolId(7), &outcome);
    let (call_id, content, is_error) = result_of(last(&p));
    assert_eq!(call_id, "toolu_42");
    assert!(!is_error);
    assert_eq!(content, "{\"found\":3,\"items\":[\"a\",\"b\",\"c\"]}");
    assert_eq!(parsed(content)["items"][2], "c");
}

#[test]
fn tool_result_texts_collects_only_tool_result_content() {
    let r = registry(vec![tool(7, "memory.read")]);
    let mut p = planner(&r, "haiku-4-5");
    let outcome = ToolOutcome::Completed {
        output: obj(vec![("registration", s("VH-EZT"))]),
        verified: Verification::NotApplicable,
    };
    p.observe_tool_outcome(&r, ToolId(7), &outcome);
    let texts = p.tool_result_texts();
    assert_eq!(texts.len(), 1);
    assert!(texts[0].contains("VH-EZT"), "{texts:?}");
    assert_eq!(result_of(last(&p)).0, "unknown-call");
}

#[test]
fn observe_tool_outcome_nudges_after_three_consecutive_failures() {
    let r = registry(vec![tool(7, "web_search")]);
    let mut p = planner(&r, "haiku-4-5");
    for _ in 0..3 {
        p.observe_tool_outcome(&r, ToolId(7), &internal("search backend down"));
    }
    let (_, content, is_error) = result_of(last(&p));
    assert!(is_error);
    assert!(content.contains("failed 3 times in a row"), "{content}");
    assert!(content.contains("web_search"), "{content}");
    assert_eq!(
        content,
        "{\"error\":\"failed\",\"message\":\"search backend down\"}\n\n[SYSTEM NOTE: web_search \
         has failed 3 times in a row. Stop retrying it — report the outage to the operator \
         instead of trying an unrelated approach.]"
    );
}

#[test]
fn an_unregistered_tool_is_blamed_without_a_name() {
    let r = registry(vec![]);
    let mut p = planner(&r, "m");
    for _ in 0..3 {
        p.observe_tool_outcome(&r, ToolId(7), &internal("x"));
    }
    assert!(result_of(last(&p)).1.contains("[SYSTEM NOTE: the tool has failed"));
}

#[test]
fn tool_result_texts_excludes_the_failure_nudge_text() {
    let r = registry(vec![tool(7, "web_search")]);
    let mut p = planner(&r, "haiku-4-5");
    for _ in 0..3 {
        p.observe_tool_outcome(&r, ToolId(7), &internal("down"));
    }
    let texts = p.tool_result_texts();
    assert_eq!(texts.len(), 3);
    assert!(!texts[2].contains("SYSTEM NOTE"), "{:?}", texts[2]);
    assert_eq!(texts[2], texts[0]);
}

#[test]
fn observe_tool_outcome_nudge_fires_once_not_on_every_later_failure() {
    let r = registry(vec![tool(7, "web_search")]);
    let mut p = planner(&r, "haiku-4-5");
    for _ in 0..4 {
        p.observe_tool_outcome(&r, ToolId(7), &internal("down"));
    }
    assert!(!result_of(last(&p)).1.contains("failed 3 times in a row"));
    assert_eq!(results_with(&p, "failed 3 times in a row"), 1);
}

#[test]
fn observe_tool_outcome_failure_streak_resets_on_different_tool() {
    let r = registry(vec![tool(1, "web_search"), tool(2, "web.fetch")]);
    let mut p = planner(&r, "haiku-4-5");
    for id in [1, 1, 2, 1] {
        p.observe_tool_outcome(&r, ToolId(id), &internal("down"));
    }
    assert!(!result_of(last(&p)).1.contains("failed 3 times in a row"));
}

#[test]
fn observe_tool_outcome_failure_streak_resets_on_success() {
    let r = registry(vec![tool(1, "web_search")]);
    let mut p = planner(&r, "haiku-4-5");
    let success =
        ToolOutcome::Completed { output: empty(), verified: Verification::NotApplicable };
    for outcome in [internal("d"), internal("d"), success, internal("d"), internal("d")] {
        p.observe_tool_outcome(&r, ToolId(1), &outcome);
    }
    assert!(!result_of(last(&p)).1.contains("failed 3 times in a row"));
}

#[test]
fn observe_tool_outcome_serializes_denied_as_structured_error() {
    let r = registry(vec![tool(1, "shell.exec")]);
    let mut p = begun(&r, "haiku-4-5", "run stuff");
    step(&mut p, &r, vec![tool_calls(vec![call(&r, "toolu_denied", "shell.exec", empty())])]);
    let outcome = ToolOutcome::Denied { scope: "shell.exec:rm".to_string() };
    p.observe_tool_outcome(&r, ToolId(1), &outcome);
    let (_, content, is_error) = result_of(last(&p));
    assert!(is_error);
    assert_eq!(parsed(content)["error"], "denied");
    assert!(parsed(content)["message"].as_str().unwrap().contains("shell.exec:rm"));
}

#[test]
fn failed_outcome_produces_failed_envelope() {
    let (content, is_error) = render_tool_result(&internal("boom"));
    assert!(is_error);
    assert_eq!(parsed(&content)["error"], "failed");
    assert!(parsed(&content)["message"].as_str().unwrap().contains("boom"));
}

#[test]
fn rate_limited_outcome_produces_rate_limited_envelope() {
    let outcome = ToolOutcome::RateLimited {
        tool_name: "web.fetch".to_string(),
        reason: "per-turn cap for `web.fetch` reached: 6 of 6".to_string(),
    };
    let (content, is_error) = render_tool_result(&outcome);
    assert!(is_error);
    assert_eq!(parsed(&content)["error"], "rate_limited");
    assert!(parsed(&content)["message"].as_str().unwrap().contains("web.fetch"));
    assert!(parsed(&content)["message"].as_str().unwrap().contains("per-turn cap"));
    assert_eq!(outcome.summary(), ToolOutcomeSummary::RateLimited);
    assert_ne!(outcome.summary(), ToolOutcomeSummary::Denied);
    assert_ne!(outcome.summary(), ToolOutcomeSummary::NotInRole);
}

#[test]
fn outcomes_answer_the_calls_in_order() {
    let r = registry(vec![tool(1, "fs.read"), tool(2, "memory.read")]);
    let mut p = begun(&r, "m", "both");
    let calls = vec![call(&r, "one", "fs.read", empty()), call(&r, "two", "memory.read", empty())];
    step(&mut p, &r, vec![tool_calls(calls)]);
    let done = ToolOutcome::Completed { output: empty(), verified: Verification::Verified };
    p.observe_tool_outcome(&r, ToolId(1), &done);
    assert_eq!(result_of(last(&p)).0, "one");
    p.observe_tool_outcome(&r, ToolId(2), &done);
    assert_eq!(result_of(last(&p)).0, "two");
}

#[test]
fn unknown_tool_name_synthesizes_error_and_retries() {
    let r = registry(vec![tool(1, "memory.read")]);
    let mut p = begun(&r, "haiku-4-5", "help");
    let bad = call(&r, "toolu_bad", "does.not.exist", empty());
    let next = step(&mut p, &r, vec![tool_calls(vec![bad]), final_message("giving up")]);
    assert_eq!(next, NextStep::FinalMessage("giving up".to_string()));
    assert_eq!(results_with(&p, "unknown_tool"), 1);
}

#[test]
fn phase_120_fuzzy_recovery_dispatches_close_match() {
    let r = registry(vec![tool(4, "fs.read")]);
    let mut p = begun(&r, "local-qwen", "read a file");
    match step(&mut p, &r, vec![tool_calls(vec![call(&r, "c1", "fs_read", empty())])]) {
        NextStep::ToolCall { tool_id, auto_corrected_from, .. } => {
            assert_eq!(tool_id, ToolId(4));
            assert_eq!(auto_corrected_from.as_deref(), Some("fs_read"));
        }
        other => panic!("expected ToolCall with auto-correction, got {other:?}"),
    }
}

#[test]
fn phase_120_below_threshold_synthesizes_unknown_tool_error() {
    let r = registry(vec![tool(4, "memory.read")]);
    let mut p = begun(&r, "local-qwen", "do it");
    let bad = call(&r, "c1", "do_the_thing", empty());
    let next = step(&mut p, &r, vec![tool_calls(vec![bad]), final_message("giving up")]);
    assert_eq!(next, NextStep::FinalMessage("giving up".to_string()));
    assert_eq!(results_with(&p, "unknown_tool"), 1);
}

#[test]
fn phase_120_known_name_dispatches_with_no_auto_correction() {
    let r = registry(vec![tool(4, "fs.read")]);
    let mut p = begun(&r, "m", "read");
    match step(&mut p, &r, vec![tool_calls(vec![call(&r, "c1", "fs.read", empty())])]) {
        NextStep::ToolCall { tool_id, auto_corrected_from, .. } => {
            assert_eq!(tool_id, ToolId(4));
            assert!(auto_corrected_from.is_none());
        }
        other => panic!("expected ToolCall, got {other:?}"),
    }
}

#[test]
fn phase_120_fuzzy_recover_picks_best_match() {
    let r = registry(vec![tool(1, "fs.read"), tool(2, "web.fetch")]);
    let resolved = fuzzy_recover_tool_name(&r, &scores(&r, "fs_read"), 0.80f32.to_bits());
    assert_eq!(resolved, Some(ToolId(1)));
}

#[test]
fn phase_120_fuzzy_recover_returns_none_when_no_match_clears_threshold() {
    let r = registry(vec![tool(1, "memory.read")]);
    let resolved = fuzzy_recover_tool_name(&r, &scores(&r, "do_the_thing"), 0.80f32.to_bits());
    assert!(resolved.is_none());
}

#[test]
fn phase_120_fuzzy_recover_returns_none_for_empty_registry() {
    let r = registry(vec![]);
    let resolved = fuzzy_recover_tool_name(&r, &scores(&r, "fs_read"), 0.80f32.to_bits());
    assert!(resolved.is_none());
}

#[test]
fn thresholds_outside_the_range_of_similarities_decide_alike_for_all() {
    let r = registry(vec![tool(1, "fs.read"), tool(2, "web.fetch")]);
    let given = vec![0.0f32.to_bits(), 0.25f32.to_bits()];
    let recover = |t: f32| fuzzy_recover_tool_name(&r, &given, t.to_bits());
    assert_eq!(recover(-0.5), Some(ToolId(2)));
    assert_eq!(recover(-0.0), Some(ToolId(2)));
    assert_eq!(recover(f32::NEG_INFINITY), Some(ToolId(2)));
    assert_eq!(recover(0.25), Some(ToolId(2)));
    assert_eq!(recover(0.26), None);
    assert_eq!(recover(1.5), None);
    assert_eq!(recover(f32::INFINITY), None);
    assert_eq!(recover(f32::NAN), None);
    assert_eq!(recover(-f32::NAN), None);
}

#[test]
fn phase_120_planner_config_default_threshold_matches_const() {
    let config = LlmPlannerConfig::new("m".to_string());
    let held = f32::from_bits(config.tool_name_auto_correct_threshold);
    assert!((held - f32::from_bits(FUZZY_TOOL_NAME_THRESHOLD)).abs() < 1e-6);
    assert!((held - 0.80).abs() < 1e-6);
}

#[test]
fn phase_120_with_tool_name_auto_correct_threshold_overrides() {
    let config = LlmPlannerConfig::new("m".to_string())
        .with_tool_name_auto_correct_threshold(0.55f32.to_bits());
    assert!((f32::from_bits(config.tool_name_auto_correct_threshold) - 0.55).abs() < 1e-6);
}

#[test]
fn phase_120_top_n_orders_by_similarity_descending() {
    let r = registry(vec![tool(1, "fs.read"), tool(2, "fs.write"), tool(3, "web.fetch")]);
    let top = top_n_similar_tools(&r, &scores(&r, "fs_read"), 3);
    assert_eq!(top.len(), 3);
    assert_eq!(top[0].0, "fs.read");
    assert_eq!(top[1].0, "fs.write");
    assert_eq!(top[2].0, "web.fetch");
    assert!(top[0].1 > top[1].1);
    assert!(top[1].1 > top[2].1);
}

#[test]
fn phase_120_top_n_caps_at_n() {
    let r = registry(vec![
        tool(1, "fs.read"),
        tool(2, "fs.write"),
        tool(3, "web.fetch"),
        tool(4, "memory.read"),
        tool(5, "memory.write"),
    ]);
    assert_eq!(top_n_similar_tools(&r, &scores(&r, "fs_read"), 3).len(), 3);
}

#[test]
fn phase_120_top_n_returns_empty_for_empty_registry() {
    let r = registry(vec![]);
    assert!(top_n_similar_tools(&r, &scores(&r, "fs_read"), 3).is_empty());
}

#[test]
fn equal_scores_keep_the_order_of_registration() {
    let r = registry(vec![tool(1, "a.x"), tool(2, "b.x"), tool(3, "c.x")]);
    let top = top_n_similar_tools(&r, &vec![5, 9, 5], 3);
    assert_eq!(
        top,
        vec![("b.x".to_string(), 9), ("a.x".to_string(), 5), ("c.x".to_string(), 5)]
    );
    assert_eq!(fuzzy_recover_tool_name(&r, &vec![5, 9, 9], 5), Some(ToolId(2)));
}

#[test]
fn phase_120_build_unknown_message_includes_suggestions() {
    let suggestions = vec![
        ("fs.read".to_string(), 1.0f32.to_bits()),
        ("fs.write".to_string(), 0.5f32.to_bits()),
        ("memory.read".to_string(), 0.33f32.to_bits()),
    ];
    let msg = build_unknown_tool_message("fs_read", &suggestions);
    assert!(msg.contains("'fs_read'"));
    assert!(msg.contains("Did you mean"));
    let pos_a = msg.find("'fs.read'").unwrap();
    let pos_b = msg.find("'fs.write'").unwrap();
    let pos_c = msg.find("'memory.read'").unwrap();
    assert!(pos_a < pos_b);
    assert!(pos_b < pos_c);
}

#[test]
fn phase_120_build_unknown_message_falls_back_for_empty_registry() {
    let msg = build_unknown_tool_message("fs_read", &vec![]);
    assert!(msg.contains("'fs_read'"));
    assert!(msg.contains("no tools available"));
    assert!(!msg.contains("Did you mean"));
}

#[test]
fn phase_120_below_threshold_includes_did_you_mean_in_history() {
    let r = registry(vec![tool(1, "fs.read"), tool(2, "web.fetch")]);
    let mut p = begun(&r, "m", "do it");
    let bad = call(&r, "c1", "do_the_thing", empty());
    step(&mut p, &r, vec![tool_calls(vec![bad]), final_message("ok")]);
    let (_, body, is_error) = result_of(&p.history()[2]);
    assert!(is_error);
    assert_eq!(parsed(body)["error"], "unknown_tool");
    assert!(!parsed(body)["did_you_mean"].as_array().unwrap().is_empty());
    assert!(parsed(body)["message"].as_str().unwrap().contains("Did you mean"));
}

#[test]
fn without_tools_nothing_is_suggested() {
    let r = registry(vec![]);
    let c = call(&r, "c1", "fs.read", empty());
    match settle_call(&r, FUZZY_TOOL_NAME_THRESHOLD, &c, None) {
        CallVerdict::Unknown(body) => assert_eq!(
            body,
            "{\"error\":\"unknown_tool\",\"message\":\"tool 'fs.read' is not registered. (no \
             tools available in this role)\"}"
        ),
        other => panic!("expected Unknown, got {other:?}"),
    }
}

#[test]
fn phase_120_zero_threshold_disables_fuzzy_recovery() {
    let r = registry(vec![tool(1, "fs.read")]);
    let mut p = LlmPlanner::new(
        &r,
        LlmPlannerConfig::new("m".to_string())
            .with_tool_name_auto_correct_threshold(1.0f32.to_bits()),
    );
    p.begin_turn(&text_message("read"), no_replies());
    let partial = call(&r, "c1", "fs_rea", empty());
    let next = step(&mut p, &r, vec![tool_calls(vec![partial]), final_message("giving up")]);
    assert_eq!(next, NextStep::FinalMessage("giving up".to_string()));
    assert_eq!(results_with(&p, "unknown_tool"), 1);
    // The bound is inclusive.
    let same_words = call(&r, "c2", "fs_read", empty());
    assert!(matches!(
        step(&mut p, &r, vec![tool_calls(vec![same_words])]),
        NextStep::ToolCall { .. }
    ));
}

#[test]
fn provider_error_surfaces_as_final_message() {
    let r = registry(vec![]);
    let mut p = begun(&r, "haiku-4-5", "hi");
    let next = step(&mut p, &r, vec![LlmStepEnd::Failed("provider exhausted".to_string())]);
    assert_eq!(next, NextStep::FinalMessage("LLM error: provider exhausted".to_string()));
    assert_eq!(p.history().len(), 1);
}

#[test]
fn mid_stream_cancel_returns_next_step_stop() {
    let r = registry(vec![]);
    let mut p = begun(&r, "haiku-4-5", "hi");
    assert_eq!(step(&mut p, &r, vec![LlmStepEnd::Cancelled]), NextStep::Stop);
    assert_eq!(p.history().len(), 1);
}

#[test]
fn multi_tool_calls_returns_next_step_tool_calls_batch() {
    let r = registry(vec![tool(1, "fs.read"), tool(2, "memory.read")]);
    let mut p = begun(&r, "haiku-4-5", "do both");
    let calls = vec![
        call(&r, "toolu_a", "fs.read", obj(vec![("path", s("/x"))])),
        call(&r, "toolu_b", "memory.read", obj(vec![("topic", s("notes"))])),
    ];
    match step(&mut p, &r, vec![tool_calls(calls)]) {
        NextStep::ToolCalls(batch) => {
            assert_eq!(batch.len(), 2);
            assert_eq!(batch[0].tool_id, ToolId(1));
            assert_eq!(batch[0].input, obj(vec![("path", s("/x"))]));
            assert_eq!(batch[1].tool_id, ToolId(2));
            assert_eq!(batch[1].input, obj(vec![("topic", s("notes"))]));
        }
        other => panic!("expected ToolCalls batch, got {other:?}"),
    }
    match &p.history()[1] {
        LlmMessage::Assistant { tool_calls, .. } => assert_eq!(tool_calls.len(), 2),
        other => panic!("expected Assistant, got {other:?}"),
    }
}

#[test]
fn multi_tool_with_unknown_executes_known_and_errors_unknown() {
    let r = registry(vec![tool(1, "fs.read"), tool(2, "memory.read")]);
    let mut p = begun(&r, "haiku-4-5", "go");
    let calls = vec![
        call(&r, "toolu_a", "fs.read", empty()),
        call(&r, "toolu_bad", "does.not.exist", empty()),
        call(&r, "toolu_b", "memory.read", empty()),
    ];
    match step(&mut p, &r, vec![tool_calls(calls)]) {
        NextStep::ToolCalls(batch) => {
            assert_eq!(batch.len(), 2);
            assert_eq!(batch[0].tool_id, ToolId(1));
            assert_eq!(batch[1].tool_id, ToolId(2));
        }
        other => panic!("expected ToolCalls batch, got {other:?}"),
    }
    let (call_id, _, is_error) = result_of(&p.history()[2]);
    assert_eq!(call_id, "toolu_bad");
    assert!(is_error);
}

// ---------------------------------------------------------------------------
// Validation and repair
// ---------------------------------------------------------------------------

#[test]
fn validate_accepts_well_formed_input() {
    assert!(validate_tool_input(&path_schema(), &obj(vec![("path", s("notes.txt"))])).is_ok());
}

#[test]
fn validate_rejects_missing_required_field() {
    let err = validate_tool_input(&path_schema(), &empty()).unwrap_err();
    assert!(err.contains("path"), "{err}");
}

#[test]
fn validate_rejects_wrong_typed_field() {
    let err =
        validate_tool_input(&path_schema(), &obj(vec![("path", Json::Unsigned(123))])).unwrap_err();
    assert!(!err.is_empty());
}

#[test]
fn validate_reads_values_of_every_kind_and_depth() {
    let of_type = |name: &str| obj(vec![("type", s(name))]);
    let mut deep = Json::Null;
    for _ in 0..300 {
        deep = Json::Array(vec![deep]);
    }
    let given = [
        (Json::Null, "null"),
        (Json::Bool(true), "boolean"),
        (Json::Unsigned(u64::MAX), "integer"),
        (Json::Signed(i64::MIN), "integer"),
        (Json::Float("1.5".to_string()), "number"),
        (s("a"), "string"),
        (deep, "array"),
        (empty(), "object"),
    ];
    for (value, own) in &given {
        for name in ["null", "boolean", "integer", "number", "string", "array", "object"] {
            let fits = name == *own || (name == "number" && *own == "integer");
            assert_eq!(validate_tool_input(&of_type(name), value).is_ok(), fits, "{own} {name}");
        }
    }
    let exact = obj(vec![("const", Json::Float("31.245270191439438".to_string()))]);
    assert!(validate_tool_input(&exact, &Json::Float("31.245270191439438".to_string())).is_ok());
    assert!(validate_tool_input(&exact, &Json::Float("31.24527019143944".to_string())).is_err());
}

#[test]
fn validate_tolerates_extra_unschemad_field() {
    let input = obj(vec![("hallucinated", Json::Bool(true)), ("path", s("x"))]);
    assert!(validate_tool_input(&path_schema(), &input).is_ok());
}

#[test]
fn validate_fails_open_on_a_malformed_schema() {
    let input = obj(vec![("anything", Json::Bool(true))]);
    assert!(validate_tool_input(&Json::Unsigned(42), &input).is_ok());
}

#[test]
fn well_formed_call_dispatches_without_a_repair_round() {
    let r = registry(vec![tool_with(1, "fs.read", path_schema())]);
    let mut p = begun(&r, "m", "go");
    let c = call(&r, "c1", "fs.read", obj(vec![("path", s("ok.txt"))]));
    match step(&mut p, &r, vec![tool_calls(vec![c])]) {
        NextStep::ToolCall { tool_id, .. } => assert_eq!(tool_id, ToolId(1)),
        other => panic!("expected ToolCall, got {other:?}"),
    }
    assert_eq!(results_with(&p, "invalid_input"), 0);
}

#[test]
fn malformed_call_is_repaired_then_dispatched() {
    let r = registry(vec![tool_with(1, "fs.read", path_schema())]);
    let mut p = begun(&r, "m", "go");
    let bad = call(&r, "c1", "fs.read", empty());
    let good = call(&r, "c2", "fs.read", obj(vec![("path", s("fixed.txt"))]));
    match step(&mut p, &r, vec![tool_calls(vec![bad]), tool_calls(vec![good])]) {
        NextStep::ToolCall { tool_id, input, .. } => {
            assert_eq!(tool_id, ToolId(1));
            assert_eq!(input, obj(vec![("path", s("fixed.txt"))]));
        }
        other => panic!("expected the repaired ToolCall, got {other:?}"),
    }
    assert_eq!(results_with(&p, "invalid_input"), 1);
    let (call_id, body, _) = result_of(&p.history()[2]);
    assert_eq!(call_id, "c1");
    assert_eq!(parsed(body)["expected_schema"]["required"][0], "path");
}

#[test]
fn two_repair_rounds_then_dispatch_as_is() {
    let r = registry(vec![tool_with(1, "fs.read", path_schema())]);
    let mut p = begun(&r, "m", "go");
    let bad = || tool_calls(vec![call(&r, "c", "fs.read", empty())]);
    let next = step(&mut p, &r, vec![bad(), bad(), bad()]);
    assert!(matches!(next, NextStep::ToolCall { .. }), "{next:?}");
    assert_eq!(results_with(&p, "invalid_input"), 2);
}

#[test]
fn mixed_batch_dispatches_valid_call_and_errors_invalid_one() {
    let r = registry(vec![
        tool_with(1, "fs.read", path_schema()),
        tool_with(2, "fs.write", path_schema()),
    ]);
    let mut p = begun(&r, "m", "go");
    let calls = vec![
        call(&r, "ok", "fs.read", obj(vec![("path", s("ok.txt"))])),
        call(&r, "bad", "fs.write", empty()),
    ];
    match step(&mut p, &r, vec![tool_calls(calls)]) {
        NextStep::ToolCall { tool_id, .. } => assert_eq!(tool_id, ToolId(1)),
        other => panic!("expected the valid ToolCall, got {other:?}"),
    }
    assert_eq!(results_with(&p, "invalid_input"), 1);
}

#[test]
fn an_input_problem_goes_back_with_the_schema() {
    let r = registry(vec![tool_with(1, "fs.read", plain_schema())]);
    let c = call(&r, "c", "fs.read", empty());
    let verdict = settle_call(&r, FUZZY_TOOL_NAME_THRESHOLD, &c, Some("no path".to_string()));
    assert_eq!(
        verdict,
        CallVerdict::Invalid(
            "{\"error\":\"invalid_input\",\"expected_schema\":{\"type\":\"object\"},\
             \"message\":\"no path\"}"
                .to_string()
        )
    );
    assert!(matches!(
        process_one_call(&r, FUZZY_TOOL_NAME_THRESHOLD, &c, true),
        CallVerdict::Dispatch(_)
    ));
}

// ---------------------------------------------------------------------------
// Calls in the text
// ---------------------------------------------------------------------------

#[test]
fn phase_126_tool_code_extraction_dispatches_known_call() {
    let r = registry(vec![tool(3, "fs.read")]);
    let mut p = begun(&r, "test-model", "read x.txt");
    let e = extract(&r, "fs.read", obj(vec![("path", s("x.txt"))]), "tool_code");
    match step(&mut p, &r, vec![extracted_message("I'll read the file.", vec![e])]) {
        NextStep::ToolCall { tool_id, input, auto_corrected_from, extracted_from_text } => {
            assert_eq!(tool_id, ToolId(3));
            assert_eq!(input, obj(vec![("path", s("x.txt"))]));
            assert!(auto_corrected_from.is_none());
            assert_eq!(extracted_from_text.as_deref(), Some("tool_code"));
        }
        other => panic!("expected ToolCall, got {other:?}"),
    }
}

#[test]
fn phase_126_extraction_falls_through_to_final_message_when_no_blocks() {
    let r = registry(vec![]);
    let mut p = begun(&r, "test-model", "say hi");
    let text = "Just regular prose without any tool-call markers.";
    let next = step(&mut p, &r, vec![extracted_message(text, vec![])]);
    assert_eq!(next, NextStep::FinalMessage(text.to_string()));
}

#[test]
fn phase_126_extraction_composes_with_phase_120_fuzzy_recovery() {
    let r = registry(vec![tool(3, "fs.write")]);
    let mut p = LlmPlanner::new(
        &r,
        LlmPlannerConfig::new("test-model".to_string())
            .with_tool_name_auto_correct_threshold(0.5f32.to_bits()),
    );
    p.begin_turn(&text_message("save it"), no_replies());
    let arguments = obj(vec![("content", s("y")), ("path", s("x"))]);
    let e = extract(&r, "fs.write_file", arguments, "tool_call");
    match step(&mut p, &r, vec![extracted_message("<tool_call>", vec![e])]) {
        NextStep::ToolCall { tool_id, auto_corrected_from, extracted_from_text, .. } => {
            assert_eq!(tool_id, ToolId(3));
            assert_eq!(auto_corrected_from.as_deref(), Some("fs.write_file"));
            assert_eq!(extracted_from_text.as_deref(), Some("tool_call"));
        }
        other => panic!("expected ToolCall, got {other:?}"),
    }
}

#[test]
fn phase_126_unknown_tool_in_extracted_call_below_threshold_loops_with_error() {
    let r = registry(vec![]);
    let mut p = begun(&r, "test-model", "do thing");
    let e = extract(&r, "nonexistent.tool", empty(), "tool_code");
    let next = step(
        &mut p,
        &r,
        vec![extracted_message("<tool_code>", vec![e]), final_message("sorry, retrying")],
    );
    assert_eq!(next, NextStep::FinalMessage("sorry, retrying".to_string()));
    assert_eq!(results_with(&p, "unknown_tool"), 1);
}

#[test]
fn phase_126_multiple_extracted_calls_dispatch_as_batch() {
    let r = registry(vec![tool(1, "fs.read"), tool(2, "memory.read")]);
    let mut p = begun(&r, "test-model", "two tasks");
    let extracted = vec![
        extract(&r, "fs.read", obj(vec![("path", s("x"))]), "tool_code"),
        extract(&r, "memory.read", obj(vec![("topic", s("y"))]), "tool_code"),
    ];
    match step(&mut p, &r, vec![extracted_message("Doing two things:", extracted)]) {
        NextStep::ToolCalls(batch) => {
            assert_eq!(batch.len(), 2);
            assert_eq!(batch[0].tool_id, ToolId(1));
            assert_eq!(batch[1].tool_id, ToolId(2));
            assert_eq!(batch[0].extracted_from_text.as_deref(), Some("tool_code"));
            assert_eq!(batch[1].extracted_from_text.as_deref(), Some("tool_code"));
        }
        other => panic!("expected ToolCalls, got {other:?}"),
    }
}

#[test]
fn phase_126_history_preserves_raw_text_with_tool_code_block() {
    let r = registry(vec![tool(1, "fs.read")]);
    let mut p = begun(&r, "test-model", "x");
    let raw = "<tool_code>{\"name\": \"fs.read\", \"arguments\": {\"path\": \"x\"}}</tool_code>";
    let e = extract(&r, "fs.read", obj(vec![("path", s("x"))]), "tool_code");
    step(&mut p, &r, vec![extracted_message(raw, vec![e])]);
    match &p.history()[1] {
        LlmMessage::Assistant { text, tool_calls } => {
            assert_eq!(text, raw);
            assert_eq!(tool_calls.len(), 1);
            assert_eq!(tool_calls[0].tool_name, "fs.read");
            assert!(tool_calls[0].call_id.starts_with("extracted-"));
            assert_eq!(tool_calls[0].call_id.len(), "extracted-".len() + 36);
        }
        other => panic!("expected Assistant, got {other:?}"),
    }
}

#[test]
fn extracted_calls_get_ids_of_their_own() {
    let r = registry(vec![tool(1, "fs.read")]);
    let calls = synthesize_calls(vec![
        extract(&r, "fs.read", empty(), "a"),
        extract(&r, "fs.read", empty(), "b"),
    ]);
    assert_eq!(calls.len(), 2);
    assert_ne!(calls[0].call_id, calls[1].call_id);
    let digits = &calls[0].call_id["extracted-".len()..];
    for (i, c) in digits.chars().enumerate() {
        if [8, 13, 18, 23].contains(&i) {
            assert_eq!(c, '-');
        } else {
            assert!(c.is_ascii_digit() || ('a'..='f').contains(&c), "{digits}");
        }
    }
    assert_eq!(calls[1].extracted_from_text.as_deref(), Some("b"));
    let given = extract(&r, "fs.read", empty(), "c");
    assert_eq!(
        synthesize_call(&given, "17"),
        PlannedCall {
            call_id: "extracted-17".to_string(),
            tool_name: "fs.read".to_string(),
            input: empty(),
            similarity: scores(&r, "fs.read"),
            extracted_from_text: Some("c".to_string()),
        }
    );
}

// ---------------------------------------------------------------------------
// Pruning
// ---------------------------------------------------------------------------

#[test]
fn context_window_defaults_to_none() {
    assert_eq!(LlmPlannerConfig::new("test-model".to_string()).context_window_tokens, None);
}

#[test]
fn context_window_builder() {
    let config = LlmPlannerConfig::new("test-model".to_string()).with_context_window(200_000);
    assert_eq!(config.context_window_tokens, Some(200_000));
}

fn tokens(m: &LlmMessage) -> usize {
    match m {
        LlmMessage::User { content } => content
            .iter()
            .map(|b| match b {
                ContentBlock::Text { text } => text.len(),
                _ => 0,
            })
            .sum::<usize>()
            / 4,
        LlmMessage::Assistant { text, .. } => text.len() / 4,
        LlmMessage::ToolResult { content, .. } => content.len() / 4,
    }
}

fn estimate(p: &LlmPlanner) -> TokenEstimate {
    let each: Vec<usize> = p.history().iter().map(tokens).collect();
    TokenEstimate { system: 0, history: each.iter().sum(), each }
}

/// Prunes as a step does before it asks the model.
fn prune(p: &mut LlmPlanner) -> Option<PruneReport> {
    let before = estimate(p);
    let report = p.prune(&before);
    if report.is_some() {
        let after = estimate(p).history;
        p.record_pruned(0, after);
    }
    report
}

fn windowed(window: usize) -> LlmPlanner {
    LlmPlanner::new(
        &registry(vec![]),
        LlmPlannerConfig::new("test".to_string()).with_context_window(window),
    )
}

/// A conversation of user messages; the last one is the task.
fn filled(window: usize, texts: Vec<String>) -> LlmPlanner {
    let mut p = windowed(window);
    for text in texts {
        p.begin_turn(&text_message(&text), no_replies());
    }
    p
}

#[test]
fn a_retry_that_outgrows_the_window_is_cut_too() {
    let r = registry(vec![tool(1, "fs.read")]);
    let mut p = LlmPlanner::new(
        &r,
        LlmPlannerConfig::new("test".to_string()).with_context_window(200),
    );
    p.begin_turn(&text_message(&"t".repeat(200)), no_replies());
    assert_eq!(prune(&mut p), None);
    assert_eq!(p.request(50).messages.len(), 1);
    // The reply and the error that answers it take more than what is left.
    let reply = LlmStepEnd::ToolCalls {
        calls: vec![call(&r, "c1", "no.such.thing", empty())],
        text_so_far: "x".repeat(600),
        usage: zero_usage(),
    };
    assert_eq!(p.next_step(&r, reply, &None, true, 0), StepNext::AskAgain(0));
    assert_eq!(p.history().len(), 3);
    let report = prune(&mut p).unwrap();
    assert_eq!(report.count, 2);
    assert_eq!(p.pruned_message_count(), 2);
    let request = p.request(60);
    assert_eq!(
        user_content(&request.messages[0]),
        &vec![text_block("[Earlier context pruned: 2 messages removed to fit context window]")]
    );
    assert_eq!(user_content(&request.messages[1]), &vec![text_block(&"t".repeat(200))]);
    assert_eq!(result_of(&request.messages[2]).0, "c1");
}

#[test]
fn pruning_skipped_when_under_budget() {
    let mut p = filled(200_000, (0..5).map(|i| format!("msg{i}")).collect());
    step(&mut p, &registry(vec![]), vec![final_message("ok")]);
    assert_eq!(p.pruned_message_count(), 0);
    // The five messages and the reply.
    assert_eq!(p.history().len(), 6);
}

#[test]
fn pruning_drops_oldest_when_over_budget() {
    let texts = (0..10).map(|i| format!("message-{i}-{}", "x".repeat(100))).collect();
    let mut p = filled(200, texts);
    step(&mut p, &registry(vec![]), vec![final_message("ok")]);
    // Each message is estimated at 27 tokens, and 160 are allowed.
    assert_eq!(p.pruned_message_count(), 5);
    assert_eq!(
        user_content(&p.history()[0]),
        &vec![text_block("[Earlier context pruned: 5 messages removed to fit context window]")]
    );
    assert_eq!(p.history().len(), 7);
}

#[test]
fn pruning_preserves_at_least_last_message() {
    let mut p = filled(10, vec!["a]".repeat(50), "b".repeat(200)]);
    step(&mut p, &registry(vec![]), vec![final_message("ok")]);
    assert_eq!(p.pruned_message_count(), 1);
    // The notice, the last message and the reply.
    assert_eq!(p.history().len(), 3);
    assert_eq!(user_content(&p.history()[1]), &vec![text_block(&"b".repeat(200))]);
}

#[test]
fn pruning_pins_the_turns_task_message() {
    let r = registry(vec![]);
    let mut p = filled(150, vec!["what is the cruise speed?".to_string()]);
    let outcome =
        ToolOutcome::Completed { output: s(&"h".repeat(398)), verified: Verification::Verified };
    for _ in 0..6 {
        p.observe_tool_outcome(&r, ToolId(1), &outcome);
    }
    step(&mut p, &r, vec![final_message("ok")]);
    assert!(p.pruned_message_count() > 0);
    assert_eq!(user_content(&p.history()[1]), &vec![text_block("what is the cruise speed?")]);
    // The task stays where it is when more is dropped.
    for _ in 0..3 {
        p.observe_tool_outcome(&r, ToolId(1), &outcome);
    }
    prune(&mut p);
    assert_eq!(user_content(&p.history()[1]), &vec![text_block("what is the cruise speed?")]);
}

#[test]
fn pruning_shifts_a_surviving_task_index() {
    let r = registry(vec![]);
    let mut texts: Vec<String> = (0..5).map(|_| "x".repeat(400)).collect();
    texts.push("the task".to_string());
    let mut p = filled(200, texts);
    let outcome =
        ToolOutcome::Completed { output: s(&"y".repeat(198)), verified: Verification::Verified };
    p.observe_tool_outcome(&r, ToolId(1), &outcome);
    step(&mut p, &r, vec![final_message("ok")]);
    let place = p
        .history()
        .iter()
        .position(|m| matches!(m, LlmMessage::User { content } if content[0] == text_block("the task")));
    assert_eq!(place, Some(2));
    // Dropping more rescues it from where it now stands.
    let big =
        ToolOutcome::Completed { output: s(&"z".repeat(900)), verified: Verification::Verified };
    p.observe_tool_outcome(&r, ToolId(1), &big);
    prune(&mut p);
    assert_eq!(user_content(&p.history()[1]), &vec![text_block("the task")]);
}

#[test]
fn pruning_skipped_when_no_context_window() {
    let r = registry(vec![]);
    let mut p = planner(&r, "test");
    for _ in 0..20 {
        p.begin_turn(&text_message(&"x".repeat(1000)), no_replies());
    }
    step(&mut p, &r, vec![final_message("ok")]);
    assert_eq!(p.pruned_message_count(), 0);
    assert_eq!(p.history().len(), 21);
}

#[test]
fn pruning_accumulates_across_steps() {
    let r = registry(vec![tool(1, "echo")]);
    let mut p = LlmPlanner::new(
        &r,
        LlmPlannerConfig::new("test".to_string()).with_context_window(60),
    );
    for i in 0..8 {
        p.begin_turn(&text_message(&format!("bulk-{i}-{}", "y".repeat(80))), no_replies());
    }
    let next = step(&mut p, &r, vec![tool_calls(vec![call(&r, "c1", "echo", empty())])]);
    assert!(matches!(next, NextStep::ToolCall { .. }));
    let first = p.pruned_message_count();
    assert!(first > 0);
    let output = obj(vec![("data", s(&"x".repeat(100)))]);
    let outcome = ToolOutcome::Completed { output, verified: Verification::NotApplicable };
    p.observe_tool_outcome(&r, ToolId(1), &outcome);
    let next = step(&mut p, &r, vec![final_message("done")]);
    assert!(matches!(next, NextStep::FinalMessage(_)));
    assert!(p.pruned_message_count() > first);
}

#[test]
fn turn_usage_reports_pruning_tokens() {
    let texts = (0..10).map(|i| format!("msg-{i}-{}", "x".repeat(100))).collect();
    let mut p = filled(200, texts);
    step(&mut p, &registry(vec![]), vec![final_message("ok")]);
    let u = p.turn_usage();
    assert_eq!(u.context_tokens_before_pruning, 260);
    assert!(u.context_tokens_after_pruning > 0);
    assert!(u.context_tokens_after_pruning < u.context_tokens_before_pruning);
}

#[test]
fn turn_usage_zeroes_when_no_pruning() {
    let mut p = filled(200_000, vec!["short".to_string()]);
    step(&mut p, &registry(vec![]), vec![final_message("ok")]);
    assert_eq!(p.turn_usage().context_tokens_before_pruning, 0);
    assert_eq!(p.turn_usage().context_tokens_after_pruning, 0);
}

#[test]
fn a_sink_gets_a_summary_of_what_is_dropped() {
    let mut p = LlmPlanner::new(
        &registry(vec![]),
        LlmPlannerConfig::new("test".to_string()).with_context_window(10).with_prune_sink(),
    );
    p.begin_turn(&text_message("first of all"), no_replies());
    p.begin_turn(&text_message(&"b".repeat(200)), no_replies());
    let report = prune(&mut p).unwrap();
    assert_eq!(report, PruneReport { count: 1, summary: Some("[user] first of all".to_string()) });
}

#[test]
fn a_window_that_is_too_small_is_reported_though_nothing_goes() {
    let mut p = filled(10, vec!["a".to_string(), "b".to_string()]);
    let tight = TokenEstimate { system: 100, history: 0, each: vec![0, 0] };
    assert_eq!(p.prune(&tight), Some(PruneReport { count: 0, summary: None }));
    assert_eq!(p.history().len(), 2);
    assert_eq!(p.turn_usage().context_tokens_before_pruning, 100);
}

// ---------------------------------------------------------------------------
// Slots
// ---------------------------------------------------------------------------

#[test]
fn compute_prefix_hash_is_stable_for_identical_inputs() {
    let tools = || {
        vec![LlmToolDescriptor {
            name: "read_file".to_string(),
            description: "reads a file".to_string(),
            input_schema: plain_schema(),
        }]
    };
    let system = Some("system prompt text".to_string());
    assert_eq!(compute_prefix_hash(&system, &tools()), compute_prefix_hash(&system, &tools()));
}

#[test]
fn compute_prefix_hash_differs_when_system_text_differs() {
    let tools: Vec<LlmToolDescriptor> = vec![];
    assert_ne!(
        compute_prefix_hash(&Some("prompt A".to_string()), &tools),
        compute_prefix_hash(&Some("prompt B".to_string()), &tools)
    );
}

#[test]
fn compute_prefix_hash_differs_when_tools_differ() {
    let system = Some("same system text".to_string());
    let tools = |name: &str, description: &str| {
        vec![LlmToolDescriptor {
            name: name.to_string(),
            description: description.to_string(),
            input_schema: empty(),
        }]
    };
    assert_ne!(
        compute_prefix_hash(&system, &tools("read_file", "reads")),
        compute_prefix_hash(&system, &tools("write_file", "writes"))
    );
}

#[test]
fn compute_prefix_hash_treats_none_system_distinctly_from_empty_string() {
    let tools: Vec<LlmToolDescriptor> = vec![];
    assert_ne!(
        compute_prefix_hash(&None, &tools),
        compute_prefix_hash(&Some(String::new()), &tools)
    );
}

#[test]
fn the_prefix_hash_is_that_of_the_standard_hasher() {
    let tools = vec![LlmToolDescriptor {
        name: "read_file".to_string(),
        description: "reads".to_string(),
        input_schema: plain_schema(),
    }];
    let mut hasher = std::collections::hash_map::DefaultHasher::new();
    true.hash(&mut hasher);
    "prompt".hash(&mut hasher);
    "read_file".hash(&mut hasher);
    "reads".hash(&mut hasher);
    "{\"type\":\"object\"}".hash(&mut hasher);
    assert_eq!(
        compute_prefix_hash(&Some("prompt".to_string()), &tools),
        format!("{:016x}", hasher.finish())
    );
}

fn cache() -> KvCacheConfig {
    KvCacheConfig {
        backend_id: "test-backend".to_string(),
        model_id: "test-model".to_string(),
        build_hash: "test-build".to_string(),
    }
}

fn key() -> CacheKey {
    CacheKey::new(&cache(), compute_prefix_hash(&None, &vec![]))
}

#[test]
fn ensure_kv_slot_checked_out_skips_entirely_when_a_refiner_is_configured() {
    let p = LlmPlanner::new(
        &registry(vec![]),
        LlmPlannerConfig::new("m".to_string()).with_system_prompt_refiner(),
    )
    .with_kv_cache(cache());
    assert!(!p.wants_slot());
    assert_eq!(p.slot_to_release(), None);
}

#[test]
fn ensure_kv_slot_checked_out_is_idempotent_within_a_turn() {
    let mut p = planner(&registry(vec![]), "m").with_kv_cache(cache());
    assert!(p.wants_slot());
    p.ensure_kv_slot_checked_out(Some((0, None)));
    assert!(!p.wants_slot());
    assert_eq!(p.slot_to_release(), Some(0));
}

#[test]
fn ensure_kv_slot_checked_out_skips_restore_when_the_pool_already_has_this_prefix() {
    let mut p = planner(&registry(vec![]), "m").with_kv_cache(cache());
    let loaded = compute_prefix_hash(&None, &vec![]);
    let next = p.ensure_kv_slot_checked_out(Some((0, Some(loaded))));
    assert_eq!(next.next, KvNext::Finished);
    assert_eq!(next.warning, None);
    assert_eq!(p.request(0).id_slot, Some(0));
}

#[test]
fn ensure_kv_slot_checked_out_does_not_skip_when_the_pool_has_a_different_prefix() {
    let mut p = planner(&registry(vec![]), "m").with_kv_cache(cache());
    let loaded = "some-other-prefix-entirely".to_string();
    let next = p.ensure_kv_slot_checked_out(Some((0, Some(loaded))));
    assert_eq!(next.next, KvNext::Restore { slot: 0, key: key() });
    assert_eq!(p.request(0).id_slot, Some(0));
}

#[test]
fn a_full_pool_leaves_the_turn_without_a_slot() {
    let mut p = planner(&registry(vec![]), "m").with_kv_cache(cache());
    let next = p.ensure_kv_slot_checked_out(None);
    assert_eq!(next.warning, Some(KvWarning::PoolFull));
    assert_eq!(next.next, KvNext::Finished);
    assert_eq!(p.slot_to_release(), None);
}

#[test]
fn a_planner_without_a_cache_wants_no_slot() {
    assert!(!planner(&registry(vec![]), "m").wants_slot());
}

#[test]
fn restoring_ends_in_a_hit_or_a_warm_up() {
    let hit = after_restore(2, key(), RestoreReply::Hit);
    assert!(hit.loaded);
    assert_eq!(hit.next, KvNext::Finished);
    let miss = after_restore(2, key(), RestoreReply::Miss);
    assert!(!miss.loaded);
    assert_eq!(miss.warning, None);
    assert_eq!(miss.next, KvNext::WarmUp { slot: 2, key: key() });
    let failed = after_restore(2, key(), RestoreReply::Failed("io".to_string()));
    assert_eq!(failed.warning, Some(KvWarning::RestoreFailed("io".to_string())));
    assert_eq!(failed.next, KvNext::WarmUp { slot: 2, key: key() });
    let late = after_restore(2, key(), RestoreReply::TimedOut);
    assert_eq!(late.warning, Some(KvWarning::RestoreTimedOut));
}

#[test]
fn only_a_drained_warm_up_is_saved() {
    let drained = after_warm_up(2, key(), WarmUpReply::Drained);
    assert!(drained.loaded);
    assert_eq!(drained.next, KvNext::Save { slot: 2, key: key() });
    for reply in [
        WarmUpReply::StreamErrored,
        WarmUpReply::RequestFailed("no".to_string()),
        WarmUpReply::TimedOut,
    ] {
        let next = after_warm_up(2, key(), reply);
        assert!(!next.loaded);
        assert!(next.warning.is_some());
        assert_eq!(next.next, KvNext::Finished);
    }
}

#[test]
fn saving_ends_the_dealings() {
    assert_eq!(after_save(SaveReply::Saved).warning, None);
    assert_eq!(
        after_save(SaveReply::Failed("disk".to_string())).warning,
        Some(KvWarning::SaveFailed("disk".to_string()))
    );
    assert_eq!(after_save(SaveReply::TimedOut).warning, Some(KvWarning::SaveTimedOut));
}

#[test]
fn a_class_of_warnings_is_printed_once() {
    let mut latch = WarningLatch::new();
    assert!(latch.first_of_its_class(&KvWarning::SaveFailed("a".to_string())));
    assert!(!latch.first_of_its_class(&KvWarning::SaveFailed("b".to_string())));
    assert!(latch.first_of_its_class(&KvWarning::SaveTimedOut));
    assert!(latch.first_of_its_class(&KvWarning::PoolFull));
    assert!(!latch.first_of_its_class(&KvWarning::PoolFull));
    assert_eq!(
        KvWarning::RestoreFailed("x".to_string()).text(),
        "aivyx-pa: kvcache: restore_into_slot failed: x"
    );
    assert_eq!(
        KvWarning::WarmUpTimedOut.text(),
        "aivyx-pa: kvcache: warm-up timed out after 30s; skipping save so a partial/corrupt slot \
         is never recorded as a valid cache entry"
    );
}

#[test]
fn a_slot_is_warmed_up_with_the_prefix_alone() {
    let r = registry(vec![tool(1, "fs.read")]);
    let mut p = LlmPlanner::new(
        &r,
        LlmPlannerConfig::new("m".to_string())
            .with_system_prompt("SYSTEM".to_string())
            .with_temperature(0.2f32.to_bits()),
    )
    .with_kv_cache(cache())
    .with_routing("chat".to_string());
    p.begin_turn(&text_message("private"), no_replies());
    let messages = LlmPlanner::warm_up_messages();
    let request = p.warm_up_request(3, &messages);
    assert_eq!(request.messages.len(), 1);
    assert_eq!(user_content(&request.messages[0]), &vec![text_block("")]);
    assert_eq!(request.system.as_deref(), Some("SYSTEM"));
    assert_eq!(request.tools.len(), 1);
    assert_eq!(request.max_tokens, 1);
    assert_eq!(request.temperature, None);
    assert_eq!(request.id_slot, Some(3));
    assert_eq!(request.slot_hint, None);
    assert_eq!(request.route, None);
}

#[test]
fn broker_slot_hint_mode_skips_local_checkout_and_attaches_slot_hint() {
    let mut p = planner(&registry(vec![]), "m").with_broker_slot_hint();
    assert!(!p.wants_slot());
    p.begin_turn(&text_message("hi"), no_replies());
    let request = p.request(0);
    assert_eq!(request.id_slot, None);
    let hint = request.slot_hint.unwrap();
    assert_eq!(hint.prefix_hash, compute_prefix_hash(&None, &vec![]));
    assert_eq!(hint.preferred_slot, None);
    assert_eq!(p.slot_to_release(), None);
}

#[test]
fn non_broker_planner_never_attaches_a_slot_hint() {
    let p = begun(&registry(vec![]), "m", "hi");
    assert_eq!(p.request(0).id_slot, None);
    assert_eq!(p.request(0).slot_hint, None);
}

// ---------------------------------------------------------------------------
// Routing and costs
// ---------------------------------------------------------------------------

#[test]
fn routed_planner_tags_its_request_with_the_turn_session() {
    let mut p = planner(&registry(vec![]), "m").with_routing("chat".to_string());
    p.begin_turn(&text_message("hello there"), no_replies());
    let hint = p.request(2).route.unwrap();
    assert_eq!(hint.task, "chat");
    assert_eq!(hint.session, Some("session-1".to_string()));
    // Two tokens of conversation, the two bytes of an empty list, and the answer.
    assert_eq!(hint.estimated_prompt_tokens, 2 + 1024);
}

#[test]
fn unrouted_planner_sends_no_route_hint() {
    let p = begun(&registry(vec![]), "m", "hi");
    assert_eq!(p.request(0).model, "m");
    assert_eq!(p.request(0).route, None);
}

fn spend(p: &mut LlmPlanner, r: &ToolRegistry, used: LlmUsage, served: Option<&str>, routable: bool) {
    let end = LlmStepEnd::FinalMessage { text: "ok".to_string(), usage: used, calls: vec![] };
    p.next_step(r, end, &served.map(str::to_string), routable, 0);
}

#[test]
fn turn_costs_price_the_model_the_router_used() {
    let r = registry(vec![tool(1, "echo")]);
    let mut p = planner(&r, "default").with_routing("chat".to_string());
    p.begin_turn(&text_message("hi"), no_replies());
    spend(&mut p, &r, usage(10, 5), Some("big"), true);
    assert_eq!(p.turn_usage().input_tokens, 10);
    assert_eq!(p.turn_costs(), vec![("big".to_string(), p.turn_usage())]);
}

fn routed_estimate(system: Option<String>, max_tokens: u32, tools: Vec<Tool>) -> u32 {
    let mut config = LlmPlannerConfig::new("m".to_string()).with_max_tokens(max_tokens);
    config.system_prompt = system;
    let mut p = LlmPlanner::new(&registry(tools), config).with_routing("chat".to_string());
    p.begin_turn(&text_message("hello there"), no_replies());
    p.request(2).route.unwrap().estimated_prompt_tokens
}

#[test]
fn the_route_estimate_counts_system_prompt_tools_and_max_tokens() {
    let base = routed_estimate(None, 0, vec![]);
    let with_system = routed_estimate(Some("x".repeat(4_000)), 0, vec![]);
    assert!(with_system >= base + 1_000, "{base} -> {with_system}");
    let with_tools = routed_estimate(None, 0, vec![tool(1, "echo")]);
    assert!(with_tools > base, "{base} -> {with_tools}");
    // [{"name":"echo","description":"fake","input_schema":{"type":"object"}}]
    assert_eq!(with_tools, 2 + 71 / 4);
    assert_eq!(routed_estimate(None, 2_000, vec![]), base + 2_000);
    assert_eq!(routed_estimate(None, u32::MAX, vec![]), u32::MAX);
}

#[test]
fn the_family_hint_asks_about_the_model_the_router_used() {
    let mut p = planner(&registry(vec![]), "default").with_routing("chat".to_string());
    p.begin_turn(&text_message("hi"), no_replies());
    assert_eq!(p.served_model(&Some("big".to_string()), true), "big");
    assert_eq!(p.served_model(&None, true), "default");
    let unrouted = begun(&registry(vec![]), "default", "hi");
    assert_eq!(unrouted.served_model(&Some("big".to_string()), true), "default");
}

#[test]
fn a_pdf_turn_after_a_routed_one_is_billed_and_hinted_as_the_configured_model() {
    let r = registry(vec![tool(1, "echo")]);
    let mut p = planner(&r, "default").with_routing("chat".to_string());
    p.begin_turn(&text_message("hi"), no_replies());
    assert_eq!(p.served_model(&Some("big".to_string()), false), "default");
    spend(&mut p, &r, usage(20, 2), Some("big"), false);
    assert_eq!(p.turn_usage().input_tokens, 20);
    assert_eq!(p.turn_costs(), vec![("default".to_string(), p.turn_usage())]);
}

#[test]
fn each_model_is_charged_for_its_steps() {
    let r = registry(vec![]);
    let mut p = planner(&r, "default").with_routing("chat".to_string());
    p.begin_turn(&text_message("hi"), no_replies());
    spend(&mut p, &r, usage(10, 1), Some("big"), true);
    spend(&mut p, &r, usage(20, 2), Some("small"), true);
    spend(&mut p, &r, usage(5, 3), Some("big"), true);
    let none = TokenUsage::default();
    assert_eq!(
        p.turn_costs(),
        vec![
            ("big".to_string(), TokenUsage { input_tokens: 15, output_tokens: 4, ..none }),
            ("small".to_string(), TokenUsage { input_tokens: 20, output_tokens: 2, ..none }),
        ]
    );
    assert_eq!(p.turn_usage().input_tokens, 35);
    assert_eq!(p.turn_usage().output_tokens, 6);
}

#[test]
fn unrouted_turn_costs_are_the_configured_model_and_turn_usage() {
    let r = registry(vec![]);
    let mut p = begun(&r, "m", "hi");
    assert_eq!(p.turn_costs(), vec![("m".to_string(), TokenUsage::default())]);
    spend(&mut p, &r, usage(7, 3), None, true);
    assert_eq!(p.turn_usage().output_tokens, 3);
    assert_eq!(p.turn_costs(), vec![("m".to_string(), p.turn_usage())]);
    assert_eq!(p.model(), "m");
}

#[test]
fn a_nameless_model_costs_nothing_before_it_has_served() {
    assert_eq!(planner(&registry(vec![]), "").turn_costs(), vec![]);
}

#[test]
fn an_escalated_turn_is_billed_and_hinted_as_the_cloud_model() {
    let r = registry(vec![tool(1, "echo")]);
    let mut p = planner(&r, "default").with_routing("chat".to_string());
    p.begin_turn(&text_message("hi"), no_replies());
    assert_eq!(p.served_model(&Some("cloud-model".to_string()), true), "cloud-model");
    spend(&mut p, &r, usage(30, 4), Some("cloud-model"), true);
    assert_eq!(p.turn_usage().input_tokens, 30);
    assert_eq!(p.turn_costs(), vec![("cloud-model".to_string(), p.turn_usage())]);
}

#[test]
fn advice_comes_with_the_third_failure_in_a_row_only() {
    let r = registry(vec![tool(1, "web.search"), tool(2, "fs.read")]);
    let mut p = begun(&r, "m", "go");
    let fail = |text: &str| ToolOutcome::RequiresEscalation { reason: text.to_string() };
    let fine = || ToolOutcome::Completed { output: Json::Null, verified: Verification::Verified };
    let seen = [
        (1, fail("a"), false),
        (1, fail("b"), false),
        (2, fail("c"), false),
        (1, fail("d"), false),
        (1, fail("e"), false),
        (1, fail("f"), true),
        (1, fail("g"), false),
        (1, fine(), false),
        (1, fail("h"), false),
        (2, fine(), false),
        (2, fail("i"), false),
        (2, fail("j"), false),
        (2, fail("k"), true),
    ];
    for (id, outcome, advised) in &seen {
        let before = p.history().len();
        p.observe_tool_outcome(&r, ToolId(*id), outcome);
        assert_eq!(p.history().len(), before + 1);
        let (_, content, _) = result_of(&p.history()[before]);
        let name = if *id == 1 { "web.search" } else { "fs.read" };
        let advice = format!("\n\n[SYSTEM NOTE: {name} has failed 3 times in a row.");
        assert_eq!(content.contains(&advice), *advised, "{outcome:?}");
        assert_eq!(content.contains("[SYSTEM NOTE:"), *advised, "{outcome:?}");
    }
}
