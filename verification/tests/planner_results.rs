use aivyx::json::Json;
use aivyx::llm_planner::message::{
    seeded_history_messages,
    summarise_pruned,
    ContentBlock,
    LlmMessage,
    LlmToolCallRecord,
    PriorTurn,
};
use aivyx::llm_planner::tool_result::cap_tool_result_content;

#[test]
fn tool_result_cap_none_window_is_untouched() {
    let big = "x".repeat(1_000_000);
    assert_eq!(cap_tool_result_content(big.clone(), None), big);
}

#[test]
fn tool_result_cap_under_budget_is_untouched() {
    let s = "small output".to_string();
    assert_eq!(cap_tool_result_content(s.clone(), Some(16_384)), s);
}

#[test]
fn tool_result_cap_truncates_with_marker() {
    let big = "y".repeat(100_000);
    let capped = cap_tool_result_content(big, Some(16_384));
    assert!(capped.starts_with("yyy"));
    assert!(capped.contains("tool output truncated"));
    assert!(capped.contains("100000"));
    assert!(capped.chars().count() < 33_000);
}

#[test]
fn tool_result_cap_floor_protects_tiny_windows() {
    let content = "z".repeat(3_000);
    assert_eq!(cap_tool_result_content(content.clone(), Some(100)), content);
}

#[test]
fn tool_result_cap_note_is_exact() {
    let capped = cap_tool_result_content("é".repeat(4_001), Some(100));
    assert_eq!(
        capped,
        format!(
            "{}\n…[tool output truncated: showing 4000 of 4001 chars — the result was too large \
             for the model's context; request a narrower read if the missing part matters]",
            "é".repeat(4_000)
        )
    );
}

fn u(text: &str) -> PriorTurn {
    PriorTurn { is_user: true, text: text.to_string() }
}

fn a(text: &str) -> PriorTurn {
    PriorTurn { is_user: false, text: text.to_string() }
}

fn block(text: &str) -> ContentBlock {
    ContentBlock::text(text.to_string())
}

#[test]
fn seeded_messages_basic_pair_replays_in_order() {
    let msgs = seeded_history_messages(vec![u("hi"), a("hello!")]);
    assert_eq!(msgs.len(), 2);
    assert!(matches!(
        &msgs[0],
        LlmMessage::User { content } if content == &[block("hi")]
    ));
    assert!(matches!(
        &msgs[1],
        LlmMessage::Assistant { text, tool_calls }
            if text == "hello!" && tool_calls.is_empty()
    ));
}

#[test]
fn seeded_messages_drops_leading_assistant() {
    let msgs = seeded_history_messages(vec![a("orphan"), u("q"), a("r")]);
    assert_eq!(msgs.len(), 2);
    assert!(matches!(
        &msgs[0],
        LlmMessage::User { content } if content == &[block("q")]
    ));
}

#[test]
fn seeded_messages_coalesces_consecutive_same_role() {
    let msgs = seeded_history_messages(vec![u("part one"), u("part two"), a("answer")]);
    assert_eq!(msgs.len(), 2);
    assert!(matches!(
        &msgs[0],
        LlmMessage::User { content }
            if content == &[block("part one\npart two")]
    ));
}

#[test]
fn seeded_messages_trailing_user_gets_honest_filler() {
    let msgs = seeded_history_messages(vec![u("icao for jandakot?")]);
    assert_eq!(msgs.len(), 2);
    assert!(matches!(
        &msgs[1],
        LlmMessage::Assistant { text, .. }
            if text == "(no response was produced that turn)"
    ));
}

#[test]
fn seeded_messages_blank_entries_drop_to_empty() {
    assert!(seeded_history_messages(vec![u("  "), a("")]).is_empty());
    assert!(seeded_history_messages(vec![]).is_empty());
}

#[test]
fn seeded_messages_alternate() {
    let msgs = seeded_history_messages(vec![
        a("x"), u("1"), u("\u{3000}"), u("2"), a("3"), a("4"), u("5"),
    ]);
    assert_eq!(msgs.len(), 4);
    for (i, m) in msgs.iter().enumerate() {
        assert_eq!(matches!(m, LlmMessage::User { .. }), i % 2 == 0);
    }
    assert_eq!(msgs[1], LlmMessage::Assistant { text: "3\n4".to_string(), tool_calls: vec![] });
}

#[test]
fn summaries_name_what_was_dropped() {
    let history = vec![
        LlmMessage::User {
            content: vec![
                block("look"),
                ContentBlock::ImageBase64 {
                    media_type: "image/png".to_string(),
                    data: "AAAA".to_string(),
                },
            ],
        },
        LlmMessage::Assistant {
            text: "é".repeat(101),
            tool_calls: vec![LlmToolCallRecord {
                call_id: "c".to_string(),
                tool_name: "fs.read".to_string(),
                input: Json::Null,
            }],
        },
        LlmMessage::ToolResult {
            call_id: "c".to_string(),
            content: "done".to_string(),
            is_error: false,
        },
    ];
    assert_eq!(
        summarise_pruned(&history, 3),
        format!(
            "[user] look, image/png\n[assistant] {}\n  tool_call: fs.read\n[tool_result call_id=c] done",
            "é".repeat(100)
        )
    );
    assert_eq!(summarise_pruned(&history, 0), "");
}
