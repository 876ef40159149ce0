use aivyx::discord::channel::{
    append_event, finalize_footer, timeout_footer, AttachmentKind, CancellationToken, ChannelError,
    ChannelPlatform, DiscordChannel, IncomingMessage, OutgoingMessage, SessionId, StreamEvent,
    TransportError, TrustTier, TurnOutcome,
};
use aivyx::discord::session::{
    collect_reports, DiscordMultiSessionReport, DiscordSessionConfig, DiscordSessionReport,
    MailboxSession, Multiplexer, SessionAction, SessionEvent,
};
use aivyx::json::Json;
use aivyx::outcome::{AivyxError, ToolId};

fn channel_at(name: &str, channel_id: u64, channel_filter: Option<u64>) -> DiscordChannel {
    DiscordChannel::new(name.to_string(), SessionId(7), channel_id, channel_filter)
}

fn test_channel() -> DiscordChannel {
    channel_at("aivyx-discord-test", 12345, Some(12345))
}

fn completed_outcome() -> TurnOutcome {
    TurnOutcome::Completed {
        final_message: "done".to_string(),
        tool_calls_made: 0,
        duration: 0,
    }
}

#[test]
fn channel_reports_discord_platform() {
    let c = test_channel();
    assert_eq!(c.platform(), ChannelPlatform::Discord);
}

#[test]
fn channel_reports_semitrusted_tier() {
    let c = test_channel();
    assert_eq!(c.trust_tier(), TrustTier::SemiTrusted);
}

#[test]
fn allowlisted_channel_is_semitrusted() {
    let c = channel_at("allow", 12345, Some(12345));
    assert_eq!(c.trust_tier(), TrustTier::SemiTrusted);
}

#[test]
fn non_allowlisted_channel_is_untrusted() {
    let c = channel_at("deny", 99999, Some(12345));
    assert_eq!(c.trust_tier(), TrustTier::Untrusted);
}

#[test]
fn no_filter_configured_is_untrusted_by_default() {
    let c = channel_at("nofilter", 55555, None);
    assert_eq!(c.trust_tier(), TrustTier::Untrusted);
}

#[test]
fn channel_reports_name() {
    let c = test_channel();
    assert_eq!(c.channel_name(), "aivyx-discord-test");
}

#[test]
fn channel_partitions_by_channel_id() {
    let c = test_channel();
    assert_eq!(c.session_partition().as_deref(), Some("12345"));
}

#[test]
fn channel_id_accessor_round_trips() {
    let c = test_channel();
    assert_eq!(c.channel_id(), 12345);
}

#[test]
fn append_event_text_concatenates() {
    let mut buf = String::new();
    append_event(&mut buf, &StreamEvent::Text("hello "));
    append_event(&mut buf, &StreamEvent::Text("world"));
    assert_eq!(buf, "hello world");
}

#[test]
fn append_event_status_lands_on_its_own_line() {
    let mut buf = String::from("partial line");
    append_event(&mut buf, &StreamEvent::Status("thinking"));
    assert!(buf.contains("partial line\n… thinking\n"));
}

#[test]
fn append_event_tool_call_started_renders_arrow_prefix() {
    let mut buf = String::new();
    let input = Json::Null;
    append_event(
        &mut buf,
        &StreamEvent::ToolCallStarted {
            tool_name: "memory.read",
            tool: ToolId::new(),
            input: &input,
        },
    );
    assert!(buf.contains("→ memory.read"));
}

#[test]
fn append_event_tool_call_finished_renders_back_arrow() {
    let mut buf = String::new();
    append_event(
        &mut buf,
        &StreamEvent::ToolCallFinished {
            tool_name: "memory.read",
            outcome_summary: "ok (3 entries)",
            tool: ToolId::new(),
        },
    );
    assert!(buf.contains("← memory.read ok (3 entries)"));
}

#[test]
fn append_event_attachment_is_silently_dropped() {
    let mut buf = String::from("baseline");
    append_event(
        &mut buf,
        &StreamEvent::Attachment {
            kind: AttachmentKind::Image { mime: "image/png" },
            data: &[0xDE, 0xAD],
            filename: None,
        },
    );
    assert_eq!(buf, "baseline");
}

#[test]
fn tool_output_is_not_shown() {
    let mut buf = String::from("baseline");
    append_event(&mut buf, &StreamEvent::ToolOutput { tool: ToolId(1), chunk: "noise" });
    assert_eq!(buf, "baseline");
}

#[test]
fn events_are_rendered_on_lines_of_their_own() {
    let mut buf = String::new();
    append_event(&mut buf, &StreamEvent::Status("s"));
    append_event(&mut buf, &StreamEvent::Text("t"));
    append_event(
        &mut buf,
        &StreamEvent::ToolCallStarted { tool_name: "a.b", tool: ToolId(1), input: &Json::Null },
    );
    append_event(
        &mut buf,
        &StreamEvent::ToolCallFinished { tool_name: "a.b", outcome_summary: "ok", tool: ToolId(1) },
    );
    assert_eq!(buf, "… s\nt\n→ a.b\n← a.b ok\n");
}

#[test]
fn finalize_footer_completed_is_empty() {
    assert_eq!(finalize_footer(&completed_outcome()), "");
}

#[test]
fn finalize_footer_failed_carries_reason() {
    let out = TurnOutcome::Failed(AivyxError::Channel("network blew up".to_string()));
    assert!(finalize_footer(&out).contains("network blew up"));
}

#[test]
fn finalize_footer_cancelled_uses_cross_marker() {
    let out = TurnOutcome::Cancelled { tool_calls_made: 0 };
    let footer = finalize_footer(&out);
    assert!(footer.contains("✕"));
    assert!(footer.contains("cancelled"));
}

#[test]
fn footers_are_exact() {
    assert_eq!(
        finalize_footer(&TurnOutcome::TimedOut { elapsed: 1_500_000_000, tool_calls_made: 0 }),
        timeout_footer("1.5s")
    );
    assert_eq!(timeout_footer("1.5s"), "\n⏱ timed out after 1.5s");
    assert_eq!(
        finalize_footer(&TurnOutcome::MaxStepsExceeded { max_steps: 12, tool_calls_made: 0 }),
        "\n✕ planner exceeded 12 steps per turn"
    );
    assert_eq!(
        finalize_footer(&TurnOutcome::Looping { repeat_limit: 3, tool_calls_made: 0 }),
        "\n✕ stopped after 3 repeated identical tool calls"
    );
}

#[test]
fn finalize_drains_buffer_and_sends_one_message() {
    let mut c = channel_at("smoke", 4242, Some(4242));
    c.stream_event(&StreamEvent::Text("the answer is "));
    c.stream_event(&StreamEvent::Text("42"));
    let sent = c.finalize(&TurnOutcome::Completed {
        final_message: "the answer is 42".to_string(),
        tool_calls_made: 0,
        duration: 0,
    });
    assert_eq!(sent.channel_id, 4242);
    assert_eq!(sent.text, "the answer is 42");
    assert_eq!(c.buffer_snapshot(), "");
}

#[test]
fn finalize_with_empty_payload_sends_placeholder() {
    let mut c = channel_at("smoke", 4242, Some(4242));
    let sent = c.finalize(&TurnOutcome::Completed {
        final_message: String::new(),
        tool_calls_made: 0,
        duration: 0,
    });
    assert_eq!(sent.text, "(no reply)");
}

#[test]
fn finalize_appends_outcome_footer_to_payload() {
    let mut c = channel_at("smoke", 4242, Some(4242));
    c.stream_event(&StreamEvent::Text("partial"));
    let sent = c.finalize(&TurnOutcome::Escalated {
        reason: "needs operator approval".to_string(),
        pending_tool: ToolId::new(),
        tool_calls_made: 0,
    });
    assert!(sent.text.contains("partial"));
    assert!(sent.text.contains("⏸ escalation: needs operator approval"));
}

#[test]
fn reset_cancellation_yields_a_fresh_token() {
    let mut c = test_channel();
    c.cancel();
    let before: CancellationToken = c.cancellation_token();
    assert!(before.is_cancelled());
    c.reset_cancellation();
    let after = c.cancellation_token();
    assert!(!after.is_cancelled(), "fresh token must not be cancelled");
}

#[test]
fn unused_message_struct_compiles() {
    let m = IncomingMessage {
        message_id: 1,
        channel_id: 2,
        author_id: 3,
        text: "hi".to_string(),
    };
    assert_eq!(m.text, "hi");
}

#[test]
fn transport_errors_become_channel_errors() {
    assert_eq!(
        ChannelError::from(TransportError::Platform("gone".to_string())),
        ChannelError::Platform("gone".to_string())
    );
}

fn mail(id: u64, channel_id: u64, text: &str) -> SessionEvent {
    SessionEvent::Mail(message(id, channel_id, text))
}

fn message(id: u64, channel_id: u64, text: &str) -> IncomingMessage {
    message_by(42, id, channel_id, text)
}

fn message_by(author_id: u64, id: u64, channel_id: u64, text: &str) -> IncomingMessage {
    IncomingMessage { message_id: id, channel_id, author_id, text: text.to_string() }
}

#[test]
fn two_messages_become_two_turns() {
    let mut s = MailboxSession::new(777);
    assert_eq!(
        s.step(mail(1, 777, "first")),
        SessionAction::RunTurn(message(1, 777, "first"))
    );
    assert_eq!(s.step(mail(2, 777, "second")), SessionAction::KeepRunning);
    assert_eq!(
        s.step(SessionEvent::TurnEnded { shutdown: false }),
        SessionAction::RunTurn(message(2, 777, "second"))
    );
    assert_eq!(s.step(SessionEvent::TurnEnded { shutdown: false }), SessionAction::Wait);
    assert_eq!(
        s.step(SessionEvent::Shutdown),
        SessionAction::Exit(DiscordSessionReport { turns_run: 2 })
    );
}

#[test]
fn cancel_is_a_signal_and_never_a_prompt() {
    let mut s = MailboxSession::new(1);
    assert_eq!(s.step(mail(1, 1, " /cancel\n")), SessionAction::Wait);
    assert_eq!(s.step(mail(2, 1, "go")), SessionAction::RunTurn(message(2, 1, "go")));
    assert_eq!(s.step(mail(3, 1, "/cancel")), SessionAction::CancelTurn);
    assert_eq!(s.step(SessionEvent::TurnEnded { shutdown: false }), SessionAction::Wait);
    assert_eq!(s.step(mail(4, 1, "again")), SessionAction::RunTurn(message(4, 1, "again")));
}

#[test]
fn messages_of_other_channels_are_dropped() {
    let mut s = MailboxSession::new(1);
    assert_eq!(s.step(mail(1, 2, "go")), SessionAction::Wait);
    s.step(mail(2, 1, "go"));
    assert_eq!(s.step(mail(3, 2, "/cancel")), SessionAction::KeepRunning);
    assert_eq!(s.step(mail(4, 2, "more")), SessionAction::KeepRunning);
    assert_eq!(s.step(SessionEvent::TurnEnded { shutdown: false }), SessionAction::Wait);
}

#[test]
fn what_waits_is_run_before_the_session_ends() {
    let mut s = MailboxSession::new(1);
    s.step(mail(1, 1, "a"));
    s.step(mail(2, 1, "b"));
    assert_eq!(s.step(SessionEvent::Shutdown), SessionAction::KeepRunning);
    assert_eq!(
        s.step(SessionEvent::TurnEnded { shutdown: true }),
        SessionAction::RunTurn(message(2, 1, "b"))
    );
    assert_eq!(
        s.step(SessionEvent::TurnEnded { shutdown: true }),
        SessionAction::Exit(DiscordSessionReport { turns_run: 2 })
    );
}

#[test]
fn a_closed_mailbox_cancels_the_turn_and_then_ends_the_session() {
    let mut s = MailboxSession::new(1);
    s.step(mail(1, 1, "a"));
    assert_eq!(s.step(SessionEvent::Closed), SessionAction::CancelTurn);
    assert_eq!(s.step(SessionEvent::TurnEnded { shutdown: false }), SessionAction::Wait);
    assert_eq!(
        s.step(SessionEvent::Closed),
        SessionAction::Exit(DiscordSessionReport { turns_run: 1 })
    );
}

#[test]
fn each_channel_gets_one_session() {
    let mut m = Multiplexer::new();
    assert!(m.route(777));
    assert!(!m.route(777));
    assert!(m.route(888));
    assert_eq!(m.routes(), &vec![777, 888]);
    m.drop_route(777);
    assert_eq!(m.routes(), &vec![888]);
    assert!(m.route(777));
}

#[test]
fn reports_are_summed_over_the_channels() {
    let report = collect_reports(&vec![
        (777, Ok(DiscordSessionReport { turns_run: 2 })),
        (5, Err("boom".to_string())),
        (888, Ok(DiscordSessionReport { turns_run: 3 })),
    ]);
    assert_eq!(report.total_turns(), 5);
    assert_eq!(report.turns_by_channel.get(&777).copied(), Some(2));
    assert_eq!(report.turns_by_channel.get(&5), None);
    assert_eq!(DiscordMultiSessionReport::default().total_turns(), 0);
}

/// Serves the messages in `queue` one after the other: each channel gets a
/// session of its own, each prompt becomes a turn that streams the chunks of
/// the next of the `replies` and ends with its text, and at the end every
/// session is told that the process ends.
fn serve(
    queue: Vec<IncomingMessage>,
    replies: Vec<(Vec<&str>, &str)>,
) -> (DiscordMultiSessionReport, Vec<OutgoingMessage>) {
    let mut mux = Multiplexer::new();
    let mut sessions: Vec<(MailboxSession, DiscordChannel)> = Vec::new();
    let mut sent: Vec<OutgoingMessage> = Vec::new();
    let mut replies = replies.into_iter();
    for incoming in queue {
        let channel_id = incoming.channel_id;
        if mux.route(channel_id) {
            sessions.push((
                MailboxSession::new(channel_id),
                channel_at("aivyx-discord-test", channel_id, None),
            ));
        }
        let at = mux.routes().iter().position(|c| *c == channel_id).unwrap();
        let (session, channel) = &mut sessions[at];
        let mut action = session.step(SessionEvent::Mail(incoming));
        while let SessionAction::RunTurn(_) = action {
            channel.reset_cancellation();
            let (chunks, text) = replies.next().unwrap();
            for chunk in &chunks {
                channel.stream_event(&StreamEvent::Text(chunk));
            }
            sent.push(channel.finalize(&TurnOutcome::Completed {
                final_message: text.to_string(),
                tool_calls_made: 0,
                duration: 0,
            }));
            action = session.step(SessionEvent::TurnEnded { shutdown: false });
        }
    }
    let mut results = Vec::new();
    for (session, channel) in &mut sessions {
        match session.step(SessionEvent::Shutdown) {
            SessionAction::Exit(report) => results.push((channel.channel_id(), Ok(report))),
            other => panic!("expected the session to end, got {other:?}"),
        }
    }
    (collect_reports(&results), sent)
}

#[test]
fn discord_session_smoke_e2e() {
    let (report, sent) = serve(
        vec![message(1, 777, "first"), message(2, 777, "second")],
        vec![(vec!["Hello, ", "discord!"], "Hello, discord!"), (vec!["Bye!"], "Bye!")],
    );
    assert_eq!(report.total_turns(), 2);
    assert_eq!(report.turns_by_channel.get(&777).copied().unwrap_or(0), 2);
    assert_eq!(sent.len(), 2);
    assert_eq!(sent[0].channel_id, 777);
    assert_eq!(sent[1].channel_id, 777);
    assert!(sent[0].text.contains("Hello, discord!"));
    assert!(sent[1].text.contains("Bye!"));
}

#[test]
fn discord_two_partitions_persistent_e2e() {
    let (report, sent) = serve(
        vec![message_by(1, 100, 1001, "ping-alpha"), message_by(2, 200, 1002, "ping-beta")],
        vec![(vec!["alpha"], "alpha reply"), (vec!["beta"], "beta reply")],
    );
    assert_eq!(report.total_turns(), 2);
    assert_eq!(report.turns_by_channel.get(&1001).copied().unwrap_or(0), 1);
    assert_eq!(report.turns_by_channel.get(&1002).copied().unwrap_or(0), 1);
    assert_eq!(sent.len(), 2);
    assert_eq!(sent.iter().filter(|m| m.channel_id == 1001).count(), 1);
    assert_eq!(sent.iter().filter(|m| m.channel_id == 1002).count(), 1);
}

#[test]
fn discord_shutdown_drains_inflight_turns() {
    let (report, sent) = serve(
        vec![message_by(9, 1, 5555, "hello")],
        vec![(vec!["only ", "reply"], "only reply")],
    );
    assert_eq!(report.total_turns(), 1);
    assert_eq!(report.turns_by_channel.get(&5555).copied().unwrap_or(0), 1);
    assert_eq!(sent.len(), 1);
    assert_eq!(sent[0].channel_id, 5555);
    assert!(sent[0].text.contains("only reply"));
}

#[test]
fn turns_are_planned_as_the_session_is_configured() {
    let config = DiscordSessionConfig {
        model: "test-model".to_string(),
        system_prompt: "be brief".to_string(),
        max_tokens: 256,
        tool_allowlist: Some(vec!["memory.read".to_string()]),
        memory_topic_prefix: None,
        turn_timeout_secs: None,
        cycle_detection: None,
        injection_scan_enabled: true,
        confirm_destructive: false,
        injection_scan_exempt: vec![],
    };
    let planner = config.planner_config();
    assert_eq!(planner.model, "test-model");
    assert_eq!(planner.system_prompt.as_deref(), Some("be brief"));
    assert_eq!(planner.max_tokens, 256);
    assert_eq!(planner.tool_allowlist, Some(vec!["memory.read".to_string()]));
    assert_eq!(planner.temperature, None);
    assert_eq!(planner.context_window_tokens, None);
    assert!(!planner.conversation_seeder);
}
