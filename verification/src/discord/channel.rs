//! One Discord channel: who is trusted in it, and what a turn's output looks
//! like there.

use vstd::prelude::*;
use vstd::std_specs::convert::FromSpecImpl;
use crate::json::Json;
use crate::outcome::{AivyxError, ToolId};
use crate::text::{blank, chars_of, decimal, decimal_text, is_blank, push_decimal};

verus! {

/// How far the people behind a channel are trusted.
#[derive(Debug, Clone, Copy, PartialEq, Eq, Structural)]
pub enum TrustTier {
    Trusted,
    SemiTrusted,
    Untrusted,
}

/// Where a channel lives.
#[derive(Debug, Clone, Copy, PartialEq, Eq, Structural)]
pub enum ChannelPlatform {
    Local,
    Telegram,
    Discord,
}

/// Identifies a conversation.
#[derive(Debug, Clone, Copy, PartialEq, Eq, Structural)]
pub struct SessionId(pub u128);

/// What an attachment holds.
#[derive(Debug, Clone, Copy, PartialEq, Eq)]
pub enum AttachmentKind<'a> {
    Image { mime: &'a str },
    File { mime: &'a str },
}

/// Something that happens in the course of a turn.
#[derive(Debug, Clone, Copy)]
pub enum StreamEvent<'a> {
    Text(&'a str),
    Status(&'a str),
    ToolCallStarted { tool_name: &'a str, tool: ToolId, input: &'a Json },
    ToolCallFinished { tool_name: &'a str, outcome_summary: &'a str, tool: ToolId },
    Attachment { kind: AttachmentKind<'a>, data: &'a [u8], filename: Option<&'a str> },
    ToolOutput { tool: ToolId, chunk: &'a str },
}

/// How a turn ended. Times are in nanoseconds.
#[derive(Debug, PartialEq, Eq)]
pub enum TurnOutcome {
    Completed { final_message: String, tool_calls_made: usize, duration: u64 },
    Escalated { reason: String, pending_tool: ToolId, tool_calls_made: usize },
    TimedOut { elapsed: u64, tool_calls_made: usize },
    Cancelled { tool_calls_made: usize },
    MaxStepsExceeded { max_steps: usize, tool_calls_made: usize },
    Looping { repeat_limit: usize, tool_calls_made: usize },
    Failed(AivyxError),
}

/// A message from Discord.
#[derive(Debug, PartialEq, Eq)]
pub struct IncomingMessage {
    pub message_id: u64,
    pub channel_id: u64,
    pub author_id: u64,
    pub text: String,
}

/// A message to Discord.
#[derive(Debug, PartialEq, Eq)]
pub struct OutgoingMessage {
    pub channel_id: u64,
    pub text: String,
}

/// Why the transport failed.
#[derive(Debug, PartialEq, Eq)]
pub enum TransportError {
    Platform(String),
}

/// Why a channel failed.
#[derive(Debug, PartialEq, Eq)]
pub enum ChannelError {
    Send(String),
    Platform(String),
}

impl From<TransportError> for ChannelError {
    fn from(e: TransportError) -> (r: ChannelError) {
        match e {
            TransportError::Platform(msg) => ChannelError::Platform(msg),
        }
    }
}

impl FromSpecImpl<TransportError> for ChannelError {
    open spec fn obeys_from_spec() -> bool {
        true
    }

    open spec fn from_spec(e: TransportError) -> ChannelError {
        match e {
            TransportError::Platform(msg) => ChannelError::Platform(msg),
        }
    }
}

// ---------------------------------------------------------------------------
// Rendering
// ---------------------------------------------------------------------------

/// A text that the next line can be appended to: it is empty or ends with a
/// line break.
pub open spec fn at_line_start(buffer: Seq<char>) -> Seq<char> {
    if buffer.len() > 0 && buffer.last() != '\n' {
        buffer.push('\n')
    } else {
        buffer
    }
}

/// The output so far once an event is added to it. Attachments and partial
/// tool output are not shown.
pub open spec fn with_event(buffer: Seq<char>, event: StreamEvent<'_>) -> Seq<char> {
    match event {
        StreamEvent::Text(chunk) => buffer + chunk@,
        StreamEvent::Status(s) => at_line_start(buffer) + "… "@ + s@ + seq!['\n'],
        StreamEvent::ToolCallStarted { tool_name, .. } => at_line_start(buffer) + "→ "@ + tool_name@
            + seq!['\n'],
        StreamEvent::ToolCallFinished { tool_name, outcome_summary, .. } => at_line_start(buffer)
            + "← "@ + tool_name@ + " "@ + outcome_summary@ + seq!['\n'],
        StreamEvent::Attachment { .. } => buffer,
        StreamEvent::ToolOutput { .. } => buffer,
    }
}

fn to_line_start(buffer: &mut String)
    ensures
        final(buffer)@ == at_line_start(old(buffer)@),
{
    let v: Vec<char> = chars_of(buffer.as_str());
    if v.len() > 0 && v[v.len() - 1] != '\n' {
        buffer.push('\n');
    }
}

/// Adds an event to the output of a turn.
pub fn append_event(buffer: &mut String, event: &StreamEvent<'_>)
    ensures
        final(buffer)@ == with_event(old(buffer)@, *event),
{
    match event {
        StreamEvent::Text(chunk) => {
            buffer.push_str(chunk);
        },
        StreamEvent::Status(s) => {
            to_line_start(buffer);
            buffer.push_str("… ");
            buffer.push_str(s);
            buffer.push('\n');
        },
        StreamEvent::ToolCallStarted { tool_name, .. } => {
            to_line_start(buffer);
            buffer.push_str("→ ");
            buffer.push_str(tool_name);
            buffer.push('\n');
        },
        StreamEvent::ToolCallFinished { tool_name, outcome_summary, .. } => {
            to_line_start(buffer);
            buffer.push_str("← ");
            buffer.push_str(tool_name);
            buffer.push_str(" ");
            buffer.push_str(outcome_summary);
            buffer.push('\n');
        },
        StreamEvent::Attachment { .. } => {},
        StreamEvent::ToolOutput { .. } => {},
    }
    assert(buffer@ =~= with_event(old(buffer)@, *event));
}

/// What has been shown stays: an event only ever adds to the output.
pub proof fn law_output_only_grows(buffer: Seq<char>, event: StreamEvent<'_>)
    ensures
        with_event(buffer, event).len() >= buffer.len(),
        with_event(buffer, event).take(buffer.len() as int) == buffer,
{
    assert(with_event(buffer, event).take(buffer.len() as int) =~= buffer);
}

/// A span of time as `{:?}` shows it.
pub uninterp spec fn duration_form(nanos: u64) -> Seq<char>;

/// `std::time::Duration`'s `Debug` form of a span of `nanos` nanoseconds: a
/// function of the span alone.
#[verifier::external_body]
fn duration_text(nanos: u64) -> (r: String)
    ensures
        r@ == duration_form(nanos),
{
    format!("{:?}", std::time::Duration::from_nanos(nanos))
}

/// The line that tells after which span a turn ran out of time.
pub open spec fn timeout_line(span: Seq<char>) -> Seq<char> {
    "\n⏱ timed out after "@ + span
}

/// The line that tells after which span a turn ran out of time.
pub fn timeout_footer(span: &str) -> (r: String)
    ensures
        r@ == timeout_line(span@),
{
    let mut out: String = "\n⏱ timed out after ".to_owned();
    out.push_str(span);
    out
}

/// The line that tells how a turn ended, unless it ended well.
pub open spec fn footer(outcome: TurnOutcome) -> Seq<char> {
    match outcome {
        TurnOutcome::Completed { .. } => Seq::empty(),
        TurnOutcome::Escalated { reason, .. } => "\n⏸ escalation: "@ + reason@,
        TurnOutcome::TimedOut { elapsed, .. } => timeout_line(duration_form(elapsed)),
        TurnOutcome::Cancelled { .. } => "\n✕ cancelled"@,
        TurnOutcome::MaxStepsExceeded { max_steps, .. } => "\n✕ planner exceeded "@ + decimal_text(
            max_steps as nat,
        ) + " steps per turn"@,
        TurnOutcome::Looping { repeat_limit, .. } => "\n✕ stopped after "@ + decimal_text(
            repeat_limit as nat,
        ) + " repeated identical tool calls"@,
        TurnOutcome::Failed(e) => "\n✕ failed: "@ + e@.detail(),
    }
}

/// The line that tells how a turn ended, unless it ended well.
pub fn finalize_footer(outcome: &TurnOutcome) -> (r: String)
    ensures
        r@ == footer(*outcome),
{
    let mut out: String = String::new();
    match outcome {
        TurnOutcome::Completed { .. } => {},
        TurnOutcome::Escalated { reason, .. } => {
            out.push_str("\n⏸ escalation: ");
            out.push_str(reason.as_str());
        },
        TurnOutcome::TimedOut { elapsed, .. } => {
            let span: String = duration_text(*elapsed);
            let line: String = timeout_footer(span.as_str());
            out.push_str(line.as_str());
        },
        TurnOutcome::Cancelled { .. } => {
            out.push_str("\n✕ cancelled");
        },
        TurnOutcome::MaxStepsExceeded { max_steps, .. } => {
            out.push_str("\n✕ planner exceeded ");
            push_decimal(&mut out, *max_steps as u64);
            out.push_str(" steps per turn");
        },
        TurnOutcome::Looping { repeat_limit, .. } => {
            out.push_str("\n✕ stopped after ");
            push_decimal(&mut out, *repeat_limit as u64);
            out.push_str(" repeated identical tool calls");
        },
        TurnOutcome::Failed(e) => {
            out.push_str("\n✕ failed: ");
            out.push_str(e.detail().as_str());
        },
    }
    assert(out@ =~= footer(*outcome));
    out
}

/// What is sent at the end of a turn: its output and the line on how it
/// ended, or a placeholder where that would be blank.
pub open spec fn payload(buffer: Seq<char>, outcome: TurnOutcome) -> Seq<char> {
    if blank(buffer + footer(outcome)) {
        "(no reply)"@
    } else {
        buffer + footer(outcome)
    }
}

/// Discord never gets a blank message.
pub proof fn law_payload_is_not_blank(buffer: Seq<char>, outcome: TurnOutcome)
    ensures
        !blank(payload(buffer, outcome)),
{
    reveal_strlit("(no reply)");
    assert(!crate::text::white_space("(no reply)"@[0]));
}

// ---------------------------------------------------------------------------
// The channel
// ---------------------------------------------------------------------------

/// Whether a turn has been told to stop.
#[derive(Debug, Clone, Copy, PartialEq, Eq, Structural)]
pub struct CancellationToken {
    pub cancelled: bool,
}

impl CancellationToken {
    /// Whether the turn has been told to stop.
    pub fn is_cancelled(&self) -> (r: bool)
        ensures
            r == self.cancelled,
    {
        self.cancelled
    }
}

/// One Discord channel. What a turn has to say is collected, and sent as one
/// message when the turn ends.
pub struct DiscordChannel {
    name: String,
    session: SessionId,
    channel_id: u64,
    channel_filter: Option<u64>,
    token: CancellationToken,
    buffer: String,
}

/// What a [`DiscordChannel`] stands for.
pub ghost struct ChannelView {
    pub name: Seq<char>,
    pub session: SessionId,
    pub channel_id: u64,
    pub channel_filter: Option<u64>,
    pub cancelled: bool,
    pub buffer: Seq<char>,
}

impl View for DiscordChannel {
    type V = ChannelView;

    closed spec fn view(&self) -> ChannelView {
        ChannelView {
            name: self.name@,
            session: self.session,
            channel_id: self.channel_id,
            channel_filter: self.channel_filter,
            cancelled: self.token.cancelled,
            buffer: self.buffer@,
        }
    }
}

/// How far the people in a channel are trusted: only the channel that the
/// operator has named is trusted at all.
pub open spec fn channel_tier(channel_id: u64, channel_filter: Option<u64>) -> TrustTier {
    if channel_filter == Some(channel_id) {
        TrustTier::SemiTrusted
    } else {
        TrustTier::Untrusted
    }
}

/// The channel once an event has happened in its turn.
pub open spec fn streamed(v: ChannelView, event: StreamEvent<'_>) -> ChannelView {
    ChannelView { buffer: with_event(v.buffer, event), ..v }
}

/// The channel once its turn has ended, where the turn's message goes, and what
/// it says.
pub open spec fn sent(v: ChannelView, outcome: TurnOutcome) -> (ChannelView, u64, Seq<char>) {
    (ChannelView { buffer: Seq::empty(), ..v }, v.channel_id, payload(v.buffer, outcome))
}

impl DiscordChannel {
    /// A channel in which nothing has been said yet. `channel_filter` is the
    /// channel that the operator has named, if any.
    pub fn new(
        name: String,
        session: SessionId,
        channel_id: u64,
        channel_filter: Option<u64>,
    ) -> (r: DiscordChannel)
        ensures
            r@ == (ChannelView {
                name: name@,
                session,
                channel_id,
                channel_filter,
                cancelled: false,
                buffer: Seq::empty(),
            }),
    {
        DiscordChannel {
            name,
            session,
            channel_id,
            channel_filter,
            token: CancellationToken { cancelled: false },
            buffer: String::new(),
        }
    }

    pub fn channel_id(&self) -> (r: u64)
        ensures
            r == self@.channel_id,
    {
        self.channel_id
    }

    pub fn channel_name(&self) -> (r: &String)
        ensures
            r@ == self@.name,
    {
        &self.name
    }

    pub fn platform(&self) -> (r: ChannelPlatform)
        ensures
            r == ChannelPlatform::Discord,
    {
        ChannelPlatform::Discord
    }

    /// How far the people in this channel are trusted.
    pub fn trust_tier(&self) -> (r: TrustTier)
        ensures
            r == channel_tier(self@.channel_id, self@.channel_filter),
    {
        match self.channel_filter {
            Some(allowed) => if allowed == self.channel_id {
                TrustTier::SemiTrusted
            } else {
                TrustTier::Untrusted
            },
            None => TrustTier::Untrusted,
        }
    }

    pub fn session_id(&self) -> (r: SessionId)
        ensures
            r == self@.session,
    {
        self.session
    }

    /// What the memory of this channel is kept apart by.
    pub fn session_partition(&self) -> (r: Option<String>)
        ensures
            r matches Some(s) && s@ == decimal_text(self@.channel_id as nat),
    {
        Some(decimal(self.channel_id))
    }

    /// Adds an event to the output of the turn.
    pub fn stream_event(&mut self, event: &StreamEvent<'_>)
        ensures
            final(self)@ == (ChannelView {
                buffer: with_event(old(self)@.buffer, *event),
                ..old(self)@
            }),
            final(self)@ == streamed(old(self)@, *event),
    {
        append_event(&mut self.buffer, event);
    }

    /// Ends the turn: the message to send, with nothing left behind for the
    /// next turn.
    pub fn finalize(&mut self, outcome: &TurnOutcome) -> (r: OutgoingMessage)
        ensures
            r.channel_id == old(self)@.channel_id,
            r.text@ == payload(old(self)@.buffer, *outcome),
            final(self)@ == (ChannelView { buffer: Seq::empty(), ..old(self)@ }),
            (final(self)@, r.channel_id, r.text@) == sent(old(self)@, *outcome),
    {
        let mut out: String = String::new();
        std::mem::swap(&mut out, &mut self.buffer);
        let end: String = finalize_footer(outcome);
        out.push_str(end.as_str());
        let text: String = if is_blank(out.as_str()) {
            "(no reply)".to_owned()
        } else {
            out
        };
        OutgoingMessage { channel_id: self.channel_id, text }
    }

    /// What the turn has had to say so far.
    pub fn buffer_snapshot(&self) -> (r: String)
        ensures
            r@ == self@.buffer,
    {
        self.buffer.clone()
    }

    /// Makes ready for the next turn, which the last one's cancellation does
    /// not touch.
    pub fn reset_cancellation(&mut self)
        ensures
            final(self)@ == (ChannelView { cancelled: false, ..old(self)@ }),
    {
        self.token = CancellationToken { cancelled: false };
    }

    /// Tells the turn to stop.
    pub fn cancel(&mut self)
        ensures
            final(self)@ == (ChannelView { cancelled: true, ..old(self)@ }),
    {
        self.token = CancellationToken { cancelled: true };
    }

    /// Whether the turn has been told to stop.
    pub fn cancellation_token(&self) -> (r: CancellationToken)
        ensures
            r.cancelled == self@.cancelled,
    {
        self.token
    }
}

/// Trust is never the default: without a named channel, and in every channel
/// but that one, nobody is trusted.
pub proof fn law_only_the_named_channel_is_trusted(channel_id: u64, channel_filter: Option<u64>)
    ensures
        channel_tier(channel_id, None) == TrustTier::Untrusted,
        channel_tier(channel_id, channel_filter) != TrustTier::Trusted,
        channel_tier(channel_id, channel_filter) == TrustTier::SemiTrusted <==> channel_filter
            == Some(channel_id),
{
}

proof fn lemma_digits_differ(a: int, b: int)
    requires
        0 <= a < 10,
        0 <= b < 10,
        crate::text::digit_char(a) == crate::text::digit_char(b),
    ensures
        a == b,
{
}

/// Different channels keep their memory apart.
pub proof fn law_partitions_differ(a: nat, b: nat)
    requires
        decimal_text(a) == decimal_text(b),
    ensures
        a == b,
    decreases a,
{
    let x = decimal_text(a);
    let y = decimal_text(b);
    assert(x.last() == y.last());
    lemma_numeral_is_not_empty(a / 10);
    lemma_numeral_is_not_empty(b / 10);
    lemma_digits_differ((a % 10) as int, (b % 10) as int);
    if a < 10 {
        if b >= 10 {
            assert(y.len() >= 2);
        }
    } else {
        if b < 10 {
            assert(x.len() >= 2);
        }
        assert(x.drop_last() =~= decimal_text(a / 10));
        assert(y.drop_last() =~= decimal_text(b / 10));
        law_partitions_differ(a / 10, b / 10);
    }
}

proof fn lemma_numeral_is_not_empty(n: nat)
    ensures
        decimal_text(n).len() > 0,
{
}

/// What the model says is added as it comes; a status and a tool's call get a
/// line of their own, behind a sign, with the status, the tool's name and what
/// came of it; attachments and partial tool output are not shown.
pub proof fn law_what_an_event_adds(buffer: Seq<char>, event: StreamEvent<'_>)
    ensures
        ({
            let added = with_event(buffer, event).skip(buffer.len() as int);
            let line = if buffer.len() > 0 && buffer.last() != '\n' {
                seq!['\n']
            } else {
                Seq::<char>::empty()
            };
            match event {
                StreamEvent::Text(chunk) => added == chunk@,
                StreamEvent::Status(s) => added == line + "… "@ + s@ + seq!['\n'],
                StreamEvent::ToolCallStarted { tool_name, .. } => added == line + "→ "@ + tool_name@
                    + seq!['\n'],
                StreamEvent::ToolCallFinished { tool_name, outcome_summary, .. } => added == line
                    + "← "@ + tool_name@ + " "@ + outcome_summary@ + seq!['\n'],
                StreamEvent::Attachment { .. } => added.len() == 0,
                StreamEvent::ToolOutput { .. } => added.len() == 0,
            }
        }),
{
    let added = with_event(buffer, event).skip(buffer.len() as int);
    let line = if buffer.len() > 0 && buffer.last() != '\n' {
        seq!['\n']
    } else {
        Seq::<char>::empty()
    };
    match event {
        StreamEvent::Text(chunk) => {
            assert(added =~= chunk@);
        },
        StreamEvent::Status(s) => {
            assert(added =~= line + "… "@ + s@ + seq!['\n']);
        },
        StreamEvent::ToolCallStarted { tool_name, .. } => {
            assert(added =~= line + "→ "@ + tool_name@ + seq!['\n']);
        },
        StreamEvent::ToolCallFinished { tool_name, outcome_summary, .. } => {
            assert(added =~= line + "← "@ + tool_name@ + " "@ + outcome_summary@ + seq!['\n']);
        },
        _ => {},
    }
}

/// What is sent at the end of a turn is all of its output, followed by how it
/// ended: by nothing where it completed, and otherwise by a line that says what
/// stopped it, with the reason or the number it was stopped for. Where that
/// would be blank it is said that there is no reply.
pub proof fn law_what_a_turn_sends(buffer: Seq<char>, outcome: TurnOutcome)
    ensures
        ({
            let end = match outcome {
                TurnOutcome::Completed { .. } => Seq::<char>::empty(),
                TurnOutcome::Escalated { reason, .. } => "\n⏸ escalation: "@ + reason@,
                TurnOutcome::TimedOut { elapsed, .. } => "\n⏱ timed out after "@ + duration_form(
                    elapsed,
                ),
                TurnOutcome::Cancelled { .. } => "\n✕ cancelled"@,
                TurnOutcome::MaxStepsExceeded { max_steps, .. } => "\n✕ planner exceeded "@
                    + decimal_text(max_steps as nat) + " steps per turn"@,
                TurnOutcome::Looping { repeat_limit, .. } => "\n✕ stopped after "@ + decimal_text(
                    repeat_limit as nat,
                ) + " repeated identical tool calls"@,
                TurnOutcome::Failed(e) => "\n✕ failed: "@ + match e {
                    AivyxError::Config(s) => s@,
                    AivyxError::Tool { tool, detail } => detail@,
                    AivyxError::Channel(s) => s@,
                    AivyxError::Internal(s) => s@,
                },
            };
            payload(buffer, outcome) == if blank(buffer + end) {
                "(no reply)"@
            } else {
                buffer + end
            }
        }),
{
}

/// What happens in a turn is kept for its message and changes nothing else about
/// the channel; the message goes to the channel it came from; and once it is
/// sent, what the next turn sends has nothing of this one in it.
pub proof fn law_turns_are_sent_one_by_one(
    v: ChannelView,
    event: StreamEvent<'_>,
    outcome: TurnOutcome,
    next: StreamEvent<'_>,
    last: TurnOutcome,
)
    ensures
        streamed(v, event) == (ChannelView { buffer: streamed(v, event).buffer, ..v }),
        v.buffer.is_prefix_of(streamed(v, event).buffer),
        sent(v, outcome).0 == (ChannelView { buffer: sent(v, outcome).0.buffer, ..v }),
        sent(v, outcome).1 == v.channel_id,
        sent(streamed(sent(v, outcome).0, next), last).2 == payload(
            with_event(Seq::empty(), next),
            last,
        ),
{
    law_output_only_grows(v.buffer, event);
    assert(v.buffer =~= streamed(v, event).buffer.take(v.buffer.len() as int));
}

} // verus!
