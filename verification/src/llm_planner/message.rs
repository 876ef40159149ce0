//! The conversation that is sent to the model, and how it is seeded from
//! earlier turns and summed up when parts of it are dropped.

use vstd::prelude::*;
use crate::json::{Json, JsonView};
use crate::text::{
    blank,
    byte_prefix,
    is_blank,
    join,
    joined,
    law_joining_adds_one_part,
    lemma_byte_prefix,
    texts,
    truncate,
    utf8_len,
};

verus! {

// ---------------------------------------------------------------------------
// Messages
// ---------------------------------------------------------------------------

/// A part of a user message.
#[derive(Debug, PartialEq, Eq)]
pub enum ContentBlock {
    Text { text: String },
    ImageBase64 { media_type: String, data: String },
    DocumentBase64 { media_type: String, data: String },
}

/// A tool call as it stands in the conversation.
#[derive(Debug, PartialEq, Eq)]
pub struct LlmToolCallRecord {
    pub call_id: String,
    pub tool_name: String,
    pub input: Json,
}

/// A message of the conversation.
#[derive(Debug, PartialEq, Eq)]
#[allow(inconsistent_fields)]
pub enum LlmMessage {
    User { content: Vec<ContentBlock> },
    Assistant { text: String, tool_calls: Vec<LlmToolCallRecord> },
    ToolResult { call_id: String, content: String, is_error: bool },
}

/// What a [`ContentBlock`] stands for.
pub ghost enum BlockView {
    Text { text: Seq<char> },
    Image { media_type: Seq<char>, data: Seq<char> },
    Document { media_type: Seq<char>, data: Seq<char> },
}

impl View for ContentBlock {
    type V = BlockView;

    open spec fn view(&self) -> BlockView {
        match *self {
            ContentBlock::Text { text } => BlockView::Text { text: text@ },
            ContentBlock::ImageBase64 { media_type, data } => BlockView::Image {
                media_type: media_type@,
                data: data@,
            },
            ContentBlock::DocumentBase64 { media_type, data } => BlockView::Document {
                media_type: media_type@,
                data: data@,
            },
        }
    }
}

/// The blocks of a sequence.
pub open spec fn blocks(v: Seq<ContentBlock>) -> Seq<BlockView> {
    v.map_values(|b: ContentBlock| b@)
}

/// What an [`LlmToolCallRecord`] stands for.
pub ghost struct RecordView {
    pub call_id: Seq<char>,
    pub tool_name: Seq<char>,
    pub input: JsonView,
}

impl View for LlmToolCallRecord {
    type V = RecordView;

    open spec fn view(&self) -> RecordView {
        RecordView { call_id: self.call_id@, tool_name: self.tool_name@, input: self.input@ }
    }
}

/// The records of a sequence.
pub open spec fn records(v: Seq<LlmToolCallRecord>) -> Seq<RecordView> {
    v.map_values(|r: LlmToolCallRecord| r@)
}

/// What an [`LlmMessage`] stands for.
#[allow(inconsistent_fields)]
pub ghost enum MessageView {
    User { content: Seq<BlockView> },
    Assistant { text: Seq<char>, tool_calls: Seq<RecordView> },
    ToolResult { call_id: Seq<char>, content: Seq<char>, is_error: bool },
}

impl View for LlmMessage {
    type V = MessageView;

    open spec fn view(&self) -> MessageView {
        match *self {
            LlmMessage::User { content } => MessageView::User { content: blocks(content@) },
            LlmMessage::Assistant { text, tool_calls } => MessageView::Assistant {
                text: text@,
                tool_calls: records(tool_calls@),
            },
            LlmMessage::ToolResult { call_id, content, is_error } => MessageView::ToolResult {
                call_id: call_id@,
                content: content@,
                is_error,
            },
        }
    }
}

/// The messages of a sequence.
pub open spec fn messages(v: Seq<LlmMessage>) -> Seq<MessageView> {
    v.map_values(|m: LlmMessage| m@)
}

/// The user message that holds just `text`.
pub open spec fn user_text_view(text: Seq<char>) -> MessageView {
    MessageView::User { content: seq![BlockView::Text { text }] }
}

impl ContentBlock {
    /// A block of text.
    pub fn text(text: String) -> (r: ContentBlock)
        ensures
            r@ == (BlockView::Text { text: text@ }),
    {
        ContentBlock::Text { text }
    }

    /// The same block once more.
    pub fn copy(&self) -> (r: ContentBlock)
        ensures
            r@ == self@,
    {
        match self {
            ContentBlock::Text { text } => ContentBlock::Text { text: text.clone() },
            ContentBlock::ImageBase64 { media_type, data } => ContentBlock::ImageBase64 {
                media_type: media_type.clone(),
                data: data.clone(),
            },
            ContentBlock::DocumentBase64 { media_type, data } => ContentBlock::DocumentBase64 {
                media_type: media_type.clone(),
                data: data.clone(),
            },
        }
    }
}

impl LlmToolCallRecord {
    /// The same record once more.
    pub fn copy(&self) -> (r: LlmToolCallRecord)
        ensures
            r@ == self@,
    {
        LlmToolCallRecord {
            call_id: self.call_id.clone(),
            tool_name: self.tool_name.clone(),
            input: self.input.copy(),
        }
    }
}

impl LlmMessage {
    /// The user message that holds just `text`.
    pub fn user_text(text: String) -> (r: LlmMessage)
        ensures
            r@ == user_text_view(text@),
    {
        let mut content: Vec<ContentBlock> = Vec::new();
        content.push(ContentBlock::text(text));
        assert(blocks(content@) =~= seq![BlockView::Text { text: text@ }]);
        LlmMessage::User { content }
    }

    /// The same message once more.
    pub fn copy(&self) -> (r: LlmMessage)
        ensures
            r@ == self@,
    {
        match self {
            LlmMessage::User { content } => {
                let mut out: Vec<ContentBlock> = Vec::new();
                let mut i: usize = 0;
                while i < content.len()
                    invariant
                        i <= content@.len(),
                        blocks(out@) == blocks(content@).take(i as int),
                    decreases content@.len() - i,
                {
                    let b: ContentBlock = content[i].copy();
                    let ghost before = out@;
                    out.push(b);
                    assert(blocks(out@) =~= blocks(before).push(b@));
                    assert(blocks(content@).take(i + 1) =~= blocks(content@).take(i as int).push(
                        blocks(content@)[i as int],
                    ));
                    i = i + 1;
                }
                assert(blocks(content@).take(i as int) =~= blocks(content@));
                LlmMessage::User { content: out }
            },
            LlmMessage::Assistant { text, tool_calls } => {
                let mut out: Vec<LlmToolCallRecord> = Vec::new();
                let mut i: usize = 0;
                while i < tool_calls.len()
                    invariant
                        i <= tool_calls@.len(),
                        records(out@) == records(tool_calls@).take(i as int),
                    decreases tool_calls@.len() - i,
                {
                    let c: LlmToolCallRecord = tool_calls[i].copy();
                    let ghost before = out@;
                    out.push(c);
                    assert(records(out@) =~= records(before).push(c@));
                    assert(records(tool_calls@).take(i + 1) =~= records(tool_calls@).take(
                        i as int,
                    ).push(records(tool_calls@)[i as int]));
                    i = i + 1;
                }
                assert(records(tool_calls@).take(i as int) =~= records(tool_calls@));
                LlmMessage::Assistant { text: text.clone(), tool_calls: out }
            },
            LlmMessage::ToolResult { call_id, content, is_error } => LlmMessage::ToolResult {
                call_id: call_id.clone(),
                content: content.clone(),
                is_error: *is_error,
            },
        }
    }
}

// ---------------------------------------------------------------------------
// Seeding from earlier turns
// ---------------------------------------------------------------------------

/// One earlier message of the session: who said it, and what was said.
#[derive(Debug, PartialEq, Eq)]
pub struct PriorTurn {
    pub is_user: bool,
    pub text: String,
}

/// What a [`PriorTurn`] stands for.
pub ghost struct PriorView {
    pub is_user: bool,
    pub text: Seq<char>,
}

impl View for PriorTurn {
    type V = PriorView;

    open spec fn view(&self) -> PriorView {
        PriorView { is_user: self.is_user, text: self.text@ }
    }
}

/// The turns of a sequence.
pub open spec fn priors(v: Seq<PriorTurn>) -> Seq<PriorView> {
    v.map_values(|t: PriorTurn| t@)
}

/// The turns of `prior` with blank ones and leading assistant ones dropped,
/// and each run of one speaker made into one turn, a line break between its
/// parts.
pub open spec fn coalesced(prior: Seq<PriorView>) -> Seq<PriorView>
    decreases prior.len(),
{
    if prior.len() == 0 {
        Seq::empty()
    } else {
        let done = coalesced(prior.drop_last());
        let turn = prior.last();
        if blank(turn.text) || (done.len() == 0 && !turn.is_user) {
            done
        } else if done.len() > 0 && done.last().is_user == turn.is_user {
            done.drop_last().push(
                PriorView {
                    is_user: turn.is_user,
                    text: done.last().text + seq!['\n'] + turn.text,
                },
            )
        } else {
            done.push(turn)
        }
    }
}

/// The assistant turn that stands for an answer that never came.
pub open spec fn no_response() -> PriorView {
    PriorView { is_user: false, text: "(no response was produced that turn)"@ }
}

/// The turns that precede the current user message: [`coalesced`], with
/// [`no_response`] behind a user turn that was left without an answer.
pub open spec fn seeded(prior: Seq<PriorView>) -> Seq<PriorView> {
    let c = coalesced(prior);
    if c.len() > 0 && c.last().is_user {
        c.push(no_response())
    } else {
        c
    }
}

/// An earlier turn as a message.
pub open spec fn turn_message(t: PriorView) -> MessageView {
    if t.is_user {
        user_text_view(t.text)
    } else {
        MessageView::Assistant { text: t.text, tool_calls: Seq::empty() }
    }
}

/// Earlier turns as messages.
pub open spec fn turn_messages(s: Seq<PriorView>) -> Seq<MessageView> {
    s.map_values(|t: PriorView| turn_message(t))
}

/// Makes the session's earlier turns into the messages that precede the
/// current one.
pub fn seeded_history_messages(prior: Vec<PriorTurn>) -> (r: Vec<LlmMessage>)
    ensures
        messages(r@) == turn_messages(seeded(priors(prior@))),
{
    let ghost p = priors(prior@);
    let mut turns: Vec<PriorTurn> = Vec::new();
    let mut i: usize = 0;
    while i < prior.len()
        invariant
            i <= prior@.len(),
            p == priors(prior@),
            priors(turns@) == coalesced(p.take(i as int)),
        decreases prior@.len() - i,
    {
        let turn: PriorTurn = PriorTurn { is_user: prior[i].is_user, text: prior[i].text.clone() };
        let ghost before = turns@;
        proof {
            assert(p.take(i + 1).drop_last() =~= p.take(i as int));
            assert(p.take(i + 1).last() == turn@);
            assert(priors(before).len() == before.len());
        }
        i = i + 1;
        if is_blank(turn.text.as_str()) {
            continue ;
        }
        if turns.len() == 0 && !turn.is_user {
            continue ;
        }
        if turns.len() > 0 && turns[turns.len() - 1].is_user == turn.is_user {
            match turns.pop() {
                Some(last) => {
                    let mut text: String = last.text;
                    text.push('\n');
                    text.push_str(turn.text.as_str());
                    proof {
                        assert(before == turns@.push(last));
                        assert(text@ =~= last.text@ + seq!['\n'] + turn.text@);
                        assert(priors(before).drop_last() =~= priors(turns@));
                        assert(priors(before).last() == last@);
                    }
                    let ghost rest = turns@;
                    turns.push(PriorTurn { is_user: turn.is_user, text });
                    assert(priors(turns@) =~= priors(rest).push(
                        PriorView { is_user: turn.is_user, text: text@ },
                    ));
                },
                None => {},
            }
        } else {
            turns.push(turn);
            assert(priors(turns@) =~= priors(before).push(turn@));
            proof {
                if before.len() > 0 {
                    assert(priors(before).last() == before.last()@);
                }
            }
        }
    }
    assert(p.take(i as int) =~= p);
    let ghost c = turns@;
    assert(priors(c).len() == c.len());
    if turns.len() > 0 && turns[turns.len() - 1].is_user {
        turns.push(
            PriorTurn {
                is_user: false,
                text: "(no response was produced that turn)".to_owned(),
            },
        );
        assert(priors(turns@) =~= priors(c).push(no_response()));
        assert(priors(c).last() == c.last()@);
    } else {
        proof {
            if c.len() > 0 {
                assert(priors(c).last() == c.last()@);
            }
        }
    }
    let ghost s = seeded(p);
    assert(priors(turns@) == s);
    let mut out: Vec<LlmMessage> = Vec::new();
    let mut j: usize = 0;
    while j < turns.len()
        invariant
            j <= turns@.len(),
            priors(turns@) == s,
            messages(out@) == turn_messages(s).take(j as int),
        decreases turns@.len() - j,
    {
        assert(s[j as int] == turns@[j as int]@);
        let text: String = turns[j].text.clone();
        let m: LlmMessage = if turns[j].is_user {
            LlmMessage::user_text(text)
        } else {
            let none: Vec<LlmToolCallRecord> = Vec::new();
            assert(records(none@) =~= Seq::empty());
            LlmMessage::Assistant { text, tool_calls: none }
        };
        assert(m@ == turn_message(s[j as int]));
        let ghost before = out@;
        out.push(m);
        assert(messages(out@) =~= messages(before).push(m@));
        assert(turn_messages(s).take(j + 1) =~= turn_messages(s).take(j as int).push(
            turn_messages(s)[j as int],
        ));
        j = j + 1;
    }
    assert(turn_messages(s).take(j as int) =~= turn_messages(s));
    out
}

proof fn lemma_coalesced(prior: Seq<PriorView>)
    ensures
        forall|i: int|
            0 <= i < coalesced(prior).len() ==> #[trigger] coalesced(prior)[i].is_user == (i % 2
                == 0),
        forall|i: int| 0 <= i < coalesced(prior).len() ==> !blank(#[trigger] coalesced(prior)[i].text),
    decreases prior.len(),
{
    if prior.len() > 0 {
        let done = coalesced(prior.drop_last());
        let turn = prior.last();
        let c = coalesced(prior);
        lemma_coalesced(prior.drop_last());
        if blank(turn.text) || (done.len() == 0 && !turn.is_user) {
        } else if done.len() > 0 && done.last().is_user == turn.is_user {
            let n = done.len() - 1;
            assert(!blank(done[n].text));
            let k = choose|k: int|
                0 <= k < done[n].text.len() && !crate::text::white_space(#[trigger] done[n].text[k]);
            assert(c[n].text[k] == done[n].text[k]);
            assert forall|i: int| 0 <= i < c.len() implies #[trigger] c[i].is_user == (i % 2 == 0)
                && !blank(c[i].text) by {
                if i < n {
                    assert(c[i] == done[i]);
                } else {
                    assert(done[n].is_user == (n % 2 == 0));
                }
            }
        } else {
            assert forall|i: int| 0 <= i < c.len() implies #[trigger] c[i].is_user == (i % 2 == 0)
                && !blank(c[i].text) by {
                if i < done.len() {
                    assert(c[i] == done[i]);
                } else if done.len() > 0 {
                    assert(done[done.len() - 1].is_user == ((done.len() - 1) % 2 == 0));
                }
            }
        }
    }
}

/// Seeded turns can precede a user message with any provider: the user
/// speaks first, the speakers alternate, the assistant has the last word, and
/// no turn is blank.
pub proof fn law_seeded_turns_alternate(prior: Seq<PriorView>)
    ensures
        forall|i: int|
            0 <= i < seeded(prior).len() ==> #[trigger] seeded(prior)[i].is_user == (i % 2 == 0),
        seeded(prior).len() % 2 == 0,
        forall|i: int| 0 <= i < seeded(prior).len() ==> !blank(#[trigger] seeded(prior)[i].text),
{
    lemma_coalesced(prior);
    let c = coalesced(prior);
    let s = seeded(prior);
    reveal_strlit("(no response was produced that turn)");
    assert(!crate::text::white_space(no_response().text[0]));
    if c.len() > 0 {
        assert(c[c.len() - 1].is_user == ((c.len() - 1) % 2 == 0));
    }
    assert forall|i: int| 0 <= i < s.len() implies #[trigger] s[i].is_user == (i % 2 == 0)
        && !blank(s[i].text) by {
        if i < c.len() {
            assert(s[i] == c[i]);
        }
    }
}

/// Where nothing but blank turns precede, nothing is seeded.
pub proof fn law_blank_turns_seed_nothing(prior: Seq<PriorView>)
    requires
        forall|i: int| 0 <= i < prior.len() ==> blank(#[trigger] prior[i].text),
    ensures
        seeded(prior).len() == 0,
    decreases prior.len(),
{
    if prior.len() > 0 {
        assert forall|i: int| 0 <= i < prior.drop_last().len() implies blank(
            #[trigger] prior.drop_last()[i].text,
        ) by {
            assert(prior.drop_last()[i] == prior[i]);
        }
        law_blank_turns_seed_nothing(prior.drop_last());
        assert(blank(prior[prior.len() - 1].text));
    }
}

// ---------------------------------------------------------------------------
// Summing up dropped messages
// ---------------------------------------------------------------------------

/// How many bytes of a message a summary shows.
pub const SUMMARY_BYTES: usize = 200;

/// What a summary shows of a block: its text, or else its media type.
pub open spec fn block_label(b: BlockView) -> Seq<char> {
    match b {
        BlockView::Text { text } => text,
        BlockView::Image { media_type, data } => media_type,
        BlockView::Document { media_type, data } => media_type,
    }
}

/// The labels of a sequence of blocks.
pub open spec fn block_labels(s: Seq<BlockView>) -> Seq<Seq<char>> {
    s.map_values(|b: BlockView| block_label(b))
}

/// The lines that name the tools an assistant message called.
pub open spec fn call_lines(calls: Seq<RecordView>) -> Seq<char>
    decreases calls.len(),
{
    if calls.len() == 0 {
        Seq::empty()
    } else {
        call_lines(calls.drop_last()) + "\n  tool_call: "@ + calls.last().tool_name
    }
}

/// The summary of one message.
pub open spec fn summary_line(m: MessageView) -> Seq<char> {
    match m {
        MessageView::User { content } => "[user] "@ + byte_prefix(
            joined(block_labels(content), ", "@),
            SUMMARY_BYTES as nat,
        ),
        MessageView::Assistant { text, tool_calls } => "[assistant] "@ + byte_prefix(
            text,
            SUMMARY_BYTES as nat,
        ) + call_lines(tool_calls),
        MessageView::ToolResult { call_id, content, is_error } => "[tool_result call_id="@ + call_id
            + "] "@ + byte_prefix(content, SUMMARY_BYTES as nat),
    }
}

/// The summary of each message of a sequence.
pub open spec fn summary_lines(s: Seq<MessageView>) -> Seq<Seq<char>> {
    s.map_values(|m: MessageView| summary_line(m))
}

/// The summary of a run of messages: one entry per message, each on a line of
/// its own.
pub open spec fn summary_of(s: Seq<MessageView>) -> Seq<char> {
    joined(summary_lines(s), seq!['\n'])
}

fn summarise_one(m: &LlmMessage) -> (r: String)
    ensures
        r@ == summary_line(m@),
{
    let mut buf: String = String::new();
    match m {
        LlmMessage::User { content } => {
            let mut parts: Vec<String> = Vec::new();
            let mut i: usize = 0;
            while i < content.len()
                invariant
                    i <= content@.len(),
                    texts(parts@) == block_labels(blocks(content@)).take(i as int),
                decreases content@.len() - i,
            {
                let label: String = match &content[i] {
                    ContentBlock::Text { text } => text.clone(),
                    ContentBlock::ImageBase64 { media_type, data: _ } => media_type.clone(),
                    ContentBlock::DocumentBase64 { media_type, data: _ } => media_type.clone(),
                };
                let ghost before = parts@;
                let ghost all = block_labels(blocks(content@));
                parts.push(label);
                assert(texts(parts@) =~= texts(before).push(label@));
                assert(all.take(i + 1) =~= all.take(i as int).push(all[i as int]));
                i = i + 1;
            }
            assert(block_labels(blocks(content@)).take(i as int) =~= block_labels(
                blocks(content@),
            ));
            let all: String = join(&parts, ", ");
            buf.push_str("[user] ");
            let shown: String = truncate(all.as_str(), SUMMARY_BYTES);
            buf.push_str(shown.as_str());
            assert(buf@ =~= "[user] "@ + shown@);
        },
        LlmMessage::Assistant { text, tool_calls } => {
            buf.push_str("[assistant] ");
            let shown: String = truncate(text.as_str(), SUMMARY_BYTES);
            buf.push_str(shown.as_str());
            let ghost head = buf@;
            assert(head =~= "[assistant] "@ + shown@);
            let mut i: usize = 0;
            while i < tool_calls.len()
                invariant
                    i <= tool_calls@.len(),
                    buf@ == head + call_lines(records(tool_calls@).take(i as int)),
                decreases tool_calls@.len() - i,
            {
                let ghost all = records(tool_calls@);
                assert(all.take(i + 1).drop_last() =~= all.take(i as int));
                assert(all.take(i + 1).last() == tool_calls@[i as int]@);
                buf.push_str("\n  tool_call: ");
                buf.push_str(tool_calls[i].tool_name.as_str());
                assert(buf@ =~= head + call_lines(all.take(i + 1)));
                i = i + 1;
            }
            assert(records(tool_calls@).take(i as int) =~= records(tool_calls@));
        },
        LlmMessage::ToolResult { call_id, content, is_error: _ } => {
            buf.push_str("[tool_result call_id=");
            buf.push_str(call_id.as_str());
            buf.push_str("] ");
            let shown: String = truncate(content.as_str(), SUMMARY_BYTES);
            buf.push_str(shown.as_str());
            assert(buf@ =~= "[tool_result call_id="@ + call_id@ + "] "@ + shown@);
        },
    }
    buf
}

/// Sums up the first `count` messages for whoever keeps them: long ones are
/// cut short.
pub fn summarise_pruned(history: &Vec<LlmMessage>, count: usize) -> (r: String)
    requires
        count <= history@.len(),
    ensures
        r@ == summary_of(messages(history@).take(count as int)),
{
    let ghost all = messages(history@);
    let mut lines: Vec<String> = Vec::new();
    let mut i: usize = 0;
    while i < count
        invariant
            i <= count <= history@.len(),
            all == messages(history@),
            texts(lines@) == summary_lines(all.take(i as int)),
        decreases count - i,
    {
        let line: String = summarise_one(&history[i]);
        let ghost before = lines@;
        lines.push(line);
        assert(texts(lines@) =~= texts(before).push(line@));
        assert(summary_lines(all.take(i + 1)) =~= summary_lines(all.take(i as int)).push(
            summary_line(all[i as int]),
        ));
        i = i + 1;
    }
    proof {
        reveal_strlit("\n");
        assert("\n"@ =~= seq!['\n']);
    }
    join(&lines, "\n")
}

// ---------------------------------------------------------------------------
// What is seeded and what is summed up
// ---------------------------------------------------------------------------

/// What the assistant said before the user said anything is left out.
pub proof fn law_the_user_speaks_first(first: PriorView, prior: Seq<PriorView>)
    requires
        !first.is_user,
    ensures
        seeded(seq![first] + prior) == seeded(prior),
{
    lemma_opening_is_left_out(first, prior);
}

proof fn lemma_opening_is_left_out(first: PriorView, prior: Seq<PriorView>)
    requires
        !first.is_user,
    ensures
        coalesced(seq![first] + prior) == coalesced(prior),
    decreases prior.len(),
{
    let all = seq![first] + prior;
    if prior.len() > 0 {
        lemma_opening_is_left_out(first, prior.drop_last());
        assert(all.drop_last() =~= seq![first] + prior.drop_last());
        assert(all.last() == prior.last());
    } else {
        assert(all.drop_last() =~= Seq::<PriorView>::empty());
        assert(coalesced(all.drop_last()) =~= Seq::<PriorView>::empty());
        assert(coalesced(all) =~= coalesced(prior));
    }
}

/// A blank turn is left out, wherever it stands.
pub proof fn law_a_blank_turn_is_left_out(
    before: Seq<PriorView>,
    turn: PriorView,
    after: Seq<PriorView>,
)
    requires
        blank(turn.text),
    ensures
        seeded(before.push(turn) + after) == seeded(before + after),
{
    assert(before.push(turn).drop_last() =~= before);
    lemma_same_start(before.push(turn), before, after);
}

proof fn lemma_same_start(a: Seq<PriorView>, b: Seq<PriorView>, after: Seq<PriorView>)
    requires
        coalesced(a) == coalesced(b),
    ensures
        coalesced(a + after) == coalesced(b + after),
    decreases after.len(),
{
    if after.len() > 0 {
        lemma_same_start(a, b, after.drop_last());
        assert((a + after).drop_last() =~= a + after.drop_last());
        assert((b + after).drop_last() =~= b + after.drop_last());
    } else {
        assert(a + after =~= a);
        assert(b + after =~= b);
    }
}

/// Two turns of one speaker in a row count as one, with a line break between
/// what was said.
pub proof fn law_turns_of_one_speaker_are_joined(
    before: Seq<PriorView>,
    is_user: bool,
    one: Seq<char>,
    other: Seq<char>,
    after: Seq<PriorView>,
)
    requires
        !blank(one),
        !blank(other),
    ensures
        seeded(
            before.push(PriorView { is_user, text: one }).push(PriorView { is_user, text: other })
                + after,
        ) == seeded(before.push(PriorView { is_user, text: one + seq!['\n'] + other }) + after),
{
    let a = PriorView { is_user, text: one };
    let b = PriorView { is_user, text: other };
    let both = PriorView { is_user, text: one + seq!['\n'] + other };
    let x = before.push(a).push(b);
    let y = before.push(both);
    let done = coalesced(before);
    assert(before.push(a).drop_last() =~= before);
    assert(x.drop_last() =~= before.push(a));
    assert(y.drop_last() =~= before);
    assert(!blank(both.text)) by {
        let i = choose|i: int| 0 <= i < one.len() && !crate::text::white_space(#[trigger] one[i]);
        assert(both.text[i] == one[i]);
    }
    let mid = coalesced(before.push(a));
    if done.len() == 0 && !is_user {
        assert(mid == done);
        assert(coalesced(x) == done);
        assert(coalesced(y) == done);
    } else if done.len() > 0 && done.last().is_user == is_user {
        let d = done.last().text;
        assert(mid == done.drop_last().push(PriorView { is_user, text: d + seq!['\n'] + one }));
        assert(mid.drop_last() =~= done.drop_last());
        assert(d + seq!['\n'] + one + seq!['\n'] + other =~= d + seq!['\n'] + both.text);
        assert(coalesced(x) == coalesced(y));
    } else {
        assert(mid == done.push(a));
        assert(mid.drop_last() =~= done);
        assert(coalesced(x) == coalesced(y));
    }
    lemma_same_start(x, y, after);
}

/// Turns that alternate from the user's first one on and are not blank are
/// seeded as they are; where the user has the last word, it is said in the
/// assistant's place that no response was produced.
pub proof fn law_alternating_turns_are_seeded_as_they_are(prior: Seq<PriorView>)
    requires
        forall|i: int| 0 <= i < prior.len() ==> (#[trigger] prior[i]).is_user == (i % 2 == 0),
        forall|i: int| 0 <= i < prior.len() ==> !blank((#[trigger] prior[i]).text),
    ensures
        prior.len() % 2 == 0 ==> seeded(prior) == prior,
        prior.len() % 2 == 1 ==> seeded(prior) == prior.push(
            PriorView { is_user: false, text: "(no response was produced that turn)"@ },
        ),
{
    lemma_alternating_turns_stay(prior);
    if prior.len() > 0 {
        assert(prior[prior.len() - 1].is_user == ((prior.len() - 1) % 2 == 0));
    }
}

proof fn lemma_alternating_turns_stay(prior: Seq<PriorView>)
    requires
        forall|i: int| 0 <= i < prior.len() ==> (#[trigger] prior[i]).is_user == (i % 2 == 0),
        forall|i: int| 0 <= i < prior.len() ==> !blank((#[trigger] prior[i]).text),
    ensures
        coalesced(prior) == prior,
    decreases prior.len(),
{
    if prior.len() > 0 {
        let rest = prior.drop_last();
        assert forall|i: int| 0 <= i < rest.len() implies (#[trigger] rest[i]).is_user == (i % 2
            == 0) && !blank(rest[i].text) by {
            assert(rest[i] == prior[i]);
        }
        lemma_alternating_turns_stay(rest);
        assert(!blank(prior[prior.len() - 1].text));
        assert(prior[prior.len() - 1].is_user == ((prior.len() - 1) % 2 == 0));
        if rest.len() > 0 {
            assert(rest.last() == prior[prior.len() - 2]);
            assert(prior[prior.len() - 2].is_user == ((prior.len() - 2) % 2 == 0));
        }
        assert(rest.push(prior.last()) =~= prior);
    } else {
        assert(coalesced(prior) =~= prior);
    }
}

/// A summary has a line for each message, in their order.
pub proof fn law_a_summary_has_a_line_per_message(s: Seq<MessageView>, m: MessageView)
    ensures
        summary_of(Seq::empty()) == Seq::<char>::empty(),
        summary_of(s.push(m)) == if s.len() == 0 {
            summary_line(m)
        } else {
            summary_of(s) + seq!['\n'] + summary_line(m)
        },
{
    assert(summary_lines(s.push(m)) =~= summary_lines(s).push(summary_line(m)));
    law_joining_adds_one_part(summary_lines(s), seq!['\n'], summary_line(m));
    assert(summary_lines(Seq::empty()) =~= Seq::<Seq<char>>::empty());
}

/// Whether `shown` is as much of the start of a text as fits into 200 bytes.
pub open spec fn is_the_start(shown: Seq<char>, text: Seq<char>) -> bool {
    &&& shown.is_prefix_of(text)
    &&& utf8_len(shown) <= 200
    &&& shown.len() < text.len() ==> utf8_len(text.take(shown.len() as int + 1)) > 200
}

/// A line of a summary says who spoke, and what: all of it where it has no more
/// than 200 bytes, and otherwise as much of its start as fits. Behind what the
/// assistant said stand the tools it called, and a result says which call it
/// answers.
pub proof fn law_a_summary_line_shows_the_start(m: MessageView)
    ensures
        match m {
            MessageView::User { content } => {
                let said = joined(
                    content.map_values(
                        |b: BlockView|
                            match b {
                                BlockView::Text { text } => text,
                                BlockView::Image { media_type, data } => media_type,
                                BlockView::Document { media_type, data } => media_type,
                            },
                    ),
                    ", "@,
                );
                exists|shown: Seq<char>| #[trigger]
                    is_the_start(shown, said) && summary_line(m) == "[user] "@ + shown
            },
            MessageView::Assistant { text, tool_calls } => exists|shown: Seq<char>| #[trigger]
                is_the_start(shown, text) && summary_line(m) == "[assistant] "@ + shown
                    + tool_calls.map_values(
                    |c: RecordView| "\n  tool_call: "@ + c.tool_name,
                ).flatten(),
            MessageView::ToolResult { call_id, content, is_error } => exists|shown: Seq<char>|
             #[trigger]
                is_the_start(shown, content) && summary_line(m) == "[tool_result call_id="@
                    + call_id + "] "@ + shown,
        },
{
    match m {
        MessageView::User { content } => {
            let labels = content.map_values(
                |b: BlockView|
                    match b {
                        BlockView::Text { text } => text,
                        BlockView::Image { media_type, data } => media_type,
                        BlockView::Document { media_type, data } => media_type,
                    },
            );
            assert(labels =~= block_labels(content));
            let said = joined(labels, ", "@);
            let shown = byte_prefix(said, 200);
            lemma_byte_prefix(said, 200);
            assert(is_the_start(shown, said));
        },
        MessageView::Assistant { text, tool_calls } => {
            let shown = byte_prefix(text, 200);
            lemma_byte_prefix(text, 200);
            lemma_call_lines(tool_calls);
            assert(is_the_start(shown, text));
        },
        MessageView::ToolResult { call_id, content, is_error } => {
            let shown = byte_prefix(content, 200);
            lemma_byte_prefix(content, 200);
            assert(is_the_start(shown, content));
        },
    }
}

proof fn lemma_call_lines(calls: Seq<RecordView>)
    ensures
        call_lines(calls) == calls.map_values(
            |c: RecordView| "\n  tool_call: "@ + c.tool_name,
        ).flatten(),
    decreases calls.len(),
{
    let line = |c: RecordView| "\n  tool_call: "@ + c.tool_name;
    if calls.len() > 0 {
        let rest = calls.drop_last();
        lemma_call_lines(rest);
        assert(calls.map_values(line) =~= rest.map_values(line).push(line(calls.last())));
        rest.map_values(line).lemma_flatten_push(line(calls.last()));
        assert(call_lines(calls) =~= call_lines(rest) + line(calls.last()));
    } else {
        assert(calls.map_values(line) =~= Seq::<Seq<char>>::empty());
        assert(call_lines(calls) =~= calls.map_values(line).flatten());
    }
}

/// A message is known by what it stands for: messages that stand for the same
/// are of one kind and say the same, block by block and call by call.
pub proof fn law_messages_are_told_apart(a: LlmMessage, b: LlmMessage)
    requires
        a@ == b@,
    ensures
        match (a, b) {
            (LlmMessage::User { content: x }, LlmMessage::User { content: y }) => x@.len()
                == y@.len() && forall|i: int| 0 <= i < x@.len() ==> (#[trigger] x@[i])@ == y@[i]@,
            (
                LlmMessage::Assistant { text: s, tool_calls: x },
                LlmMessage::Assistant { text: t, tool_calls: y },
            ) => s@ == t@ && x@.len() == y@.len() && forall|i: int|
                0 <= i < x@.len() ==> (#[trigger] x@[i])@ == y@[i]@,
            (
                LlmMessage::ToolResult { call_id: c, content: s, is_error: e },
                LlmMessage::ToolResult { call_id: d, content: t, is_error: f },
            ) => c@ == d@ && s@ == t@ && e == f,
            _ => false,
        },
{
    match (a, b) {
        (LlmMessage::User { content: x }, LlmMessage::User { content: y }) => {
            assert(blocks(x@).len() == blocks(y@).len());
            assert forall|i: int| 0 <= i < x@.len() implies (#[trigger] x@[i])@ == y@[i]@ by {
                assert(blocks(x@)[i] == x@[i]@);
                assert(blocks(y@)[i] == y@[i]@);
            }
        },
        (
            LlmMessage::Assistant { text: s, tool_calls: x },
            LlmMessage::Assistant { text: t, tool_calls: y },
        ) => {
            assert(records(x@).len() == records(y@).len());
            assert forall|i: int| 0 <= i < x@.len() implies (#[trigger] x@[i])@ == y@[i]@ by {
                assert(records(x@)[i] == x@[i]@);
                assert(records(y@)[i] == y@[i]@);
            }
        },
        _ => {},
    }
}

/// A block is known by what it stands for, and so are a call on record and an
/// earlier turn.
pub proof fn law_blocks_and_calls_are_told_apart(
    a: ContentBlock,
    b: ContentBlock,
    c: LlmToolCallRecord,
    d: LlmToolCallRecord,
    e: PriorTurn,
    f: PriorTurn,
)
    ensures
        a@ == b@ ==> match (a, b) {
            (ContentBlock::Text { text: s }, ContentBlock::Text { text: t }) => s@ == t@,
            (
                ContentBlock::ImageBase64 { media_type: m, data: x },
                ContentBlock::ImageBase64 { media_type: n, data: y },
            ) => m@ == n@ && x@ == y@,
            (
                ContentBlock::DocumentBase64 { media_type: m, data: x },
                ContentBlock::DocumentBase64 { media_type: n, data: y },
            ) => m@ == n@ && x@ == y@,
            _ => false,
        },
        c@ == d@ ==> c.call_id@ == d.call_id@ && c.tool_name@ == d.tool_name@ && c.input@
            == d.input@,
        e@ == f@ ==> e.is_user == f.is_user && e.text@ == f.text@,
{
}

} // verus!
