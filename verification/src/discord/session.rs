//! Sessions: each channel's messages become turns one after the other, and
//! one reader serves all channels.

use std::collections::{HashMap, VecDeque};
use vstd::prelude::*;
use crate::discord::channel::IncomingMessage;
use crate::llm_planner::config::{opt_texts, ConfigView, LlmPlannerConfig};
use crate::llm_planner::resolve::FUZZY_TOOL_NAME_THRESHOLD;
use crate::text::{same_text, trim, trimmed};
use crate::tools::git::copy_texts;

verus! {

broadcast use vstd::std_specs::hash::group_hash_axioms;

/// How many messages of a channel may wait while a turn is under way.
pub const CHANNEL_MAILBOX_CAPACITY: usize = 32;

// ---------------------------------------------------------------------------
// Configuration
// ---------------------------------------------------------------------------

/// What the sessions of all channels have in common.
#[derive(Debug)]
pub struct DiscordSessionConfig {
    pub model: String,
    pub system_prompt: String,
    pub max_tokens: u32,
    /// The tools that the active role may use; `None` for all of them.
    pub tool_allowlist: Option<Vec<String>>,
    /// What the role's topics in the memory start with.
    pub memory_topic_prefix: Option<String>,
    /// How long a turn may take; `None` for the usual time.
    pub turn_timeout_secs: Option<u64>,
    /// Whether turns that go round in circles are stopped.
    pub cycle_detection: Option<bool>,
    /// Whether what tools return is searched for hidden instructions.
    pub injection_scan_enabled: bool,
    /// Whether destructive operations need a confirmation.
    pub confirm_destructive: bool,
    /// The tools whose output is not searched.
    pub injection_scan_exempt: Vec<String>,
}

/// What the planner of each turn is configured with.
pub open spec fn planner_settings(c: DiscordSessionConfig) -> ConfigView {
    ConfigView {
        model: c.model@,
        system_prompt: Some(c.system_prompt@),
        max_tokens: c.max_tokens,
        temperature: None,
        tool_allowlist: opt_texts(c.tool_allowlist),
        context_window_tokens: None,
        prune_sink: false,
        context_provider: false,
        system_prompt_refiner: false,
        conversation_seeder: false,
        tool_name_auto_correct_threshold: FUZZY_TOOL_NAME_THRESHOLD,
    }
}

impl DiscordSessionConfig {
    /// What the planner of each turn is configured with.
    pub fn planner_config(&self) -> (r: LlmPlannerConfig)
        ensures
            r@ == (ConfigView {
                model: self.model@,
                system_prompt: Some(self.system_prompt@),
                max_tokens: self.max_tokens,
                temperature: None,
                tool_allowlist: opt_texts(self.tool_allowlist),
                context_window_tokens: None,
                prune_sink: false,
                context_provider: false,
                system_prompt_refiner: false,
                conversation_seeder: false,
                tool_name_auto_correct_threshold: FUZZY_TOOL_NAME_THRESHOLD,
            }),
            r@ == planner_settings(*self),
    {
        let allowlist: Option<Vec<String>> = match &self.tool_allowlist {
            Some(names) => Some(copy_texts(names)),
            None => None,
        };
        LlmPlannerConfig::new(self.model.clone()).with_system_prompt(
            self.system_prompt.clone(),
        ).with_max_tokens(self.max_tokens).with_tool_allowlist(allowlist)
    }
}

// ---------------------------------------------------------------------------
// Reports
// ---------------------------------------------------------------------------

/// What a channel's session has done.
#[derive(Debug, Clone, Copy, PartialEq, Eq)]
pub struct DiscordSessionReport {
    pub turns_run: usize,
}

/// What the sessions of all channels have done.
#[derive(Debug)]
pub struct DiscordMultiSessionReport {
    /// The turns of each channel.
    pub turns_by_channel: HashMap<u64, usize>,
}

impl Default for DiscordMultiSessionReport {
    fn default() -> (r: DiscordMultiSessionReport)
        ensures
            r.turns_by_channel@ == Map::<u64, usize>::empty(),
    {
        DiscordMultiSessionReport { turns_by_channel: HashMap::new() }
    }
}

/// The sum of a map's values.
pub open spec fn value_sum(m: Map<u64, usize>) -> nat
    decreases m.dom().len(),
    when m.dom().finite()
{
    if m.dom().len() == 0 {
        0
    } else {
        let k = m.dom().choose();
        m[k] as nat + value_sum(m.remove(k))
    }
}

/// The sum of the values of the given keys.
spec fn key_sum(m: Map<u64, usize>, keys: Seq<u64>) -> nat
    decreases keys.len(),
{
    if keys.len() == 0 {
        0
    } else {
        key_sum(m, keys.drop_last()) + m[keys.last()] as nat
    }
}

proof fn lemma_value_sum_remove(m: Map<u64, usize>, k: u64)
    requires
        m.dom().finite(),
        m.dom().contains(k),
    ensures
        value_sum(m) == m[k] as nat + value_sum(m.remove(k)),
    decreases m.dom().len(),
{
    let c = m.dom().choose();
    assert(m.dom().contains(c));
    assert(m.remove(k).dom() =~= m.dom().remove(k));
    assert(m.remove(c).dom() =~= m.dom().remove(c));
    if c != k {
        lemma_value_sum_remove(m.remove(c), k);
        lemma_value_sum_remove(m.remove(k), c);
        assert(m.remove(c).remove(k) =~= m.remove(k).remove(c));
    }
}

proof fn lemma_key_sum_elsewhere(m: Map<u64, usize>, keys: Seq<u64>, k: u64)
    requires
        !keys.contains(k),
    ensures
        key_sum(m, keys) == key_sum(m.remove(k), keys),
    decreases keys.len(),
{
    if keys.len() > 0 {
        assert(keys.contains(keys.last()));
        assert forall|x: u64| keys.drop_last().contains(x) implies keys.contains(x) by {
            let i = choose|i: int| 0 <= i < keys.drop_last().len() && keys.drop_last()[i] == x;
            assert(keys[i] == x);
        }
        lemma_key_sum_elsewhere(m, keys.drop_last(), k);
    }
}

proof fn lemma_key_sum(m: Map<u64, usize>, keys: Seq<u64>)
    requires
        m.dom().finite(),
        keys.no_duplicates(),
        keys.to_set() == m.dom(),
    ensures
        key_sum(m, keys) == value_sum(m),
    decreases keys.len(),
{
    if keys.len() == 0 {
        assert(m.dom() =~= Set::empty());
    } else {
        let k = keys.last();
        let rest = keys.drop_last();
        assert(keys.contains(k));
        assert(m.dom().contains(k));
        lemma_value_sum_remove(m, k);
        assert forall|x: u64| rest.to_set().contains(x) <==> m.remove(k).dom().contains(x) by {
            if rest.contains(x) {
                let i = choose|i: int| 0 <= i < rest.len() && rest[i] == x;
                assert(keys[i] == x);
                assert(keys.contains(x));
            }
            if m.remove(k).dom().contains(x) {
                assert(keys.to_set().contains(x));
                let i = choose|i: int| 0 <= i < keys.len() && keys[i] == x;
                assert(rest[i] == x);
            }
        }
        assert(rest.to_set() =~= m.remove(k).dom());
        lemma_key_sum(m.remove(k), rest);
        assert(!rest.contains(k)) by {
            if rest.contains(k) {
                let i = choose|i: int| 0 <= i < rest.len() && rest[i] == k;
                assert(keys[i] == keys[keys.len() - 1]);
            }
        }
        lemma_key_sum_elsewhere(m, rest, k);
    }
}

proof fn lemma_key_sum_prefix(m: Map<u64, usize>, keys: Seq<u64>, i: int)
    requires
        0 <= i <= keys.len(),
    ensures
        key_sum(m, keys.take(i)) <= key_sum(m, keys),
    decreases keys.len() - i,
{
    if i < keys.len() {
        lemma_key_sum_prefix(m, keys, i + 1);
        assert(keys.take(i + 1).drop_last() =~= keys.take(i));
    } else {
        assert(keys.take(i) =~= keys);
    }
}

impl DiscordMultiSessionReport {
    /// The turns of all channels together.
    pub fn total_turns(&self) -> (r: usize)
        requires
            value_sum(self.turns_by_channel@) <= usize::MAX,
        ensures
            r == value_sum(self.turns_by_channel@),
    {
        let ghost m = self.turns_by_channel@;
        let mut total: usize = 0;
        for k in it: self.turns_by_channel.keys()
            invariant
                m == self.turns_by_channel@,
                m.dom().finite(),
                value_sum(m) <= usize::MAX,
                it.seq().unref().to_set() == m.dom(),
                it.seq().unref().no_duplicates(),
                it.seq().len() == m.dom().len(),
                total == key_sum(m, it.seq().unref().take(it.index())),
                it.index() == it.seq().len() ==> total == value_sum(m),
        {
            proof {
                let all = it.seq().unref();
                lemma_key_sum(m, all);
                lemma_key_sum_prefix(m, all, it.index() + 1);
                assert(all.take(it.index() + 1).drop_last() =~= all.take(it.index()));
                assert(all.take(it.index() + 1).last() == *k);
                assert(all.contains(all[it.index()]));
                assert(m.dom().contains(*k));
                assert(it.index() + 1 == all.len() ==> all.take(it.index() + 1) =~= all);
            }
            match self.turns_by_channel.get(k) {
                Some(n) => {
                    total = total + *n;
                },
                None => {},
            }
        }
        total
    }
}

// ---------------------------------------------------------------------------
// The session of one channel
// ---------------------------------------------------------------------------

/// What a session is told.
#[derive(Debug, PartialEq, Eq)]
pub enum SessionEvent {
    /// A message has arrived.
    Mail(IncomingMessage),
    /// No more messages will arrive.
    Closed,
    /// The process is to end.
    Shutdown,
    /// The turn under way has ended; `shutdown` says whether the process is
    /// to end.
    TurnEnded { shutdown: bool },
}

/// What a session asks for.
#[derive(Debug, PartialEq, Eq)]
pub enum SessionAction {
    /// Wait for a message, or for the process to end.
    Wait,
    /// Run a turn on this message, with a fresh cancellation token.
    RunTurn(IncomingMessage),
    /// Go on waiting for the turn under way, or for a message.
    KeepRunning,
    /// Tell the turn under way to stop.
    CancelTurn,
    /// The session is over.
    Exit(DiscordSessionReport),
}

/// The state of a channel's session: the messages that wait for the turn
/// under way to end, and how many turns have ended.
pub ghost struct SessionView {
    pub target: u64,
    pub pending: Seq<IncomingMessage>,
    pub turns: nat,
    pub running: bool,
}

/// Whether a message is the command to stop a turn.
pub open spec fn is_cancel(m: IncomingMessage) -> bool {
    trimmed(m.text@) == "/cancel"@
}

/// Whether a message is to become a turn of the channel `target`.
pub open spec fn is_prompt(target: u64, m: IncomingMessage) -> bool {
    m.channel_id == target && !is_cancel(m)
}

/// What a session makes of an event.
pub open spec fn session_step(v: SessionView, e: SessionEvent) -> (SessionView, SessionAction) {
    if v.running {
        match e {
            SessionEvent::Mail(m) => if m.channel_id != v.target {
                (v, SessionAction::KeepRunning)
            } else if is_cancel(m) {
                (v, SessionAction::CancelTurn)
            } else {
                (SessionView { pending: v.pending.push(m), ..v }, SessionAction::KeepRunning)
            },
            SessionEvent::Closed => (v, SessionAction::CancelTurn),
            SessionEvent::Shutdown => (v, SessionAction::KeepRunning),
            SessionEvent::TurnEnded { shutdown } => if v.pending.len() > 0 {
                (
                    SessionView { pending: v.pending.drop_first(), turns: v.turns + 1, ..v },
                    SessionAction::RunTurn(v.pending[0]),
                )
            } else if shutdown {
                (
                    SessionView { turns: v.turns + 1, running: false, ..v },
                    SessionAction::Exit(DiscordSessionReport { turns_run: (v.turns + 1) as usize }),
                )
            } else {
                (
                    SessionView { turns: v.turns + 1, running: false, ..v },
                    SessionAction::Wait,
                )
            },
        }
    } else {
        match e {
            SessionEvent::Mail(m) => if is_prompt(v.target, m) {
                (SessionView { running: true, ..v }, SessionAction::RunTurn(m))
            } else {
                (v, SessionAction::Wait)
            },
            SessionEvent::Closed => (
                v,
                SessionAction::Exit(DiscordSessionReport { turns_run: v.turns as usize }),
            ),
            SessionEvent::Shutdown => (
                v,
                SessionAction::Exit(DiscordSessionReport { turns_run: v.turns as usize }),
            ),
            SessionEvent::TurnEnded { .. } => (v, SessionAction::Wait),
        }
    }
}

/// The session of one channel. Messages become turns in the order in which
/// they arrive; the command to stop never does.
pub struct MailboxSession {
    target: u64,
    pending: VecDeque<IncomingMessage>,
    turns_run: usize,
    running: bool,
}

impl View for MailboxSession {
    type V = SessionView;

    closed spec fn view(&self) -> SessionView {
        SessionView {
            target: self.target,
            pending: self.pending@,
            turns: self.turns_run as nat,
            running: self.running,
        }
    }
}

/// Nothing waits while no turn is under way, and only prompts of the channel
/// wait.
pub open spec fn session_is_sound(v: SessionView) -> bool {
    &&& !v.running ==> v.pending.len() == 0
    &&& forall|i: int| 0 <= i < v.pending.len() ==> is_prompt(v.target, #[trigger] v.pending[i])
}

fn is_cancel_command(m: &IncomingMessage) -> (r: bool)
    ensures
        r == is_cancel(*m),
{
    let text: String = trim(m.text.as_str());
    same_text(text.as_str(), "/cancel")
}

impl MailboxSession {
    /// A session of the channel `target` in which nothing has happened.
    pub fn new(target: u64) -> (r: MailboxSession)
        ensures
            r@ == (SessionView { target, pending: Seq::empty(), turns: 0, running: false }),
            session_is_sound(r@),
    {
        MailboxSession { target, pending: VecDeque::new(), turns_run: 0, running: false }
    }

    /// What the session does about an event.
    pub fn step(&mut self, event: SessionEvent) -> (r: SessionAction)
        requires
            session_is_sound(old(self)@),
            old(self)@.turns < usize::MAX,
        ensures
            (final(self)@, r) == session_step(old(self)@, event),
            session_is_sound(final(self)@),
    {
        if self.running {
            match event {
                SessionEvent::Mail(m) => {
                    if m.channel_id != self.target {
                        SessionAction::KeepRunning
                    } else if is_cancel_command(&m) {
                        SessionAction::CancelTurn
                    } else {
                        self.pending.push_back(m);
                        SessionAction::KeepRunning
                    }
                },
                SessionEvent::Closed => SessionAction::CancelTurn,
                SessionEvent::Shutdown => SessionAction::KeepRunning,
                SessionEvent::TurnEnded { shutdown } => {
                    self.turns_run = self.turns_run + 1;
                    match self.pending.pop_front() {
                        Some(m) => {
                            assert(self.pending@ =~= old(self)@.pending.drop_first());
                            SessionAction::RunTurn(m)
                        },
                        None => {
                            self.running = false;
                            if shutdown {
                                SessionAction::Exit(
                                    DiscordSessionReport { turns_run: self.turns_run },
                                )
                            } else {
                                SessionAction::Wait
                            }
                        },
                    }
                },
            }
        } else {
            match event {
                SessionEvent::Mail(m) => {
                    if is_cancel_command(&m) || m.channel_id != self.target {
                        SessionAction::Wait
                    } else {
                        self.running = true;
                        SessionAction::RunTurn(m)
                    }
                },
                SessionEvent::Closed => SessionAction::Exit(
                    DiscordSessionReport { turns_run: self.turns_run },
                ),
                SessionEvent::Shutdown => SessionAction::Exit(
                    DiscordSessionReport { turns_run: self.turns_run },
                ),
                SessionEvent::TurnEnded { .. } => SessionAction::Wait,
            }
        }
    }
}

/// The state of a session after a sequence of events.
pub open spec fn session_after(v: SessionView, events: Seq<SessionEvent>) -> SessionView
    decreases events.len(),
{
    if events.len() == 0 {
        v
    } else {
        session_step(session_after(v, events.drop_last()), events.last()).0
    }
}

/// The messages on which a session runs a turn in the course of a sequence of
/// events, in order.
pub open spec fn turns_started(v: SessionView, events: Seq<SessionEvent>) -> Seq<IncomingMessage>
    decreases events.len(),
{
    if events.len() == 0 {
        Seq::empty()
    } else {
        let before = turns_started(v, events.drop_last());
        match session_step(session_after(v, events.drop_last()), events.last()).1 {
            SessionAction::RunTurn(m) => before.push(m),
            _ => before,
        }
    }
}

/// The prompts of the channel `target` among the messages that arrive, in
/// order.
pub open spec fn prompts(target: u64, events: Seq<SessionEvent>) -> Seq<IncomingMessage>
    decreases events.len(),
{
    if events.len() == 0 {
        Seq::empty()
    } else {
        let before = prompts(target, events.drop_last());
        match events.last() {
            SessionEvent::Mail(m) => if is_prompt(target, m) {
                before.push(m)
            } else {
                before
            },
            _ => before,
        }
    }
}

/// No prompt is lost, repeated or overtaken: those that have become turns,
/// followed by those that wait, are exactly those that arrived.
pub proof fn law_prompts_run_in_order(v: SessionView, events: Seq<SessionEvent>)
    requires
        session_is_sound(v),
    ensures
        session_is_sound(session_after(v, events)),
        session_after(v, events).target == v.target,
        turns_started(v, events) + session_after(v, events).pending == v.pending + prompts(
            v.target,
            events,
        ),
    decreases events.len(),
{
    if events.len() > 0 {
        let rest = events.drop_last();
        law_prompts_run_in_order(v, rest);
        let before = session_after(v, rest);
        let (after, action) = session_step(before, events.last());
        assert(v.pending + prompts(v.target, events) =~= (v.pending + prompts(v.target, rest)) + (
        match events.last() {
            SessionEvent::Mail(m) => if is_prompt(v.target, m) {
                seq![m]
            } else {
                Seq::empty()
            },
            _ => Seq::empty(),
        }));
        assert(turns_started(v, events) + after.pending =~= v.pending + prompts(
            v.target,
            events,
        ));
    } else {
        assert(turns_started(v, events) + v.pending =~= v.pending + prompts(v.target, events));
    }
}

/// A session ends only when nothing waits any more, whatever it ends for, and
/// it reports every turn that has ended.
pub proof fn law_session_ends_drained(v: SessionView, e: SessionEvent)
    requires
        session_is_sound(v),
        v.turns < usize::MAX,
    ensures
        session_step(v, e).1 matches SessionAction::Exit(report) ==> {
            &&& session_step(v, e).0.pending.len() == 0
            &&& !session_step(v, e).0.running
            &&& report.turns_run == session_step(v, e).0.turns
        },
        session_step(v, e).1 matches SessionAction::RunTurn(m) ==> is_prompt(v.target, m),
{
}

/// The command to stop a turn stops the turn under way, and otherwise does
/// nothing; neither way is it answered.
pub proof fn law_cancel_is_no_prompt(v: SessionView, m: IncomingMessage)
    requires
        is_cancel(m),
        m.channel_id == v.target,
    ensures
        session_step(v, SessionEvent::Mail(m)).0 == v,
        session_step(v, SessionEvent::Mail(m)).1 == if v.running {
            SessionAction::CancelTurn
        } else {
            SessionAction::Wait
        },
{
}

// ---------------------------------------------------------------------------
// All channels
// ---------------------------------------------------------------------------

/// Which channels have a session.
pub struct Multiplexer {
    routes: Vec<u64>,
}

impl View for Multiplexer {
    type V = Seq<u64>;

    closed spec fn view(&self) -> Seq<u64> {
        self.routes@
    }
}

fn position(v: &Vec<u64>, x: u64) -> (r: Option<usize>)
    ensures
        match r {
            Some(i) => i < v@.len() && v@[i as int] == x,
            None => !v@.contains(x),
        },
{
    let mut i: usize = 0;
    while i < v.len()
        invariant
            i <= v@.len(),
            forall|j: int| 0 <= j < i ==> v@[j] != x,
        decreases v@.len() - i,
    {
        if v[i] == x {
            return Some(i);
        }
        i = i + 1;
    }
    None
}

impl Multiplexer {
    /// No channel has a session yet.
    pub fn new() -> (r: Multiplexer)
        ensures
            r@ == Seq::<u64>::empty(),
            r@.no_duplicates(),
    {
        Multiplexer { routes: Vec::new() }
    }

    /// Sees to it that `channel_id` has a session; says whether one is to be
    /// started.
    pub fn route(&mut self, channel_id: u64) -> (r: bool)
        requires
            old(self)@.no_duplicates(),
        ensures
            r == !old(self)@.contains(channel_id),
            final(self)@ == if r {
                old(self)@.push(channel_id)
            } else {
                old(self)@
            },
            final(self)@.no_duplicates(),
            final(self)@.contains(channel_id),
    {
        match position(&self.routes, channel_id) {
            Some(i) => {
                assert(self.routes@[i as int] == channel_id);
                false
            },
            None => {
                self.routes.push(channel_id);
                assert(self.routes@[self.routes@.len() - 1] == channel_id);
                true
            },
        }
    }

    /// Forgets the session of `channel_id`, which no longer takes messages.
    pub fn drop_route(&mut self, channel_id: u64)
        requires
            old(self)@.no_duplicates(),
        ensures
            final(self)@.no_duplicates(),
            !final(self)@.contains(channel_id),
            forall|c: u64| c != channel_id ==> (final(self)@.contains(c) <==> old(self)@.contains(c)),
    {
        match position(&self.routes, channel_id) {
            Some(i) => {
                let ghost before = self.routes@;
                self.routes.remove(i);
                proof {
                    assert(self.routes@ =~= before.remove(i as int));
                    assert forall|c: u64| c != channel_id implies (self.routes@.contains(c)
                        <==> before.contains(c)) by {
                        if before.contains(c) {
                            let j = choose|j: int| 0 <= j < before.len() && before[j] == c;
                            assert(self.routes@[if j < i { j } else { j - 1 }] == c);
                        }
                        if self.routes@.contains(c) {
                            let j = choose|j: int|
                                0 <= j < self.routes@.len() && self.routes@[j] == c;
                            assert(before[if j < i { j } else { j + 1 }] == c);
                        }
                    }
                    if self.routes@.contains(channel_id) {
                        let j = choose|j: int|
                            0 <= j < self.routes@.len() && self.routes@[j] == channel_id;
                        let k = if j < i { j } else { j + 1 };
                        assert(before[k] == channel_id);
                        assert(before[i as int] == channel_id);
                    }
                }
            },
            None => {},
        }
    }

    /// The channels that have a session.
    pub fn routes(&self) -> (r: &Vec<u64>)
        ensures
            r@ == self@,
    {
        &self.routes
    }
}

/// The turns of each channel whose session ended well.
pub open spec fn collected(results: Seq<(u64, Result<DiscordSessionReport, String>)>) -> Map<
    u64,
    usize,
>
    decreases results.len(),
{
    if results.len() == 0 {
        Map::empty()
    } else {
        let before = collected(results.drop_last());
        match results.last().1 {
            Ok(report) => before.insert(results.last().0, report.turns_run),
            Err(_) => before,
        }
    }
}

/// Puts the reports of the channels' sessions together. A session that failed
/// has none.
pub fn collect_reports(results: &Vec<(u64, Result<DiscordSessionReport, String>)>) -> (r:
    DiscordMultiSessionReport)
    ensures
        r.turns_by_channel@ == collected(results@),
{
    let mut turns: HashMap<u64, usize> = HashMap::new();
    let mut i: usize = 0;
    while i < results.len()
        invariant
            i <= results@.len(),
            turns@ == collected(results@.take(i as int)),
        decreases results@.len() - i,
    {
        assert(results@.take(i + 1).drop_last() =~= results@.take(i as int));
        match &results[i].1 {
            Ok(report) => {
                turns.insert(results[i].0, report.turns_run);
            },
            Err(_) => {},
        }
        i = i + 1;
    }
    assert(results@.take(i as int) =~= results@);
    DiscordMultiSessionReport { turns_by_channel: turns }
}

/// Turns are counted as they end, and nothing else is; mail for another channel
/// changes nothing at all.
pub proof fn law_turns_are_counted_as_they_end(v: SessionView, e: SessionEvent)
    ensures
        session_step(v, e).0.turns == v.turns + if v.running && e is TurnEnded {
            1int
        } else {
            0int
        },
        session_step(v, e).0.target == v.target,
        e matches SessionEvent::Mail(m) ==> m.channel_id != v.target ==> session_step(v, e).0 == v
            && (session_step(v, e).1 is KeepRunning || session_step(v, e).1 is Wait),
{
}

/// A session that runs a turn takes up what is said meanwhile and turns to it
/// when the turn ends, the oldest first. One that runs none starts a turn with
/// what is said, and ends when its channel is closed or the whole is shut down.
pub proof fn law_what_a_session_does_next(v: SessionView, m: IncomingMessage, shutdown: bool)
    requires
        session_is_sound(v),
    ensures
        is_prompt(v.target, m) && !v.running ==> session_step(v, SessionEvent::Mail(m)).1
            == SessionAction::RunTurn(m) && session_step(v, SessionEvent::Mail(m)).0.running,
        is_prompt(v.target, m) && v.running ==> session_step(v, SessionEvent::Mail(m)).0.pending
            == v.pending.push(m) && session_step(v, SessionEvent::Mail(m)).1 is KeepRunning,
        v.running && v.pending.len() > 0 ==> session_step(v, SessionEvent::TurnEnded { shutdown }).1
            == SessionAction::RunTurn(v.pending[0]) && session_step(
            v,
            SessionEvent::TurnEnded { shutdown },
        ).0.pending == v.pending.skip(1),
        v.running && v.pending.len() == 0 ==> (session_step(
            v,
            SessionEvent::TurnEnded { shutdown },
        ).1 is Exit <==> shutdown),
        v.running && v.pending.len() == 0 ==> !session_step(
            v,
            SessionEvent::TurnEnded { shutdown },
        ).0.running,
        v.running && v.pending.len() == 0 && !shutdown ==> session_step(
            v,
            SessionEvent::TurnEnded { shutdown },
        ).1 is Wait,
        !v.running ==> session_step(v, SessionEvent::Closed).1 is Exit && session_step(
            v,
            SessionEvent::Shutdown,
        ).1 is Exit,
        v.running ==> session_step(v, SessionEvent::Closed).1 is CancelTurn && session_step(
            v,
            SessionEvent::Shutdown,
        ).1 is KeepRunning,
{
    if v.running && v.pending.len() > 0 {
        assert(v.pending.drop_first() =~= v.pending.skip(1));
    }
}

/// A message is a prompt where it is for the session's channel and says more
/// than the command to stop.
pub proof fn law_what_a_prompt_is(target: u64, m: IncomingMessage)
    ensures
        is_prompt(target, m) <==> m.channel_id == target && trimmed(m.text@) != "/cancel"@,
{
}

/// The total is the sum over the channels: each counts once, with its turns.
pub proof fn law_each_channel_counts_once(m: Map<u64, usize>, channel: u64, turns: usize)
    requires
        m.dom().finite(),
        !m.dom().contains(channel),
    ensures
        value_sum(Map::empty()) == 0,
        value_sum(m.insert(channel, turns)) == value_sum(m) + turns,
{
    let more = m.insert(channel, turns);
    lemma_value_sum_remove(more, channel);
    assert(more.remove(channel) =~= m);
}

/// What is collected are the reports of the sessions that ended well: each
/// channel with the turns of its last one. A session that failed adds nothing.
pub proof fn law_reports_are_collected(
    results: Seq<(u64, Result<DiscordSessionReport, String>)>,
    i: int,
)
    requires
        0 <= i < results.len(),
        forall|j: int|
            i < j < results.len() ==> (#[trigger] results[j]).0 != results[i].0
                || results[j].1 is Err,
    ensures
        results[i].1 matches Ok(report) ==> collected(results).dom().contains(results[i].0)
            && collected(results)[results[i].0] == report.turns_run,
        forall|c: u64|
            collected(results).dom().contains(c) ==> exists|j: int|
                0 <= j < results.len() && (#[trigger] results[j]).0 == c && results[j].1 is Ok,
    decreases results.len(),
{
    lemma_collected_are_reported(results);
    if i < results.len() - 1 {
        let rest = results.drop_last();
        assert forall|j: int| i < j < rest.len() implies (#[trigger] rest[j]).0 != rest[i].0
            || rest[j].1 is Err by {
            assert(results[j].0 != results[i].0 || results[j].1 is Err);
        }
        law_reports_are_collected(rest, i);
        let last = results[results.len() - 1];
        assert(last.0 != results[i].0 || last.1 is Err);
    }
}

proof fn lemma_collected_are_reported(results: Seq<(u64, Result<DiscordSessionReport, String>)>)
    ensures
        forall|c: u64|
            collected(results).dom().contains(c) ==> exists|j: int|
                0 <= j < results.len() && (#[trigger] results[j]).0 == c && results[j].1 is Ok,
    decreases results.len(),
{
    if results.len() > 0 {
        let rest = results.drop_last();
        lemma_collected_are_reported(rest);
        assert forall|c: u64| collected(results).dom().contains(c) implies exists|j: int|
            0 <= j < results.len() && (#[trigger] results[j]).0 == c && results[j].1 is Ok by {
            if collected(rest).dom().contains(c) {
                let j = choose|j: int|
                    0 <= j < rest.len() && (#[trigger] rest[j]).0 == c && rest[j].1 is Ok;
                assert(results[j] == rest[j]);
            } else {
                assert(results[results.len() - 1].0 == c);
            }
        }
    }
}

/// The planner of each turn has the session's model, prompt and limit, and may
/// use no other tools than the session's role; everything else is as usual.
pub proof fn law_a_planner_is_held_to_the_role(c: DiscordSessionConfig)
    ensures
        ({
            let s = planner_settings(c);
            &&& s.model == c.model@
            &&& s.system_prompt == Some(c.system_prompt@)
            &&& s.max_tokens == c.max_tokens
            &&& match c.tool_allowlist {
                Some(names) => s.tool_allowlist matches Some(allowed) && allowed.len()
                    == names@.len() && forall|i: int|
                    0 <= i < names@.len() ==> #[trigger] allowed[i] == names@[i]@,
                None => s.tool_allowlist is None,
            }
            &&& s.tool_name_auto_correct_threshold == 0x3F4C_CCCD
            &&& s.temperature is None
            &&& s.context_window_tokens is None
            &&& !s.prune_sink && !s.context_provider && !s.system_prompt_refiner
                && !s.conversation_seeder
        }),
{
}

} // verus!
