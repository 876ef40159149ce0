//! Keeping the stable part of the requests loaded in a slot of the model
//! server: when a slot is restored, when it is warmed up, and what is
//! remembered of it.

use vstd::prelude::*;
use crate::planner::text_of;
use crate::text::same_text;

verus! {

/// Which server and model the slots belong to.
#[derive(Debug, PartialEq, Eq)]
pub struct KvCacheConfig {
    pub backend_id: String,
    pub model_id: String,
    pub build_hash: String,
}

/// What a saved prefix is found by.
#[derive(Debug, PartialEq, Eq)]
pub struct CacheKey {
    pub backend_id: String,
    pub model_id: String,
    pub build_hash: String,
    pub prefix_hash: String,
}

/// What a [`KvCacheConfig`] stands for.
pub ghost struct KvConfigView {
    pub backend_id: Seq<char>,
    pub model_id: Seq<char>,
    pub build_hash: Seq<char>,
}

impl View for KvCacheConfig {
    type V = KvConfigView;

    open spec fn view(&self) -> KvConfigView {
        KvConfigView {
            backend_id: self.backend_id@,
            model_id: self.model_id@,
            build_hash: self.build_hash@,
        }
    }
}

/// What a [`CacheKey`] stands for.
pub ghost struct KeyView {
    pub backend_id: Seq<char>,
    pub model_id: Seq<char>,
    pub build_hash: Seq<char>,
    pub prefix_hash: Seq<char>,
}

impl View for CacheKey {
    type V = KeyView;

    open spec fn view(&self) -> KeyView {
        KeyView {
            backend_id: self.backend_id@,
            model_id: self.model_id@,
            build_hash: self.build_hash@,
            prefix_hash: self.prefix_hash@,
        }
    }
}

/// The key of a prefix on a server.
pub open spec fn key_of(config: KvConfigView, prefix_hash: Seq<char>) -> KeyView {
    KeyView {
        backend_id: config.backend_id,
        model_id: config.model_id,
        build_hash: config.build_hash,
        prefix_hash,
    }
}

impl CacheKey {
    /// The key of a prefix on a server.
    pub fn new(config: &KvCacheConfig, prefix_hash: String) -> (r: CacheKey)
        ensures
            r@ == key_of(config@, prefix_hash@),
    {
        CacheKey {
            backend_id: config.backend_id.clone(),
            model_id: config.model_id.clone(),
            build_hash: config.build_hash.clone(),
            prefix_hash,
        }
    }
}

// ---------------------------------------------------------------------------
// Warnings
// ---------------------------------------------------------------------------

/// How long restoring, warming up and saving may each take.
pub const KVCACHE_WARM_UP_TIMEOUT_SECS: u64 = 30;

/// What can go wrong with a slot. None of it stops the turn.
#[derive(Debug, PartialEq, Eq)]
pub enum KvWarning {
    PoolFull,
    RestoreFailed(String),
    RestoreTimedOut,
    WarmUpRequestFailed(String),
    WarmUpTimedOut,
    WarmUpStreamErrored,
    SaveFailed(String),
    SaveTimedOut,
}

/// The line that a warning is printed as.
pub open spec fn warning_text(w: KvWarning) -> Seq<char> {
    match w {
        KvWarning::PoolFull =>
            "aivyx-pa: kvcache: no free slot in the pool; this turn runs unpinned"@,
        KvWarning::RestoreFailed(e) => "aivyx-pa: kvcache: restore_into_slot failed: "@ + e@,
        KvWarning::RestoreTimedOut =>
            "aivyx-pa: kvcache: restore_into_slot timed out; treating as a miss"@,
        KvWarning::WarmUpRequestFailed(e) => "aivyx-pa: kvcache: warm-up request failed: "@ + e@,
        KvWarning::WarmUpTimedOut =>
            "aivyx-pa: kvcache: warm-up timed out after 30s; skipping save so a partial/corrupt slot is never recorded as a valid cache entry"@,
        KvWarning::WarmUpStreamErrored =>
            "aivyx-pa: kvcache: warm-up stream errored mid-response; skipping save so a partial/corrupt slot is never recorded as a valid cache entry"@,
        KvWarning::SaveFailed(e) => "aivyx-pa: kvcache: save_from_slot failed: "@ + e@,
        KvWarning::SaveTimedOut => "aivyx-pa: kvcache: save_from_slot timed out"@,
    }
}

/// Which class a warning belongs to, whatever it carries.
pub open spec fn warning_class(w: KvWarning) -> int {
    match w {
        KvWarning::PoolFull => 0,
        KvWarning::RestoreFailed(_) => 1,
        KvWarning::RestoreTimedOut => 2,
        KvWarning::WarmUpRequestFailed(_) => 3,
        KvWarning::WarmUpTimedOut => 4,
        KvWarning::WarmUpStreamErrored => 5,
        KvWarning::SaveFailed(_) => 6,
        KvWarning::SaveTimedOut => 7,
    }
}

impl KvWarning {
    /// The line that the warning is printed as.
    pub fn text(&self) -> (r: String)
        ensures
            r@ == warning_text(*self),
    {
        match self {
            KvWarning::PoolFull =>
                "aivyx-pa: kvcache: no free slot in the pool; this turn runs unpinned".to_owned(),
            KvWarning::RestoreFailed(e) => {
                let mut s: String = "aivyx-pa: kvcache: restore_into_slot failed: ".to_owned();
                s.push_str(e.as_str());
                s
            },
            KvWarning::RestoreTimedOut =>
                "aivyx-pa: kvcache: restore_into_slot timed out; treating as a miss".to_owned(),
            KvWarning::WarmUpRequestFailed(e) => {
                let mut s: String = "aivyx-pa: kvcache: warm-up request failed: ".to_owned();
                s.push_str(e.as_str());
                s
            },
            KvWarning::WarmUpTimedOut =>
                "aivyx-pa: kvcache: warm-up timed out after 30s; skipping save so a partial/corrupt slot is never recorded as a valid cache entry".to_owned(),
            KvWarning::WarmUpStreamErrored =>
                "aivyx-pa: kvcache: warm-up stream errored mid-response; skipping save so a partial/corrupt slot is never recorded as a valid cache entry".to_owned(),
            KvWarning::SaveFailed(e) => {
                let mut s: String = "aivyx-pa: kvcache: save_from_slot failed: ".to_owned();
                s.push_str(e.as_str());
                s
            },
            KvWarning::SaveTimedOut => "aivyx-pa: kvcache: save_from_slot timed out".to_owned(),
        }
    }

    fn class(&self) -> (r: usize)
        ensures
            r == warning_class(*self),
    {
        match self {
            KvWarning::PoolFull => 0,
            KvWarning::RestoreFailed(_) => 1,
            KvWarning::RestoreTimedOut => 2,
            KvWarning::WarmUpRequestFailed(_) => 3,
            KvWarning::WarmUpTimedOut => 4,
            KvWarning::WarmUpStreamErrored => 5,
            KvWarning::SaveFailed(_) => 6,
            KvWarning::SaveTimedOut => 7,
        }
    }
}

/// Remembers which classes of warnings were printed.
pub struct WarningLatch {
    printed: Vec<bool>,
}

impl View for WarningLatch {
    type V = Set<int>;

    closed spec fn view(&self) -> Set<int> {
        Set::new(|c: int| 0 <= c < self.printed@.len() && self.printed@[c])
    }
}

impl WarningLatch {
    pub closed spec fn is_sound(self) -> bool {
        self.printed@.len() == 8
    }

    /// Nothing was printed yet.
    pub fn new() -> (r: WarningLatch)
        ensures
            r.is_sound(),
            r@ == Set::<int>::empty(),
    {
        let mut printed: Vec<bool> = Vec::new();
        let mut i: usize = 0;
        while i < 8
            invariant
                i <= 8,
                printed@.len() == i,
                forall|j: int| 0 <= j < i ==> !#[trigger] printed@[j],
            decreases 8 - i,
        {
            printed.push(false);
            i = i + 1;
        }
        let r: WarningLatch = WarningLatch { printed };
        assert(r@ =~= Set::<int>::empty());
        r
    }

    /// Whether a warning is to be printed: the first of its class is.
    pub fn first_of_its_class(&mut self, w: &KvWarning) -> (r: bool)
        requires
            old(self).is_sound(),
        ensures
            final(self).is_sound(),
            r == !old(self)@.contains(warning_class(*w)),
            final(self)@ == old(self)@.insert(warning_class(*w)),
    {
        let c: usize = w.class();
        let first: bool = !self.printed[c];
        self.printed.set(c, true);
        assert(self@ =~= old(self)@.insert(c as int));
        first
    }
}

// ---------------------------------------------------------------------------
// What is done about a slot
// ---------------------------------------------------------------------------

/// How an attempt to restore a saved prefix ended.
#[derive(Debug, PartialEq, Eq)]
pub enum RestoreReply {
    Hit,
    Miss,
    Failed(String),
    TimedOut,
}

/// How an attempt to warm a slot up ended.
#[derive(Debug, PartialEq, Eq)]
pub enum WarmUpReply {
    Drained,
    StreamErrored,
    RequestFailed(String),
    TimedOut,
}

/// How an attempt to save a prefix ended.
#[derive(Debug, PartialEq, Eq)]
pub enum SaveReply {
    Saved,
    Failed(String),
    TimedOut,
}

/// What is to be done next about the slot.
#[derive(Debug, PartialEq, Eq)]
pub enum KvNext {
    /// Nothing more: the turn goes on.
    Finished,
    /// Restore the prefix saved under the key into the slot.
    Restore { slot: u32, key: CacheKey },
    /// Load the prefix by sending it once.
    WarmUp { slot: u32, key: CacheKey },
    /// Save what the slot holds under the key.
    Save { slot: u32, key: CacheKey },
}

/// What follows from how the last step about the slot ended: a warning, the
/// prefix that the slot is now known to hold, and the next step.
#[derive(Debug, PartialEq, Eq)]
pub struct KvStep {
    pub warning: Option<KvWarning>,
    pub loaded: bool,
    pub next: KvNext,
}

/// What a [`KvNext`] stands for.
pub ghost enum KvNextView {
    Finished,
    Restore { slot: u32, key: KeyView },
    WarmUp { slot: u32, key: KeyView },
    Save { slot: u32, key: KeyView },
}

impl View for KvNext {
    type V = KvNextView;

    open spec fn view(&self) -> KvNextView {
        match *self {
            KvNext::Finished => KvNextView::Finished,
            KvNext::Restore { slot, key } => KvNextView::Restore { slot, key: key@ },
            KvNext::WarmUp { slot, key } => KvNextView::WarmUp { slot, key: key@ },
            KvNext::Save { slot, key } => KvNextView::Save { slot, key: key@ },
        }
    }
}

/// What a [`KvStep`] stands for.
pub ghost struct KvStepView {
    pub warning: Option<KvWarning>,
    pub loaded: bool,
    pub next: KvNextView,
}

impl View for KvStep {
    type V = KvStepView;

    open spec fn view(&self) -> KvStepView {
        KvStepView { warning: self.warning, loaded: self.loaded, next: self.next@ }
    }
}

/// The step that ends the dealings with the slot.
pub open spec fn over(warning: Option<KvWarning>) -> KvStepView {
    KvStepView { warning, loaded: false, next: KvNextView::Finished }
}

/// The step that ends the dealings with the slot.
pub fn finished(warning: Option<KvWarning>) -> (r: KvStep)
    ensures
        r@ == over(warning),
{
    KvStep { warning, loaded: false, next: KvNext::Finished }
}

/// What follows once the pool has given out `slot`, of which `loaded` is the
/// prefix it is known to hold. A slot that still holds the prefix is left
/// alone: restoring it would throw away what the conversation has added.
pub open spec fn checked_out(slot: u32, loaded: Option<Seq<char>>, key: KeyView) -> KvStepView {
    if loaded == Some(key.prefix_hash) {
        over(None)
    } else {
        KvStepView { warning: None, loaded: false, next: KvNextView::Restore { slot, key } }
    }
}

/// What follows an attempt to restore: a slot into which the prefix could not
/// be restored is warmed up.
pub open spec fn restored(slot: u32, key: KeyView, reply: RestoreReply) -> KvStepView {
    let warm_up = KvNextView::WarmUp { slot, key };
    match reply {
        RestoreReply::Hit => KvStepView {
            warning: None,
            loaded: true,
            next: KvNextView::Finished,
        },
        RestoreReply::Miss => KvStepView { warning: None, loaded: false, next: warm_up },
        RestoreReply::Failed(e) => KvStepView {
            warning: Some(KvWarning::RestoreFailed(e)),
            loaded: false,
            next: warm_up,
        },
        RestoreReply::TimedOut => KvStepView {
            warning: Some(KvWarning::RestoreTimedOut),
            loaded: false,
            next: warm_up,
        },
    }
}

/// What follows an attempt to warm up: what was loaded is known to be loaded,
/// whether or not it can be saved, and only that is saved.
pub open spec fn warmed_up(slot: u32, key: KeyView, reply: WarmUpReply) -> KvStepView {
    match reply {
        WarmUpReply::Drained => KvStepView {
            warning: None,
            loaded: true,
            next: KvNextView::Save { slot, key },
        },
        WarmUpReply::StreamErrored => over(Some(KvWarning::WarmUpStreamErrored)),
        WarmUpReply::RequestFailed(e) => over(Some(KvWarning::WarmUpRequestFailed(e))),
        WarmUpReply::TimedOut => over(Some(KvWarning::WarmUpTimedOut)),
    }
}

/// What follows an attempt to save: nothing more.
pub open spec fn saved(reply: SaveReply) -> KvStepView {
    match reply {
        SaveReply::Saved => over(None),
        SaveReply::Failed(e) => over(Some(KvWarning::SaveFailed(e))),
        SaveReply::TimedOut => over(Some(KvWarning::SaveTimedOut)),
    }
}

/// What follows once the pool has given out `slot`, of which `loaded` is the
/// prefix it is known to hold.
pub fn after_check_out(slot: u32, loaded: &Option<String>, key: CacheKey) -> (r: KvStep)
    ensures
        r@ == checked_out(slot, text_of(*loaded), key@),
{
    let live: bool = match loaded {
        Some(hash) => same_text(hash.as_str(), key.prefix_hash.as_str()),
        None => false,
    };
    if live {
        finished(None)
    } else {
        KvStep { warning: None, loaded: false, next: KvNext::Restore { slot, key } }
    }
}

/// What follows an attempt to restore.
pub fn after_restore(slot: u32, key: CacheKey, reply: RestoreReply) -> (r: KvStep)
    ensures
        r@ == restored(slot, key@, reply),
{
    let warning: Option<KvWarning> = match reply {
        RestoreReply::Hit => {
            return KvStep { warning: None, loaded: true, next: KvNext::Finished };
        },
        RestoreReply::Miss => None,
        RestoreReply::Failed(e) => Some(KvWarning::RestoreFailed(e)),
        RestoreReply::TimedOut => Some(KvWarning::RestoreTimedOut),
    };
    KvStep { warning, loaded: false, next: KvNext::WarmUp { slot, key } }
}

/// What follows an attempt to warm up.
pub fn after_warm_up(slot: u32, key: CacheKey, reply: WarmUpReply) -> (r: KvStep)
    ensures
        r@ == warmed_up(slot, key@, reply),
{
    match reply {
        WarmUpReply::Drained => KvStep {
            warning: None,
            loaded: true,
            next: KvNext::Save { slot, key },
        },
        WarmUpReply::StreamErrored => finished(Some(KvWarning::WarmUpStreamErrored)),
        WarmUpReply::RequestFailed(e) => finished(Some(KvWarning::WarmUpRequestFailed(e))),
        WarmUpReply::TimedOut => finished(Some(KvWarning::WarmUpTimedOut)),
    }
}

/// What follows an attempt to save.
pub fn after_save(reply: SaveReply) -> (r: KvStep)
    ensures
        r@ == saved(reply),
{
    match reply {
        SaveReply::Saved => finished(None),
        SaveReply::Failed(e) => finished(Some(KvWarning::SaveFailed(e))),
        SaveReply::TimedOut => finished(Some(KvWarning::SaveTimedOut)),
    }
}

// ---------------------------------------------------------------------------
// The dealings with a slot as a whole
// ---------------------------------------------------------------------------

/// How the world answers, should it be asked.
pub ghost struct KvReplies {
    pub restore: RestoreReply,
    pub warm_up: WarmUpReply,
    pub save: SaveReply,
}

/// What comes next once `next` was done.
pub open spec fn answered(next: KvNextView, replies: KvReplies) -> KvStepView {
    match next {
        KvNextView::Restore { slot, key } => restored(slot, key, replies.restore),
        KvNextView::WarmUp { slot, key } => warmed_up(slot, key, replies.warm_up),
        KvNextView::Save { slot, key } => saved(replies.save),
        _ => over(None),
    }
}

/// The first steps taken with a slot, each done as the one before it asks.
pub open spec fn dealings(first: KvStepView, replies: KvReplies, count: nat) -> Seq<KvStepView>
    decreases count,
{
    if count == 0 {
        seq![first]
    } else {
        let before = dealings(first, replies, (count - 1) as nat);
        before.push(answered(before.last().next, replies))
    }
}

/// The whole of the dealings with a slot that the pool has given out.
pub open spec fn all_dealings(
    slot: u32,
    loaded: Option<Seq<char>>,
    key: KeyView,
    replies: KvReplies,
) -> Seq<KvStepView> {
    dealings(checked_out(slot, loaded, key), replies, 3)
}

proof fn lemma_dealings(
    slot: u32,
    loaded: Option<Seq<char>>,
    key: KeyView,
    replies: KvReplies,
)
    ensures
        ({
            let first = checked_out(slot, loaded, key);
            let second = answered(first.next, replies);
            let third = answered(second.next, replies);
            let fourth = answered(third.next, replies);
            all_dealings(slot, loaded, key, replies) == seq![first, second, third, fourth]
        }),
{
    let first = checked_out(slot, loaded, key);
    assert(dealings(first, replies, 0) =~= seq![first]);
    let second = answered(first.next, replies);
    assert(dealings(first, replies, 1) =~= seq![first, second]);
    let third = answered(second.next, replies);
    assert(dealings(first, replies, 2) =~= seq![first, second, third]);
    let fourth = answered(third.next, replies);
    assert(dealings(first, replies, 3) =~= seq![first, second, third, fourth]);
}

/// Whatever goes wrong, the dealings with a slot come to an end, after three
/// answers at most.
pub proof fn law_dealings_end(
    slot: u32,
    loaded: Option<Seq<char>>,
    key: KeyView,
    replies: KvReplies,
)
    ensures
        all_dealings(slot, loaded, key, replies).last().next is Finished,
{
    lemma_dealings(slot, loaded, key, replies);
}

/// A slot that still holds the prefix is neither restored nor warmed up.
pub proof fn law_live_slots_are_left_alone(slot: u32, key: KeyView, replies: KvReplies)
    ensures
        forall|i: int|
            0 <= i < 4 ==> #[trigger] all_dealings(
                slot,
                Some(key.prefix_hash),
                key,
                replies,
            )[i] == over(None),
{
    lemma_dealings(slot, Some(key.prefix_hash), key, replies);
}

/// The prefix is recorded as loaded exactly when it was restored, or warmed
/// up without an error; whether it could be saved does not matter.
pub proof fn law_what_is_loaded_is_recorded(
    slot: u32,
    loaded: Option<Seq<char>>,
    key: KeyView,
    replies: KvReplies,
)
    requires
        loaded != Some(key.prefix_hash),
    ensures
        (exists|i: int|
            0 <= i < 4 && (#[trigger] all_dealings(slot, loaded, key, replies)[i]).loaded)
            <==> (replies.restore is Hit || replies.warm_up is Drained),
{
    lemma_dealings(slot, loaded, key, replies);
    let all = all_dealings(slot, loaded, key, replies);
    assert(all[1] == restored(slot, key, replies.restore));
    if !(replies.restore is Hit) {
        assert(all[2] == warmed_up(slot, key, replies.warm_up));
    }
}

/// What is saved was warmed up without an error just before, in the same slot
/// and under the same key: a slot in an unknown state is never saved.
pub proof fn law_only_warmed_slots_are_saved(
    slot: u32,
    loaded: Option<Seq<char>>,
    key: KeyView,
    replies: KvReplies,
    i: int,
)
    requires
        0 <= i < 4,
        all_dealings(slot, loaded, key, replies)[i].next is Save,
    ensures
        i == 2,
        all_dealings(slot, loaded, key, replies)[i].next == (KvNextView::Save { slot, key }),
        all_dealings(slot, loaded, key, replies)[1].next == (KvNextView::WarmUp { slot, key }),
        replies.warm_up is Drained,
{
    lemma_dealings(slot, loaded, key, replies);
    let all = all_dealings(slot, loaded, key, replies);
    assert(all[0] == checked_out(slot, loaded, key));
}

/// A slot that does not hold the prefix is first asked to restore it; where that
/// is no hit, the prefix is warmed up; and what was warmed up is saved. All of
/// it is about the slot that was given out and under one key.
pub proof fn law_a_slot_is_restored_or_warmed_up(
    slot: u32,
    loaded: Option<Seq<char>>,
    key: KeyView,
    replies: KvReplies,
)
    requires
        loaded != Some(key.prefix_hash),
    ensures
        ({
            let d = all_dealings(slot, loaded, key, replies);
            &&& d[0].next == (KvNextView::Restore { slot, key })
            &&& d[1].next == if replies.restore is Hit {
                KvNextView::Finished
            } else {
                KvNextView::WarmUp { slot, key }
            }
            &&& d[2].next == if !(replies.restore is Hit) && replies.warm_up is Drained {
                KvNextView::Save { slot, key }
            } else {
                KvNextView::Finished
            }
        }),
{
    reveal_with_fuel(dealings, 4);
}

/// Whatever goes wrong with a slot is warned of, once for each request that was
/// made, with the reason that was given; and nothing else is.
pub proof fn law_every_fault_is_warned_of(
    slot: u32,
    loaded: Option<Seq<char>>,
    key: KeyView,
    replies: KvReplies,
)
    requires
        loaded != Some(key.prefix_hash),
    ensures
        ({
            let d = all_dealings(slot, loaded, key, replies);
            &&& d[0].warning is None
            &&& d[1].warning == match replies.restore {
                RestoreReply::Hit => None,
                RestoreReply::Miss => None,
                RestoreReply::Failed(e) => Some(KvWarning::RestoreFailed(e)),
                RestoreReply::TimedOut => Some(KvWarning::RestoreTimedOut),
            }
            &&& !(replies.restore is Hit) ==> d[2].warning == match replies.warm_up {
                WarmUpReply::Drained => None,
                WarmUpReply::StreamErrored => Some(KvWarning::WarmUpStreamErrored),
                WarmUpReply::RequestFailed(e) => Some(KvWarning::WarmUpRequestFailed(e)),
                WarmUpReply::TimedOut => Some(KvWarning::WarmUpTimedOut),
            }
            &&& replies.restore is Hit ==> d[2].warning is None && d[3].warning is None
            &&& !(replies.restore is Hit) && replies.warm_up is Drained ==> d[3].warning
                == match replies.save {
                SaveReply::Saved => None,
                SaveReply::Failed(e) => Some(KvWarning::SaveFailed(e)),
                SaveReply::TimedOut => Some(KvWarning::SaveTimedOut),
            }
        }),
{
    reveal_with_fuel(dealings, 4);
}

/// A warning about a failure ends with the reason.
pub proof fn law_a_warning_says_why(w: KvWarning)
    ensures
        w matches KvWarning::RestoreFailed(e) ==> e@.is_suffix_of(warning_text(w)),
        w matches KvWarning::WarmUpRequestFailed(e) ==> e@.is_suffix_of(warning_text(w)),
        w matches KvWarning::SaveFailed(e) ==> e@.is_suffix_of(warning_text(w)),
{
    let text = warning_text(w);
    match w {
        KvWarning::RestoreFailed(e) => {
            assert(e@ =~= text.skip(text.len() - e@.len()));
        },
        KvWarning::WarmUpRequestFailed(e) => {
            assert(e@ =~= text.skip(text.len() - e@.len()));
        },
        KvWarning::SaveFailed(e) => {
            assert(e@ =~= text.skip(text.len() - e@.len()));
        },
        _ => {},
    }
}

/// Two warnings are of one class exactly where they are about the same kind of
/// fault, whatever the reason.
pub proof fn law_a_class_is_a_kind_of_fault(a: KvWarning, b: KvWarning)
    ensures
        warning_class(a) == warning_class(b) <==> match a {
            KvWarning::PoolFull => b is PoolFull,
            KvWarning::RestoreFailed(_) => b is RestoreFailed,
            KvWarning::RestoreTimedOut => b is RestoreTimedOut,
            KvWarning::WarmUpRequestFailed(_) => b is WarmUpRequestFailed,
            KvWarning::WarmUpTimedOut => b is WarmUpTimedOut,
            KvWarning::WarmUpStreamErrored => b is WarmUpStreamErrored,
            KvWarning::SaveFailed(_) => b is SaveFailed,
            KvWarning::SaveTimedOut => b is SaveTimedOut,
        },
{
}

/// A key is known by what it stands for: the server, what it runs, and the
/// prefix.
pub proof fn law_keys_are_told_apart(a: CacheKey, b: CacheKey)
    requires
        a@ == b@,
    ensures
        a.backend_id@ == b.backend_id@,
        a.model_id@ == b.model_id@,
        a.build_hash@ == b.build_hash@,
        a.prefix_hash@ == b.prefix_hash@,
{
}

} // verus!
