//! The record of chat events that were stored: which are new, which are waiting to be durable, and
//! which may be asked for again.
use std::collections::VecDeque;
use vstd::arithmetic::power2::*;
use vstd::prelude::*;
use crate::events::{LiveEvent, LiveEventView};
use crate::json::JsonView;
use crate::text;

verus! {

/// The number of event keys that are remembered.
pub const DOUYIN_DEDUP_CAPACITY: usize = 8192;

/// The keys of the events that were stored last.
pub struct EventDeduplicator {
    pub order: VecDeque<String>,
}

/// The remembered keys after one more is offered: a key that is remembered changes nothing, a new
/// one is added and may push out the oldest.
pub open spec fn remembered(keys: Seq<Seq<char>>, key: Seq<char>) -> Seq<Seq<char>> {
    if keys.contains(key) {
        keys
    } else if keys.len() >= DOUYIN_DEDUP_CAPACITY {
        keys.push(key).drop_first()
    } else {
        keys.push(key)
    }
}

/// The remembered keys after several are offered in turn.
pub open spec fn remembered_all(keys: Seq<Seq<char>>, offered: Seq<Seq<char>>) -> Seq<Seq<char>>
    decreases offered.len(),
{
    if offered.len() == 0 {
        keys
    } else {
        remembered(remembered_all(keys, offered.drop_last()), offered.last())
    }
}

/// Whether remembered keys are distinct and no more than there is room for.
pub open spec fn valid_keys(keys: Seq<Seq<char>>) -> bool {
    keys.no_duplicates() && keys.len() <= DOUYIN_DEDUP_CAPACITY
}

impl Default for EventDeduplicator {
    fn default() -> (res: Self)
        ensures
            res.keys() == Seq::<Seq<char>>::empty(),
            res.wf(),
    {
        let res = EventDeduplicator { order: VecDeque::new() };
        assert(res.keys() =~= Seq::<Seq<char>>::empty());
        res
    }
}

impl EventDeduplicator {
    /// The remembered keys, oldest first.
    pub open spec fn keys(&self) -> Seq<Seq<char>> {
        self.order@.map_values(|s: String| s@)
    }

    /// The remembered keys are distinct and no more than there is room for.
    pub open spec fn wf(&self) -> bool {
        valid_keys(self.keys())
    }

    /// Whether a key is remembered.
    pub fn contains(&self, key: &str) -> (res: bool)
        ensures
            res == self.keys().contains(key@),
    {
        let mut i: usize = 0;
        while i < self.order.len()
            invariant
                i <= self.order@.len(),
                forall|j: int| 0 <= j < i ==> self.keys()[j] != key@,
            decreases self.order@.len() - i,
        {
            if text::same(self.order[i].as_str(), key) {
                assert(self.keys()[i as int] == key@);
                return true;
            }
            assert(self.keys()[i as int] != key@);
            i += 1;
        }
        false
    }

    /// Offers a key; it is accepted where it is not remembered.
    pub fn accept(&mut self, key: String) -> (res: bool)
        requires
            old(self).wf(),
        ensures
            final(self).wf(),
            res == !old(self).keys().contains(key@),
            final(self).keys() == remembered(old(self).keys(), key@),
    {
        if self.contains(key.as_str()) {
            return false;
        }
        let ghost before = self.keys();
        let ghost k = key@;
        self.order.push_back(key);
        assert(self.keys() =~= before.push(k));
        if self.order.len() > DOUYIN_DEDUP_CAPACITY {
            let expired = self.order.pop_front();
            assert(self.keys() =~= before.push(k).drop_first());
        }
        proof {
            lemma_remembered_valid(before, k);
        }
        true
    }

    /// Forgets every key.
    pub fn clear(&mut self)
        ensures
            final(self).keys() == Seq::<Seq<char>>::empty(),
            final(self).wf(),
    {
        self.order.clear();
        assert(self.keys() =~= Seq::<Seq<char>>::empty());
    }
}

proof fn lemma_remembered_valid(keys: Seq<Seq<char>>, key: Seq<char>)
    requires
        valid_keys(keys),
    ensures
        valid_keys(remembered(keys, key)),
{
    if !keys.contains(key) {
        let all = keys.push(key);
        assert forall|i: int, j: int| 0 <= i < all.len() && 0 <= j < all.len() && i
            != j implies all[i] != all[j] by {
            if i < keys.len() && j < keys.len() {
                assert(keys[i] != keys[j]);
            } else if i < keys.len() {
                assert(keys.contains(keys[i]));
            } else {
                assert(keys.contains(keys[j]));
            }
        }
        if keys.len() >= DOUYIN_DEDUP_CAPACITY {
            let out = all.drop_first();
            assert forall|i: int, j: int| 0 <= i < out.len() && 0 <= j < out.len() && i
                != j implies out[i] != out[j] by {
                assert(all[i + 1] != all[j + 1]);
            }
        }
    }
}

/// Offering keys keeps the remembered ones distinct and within bounds.
pub proof fn law_memory_is_bounded(keys: Seq<Seq<char>>, offered: Seq<Seq<char>>)
    requires
        valid_keys(keys),
    ensures
        valid_keys(remembered_all(keys, offered)),
    decreases offered.len(),
{
    if offered.len() > 0 {
        law_memory_is_bounded(keys, offered.drop_last());
        lemma_remembered_valid(remembered_all(keys, offered.drop_last()), offered.last());
    }
}

proof fn lemma_recency(keys: Seq<Seq<char>>, p: int, offered: Seq<Seq<char>>)
    requires
        valid_keys(keys),
        0 <= p < keys.len(),
        keys.len() - p + offered.len() <= DOUYIN_DEDUP_CAPACITY,
    ensures
        remembered_all(keys, offered).contains(keys[p]),
        exists|q: int|
            0 <= q < remembered_all(keys, offered).len() && #[trigger] remembered_all(
                keys,
                offered,
            )[q] == keys[p] && remembered_all(keys, offered).len() - q <= keys.len() - p
                + offered.len(),
    decreases offered.len(),
{
    let out = remembered_all(keys, offered);
    if offered.len() == 0 {
        assert(out[p] == keys[p]);
    } else {
        let init = offered.drop_last();
        lemma_recency(keys, p, init);
        law_memory_is_bounded(keys, init);
        let mid = remembered_all(keys, init);
        let q = choose|q: int|
            0 <= q < mid.len() && #[trigger] mid[q] == keys[p] && mid.len() - q <= keys.len() - p
                + init.len();
        if mid.contains(offered.last()) {
            assert(out[q] == keys[p]);
        } else if mid.len() >= DOUYIN_DEDUP_CAPACITY {
            assert(q >= 1);
            assert(out[q - 1] == keys[p]);
        } else {
            assert(out[q] == keys[p]);
        }
    }
}

/// A key that was just accepted is refused as long as fewer other keys follow it than are
/// remembered.
pub proof fn law_recent_keys_are_refused(
    keys: Seq<Seq<char>>,
    key: Seq<char>,
    offered: Seq<Seq<char>>,
)
    requires
        valid_keys(keys),
        !keys.contains(key),
        offered.len() < DOUYIN_DEDUP_CAPACITY,
    ensures
        remembered_all(remembered(keys, key), offered).contains(key),
{
    let start = remembered(keys, key);
    lemma_remembered_valid(keys, key);
    assert(start.last() == key);
    lemma_recency(start, start.len() - 1, offered);
}

proof fn lemma_expiry(keys: Seq<Seq<char>>, offered: Seq<Seq<char>>)
    requires
        keys.len() == DOUYIN_DEDUP_CAPACITY,
        valid_keys(keys),
        offered.len() <= DOUYIN_DEDUP_CAPACITY,
        offered.no_duplicates(),
        forall|i: int| 0 <= i < offered.len() ==> !keys.contains(#[trigger] offered[i]),
    ensures
        remembered_all(keys, offered) == keys.skip(offered.len() as int) + offered,
    decreases offered.len(),
{
    if offered.len() == 0 {
        assert(keys.skip(0) + offered =~= keys);
    } else {
        let init = offered.drop_last();
        assert forall|i: int| 0 <= i < init.len() implies !keys.contains(#[trigger] init[i]) by {
            assert(init[i] == offered[i]);
        }
        lemma_expiry(keys, init);
        let mid = remembered_all(keys, init);
        let x = offered.last();
        if mid.contains(x) {
            let k = choose|k: int| 0 <= k < mid.len() && mid[k] == x;
            if k < keys.len() - init.len() {
                assert(keys[k + init.len()] == x);
                assert(keys.contains(offered[offered.len() - 1]));
            } else {
                assert(init[k - (keys.len() - init.len())] == x);
                assert(offered[k - (keys.len() - init.len())] == offered[offered.len() - 1]);
            }
        }
        assert(mid.push(x).drop_first() =~= keys.skip(offered.len() as int) + offered);
    }
}

/// Once as many other keys were accepted as are remembered, a key is forgotten and may be
/// accepted again.
pub proof fn law_expired_keys_are_accepted_again(
    keys: Seq<Seq<char>>,
    key: Seq<char>,
    offered: Seq<Seq<char>>,
)
    requires
        keys.len() == DOUYIN_DEDUP_CAPACITY,
        valid_keys(keys),
        keys.contains(key),
        offered.len() == DOUYIN_DEDUP_CAPACITY,
        offered.no_duplicates(),
        forall|i: int| 0 <= i < offered.len() ==> !keys.contains(#[trigger] offered[i]),
    ensures
        !remembered_all(keys, offered).contains(key),
{
    lemma_expiry(keys, offered);
    let out = remembered_all(keys, offered);
    assert(out =~= offered);
    if out.contains(key) {
        let i = choose|i: int| 0 <= i < offered.len() && offered[i] == key;
        assert(!keys.contains(offered[i]));
    }
}

/// The key of an event: the provider's method and message number.
pub open spec fn dedup_key(event: LiveEventView) -> Option<Seq<char>> {
    let id = match event.raw.get("id"@) {
        Some(v) => v.as_text(),
        None => event.data.at("id"@).as_text(),
    };
    let method = match event.raw.get("method"@) {
        Some(v) => v.as_text(),
        None => event.data.at("method"@).as_text(),
    };
    match id {
        Some(id) => if id.len() > 0 && id != "0"@ {
            Some(
                (match method {
                    Some(m) => m,
                    None => event.event_type,
                }) + ":"@ + id,
            )
        } else {
            None
        },
        None => None,
    }
}

fn text_of_member(event: &LiveEvent, key: &str) -> (res: Option<String>)
    ensures
        res.deep_view() == (match event.raw.deep_view().get(key@) {
            Some(v) => v.as_text(),
            None => event.data.deep_view().at(key@).as_text(),
        }),
{
    match event.raw.get(key) {
        Some(v) => match v.as_text() {
            Some(s) => Some(text::copy(s)),
            None => None,
        },
        None => match event.data.get(key) {
            Some(v) => match v.as_text() {
                Some(s) => Some(text::copy(s)),
                None => None,
            },
            None => None,
        },
    }
}

/// The key of an event, if it has one.
pub fn event_dedup_key(event: &LiveEvent) -> (res: Option<String>)
    ensures
        res.deep_view() == dedup_key(event.deep_view()),
{
    let id = match text_of_member(event, "id") {
        Some(id) => id,
        None => {
            return None;
        },
    };
    if text::is_empty(id.as_str()) || text::same(id.as_str(), "0") {
        return None;
    }
    let mut key = match text_of_member(event, "method") {
        Some(method) => method,
        None => text::copy(event.event_type.as_str()),
    };
    key.append(":");
    key.append(id.as_str());
    Some(key)
}

/// The text that a chat event shows at once; other events show nothing.
pub open spec fn realtime_text(event: LiveEventView) -> Option<Seq<char>> {
    if event.event_type == "danmu"@ {
        match event.data.at("content"@).as_text() {
            Some(s) => Some(s),
            None => Some(Seq::empty()),
        }
    } else {
        None
    }
}

/// The text that a chat event shows at once.
pub fn realtime_content(event: &LiveEvent) -> (res: Option<String>)
    ensures
        res.deep_view() == realtime_text(event.deep_view()),
{
    if !text::same(event.event_type.as_str(), "danmu") {
        return None;
    }
    match event.data.get("content") {
        Some(v) => match v.as_text() {
            Some(s) => Some(text::copy(s)),
            None => Some(String::new()),
        },
        None => Some(String::new()),
    }
}

/// An event that was written but is not known to be durable yet.
pub struct PendingEventId {
    pub storage_generation: u64,
    pub key: String,
}

impl DeepView for PendingEventId {
    type V = (u64, Seq<char>);

    open spec fn deep_view(&self) -> (u64, Seq<char>) {
        (self.storage_generation, self.key@)
    }
}

/// The record of stored chat events: the keys of durable events, the keys of events that wait, the
/// number of the file that is written, whether there is one, and whether writing fails.
pub struct DanmuLedger {
    pub recent: EventDeduplicator,
    pub pending: Vec<PendingEventId>,
    pub generation: u64,
    pub open: bool,
    pub degraded: bool,
}

/// The model of the record of stored chat events.
#[verifier::ext_equal]
pub struct LedgerView {
    pub recent: Seq<Seq<char>>,
    pub pending: Seq<(u64, Seq<char>)>,
    pub generation: u64,
    pub open: bool,
    pub degraded: bool,
}

impl DeepView for DanmuLedger {
    type V = LedgerView;

    open spec fn deep_view(&self) -> LedgerView {
        LedgerView {
            recent: self.recent.keys(),
            pending: self.pending.deep_view(),
            generation: self.generation,
            open: self.open,
            degraded: self.degraded,
        }
    }
}

/// The keys of the events that wait for the file of a generation.
pub open spec fn keys_of(pending: Seq<(u64, Seq<char>)>, generation: u64) -> Seq<Seq<char>>
    decreases pending.len(),
{
    if pending.len() == 0 {
        Seq::empty()
    } else {
        let before = keys_of(pending.drop_last(), generation);
        if pending.last().0 == generation {
            before.push(pending.last().1)
        } else {
            before
        }
    }
}

/// The events that wait for files of other generations.
pub open spec fn others_of(pending: Seq<(u64, Seq<char>)>, generation: u64) -> Seq<(u64, Seq<char>)>
    decreases pending.len(),
{
    if pending.len() == 0 {
        Seq::empty()
    } else {
        let before = others_of(pending.drop_last(), generation);
        if pending.last().0 == generation {
            before
        } else {
            before.push(pending.last())
        }
    }
}

/// Whether an event waits under a key.
pub open spec fn is_waiting(pending: Seq<(u64, Seq<char>)>, key: Seq<char>) -> bool {
    exists|i: int| 0 <= i < pending.len() && (#[trigger] pending[i]).1 == key
}

impl LedgerView {
    /// Whether an event with this key is new.
    pub open spec fn admits(self, key: Option<Seq<char>>) -> bool {
        match key {
            Some(k) => !self.recent.contains(k) && !is_waiting(self.pending, k),
            None => true,
        }
    }

    /// The record after the events of a generation are settled: where they are durable their keys
    /// are remembered, else they are released so that they may come again.
    pub open spec fn settled(self, generation: u64, durable: bool) -> LedgerView {
        LedgerView {
            recent: if durable {
                remembered_all(self.recent, keys_of(self.pending, generation))
            } else {
                self.recent
            },
            pending: others_of(self.pending, generation),
            ..self
        }
    }

    /// The record after a new file takes the place of the old one, which was sealed.
    pub open spec fn switched(self) -> LedgerView {
        let sealed = if self.open {
            self.settled(self.generation, true)
        } else {
            self
        };
        LedgerView {
            generation: if self.generation == u64::MAX {
                u64::MAX
            } else {
                (self.generation + 1) as u64
            },
            open: true,
            ..sealed
        }
    }
}

/// What a recorder does after it tried to write an event.
pub enum PersistStep {
    Done,
    Retry { delay_ms: u64, log: bool, notify: bool },
}

/// The wait in milliseconds before an event is written again: it doubles with each attempt up to
/// the fifth.
pub open spec fn retry_wait(attempt: nat) -> nat {
    100 * pow2(
        if attempt < 5 {
            attempt
        } else {
            5
        },
    )
}

impl DanmuLedger {
    /// A record with nothing in it.
    pub fn new() -> (res: DanmuLedger)
        ensures
            res.recent.wf(),
            res.deep_view() == (LedgerView {
                recent: Seq::empty(),
                pending: Seq::empty(),
                generation: 0,
                open: false,
                degraded: false,
            }),
    {
        let res = DanmuLedger {
            recent: EventDeduplicator::default(),
            pending: Vec::new(),
            generation: 0,
            open: false,
            degraded: false,
        };
        assert(res.pending.deep_view() =~= Seq::<(u64, Seq<char>)>::empty());
        res
    }

    /// Whether an event with this key is new.
    pub fn admits(&self, key: &Option<String>) -> (res: bool)
        ensures
            res == self.deep_view().admits(key.deep_view()),
    {
        match key {
            Some(k) => {
                if self.recent.contains(k.as_str()) {
                    return false;
                }
                let ghost all = self.pending.deep_view();
                let mut i: usize = 0;
                while i < self.pending.len()
                    invariant
                        i <= self.pending@.len(),
                        all == self.pending.deep_view(),
                        *key matches Some(s) && s@ == k@,
                        forall|j: int| 0 <= j < i ==> (#[trigger] all[j]).1 != k@,
                    decreases self.pending@.len() - i,
                {
                    assert(all[i as int].1 == self.pending@[i as int].key@);
                    if text::same(self.pending[i].key.as_str(), k.as_str()) {
                        return false;
                    }
                    i += 1;
                }
                true
            },
            None => true,
        }
    }

    /// Settles the events of a generation.
    pub fn settle_pending_event_ids(&mut self, generation: u64, durable: bool)
        requires
            old(self).recent.wf(),
        ensures
            final(self).recent.wf(),
            final(self).deep_view() == old(self).deep_view().settled(generation, durable),
    {
        let mut retained: Vec<PendingEventId> = Vec::new();
        let ghost all = self.pending.deep_view();
        let ghost start = self.recent.keys();
        let mut i: usize = 0;
        assert(all.take(0) =~= Seq::empty());
        assert(retained.deep_view() =~= Seq::<(u64, Seq<char>)>::empty());
        while i < self.pending.len()
            invariant
                i <= self.pending@.len(),
                all == self.pending.deep_view(),
                self.recent.wf(),
                self.pending == old(self).pending,
                self.generation == old(self).generation,
                self.open == old(self).open,
                self.degraded == old(self).degraded,
                retained.deep_view() == others_of(all.take(i as int), generation),
                self.recent.keys() == (if durable {
                    remembered_all(start, keys_of(all.take(i as int), generation))
                } else {
                    start
                }),
            decreases self.pending@.len() - i,
        {
            let ghost next = all.take(i + 1);
            assert(next.drop_last() =~= all.take(i as int));
            let ghost item = self.pending@[i as int];
            assert(next.last() == (item.storage_generation, item.key@));
            let ghost kept = retained.deep_view();
            let event_generation = self.pending[i].storage_generation;
            let key = text::copy(self.pending[i].key.as_str());
            if event_generation == generation {
                if durable {
                    let ghost before = keys_of(all.take(i as int), generation);
                    let accepted = self.recent.accept(key);
                    assert(before.push(item.key@).drop_last() =~= before);
                }
            } else {
                retained.push(PendingEventId { storage_generation: event_generation, key });
                assert(retained.deep_view() =~= kept.push((item.storage_generation, item.key@)));
            }
            i += 1;
        }
        assert(all.take(i as int) =~= all);
        self.pending = retained;
    }

    /// Takes note of the outcome of a barrier: the file was flushed, or it was not and the reason
    /// is given. Without a file there is nothing to flush.
    pub fn barrier(&mut self, flushed: Result<(), String>) -> (res: Result<(), String>)
        requires
            old(self).recent.wf(),
        ensures
            final(self).recent.wf(),
            res is Ok <==> old(self).open && flushed is Ok,
            !old(self).open ==> (res matches Err(e) && e@ == "Douyin danmu storage is unavailable"@),
            old(self).open ==> res == flushed,
            final(self).deep_view() == old(self).deep_view().settled(
                old(self).generation,
                res is Ok,
            ),
    {
        let result = if self.open {
            flushed
        } else {
            Err(text::copy("Douyin danmu storage is unavailable"))
        };
        let durable = result.is_ok();
        let generation = self.generation;
        self.settle_pending_event_ids(generation, durable);
        result
    }

    /// Switches to a new file, after the old one was sealed; gives the number of the new file.
    pub fn replace_danmu_storage(&mut self) -> (res: u64)
        requires
            old(self).recent.wf(),
        ensures
            final(self).recent.wf(),
            final(self).deep_view() == old(self).deep_view().switched(),
            res == final(self).generation,
    {
        if self.open {
            let generation = self.generation;
            self.settle_pending_event_ids(generation, true);
        }
        if self.generation < u64::MAX {
            self.generation = self.generation + 1;
        }
        self.open = true;
        self.generation
    }

    /// Takes note of an attempt to write an event: a written event waits under its key for the next
    /// barrier; a failure is tried again after a wait, and the user is told of the first one.
    pub fn after_write(&mut self, attempt: u32, written: bool, key: &Option<String>) -> (res:
        PersistStep)
        ensures
            final(self).recent == old(self).recent,
            written ==> res is Done && final(self).deep_view() == (LedgerView {
                pending: match key.deep_view() {
                    Some(k) => old(self).deep_view().pending.push((old(self).generation, k)),
                    None => old(self).deep_view().pending,
                },
                degraded: false,
                ..old(self).deep_view()
            }),
            !written ==> final(self).deep_view() == (LedgerView {
                degraded: true,
                ..old(self).deep_view()
            }) && res == (PersistStep::Retry {
                delay_ms: retry_wait(attempt as nat) as u64,
                log: attempt == 1 || attempt as int % 12 == 0,
                notify: !old(self).degraded,
            }),
    {
        if written {
            if let Some(k) = key {
                let ghost before = self.pending.deep_view();
                self.pending.push(
                    PendingEventId {
                        storage_generation: self.generation,
                        key: text::copy(k.as_str()),
                    },
                );
                assert(self.pending.deep_view() =~= before.push((self.generation, k@)));
            }
            self.degraded = false;
            return PersistStep::Done;
        }
        let notify = !self.degraded;
        self.degraded = true;
        proof {
            lemma2_to64();
        }
        let delay_ms: u64 = if attempt == 0 {
            100
        } else if attempt == 1 {
            200
        } else if attempt == 2 {
            400
        } else if attempt == 3 {
            800
        } else if attempt == 4 {
            1600
        } else {
            3200
        };
        PersistStep::Retry { delay_ms, log: attempt == 1 || attempt % 12 == 0, notify }
    }

    /// Forgets every key, durable or waiting, and the file.
    pub fn reset(&mut self)
        ensures
            final(self).recent.wf(),
            final(self).deep_view() == (LedgerView {
                recent: Seq::empty(),
                pending: Seq::empty(),
                open: false,
                ..old(self).deep_view()
            }),
    {
        self.recent.clear();
        self.pending.clear();
        self.open = false;
        assert(self.pending.deep_view() =~= Seq::<(u64, Seq<char>)>::empty());
    }
}

proof fn lemma_others(pending: Seq<(u64, Seq<char>)>, generation: u64, key: Seq<char>)
    ensures
        is_waiting(others_of(pending, generation), key) <==> exists|i: int|
            0 <= i < pending.len() && (#[trigger] pending[i]).1 == key && pending[i].0
                != generation,
        keys_of(others_of(pending, generation), generation) == Seq::<Seq<char>>::empty(),
    decreases pending.len(),
{
    if pending.len() > 0 {
        let init = pending.drop_last();
        lemma_others(init, generation, key);
        let before = others_of(init, generation);
        let out = others_of(pending, generation);
        if out.len() > before.len() {
            assert(out.drop_last() =~= before);
        }
        if is_waiting(out, key) {
            let k = choose|k: int| 0 <= k < out.len() && (#[trigger] out[k]).1 == key;
            if k < before.len() {
                assert(before[k].1 == key);
                let i = choose|i: int|
                    0 <= i < init.len() && (#[trigger] init[i]).1 == key && init[i].0 != generation;
                assert(pending[i].1 == key);
            } else {
                assert(pending[pending.len() - 1].1 == key);
            }
        }
        if exists|i: int|
            0 <= i < pending.len() && (#[trigger] pending[i]).1 == key && pending[i].0
                != generation {
            let i = choose|i: int|
                0 <= i < pending.len() && (#[trigger] pending[i]).1 == key && pending[i].0
                    != generation;
            if i < init.len() {
                assert(init[i].1 == key);
                let k = choose|k: int| 0 <= k < before.len() && (#[trigger] before[k]).1 == key;
                assert(out[k].1 == key);
            } else {
                assert(out[out.len() - 1].1 == key);
            }
        }
    }
}

/// A barrier that fails releases the events of its file: none of them waits any longer, nothing is
/// remembered, and an event that waits for no other file may come again.
pub proof fn law_a_failed_barrier_releases_its_events(ledger: LedgerView, key: Seq<char>)
    requires
        !ledger.recent.contains(key),
        forall|i: int|
            0 <= i < ledger.pending.len() && (#[trigger] ledger.pending[i]).1 == key
                ==> ledger.pending[i].0 == ledger.generation,
    ensures
        ledger.settled(ledger.generation, false).recent == ledger.recent,
        keys_of(ledger.settled(ledger.generation, false).pending, ledger.generation) == Seq::<
            Seq<char>,
        >::empty(),
        ledger.settled(ledger.generation, false).admits(Some(key)),
{
    lemma_others(ledger.pending, ledger.generation, key);
}

proof fn lemma_offered_in_turn(keys: Seq<Seq<char>>, a: Seq<Seq<char>>, b: Seq<Seq<char>>)
    ensures
        remembered_all(keys, a + b) == remembered_all(remembered_all(keys, a), b),
    decreases b.len(),
{
    if b.len() == 0 {
        assert(a + b =~= a);
    } else {
        lemma_offered_in_turn(keys, a, b.drop_last());
        assert((a + b).drop_last() =~= a + b.drop_last());
    }
}

proof fn lemma_remembered_come_from(
    keys: Seq<Seq<char>>,
    offered: Seq<Seq<char>>,
    key: Seq<char>,
)
    requires
        remembered_all(keys, offered).contains(key),
    ensures
        keys.contains(key) || offered.contains(key),
    decreases offered.len(),
{
    if offered.len() > 0 {
        let init = offered.drop_last();
        let mid = remembered_all(keys, init);
        let out = remembered_all(keys, offered);
        let k = choose|k: int| 0 <= k < out.len() && out[k] == key;
        if key == offered.last() {
            assert(offered[offered.len() - 1] == key);
        } else {
            if mid.contains(offered.last()) {
                assert(mid[k] == key);
            } else if mid.len() >= DOUYIN_DEDUP_CAPACITY {
                assert(mid.push(offered.last())[k + 1] == key);
                assert(mid[k + 1] == key);
            } else {
                assert(mid[k] == key);
            }
            assert(mid.contains(key));
            lemma_remembered_come_from(keys, init, key);
            if init.contains(key) {
                let i = choose|i: int| 0 <= i < init.len() && init[i] == key;
                assert(offered[i] == key);
            }
        }
    }
}

/// A barrier that succeeds remembers the events of its file, as many as there is room for: each of
/// them is refused when it comes again.
pub proof fn law_a_durable_barrier_remembers_its_events(ledger: LedgerView, i: int)
    requires
        valid_keys(ledger.recent),
        keys_of(ledger.pending, ledger.generation).no_duplicates(),
        keys_of(ledger.pending, ledger.generation).len() <= DOUYIN_DEDUP_CAPACITY,
        forall|j: int|
            0 <= j < keys_of(ledger.pending, ledger.generation).len() ==> !ledger.recent.contains(
                #[trigger] keys_of(ledger.pending, ledger.generation)[j],
            ),
        0 <= i < keys_of(ledger.pending, ledger.generation).len(),
    ensures
        !ledger.settled(ledger.generation, true).admits(
            Some(keys_of(ledger.pending, ledger.generation)[i]),
        ),
{
    let offered = keys_of(ledger.pending, ledger.generation);
    let key = offered[i];
    let a = offered.take(i);
    let b = offered.skip(i + 1);
    let mid = remembered_all(ledger.recent, a);
    law_memory_is_bounded(ledger.recent, a);
    if mid.contains(key) {
        lemma_remembered_come_from(ledger.recent, a, key);
        let j = choose|j: int| 0 <= j < a.len() && a[j] == key;
        assert(offered[j] == offered[i]);
    }
    law_recent_keys_are_refused(mid, key, b);
    assert(offered =~= a.push(key) + b);
    lemma_offered_in_turn(ledger.recent, a.push(key), b);
    assert(a.push(key).drop_last() =~= a);
}

/// Switching files settles the old one: the number of the file rises, as long as it can, and no
/// event waits for the old file.
pub proof fn law_switching_files_settles_the_old_one(ledger: LedgerView)
    requires
        ledger.open,
        ledger.generation < u64::MAX,
    ensures
        ledger.switched().generation > ledger.generation,
        keys_of(ledger.switched().pending, ledger.generation) == Seq::<Seq<char>>::empty(),
        ledger.switched().recent == remembered_all(
            ledger.recent,
            keys_of(ledger.pending, ledger.generation),
        ),
{
    lemma_others(ledger.pending, ledger.generation, Seq::empty());
}

/// What was offered is remembered; nothing else is forgotten for it while there is room, and where
/// there is none, only what was offered first. What is remembered already changes nothing.
pub proof fn law_remembering_forgets_the_oldest(keys: Seq<Seq<char>>, key: Seq<char>)
    requires
        valid_keys(keys),
    ensures
        remembered(keys, key).contains(key),
        keys.contains(key) ==> remembered(keys, key) == keys,
        !keys.contains(key) && keys.len() < DOUYIN_DEDUP_CAPACITY ==> remembered(keys, key)
            == keys.push(key),
        !keys.contains(key) && keys.len() == DOUYIN_DEDUP_CAPACITY ==> remembered(keys, key)
            == keys.drop_first().push(key),
        valid_keys(remembered(keys, key)),
{
    let more = keys.push(key);
    assert(more.last() == key);
    assert(more[keys.len() as int] == key);
    if !keys.contains(key) && keys.len() == DOUYIN_DEDUP_CAPACITY {
        assert(more.drop_first() =~= keys.drop_first().push(key));
        assert(more.drop_first()[keys.len() - 1] == key);
    }
    law_memory_is_bounded(keys, seq![key]);
    assert(seq![key].drop_last() =~= Seq::<Seq<char>>::empty());
    reveal_with_fuel(remembered_all, 2);
}

/// Events are told apart by their kind and number: one that has a number of its own has a key that ends
/// in it, and two of one kind share a key only if they share the number. An event without a number, or
/// with number zero, has no key.
pub proof fn law_events_are_told_apart_by_number(event: LiveEventView, id: Seq<char>)
    ensures
        event.raw.get("id"@) == Some(JsonView::Text(id)) && id.len() > 0 && id != "0"@ ==> dedup_key(
            event,
        ) is Some && text::ends(dedup_key(event)->0, id),
        event.raw.get("id"@) is None && event.data.at("id"@) == JsonView::Text(id) && id.len() > 0
            && id != "0"@ ==> dedup_key(event) is Some && text::ends(dedup_key(event)->0, id),
        event.raw.get("id"@) is None && !(event.data.at("id"@) is Text) ==> dedup_key(event)
            is None,
        event.raw.get("id"@) is Some && !(event.raw.at("id"@) is Text) ==> dedup_key(event) is None,
        event.raw.get("id"@) == Some(JsonView::Text("0"@)) ==> dedup_key(event) is None,
        event.raw.get("id"@) == Some(JsonView::Text(Seq::empty())) ==> dedup_key(event) is None,
{
    if let Some(key) = dedup_key(event) {
        let number = match event.raw.get("id"@) {
            Some(v) => v.as_text()->0,
            None => event.data.at("id"@).as_text()->0,
        };
        assert(key.skip(key.len() - number.len()) =~= number);
    }
}

/// Events of one kind share a key only if they share the number, and where the kind is not told by the
/// record, the type of the event stands for it.
pub proof fn law_events_of_one_kind_share_no_key(
    a: LiveEventView,
    b: LiveEventView,
    x: Seq<char>,
    y: Seq<char>,
)
    requires
        a.raw.get("id"@) == Some(JsonView::Text(x)),
        b.raw.get("id"@) == Some(JsonView::Text(y)),
        a.raw.get("method"@) == b.raw.get("method"@),
        a.data.at("method"@) == b.data.at("method"@),
        a.event_type == b.event_type,
        dedup_key(a) is Some,
        dedup_key(a) == dedup_key(b),
    ensures
        x == y,
{
    let kind = match a.raw.get("method"@) {
        Some(v) => v.as_text(),
        None => a.data.at("method"@).as_text(),
    };
    let head = (match kind {
        Some(m) => m,
        None => a.event_type,
    }) + ":"@;
    assert((head + x).skip(head.len() as int) =~= x);
    assert((head + y).skip(head.len() as int) =~= y);
}

/// Only chat is shown as it comes, with its text, and chat without a text as an empty line.
pub proof fn law_chat_is_shown_as_it_comes(event: LiveEventView)
    ensures
        realtime_text(event) is Some <==> event.event_type == "danmu"@,
        event.event_type == "danmu"@ ==> realtime_text(event)->0 == (match event.data.at(
            "content"@,
        ) {
            JsonView::Text(s) => s,
            _ => Seq::empty(),
        }),
{
}

/// What waits for a file and what waits for another make up all that waits: each is kept apart, in
/// order.
pub proof fn law_waiting_events_belong_to_their_file(
    a: Seq<(u64, Seq<char>)>,
    b: Seq<(u64, Seq<char>)>,
    generation: u64,
)
    ensures
        keys_of(a + b, generation) == keys_of(a, generation) + keys_of(b, generation),
        others_of(a + b, generation) == others_of(a, generation) + others_of(b, generation),
        a.len() == 0 ==> keys_of(a, generation).len() == 0 && others_of(a, generation).len() == 0,
        a.len() == 1 && a[0].0 == generation ==> keys_of(a, generation) == seq![a[0].1]
            && others_of(a, generation).len() == 0,
        a.len() == 1 && a[0].0 != generation ==> keys_of(a, generation).len() == 0 && others_of(
            a,
            generation,
        ) == a,
    decreases b.len(),
{
    reveal_with_fuel(keys_of, 2);
    reveal_with_fuel(others_of, 2);
    if b.len() == 0 {
        assert(a + b =~= a);
    } else {
        law_waiting_events_belong_to_their_file(a, b.drop_last(), generation);
        assert((a + b).drop_last() =~= a + b.drop_last());
    }
}

/// An event is taken where its key is neither remembered nor waiting, and always where it has none.
pub proof fn law_known_events_are_not_taken_again(ledger: LedgerView, key: Seq<char>)
    ensures
        ledger.admits(None),
        ledger.recent.contains(key) ==> !ledger.admits(Some(key)),
        (exists|i: int| 0 <= i < ledger.pending.len() && (#[trigger] ledger.pending[i]).1 == key)
            ==> !ledger.admits(Some(key)),
        !ledger.recent.contains(key) && (forall|i: int|
            0 <= i < ledger.pending.len() ==> (#[trigger] ledger.pending[i]).1 != key)
            ==> ledger.admits(Some(key)),
{
}

/// Settling one file leaves what waits for others, and neither opens nor closes one.
pub proof fn law_settling_concerns_one_file(ledger: LedgerView, generation: u64, durable: bool)
    ensures
        ledger.settled(generation, durable).pending == others_of(ledger.pending, generation),
        ledger.settled(generation, durable).generation == ledger.generation,
        ledger.settled(generation, durable).open == ledger.open,
        ledger.settled(generation, durable).degraded == ledger.degraded,
        !durable ==> ledger.settled(generation, durable).recent == ledger.recent,
        durable ==> ledger.settled(generation, durable).recent == remembered_all(
            ledger.recent,
            keys_of(ledger.pending, generation),
        ),
        ledger.switched().open,
        !ledger.open ==> ledger.switched().recent == ledger.recent && ledger.switched().pending
            == ledger.pending,
        ledger.switched().degraded == ledger.degraded,
{
}

/// A retry waits a tenth of a second at first, twice as long each time after, and never longer than a
/// bit more than three seconds.
pub proof fn law_retries_wait_twice_as_long(attempt: nat)
    ensures
        retry_wait(0) == 100,
        attempt < 5 ==> retry_wait(attempt + 1) == 2 * retry_wait(attempt),
        attempt >= 5 ==> retry_wait(attempt) == 3200,
        retry_wait(attempt) <= 3200,
        retry_wait(attempt) <= retry_wait(attempt + 1),
{
    lemma2_to64();
}

/// A barrier holds exactly where the storage is open and what was written is flushed.
pub proof fn law_barriers_hold_where_all_is_flushed(
    ledger: &mut DanmuLedger,
    flushed: Result<(), String>,
    res: Result<(), String>,
)
    requires
        old(ledger).recent.wf(),
        call_ensures(DanmuLedger::barrier, (ledger, flushed), res),
    ensures
        res is Ok <==> old(ledger).open && flushed is Ok,
{
}

/// A write that succeeded is done with; one that failed is tried again, after as long as its attempts
/// ask for, and is told once while it lasts.
pub proof fn law_failed_writes_are_tried_again(
    ledger: &mut DanmuLedger,
    attempt: u32,
    written: bool,
    key: &Option<String>,
    res: PersistStep,
)
    requires
        call_ensures(DanmuLedger::after_write, (ledger, attempt, written, key), res),
    ensures
        res is Done <==> written,
        !written ==> res->delay_ms == retry_wait(attempt as nat) && (res->notify <==> !old(
            ledger,
        ).degraded),
{
    law_retries_wait_twice_as_long(attempt as nat);
}

/// A key is accepted exactly where it is not remembered.
pub proof fn law_new_keys_are_accepted(
    memory: &mut EventDeduplicator,
    key: String,
    res: bool,
)
    requires
        old(memory).wf(),
        call_ensures(EventDeduplicator::accept, (memory, key), res),
    ensures
        res <==> !old(memory).keys().contains(key@),
{
}

} // verus!
