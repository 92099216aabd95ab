//! The timeline of pending events, ordered by fire time and then by the order
//! in which they were scheduled.
use vstd::prelude::*;
use crate::item::ItemId;

verus! {

/// A pending firing of an event. Times are milliseconds on the engine's clock.
#[derive(Clone, Copy, Debug, PartialEq, Eq, Structural)]
pub struct PendingEvent {
    pub event_id: ItemId,
    /// When the entry was scheduled; identifies it among entries of one event.
    pub start_time: u64,
    /// When the entry fires.
    pub fire_time: u64,
    /// A stamp that grows with every insertion; it breaks ties between equal
    /// fire times.
    pub order: u64,
}

/// An entry of the timeline as the user interface sees it.
#[derive(Clone, Copy, Debug, PartialEq, Eq, Structural)]
pub struct ComingEvent {
    pub event_id: ItemId,
    pub start_time: u64,
    pub fire_time: u64,
}

/// The error of a reschedule whose target is not pending.
#[derive(Clone, Copy, Debug, PartialEq, Eq, Structural)]
pub enum QueueError {
    NotFound,
}

/// Whether `a` comes out of the queue before `b`.
pub open spec fn precedes(a: PendingEvent, b: PendingEvent) -> bool {
    a.fire_time < b.fire_time || (a.fire_time == b.fire_time && a.order < b.order)
}

/// Every entry precedes every later one.
pub open spec fn sorted(s: Seq<PendingEvent>) -> bool {
    forall|i: int, j: int| 0 <= i < j < s.len() ==> precedes(#[trigger] s[i], #[trigger] s[j])
}

/// What identifies an entry, apart from its tie-breaking stamp.
pub open spec fn key_of(e: PendingEvent) -> (ItemId, u64, u64) {
    (e.event_id, e.start_time, e.fire_time)
}

pub open spec fn keys(s: Seq<PendingEvent>) -> Seq<(ItemId, u64, u64)> {
    s.map_values(|e: PendingEvent| key_of(e))
}

pub open spec fn coming_of(e: PendingEvent) -> ComingEvent {
    ComingEvent { event_id: e.event_id, start_time: e.start_time, fire_time: e.fire_time }
}

pub open spec fn ids_of(s: Seq<PendingEvent>) -> Seq<ItemId> {
    s.map_values(|e: PendingEvent| e.event_id)
}

/// The number of entries that fire no later than `t`.
pub open spec fn count_due(s: Seq<PendingEvent>, t: u64) -> nat
    decreases s.len(),
{
    if s.len() == 0 {
        0
    } else {
        count_due(s.drop_last(), t) + if s.last().fire_time <= t { 1nat } else { 0nat }
    }
}

/// `start + delay`, or the last representable instant when that overflows.
pub open spec fn fire_at(start: u64, delay: u64) -> u64 {
    if start + delay <= u64::MAX { (start + delay) as u64 } else { u64::MAX }
}

/// What a shift by `d` makes of one entry: `None` where the new fire time is
/// before `now` or cannot be represented.
pub open spec fn shift_entry(e: PendingEvent, d: u64, is_negative: bool, now: u64) -> Option<PendingEvent> {
    let t: int = if is_negative { e.fire_time - d } else { e.fire_time + d };
    if now <= t <= u64::MAX {
        Some(PendingEvent { fire_time: t as u64, ..e })
    } else {
        None
    }
}

/// The entries of `s` after a shift by `d`, in their order, without those the
/// shift drops.
pub open spec fn shifted(s: Seq<PendingEvent>, d: u64, is_negative: bool, now: u64) -> Seq<PendingEvent>
    decreases s.len(),
{
    if s.len() == 0 {
        s
    } else {
        let rest = shifted(s.drop_last(), d, is_negative, now);
        match shift_entry(s.last(), d, is_negative, now) {
            Some(e) => rest.push(e),
            None => rest,
        }
    }
}

/// The entries of `s` that a shift forward and back by `d` keeps.
pub open spec fn round_trip_kept(s: Seq<PendingEvent>, d: u64, now: u64) -> Seq<PendingEvent>
    decreases s.len(),
{
    if s.len() == 0 {
        s
    } else {
        let rest = round_trip_kept(s.drop_last(), d, now);
        let e = s.last();
        if now <= e.fire_time && e.fire_time + d <= u64::MAX {
            rest.push(e)
        } else {
            rest
        }
    }
}

/// Whether `e` is the entry of `event_id` scheduled at `start_time`.
pub open spec fn matches_entry(e: PendingEvent, event_id: ItemId, start_time: u64) -> bool {
    e.event_id == event_id && e.start_time == start_time
}

/// Whether `i` is the first entry of `s` that matches.
pub open spec fn first_match(s: Seq<PendingEvent>, event_id: ItemId, start_time: u64, i: int) -> bool {
    &&& 0 <= i < s.len()
    &&& matches_entry(s[i], event_id, start_time)
    &&& forall|j: int| 0 <= j < i ==> !matches_entry(#[trigger] s[j], event_id, start_time)
}

pub open spec fn has_match(s: Seq<PendingEvent>, event_id: ItemId, start_time: u64) -> bool {
    exists|i: int| 0 <= i < s.len() && matches_entry(#[trigger] s[i], event_id, start_time)
}

/// The key of a pending entry: (event, start time, fire time).
pub type EntryKey = (ItemId, u64, u64);

/// The number of keys whose fire time is no later than `t`.
pub open spec fn count_due_keys(ks: Seq<EntryKey>, t: u64) -> nat
    decreases ks.len(),
{
    if ks.len() == 0 {
        0
    } else {
        count_due_keys(ks.drop_last(), t) + if ks.last().2 <= t { 1nat } else { 0nat }
    }
}

/// The keys after an insertion of (`id`, `start`, `fire`): after every entry
/// that fires no later than it.
pub open spec fn schedule_keys(ks: Seq<EntryKey>, id: ItemId, start: u64, fire: u64) -> Seq<EntryKey> {
    ks.insert(count_due_keys(ks, fire) as int, (id, start, fire))
}

/// What a shift by `d` makes of one key.
pub open spec fn shift_key(k: EntryKey, d: u64, is_negative: bool, now: u64) -> Option<EntryKey> {
    let t: int = if is_negative { k.2 - d } else { k.2 + d };
    if now <= t <= u64::MAX {
        Some((k.0, k.1, t as u64))
    } else {
        None
    }
}

/// The keys after a shift by `d`.
pub open spec fn shifted_keys(ks: Seq<EntryKey>, d: u64, is_negative: bool, now: u64) -> Seq<EntryKey>
    decreases ks.len(),
{
    if ks.len() == 0 {
        ks
    } else {
        let rest = shifted_keys(ks.drop_last(), d, is_negative, now);
        match shift_key(ks.last(), d, is_negative, now) {
            Some(k) => rest.push(k),
            None => rest,
        }
    }
}

/// Whether key `i` is the first of `event_id` started at `start_time`.
pub open spec fn first_key_match(ks: Seq<EntryKey>, event_id: ItemId, start_time: u64, i: int) -> bool {
    &&& 0 <= i < ks.len()
    &&& ks[i].0 == event_id && ks[i].1 == start_time
    &&& forall|j: int| 0 <= j < i ==> !((#[trigger] ks[j]).0 == event_id && ks[j].1 == start_time)
}

/// The keys after the first entry of `event_id` started at `start_time` is
/// moved to fire `new_delay` after its start, or cancelled; `None` where no
/// entry matches.
pub open spec fn rescheduled_keys(ks: Seq<EntryKey>, event_id: ItemId, start_time: u64, new_delay: Option<u64>) -> Option<Seq<EntryKey>> {
    if exists|i: int| first_key_match(ks, event_id, start_time, i) {
        let i = choose|i: int| first_key_match(ks, event_id, start_time, i);
        let rest = ks.remove(i);
        Some(
            match new_delay {
                None => rest,
                Some(d) => schedule_keys(rest, event_id, start_time, fire_at(start_time, d)),
            },
        )
    } else {
        None
    }
}

proof fn lemma_count_due_keys(s: Seq<PendingEvent>, t: u64)
    ensures
        count_due(s, t) == count_due_keys(keys(s), t),
    decreases s.len(),
{
    if s.len() > 0 {
        assert(keys(s.drop_last()) =~= keys(s).drop_last());
        lemma_count_due_keys(s.drop_last(), t);
    }
}

proof fn lemma_shifted_keys(s: Seq<PendingEvent>, d: u64, is_negative: bool, now: u64)
    ensures
        keys(shifted(s, d, is_negative, now)) == shifted_keys(keys(s), d, is_negative, now),
    decreases s.len(),
{
    if s.len() > 0 {
        assert(keys(s.drop_last()) =~= keys(s).drop_last());
        lemma_shifted_keys(s.drop_last(), d, is_negative, now);
        let r = shifted(s.drop_last(), d, is_negative, now);
        match shift_entry(s.last(), d, is_negative, now) {
            Some(e) => {
                assert(keys(r.push(e)) =~= keys(r).push(key_of(e)));
            },
            None => {},
        }
    }
}

proof fn lemma_first_match_keys(s: Seq<PendingEvent>, event_id: ItemId, start_time: u64, i: int)
    ensures
        first_match(s, event_id, start_time, i) <==> first_key_match(keys(s), event_id, start_time, i),
{
    let ks = keys(s);
    if first_match(s, event_id, start_time, i) {
        assert forall|j: int| 0 <= j < i implies !((#[trigger] ks[j]).0 == event_id && ks[j].1 == start_time) by {
            assert(!matches_entry(s[j], event_id, start_time));
        }
    }
    if first_key_match(ks, event_id, start_time, i) {
        assert forall|j: int| 0 <= j < i implies !matches_entry(#[trigger] s[j], event_id, start_time) by {
            assert(!(ks[j].0 == event_id && ks[j].1 == start_time));
        }
    }
}

/// The keys that a shift forward and back by `d` keeps.
pub open spec fn round_trip_kept_keys(ks: Seq<EntryKey>, d: u64, now: u64) -> Seq<EntryKey>
    decreases ks.len(),
{
    if ks.len() == 0 {
        ks
    } else {
        let rest = round_trip_kept_keys(ks.drop_last(), d, now);
        let k = ks.last();
        if now <= k.2 && k.2 + d <= u64::MAX {
            rest.push(k)
        } else {
            rest
        }
    }
}

/// A shift of the keys by `d` later followed by one by `d` earlier, both at
/// `now`, keeps the entries due no earlier than `now` whose shifted time fits,
/// with their fire times restored.
pub proof fn lemma_shift_keys_round_trip(ks: Seq<EntryKey>, d: u64, now: u64)
    ensures
        shifted_keys(shifted_keys(ks, d, false, now), d, true, now) == round_trip_kept_keys(ks, d, now),
    decreases ks.len(),
{
    if ks.len() > 0 {
        let p = ks.drop_last();
        lemma_shift_keys_round_trip(p, d, now);
        let x = shifted_keys(p, d, false, now);
        match shift_key(ks.last(), d, false, now) {
            Some(e) => {
                assert(x.push(e).drop_last() =~= x);
                assert(x.push(e).last() == e);
            },
            None => {},
        }
    }
}

/// Keys in order of fire time.
pub open spec fn fire_sorted(ks: Seq<EntryKey>) -> bool {
    forall|i: int, j: int| 0 <= i < j < ks.len() ==> (#[trigger] ks[i]).2 <= (#[trigger] ks[j]).2
}

/// In keys sorted by fire time, those due by `t` are the first
/// `count_due_keys` ones.
pub proof fn lemma_due_keys(ks: Seq<EntryKey>, t: u64)
    requires
        fire_sorted(ks),
    ensures
        count_due_keys(ks, t) <= ks.len(),
        forall|i: int| 0 <= i < count_due_keys(ks, t) ==> (#[trigger] ks[i]).2 <= t,
        forall|i: int| count_due_keys(ks, t) <= i < ks.len() ==> (#[trigger] ks[i]).2 > t,
    decreases ks.len(),
{
    if ks.len() > 0 {
        let p = ks.drop_last();
        assert forall|i: int, j: int| 0 <= i < j < p.len() implies (#[trigger] p[i]).2 <= (#[trigger] p[j]).2 by {
            assert(p[i] == ks[i] && p[j] == ks[j]);
        }
        lemma_due_keys(p, t);
        assert forall|i: int| 0 <= i < count_due_keys(ks, t) implies (#[trigger] ks[i]).2 <= t by {
            if i < p.len() {
                assert(p[i] == ks[i]);
            }
            if ks.last().2 <= t && i < p.len() {
                assert(ks[i].2 <= ks[ks.len() - 1].2);
            }
        }
        assert forall|i: int| count_due_keys(ks, t) <= i < ks.len() implies (#[trigger] ks[i]).2 > t by {
            if i < p.len() {
                assert(p[i] == ks[i]);
                if ks.last().2 <= t {
                    assert(p[i].2 <= ks[ks.len() - 1].2);
                }
            }
        }
    }
}

/// Scheduling puts the new entry after every pending entry that fires no
/// later than it and before every one that fires later, leaving the others in
/// their order. So of two entries with the same fire time the one scheduled
/// first comes out first.
pub proof fn lemma_schedule_keys_after_equal_times(ks: Seq<EntryKey>, id: ItemId, start: u64, fire: u64)
    requires
        fire_sorted(ks),
    ensures
        count_due_keys(ks, fire) <= ks.len(),
        fire_sorted(schedule_keys(ks, id, start, fire)),
        schedule_keys(ks, id, start, fire)[count_due_keys(ks, fire) as int] == (id, start, fire),
        forall|i: int|
            0 <= i < count_due_keys(ks, fire) ==> (#[trigger] ks[i]).2 <= fire && schedule_keys(ks, id, start, fire)[i] == ks[i],
        forall|i: int|
            count_due_keys(ks, fire) <= i < ks.len() ==> (#[trigger] ks[i]).2 > fire && schedule_keys(ks, id, start, fire)[i + 1]
                == ks[i],
{
    lemma_due_keys(ks, fire);
    let k = count_due_keys(ks, fire) as int;
    let r = schedule_keys(ks, id, start, fire);
    assert forall|i: int, j: int| 0 <= i < j < r.len() implies (#[trigger] r[i]).2 <= (#[trigger] r[j]).2 by {
        if j < k {
            assert(r[i] == ks[i] && r[j] == ks[j]);
        } else if j == k {
            if i < k {
                assert(r[i] == ks[i]);
            }
        } else if i == k {
            assert(r[j] == ks[j - 1]);
        } else if i < k {
            assert(r[i] == ks[i] && r[j] == ks[j - 1]);
        } else {
            assert(r[i] == ks[i - 1] && r[j] == ks[j - 1]);
        }
    }
}

/// An entry scheduled at `start` with no delay is among the entries due at
/// any time `now` no earlier than `start`.
pub proof fn lemma_zero_delay_is_due(ks: Seq<EntryKey>, id: ItemId, start: u64, now: u64)
    requires
        fire_sorted(ks),
        start <= now,
    ensures
        count_due_keys(ks, start) < count_due_keys(schedule_keys(ks, id, start, fire_at(start, 0)), now),
        schedule_keys(ks, id, start, fire_at(start, 0))[count_due_keys(ks, start) as int] == (id, start, start),
{
    assert(fire_at(start, 0) == start);
    lemma_schedule_keys_after_equal_times(ks, id, start, start);
    let r = schedule_keys(ks, id, start, start);
    lemma_due_keys(r, now);
    let k = count_due_keys(ks, start) as int;
    assert(r[k].2 == start);
}

/// The queue of pending events.
pub struct EventQueue {
    events: Vec<PendingEvent>,
    next_order: u64,
}

impl View for EventQueue {
    type V = Seq<PendingEvent>;

    closed spec fn view(&self) -> Seq<PendingEvent> {
        self.events@
    }
}

/// The entries that are due by `t` in a sorted sequence all fire no later
/// than `t`, come in increasing order of fire time with ties in order of
/// insertion, and every other entry fires after `t`.
pub proof fn lemma_due_entries_in_order(s: Seq<PendingEvent>, t: u64)
    requires
        sorted(s),
    ensures
        count_due(s, t) <= s.len(),
        forall|i: int| 0 <= i < count_due(s, t) ==> (#[trigger] s[i]).fire_time <= t,
        forall|i: int| count_due(s, t) <= i < s.len() ==> (#[trigger] s[i]).fire_time > t,
        forall|i: int, j: int|
            0 <= i < j < count_due(s, t) ==> precedes(#[trigger] s[i], #[trigger] s[j]),
    decreases s.len(),
{
    if s.len() > 0 {
        let p = s.drop_last();
        assert forall|i: int, j: int| 0 <= i < j < p.len() implies precedes(#[trigger] p[i], #[trigger] p[j]) by {
            assert(p[i] == s[i] && p[j] == s[j]);
        }
        lemma_due_entries_in_order(p, t);
        if s.last().fire_time <= t {
            assert forall|i: int| 0 <= i < p.len() implies (#[trigger] p[i]).fire_time <= t by {
                assert(p[i] == s[i]);
                assert(precedes(s[i], s[s.len() - 1]));
            }
        }
        assert forall|i: int| 0 <= i < count_due(s, t) implies (#[trigger] s[i]).fire_time <= t by {
            if i < p.len() {
                assert(p[i] == s[i]);
            }
        }
        assert forall|i: int| count_due(s, t) <= i < s.len() implies (#[trigger] s[i]).fire_time > t by {
            if i < p.len() {
                assert(p[i] == s[i]);
            }
        }
    }
}

impl EventQueue {
    /// The stamp that the next inserted entry gets, unless the stamps are
    /// renumbered first.
    pub closed spec fn stamp(&self) -> u64 {
        self.next_order
    }

    /// The entries are sorted and every stamp is below the next one.
    pub open spec fn wf(&self) -> bool {
        &&& sorted(self@)
        &&& forall|i: int| 0 <= i < self@.len() ==> (#[trigger] self@[i]).order < self.stamp()
    }

    pub fn new() -> (r: EventQueue)
        ensures
            r.wf(),
            r@ == Seq::<PendingEvent>::empty(),
    {
        EventQueue { events: Vec::new(), next_order: 0 }
    }

    pub fn len(&self) -> (r: usize)
        ensures
            r == self@.len(),
    {
        self.events.len()
    }

    pub fn is_empty(&self) -> (r: bool)
        ensures
            r == (self@.len() == 0),
    {
        self.events.len() == 0
    }

    /// Gives the entries the stamps 0, 1, 2, ... in their present order.
    fn renumber(&mut self)
        requires
            old(self).wf(),
        ensures
            final(self).wf(),
            keys(final(self)@) == keys(old(self)@),
            final(self).stamp() == final(self)@.len(),
    {
        let n = self.events.len();
        let mut i: usize = 0;
        while i < n
            invariant
                0 <= i <= n,
                n == self.events@.len(),
                n == old(self).events@.len(),
                sorted(old(self).events@),
                forall|k: int| 0 <= k < n ==> key_of(#[trigger] self.events@[k]) == key_of(old(self).events@[k]),
                forall|k: int| 0 <= k < i ==> (#[trigger] self.events@[k]).order == k,
            decreases n - i,
        {
            let mut e = self.events[i];
            e.order = i as u64;
            self.events.set(i, e);
            i = i + 1;
        }
        self.next_order = n as u64;
        proof {
            let s = self.events@;
            let o = old(self).events@;
            assert forall|a: int, b: int| 0 <= a < b < s.len() implies precedes(#[trigger] s[a], #[trigger] s[b]) by {
                assert(key_of(s[a]) == key_of(o[a]) && key_of(s[b]) == key_of(o[b]));
                assert(precedes(o[a], o[b]));
            }
            assert(keys(s) =~= keys(o));
        }
    }

    /// Inserts an entry after every entry that fires no later than it, with a
    /// stamp above every other.
    fn insert_entry(&mut self, event_id: ItemId, start_time: u64, fire_time: u64)
        requires
            old(self).wf(),
        ensures
            final(self).wf(),
            count_due(old(self)@, fire_time) <= old(self)@.len(),
            keys(final(self)@) == keys(old(self)@).insert(
                count_due(old(self)@, fire_time) as int,
                (event_id, start_time, fire_time),
            ),
            forall|j: int|
                0 <= j < final(self)@.len() && j != count_due(old(self)@, fire_time) ==> (#[trigger] final(self)@[j]).order
                    < final(self)@[count_due(old(self)@, fire_time) as int].order,
    {
        if self.next_order == u64::MAX {
            self.renumber();
        }
        assert(self.next_order < u64::MAX || self.next_order == self.events@.len());
        let ghost before = self.events@;
        assert(keys(before) == keys(old(self)@));
        proof {
            lemma_due_entries_in_order(before, fire_time);
            lemma_due_entries_in_order(old(self)@, fire_time);
            assert forall|i: int| 0 <= i < before.len() implies (#[trigger] before[i]).fire_time == old(self)@[i].fire_time by {
                assert(keys(before)[i] == keys(old(self)@)[i]);
            }
            assert(count_due(before, fire_time) == count_due(old(self)@, fire_time)) by {
                let a = count_due(before, fire_time) as int;
                let b = count_due(old(self)@, fire_time) as int;
                if a < b {
                    assert(before[a].fire_time > fire_time);
                    assert(old(self)@[a].fire_time <= fire_time);
                } else if b < a {
                    assert(before[b].fire_time <= fire_time);
                    assert(old(self)@[b].fire_time > fire_time);
                }
            }
        }
        let n = self.events.len();
        let mut k: usize = 0;
        while k < n && self.events[k].fire_time <= fire_time
            invariant
                0 <= k <= n,
                n == self.events@.len(),
                self.events@ == before,
                forall|i: int| 0 <= i < k ==> (#[trigger] before[i]).fire_time <= fire_time,
            decreases n - k,
        {
            k = k + 1;
        }
        let ghost c = count_due(before, fire_time);
        assert(k == c) by {
            if k < c {
                assert(before[k as int].fire_time <= fire_time);
            } else if c < k {
                assert(before[c as int].fire_time <= fire_time);
            }
        }
        let order = self.next_order;
        let e = PendingEvent { event_id, start_time, fire_time, order };
        self.events.insert(k, e);
        let m = self.events.len();
        assert(m == n + 1);
        self.next_order = order + 1;
        proof {
            let s = self.events@;
            assert(s == before.insert(k as int, e));
            assert forall|a: int, b: int| 0 <= a < b < s.len() implies precedes(#[trigger] s[a], #[trigger] s[b]) by {
                if b < k {
                    assert(s[a] == before[a] && s[b] == before[b]);
                } else if b == k {
                    assert(s[a] == before[a]);
                } else if a == k {
                    assert(s[b] == before[b - 1]);
                } else if a < k {
                    assert(s[a] == before[a] && s[b] == before[b - 1]);
                } else {
                    assert(s[a] == before[a - 1] && s[b] == before[b - 1]);
                }
            }
            assert forall|i: int| 0 <= i < s.len() implies (#[trigger] s[i]).order < self.next_order by {
                if i < k {
                    assert(s[i] == before[i]);
                } else if i > k {
                    assert(s[i] == before[i - 1]);
                }
            }
            assert forall|j: int| 0 <= j < s.len() && j != k implies (#[trigger] s[j]).order < s[k as int].order by {
                if j < k {
                    assert(s[j] == before[j]);
                } else {
                    assert(s[j] == before[j - 1]);
                }
            }
            assert(keys(s) =~= keys(before).insert(k as int, (event_id, start_time, fire_time)));
        }
    }

    /// Schedules `event_id` to fire `delay` milliseconds after `now`.
    pub fn schedule(&mut self, event_id: ItemId, delay: u64, now: u64) -> (r: ComingEvent)
        requires
            old(self).wf(),
        ensures
            final(self).wf(),
            r == (ComingEvent { event_id, start_time: now, fire_time: fire_at(now, delay) }),
            count_due(old(self)@, fire_at(now, delay)) <= old(self)@.len(),
            keys(final(self)@) == keys(old(self)@).insert(
                count_due(old(self)@, fire_at(now, delay)) as int,
                (event_id, now, fire_at(now, delay)),
            ),
            forall|j: int|
                0 <= j < final(self)@.len() && j != count_due(old(self)@, fire_at(now, delay)) ==> (#[trigger] final(self)@[j]).order
                    < final(self)@[count_due(old(self)@, fire_at(now, delay)) as int].order,
            keys(final(self)@) == schedule_keys(keys(old(self)@), event_id, now, fire_at(now, delay)),
    {
        proof {
            lemma_count_due_keys(old(self)@, fire_at(now, delay));
        }
        let fire_time = match now.checked_add(delay) {
            Some(t) => t,
            None => u64::MAX,
        };
        self.insert_entry(event_id, now, fire_time);
        ComingEvent { event_id, start_time: now, fire_time }
    }

    /// Empties the queue.
    pub fn clear(&mut self)
        requires
            old(self).wf(),
        ensures
            final(self).wf(),
            final(self)@ == Seq::<PendingEvent>::empty(),
    {
        self.events = Vec::new();
    }

    /// Removes and returns, in the order in which they come out, the entries
    /// that fire no later than `now`.
    pub fn pop_ready(&mut self, now: u64) -> (r: Vec<ItemId>)
        requires
            old(self).wf(),
        ensures
            final(self).wf(),
            count_due(old(self)@, now) <= old(self)@.len(),
            r@ == ids_of(old(self)@.take(count_due(old(self)@, now) as int)),
            final(self)@ == old(self)@.skip(count_due(old(self)@, now) as int),
            count_due_keys(keys(old(self)@), now) <= old(self)@.len(),
            r@ == keys(old(self)@).take(count_due_keys(keys(old(self)@), now) as int).map_values(|k: EntryKey| k.0),
            keys(final(self)@) == keys(old(self)@).skip(count_due_keys(keys(old(self)@), now) as int),
            forall|i: int| 0 <= i < count_due_keys(keys(old(self)@), now) ==> (#[trigger] keys(old(self)@)[i]).2 <= now,
            forall|i: int| count_due_keys(keys(old(self)@), now) <= i < old(self)@.len() ==> (#[trigger] keys(old(self)@)[i]).2 > now,
    {
        proof {
            lemma_count_due_keys(old(self)@, now);
        }
        let ghost s = self.events@;
        proof {
            lemma_due_entries_in_order(s, now);
            assert forall|i: int| 0 <= i < count_due(s, now) implies (#[trigger] keys(s)[i]).2 <= now by {
                assert(keys(s)[i] == key_of(s[i]));
            }
            assert forall|i: int| count_due(s, now) <= i < s.len() implies (#[trigger] keys(s)[i]).2 > now by {
                assert(keys(s)[i] == key_of(s[i]));
            }
        }
        let n = self.events.len();
        let mut ready: Vec<ItemId> = Vec::new();
        let mut k: usize = 0;
        while k < n && self.events[k].fire_time <= now
            invariant
                0 <= k <= n,
                n == s.len(),
                self.events@ == s,
                self.wf(),
                ready@ == ids_of(s.take(k as int)),
                forall|i: int| 0 <= i < k ==> (#[trigger] s[i]).fire_time <= now,
            decreases n - k,
        {
            ready.push(self.events[k].event_id);
            k = k + 1;
            assert(ids_of(s.take(k as int)) =~= ids_of(s.take(k - 1)).push(s[k - 1].event_id));
        }
        assert(k == count_due(s, now)) by {
            let c = count_due(s, now);
            if k < c {
                assert(s[k as int].fire_time <= now);
            } else if c < k {
                assert(s[c as int].fire_time <= now);
            }
        }
        let mut rest: Vec<PendingEvent> = Vec::new();
        let mut i: usize = k;
        while i < n
            invariant
                k <= i <= n,
                n == s.len(),
                self.events@ == s,
                rest@ == s.subrange(k as int, i as int),
            decreases n - i,
        {
            rest.push(self.events[i]);
            i = i + 1;
            assert(s.subrange(k as int, i as int) =~= s.subrange(k as int, i - 1).push(s[i - 1]));
        }
        self.events = rest;
        proof {
            assert(ids_of(s.take(k as int)) =~= keys(s).take(k as int).map_values(|k: EntryKey| k.0));
            assert(keys(s.skip(k as int)) =~= keys(s).skip(k as int));
            assert(self.events@ =~= s.skip(k as int));
            let t = self.events@;
            assert forall|a: int, b: int| 0 <= a < b < t.len() implies precedes(#[trigger] t[a], #[trigger] t[b]) by {
                assert(t[a] == s[a + k] && t[b] == s[b + k]);
            }
            assert forall|a: int| 0 <= a < t.len() implies (#[trigger] t[a]).order < self.next_order by {
                assert(t[a] == s[a + k]);
            }
        }
        ready
    }

    /// A snapshot of the pending entries, soonest first.
    pub fn peek_upcoming(&self) -> (r: Vec<ComingEvent>)
        ensures
            r@ == self@.map_values(|e: PendingEvent| coming_of(e)),
    {
        let mut r: Vec<ComingEvent> = Vec::new();
        let mut i: usize = 0;
        while i < self.events.len()
            invariant
                0 <= i <= self.events@.len(),
                r@ == self.events@.take(i as int).map_values(|e: PendingEvent| coming_of(e)),
            decreases self.events@.len() - i,
        {
            let e = self.events[i];
            r.push(ComingEvent { event_id: e.event_id, start_time: e.start_time, fire_time: e.fire_time });
            i = i + 1;
            assert(self.events@.take(i as int).map_values(|e: PendingEvent| coming_of(e)) =~= self.events@.take(
                i - 1,
            ).map_values(|e: PendingEvent| coming_of(e)).push(coming_of(e)));
        }
        assert(self.events@.take(i as int) =~= self.events@);
        r
    }

    /// Moves every entry by `adjustment`, later or (when `is_negative`)
    /// earlier, and drops the entries whose new fire time is before `now`.
    pub fn shift_all(&mut self, adjustment: u64, is_negative: bool, now: u64)
        requires
            old(self).wf(),
        ensures
            final(self).wf(),
            final(self)@ == shifted(old(self)@, adjustment, is_negative, now),
            keys(final(self)@) == shifted_keys(keys(old(self)@), adjustment, is_negative, now),
    {
        proof {
            lemma_shifted_keys(old(self)@, adjustment, is_negative, now);
        }
        let ghost s = self.events@;
        let n = self.events.len();
        let mut kept: Vec<PendingEvent> = Vec::new();
        let ghost mut origin: Seq<int> = Seq::empty();
        let mut i: usize = 0;
        while i < n
            invariant
                0 <= i <= n,
                n == s.len(),
                self.events@ == s,
                self.wf(),
                kept@ == shifted(s.take(i as int), adjustment, is_negative, now),
                origin.len() == kept@.len(),
                forall|k: int| 0 <= k < origin.len() ==> 0 <= #[trigger] origin[k] < i,
                forall|a: int, b: int| 0 <= a < b < origin.len() ==> #[trigger] origin[a] < #[trigger] origin[b],
                forall|k: int|
                    0 <= k < origin.len() ==> shift_entry(s[#[trigger] origin[k]], adjustment, is_negative, now)
                        == Some(kept@[k]),
            decreases n - i,
        {
            let e = self.events[i];
            assert(s.take(i + 1).drop_last() =~= s.take(i as int));
            assert(s.take(i + 1).last() == e);
            let moved: Option<u64> = if is_negative {
                if e.fire_time >= adjustment && e.fire_time - adjustment >= now {
                    Some(e.fire_time - adjustment)
                } else {
                    None
                }
            } else {
                match e.fire_time.checked_add(adjustment) {
                    Some(t) => if t >= now {
                        Some(t)
                    } else {
                        None
                    },
                    None => None,
                }
            };
            if let Some(t) = moved {
                let m = PendingEvent { fire_time: t, ..e };
                kept.push(m);
                proof {
                    origin = origin.push(i as int);
                }
            }
            i = i + 1;
        }
        assert(s.take(n as int) =~= s);
        self.events = kept;
        proof {
            let t = self.events@;
            assert forall|a: int, b: int| 0 <= a < b < t.len() implies precedes(#[trigger] t[a], #[trigger] t[b]) by {
                let x = origin[a];
                let y = origin[b];
                assert(origin[a] < origin[b]);
                assert(precedes(s[x], s[y]));
                assert(shift_entry(s[x], adjustment, is_negative, now) == Some(t[a]));
                assert(shift_entry(s[y], adjustment, is_negative, now) == Some(t[b]));
            }
            assert forall|a: int| 0 <= a < t.len() implies (#[trigger] t[a]).order < self.next_order by {
                assert(shift_entry(s[origin[a]], adjustment, is_negative, now) == Some(t[a]));
            }
        }
    }

    /// Moves the first entry of `event_id` scheduled at `start_time` to fire
    /// `new_delay` after that start, or cancels it where `new_delay` is `None`.
    pub fn reschedule(&mut self, event_id: ItemId, start_time: u64, new_delay: Option<u64>) -> (r: Result<(), QueueError>)
        requires
            old(self).wf(),
        ensures
            final(self).wf(),
            r is Err <==> !has_match(old(self)@, event_id, start_time),
            r is Err ==> r == Err::<(), QueueError>(QueueError::NotFound) && final(self)@ == old(self)@,
            r is Ok ==> exists|i: int|
                first_match(old(self)@, event_id, start_time, i) && match new_delay {
                    None => final(self)@ == old(self)@.remove(i),
                    Some(d) => {
                        let rest = old(self)@.remove(i);
                        let f = fire_at(start_time, d);
                        &&& count_due(rest, f) <= rest.len()
                        &&& keys(final(self)@) == keys(rest).insert(count_due(rest, f) as int, (event_id, start_time, f))
                    },
                },
            r is Err <==> rescheduled_keys(keys(old(self)@), event_id, start_time, new_delay) is None,
            r is Ok ==> rescheduled_keys(keys(old(self)@), event_id, start_time, new_delay) == Some(keys(final(self)@)),
    {
        let n = self.events.len();
        let mut i: usize = 0;
        while i < n && !(self.events[i].event_id == event_id && self.events[i].start_time == start_time)
            invariant
                0 <= i <= n,
                n == self.events@.len(),
                self.events@ == old(self).events@,
                forall|j: int| 0 <= j < i ==> !matches_entry(#[trigger] self.events@[j], event_id, start_time),
            decreases n - i,
        {
            i = i + 1;
        }
        if i == n {
            proof {
                if exists|j: int| first_key_match(keys(old(self)@), event_id, start_time, j) {
                    let j = choose|j: int| first_key_match(keys(old(self)@), event_id, start_time, j);
                    lemma_first_match_keys(old(self)@, event_id, start_time, j);
                }
            }
            return Err(QueueError::NotFound);
        }
        assert(first_match(old(self)@, event_id, start_time, i as int));
        proof {
            lemma_first_match_keys(old(self)@, event_id, start_time, i as int);
            let c = choose|j: int| first_key_match(keys(old(self)@), event_id, start_time, j);
            lemma_first_match_keys(old(self)@, event_id, start_time, c);
            assert(c == i);
            assert(keys(old(self)@.remove(i as int)) =~= keys(old(self)@).remove(i as int));
            lemma_count_due_keys(old(self)@.remove(i as int), fire_at(start_time, new_delay.unwrap_or(0)));
        }
        let ghost s = self.events@;
        self.events.remove(i);
        proof {
            let t = self.events@;
            assert(t == s.remove(i as int));
            assert forall|a: int, b: int| 0 <= a < b < t.len() implies precedes(#[trigger] t[a], #[trigger] t[b]) by {
                if b < i {
                    assert(t[a] == s[a] && t[b] == s[b]);
                } else if a < i {
                    assert(t[a] == s[a] && t[b] == s[b + 1]);
                } else {
                    assert(t[a] == s[a + 1] && t[b] == s[b + 1]);
                }
            }
            assert forall|a: int| 0 <= a < t.len() implies (#[trigger] t[a]).order < self.next_order by {
                if a < i {
                    assert(t[a] == s[a]);
                } else {
                    assert(t[a] == s[a + 1]);
                }
            }
        }
        match new_delay {
            None => {},
            Some(d) => {
                let fire_time = match start_time.checked_add(d) {
                    Some(t) => t,
                    None => u64::MAX,
                };
                self.insert_entry(event_id, start_time, fire_time);
            },
        }
        Ok(())
    }
}

/// Of two entries with the same fire time in a sorted queue, the one
/// inserted first (the smaller stamp) stands first and so comes out first.
pub proof fn lemma_equal_times_in_insertion_order(s: Seq<PendingEvent>, i: int, j: int)
    requires
        sorted(s),
        0 <= i < s.len(),
        0 <= j < s.len(),
        s[i].fire_time == s[j].fire_time,
        s[i].order < s[j].order,
    ensures
        i < j,
{
    if j < i {
        assert(precedes(s[j], s[i]));
    }
}

/// A shift by `d` later followed by a shift by `d` earlier, both at `now`,
/// restores the fire time of every entry that neither shift dropped: the
/// entries that survive are those due no earlier than `now` whose shifted
/// time fits.
pub proof fn lemma_shift_round_trip(s: Seq<PendingEvent>, d: u64, now: u64)
    ensures
        shifted(shifted(s, d, false, now), d, true, now) == round_trip_kept(s, d, now),
    decreases s.len(),
{
    if s.len() > 0 {
        let p = s.drop_last();
        lemma_shift_round_trip(p, d, now);
        let x = shifted(p, d, false, now);
        match shift_entry(s.last(), d, false, now) {
            Some(e) => {
                assert(x.push(e).drop_last() =~= x);
                assert(x.push(e).last() == e);
                let back = shift_entry(e, d, true, now);
                if now <= s.last().fire_time {
                    assert(back == Some(s.last()));
                } else {
                    assert(back is None);
                }
            },
            None => {},
        }
    }
}

} // verus!
