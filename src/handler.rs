//! The dispatcher: the registry of items, their event details, the scenes,
//! the statuses and the queue, and the execution of an event's actions.
use vstd::prelude::*;
use crate::item::{ItemId, ItemDescription, ItemPair, unknown_text, DisplayType};
use crate::queue::{EventQueue, EntryKey, ComingEvent, QueueError, keys, schedule_keys, fire_at, shifted_keys, rescheduled_keys, count_due_keys};
use crate::status::{StatusMap, StatusModel, StatusError, Status, transition, has_status, last_valid};
use crate::table::{Table, lookup};

verus! {

/// An event to trigger, after a delay in milliseconds or at once.
#[derive(Clone, Copy, Debug, PartialEq, Eq, Structural)]
pub struct EventDelay {
    pub delay: Option<u64>,
    pub event_id: ItemId,
}

/// One step of an event detail.
#[derive(Clone, Copy, Debug, PartialEq, Eq, Structural)]
pub enum EventAction {
    /// Triggers another event, at once or after a delay.
    CueEvent { event: EventDelay },
    /// Broadcasts the event to the network with an optional payload.
    SendData { data: Option<u32> },
    /// Moves a status to a new state.
    ModifyStatus { status_id: ItemId, new_state: ItemId },
    /// Makes another scene current.
    NewScene { new_scene: ItemId },
    /// Asks the user for a string, sent back as events of this event.
    GetUserString,
}

/// The ordered actions of an event.
pub type EventDetail = Vec<EventAction>;

/// Why a dispatch did nothing.
#[derive(Clone, Copy, Debug, PartialEq, Eq, Structural)]
pub enum SkipReason {
    /// The event is not legal in the current scene.
    NotInScene,
    /// The event has no detail.
    NoDetail,
}

#[derive(Clone, Copy, Debug, PartialEq, Eq, Structural)]
pub enum Outcome {
    Fired,
    Skipped(SkipReason),
}

/// What one action, or the dispatch itself, asks of the world outside the
/// dispatcher.
#[derive(Clone, Copy, Debug, PartialEq, Eq, Structural)]
pub enum Effect {
    /// Dispatch this event next, after the messages already waiting.
    Trigger { event_id: ItemId },
    /// An entry was added to the queue.
    Scheduled { event: ComingEvent },
    /// Send this event to the network.
    Broadcast { event_id: ItemId, data: Option<u32> },
    /// A status took a new state.
    StatusChanged { status_id: ItemId, new_state: ItemId },
    /// A status change was refused; the status is unchanged.
    StatusRefused { status_id: ItemId, new_state: ItemId, error: StatusError },
    /// The current scene changed.
    SceneChanged { scene: ItemId },
    /// Ask the user for a string for this event.
    UserString { event_id: ItemId },
}

/// The result of a dispatch: whether it fired, and the effects in order.
pub struct Dispatch {
    pub outcome: Outcome,
    pub effects: Vec<Effect>,
}

/// The dispatcher's state as the contracts see it.
pub ghost struct HandlerModel {
    pub items: Seq<(ItemId, ItemDescription)>,
    pub details: Seq<(ItemId, EventDetail)>,
    pub scenes: Seq<(ItemId, Vec<ItemId>)>,
    pub current_scene: ItemId,
    pub statuses: Seq<StatusModel>,
    pub queue: Seq<EntryKey>,
}

/// Whether `id` may be triggered in the current scene.
pub open spec fn in_scene(m: HandlerModel, id: ItemId) -> bool {
    match lookup(m.scenes, m.current_scene) {
        Some(events) => events@.contains(id),
        None => false,
    }
}

/// The actions of `id`, if it has a detail.
pub open spec fn detail_of(m: HandlerModel, id: ItemId) -> Option<Seq<EventAction>> {
    match lookup(m.details, id) {
        Some(d) => Some(d@),
        None => None,
    }
}

/// The description of `id`, or the text of an unknown item.
pub open spec fn description_text(m: HandlerModel, id: ItemId) -> Seq<char> {
    match lookup(m.items, id) {
        Some(d) => d.description@,
        None => unknown_text(),
    }
}

/// The display of `id`; an unknown item is hidden.
pub open spec fn display_of(m: HandlerModel, id: ItemId) -> DisplayType {
    match lookup(m.items, id) {
        Some(d) => d.display,
        None => DisplayType::Hidden,
    }
}

/// `id` with its description, as the dispatcher pairs them.
pub open spec fn pair_view(m: HandlerModel, id: ItemId) -> crate::item::PairView {
    (id, description_text(m, id), display_of(m, id))
}

/// One action of event `event_id` at time `now`: the new state and its effect.
pub open spec fn apply_action(m: HandlerModel, a: EventAction, event_id: ItemId, now: u64) -> (HandlerModel, Effect) {
    match a {
        EventAction::CueEvent { event } => match event.delay {
            None => (m, Effect::Trigger { event_id: event.event_id }),
            Some(d) => (
                HandlerModel { queue: schedule_keys(m.queue, event.event_id, now, fire_at(now, d)), ..m },
                Effect::Scheduled {
                    event: ComingEvent { event_id: event.event_id, start_time: now, fire_time: fire_at(now, d) },
                },
            ),
        },
        EventAction::SendData { data } => (m, Effect::Broadcast { event_id, data }),
        EventAction::ModifyStatus { status_id, new_state } => match transition(m.statuses, status_id, new_state) {
            Some(v) => (HandlerModel { statuses: v, ..m }, Effect::StatusChanged { status_id, new_state }),
            None => (
                m,
                Effect::StatusRefused {
                    status_id,
                    new_state,
                    error: if has_status(m.statuses, status_id) {
                        StatusError::InvalidTransition
                    } else {
                        StatusError::UnknownStatus
                    },
                },
            ),
        },
        EventAction::NewScene { new_scene } => (
            HandlerModel { current_scene: new_scene, ..m },
            Effect::SceneChanged { scene: new_scene },
        ),
        EventAction::GetUserString => (m, Effect::UserString { event_id }),
    }
}

/// The actions run in order, each on the state the one before left.
pub open spec fn apply_actions(m: HandlerModel, acts: Seq<EventAction>, event_id: ItemId, now: u64) -> (HandlerModel, Seq<Effect>)
    decreases acts.len(),
{
    if acts.len() == 0 {
        (m, Seq::empty())
    } else {
        let (m1, effs) = apply_actions(m, acts.drop_last(), event_id, now);
        let (m2, e) = apply_action(m1, acts.last(), event_id, now);
        (m2, effs.push(e))
    }
}

/// A dispatch of `id`: the new state, the outcome and the effects.
pub open spec fn process_spec(m: HandlerModel, id: ItemId, check_scene: bool, broadcast: bool, now: u64) -> (HandlerModel, Outcome, Seq<Effect>) {
    if check_scene && !in_scene(m, id) {
        (m, Outcome::Skipped(SkipReason::NotInScene), Seq::empty())
    } else {
        match detail_of(m, id) {
            None => (m, Outcome::Skipped(SkipReason::NoDetail), Seq::empty()),
            Some(acts) => {
                let (m1, effs) = apply_actions(m, acts, id, now);
                (
                    m1,
                    Outcome::Fired,
                    if broadcast {
                        effs.push(Effect::Broadcast { event_id: id, data: None })
                    } else {
                        effs
                    },
                )
            },
        }
    }
}

/// Copies a list of identifiers.
pub fn copy_ids(v: &Vec<ItemId>) -> (r: Vec<ItemId>)
    ensures
        r@ == v@,
{
    let mut r: Vec<ItemId> = Vec::new();
    let mut i: usize = 0;
    while i < v.len()
        invariant
            0 <= i <= v@.len(),
            r@ == v@.take(i as int),
        decreases v@.len() - i,
    {
        r.push(v[i]);
        i = i + 1;
        assert(r@ =~= v@.take(i as int));
    }
    assert(v@.take(i as int) =~= v@);
    r
}

/// Copies an event detail.
pub fn copy_detail(v: &EventDetail) -> (r: EventDetail)
    ensures
        r@ == v@,
{
    let mut r: Vec<EventAction> = Vec::new();
    let mut i: usize = 0;
    while i < v.len()
        invariant
            0 <= i <= v@.len(),
            r@ == v@.take(i as int),
        decreases v@.len() - i,
    {
        r.push(v[i]);
        i = i + 1;
        assert(r@ =~= v@.take(i as int));
    }
    assert(v@.take(i as int) =~= v@);
    r
}

/// An entry of the timeline with the description of its event.
#[derive(Clone, Debug, PartialEq, Eq)]
pub struct UpcomingEvent {
    pub event: ItemPair,
    pub start_time: u64,
    pub fire_time: u64,
}

/// A configuration as it is loaded and saved.
#[derive(Clone, Debug, PartialEq, Eq)]
pub struct Config {
    pub items: Vec<(ItemId, ItemDescription)>,
    pub details: Vec<(ItemId, EventDetail)>,
    pub scenes: Vec<(ItemId, Vec<ItemId>)>,
    pub statuses: Vec<Status>,
    pub current_scene: ItemId,
}

/// What holds of every dispatcher's state: status identifiers are unique,
/// every status is in one of its allowed states, and the queue is in order of
/// fire time.
pub open spec fn model_ok(m: HandlerModel) -> bool {
    &&& crate::status::unique_ids(m.statuses)
    &&& crate::status::all_admitted(m.statuses)
    &&& forall|i: int, j: int| 0 <= i < j < m.queue.len() ==> (#[trigger] m.queue[i]).2 <= (#[trigger] m.queue[j]).2
}

/// The dispatcher and everything it owns.
pub struct EventHandler {
    items: Table<ItemDescription>,
    details: Table<EventDetail>,
    scenes: Table<Vec<ItemId>>,
    current_scene: ItemId,
    statuses: StatusMap,
    queue: EventQueue,
}

impl View for EventHandler {
    type V = HandlerModel;

    closed spec fn view(&self) -> HandlerModel {
        HandlerModel {
            items: self.items@,
            details: self.details@,
            scenes: self.scenes@,
            current_scene: self.current_scene,
            statuses: self.statuses@,
            queue: keys(self.queue@),
        }
    }
}

impl EventHandler {
    pub closed spec fn wf(&self) -> bool {
        &&& self.items.wf()
        &&& self.details.wf()
        &&& self.scenes.wf()
        &&& self.statuses.wf()
        &&& self.queue.wf()
    }

    /// A well-formed dispatcher has unique status identifiers and a queue in
    /// order of fire time.
    pub proof fn lemma_model_ok(&self)
        requires
            self.wf(),
        ensures
            model_ok(self@),
    {
        let q = self.queue@;
        assert forall|i: int, j: int| 0 <= i < j < self@.queue.len() implies (#[trigger] self@.queue[i]).2 <= (
        #[trigger] self@.queue[j]).2 by {
            assert(crate::queue::precedes(q[i], q[j]));
            assert(self@.queue[i] == crate::queue::key_of(q[i]) && self@.queue[j] == crate::queue::key_of(q[j]));
        }
    }

    /// Whether `id` may be triggered in the current scene.
    pub fn is_in_scene(&self, id: ItemId) -> (r: bool)
        requires
            self.wf(),
        ensures
            r == in_scene(self@, id),
    {
        match self.scenes.get(self.current_scene) {
            Some(events) => {
                let mut i: usize = 0;
                while i < events.len()
                    invariant
                        0 <= i <= events@.len(),
                        lookup(self@.scenes, self@.current_scene) == Some(*events),
                        forall|j: int| 0 <= j < i ==> events@[j] != id,
                    decreases events@.len() - i,
                {
                    if events[i] == id {
                        assert(events@[i as int] == id);
                        assert(events@.contains(id));
                        return true;
                    }
                    i = i + 1;
                }
                false
            },
            None => false,
        }
    }

    /// Runs one action of event `event_id`.
    fn apply(&mut self, a: EventAction, event_id: ItemId, now: u64) -> (r: Effect)
        requires
            old(self).wf(),
        ensures
            final(self).wf(),
            (final(self)@, r) == apply_action(old(self)@, a, event_id, now),
    {
        match a {
            EventAction::CueEvent { event } => match event.delay {
                None => Effect::Trigger { event_id: event.event_id },
                Some(d) => {
                    let entry = self.queue.schedule(event.event_id, d, now);
                    Effect::Scheduled { event: entry }
                },
            },
            EventAction::SendData { data } => Effect::Broadcast { event_id, data },
            EventAction::ModifyStatus { status_id, new_state } => match self.statuses.set_state(status_id, new_state) {
                Ok(_) => Effect::StatusChanged { status_id, new_state },
                Err(error) => Effect::StatusRefused { status_id, new_state, error },
            },
            EventAction::NewScene { new_scene } => {
                self.current_scene = new_scene;
                Effect::SceneChanged { scene: new_scene }
            },
            EventAction::GetUserString => Effect::UserString { event_id },
        }
    }

    /// Dispatches event `id`: checks the scene when asked, runs every action
    /// of its detail in order (a refused action does not stop the rest), and
    /// adds a broadcast of the event when asked.
    pub fn process_event(&mut self, id: ItemId, check_scene: bool, broadcast: bool, now: u64) -> (r: Dispatch)
        requires
            old(self).wf(),
        ensures
            final(self).wf(),
            (final(self)@, r.outcome, r.effects@) == process_spec(old(self)@, id, check_scene, broadcast, now),
    {
        if check_scene && !self.is_in_scene(id) {
            return Dispatch { outcome: Outcome::Skipped(SkipReason::NotInScene), effects: Vec::new() };
        }
        let detail = match self.details.get(id) {
            None => {
                return Dispatch { outcome: Outcome::Skipped(SkipReason::NoDetail), effects: Vec::new() };
            },
            Some(d) => copy_detail(d),
        };
        let ghost m0 = self@;
        let mut effects: Vec<Effect> = Vec::new();
        let mut i: usize = 0;
        while i < detail.len()
            invariant
                self.wf(),
                0 <= i <= detail@.len(),
                detail_of(m0, id) == Some(detail@),
                (self@, effects@) == apply_actions(m0, detail@.take(i as int), id, now),
            decreases detail@.len() - i,
        {
            let a = detail[i];
            assert(detail@.take(i + 1).drop_last() =~= detail@.take(i as int));
            let e = self.apply(a, id, now);
            effects.push(e);
            i = i + 1;
        }
        assert(detail@.take(i as int) =~= detail@);
        if broadcast {
            effects.push(Effect::Broadcast { event_id: id, data: None });
        }
        Dispatch { outcome: Outcome::Fired, effects }
    }

    /// A dispatcher for a configuration, with an empty queue. A later entry
    /// for an identifier replaces an earlier one; a status whose current state
    /// is not among its allowed states is left out.
    pub fn new(config: Config) -> (r: EventHandler)
        ensures
            r.wf(),
            forall|id: ItemId| lookup(r@.items, id) == crate::table::last_for(config.items@, id),
            forall|id: ItemId| lookup(r@.details, id) == crate::table::last_for(config.details@, id),
            forall|id: ItemId| lookup(r@.scenes, id) == crate::table::last_for(config.scenes@, id),
            forall|id: ItemId| has_status(r@.statuses, id) <==> last_valid(config.statuses@.map_values(|s: Status| s@), id) is Some,
            forall|id: ItemId, i: int|
                #[trigger] crate::status::is_entry(r@.statuses, id, i) ==> last_valid(config.statuses@.map_values(|s: Status| s@), id)
                    == Some(r@.statuses[i]),
            r@.current_scene == config.current_scene,
            r@.queue == Seq::<EntryKey>::empty(),
    {
        let Config { items, details, scenes, statuses, current_scene } = config;
        let h = EventHandler {
            items: Table::from_entries(items),
            details: Table::from_entries(details),
            scenes: Table::from_entries(scenes),
            current_scene,
            statuses: StatusMap::from_list(statuses),
            queue: EventQueue::new(),
        };
        assert(keys(h.queue@) =~= Seq::<EntryKey>::empty());
        h
    }

    /// The description of `id`, or that of an unknown item.
    pub fn get_description(&self, id: ItemId) -> (r: ItemDescription)
        requires
            self.wf(),
        ensures
            r.description@ == description_text(self@, id),
            lookup(self@.items, id) matches Some(d) ==> r == d,
            lookup(self@.items, id) is None ==> r.display == DisplayType::Hidden,
    {
        match self.items.get(id) {
            Some(d) => d.duplicate(),
            None => ItemDescription::unknown(),
        }
    }

    /// `id` with its description.
    pub fn get_pair(&self, id: ItemId) -> (r: ItemPair)
        requires
            self.wf(),
        ensures
            r@ == pair_view(self@, id),
    {
        ItemPair::from_item(id, self.get_description(id))
    }

    /// The detail of `id`, if it has one.
    pub fn get_detail(&self, id: ItemId) -> (r: Option<EventDetail>)
        requires
            self.wf(),
        ensures
            r is None <==> detail_of(self@, id) is None,
            r matches Some(d) ==> detail_of(self@, id) == Some(d@),
    {
        match self.details.get(id) {
            Some(d) => Some(copy_detail(d)),
            None => None,
        }
    }

    /// Inserts or replaces the description and the detail of an item.
    pub fn edit_event(&mut self, pair: &ItemPair, detail: &EventDetail)
        requires
            old(self).wf(),
        ensures
            final(self).wf(),
            lookup(final(self)@.items, pair.id) == Some(ItemDescription { description: pair.description, display: pair.display }),
            detail_of(final(self)@, pair.id) == Some(detail@),
            forall|k: ItemId| k != pair.id ==> lookup(final(self)@.items, k) == lookup(old(self)@.items, k),
            forall|k: ItemId| k != pair.id ==> lookup(final(self)@.details, k) == lookup(old(self)@.details, k),
            final(self)@.scenes == old(self)@.scenes,
            final(self)@.current_scene == old(self)@.current_scene,
            final(self)@.statuses == old(self)@.statuses,
            final(self)@.queue == old(self)@.queue,
    {
        self.items.insert(pair.id, pair.get_description());
        self.details.insert(pair.id, copy_detail(detail));
    }

    /// Removes an item and its detail. The queue is left as it is: a pending
    /// entry of the item later fires into a dispatch with no detail.
    pub fn delete_event(&mut self, id: ItemId)
        requires
            old(self).wf(),
        ensures
            final(self).wf(),
            lookup(final(self)@.items, id) is None,
            detail_of(final(self)@, id) is None,
            forall|k: ItemId| k != id ==> lookup(final(self)@.items, k) == lookup(old(self)@.items, k),
            forall|k: ItemId| k != id ==> lookup(final(self)@.details, k) == lookup(old(self)@.details, k),
            final(self)@.scenes == old(self)@.scenes,
            final(self)@.current_scene == old(self)@.current_scene,
            final(self)@.statuses == old(self)@.statuses,
            final(self)@.queue == old(self)@.queue,
    {
        self.items.remove(id);
        self.details.remove(id);
    }

    /// Makes `scene` current; the queue is left as it is.
    pub fn choose_scene(&mut self, scene: ItemId)
        requires
            old(self).wf(),
        ensures
            final(self).wf(),
            final(self)@ == (HandlerModel { current_scene: scene, ..old(self)@ }),
    {
        self.current_scene = scene;
    }

    /// Moves status `status_id` to `state`, if the status admits it.
    pub fn modify_status(&mut self, status_id: ItemId, state: ItemId) -> (r: Result<ItemId, StatusError>)
        requires
            old(self).wf(),
        ensures
            final(self).wf(),
            match transition(old(self)@.statuses, status_id, state) {
                Some(v) => r == Ok::<ItemId, StatusError>(state) && final(self)@ == (HandlerModel { statuses: v, ..old(self)@ }),
                None => final(self)@ == old(self)@ && r == Err::<ItemId, StatusError>(
                    if has_status(old(self)@.statuses, status_id) {
                        StatusError::InvalidTransition
                    } else {
                        StatusError::UnknownStatus
                    },
                ),
            },
    {
        self.statuses.set_state(status_id, state)
    }

    /// The current state of status `status_id`.
    pub fn get_state(&self, status_id: ItemId) -> (r: Option<ItemId>)
        requires
            self.wf(),
        ensures
            r is None <==> !has_status(self@.statuses, status_id),
            forall|i: int| #[trigger] crate::status::is_entry(self@.statuses, status_id, i) ==> r == Some(self@.statuses[i].1),
    {
        self.statuses.get_state(status_id)
    }

    /// Schedules `event_id` to fire `delay` milliseconds after `now`.
    pub fn add_event(&mut self, event_id: ItemId, delay: u64, now: u64) -> (r: ComingEvent)
        requires
            old(self).wf(),
        ensures
            final(self).wf(),
            r == (ComingEvent { event_id, start_time: now, fire_time: fire_at(now, delay) }),
            final(self)@ == (HandlerModel { queue: schedule_keys(old(self)@.queue, event_id, now, fire_at(now, delay)), ..old(self)@ }),
    {
        self.queue.schedule(event_id, delay, now)
    }

    /// Shifts every pending entry; entries that land before `now` are dropped.
    pub fn adjust_all_events(&mut self, adjustment: u64, is_negative: bool, now: u64)
        requires
            old(self).wf(),
        ensures
            final(self).wf(),
            final(self)@ == (HandlerModel { queue: shifted_keys(old(self)@.queue, adjustment, is_negative, now), ..old(self)@ }),
    {
        self.queue.shift_all(adjustment, is_negative, now);
    }

    /// Moves or cancels one pending entry.
    pub fn adjust_event(&mut self, event_id: ItemId, start_time: u64, new_delay: Option<u64>) -> (r: Result<(), QueueError>)
        requires
            old(self).wf(),
        ensures
            final(self).wf(),
            match rescheduled_keys(old(self)@.queue, event_id, start_time, new_delay) {
                Some(q) => r is Ok && final(self)@ == (HandlerModel { queue: q, ..old(self)@ }),
                None => r == Err::<(), QueueError>(QueueError::NotFound) && final(self)@ == old(self)@,
            },
    {
        let r = self.queue.reschedule(event_id, start_time, new_delay);
        r
    }

    /// Empties the queue.
    pub fn clear_events(&mut self)
        requires
            old(self).wf(),
        ensures
            final(self).wf(),
            final(self)@ == (HandlerModel { queue: Seq::empty(), ..old(self)@ }),
    {
        self.queue.clear();
        assert(keys(self.queue@) =~= Seq::<EntryKey>::empty());
    }

    /// Removes and returns, in firing order, the events due by `now`.
    pub fn fire_ready(&mut self, now: u64) -> (r: Vec<ItemId>)
        requires
            old(self).wf(),
        ensures
            final(self).wf(),
            count_due_keys(old(self)@.queue, now) <= old(self)@.queue.len(),
            r@ == old(self)@.queue.take(count_due_keys(old(self)@.queue, now) as int).map_values(|k: EntryKey| k.0),
            final(self)@ == (HandlerModel { queue: old(self)@.queue.skip(count_due_keys(old(self)@.queue, now) as int), ..old(self)@ }),
            forall|i: int| 0 <= i < count_due_keys(old(self)@.queue, now) ==> (#[trigger] old(self)@.queue[i]).2 <= now,
            forall|i: int| count_due_keys(old(self)@.queue, now) <= i < old(self)@.queue.len() ==> (#[trigger] old(self)@.queue[i]).2 > now,
    {
        self.queue.pop_ready(now)
    }

    /// The number of pending entries.
    pub fn queue_len(&self) -> (r: usize)
        ensures
            r == self@.queue.len(),
    {
        self.queue.len()
    }

    /// The pending entries, soonest first, with the descriptions of their events.
    pub fn upcoming_events(&self) -> (r: Vec<UpcomingEvent>)
        requires
            self.wf(),
        ensures
            r@.len() == self@.queue.len(),
            forall|i: int|
                0 <= i < r@.len() ==> (#[trigger] r@[i]).event@ == pair_view(self@, self@.queue[i].0) && r@[i].start_time == self@.queue[i].1
                    && r@[i].fire_time == self@.queue[i].2,
    {
        let coming = self.queue.peek_upcoming();
        let mut r: Vec<UpcomingEvent> = Vec::new();
        let mut i: usize = 0;
        while i < coming.len()
            invariant
                self.wf(),
                0 <= i <= coming@.len(),
                coming@.len() == self@.queue.len(),
                forall|j: int|
                    0 <= j < coming@.len() ==> (#[trigger] coming@[j]).event_id == self@.queue[j].0 && coming@[j].start_time
                        == self@.queue[j].1 && coming@[j].fire_time == self@.queue[j].2,
                r@.len() == i,
                forall|j: int|
                    0 <= j < i ==> (#[trigger] r@[j]).event@ == pair_view(self@, self@.queue[j].0) && r@[j].start_time == self@.queue[j].1
                        && r@[j].fire_time == self@.queue[j].2,
            decreases coming@.len() - i,
        {
            let c = coming[i];
            r.push(UpcomingEvent { event: self.get_pair(c.event_id), start_time: c.start_time, fire_time: c.fire_time });
            i = i + 1;
        }
        r
    }

    /// The current scene with its description.
    pub fn get_current_scene(&self) -> (r: ItemPair)
        requires
            self.wf(),
        ensures
            r@ == pair_view(self@, self@.current_scene),
    {
        self.get_pair(self.current_scene)
    }

    /// Every scene with its description, in table order.
    pub fn get_scenes(&self) -> (r: Vec<ItemPair>)
        requires
            self.wf(),
        ensures
            r@.len() == self@.scenes.len(),
            forall|i: int|
                0 <= i < r@.len() ==> (#[trigger] r@[i])@ == pair_view(self@, self@.scenes[i].0),
    {
        let ids = self.scenes.ids();
        self.pairs_of(&ids)
    }

    /// The events legal in the current scene, with their descriptions.
    pub fn get_items(&self) -> (r: Vec<ItemPair>)
        requires
            self.wf(),
        ensures
            lookup(self@.scenes, self@.current_scene) matches Some(events) ==> r@.len() == events@.len() && forall|i: int|
                0 <= i < r@.len() ==> (#[trigger] r@[i])@ == pair_view(self@, events@[i]),
            lookup(self@.scenes, self@.current_scene) is None ==> r@.len() == 0,
    {
        match self.scenes.get(self.current_scene) {
            Some(events) => self.pairs_of(events),
            None => Vec::new(),
        }
    }

    /// Each identifier with its description.
    pub fn pairs_of(&self, ids: &Vec<ItemId>) -> (r: Vec<ItemPair>)
        requires
            self.wf(),
        ensures
            r@.len() == ids@.len(),
            forall|i: int|
                0 <= i < r@.len() ==> (#[trigger] r@[i])@ == pair_view(self@, ids@[i]),
    {
        let mut r: Vec<ItemPair> = Vec::new();
        let mut i: usize = 0;
        while i < ids.len()
            invariant
                self.wf(),
                0 <= i <= ids@.len(),
                r@.len() == i,
                forall|j: int|
                    0 <= j < i ==> (#[trigger] r@[j])@ == pair_view(self@, ids@[j]),
            decreases ids@.len() - i,
        {
            r.push(self.get_pair(ids[i]));
            i = i + 1;
        }
        r
    }

    /// The current statuses, in table order.
    pub fn get_full_status(&self) -> (r: Vec<Status>)
        requires
            self.wf(),
        ensures
            r@.map_values(|s: Status| s@) == self@.statuses,
    {
        self.statuses.snapshot()
    }

    /// The configuration as it now stands, in the shape it is loaded from.
    pub fn export_config(&self) -> (r: Config)
        requires
            self.wf(),
        ensures
            r.items@ == self@.items,
            r.details@.len() == self@.details.len(),
            forall|i: int| 0 <= i < r.details@.len() ==> (#[trigger] r.details@[i]).0 == self@.details[i].0 && r.details@[i].1@ == self@.details[i].1@,
            r.scenes@.len() == self@.scenes.len(),
            forall|i: int| 0 <= i < r.scenes@.len() ==> (#[trigger] r.scenes@[i]).0 == self@.scenes[i].0 && r.scenes@[i].1@ == self@.scenes[i].1@,
            r.statuses@.map_values(|s: Status| s@) == self@.statuses,
            r.current_scene == self@.current_scene,
    {
        let mut items: Vec<(ItemId, ItemDescription)> = Vec::new();
        let mut i: usize = 0;
        while i < self.items.len()
            invariant
                0 <= i <= self@.items.len(),
                items@ == self@.items.take(i as int),
            decreases self@.items.len() - i,
        {
            let e = self.items.entry(i);
            items.push((e.0, e.1.duplicate()));
            i = i + 1;
            assert(items@ =~= self@.items.take(i as int));
        }
        assert(self@.items.take(i as int) =~= self@.items);
        let mut details: Vec<(ItemId, EventDetail)> = Vec::new();
        let mut i: usize = 0;
        while i < self.details.len()
            invariant
                0 <= i <= self@.details.len(),
                details@.len() == i,
                forall|j: int| 0 <= j < i ==> (#[trigger] details@[j]).0 == self@.details[j].0 && details@[j].1@ == self@.details[j].1@,
            decreases self@.details.len() - i,
        {
            let e = self.details.entry(i);
            details.push((e.0, copy_detail(&e.1)));
            i = i + 1;
        }
        let mut scenes: Vec<(ItemId, Vec<ItemId>)> = Vec::new();
        let mut i: usize = 0;
        while i < self.scenes.len()
            invariant
                0 <= i <= self@.scenes.len(),
                scenes@.len() == i,
                forall|j: int| 0 <= j < i ==> (#[trigger] scenes@[j]).0 == self@.scenes[j].0 && scenes@[j].1@ == self@.scenes[j].1@,
            decreases self@.scenes.len() - i,
        {
            let e = self.scenes.entry(i);
            scenes.push((e.0, copy_ids(&e.1)));
            i = i + 1;
        }
        Config { items, details, scenes, statuses: self.statuses.snapshot(), current_scene: self.current_scene }
    }
}

/// An event whose detail was deleted, for instance by `delete_event` while an
/// entry of it was still pending, dispatches as a no-op: nothing changes, no
/// effect comes out, and the outcome is a skip, for lack of a detail unless
/// the scene check refused it first.
pub proof fn lemma_deleted_event_is_no_op(m: HandlerModel, id: ItemId, check_scene: bool, broadcast: bool, now: u64)
    requires
        detail_of(m, id) is None,
    ensures
        process_spec(m, id, check_scene, broadcast, now).0 == m,
        process_spec(m, id, check_scene, broadcast, now).2 == Seq::<Effect>::empty(),
        !(check_scene && !in_scene(m, id)) ==> process_spec(m, id, check_scene, broadcast, now).1 == Outcome::Skipped(SkipReason::NoDetail),
        check_scene && !in_scene(m, id) ==> process_spec(m, id, check_scene, broadcast, now).1 == Outcome::Skipped(SkipReason::NotInScene),
{
}

} // verus!
