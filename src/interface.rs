//! The actor that owns the dispatcher: it takes one system update at a time,
//! applies it, and says what must go out to the user interface, the network
//! and its own inbound channel.
use vstd::prelude::*;
use crate::item::{ItemId, ItemPair, ItemDescription, DisplayType, PairView};
use crate::handler::{
    EventHandler, HandlerModel, EventDetail, EventAction, EventDelay, Effect, Outcome, Config, UpcomingEvent,
    process_spec, detail_of,
};
use crate::queue::{fire_at, schedule_keys, shifted_keys, rescheduled_keys, EntryKey};
use crate::status::{Status, StatusError, transition, has_status};
use crate::table::{lookup, last_for};
use crate::channel::{receive, channel, clock_start, elapsed_millis, Links, Outbox};
pub use crate::channel::Received;
use std::sync::mpsc::{Sender, Receiver};
use std::time::Instant;

verus! {

/// An edit of the configuration.
#[derive(Clone, Debug, PartialEq, Eq)]
pub enum EditAction {
    /// Removes an event.
    DeleteEvent { event_id: ItemId },
    /// Adds an event or replaces its description and detail.
    ModifyEvent { event_pair: ItemPair, event_detail: EventDetail },
}

/// The kind of information that a display component asks for.
#[derive(Clone, Copy, Debug, PartialEq, Eq, Structural)]
pub enum RequestType {
    Description { item_id: ItemId },
    Detail { item_id: ItemId },
}

/// The display component that asked for information; the reply carries it
/// back.
#[derive(Clone, Copy, Debug, PartialEq, Eq, Structural)]
pub enum DisplayComponent {
    TriggerDialog,
    EditItem,
}

/// An update handed to the actor. Times and delays are in milliseconds.
#[derive(Clone, Debug, PartialEq, Eq)]
pub enum SystemUpdate {
    /// Shifts every pending event; those that land before now are dropped.
    AllEventChange { adjustment: u64, is_negative: bool },
    /// Clears the queue and broadcasts the all-stop item.
    AllStop,
    /// Broadcasts an event without processing it.
    BroadcastEvent { event: ItemPair, data: Option<u32> },
    /// Clears the queue.
    ClearQueue,
    /// Stops the actor.
    Close,
    /// Replaces the configuration, or unloads it.
    ConfigFile { config: Option<Config> },
    /// Switches debug mode.
    DebugMode(bool),
    /// Edits the configuration, in order.
    Edit { actions: Vec<EditAction> },
    /// Moves (or, without a delay, cancels) one pending event; the new delay
    /// counts from the entry's start time.
    EventChange { event_id: ItemId, start_time: u64, new_delay: Option<u64> },
    /// Dispatches an event.
    ProcessEvent { event: ItemId, check_scene: bool, broadcast: bool },
    /// Queues an event; no delay is a delay of zero.
    QueueEvent { event_delay: EventDelay },
    /// Redraws the event window.
    Redraw,
    /// Asks for information about an item.
    Request { reply_to: DisplayComponent, request: RequestType },
    /// Hands the current configuration out to be saved at `filepath`.
    SaveConfig { filepath: String },
    /// Makes another scene current.
    SceneChange { scene: ItemId },
    /// Moves a status to a new state.
    StatusChange { status_id: ItemId, state: ItemId },
}

/// The severity of a log entry.
#[derive(Clone, Copy, Debug, PartialEq, Eq, Structural)]
pub enum LogLevel {
    Error,
    Warning,
    Current,
}

/// An entry for the notification log.
#[derive(Clone, Copy, Debug, PartialEq, Eq, Structural)]
pub enum LogEntry {
    /// The operator triggered an all-stop.
    AllStop,
    /// An edit came while no configuration was loaded.
    EditWithoutConfig,
    /// A dispatch came while no configuration was loaded.
    EventWithoutConfig,
    /// A queued event came while no configuration was loaded.
    QueueWithoutConfig,
    /// A request came while no configuration was loaded.
    RequestWithoutConfig,
    /// Another change came while no configuration was loaded.
    ChangeWithoutConfig,
    /// An event fired.
    EventFired { event_id: ItemId },
    /// A status change was refused.
    StatusRefused { status_id: ItemId, new_state: ItemId, error: StatusError },
    /// A reschedule found no pending entry.
    RescheduleNotFound { event_id: ItemId, start_time: u64 },
}

impl LogEntry {
    pub open spec fn level_spec(&self) -> LogLevel {
        match self {
            LogEntry::AllStop => LogLevel::Error,
            LogEntry::EventWithoutConfig => LogLevel::Error,
            LogEntry::QueueWithoutConfig => LogLevel::Error,
            LogEntry::EditWithoutConfig => LogLevel::Error,
            LogEntry::ChangeWithoutConfig => LogLevel::Error,
            LogEntry::EventFired { .. } => LogLevel::Current,
            _ => LogLevel::Warning,
        }
    }

    pub fn level(&self) -> (r: LogLevel)
        ensures
            r == self.level_spec(),
    {
        match self {
            LogEntry::AllStop => LogLevel::Error,
            LogEntry::EventWithoutConfig => LogLevel::Error,
            LogEntry::QueueWithoutConfig => LogLevel::Error,
            LogEntry::EditWithoutConfig => LogLevel::Error,
            LogEntry::ChangeWithoutConfig => LogLevel::Error,
            LogEntry::EventFired { .. } => LogLevel::Current,
            _ => LogLevel::Warning,
        }
    }
}

/// What the actor asks of the world after one update.
#[derive(Clone, Copy, Debug, PartialEq, Eq, Structural)]
pub enum Action {
    /// Send an event to the network.
    Broadcast { event_id: ItemId, data: Option<u32> },
    /// Put a dispatch of an event on the actor's own channel.
    Dispatch { event_id: ItemId, check_scene: bool, broadcast: bool },
    /// Append an entry to the notification log.
    Log { entry: LogEntry },
    /// Show the description of an event in the status bar.
    Notify { event_id: ItemId },
    /// Show that an all-stop cleared the queue.
    NotifyAllStop,
    /// Show the new state of a status.
    UpdateStatus { status_id: ItemId, new_state: ItemId },
    /// Ask the user for a string for an event.
    PromptString { event_id: ItemId },
    /// Send the timeline of pending events.
    RefreshTimeline,
    /// Send the event window of the current scene.
    RefreshWindow,
    /// Send the scenes and the statuses of a new configuration.
    ConfigLoaded,
    /// Answer a request.
    Reply { reply_to: DisplayComponent, request: RequestType },
}

/// The actor's state as the contracts see it.
pub ghost struct InterfaceModel {
    pub handler: Option<HandlerModel>,
    pub debug: bool,
}

/// What the actor does about one effect of a dispatch.
pub open spec fn action_of_effect(e: Effect) -> Action {
    match e {
        Effect::Trigger { event_id } => Action::Dispatch { event_id, check_scene: true, broadcast: true },
        Effect::Scheduled { .. } => Action::RefreshTimeline,
        Effect::Broadcast { event_id, data } => Action::Broadcast { event_id, data },
        Effect::StatusChanged { status_id, new_state } => Action::UpdateStatus { status_id, new_state },
        Effect::StatusRefused { status_id, new_state, error } => Action::Log {
            entry: LogEntry::StatusRefused { status_id, new_state, error },
        },
        Effect::SceneChanged { .. } => Action::RefreshWindow,
        Effect::UserString { event_id } => Action::PromptString { event_id },
    }
}

pub open spec fn actions_of_effects(effs: Seq<Effect>) -> Seq<Action> {
    effs.map_values(|e: Effect| action_of_effect(e))
}

/// The actions of a dispatch of `id` with the given outcome and effects.
pub open spec fn dispatch_actions(id: ItemId, outcome: Outcome, effs: Seq<Effect>) -> Seq<Action> {
    match outcome {
        Outcome::Fired => seq![Action::Log { entry: LogEntry::EventFired { event_id: id } }] + actions_of_effects(effs)
            + seq![Action::Notify { event_id: id }],
        Outcome::Skipped(_) => Seq::empty(),
    }
}

/// The model with the dispatcher replaced.
pub open spec fn with_handler(m: InterfaceModel, h: HandlerModel) -> InterfaceModel {
    InterfaceModel { handler: Some(h), ..m }
}

/// One update on the model: the next model, whether to go on, and the
/// actions. `None` for the updates whose contract is stated on their own
/// (edits and configuration loads).
pub open spec fn step_spec(m: InterfaceModel, u: SystemUpdate, now: u64) -> Option<(InterfaceModel, bool, Seq<Action>)> {
    match u {
        SystemUpdate::AllEventChange { adjustment, is_negative } => Some(
            match m.handler {
                Some(h) => (
                    with_handler(m, HandlerModel { queue: shifted_keys(h.queue, adjustment, is_negative, now), ..h }),
                    true,
                    seq![Action::RefreshTimeline],
                ),
                None => (m, true, seq![Action::Log { entry: LogEntry::ChangeWithoutConfig }]),
            },
        ),
        SystemUpdate::AllStop => Some(
            match m.handler {
                Some(h) => (
                    with_handler(m, HandlerModel { queue: Seq::empty(), ..h }),
                    true,
                    seq![
                        Action::Broadcast { event_id: ItemId { id: crate::item::ALL_STOP_ID }, data: None },
                        Action::Log { entry: LogEntry::AllStop },
                        Action::NotifyAllStop,
                        Action::RefreshTimeline,
                    ],
                ),
                None => (
                    m,
                    true,
                    seq![
                        Action::Broadcast { event_id: ItemId { id: crate::item::ALL_STOP_ID }, data: None },
                        Action::Log { entry: LogEntry::AllStop },
                        Action::NotifyAllStop,
                    ],
                ),
            },
        ),
        SystemUpdate::BroadcastEvent { event, data } => Some(
            (m, true, seq![Action::Broadcast { event_id: event.id, data }]),
        ),
        SystemUpdate::ClearQueue => Some(
            match m.handler {
                Some(h) => (with_handler(m, HandlerModel { queue: Seq::empty(), ..h }), true, seq![Action::RefreshTimeline]),
                None => (m, true, seq![Action::Log { entry: LogEntry::ChangeWithoutConfig }]),
            },
        ),
        SystemUpdate::Close => Some((m, false, Seq::empty())),
        SystemUpdate::ConfigFile { .. } => None,
        SystemUpdate::DebugMode(mode) => Some((InterfaceModel { debug: mode, ..m }, true, Seq::empty())),
        SystemUpdate::Edit { .. } => None,
        SystemUpdate::EventChange { event_id, start_time, new_delay } => Some(
            match m.handler {
                Some(h) => match rescheduled_keys(h.queue, event_id, start_time, new_delay) {
                    Some(q) => (with_handler(m, HandlerModel { queue: q, ..h }), true, seq![Action::RefreshTimeline]),
                    None => (m, true, seq![Action::Log { entry: LogEntry::RescheduleNotFound { event_id, start_time } }]),
                },
                None => (m, true, seq![Action::Log { entry: LogEntry::ChangeWithoutConfig }]),
            },
        ),
        SystemUpdate::ProcessEvent { event, check_scene, broadcast } => Some(
            match m.handler {
                Some(h) => {
                    let (h1, outcome, effs) = process_spec(h, event, check_scene, broadcast, now);
                    (with_handler(m, h1), true, dispatch_actions(event, outcome, effs))
                },
                None => (m, true, seq![Action::Log { entry: LogEntry::EventWithoutConfig }]),
            },
        ),
        SystemUpdate::QueueEvent { event_delay } => Some(
            match m.handler {
                Some(h) => {
                    let d = match event_delay.delay {
                        Some(d) => d,
                        None => 0,
                    };
                    (
                        with_handler(m, HandlerModel { queue: schedule_keys(h.queue, event_delay.event_id, now, fire_at(now, d)), ..h }),
                        true,
                        seq![Action::RefreshTimeline],
                    )
                },
                None => (m, true, seq![Action::Log { entry: LogEntry::QueueWithoutConfig }]),
            },
        ),
        SystemUpdate::Redraw => Some(
            match m.handler {
                Some(_) => (m, true, seq![Action::RefreshWindow]),
                None => (m, true, Seq::empty()),
            },
        ),
        SystemUpdate::Request { reply_to, request } => Some(
            match m.handler {
                Some(_) => (m, true, seq![Action::Reply { reply_to, request }]),
                None => (m, true, seq![Action::Log { entry: LogEntry::RequestWithoutConfig }]),
            },
        ),
        SystemUpdate::SaveConfig { .. } => Some((m, true, Seq::empty())),
        SystemUpdate::SceneChange { scene } => Some(
            match m.handler {
                Some(h) => (with_handler(m, HandlerModel { current_scene: scene, ..h }), true, seq![Action::RefreshWindow]),
                None => (m, true, seq![Action::Log { entry: LogEntry::ChangeWithoutConfig }]),
            },
        ),
        SystemUpdate::StatusChange { status_id, state } => Some(
            match m.handler {
                Some(h) => match transition(h.statuses, status_id, state) {
                    Some(v) => (
                        with_handler(m, HandlerModel { statuses: v, ..h }),
                        true,
                        seq![Action::UpdateStatus { status_id, new_state: state }],
                    ),
                    None => (
                        m,
                        true,
                        seq![
                            Action::Log {
                                entry: LogEntry::StatusRefused {
                                    status_id,
                                    new_state: state,
                                    error: if has_status(h.statuses, status_id) {
                                        StatusError::InvalidTransition
                                    } else {
                                        StatusError::UnknownStatus
                                    },
                                },
                            },
                        ],
                    ),
                },
                None => (m, true, seq![Action::Log { entry: LogEntry::ChangeWithoutConfig }]),
            },
        ),
    }
}

/// The description that an item has after a list of edits, given the one it
/// had before.
pub open spec fn edited_description(prior: Option<ItemDescription>, edits: Seq<EditAction>, id: ItemId) -> Option<ItemDescription>
    decreases edits.len(),
{
    if edits.len() == 0 {
        prior
    } else {
        match edits.last() {
            EditAction::DeleteEvent { event_id } => if event_id == id {
                None
            } else {
                edited_description(prior, edits.drop_last(), id)
            },
            EditAction::ModifyEvent { event_pair, .. } => if event_pair.id == id {
                Some(ItemDescription { description: event_pair.description, display: event_pair.display })
            } else {
                edited_description(prior, edits.drop_last(), id)
            },
        }
    }
}

/// The actions that an item has after a list of edits, given those it had
/// before.
pub open spec fn edited_detail(prior: Option<Seq<EventAction>>, edits: Seq<EditAction>, id: ItemId) -> Option<Seq<EventAction>>
    decreases edits.len(),
{
    if edits.len() == 0 {
        prior
    } else {
        match edits.last() {
            EditAction::DeleteEvent { event_id } => if event_id == id {
                None
            } else {
                edited_detail(prior, edits.drop_last(), id)
            },
            EditAction::ModifyEvent { event_pair, event_detail } => if event_pair.id == id {
                Some(event_detail@)
            } else {
                edited_detail(prior, edits.drop_last(), id)
            },
        }
    }
}

/// `h1` is `h0` after the edits: descriptions and details as the edits leave
/// them, the rest untouched.
pub open spec fn edited(h0: HandlerModel, edits: Seq<EditAction>, h1: HandlerModel) -> bool {
    &&& forall|id: ItemId| #[trigger] lookup(h1.items, id) == edited_description(lookup(h0.items, id), edits, id)
    &&& forall|id: ItemId| #[trigger] detail_of(h1, id) == edited_detail(detail_of(h0, id), edits, id)
    &&& h1.scenes == h0.scenes
    &&& h1.current_scene == h0.current_scene
    &&& h1.statuses == h0.statuses
    &&& h1.queue == h0.queue
}

/// `h` is a freshly loaded configuration.
pub open spec fn loaded(c: Config, h: HandlerModel) -> bool {
    &&& forall|id: ItemId| #[trigger] lookup(h.items, id) == last_for(c.items@, id)
    &&& forall|id: ItemId| #[trigger] lookup(h.details, id) == last_for(c.details@, id)
    &&& forall|id: ItemId| #[trigger] lookup(h.scenes, id) == last_for(c.scenes@, id)
    &&& forall|id: ItemId| has_status(h.statuses, id) <==> crate::status::last_valid(c.statuses@.map_values(|s: Status| s@), id) is Some
    &&& forall|id: ItemId, i: int|
        #[trigger] crate::status::is_entry(h.statuses, id, i) ==> crate::status::last_valid(c.statuses@.map_values(|s: Status| s@), id)
            == Some(h.statuses[i])
    &&& h.current_scene == c.current_scene
    &&& h.queue == Seq::<EntryKey>::empty()
}

/// `c` holds what `h` holds, in table order.
pub open spec fn exported(h: HandlerModel, c: Config) -> bool {
    &&& c.items@ == h.items
    &&& c.details@.len() == h.details.len()
    &&& forall|i: int| 0 <= i < c.details@.len() ==> (#[trigger] c.details@[i]).0 == h.details[i].0 && c.details@[i].1@ == h.details[i].1@
    &&& c.scenes@.len() == h.scenes.len()
    &&& forall|i: int| 0 <= i < c.scenes@.len() ==> (#[trigger] c.scenes@[i]).0 == h.scenes[i].0 && c.scenes@[i].1@ == h.scenes[i].1@
    &&& c.statuses@.map_values(|s: Status| s@) == h.statuses
    &&& c.current_scene == h.current_scene
}

/// What one update does to the model and whether the actor goes on.
pub open spec fn step_holds(m0: InterfaceModel, u: SystemUpdate, now: u64, m1: InterfaceModel, go_on: bool) -> bool {
    match step_spec(m0, u, now) {
        Some(s) => m1 == s.0 && go_on == s.1,
        None => match u {
            SystemUpdate::Edit { actions } => go_on && m1.debug == m0.debug && match m0.handler {
                Some(h0) => (m1.handler matches Some(h1) && edited(h0, actions@, h1)),
                None => m1 == m0,
            },
            SystemUpdate::ConfigFile { config } => go_on && m1.debug == m0.debug && match config {
                Some(c) => (m1.handler matches Some(h1) && loaded(c, h1)),
                None => m1.handler is None,
            },
            _ => false,
        },
    }
}

/// The actions that one update asks for.
pub open spec fn update_actions(m0: InterfaceModel, u: SystemUpdate, now: u64) -> Seq<Action> {
    match step_spec(m0, u, now) {
        Some(s) => s.2,
        None => match u {
            SystemUpdate::Edit { .. } => if m0.handler is Some {
                Seq::empty()
            } else {
                seq![Action::Log { entry: LogEntry::EditWithoutConfig }]
            },
            SystemUpdate::ConfigFile { config } => if config is Some {
                seq![Action::ConfigLoaded, Action::RefreshWindow]
            } else {
                Seq::empty()
            },
            _ => Seq::empty(),
        },
    }
}

/// The state of the actor, apart from its channels.
pub struct SystemCore {
    event_handler: Option<EventHandler>,
    is_debug_mode: bool,
}

impl View for SystemCore {
    type V = InterfaceModel;

    closed spec fn view(&self) -> InterfaceModel {
        InterfaceModel {
            handler: match self.event_handler {
                Some(h) => Some(h@),
                None => None,
            },
            debug: self.is_debug_mode,
        }
    }
}

impl SystemCore {
    pub closed spec fn wf(&self) -> bool {
        self.event_handler matches Some(h) ==> h.wf()
    }

    /// The loaded dispatcher, if any, has unique status identifiers and a
    /// queue in order of fire time.
    pub proof fn lemma_model_ok(&self)
        requires
            self.wf(),
        ensures
            self@.handler matches Some(h) ==> crate::handler::model_ok(h),
    {
        if let Some(h) = &self.event_handler {
            h.lemma_model_ok();
        }
    }

    /// An actor with no configuration, out of debug mode.
    pub fn new() -> (r: SystemCore)
        ensures
            r.wf(),
            r@ == (InterfaceModel { handler: None, debug: false }),
    {
        SystemCore { event_handler: None, is_debug_mode: false }
    }

    pub fn is_debug_mode(&self) -> (r: bool)
        ensures
            r == self@.debug,
    {
        self.is_debug_mode
    }

    /// The dispatcher, if a configuration is loaded.
    pub fn handler(&self) -> (r: Option<&EventHandler>)
        requires
            self.wf(),
        ensures
            r is None <==> self@.handler is None,
            r matches Some(h) ==> h.wf() && self@.handler == Some(h@),
    {
        match &self.event_handler {
            Some(h) => Some(h),
            None => None,
        }
    }

    /// Applies one update at time `now`: returns whether the actor goes on and
    /// what it must send.
    pub fn unpack_system_update(&mut self, update: SystemUpdate, now: u64) -> (r: (bool, Vec<Action>))
        requires
            old(self).wf(),
        ensures
            final(self).wf(),
            step_spec(old(self)@, update, now) matches Some(s) ==> final(self)@ == s.0 && r.0 == s.1 && r.1@ == s.2,
            update matches SystemUpdate::Edit { actions } ==> r.0 && final(self)@.debug == old(self)@.debug && match old(self)@.handler {
                Some(h0) => r.1@ == Seq::<Action>::empty() && (final(self)@.handler matches Some(h1) && edited(h0, actions@, h1)),
                None => r.1@ == seq![Action::Log { entry: LogEntry::EditWithoutConfig }] && final(self)@ == old(self)@,
            },
            update matches SystemUpdate::ConfigFile { config } ==> r.0 && final(self)@.debug == old(self)@.debug && match config {
                Some(c) => r.1@ == seq![Action::ConfigLoaded, Action::RefreshWindow] && (final(self)@.handler matches Some(h1) && loaded(c, h1)),
                None => r.1@ == Seq::<Action>::empty() && final(self)@.handler is None,
            },
            step_holds(old(self)@, update, now, final(self)@, r.0),
            r.1@ == update_actions(old(self)@, update, now),
    {
        let mut actions: Vec<Action> = Vec::new();
        match update {
            SystemUpdate::AllEventChange { adjustment, is_negative } => {
                if let Some(h) = &mut self.event_handler {
                    h.adjust_all_events(adjustment, is_negative, now);
                    actions.push(Action::RefreshTimeline);
                } else {
                    actions.push(Action::Log { entry: LogEntry::ChangeWithoutConfig });
                }
            },
            SystemUpdate::AllStop => {
                actions.push(Action::Broadcast { event_id: ItemId::all_stop(), data: None });
                actions.push(Action::Log { entry: LogEntry::AllStop });
                actions.push(Action::NotifyAllStop);
                if let Some(h) = &mut self.event_handler {
                    h.clear_events();
                    actions.push(Action::RefreshTimeline);
                }
            },
            SystemUpdate::BroadcastEvent { event, data } => {
                actions.push(Action::Broadcast { event_id: event.id, data });
            },
            SystemUpdate::ClearQueue => {
                if let Some(h) = &mut self.event_handler {
                    h.clear_events();
                    actions.push(Action::RefreshTimeline);
                } else {
                    actions.push(Action::Log { entry: LogEntry::ChangeWithoutConfig });
                }
            },
            SystemUpdate::Close => {
                return (false, actions);
            },
            SystemUpdate::ConfigFile { config } => {
                self.event_handler = None;
                if let Some(c) = config {
                    self.event_handler = Some(EventHandler::new(c));
                    actions.push(Action::ConfigLoaded);
                    actions.push(Action::RefreshWindow);
                }
            },
            SystemUpdate::DebugMode(mode) => {
                self.is_debug_mode = mode;
            },
            SystemUpdate::Edit { actions: edits } => {
                if let Some(h) = &mut self.event_handler {
                    let ghost h0 = h@;
                    let mut i: usize = 0;
                    while i < edits.len()
                        invariant
                            h.wf(),
                            0 <= i <= edits@.len(),
                            edited(h0, edits@.take(i as int), h@),
                        decreases edits@.len() - i,
                    {
                        let ghost before = h@;
                        assert(edits@.take(i + 1).drop_last() =~= edits@.take(i as int));
                        match &edits[i] {
                            EditAction::DeleteEvent { event_id } => {
                                h.delete_event(*event_id);
                            },
                            EditAction::ModifyEvent { event_pair, event_detail } => {
                                h.edit_event(event_pair, event_detail);
                            },
                        }
                        i = i + 1;
                        assert(edits@.take(i as int).last() == edits@[i - 1]);
                        assert forall|id: ItemId| #[trigger] lookup(h@.items, id) == edited_description(lookup(h0.items, id), edits@.take(i as int), id) by {
                            assert(lookup(before.items, id) == edited_description(lookup(h0.items, id), edits@.take(i - 1), id));
                        }
                        assert forall|id: ItemId| #[trigger] detail_of(h@, id) == edited_detail(detail_of(h0, id), edits@.take(i as int), id) by {
                            assert(detail_of(before, id) == edited_detail(detail_of(h0, id), edits@.take(i - 1), id));
                        }
                    }
                    assert(edits@.take(i as int) =~= edits@);
                } else {
                    actions.push(Action::Log { entry: LogEntry::EditWithoutConfig });
                }
            },
            SystemUpdate::EventChange { event_id, start_time, new_delay } => {
                if let Some(h) = &mut self.event_handler {
                    match h.adjust_event(event_id, start_time, new_delay) {
                        Ok(()) => actions.push(Action::RefreshTimeline),
                        Err(_) => actions.push(Action::Log { entry: LogEntry::RescheduleNotFound { event_id, start_time } }),
                    }
                } else {
                    actions.push(Action::Log { entry: LogEntry::ChangeWithoutConfig });
                }
            },
            SystemUpdate::ProcessEvent { event, check_scene, broadcast } => {
                if let Some(h) = &mut self.event_handler {
                    let dispatch = h.process_event(event, check_scene, broadcast, now);
                    if let Outcome::Fired = dispatch.outcome {
                        actions.push(Action::Log { entry: LogEntry::EventFired { event_id: event } });
                        let effects = dispatch.effects;
                        let mut i: usize = 0;
                        while i < effects.len()
                            invariant
                                0 <= i <= effects@.len(),
                                actions@ == seq![Action::Log { entry: LogEntry::EventFired { event_id: event } }]
                                    + actions_of_effects(effects@.take(i as int)),
                            decreases effects@.len() - i,
                        {
                            actions.push(action_for(effects[i]));
                            i = i + 1;
                            assert(actions_of_effects(effects@.take(i as int)) =~= actions_of_effects(effects@.take(i - 1)).push(
                                action_of_effect(effects@[i - 1]),
                            ));
                        }
                        assert(effects@.take(i as int) =~= effects@);
                        actions.push(Action::Notify { event_id: event });
                    }
                } else {
                    actions.push(Action::Log { entry: LogEntry::EventWithoutConfig });
                }
            },
            SystemUpdate::QueueEvent { event_delay } => {
                if let Some(h) = &mut self.event_handler {
                    let d = match event_delay.delay {
                        Some(d) => d,
                        None => 0,
                    };
                    h.add_event(event_delay.event_id, d, now);
                    actions.push(Action::RefreshTimeline);
                } else {
                    actions.push(Action::Log { entry: LogEntry::QueueWithoutConfig });
                }
            },
            SystemUpdate::Redraw => {
                if self.event_handler.is_some() {
                    actions.push(Action::RefreshWindow);
                }
            },
            SystemUpdate::Request { reply_to, request } => {
                if self.event_handler.is_some() {
                    actions.push(Action::Reply { reply_to, request });
                } else {
                    actions.push(Action::Log { entry: LogEntry::RequestWithoutConfig });
                }
            },
            SystemUpdate::SaveConfig { .. } => {},
            SystemUpdate::SceneChange { scene } => {
                if let Some(h) = &mut self.event_handler {
                    h.choose_scene(scene);
                    actions.push(Action::RefreshWindow);
                } else {
                    actions.push(Action::Log { entry: LogEntry::ChangeWithoutConfig });
                }
            },
            SystemUpdate::StatusChange { status_id, state } => {
                if let Some(h) = &mut self.event_handler {
                    match h.modify_status(status_id, state) {
                        Ok(_) => actions.push(Action::UpdateStatus { status_id, new_state: state }),
                        Err(error) => actions.push(
                            Action::Log { entry: LogEntry::StatusRefused { status_id, new_state: state, error } },
                        ),
                    }
                } else {
                    actions.push(Action::Log { entry: LogEntry::ChangeWithoutConfig });
                }
            },
        }
        (true, actions)
    }
}

/// What the actor does about one effect of a dispatch.
pub fn action_for(e: Effect) -> (r: Action)
    ensures
        r == action_of_effect(e),
{
    match e {
        Effect::Trigger { event_id } => Action::Dispatch { event_id, check_scene: true, broadcast: true },
        Effect::Scheduled { .. } => Action::RefreshTimeline,
        Effect::Broadcast { event_id, data } => Action::Broadcast { event_id, data },
        Effect::StatusChanged { status_id, new_state } => Action::UpdateStatus { status_id, new_state },
        Effect::StatusRefused { status_id, new_state, error } => Action::Log {
            entry: LogEntry::StatusRefused { status_id, new_state, error },
        },
        Effect::SceneChanged { .. } => Action::RefreshWindow,
        Effect::UserString { event_id } => Action::PromptString { event_id },
    }
}

/// A group of event buttons: a named group, or the general group.
#[derive(Clone, Debug, PartialEq, Eq)]
pub struct EventGroup {
    pub group_id: Option<ItemPair>,
    pub group_events: Vec<ItemPair>,
}

/// The groups that fill the event window.
pub type EventWindow = Vec<EventGroup>;

/// A group as the contracts see it: the view of its pair and its events.
pub type GroupModel = (Option<PairView>, Seq<ItemPair>);

pub open spec fn group_view(g: EventGroup) -> GroupModel {
    (
        match g.group_id {
            Some(p) => Some(p@),
            None => None,
        },
        g.group_events@,
    )
}

pub open spec fn window_view(w: Seq<EventGroup>) -> Seq<GroupModel> {
    w.map_values(|g: EventGroup| group_view(g))
}

/// Where an item goes in the window: nowhere, the general group (`Some(None)`)
/// or the group of an item.
pub open spec fn placement(d: DisplayType, debug: bool) -> Option<Option<ItemId>> {
    match d {
        DisplayType::DisplayControl => Some(None),
        DisplayType::DisplayWith { group_id } => Some(Some(group_id)),
        DisplayType::DisplayDebug { group } => if debug {
            Some(group)
        } else {
            None
        },
        _ => None,
    }
}

/// Whether group `i` is the first whose pair is `g`.
pub open spec fn first_group(w: Seq<GroupModel>, g: PairView, i: int) -> bool {
    &&& 0 <= i < w.len()
    &&& w[i].0 == Some(g)
    &&& forall|j: int| 0 <= j < i ==> (#[trigger] w[j]).0 != Some(g)
}

/// The groups after `item` joins the first group whose pair is `g`, which is
/// made at the end if there is none.
pub open spec fn add_to_group(w: Seq<GroupModel>, g: PairView, item: ItemPair) -> Seq<GroupModel> {
    if exists|i: int| #[trigger] first_group(w, g, i) {
        let i = choose|i: int| #[trigger] first_group(w, g, i);
        w.update(i, (w[i].0, w[i].1.push(item)))
    } else {
        w.push((Some(g), seq![item]))
    }
}

/// The named groups that `items` fill, in order of first appearance; each
/// group's pair is its item with the description the dispatcher holds.
pub open spec fn grouped(items: Seq<ItemPair>, debug: bool, h: HandlerModel) -> Seq<GroupModel>
    decreases items.len(),
{
    if items.len() == 0 {
        Seq::empty()
    } else {
        let w = grouped(items.drop_last(), debug, h);
        match placement(items.last().display, debug) {
            Some(Some(g)) => add_to_group(w, crate::handler::pair_view(h, g), items.last()),
            _ => w,
        }
    }
}

/// The items of the general group, in order.
pub open spec fn general_items(items: Seq<ItemPair>, debug: bool) -> Seq<ItemPair>
    decreases items.len(),
{
    if items.len() == 0 {
        Seq::empty()
    } else {
        let rest = general_items(items.drop_last(), debug);
        if placement(items.last().display, debug) == Some(None::<ItemId>) {
            rest.push(items.last())
        } else {
            rest
        }
    }
}

/// The items shown as status labels, in order.
pub open spec fn label_items(items: Seq<ItemPair>) -> Seq<ItemPair>
    decreases items.len(),
{
    if items.len() == 0 {
        Seq::empty()
    } else {
        let rest = label_items(items.drop_last());
        if items.last().display == DisplayType::LabelControl {
            rest.push(items.last())
        } else {
            rest
        }
    }
}

/// The window that `sort_items` makes of `items`: the named groups, then the
/// general group.
pub open spec fn window_of(items: Seq<ItemPair>, debug: bool, h: HandlerModel) -> Seq<GroupModel> {
    grouped(items, debug, h).push((None, general_items(items, debug)))
}

/// Adds `event` to the first group whose pair is `event_group`, or makes that
/// group at the end.
pub fn sort_groups(groups: &mut Vec<EventGroup>, event_group: ItemPair, event: ItemPair)
    ensures
        window_view(final(groups)@) == add_to_group(window_view(old(groups)@), event_group@, event),
{
    let ghost w = window_view(groups@);
    let ghost g = event_group@;
    let n = groups.len();
    let mut i: usize = 0;
    while i < n
        invariant
            0 <= i <= n,
            n == groups@.len(),
            groups@ == old(groups)@,
            w == window_view(groups@),
            g == event_group@,
            forall|j: int| 0 <= j < i ==> (#[trigger] w[j]).0 != Some(g),
        decreases n - i,
    {
        let found = match &groups[i].group_id {
            Some(p) => p.same_pair(&event_group),
            None => false,
        };
        if found {
            assert(first_group(w, g, i as int));
            let mut group = groups.remove(i);
            group.group_events.push(event);
            groups.insert(i, group);
            proof {
                let c = choose|c: int| #[trigger] first_group(w, g, c);
                if c < i {
                    assert(w[c].0 != Some(g));
                } else if i < c {
                    assert(w[i as int].0 != Some(g));
                }
                assert(window_view(groups@) =~= w.update(i as int, (w[i as int].0, w[i as int].1.push(event))));
            }
            return;
        }
        i = i + 1;
    }
    let ghost item = event;
    let mut events: Vec<ItemPair> = Vec::new();
    events.push(event);
    groups.push(EventGroup { group_id: Some(event_group), group_events: events });
    proof {
        assert(!exists|c: int| #[trigger] first_group(w, g, c));
        assert(events@ =~= seq![item]);
        assert(window_view(groups@) =~= w.push((Some(g), seq![item])));
    }
}

/// Sorts the items of the current scene into the event window and the list of
/// status labels: items shown with a group go to that group, whose pair is the
/// group's item with its description, control items (and, in debug mode,
/// debug items without a group) to the general group at the end,
/// label-control items to the labels, and the rest nowhere.
pub fn sort_items(items: Vec<ItemPair>, event_handler: &EventHandler, is_debug_mode: bool) -> (r: (EventWindow, Vec<ItemPair>))
    requires
        event_handler.wf(),
    ensures
        window_view(r.0@) == window_of(items@, is_debug_mode, event_handler@),
        r.1@ == label_items(items@),
{
    let ghost all = items@;
    let ghost h = event_handler@;
    let mut groups: Vec<EventGroup> = Vec::new();
    let mut general_group: Vec<ItemPair> = Vec::new();
    let mut statuses: Vec<ItemPair> = Vec::new();
    let n = items.len();
    let mut rest = items;
    let mut i: usize = 0;
    while rest.len() > 0
        invariant
            event_handler.wf(),
            h == event_handler@,
            n == all.len(),
            rest@.len() + i == n,
            rest@ == all.skip(i as int),
            window_view(groups@) == grouped(all.take(i as int), is_debug_mode, h),
            general_group@ == general_items(all.take(i as int), is_debug_mode),
            statuses@ == label_items(all.take(i as int)),
        decreases rest@.len(),
    {
        let item = rest.remove(0);
        assert(item == all[i as int]);
        i = i + 1;
        assert(all.take(i as int).drop_last() =~= all.take(i - 1));
        assert(all.take(i as int).last() == item);
        assert(rest@ =~= all.skip(i as int));
        match item.display {
            DisplayType::DisplayControl => {
                general_group.push(item);
            },
            DisplayType::DisplayWith { group_id } => {
                let group_pair = event_handler.get_pair(group_id);
                sort_groups(&mut groups, group_pair, item);
            },
            DisplayType::DisplayDebug { group } => {
                if is_debug_mode {
                    match group {
                        Some(g) => {
                            let group_pair = event_handler.get_pair(g);
                            sort_groups(&mut groups, group_pair, item);
                        },
                        None => {
                            general_group.push(item);
                        },
                    }
                }
            },
            DisplayType::LabelControl => {
                statuses.push(item);
            },
            _ => {},
        }
    }
    assert(all.take(i as int) =~= all);
    let ghost w = groups@;
    let ghost gen = general_group@;
    groups.push(EventGroup { group_id: None, group_events: general_group });
    assert(window_view(groups@) =~= window_view(w).push((None, gen)));
    (groups, statuses)
}

/// The milliseconds that the actor waits for a message before it looks at
/// the queue again.
pub const POLLING_RATE: u64 = 1;

/// A special window of the user interface.
#[derive(Clone, Debug, PartialEq, Eq)]
pub enum WindowType {
    Status(Option<ItemPair>),
    Jump(Option<ItemPair>),
    Trigger(Option<ItemPair>),
    Shortcuts,
    /// Asks the user for a string, sent as events of the given item.
    PromptString(ItemPair),
}

/// A display setting of the user interface.
#[derive(Clone, Copy, Debug, PartialEq, Eq, Structural)]
pub enum DisplaySetting {
    FullScreen(bool),
    DebugMode(bool),
    LargeFont(bool),
    HighContrast(bool),
}

/// The answer to a request.
#[derive(Clone, Debug, PartialEq, Eq)]
pub enum ReplyType {
    Description { description: ItemDescription },
    Detail { event_detail: Option<EventDetail> },
}

/// An entry of the notification log.
#[derive(Clone, Debug, PartialEq, Eq)]
pub struct Notification {
    pub level: LogLevel,
    pub message: String,
}

/// An update for the user interface.
#[derive(Clone, Debug, PartialEq, Eq)]
pub enum InterfaceUpdate {
    ChangeSettings { display_setting: DisplaySetting },
    EditMode(bool),
    LaunchWindow { window_type: WindowType },
    /// A message for the status bar.
    Notify { message: String },
    Reply { reply_to: DisplayComponent, reply: ReplyType },
    /// The scenes and statuses of a new configuration.
    UpdateConfig { scenes: Vec<ItemPair>, full_status: Vec<Status> },
    /// The event window of the current scene and its status labels.
    UpdateWindow { current_scene: ItemPair, statuses: Vec<ItemPair>, window: EventWindow },
    UpdateStatus { status_id: ItemPair, new_state: ItemPair },
    UpdateNotifications { notifications: Vec<Notification> },
    /// The pending events, soonest first.
    UpdateTimeline { events: Vec<UpcomingEvent> },
    /// The current configuration, to be saved at `filepath`.
    SaveConfig { filepath: String, config: Config },
}

/// `m1` is `m0` after the entries due by `now` left the queue, and `ids` are
/// their events in firing order: exactly the entries whose fire time is no
/// later than `now`.
pub open spec fn released(m0: InterfaceModel, now: u64, m1: InterfaceModel, ids: Seq<ItemId>) -> bool {
    match m0.handler {
        Some(h) => {
            let k = crate::queue::count_due_keys(h.queue, now) as int;
            &&& k <= h.queue.len()
            &&& forall|i: int| 0 <= i < k ==> (#[trigger] h.queue[i]).2 <= now
            &&& forall|i: int| k <= i < h.queue.len() ==> (#[trigger] h.queue[i]).2 > now
            &&& ids == h.queue.take(k).map_values(|e: EntryKey| e.0)
            &&& m1 == InterfaceModel { handler: Some(HandlerModel { queue: h.queue.skip(k), ..h }), ..m0 }
        },
        None => ids.len() == 0 && m1 == m0,
    }
}

/// The description of `id` that the actor shows, loaded or not.
pub open spec fn shown_text(m: InterfaceModel, id: ItemId) -> Seq<char> {
    match m.handler {
        Some(h) => crate::handler::description_text(h, id),
        None => crate::item::unknown_text(),
    }
}

/// The text of a log entry.
pub open spec fn log_text(m: InterfaceModel, entry: LogEntry) -> Seq<char> {
    match entry {
        LogEntry::AllStop => "An All Stop was triggered by the operator."@,
        LogEntry::EditWithoutConfig => "Change Not Saved: There Is No Active Configuration."@,
        LogEntry::EventWithoutConfig => "Event Could Not Be Processed. No Active Configuration."@,
        LogEntry::QueueWithoutConfig => "Event Could Not Be Added. No Active Configuration."@,
        LogEntry::RequestWithoutConfig => "Information Unavailable. No Active Configuration."@,
        LogEntry::ChangeWithoutConfig => "Change Not Applied: There Is No Active Configuration."@,
        LogEntry::EventFired { event_id } => "Event: "@ + shown_text(m, event_id),
        LogEntry::StatusRefused { status_id, .. } => "Status Change Refused: "@ + shown_text(m, status_id),
        LogEntry::RescheduleNotFound { event_id, .. } => "Event Not In The Queue: "@ + shown_text(m, event_id),
    }
}

/// The text shown after an all-stop.
pub open spec fn all_stop_text() -> Seq<char> {
    "ALL STOP. Upcoming events have been cleared."@
}

/// `id` with the description that the actor shows, as a pair view.
pub open spec fn shown_view(m: InterfaceModel, id: ItemId) -> PairView {
    match m.handler {
        Some(h) => crate::handler::pair_view(h, id),
        None => (id, crate::item::unknown_text(), DisplayType::Hidden),
    }
}

/// The items of the current scene, paired with their descriptions.
pub open spec fn scene_pairs(h: HandlerModel, items: Seq<ItemPair>) -> bool {
    match lookup(h.scenes, h.current_scene) {
        Some(events) => items.len() == events@.len() && forall|i: int|
            0 <= i < items.len() ==> (#[trigger] items[i])@ == crate::handler::pair_view(h, events@[i]),
        None => items.len() == 0,
    }
}

/// `u` is the update for the user interface that `action` asks for in model
/// `m` (`None` where there is none).
pub open spec fn rendered(m: InterfaceModel, action: Action, u: Option<InterfaceUpdate>) -> bool {
    match action {
        Action::Broadcast { .. } => u is None,
        Action::Dispatch { .. } => u is None,
        Action::Log { entry } => match u {
            Some(InterfaceUpdate::UpdateNotifications { notifications }) => notifications@.len() == 1
                && notifications@[0].level == entry.level_spec() && notifications@[0].message@ == log_text(m, entry),
            _ => false,
        },
        Action::Notify { event_id } => match u {
            Some(InterfaceUpdate::Notify { message }) => message@ == shown_text(m, event_id),
            _ => false,
        },
        Action::NotifyAllStop => match u {
            Some(InterfaceUpdate::Notify { message }) => message@ == all_stop_text(),
            _ => false,
        },
        Action::UpdateStatus { status_id, new_state } => match u {
            Some(InterfaceUpdate::UpdateStatus { status_id: a, new_state: b }) => a@ == shown_view(m, status_id) && b@
                == shown_view(m, new_state),
            _ => false,
        },
        Action::PromptString { event_id } => match u {
            Some(InterfaceUpdate::LaunchWindow { window_type: WindowType::PromptString(p) }) => p@ == shown_view(m, event_id),
            _ => false,
        },
        Action::RefreshTimeline => match m.handler {
            Some(h) => match u {
                Some(InterfaceUpdate::UpdateTimeline { events }) => events@.len() == h.queue.len() && forall|i: int|
                    0 <= i < events@.len() ==> (#[trigger] events@[i]).event@ == crate::handler::pair_view(h, h.queue[i].0)
                        && events@[i].start_time == h.queue[i].1 && events@[i].fire_time == h.queue[i].2,
                _ => false,
            },
            None => u is None,
        },
        Action::RefreshWindow => match m.handler {
            Some(h) => match u {
                Some(InterfaceUpdate::UpdateWindow { current_scene, statuses, window }) => current_scene@
                    == crate::handler::pair_view(h, h.current_scene) && exists|items: Seq<ItemPair>|
                    scene_pairs(h, items) && window_view(window@) == window_of(items, m.debug, h) && statuses@ == label_items(items),
                _ => false,
            },
            None => u is None,
        },
        Action::ConfigLoaded => match m.handler {
            Some(h) => match u {
                Some(InterfaceUpdate::UpdateConfig { scenes, full_status }) => scenes@.len() == h.scenes.len() && (forall|i: int|
                    0 <= i < scenes@.len() ==> (#[trigger] scenes@[i])@ == crate::handler::pair_view(h, h.scenes[i].0))
                    && full_status@.map_values(|s: Status| s@) == h.statuses,
                _ => false,
            },
            None => u is None,
        },
        Action::Reply { reply_to, request } => match m.handler {
            Some(h) => match u {
                Some(InterfaceUpdate::Reply { reply_to: t, reply }) => t == reply_to && match request {
                    RequestType::Description { item_id } => match reply {
                        ReplyType::Description { description } => description.description@ == crate::handler::description_text(
                            h,
                            item_id,
                        ) && description.display == crate::handler::display_of(h, item_id),
                        _ => false,
                    },
                    RequestType::Detail { item_id } => match reply {
                        ReplyType::Detail { event_detail } => match event_detail {
                            Some(d) => detail_of(h, item_id) == Some(d@),
                            None => detail_of(h, item_id) is None,
                        },
                        _ => false,
                    },
                },
                _ => false,
            },
            None => u is None,
        },
    }
}

impl SystemCore {
    /// `id` with the description that the actor shows.
    pub fn shown_pair(&self, id: ItemId) -> (r: ItemPair)
        requires
            self.wf(),
        ensures
            r.id == id,
            r.description@ == shown_text(self@, id),
            r@ == shown_view(self@, id),
    {
        match &self.event_handler {
            Some(h) => h.get_pair(id),
            None => ItemPair::from_item(id, ItemDescription::unknown()),
        }
    }

    /// The log entry as the notification log shows it.
    pub fn notification(&self, entry: LogEntry) -> (r: Notification)
        requires
            self.wf(),
        ensures
            r.level == entry.level_spec(),
            r.message@ == log_text(self@, entry),
    {
        let message = match entry {
            LogEntry::AllStop => String::from_str("An All Stop was triggered by the operator."),
            LogEntry::EditWithoutConfig => String::from_str("Change Not Saved: There Is No Active Configuration."),
            LogEntry::EventWithoutConfig => String::from_str("Event Could Not Be Processed. No Active Configuration."),
            LogEntry::QueueWithoutConfig => String::from_str("Event Could Not Be Added. No Active Configuration."),
            LogEntry::RequestWithoutConfig => String::from_str("Information Unavailable. No Active Configuration."),
            LogEntry::ChangeWithoutConfig => String::from_str("Change Not Applied: There Is No Active Configuration."),
            LogEntry::EventFired { event_id } => {
                let d = self.shown_pair(event_id);
                String::from_str("Event: ").concat(d.description.as_str())
            },
            LogEntry::StatusRefused { status_id, .. } => {
                let d = self.shown_pair(status_id);
                String::from_str("Status Change Refused: ").concat(d.description.as_str())
            },
            LogEntry::RescheduleNotFound { event_id, .. } => {
                let d = self.shown_pair(event_id);
                String::from_str("Event Not In The Queue: ").concat(d.description.as_str())
            },
        };
        Notification { level: entry.level(), message }
    }

    /// The update for the user interface that an action asks for; `None` for
    /// the actions that go to the network or back to the actor.
    pub fn render(&self, action: Action) -> (r: Option<InterfaceUpdate>)
        requires
            self.wf(),
        ensures
            rendered(self@, action, r),
    {
        match action {
            Action::Broadcast { .. } => None,
            Action::Dispatch { .. } => None,
            Action::Log { entry } => {
                let mut notifications: Vec<Notification> = Vec::new();
                notifications.push(self.notification(entry));
                Some(InterfaceUpdate::UpdateNotifications { notifications })
            },
            Action::Notify { event_id } => Some(InterfaceUpdate::Notify { message: self.shown_pair(event_id).description }),
            Action::NotifyAllStop => {
                Some(InterfaceUpdate::Notify { message: String::from_str("ALL STOP. Upcoming events have been cleared.") })
            },
            Action::UpdateStatus { status_id, new_state } => Some(
                InterfaceUpdate::UpdateStatus { status_id: self.shown_pair(status_id), new_state: self.shown_pair(new_state) },
            ),
            Action::PromptString { event_id } => Some(
                InterfaceUpdate::LaunchWindow { window_type: WindowType::PromptString(self.shown_pair(event_id)) },
            ),
            Action::RefreshTimeline => match &self.event_handler {
                Some(h) => Some(InterfaceUpdate::UpdateTimeline { events: h.upcoming_events() }),
                None => None,
            },
            Action::RefreshWindow => match &self.event_handler {
                Some(h) => {
                    let (window, statuses) = sort_items(h.get_items(), h, self.is_debug_mode);
                    Some(InterfaceUpdate::UpdateWindow { current_scene: h.get_current_scene(), statuses, window })
                },
                None => None,
            },
            Action::ConfigLoaded => match &self.event_handler {
                Some(h) => Some(InterfaceUpdate::UpdateConfig { scenes: h.get_scenes(), full_status: h.get_full_status() }),
                None => None,
            },
            Action::Reply { reply_to, request } => match &self.event_handler {
                Some(h) => {
                    let reply = match request {
                        RequestType::Description { item_id } => ReplyType::Description { description: h.get_description(item_id) },
                        RequestType::Detail { item_id } => ReplyType::Detail { event_detail: h.get_detail(item_id) },
                    };
                    Some(InterfaceUpdate::Reply { reply_to, reply })
                },
                None => None,
            },
        }
    }

    /// Removes the events due by `now` from the queue and returns them in
    /// firing order; nothing where no configuration is loaded.
    pub fn fire_ready(&mut self, now: u64) -> (r: Vec<ItemId>)
        requires
            old(self).wf(),
        ensures
            final(self).wf(),
            released(old(self)@, now, final(self)@, r@),
    {
        match &mut self.event_handler {
            Some(h) => h.fire_ready(now),
            None => Vec::new(),
        }
    }

    /// The configuration as it now stands, if one is loaded.
    pub fn export_config(&self) -> (r: Option<Config>)
        requires
            self.wf(),
        ensures
            r is Some <==> self@.handler is Some,
            r matches Some(c) ==> self@.handler matches Some(h) && exported(h, c),
    {
        match &self.event_handler {
            Some(h) => Some(h.export_config()),
            None => None,
        }
    }
}

/// Something the actor sent: a datagram for the network, an update on its
/// own inbound channel, or an update for the user interface.
pub enum Delivery {
    Network { message: NetworkMessage },
    Inbound { update: SystemUpdate },
    Interface { update: InterfaceUpdate },
}

/// `d` is what the actor sends to perform `a` in model `m`.
pub open spec fn performs(m: InterfaceModel, a: Action, d: Seq<Delivery>) -> bool {
    match a {
        Action::Broadcast { event_id, data } => d == seq![Delivery::Network { message: (event_id, data) }],
        Action::Dispatch { event_id, check_scene, broadcast } => d == seq![
            Delivery::Inbound { update: SystemUpdate::ProcessEvent { event: event_id, check_scene, broadcast } },
        ],
        _ => (d.len() == 0 && rendered(m, a, None)) || (d.len() == 1 && match d[0] {
            Delivery::Interface { update } => rendered(m, a, Some(update)),
            _ => false,
        }),
    }
}

/// The pieces one after another.
pub open spec fn concat_all(pieces: Seq<Seq<Delivery>>) -> Seq<Delivery>
    decreases pieces.len(),
{
    if pieces.len() == 0 {
        Seq::empty()
    } else {
        concat_all(pieces.drop_last()) + pieces.last()
    }
}

/// `d` is what a save request sends before its update is applied: the
/// current configuration with the path, where one is loaded.
pub open spec fn saved(m: InterfaceModel, u: SystemUpdate, d: Seq<Delivery>) -> bool {
    match u {
        SystemUpdate::SaveConfig { filepath } => match m.handler {
            Some(h) => d.len() == 1 && match d[0] {
                Delivery::Interface { update: InterfaceUpdate::SaveConfig { filepath: f, config } } => f@ == filepath@ && exported(
                    h,
                    config,
                ),
                _ => false,
            },
            None => d.len() == 0,
        },
        _ => d.len() == 0,
    }
}

/// `d` is what a broadcast request sends after its actions: the text of the
/// broadcast pair for the status bar.
pub open spec fn announced(u: SystemUpdate, d: Seq<Delivery>) -> bool {
    match u {
        SystemUpdate::BroadcastEvent { event, .. } => d.len() == 1 && match d[0] {
            Delivery::Interface { update: InterfaceUpdate::Notify { message } } => message@ == event.description@,
            _ => false,
        },
        _ => d.len() == 0,
    }
}

/// One update handled: the model goes from `m0` to `m1`, the actor goes on
/// where `go_on`, and `d` is sent: a save request's export, then what each
/// action of the update asks for, in order, then a broadcast's notice.
pub open spec fn handled(m0: InterfaceModel, u: SystemUpdate, now: u64, m1: InterfaceModel, go_on: bool, d: Seq<Delivery>) -> bool {
    &&& step_holds(m0, u, now, m1, go_on)
    &&& exists|pre: Seq<Delivery>, pieces: Seq<Seq<Delivery>>, post: Seq<Delivery>|
        {
            &&& saved(m0, u, pre)
            &&& pieces.len() == update_actions(m0, u, now).len()
            &&& forall|i: int| 0 <= i < pieces.len() ==> performs(m1, update_actions(m0, u, now)[i], #[trigger] pieces[i])
            &&& announced(u, post)
            &&& d == pre + concat_all(pieces) + post
        }
}

/// What a wait on the inbound channel leads to: after a quiet wait the actor
/// goes on unchanged, after the channel closed it stops unchanged, and a
/// message is handled.
pub open spec fn after_wait(
    m0: InterfaceModel,
    s0: Seq<Delivery>,
    received: Received<SystemUpdate>,
    now: u64,
    m1: InterfaceModel,
    s1: Seq<Delivery>,
    go_on: bool,
) -> bool {
    match received {
        Received::Idle => go_on && m1 == m0 && s1 == s0,
        Received::Closed => !go_on && m1 == m0 && s1 == s0,
        Received::Message(u) => exists|d: Seq<Delivery>| handled(m0, u, now, m1, go_on, d) && s1 == s0 + d,
    }
}

/// A dispatch that checks the scene and broadcasts, for each event.
pub open spec fn dispatches(ids: Seq<ItemId>) -> Seq<Delivery> {
    ids.map_values(
        |id: ItemId| Delivery::Inbound { update: SystemUpdate::ProcessEvent { event: id, check_scene: true, broadcast: true } },
    )
}

/// What firing the events `ids` sends after their dispatches: a timeline
/// refresh where any fired.
pub open spec fn fire_refresh(m: InterfaceModel, ids: Seq<ItemId>, d: Seq<Delivery>) -> bool {
    if ids.len() == 0 {
        d.len() == 0
    } else {
        performs(m, Action::RefreshTimeline, d)
    }
}

/// The sending end of the actor's inbound channel, for the parts of the
/// system that feed it.
#[derive(Clone)]
pub struct GeneralUpdate {
    outbox: Outbox<SystemUpdate>,
}

impl GeneralUpdate {
    /// What this sender handed to the channel, in order.
    pub closed spec fn sent(&self) -> Seq<SystemUpdate> {
        self.outbox.sent()
    }

    /// A new inbound channel: its sending structure and its receiving end.
    pub fn new() -> (r: (GeneralUpdate, Receiver<SystemUpdate>))
        ensures
            r.0.sent() == Seq::<SystemUpdate>::empty(),
    {
        let (general_send, receive) = channel();
        (GeneralUpdate { outbox: Outbox::new(general_send) }, receive)
    }

    /// Asks for a dispatch of `event`.
    pub fn send_event(&mut self, event: ItemId, check_scene: bool, broadcast: bool)
        ensures
            final(self).sent() == old(self).sent().push(SystemUpdate::ProcessEvent { event, check_scene, broadcast }),
    {
        self.send_system(SystemUpdate::ProcessEvent { event, check_scene, broadcast });
    }

    /// Asks for a redraw of the event window.
    pub fn send_redraw(&mut self)
        ensures
            final(self).sent() == old(self).sent().push(SystemUpdate::Redraw),
    {
        self.send_system(SystemUpdate::Redraw);
    }

    /// Passes a system update to the actor; a closed channel drops it.
    pub fn send_system(&mut self, update: SystemUpdate)
        ensures
            final(self).sent() == old(self).sent().push(update),
    {
        self.outbox.deliver(update);
    }
}

/// The sending end of the actor's inbound channel that the user interface
/// holds.
#[derive(Clone)]
pub struct SystemSend {
    outbox: Outbox<SystemUpdate>,
}

impl SystemSend {
    /// What this sender handed to the channel, in order.
    pub closed spec fn sent(&self) -> Seq<SystemUpdate> {
        self.outbox.sent()
    }

    /// A system send on the channel of `general_update`.
    pub fn from_general(general_update: &GeneralUpdate) -> (r: SystemSend)
        ensures
            r.sent() == Seq::<SystemUpdate>::empty(),
    {
        SystemSend { outbox: general_update.outbox.another() }
    }

    /// Sends a system update; a closed channel drops it.
    pub fn send(&mut self, update: SystemUpdate)
        ensures
            final(self).sent() == old(self).sent().push(update),
    {
        self.outbox.deliver(update);
    }
}

/// A datagram for the network: an item and an optional payload.
pub type NetworkMessage = (ItemId, Option<u32>);

/// The actor with its channels: it reads system updates from its inbound
/// channel, fires due events, and sends what the updates ask for to the user
/// interface, the network and its own inbound channel.
pub struct SystemInterface {
    state: SystemCore,
    general_receive: Receiver<SystemUpdate>,
    links: Links,
    clock: Instant,
    last_now: u64,
}

impl View for SystemInterface {
    type V = InterfaceModel;

    closed spec fn view(&self) -> InterfaceModel {
        self.state@
    }
}

impl SystemInterface {
    /// The state is well formed, and each outgoing channel was handed exactly
    /// its part of `sent()`.
    pub closed spec fn wf(&self) -> bool {
        self.state.wf() && self.links.wf()
    }

    /// Everything the actor has sent, in order.
    pub closed spec fn sent(&self) -> Seq<Delivery> {
        self.links.sent()
    }

    /// What the network channel was handed.
    pub closed spec fn network_sent(&self) -> Seq<NetworkMessage> {
        self.links.network_sent()
    }

    /// What the actor's own inbound channel was handed.
    pub closed spec fn inbound_sent(&self) -> Seq<SystemUpdate> {
        self.links.inbound_sent()
    }

    /// What the user-interface channel was handed.
    pub closed spec fn interface_sent(&self) -> Seq<InterfaceUpdate> {
        self.links.interface_sent()
    }

    /// The time of the latest turn; turns never go back in time.
    pub closed spec fn last_now(&self) -> u64 {
        self.last_now
    }

    /// Each outgoing channel was handed exactly its part of `sent()`.
    pub proof fn lemma_channels_match(&self)
        requires
            self.wf(),
        ensures
            self.network_sent() == crate::channel::network_part(self.sent()),
            self.inbound_sent() == crate::channel::inbound_part(self.sent()),
            self.interface_sent() == crate::channel::interface_part(self.sent()),
    {
    }

    /// The loaded dispatcher, if any, has unique status identifiers and a
    /// queue in order of fire time.
    pub proof fn lemma_model_ok(&self)
        requires
            self.wf(),
        ensures
            self@.handler matches Some(h) ==> crate::handler::model_ok(h),
    {
        self.state.lemma_model_ok();
    }

    /// An actor with no configuration that sends to `interface_send` and
    /// `network_send`, and the sender that feeds it.
    pub fn new(interface_send: Sender<InterfaceUpdate>, network_send: Sender<NetworkMessage>) -> (r: (SystemInterface, SystemSend))
        ensures
            r.0.wf(),
            r.0@ == (InterfaceModel { handler: None, debug: false }),
            r.0.sent() == Seq::<Delivery>::empty(),
            r.0.last_now() == 0,
            r.1.sent() == Seq::<SystemUpdate>::empty(),
    {
        let (general_update, general_receive) = GeneralUpdate::new();
        let system_send = SystemSend::from_general(&general_update);
        let links = Links::new(network_send, general_update.outbox.another(), interface_send);
        let interface = SystemInterface { state: SystemCore::new(), general_receive, links, clock: clock_start(), last_now: 0 };
        (interface, system_send)
    }

    /// The actor's state apart from its channels.
    pub fn state(&self) -> (r: &SystemCore)
        ensures
            r@ == self@,
            self.wf() ==> r.wf(),
    {
        &self.state
    }

    /// Sends what one action asks for: a broadcast to the network, a dispatch
    /// onto the actor's own inbound channel, the rest to the user interface.
    fn perform(&mut self, action: Action)
        requires
            old(self).wf(),
        ensures
            final(self).wf(),
            final(self)@ == old(self)@,
            final(self).last_now() == old(self).last_now(),
            exists|d: Seq<Delivery>| performs(old(self)@, action, d) && final(self).sent() == old(self).sent() + d,
    {
        let ghost m = self@;
        let ghost s0 = self.links.sent();
        let ghost mut d: Seq<Delivery> = Seq::empty();
        match action {
            Action::Broadcast { event_id, data } => {
                self.links.to_network((event_id, data));
                proof {
                    d = seq![Delivery::Network { message: (event_id, data) }];
                }
            },
            Action::Dispatch { event_id, check_scene, broadcast } => {
                self.links.to_inbound(SystemUpdate::ProcessEvent { event: event_id, check_scene, broadcast });
                proof {
                    d = seq![
                        Delivery::Inbound { update: SystemUpdate::ProcessEvent { event: event_id, check_scene, broadcast } },
                    ];
                }
            },
            _ => match self.state.render(action) {
                Some(update) => {
                    let ghost g = update;
                    self.links.to_interface(update);
                    proof {
                        d = seq![Delivery::Interface { update: g }];
                        assert(d[0] == Delivery::Interface { update: g });
                    }
                },
                None => {},
            },
        }
        assert(self.links.sent() =~= s0 + d);
        assert(performs(old(self)@, action, d) && self.sent() == old(self).sent() + d);
    }

    /// Applies one update at time `now` and sends what it asks for; returns
    /// whether the actor goes on.
    pub fn handle(&mut self, update: SystemUpdate, now: u64) -> (r: bool)
        requires
            old(self).wf(),
        ensures
            final(self).wf(),
            final(self).last_now() == old(self).last_now(),
            step_holds(old(self)@, update, now, final(self)@, r),
            exists|d: Seq<Delivery>| handled(old(self)@, update, now, final(self)@, r, d) && final(self).sent() == old(self).sent() + d,
    {
        let ghost m0 = self@;
        let ghost s0 = self.links.sent();
        let ghost u = update;
        let ghost mut pre: Seq<Delivery> = Seq::empty();
        if let SystemUpdate::SaveConfig { filepath } = &update {
            if let Some(config) = self.state.export_config() {
                let ghost c = config;
                let f = filepath.clone();
                let ghost fg = f;
                self.links.to_interface(InterfaceUpdate::SaveConfig { filepath: f, config });
                proof {
                    pre = seq![Delivery::Interface { update: InterfaceUpdate::SaveConfig { filepath: fg, config: c } }];
                }
            }
        }
        let note = match &update {
            SystemUpdate::BroadcastEvent { event, .. } => Some(event.description.clone()),
            _ => None,
        };
        assert(saved(m0, u, pre));
        assert(self.links.sent() =~= s0 + pre);
        let (go_on, actions) = self.state.unpack_system_update(update, now);
        let ghost m1 = self@;
        let ghost mut pieces: Seq<Seq<Delivery>> = Seq::empty();
        let mut i: usize = 0;
        while i < actions.len()
            invariant
                self.wf(),
                self@ == m1,
                self.last_now() == old(self).last_now(),
                0 <= i <= actions@.len(),
                actions@ == update_actions(m0, u, now),
                pieces.len() == i,
                forall|j: int| 0 <= j < i ==> performs(m1, actions@[j], #[trigger] pieces[j]),
                self.sent() == s0 + pre + concat_all(pieces),
            decreases actions@.len() - i,
        {
            let ghost before = self.sent();
            self.perform(actions[i]);
            let ghost d = choose|d: Seq<Delivery>| performs(m1, actions@[i as int], d) && self.sent() == before + d;
            proof {
                let p2 = pieces.push(d);
                assert(p2.drop_last() =~= pieces);
                assert(concat_all(p2) == concat_all(pieces) + d);
                assert(self.sent() =~= s0 + pre + concat_all(p2));
                assert forall|j: int| 0 <= j < i + 1 implies performs(m1, actions@[j], #[trigger] p2[j]) by {
                    if j < i {
                        assert(p2[j] == pieces[j]);
                    }
                }
                pieces = p2;
            }
            i = i + 1;
        }
        let ghost s1 = self.sent();
        let ghost mut post: Seq<Delivery> = Seq::empty();
        if let Some(message) = note {
            let ghost g = message;
            self.links.to_interface(InterfaceUpdate::Notify { message });
            proof {
                post = seq![Delivery::Interface { update: InterfaceUpdate::Notify { message: g } }];
                assert(post[0] == Delivery::Interface { update: InterfaceUpdate::Notify { message: g } });
            }
        }
        proof {
            assert(self.sent() =~= s1 + post);
            let total = pre + concat_all(pieces) + post;
            assert(self.sent() =~= s0 + total);
            assert(announced(u, post));
            assert(saved(m0, u, pre) && pieces.len() == update_actions(m0, u, now).len() && (forall|j: int|
                0 <= j < pieces.len() ==> performs(m1, update_actions(m0, u, now)[j], #[trigger] pieces[j])) && announced(u, post)
                && total == pre + concat_all(pieces) + post);
            assert(step_holds(m0, u, now, m1, go_on));
            assert(handled(m0, u, now, m1, go_on, total));
            assert(handled(old(self)@, update, now, self@, go_on, total) && self.sent() == old(self).sent() + total);
        }
        go_on
    }

    /// Acts on what a wait on the inbound channel gave: a message is handled,
    /// a quiet wait lets the actor go on, and a closed channel stops it.
    pub fn after_receive(&mut self, received: Received<SystemUpdate>, now: u64) -> (r: bool)
        requires
            old(self).wf(),
        ensures
            final(self).wf(),
            final(self).last_now() == old(self).last_now(),
            after_wait(old(self)@, old(self).sent(), received, now, final(self)@, final(self).sent(), r),
    {
        match received {
            Received::Message(update) => self.handle(update, now),
            Received::Idle => true,
            Received::Closed => false,
        }
    }

    /// Fires the events due by `now`: each is put on the inbound channel as a
    /// dispatch that checks the scene and broadcasts, and the timeline is
    /// refreshed where any fired.
    pub fn fire_due_events(&mut self, now: u64) -> (r: Vec<ItemId>)
        requires
            old(self).wf(),
        ensures
            final(self).wf(),
            final(self).last_now() == old(self).last_now(),
            released(old(self)@, now, final(self)@, r@),
            exists|d: Seq<Delivery>|
                fire_refresh(final(self)@, r@, d) && final(self).sent() == old(self).sent() + dispatches(r@) + d,
    {
        let ghost s0 = self.sent();
        let due = self.state.fire_ready(now);
        let ghost m1 = self@;
        let mut i: usize = 0;
        while i < due.len()
            invariant
                self.wf(),
                self@ == m1,
                self.last_now() == old(self).last_now(),
                0 <= i <= due@.len(),
                self.sent() == s0 + dispatches(due@.take(i as int)),
            decreases due@.len() - i,
        {
            let ghost d = Delivery::Inbound {
                update: SystemUpdate::ProcessEvent { event: due@[i as int], check_scene: true, broadcast: true },
            };
            self.links.to_inbound(SystemUpdate::ProcessEvent { event: due[i], check_scene: true, broadcast: true });
            i = i + 1;
            assert(dispatches(due@.take(i as int)) =~= dispatches(due@.take(i - 1)).push(d));
        }
        assert(due@.take(i as int) =~= due@);
        let ghost s1 = self.sent();
        if due.len() > 0 {
            self.perform(Action::RefreshTimeline);
            let ghost d = choose|d: Seq<Delivery>| performs(m1, Action::RefreshTimeline, d) && self.sent() == s1 + d;
            assert(fire_refresh(self@, due@, d));
        } else {
            assert(fire_refresh(self@, due@, Seq::<Delivery>::empty()));
            assert(self.sent() =~= s1 + Seq::<Delivery>::empty());
        }
        due
    }

    /// One turn of the actor: reads the clock (a turn never goes back in time
    /// from the one before), fires the events that are due, then waits briefly
    /// for one update and acts on what the wait gave, as `after_receive` does.
    pub fn run_once(&mut self) -> (r: bool)
        requires
            old(self).wf(),
        ensures
            final(self).wf(),
            exists|now: u64, mid: InterfaceModel, ids: Seq<ItemId>, d1: Seq<Delivery>, received: Received<SystemUpdate>|
                {
                    &&& old(self).last_now() <= now
                    &&& final(self).last_now() == now
                    &&& released(old(self)@, now, mid, ids)
                    &&& fire_refresh(mid, ids, d1)
                    &&& after_wait(mid, old(self).sent() + dispatches(ids) + d1, received, now, final(self)@, final(self).sent(), r)
                },
    {
        let reading = elapsed_millis(&self.clock);
        let now = if reading < self.last_now {
            self.last_now
        } else {
            reading
        };
        self.last_now = now;
        let ghost m0 = self@;
        let ghost s0 = self.sent();
        let due = self.fire_due_events(now);
        let ghost mid = self@;
        let ghost ids = due@;
        let ghost d1 = choose|d: Seq<Delivery>| fire_refresh(mid, ids, d) && self.sent() == s0 + dispatches(ids) + d;
        let received = receive(&self.general_receive, POLLING_RATE);
        let ghost rec = received;
        let r = self.after_receive(received, now);
        assert(after_wait(mid, s0 + dispatches(ids) + d1, rec, now, self@, self.sent(), r));
        assert(s0 == old(self).sent());
        assert(m0 == old(self)@);
        assert(old(self).last_now() <= now && self.last_now() == now && released(old(self)@, now, mid, ids) && fire_refresh(
            mid,
            ids,
            d1,
        ) && after_wait(mid, old(self).sent() + dispatches(ids) + d1, rec, now, self@, self.sent(), r));
        r
    }
}

/// A status change to an allowed state, applied twice: the second leaves the
/// actor as the first left it, succeeds, and reports the same new state.
pub proof fn lemma_status_change_idempotent(m: InterfaceModel, status_id: ItemId, state: ItemId, now: u64)
    requires
        m.handler matches Some(h) && crate::handler::model_ok(h) && transition(h.statuses, status_id, state) is Some,
    ensures
        step_spec(m, SystemUpdate::StatusChange { status_id, state }, now) matches Some(first) && first.1 && first.2 == seq![
            Action::UpdateStatus { status_id, new_state: state },
        ] && step_spec(first.0, SystemUpdate::StatusChange { status_id, state }, now) == Some(first),
{
    let h = m.handler->Some_0;
    crate::status::lemma_set_state_idempotent(h.statuses, status_id, state);
}

/// Two shifts of the whole timeline at the same time `now`, by `d` later and
/// then by `d` earlier, restore the fire time of every entry that neither
/// shift dropped, keep it where it was, and drop the rest.
pub proof fn lemma_shift_updates_round_trip(m: InterfaceModel, d: u64, now: u64)
    requires
        m.handler is Some,
    ensures
        step_spec(m, SystemUpdate::AllEventChange { adjustment: d, is_negative: false }, now) matches Some(first) && step_spec(
            first.0,
            SystemUpdate::AllEventChange { adjustment: d, is_negative: true },
            now,
        ) matches Some(second) && second.1 && second.0 == with_handler(
            m,
            HandlerModel { queue: crate::queue::round_trip_kept_keys(m.handler->Some_0.queue, d, now), ..m.handler->Some_0 },
        ),
{
    crate::queue::lemma_shift_keys_round_trip(m.handler->Some_0.queue, d, now);
}

} // verus!
