use minerva::handler::{Effect, Outcome, SkipReason};
use minerva::queue::ComingEvent;
use minerva::status::{Status, StatusError};
use minerva::{Config, DisplayType, EventAction, EventDelay, EventHandler, ItemDescription, ItemId, ItemPair};

fn id(n: u32) -> ItemId {
    ItemId::new(n)
}

fn describe(n: u32, text: &str, display: DisplayType) -> (ItemId, ItemDescription) {
    (id(n), ItemDescription::new(text.to_string(), display))
}

fn config() -> Config {
    Config {
        items: vec![
            describe(1, "Open Door", DisplayType::DisplayControl),
            describe(2, "Flash Lights", DisplayType::DisplayWith { group_id: id(50) }),
            describe(3, "Finale", DisplayType::DisplayControl),
            describe(10, "Door Status", DisplayType::LabelControl),
            describe(100, "Scene One", DisplayType::Hidden),
        ],
        details: vec![
            (id(1), vec![EventAction::SendData { data: Some(7) }]),
            (id(2), vec![EventAction::ModifyStatus { status_id: id(10), new_state: id(12) }]),
            (
                id(3),
                vec![
                    EventAction::ModifyStatus { status_id: id(10), new_state: id(99) },
                    EventAction::CueEvent { event: EventDelay { delay: None, event_id: id(1) } },
                    EventAction::CueEvent { event: EventDelay { delay: Some(100), event_id: id(2) } },
                    EventAction::NewScene { new_scene: id(101) },
                    EventAction::GetUserString,
                ],
            ),
        ],
        scenes: vec![(id(100), vec![id(1), id(3), id(10)]), (id(101), vec![id(2)])],
        statuses: vec![Status { status_id: id(10), current: id(11), allowed: vec![id(11), id(12)] }],
        current_scene: id(100),
    }
}

#[test]
fn event_outside_scene_is_skipped() {
    let mut h = EventHandler::new(config());
    let d = h.process_event(id(2), true, true, 0);
    assert_eq!(d.outcome, Outcome::Skipped(SkipReason::NotInScene));
    assert!(d.effects.is_empty());
    assert_eq!(h.get_state(id(10)), Some(id(11)));
}

#[test]
fn scene_check_can_be_bypassed() {
    let mut h = EventHandler::new(config());
    let d = h.process_event(id(2), false, false, 0);
    assert_eq!(d.outcome, Outcome::Fired);
    assert_eq!(d.effects, vec![Effect::StatusChanged { status_id: id(10), new_state: id(12) }]);
    assert_eq!(h.get_state(id(10)), Some(id(12)));
}

#[test]
fn actions_run_in_order_and_a_refusal_does_not_stop_the_rest() {
    let mut h = EventHandler::new(config());
    let d = h.process_event(id(3), true, true, 1000);
    assert_eq!(d.outcome, Outcome::Fired);
    assert_eq!(
        d.effects,
        vec![
            Effect::StatusRefused { status_id: id(10), new_state: id(99), error: StatusError::InvalidTransition },
            Effect::Trigger { event_id: id(1) },
            Effect::Scheduled { event: ComingEvent { event_id: id(2), start_time: 1000, fire_time: 1100 } },
            Effect::SceneChanged { scene: id(101) },
            Effect::UserString { event_id: id(3) },
            Effect::Broadcast { event_id: id(3), data: None },
        ]
    );
    assert_eq!(h.get_state(id(10)), Some(id(11)));
    assert_eq!(h.get_current_scene().id, id(101));
    assert_eq!(h.queue_len(), 1);
}

#[test]
fn broadcast_flag_adds_a_broadcast_after_the_actions() {
    let mut h = EventHandler::new(config());
    let d = h.process_event(id(1), true, true, 0);
    assert_eq!(
        d.effects,
        vec![Effect::Broadcast { event_id: id(1), data: Some(7) }, Effect::Broadcast { event_id: id(1), data: None }]
    );
    let d = h.process_event(id(1), true, false, 0);
    assert_eq!(d.effects, vec![Effect::Broadcast { event_id: id(1), data: Some(7) }]);
}

#[test]
fn deleted_event_with_pending_entry_fires_as_no_op() {
    let mut h = EventHandler::new(config());
    h.add_event(id(1), 0, 5);
    h.delete_event(id(1));
    assert_eq!(h.queue_len(), 1);
    let due = h.fire_ready(5);
    assert_eq!(due, vec![id(1)]);
    let d = h.process_event(id(1), false, true, 5);
    assert_eq!(d.outcome, Outcome::Skipped(SkipReason::NoDetail));
    assert!(d.effects.is_empty());
    assert_eq!(h.get_description(id(1)).description, "No Description.");
}

#[test]
fn edit_inserts_or_replaces_description_and_detail() {
    let mut h = EventHandler::new(config());
    let pair = ItemPair::new(id(4), "New Cue".to_string(), DisplayType::DisplayControl);
    let detail = vec![EventAction::GetUserString];
    h.edit_event(&pair, &detail);
    assert_eq!(h.get_description(id(4)).description, "New Cue");
    assert_eq!(h.get_detail(id(4)), Some(detail));
    let pair = ItemPair::new(id(1), "Close Door".to_string(), DisplayType::Hidden);
    h.edit_event(&pair, &vec![]);
    assert_eq!(h.get_description(id(1)), ItemDescription::new("Close Door".to_string(), DisplayType::Hidden));
    assert_eq!(h.get_detail(id(1)), Some(vec![]));
}

#[test]
fn choosing_a_scene_leaves_the_queue() {
    let mut h = EventHandler::new(config());
    h.add_event(id(1), 10, 0);
    h.choose_scene(id(101));
    assert_eq!(h.queue_len(), 1);
    assert!(h.is_in_scene(id(2)));
    assert!(!h.is_in_scene(id(1)));
}

#[test]
fn upcoming_events_carry_descriptions() {
    let mut h = EventHandler::new(config());
    h.add_event(id(3), 20, 0);
    h.add_event(id(1), 10, 0);
    let up = h.upcoming_events();
    assert_eq!(up.len(), 2);
    assert_eq!(up[0].event.description, "Open Door");
    assert_eq!(up[0].fire_time, 10);
    assert_eq!(up[1].event.description, "Finale");
}

#[test]
fn export_returns_the_loaded_configuration() {
    let h = EventHandler::new(config());
    assert_eq!(h.export_config(), config());
}

#[test]
fn later_config_entries_replace_earlier_ones() {
    let mut c = config();
    c.items.push(describe(1, "Other", DisplayType::Hidden));
    let h = EventHandler::new(c);
    assert_eq!(h.get_description(id(1)).description, "Other");
}
