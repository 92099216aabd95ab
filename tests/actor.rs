use minerva::interface::{sort_groups, sort_items, Action, LogEntry, LogLevel, Notification, Received, SystemCore};
use minerva::status::Status;
use minerva::{
    Config, DisplayComponent, DisplayType, EditAction, EventAction, EventDelay, EventGroup, EventHandler,
    InterfaceUpdate, ItemDescription, ItemId, ItemPair, ReplyType, RequestType, SystemInterface, SystemUpdate,
    WindowType,
};
use std::sync::mpsc;
use std::time::Duration;

fn id(n: u32) -> ItemId {
    ItemId::new(n)
}

fn describe(n: u32, text: &str, display: DisplayType) -> (ItemId, ItemDescription) {
    (id(n), ItemDescription::new(text.to_string(), display))
}

fn config() -> Config {
    Config {
        items: vec![
            describe(1, "Open Door", DisplayType::DisplayControl),
            describe(2, "Flash Lights", DisplayType::DisplayWith { group_id: id(50) }),
            describe(3, "Finale", DisplayType::DisplayControl),
            describe(10, "Door Status", DisplayType::LabelControl),
            describe(11, "Closed", DisplayType::Hidden),
            describe(12, "Open", DisplayType::Hidden),
            describe(50, "Lights", DisplayType::Hidden),
            describe(100, "Scene One", DisplayType::Hidden),
        ],
        details: vec![
            (id(1), vec![EventAction::SendData { data: Some(7) }]),
            (id(2), vec![EventAction::ModifyStatus { status_id: id(10), new_state: id(12) }]),
            (
                id(3),
                vec![
                    EventAction::CueEvent { event: EventDelay { delay: None, event_id: id(1) } },
                    EventAction::NewScene { new_scene: id(101) },
                ],
            ),
        ],
        scenes: vec![(id(100), vec![id(1), id(3), id(10)]), (id(101), vec![id(2)])],
        statuses: vec![Status { status_id: id(10), current: id(11), allowed: vec![id(11), id(12)] }],
        current_scene: id(100),
    }
}

fn loaded() -> SystemCore {
    let mut core = SystemCore::new();
    let (go_on, actions) = core.unpack_system_update(SystemUpdate::ConfigFile { config: Some(config()) }, 0);
    assert!(go_on);
    assert_eq!(actions, vec![Action::ConfigLoaded, Action::RefreshWindow]);
    core
}

fn logs(actions: &[Action]) -> Vec<LogEntry> {
    actions
        .iter()
        .filter_map(|a| match a {
            Action::Log { entry } => Some(*entry),
            _ => None,
        })
        .collect()
}

#[test]
fn scenario_zero_delay_event_in_scene_fires() {
    let mut core = loaded();
    let (_, actions) = core.unpack_system_update(
        SystemUpdate::QueueEvent { event_delay: EventDelay { delay: Some(0), event_id: id(1) } },
        5,
    );
    assert_eq!(actions, vec![Action::RefreshTimeline]);
    assert_eq!(core.fire_ready(5), vec![id(1)]);
    let (go_on, actions) =
        core.unpack_system_update(SystemUpdate::ProcessEvent { event: id(1), check_scene: true, broadcast: true }, 5);
    assert!(go_on);
    assert_eq!(
        actions,
        vec![
            Action::Log { entry: LogEntry::EventFired { event_id: id(1) } },
            Action::Broadcast { event_id: id(1), data: Some(7) },
            Action::Broadcast { event_id: id(1), data: None },
            Action::Notify { event_id: id(1) },
        ]
    );
    let entries = logs(&actions);
    assert_eq!(entries.len(), 1);
    assert_eq!(
        core.notification(entries[0]),
        Notification { level: LogLevel::Current, message: "Event: Open Door".to_string() }
    );
    assert_eq!(core.handler().unwrap().get_state(id(10)), Some(id(11)));
}

#[test]
fn scenario_event_outside_scene_is_skipped() {
    let mut core = loaded();
    let (go_on, actions) =
        core.unpack_system_update(SystemUpdate::ProcessEvent { event: id(2), check_scene: true, broadcast: true }, 0);
    assert!(go_on);
    assert!(actions.is_empty());
    assert_eq!(core.handler().unwrap().get_state(id(10)), Some(id(11)));
}

#[test]
fn scenario_all_stop_clears_queue_and_broadcasts_once() {
    let mut core = loaded();
    for n in [1u32, 3] {
        core.unpack_system_update(
            SystemUpdate::QueueEvent { event_delay: EventDelay { delay: Some(1000), event_id: id(n) } },
            0,
        );
    }
    assert_eq!(core.handler().unwrap().queue_len(), 2);
    let (go_on, actions) = core.unpack_system_update(SystemUpdate::AllStop, 10);
    assert!(go_on);
    assert_eq!(core.handler().unwrap().queue_len(), 0);
    let stops: Vec<&Action> = actions
        .iter()
        .filter(|a| matches!(a, Action::Broadcast { event_id, data: None } if *event_id == ItemId::all_stop()))
        .collect();
    assert_eq!(stops.len(), 1);
    let entries = logs(&actions);
    assert_eq!(entries, vec![LogEntry::AllStop]);
    assert_eq!(entries[0].level(), LogLevel::Error);
    assert_eq!(
        core.render(Action::NotifyAllStop),
        Some(InterfaceUpdate::Notify { message: "ALL STOP. Upcoming events have been cleared.".to_string() })
    );
}

#[test]
fn scenario_reschedule_with_unknown_start_time_is_not_found() {
    let mut core = loaded();
    core.unpack_system_update(SystemUpdate::QueueEvent { event_delay: EventDelay { delay: Some(50), event_id: id(1) } }, 3);
    let before = core.handler().unwrap().upcoming_events();
    let (go_on, actions) = core.unpack_system_update(
        SystemUpdate::EventChange { event_id: id(1), start_time: 4, new_delay: Some(5) },
        10,
    );
    assert!(go_on);
    assert_eq!(actions, vec![Action::Log { entry: LogEntry::RescheduleNotFound { event_id: id(1), start_time: 4 } }]);
    assert_eq!(core.handler().unwrap().upcoming_events(), before);
    let (_, actions) = core.unpack_system_update(
        SystemUpdate::EventChange { event_id: id(1), start_time: 3, new_delay: None },
        10,
    );
    assert_eq!(actions, vec![Action::RefreshTimeline]);
    assert_eq!(core.handler().unwrap().queue_len(), 0);
}

#[test]
fn commands_without_configuration_are_dropped_with_a_log_entry() {
    let mut core = SystemCore::new();
    let (_, a) = core.unpack_system_update(SystemUpdate::ProcessEvent { event: id(1), check_scene: false, broadcast: false }, 0);
    assert_eq!(a, vec![Action::Log { entry: LogEntry::EventWithoutConfig }]);
    let (_, a) = core.unpack_system_update(SystemUpdate::Edit { actions: vec![EditAction::DeleteEvent { event_id: id(1) }] }, 0);
    assert_eq!(a, vec![Action::Log { entry: LogEntry::EditWithoutConfig }]);
    let (_, a) = core.unpack_system_update(SystemUpdate::QueueEvent { event_delay: EventDelay { delay: None, event_id: id(1) } }, 0);
    assert_eq!(a, vec![Action::Log { entry: LogEntry::QueueWithoutConfig }]);
    assert_eq!(
        core.notification(LogEntry::QueueWithoutConfig).message,
        "Event Could Not Be Added. No Active Configuration."
    );
    assert_eq!(LogEntry::EditWithoutConfig.level(), LogLevel::Error);
    let (_, a) = core.unpack_system_update(SystemUpdate::SceneChange { scene: id(100) }, 0);
    assert_eq!(a, vec![Action::Log { entry: LogEntry::ChangeWithoutConfig }]);
    assert_eq!(LogEntry::ChangeWithoutConfig.level(), LogLevel::Error);
    let (_, a) = core.unpack_system_update(SystemUpdate::ClearQueue, 0);
    assert_eq!(a, vec![Action::Log { entry: LogEntry::ChangeWithoutConfig }]);
    let (_, a) = core.unpack_system_update(SystemUpdate::Redraw, 0);
    assert!(a.is_empty());
    let (_, a) = core.unpack_system_update(
        SystemUpdate::Request { reply_to: DisplayComponent::EditItem, request: RequestType::Description { item_id: id(1) } },
        0,
    );
    assert_eq!(a, vec![Action::Log { entry: LogEntry::RequestWithoutConfig }]);
    assert_eq!(LogEntry::RequestWithoutConfig.level(), LogLevel::Warning);
    let (go_on, a) = core.unpack_system_update(SystemUpdate::Close, 0);
    assert!(!go_on);
    assert!(a.is_empty());
}

#[test]
fn refused_status_change_is_logged_and_state_kept() {
    let mut core = loaded();
    let (_, a) = core.unpack_system_update(SystemUpdate::StatusChange { status_id: id(10), state: id(13) }, 0);
    assert_eq!(a.len(), 1);
    let entries = logs(&a);
    assert_eq!(entries.len(), 1);
    assert_eq!(entries[0].level(), LogLevel::Warning);
    assert_eq!(core.notification(entries[0]).message, "Status Change Refused: Door Status");
    let (_, a) = core.unpack_system_update(SystemUpdate::StatusChange { status_id: id(10), state: id(12) }, 0);
    assert_eq!(a, vec![Action::UpdateStatus { status_id: id(10), new_state: id(12) }]);
    match core.render(a[0]) {
        Some(InterfaceUpdate::UpdateStatus { status_id, new_state }) => {
            assert_eq!(status_id.description, "Door Status");
            assert_eq!(new_state.description, "Open");
        }
        other => panic!("unexpected {:?}", other),
    }
}

#[test]
fn edits_apply_in_order() {
    let mut core = loaded();
    let pair = ItemPair::new(id(5), "Bell".to_string(), DisplayType::DisplayControl);
    let edits = vec![
        EditAction::DeleteEvent { event_id: id(1) },
        EditAction::ModifyEvent { event_pair: pair, event_detail: vec![EventAction::GetUserString] },
        EditAction::DeleteEvent { event_id: id(5) },
        EditAction::ModifyEvent {
            event_pair: ItemPair::new(id(5), "Gong".to_string(), DisplayType::Hidden),
            event_detail: vec![],
        },
    ];
    let (go_on, a) = core.unpack_system_update(SystemUpdate::Edit { actions: edits }, 0);
    assert!(go_on);
    assert!(a.is_empty());
    let h = core.handler().unwrap();
    assert_eq!(h.get_detail(id(1)), None);
    assert_eq!(h.get_description(id(5)).description, "Gong");
    assert_eq!(h.get_detail(id(5)), Some(vec![]));
}

#[test]
fn request_replies_to_the_asking_component() {
    let mut core = loaded();
    let (_, a) = core.unpack_system_update(
        SystemUpdate::Request { reply_to: DisplayComponent::EditItem, request: RequestType::Detail { item_id: id(2) } },
        0,
    );
    assert_eq!(a.len(), 1);
    assert_eq!(
        core.render(a[0]),
        Some(InterfaceUpdate::Reply {
            reply_to: DisplayComponent::EditItem,
            reply: ReplyType::Detail {
                event_detail: Some(vec![EventAction::ModifyStatus { status_id: id(10), new_state: id(12) }])
            },
        })
    );
}

#[test]
fn debug_mode_and_redraw() {
    let mut core = loaded();
    let (_, a) = core.unpack_system_update(SystemUpdate::DebugMode(true), 0);
    assert!(a.is_empty());
    assert!(core.is_debug_mode());
    let (_, a) = core.unpack_system_update(SystemUpdate::Redraw, 0);
    assert_eq!(a, vec![Action::RefreshWindow]);
    match core.render(Action::RefreshWindow) {
        Some(InterfaceUpdate::UpdateWindow { current_scene, statuses, window }) => {
            assert_eq!(current_scene.id, id(100));
            assert_eq!(statuses.iter().map(|p| p.id).collect::<Vec<_>>(), vec![id(10)]);
            assert_eq!(window.len(), 1);
            assert_eq!(window[0].group_id, None);
            assert_eq!(window[0].group_events.iter().map(|p| p.id).collect::<Vec<_>>(), vec![id(1), id(3)]);
        }
        other => panic!("unexpected {:?}", other),
    }
}

fn pair(n: u32, display: DisplayType) -> ItemPair {
    ItemPair::new(id(n), format!("item {}", n), display)
}

#[test]
fn sort_items_groups_by_display() {
    let h = EventHandler::new(config());
    let items = vec![
        pair(1, DisplayType::DisplayControl),
        pair(2, DisplayType::DisplayWith { group_id: id(50) }),
        pair(3, DisplayType::DisplayDebug { group: None }),
        pair(4, DisplayType::DisplayWith { group_id: id(60) }),
        pair(5, DisplayType::DisplayWith { group_id: id(50) }),
        pair(6, DisplayType::LabelControl),
        pair(7, DisplayType::Hidden),
        pair(8, DisplayType::DisplayDebug { group: Some(id(60)) }),
    ];
    let (window, labels) = sort_items(items.clone(), &h, false);
    let shape: Vec<(Option<ItemId>, Vec<ItemId>)> =
        window.iter().map(|g| (g.group_id.as_ref().map(|p| p.id), g.group_events.iter().map(|p| p.id).collect())).collect();
    assert_eq!(shape, vec![(Some(id(50)), vec![id(2), id(5)]), (Some(id(60)), vec![id(4)]), (None, vec![id(1)])]);
    assert_eq!(window[0].group_id.as_ref().unwrap().description, "Lights");
    assert_eq!(labels.iter().map(|p| p.id).collect::<Vec<_>>(), vec![id(6)]);
    let (window, _) = sort_items(items, &h, true);
    let shape: Vec<(Option<ItemId>, Vec<ItemId>)> =
        window.iter().map(|g| (g.group_id.as_ref().map(|p| p.id), g.group_events.iter().map(|p| p.id).collect())).collect();
    assert_eq!(
        shape,
        vec![(Some(id(50)), vec![id(2), id(5)]), (Some(id(60)), vec![id(4), id(8)]), (None, vec![id(1), id(3)])]
    );
}

#[test]
fn sort_groups_adds_to_existing_or_new_group() {
    let mut groups: Vec<EventGroup> = Vec::new();
    sort_groups(&mut groups, pair(50, DisplayType::Hidden), pair(1, DisplayType::DisplayControl));
    sort_groups(&mut groups, pair(60, DisplayType::Hidden), pair(2, DisplayType::DisplayControl));
    sort_groups(&mut groups, pair(50, DisplayType::Hidden), pair(3, DisplayType::DisplayControl));
    assert_eq!(groups.len(), 2);
    assert_eq!(groups[0].group_events.iter().map(|p| p.id).collect::<Vec<_>>(), vec![id(1), id(3)]);
    assert_eq!(groups[1].group_events.iter().map(|p| p.id).collect::<Vec<_>>(), vec![id(2)]);
}

fn next_update(rx: &mpsc::Receiver<InterfaceUpdate>) -> InterfaceUpdate {
    rx.recv_timeout(Duration::from_secs(2)).expect("an interface update")
}

#[test]
fn test_system_interface() {
    let (ui_tx, ui_rx) = mpsc::channel();
    let (net_tx, net_rx) = mpsc::channel();
    let (mut system, mut send) = SystemInterface::new(ui_tx, net_tx);

    send.send(SystemUpdate::ConfigFile { config: Some(config()) });
    while ui_rx.try_recv().is_err() {
        assert!(system.run_once());
    }
    match next_update(&ui_rx) {
        InterfaceUpdate::UpdateWindow { current_scene, .. } => assert_eq!(current_scene.description, "Scene One"),
        other => panic!("unexpected {:?}", other),
    }

    // An event whose detail cues another: the cued event is dispatched on a
    // later turn, after the scene change of the first one.
    send.send(SystemUpdate::ProcessEvent { event: id(3), check_scene: true, broadcast: false });
    assert!(system.run_once());
    match next_update(&ui_rx) {
        InterfaceUpdate::UpdateNotifications { notifications } => {
            assert_eq!(notifications, vec![Notification { level: LogLevel::Current, message: "Event: Finale".to_string() }])
        }
        other => panic!("unexpected {:?}", other),
    }
    assert!(matches!(next_update(&ui_rx), InterfaceUpdate::UpdateWindow { .. }));
    assert_eq!(next_update(&ui_rx), InterfaceUpdate::Notify { message: "Finale".to_string() });
    assert!(system.run_once());
    assert!(ui_rx.try_recv().is_err());
    assert!(net_rx.try_recv().is_err());

    // A queued event fires through the queue and reaches the network.
    send.send(SystemUpdate::SceneChange { scene: id(100) });
    send.send(SystemUpdate::QueueEvent { event_delay: EventDelay { delay: Some(0), event_id: id(1) } });
    for _ in 0..6 {
        assert!(system.run_once());
    }
    assert_eq!(net_rx.recv_timeout(Duration::from_secs(2)), Ok((id(1), Some(7))));
    assert_eq!(net_rx.recv_timeout(Duration::from_secs(2)), Ok((id(1), None)));

    send.send(SystemUpdate::AllStop);
    assert!(system.run_once());
    assert_eq!(net_rx.recv_timeout(Duration::from_secs(2)), Ok((ItemId::all_stop(), None)));

    send.send(SystemUpdate::Request {
        reply_to: DisplayComponent::TriggerDialog,
        request: RequestType::Description { item_id: id(2) },
    });
    send.send(SystemUpdate::Close);
    let mut replies = Vec::new();
    while system.run_once() {}
    while let Ok(update) = ui_rx.try_recv() {
        if let InterfaceUpdate::Reply { reply_to, reply } = update {
            replies.push((reply_to, reply));
        }
    }
    assert_eq!(
        replies,
        vec![(
            DisplayComponent::TriggerDialog,
            ReplyType::Description {
                description: ItemDescription::new(
                    "Flash Lights".to_string(),
                    DisplayType::DisplayWith { group_id: id(50) }
                )
            }
        )]
    );
    let _ = WindowType::Shortcuts;
}

#[test]
fn after_receive_maps_each_wait_outcome() {
    let (ui_tx, ui_rx) = mpsc::channel();
    let (net_tx, net_rx) = mpsc::channel();
    let (mut system, _send) = SystemInterface::new(ui_tx, net_tx);
    assert!(system.after_receive(Received::Idle, 0));
    assert!(!system.after_receive(Received::Closed, 0));
    assert!(ui_rx.try_recv().is_err());
    let event = ItemPair::new(id(9), "Bell".to_string(), DisplayType::Hidden);
    assert!(system.after_receive(Received::Message(SystemUpdate::BroadcastEvent { event, data: Some(3) }), 0));
    assert_eq!(net_rx.try_recv(), Ok((id(9), Some(3))));
    assert_eq!(ui_rx.try_recv(), Ok(InterfaceUpdate::Notify { message: "Bell".to_string() }));
    assert!(!system.after_receive(Received::Message(SystemUpdate::Close), 0));
}
