use minerva::queue::{ComingEvent, EventQueue, QueueError};
use minerva::ItemId;

fn id(n: u32) -> ItemId {
    ItemId::new(n)
}

#[test]
fn pop_ready_returns_due_entries_in_fire_order_with_fifo_ties() {
    let mut q = EventQueue::new();
    q.schedule(id(1), 30, 0);
    q.schedule(id(2), 10, 0);
    q.schedule(id(3), 10, 0);
    q.schedule(id(4), 50, 0);
    q.schedule(id(5), 0, 20);
    assert_eq!(q.pop_ready(25), vec![id(2), id(3), id(5)]);
    assert_eq!(q.len(), 2);
    assert_eq!(q.pop_ready(25), Vec::<ItemId>::new());
    assert_eq!(q.pop_ready(100), vec![id(1), id(4)]);
    assert!(q.is_empty());
}

#[test]
fn pop_ready_never_returns_later_entries() {
    let mut q = EventQueue::new();
    q.schedule(id(7), 5, 10);
    assert_eq!(q.pop_ready(14), Vec::<ItemId>::new());
    assert_eq!(q.pop_ready(15), vec![id(7)]);
}

#[test]
fn zero_delay_fires_on_next_tick() {
    let mut q = EventQueue::new();
    let entry = q.schedule(id(1), 0, 42);
    assert_eq!(entry, ComingEvent { event_id: id(1), start_time: 42, fire_time: 42 });
    assert_eq!(q.pop_ready(42), vec![id(1)]);
}

#[test]
fn huge_delay_saturates() {
    let mut q = EventQueue::new();
    let entry = q.schedule(id(1), u64::MAX, 10);
    assert_eq!(entry.fire_time, u64::MAX);
    assert_eq!(q.pop_ready(u64::MAX - 1), Vec::<ItemId>::new());
}

#[test]
fn shift_forward_then_back_restores_fire_times() {
    let mut q = EventQueue::new();
    q.schedule(id(1), 100, 0);
    q.schedule(id(2), 200, 0);
    let before = q.peek_upcoming();
    q.shift_all(50, false, 10);
    let moved: Vec<u64> = q.peek_upcoming().iter().map(|e| e.fire_time).collect();
    assert_eq!(moved, vec![150, 250]);
    q.shift_all(50, true, 10);
    assert_eq!(q.peek_upcoming(), before);
}

#[test]
fn shift_back_drops_entries_that_land_in_the_past() {
    let mut q = EventQueue::new();
    q.schedule(id(1), 30, 0);
    q.schedule(id(2), 100, 0);
    q.shift_all(50, true, 10);
    let left = q.peek_upcoming();
    assert_eq!(left, vec![ComingEvent { event_id: id(2), start_time: 0, fire_time: 50 }]);
}

#[test]
fn shift_to_exactly_now_is_kept() {
    let mut q = EventQueue::new();
    q.schedule(id(1), 60, 0);
    q.shift_all(50, true, 10);
    assert_eq!(q.pop_ready(10), vec![id(1)]);
}

#[test]
fn reschedule_unknown_start_time_is_not_found() {
    let mut q = EventQueue::new();
    q.schedule(id(1), 100, 5);
    q.schedule(id(2), 100, 5);
    let before = q.peek_upcoming();
    assert_eq!(q.reschedule(id(1), 6, Some(10)), Err(QueueError::NotFound));
    assert_eq!(q.reschedule(id(3), 5, None), Err(QueueError::NotFound));
    assert_eq!(q.peek_upcoming(), before);
}

#[test]
fn reschedule_moves_entry_relative_to_its_start() {
    let mut q = EventQueue::new();
    q.schedule(id(1), 100, 5);
    q.schedule(id(2), 50, 5);
    assert_eq!(q.reschedule(id(1), 5, Some(10)), Ok(()));
    let times: Vec<(ItemId, u64)> = q.peek_upcoming().iter().map(|e| (e.event_id, e.fire_time)).collect();
    assert_eq!(times, vec![(id(1), 15), (id(2), 55)]);
}

#[test]
fn reschedule_without_delay_cancels_only_the_first_match() {
    let mut q = EventQueue::new();
    q.schedule(id(1), 10, 5);
    q.schedule(id(1), 20, 5);
    q.schedule(id(1), 20, 7);
    assert_eq!(q.reschedule(id(1), 5, None), Ok(()));
    let left: Vec<(u64, u64)> = q.peek_upcoming().iter().map(|e| (e.start_time, e.fire_time)).collect();
    assert_eq!(left, vec![(5, 25), (7, 27)]);
}

#[test]
fn clear_empties_the_queue() {
    let mut q = EventQueue::new();
    q.schedule(id(1), 10, 0);
    q.schedule(id(2), 20, 0);
    q.clear();
    assert!(q.is_empty());
    assert_eq!(q.pop_ready(u64::MAX), Vec::<ItemId>::new());
}
