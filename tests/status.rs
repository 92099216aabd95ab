use minerva::status::{Status, StatusError, StatusMap};
use minerva::ItemId;

fn id(n: u32) -> ItemId {
    ItemId::new(n)
}

fn table() -> StatusMap {
    StatusMap::from_list(vec![
        Status { status_id: id(10), current: id(11), allowed: vec![id(11), id(12)] },
        Status { status_id: id(20), current: id(0), allowed: vec![] },
    ])
}

#[test]
fn set_state_is_idempotent() {
    let mut t = table();
    assert_eq!(t.set_state(id(10), id(12)), Ok(id(12)));
    let once = t.snapshot();
    assert_eq!(t.set_state(id(10), id(12)), Ok(id(12)));
    assert_eq!(t.snapshot(), once);
    assert_eq!(t.get_state(id(10)), Some(id(12)));
}

#[test]
fn state_outside_allowed_set_is_refused() {
    let mut t = table();
    let before = t.snapshot();
    assert_eq!(t.set_state(id(10), id(13)), Err(StatusError::InvalidTransition));
    assert_eq!(t.get_state(id(10)), Some(id(11)));
    assert_eq!(t.snapshot(), before);
}

#[test]
fn unknown_status_is_refused() {
    let mut t = table();
    assert_eq!(t.set_state(id(30), id(1)), Err(StatusError::UnknownStatus));
    assert_eq!(t.get_state(id(30)), None);
}

#[test]
fn empty_allowed_set_accepts_any_state() {
    let mut t = table();
    assert_eq!(t.set_state(id(20), id(999)), Ok(id(999)));
    assert_eq!(t.get_state(id(20)), Some(id(999)));
    assert_eq!(t.allowed_states(id(20)), Some(vec![]));
    assert_eq!(t.allowed_states(id(10)), Some(vec![id(11), id(12)]));
}

#[test]
fn later_status_entry_replaces_earlier() {
    let t = StatusMap::from_list(vec![
        Status { status_id: id(1), current: id(2), allowed: vec![] },
        Status { status_id: id(1), current: id(3), allowed: vec![] },
    ]);
    assert_eq!(t.get_state(id(1)), Some(id(3)));
    assert_eq!(t.snapshot().len(), 1);
}

#[test]
fn status_outside_its_allowed_states_is_left_out() {
    let t = StatusMap::from_list(vec![
        Status { status_id: id(1), current: id(2), allowed: vec![id(2)] },
        Status { status_id: id(1), current: id(5), allowed: vec![id(2), id(3)] },
        Status { status_id: id(4), current: id(6), allowed: vec![id(7)] },
    ]);
    assert_eq!(t.get_state(id(1)), Some(id(2)));
    assert_eq!(t.get_state(id(4)), None);
}
