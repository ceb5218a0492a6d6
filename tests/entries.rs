use subscriber_map::{Entry, EntryState, InsertError};

#[test]
fn state_wakes_every_ticket_once() {
    let mut st: EntryState<u32> = EntryState::new();
    assert!(!st.is_set());
    st.register(1, 10);
    st.register(2, 20);
    st.register(1, 11);
    assert_eq!(st.wake(), vec![11, 20]);
    assert!(st.is_set());
    assert_eq!(st.wake(), Vec::<u32>::new());
}

#[test]
fn state_keeps_registration_once_set() {
    let mut st: EntryState<u32> = EntryState::new();
    assert_eq!(st.wake(), Vec::<u32>::new());
    st.register(3, 30);
    assert!(st.is_set());
    assert_eq!(st.wake(), vec![30]);
    assert_eq!(st.wake(), Vec::<u32>::new());
}

#[test]
fn entry_fill_then_read() {
    let mut e: Entry<String, u8> = Entry::new();
    assert!(!e.is_set());
    assert_eq!(e.read(), None);
    assert_eq!(e.register(0, 5), None);
    assert_eq!(e.fill("v".to_string()), Ok(vec![5]));
    assert!(e.is_set());
    assert_eq!(e.read(), Some("v".to_string()));
    assert_eq!(e.register(1, 6), Some(6));
}

#[test]
fn entry_second_fill_keeps_value() {
    let mut e: Entry<i64, u8> = Entry::new();
    assert_eq!(e.fill(-3), Ok(vec![]));
    assert_eq!(e.fill(4), Err(InsertError::AlreadySet));
    assert_eq!(e.read(), Some(-3));
}

#[test]
fn entry_tickets_count_up() {
    let mut e: Entry<i64, u8> = Entry::new();
    assert_eq!(e.issue_ticket(), 0);
    assert_eq!(e.issue_ticket(), 1);
    let (e, t) = Entry::subscribe_step(Some(e));
    assert_eq!(t, 2);
    let (_, t) = Entry::subscribe_step(Some(e));
    assert_eq!(t, 3);
    let (_, t) = Entry::<i64, u8>::subscribe_step(None);
    assert_eq!(t, 0);
}

#[test]
fn steps_on_absent_entry() {
    let (e, r) = Entry::<i32, u8>::insert_step(None, 8);
    assert_eq!(r, Ok(vec![]));
    let (e, r) = Entry::insert_step(Some(e), 9);
    assert_eq!(r, Err(InsertError::AlreadySet));
    let (_, v) = Entry::read_step(Some(e));
    assert_eq!(v, Some(8));
    let (e, v) = Entry::<i32, u8>::poll_step(None, 4, 40);
    assert_eq!(v, None);
    let (e, v) = Entry::read_step(Some(e));
    assert_eq!(v, None);
    let (e, r) = Entry::insert_step(Some(e), 1);
    assert_eq!(r, Ok(vec![40]));
    let (e, v) = Entry::poll_step(Some(e), 5, 50);
    assert_eq!(v, Some(1));
    let (_, r) = Entry::insert_step(Some(e), 2);
    assert_eq!(r, Err(InsertError::AlreadySet));
}
