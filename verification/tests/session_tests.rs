use media_controller::session::{CoordError, LockOutcome, Role, SharedDisplayState};

#[test]
fn lock_winner_becomes_owner() {
    let r = Role::Starting.on_lock(LockOutcome::Acquired);
    assert_eq!(r, Ok(Role::Owner));
}

#[test]
fn lock_loser_becomes_client() {
    let r = Role::Starting.on_lock(LockOutcome::Contended);
    assert_eq!(r, Ok(Role::Client));
}

#[test]
fn unopenable_lock_is_fatal() {
    let r = Role::Starting.on_lock(LockOutcome::Unavailable);
    assert_eq!(r, Err(CoordError::LockUnavailable));
}

#[test]
fn one_owner_among_three_racers() {
    // one invocation wins the race, the other two observe contention
    let outcomes = [LockOutcome::Contended, LockOutcome::Acquired, LockOutcome::Contended];
    let mut owners = 0;
    let mut clients = 0;
    for o in outcomes {
        match Role::Starting.on_lock(o).unwrap() {
            Role::Owner => owners += 1,
            Role::Client => clients += 1,
            _ => panic!("unexpected role"),
        }
    }
    assert_eq!(owners, 1);
    assert_eq!(clients, 2);
}

#[test]
fn bind_failure_is_fatal_to_owner() {
    assert_eq!(Role::Owner.on_bind(true), Ok(Role::Owner));
    assert_eq!(Role::Owner.on_bind(false), Err(CoordError::BindFailure));
}

#[test]
fn client_exits_after_send() {
    let (role, err) = Role::Client.on_send(true);
    assert_eq!(role, Role::Exited);
    assert!(err.is_none());
    let (role, err) = Role::Client.on_send(false);
    assert_eq!(role, Role::Exited);
    assert_eq!(err, Some(CoordError::OwnerUnreachable));
}

#[test]
fn owner_exits_on_expiry() {
    assert_eq!(Role::Owner.on_expiry(), Role::Exited);
}

#[test]
fn fresh_session_has_one_pending_cycle() {
    let s = SharedDisplayState::new(String::from("VOL: 50%"));
    assert_eq!(s.count(), 1);
    assert_eq!(s.snapshot_label(), "VOL: 50%");
}

#[test]
fn refresh_bumps_counter_and_saturates() {
    let mut s = SharedDisplayState::new(String::from("VOL: 50%"));
    assert_eq!(s.count(), 1);
    assert!(s.apply_refresh("VOL: 55%".as_bytes()).is_ok());
    assert_eq!(s.count(), 2);
    assert!(s.apply_refresh("VOL: 60%".as_bytes()).is_ok());
    assert_eq!(s.count(), 2);
    assert!(s.apply_refresh("VOL: 65%".as_bytes()).is_ok());
    assert_eq!(s.count(), 2);
}

#[test]
fn refresh_stores_label_byte_identically() {
    let mut s = SharedDisplayState::new(String::from("start"));
    let sent = "BRT: \u{2588}\u{2588}\u{258c}       25%";
    assert!(s.apply_refresh(sent.as_bytes()).is_ok());
    assert_eq!(s.snapshot_label().as_bytes(), sent.as_bytes());
}

#[test]
fn invalid_utf8_is_rejected_without_effect() {
    let mut s = SharedDisplayState::new(String::from("VOL: 50%"));
    let bad = [0xffu8, 0xfe, 0x41];
    assert_eq!(s.apply_refresh(&bad), Err(CoordError::DecodeFailure));
    assert_eq!(s.snapshot_label(), "VOL: 50%");
    assert_eq!(s.count(), 1);
    // a later, well-formed refresh from another client still succeeds
    assert!(s.apply_refresh("VOL: 55%".as_bytes()).is_ok());
    assert_eq!(s.snapshot_label(), "VOL: 55%");
    assert_eq!(s.count(), 2);
}

#[test]
fn oversized_payload_is_rejected() {
    let mut s = SharedDisplayState::new(String::from("VOL: 50%"));
    let big = vec![b'a'; 1025];
    assert_eq!(s.apply_refresh(&big), Err(CoordError::DecodeFailure));
    assert_eq!(s.snapshot_label(), "VOL: 50%");
    let exact = vec![b'a'; 1024];
    assert!(s.apply_refresh(&exact).is_ok());
    assert_eq!(s.snapshot_label().len(), 1024);
}

#[test]
fn truncated_multibyte_payload_is_rejected() {
    let mut s = SharedDisplayState::new(String::from("VOL: 50%"));
    let bytes = "VOL: \u{2588}".as_bytes();
    let cut = &bytes[..bytes.len() - 1];
    assert_eq!(s.apply_refresh(cut), Err(CoordError::DecodeFailure));
    assert_eq!(s.snapshot_label(), "VOL: 50%");
}

#[test]
fn session_expires_after_counted_cycles() {
    let mut s = SharedDisplayState::new(String::from("VOL: 50%"));
    assert!(!s.expired());
    s.tick();
    assert!(s.expired());
}

#[test]
fn refreshed_session_outlives_one_more_cycle() {
    // the owner starts with "VOL: 50%" and a counter of one; a client
    // refreshes with "VOL: 55%" during the first cycle, so the session ends
    // two full cycles later rather than at the end of the first
    let mut s = SharedDisplayState::new(String::from("VOL: 50%"));
    assert!(s.apply_refresh("VOL: 55%".as_bytes()).is_ok());
    assert_eq!(s.snapshot_label(), "VOL: 55%");
    assert_eq!(s.count(), 2);
    s.tick();
    assert!(!s.expired());
    s.tick();
    assert!(s.expired());
    assert_eq!(s.snapshot_label(), "VOL: 55%");
}
