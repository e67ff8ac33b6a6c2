use fco_backup::session::SessionSlot;

#[test]
fn session_is_made_once_and_replaced_after_invalidation() {
    let mut slot: SessionSlot<u32> = SessionSlot::new();
    assert!(slot.needs_session());
    assert_eq!(slot.current(), None);
    slot.install(1);
    assert!(!slot.needs_session());
    assert_eq!(slot.current(), Some(&1));
    assert_eq!(slot.invalidate(), Some(1));
    assert!(slot.needs_session());
    assert_eq!(slot.invalidate(), None);
    slot.install(2);
    assert_eq!(slot.current(), Some(&2));
}
