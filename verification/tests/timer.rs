use axplat_riscv64_common::timer::TimerSlot;

#[test]
fn new_slot_is_empty() {
    let slot: TimerSlot<u32> = TimerSlot::new();
    assert_eq!(slot.dispatch(), None);
}

#[test]
fn first_registration_wins() {
    let mut slot: TimerSlot<u32> = TimerSlot::new();
    assert!(slot.register(1));
    assert!(!slot.register(2));
    assert_eq!(slot.dispatch(), Some(1));
}

#[test]
fn exactly_one_of_many_registrations_succeeds() {
    let mut slot: TimerSlot<u32> = TimerSlot::new();
    let mut successes = 0;
    for handler in [30u32, 10, 20, 40, 50, 60, 70, 80] {
        if slot.register(handler) {
            successes += 1;
        }
    }
    assert_eq!(successes, 1);
    assert_eq!(slot.unregister(), Some(30));
}

#[test]
fn unregister_empties_the_slot() {
    let mut slot: TimerSlot<u32> = TimerSlot::new();
    assert_eq!(slot.unregister(), None);
    assert!(slot.register(7));
    assert_eq!(slot.unregister(), Some(7));
    assert_eq!(slot.dispatch(), None);
    assert_eq!(slot.unregister(), None);
    assert!(slot.register(8));
    assert_eq!(slot.dispatch(), Some(8));
}

#[test]
fn dispatch_leaves_the_handler_in_place() {
    let mut slot: TimerSlot<u32> = TimerSlot::new();
    assert!(slot.register(3));
    assert_eq!(slot.dispatch(), Some(3));
    assert_eq!(slot.dispatch(), Some(3));
    assert!(!slot.register(4));
}
