use axplat_riscv64_common::registry::{HandlerRegistry, MAX_CHANNELS};

#[test]
fn capacity_is_1024() {
    assert_eq!(MAX_CHANNELS, 1024);
}

#[test]
fn new_table_has_no_handler() {
    let table: HandlerRegistry<u32> = HandlerRegistry::new();
    for id in [0, 1, 5, 1023, 1024, usize::MAX] {
        assert_eq!(table.dispatch(id), None);
    }
}

#[test]
fn second_registration_fails_and_first_handler_stays() {
    for id in [0usize, 1, 5, 512, 1023] {
        let mut table: HandlerRegistry<u32> = HandlerRegistry::new();
        assert!(table.register(id, 11));
        assert!(!table.register(id, 22));
        assert_eq!(table.dispatch(id), Some(11));
    }
}

#[test]
fn channel_is_free_after_unregister() {
    let mut table: HandlerRegistry<u32> = HandlerRegistry::new();
    assert!(table.register(7, 11));
    assert_eq!(table.unregister(7), Some(11));
    assert_eq!(table.dispatch(7), None);
    assert!(table.register(7, 22));
    assert_eq!(table.dispatch(7), Some(22));
}

#[test]
fn unregister_of_empty_slot_gives_none() {
    let mut table: HandlerRegistry<u32> = HandlerRegistry::new();
    assert_eq!(table.unregister(3), None);
    assert!(table.register(3, 1));
    assert_eq!(table.unregister(3), Some(1));
    assert_eq!(table.unregister(3), None);
}

#[test]
fn dispatch_of_unregistered_channel_changes_nothing() {
    let mut table: HandlerRegistry<u32> = HandlerRegistry::new();
    assert!(table.register(4, 44));
    assert_eq!(table.dispatch(5), None);
    assert_eq!(table.dispatch(5), None);
    assert_eq!(table.dispatch(4), Some(44));
    assert!(table.register(5, 55));
    assert_eq!(table.dispatch(5), Some(55));
}

#[test]
fn channel_out_of_range_is_refused() {
    let mut table: HandlerRegistry<u32> = HandlerRegistry::new();
    assert!(!table.register(1024, 1));
    assert!(!table.register(usize::MAX, 1));
    assert_eq!(table.dispatch(1024), None);
    assert_eq!(table.unregister(1024), None);
    assert!(table.register(1023, 9));
    assert_eq!(table.dispatch(1023), Some(9));
}

#[test]
fn channels_do_not_disturb_each_other() {
    let mut table: HandlerRegistry<u32> = HandlerRegistry::new();
    assert!(table.register(1, 10));
    assert!(table.register(2, 20));
    assert_eq!(table.unregister(1), Some(10));
    assert_eq!(table.dispatch(2), Some(20));
    assert_eq!(table.dispatch(1), None);
}

#[test]
fn dispatched_handler_can_be_run() {
    let calls = std::cell::Cell::new(0usize);
    let seen = std::cell::Cell::new(0usize);
    let first = |channel: usize| {
        calls.set(calls.get() + 1);
        seen.set(channel);
    };
    let second = |_channel: usize| {
        calls.set(calls.get() + 100);
    };
    let first: &dyn Fn(usize) = &first;
    let second: &dyn Fn(usize) = &second;
    let mut table: HandlerRegistry<&dyn Fn(usize)> = HandlerRegistry::new();
    assert!(table.register(5, first));
    assert!(!table.register(5, second));
    match table.dispatch(5) {
        Some(handler) => handler(5),
        None => panic!("channel 5 has a handler"),
    }
    assert_eq!(calls.get(), 1);
    assert_eq!(seen.get(), 5);
}
