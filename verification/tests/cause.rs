use axplat_riscv64_common::cause::{classify, InterruptClass, INTC_IRQ_BASE, S_EXT, S_SOFT, S_TIMER};

#[test]
fn interrupt_bit_is_the_top_bit() {
    assert_eq!(INTC_IRQ_BASE, 1usize << (usize::BITS - 1));
    assert_eq!(S_SOFT, INTC_IRQ_BASE + 1);
    assert_eq!(S_TIMER, INTC_IRQ_BASE + 5);
    assert_eq!(S_EXT, INTC_IRQ_BASE + 9);
}

#[test]
fn timer_cause_is_timer() {
    assert_eq!(classify(S_TIMER), InterruptClass::Timer);
}

#[test]
fn external_cause_is_external_signal() {
    assert_eq!(classify(S_EXT), InterruptClass::ExternalSignal);
}

#[test]
fn cause_without_interrupt_bit_is_a_device_channel() {
    assert_eq!(classify(0), InterruptClass::DeviceChannel(0));
    assert_eq!(classify(5), InterruptClass::DeviceChannel(5));
    assert_eq!(classify(9), InterruptClass::DeviceChannel(9));
    assert_eq!(classify(1023), InterruptClass::DeviceChannel(1023));
    assert_eq!(classify(1024), InterruptClass::DeviceChannel(1024));
    assert_eq!(
        classify(INTC_IRQ_BASE - 1),
        InterruptClass::DeviceChannel(INTC_IRQ_BASE - 1)
    );
}

#[test]
fn other_core_causes_are_invalid() {
    assert_eq!(classify(INTC_IRQ_BASE), InterruptClass::Invalid);
    assert_eq!(classify(S_SOFT), InterruptClass::Invalid);
    assert_eq!(classify(INTC_IRQ_BASE + 4), InterruptClass::Invalid);
    assert_eq!(classify(INTC_IRQ_BASE + 6), InterruptClass::Invalid);
    assert_eq!(classify(INTC_IRQ_BASE + 8), InterruptClass::Invalid);
    assert_eq!(classify(INTC_IRQ_BASE + 10), InterruptClass::Invalid);
    assert_eq!(classify(usize::MAX), InterruptClass::Invalid);
}

#[test]
fn classification_is_the_same_each_time() {
    for raw in [0, 7, S_TIMER, S_EXT, S_SOFT, usize::MAX] {
        assert_eq!(classify(raw), classify(raw));
    }
}
