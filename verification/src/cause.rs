//! Classification of raw trap causes.

use vstd::prelude::*;

verus! {

/// The interrupt bit of `scause`: set for causes raised by the core itself,
/// clear for device channel numbers handed out by the interrupt controller.
pub const INTC_IRQ_BASE: usize = usize::MAX / 2 + 1;

/// Supervisor software interrupt in `scause`.
pub const S_SOFT: usize = INTC_IRQ_BASE + 1;

/// Supervisor timer interrupt in `scause`.
pub const S_TIMER: usize = INTC_IRQ_BASE + 5;

/// Supervisor external interrupt in `scause`.
pub const S_EXT: usize = INTC_IRQ_BASE + 9;

/// What a raw cause stands for.
#[derive(Clone, Copy, Debug, PartialEq, Eq, Structural)]
pub enum InterruptClass {
    /// The supervisor timer of the core.
    Timer,
    /// The controller signals that some device channel is pending.
    ExternalSignal,
    /// A device channel number, as the controller reports it after a claim.
    DeviceChannel(usize),
    /// A core-local cause that is neither of the two known ones.
    Invalid,
}

/// Whether the interrupt bit of `raw` is set.
pub open spec fn is_cpu_local(raw: usize) -> bool {
    raw >= INTC_IRQ_BASE
}

/// The class of a raw cause.
pub open spec fn class_of(raw: usize) -> InterruptClass {
    if raw == S_TIMER {
        InterruptClass::Timer
    } else if raw == S_EXT {
        InterruptClass::ExternalSignal
    } else if is_cpu_local(raw) {
        InterruptClass::Invalid
    } else {
        InterruptClass::DeviceChannel(raw)
    }
}

/// Classifies a raw cause.
pub fn classify(raw: usize) -> (class: InterruptClass)
    ensures
        class == class_of(raw),
{
    if raw == S_TIMER {
        InterruptClass::Timer
    } else if raw == S_EXT {
        InterruptClass::ExternalSignal
    } else if raw < INTC_IRQ_BASE {
        InterruptClass::DeviceChannel(raw)
    } else {
        InterruptClass::Invalid
    }
}

/// The interrupt bit is the top bit of the machine word: a cause is one of
/// the core exactly when that bit is set in it.
pub proof fn lemma_interrupt_bit_is_top_bit(raw: usize)
    ensures
        usize::BITS == 64 ==> (is_cpu_local(raw) <==> (raw as u64) & 0x8000_0000_0000_0000u64
            != 0),
        usize::BITS == 32 ==> (is_cpu_local(raw) <==> (raw as u32) & 0x8000_0000u32 != 0),
{
    if usize::BITS == 64 {
        let wide = raw as u64;
        assert(wide >= 0x8000_0000_0000_0000u64 <==> wide & 0x8000_0000_0000_0000u64 != 0)
            by (bit_vector);
    } else {
        let narrow = raw as u32;
        assert(narrow >= 0x8000_0000u32 <==> narrow & 0x8000_0000u32 != 0) by (bit_vector);
    }
}

/// The two known causes of the core carry the interrupt bit, and no device
/// channel number is taken for one of them.
pub proof fn lemma_classes_are_apart(raw: usize)
    ensures
        class_of(raw) is Timer <==> raw == S_TIMER,
        class_of(raw) is ExternalSignal <==> raw == S_EXT,
        class_of(raw) is DeviceChannel <==> !is_cpu_local(raw),
        class_of(raw) is Invalid <==> is_cpu_local(raw) && raw != S_TIMER && raw != S_EXT,
        class_of(raw) matches InterruptClass::DeviceChannel(channel) ==> channel == raw,
{
}

} // verus!
