//! The handler slot of the timer.

use vstd::prelude::*;

verus! {

/// What the slot holds after `register(handler)`: the first handler stays.
pub open spec fn slot_after_register<H>(slot: Option<H>, handler: H) -> Option<H> {
    if slot is None {
        Some(handler)
    } else {
        slot
    }
}

/// What the slot holds after `register` was called with each handler of
/// `handlers` in turn.
pub open spec fn slot_after_registers<H>(slot: Option<H>, handlers: Seq<H>) -> Option<H>
    decreases handlers.len(),
{
    if handlers.len() == 0 {
        slot
    } else {
        slot_after_register(slot_after_registers(slot, handlers.drop_last()), handlers.last())
    }
}

/// Whether call number `k` succeeds when `register` is called with each
/// handler of `handlers` in turn, starting from `slot`.
pub open spec fn register_wins<H>(slot: Option<H>, handlers: Seq<H>, k: int) -> bool {
    slot_after_registers(slot, handlers.take(k)) is None
}

/// The one timer handler of the system. All cores share it.
pub struct TimerSlot<H> {
    handler: Option<H>,
}

impl<H: Copy> TimerSlot<H> {
    /// The handler in the slot, if there is one.
    pub closed spec fn view(&self) -> Option<H> {
        self.handler
    }

    /// An empty slot.
    pub fn new() -> (slot: Self)
        ensures
            slot@ is None,
    {
        TimerSlot { handler: None }
    }

    /// Puts `handler` into the slot if the slot is empty. An occupied slot
    /// keeps the handler it has, and the call returns `false`.
    pub fn register(&mut self, handler: H) -> (installed: bool)
        ensures
            installed == (old(self)@ is None),
            final(self)@ == slot_after_register(old(self)@, handler),
    {
        if self.handler.is_some() {
            return false;
        }
        self.handler = Some(handler);
        true
    }

    /// Empties the slot and returns the handler it held.
    pub fn unregister(&mut self) -> (removed: Option<H>)
        ensures
            removed == old(self)@,
            final(self)@ is None,
    {
        let removed = self.handler;
        self.handler = None;
        removed
    }

    /// The handler to run when the timer fires. An empty slot is no error:
    /// the timer interrupt then passes without effect.
    pub fn dispatch(&self) -> (handler: Option<H>)
        ensures
            handler == self@,
    {
        self.handler
    }
}

/// However many handlers are offered to an occupied slot, it keeps the one
/// it has.
pub proof fn lemma_occupied_slot_keeps_handler<H>(held: H, handlers: Seq<H>)
    ensures
        slot_after_registers(Some(held), handlers) == Some(held),
    decreases handlers.len(),
{
    if handlers.len() > 0 {
        lemma_occupied_slot_keeps_handler(held, handlers.drop_last());
    }
}

/// Exchange once: when any number of registrations reach an empty slot, in
/// whatever order they take effect, the first succeeds and no other does, and
/// the slot then holds the handler of that first one, which a later
/// `unregister` returns.
pub proof fn lemma_timer_exchange_once<H>(handlers: Seq<H>)
    requires
        handlers.len() > 0,
    ensures
        register_wins(None::<H>, handlers, 0),
        forall|k: int| 0 < k < handlers.len() ==> !register_wins(None::<H>, handlers, k),
        slot_after_registers(None::<H>, handlers) == Some(handlers[0]),
{
    lemma_first_registration_stays(handlers);
    assert forall|k: int| 0 < k < handlers.len() implies !register_wins(
        None::<H>,
        handlers,
        k,
    ) by {
        lemma_first_registration_stays(handlers.take(k));
    }
}

/// After one or more registrations on an empty slot the slot holds the handler
/// of the first.
pub proof fn lemma_first_registration_stays<H>(handlers: Seq<H>)
    requires
        handlers.len() > 0,
    ensures
        slot_after_registers(None::<H>, handlers) == Some(handlers[0]),
    decreases handlers.len(),
{
    if handlers.len() > 1 {
        lemma_first_registration_stays(handlers.drop_last());
    } else {
        assert(slot_after_registers(None::<H>, handlers.drop_last()) == None::<H>);
    }
}

} // verus!
