//! The table of device channel handlers.

use vstd::prelude::*;

verus! {

/// The number of device channels that can have a handler.
pub const MAX_CHANNELS: usize = 1024;

/// Whether `register` installs a handler for `id` in a table that holds `m`.
pub open spec fn can_register<H>(m: Map<usize, H>, id: usize) -> bool {
    id < MAX_CHANNELS && !m.contains_key(id)
}

/// What the table holds after `register(id, handler)`.
pub open spec fn after_register<H>(m: Map<usize, H>, id: usize, handler: H) -> Map<usize, H> {
    if can_register(m, id) {
        m.insert(id, handler)
    } else {
        m
    }
}

/// The handler that is installed for `id`, if there is one.
pub open spec fn lookup<H>(m: Map<usize, H>, id: usize) -> Option<H> {
    if m.contains_key(id) {
        Some(m[id])
    } else {
        None
    }
}

/// What the table holds after `unregister(id)`.
pub open spec fn after_unregister<H>(m: Map<usize, H>, id: usize) -> Map<usize, H> {
    m.remove(id)
}

/// A table with one slot for each of the `MAX_CHANNELS` device channels.
/// A slot is empty or holds one handler.
pub struct HandlerRegistry<H> {
    slots: Vec<Option<H>>,
}

impl<H: Copy> HandlerRegistry<H> {
    /// The table has a slot for every channel.
    pub closed spec fn wf(&self) -> bool {
        self.slots@.len() == MAX_CHANNELS
    }

    /// The installed handlers, by channel.
    pub closed spec fn view(&self) -> Map<usize, H> {
        Map::new(
            |id: usize| id < self.slots@.len() && self.slots@[id as int].is_some(),
            |id: usize| self.slots@[id as int].unwrap(),
        )
    }

    /// Only channels below `MAX_CHANNELS` ever have a handler.
    pub proof fn lemma_channels_in_range(&self)
        requires
            self.wf(),
        ensures
            forall|id: usize| self@.contains_key(id) ==> id < MAX_CHANNELS,
    {
    }

    /// A table in which every slot is empty.
    pub fn new() -> (table: Self)
        ensures
            table.wf(),
            table@ == Map::<usize, H>::empty(),
    {
        let mut slots: Vec<Option<H>> = Vec::new();
        while slots.len() < MAX_CHANNELS
            invariant
                slots@.len() <= MAX_CHANNELS,
                forall|i: int| 0 <= i < slots@.len() ==> slots@[i].is_none(),
            decreases MAX_CHANNELS - slots@.len(),
        {
            slots.push(None);
        }
        let table = HandlerRegistry { slots };
        assert(table@ =~= Map::<usize, H>::empty());
        table
    }

    /// Installs `handler` for channel `id` if the slot is empty. A channel at
    /// or above `MAX_CHANNELS` has no slot: the call then changes nothing and
    /// returns `false`, as it does for an occupied slot.
    pub fn register(&mut self, id: usize, handler: H) -> (installed: bool)
        requires
            old(self).wf(),
        ensures
            final(self).wf(),
            installed == can_register(old(self)@, id),
            final(self)@ == after_register(old(self)@, id, handler),
    {
        if id >= MAX_CHANNELS {
            return false;
        }
        if self.slots[id].is_some() {
            return false;
        }
        self.slots.set(id, Some(handler));
        assert(self@ =~= old(self)@.insert(id, handler));
        true
    }

    /// Empties the slot of channel `id` and returns the handler it held.
    pub fn unregister(&mut self, id: usize) -> (removed: Option<H>)
        requires
            old(self).wf(),
        ensures
            final(self).wf(),
            removed == lookup(old(self)@, id),
            final(self)@ == after_unregister(old(self)@, id),
    {
        if id >= MAX_CHANNELS {
            assert(self@ =~= old(self)@.remove(id));
            return None;
        }
        let removed = self.slots[id];
        self.slots.set(id, None);
        assert(self@ =~= old(self)@.remove(id));
        removed
    }

    /// The handler to run for channel `id`: the one installed, or `None`
    /// where the slot is empty or the channel has no slot. The table is left
    /// as it is.
    pub fn dispatch(&self, id: usize) -> (handler: Option<H>)
        requires
            self.wf(),
        ensures
            handler == lookup(self@, id),
    {
        if id >= MAX_CHANNELS {
            return None;
        }
        self.slots[id]
    }
}

/// One step in the life of a table.
pub enum TableOp<H> {
    /// `register(id, handler)`.
    Register(usize, H),
    /// `unregister(id)`.
    Unregister(usize),
}

/// What a table holds that was created empty and then went through `ops`, in
/// order.
pub open spec fn replay<H>(ops: Seq<TableOp<H>>) -> Map<usize, H>
    decreases ops.len(),
{
    if ops.len() == 0 {
        Map::empty()
    } else {
        match ops.last() {
            TableOp::Register(id, handler) => after_register(replay(ops.drop_last()), id, handler),
            TableOp::Unregister(id) => after_unregister(replay(ops.drop_last()), id),
        }
    }
}

/// Registration is exclusive: of two registrations for a free channel, with
/// no `unregister` between them, the first succeeds and the second fails and
/// changes nothing, so that `dispatch` still yields the first handler.
pub proof fn lemma_exclusive_registration<H>(m: Map<usize, H>, id: usize, first: H, second: H)
    requires
        can_register(m, id),
    ensures
        !can_register(after_register(m, id, first), id),
        after_register(after_register(m, id, first), id, second) == after_register(m, id, first),
        lookup(after_register(after_register(m, id, first), id, second), id) == Some(first),
{
}

/// A channel is free again after `unregister`: the call returns the handler
/// that was registered, and the next registration succeeds.
pub proof fn lemma_free_after_unregister<H>(m: Map<usize, H>, id: usize, handler: H)
    requires
        can_register(m, id),
    ensures
        lookup(after_register(m, id, handler), id) == Some(handler),
        can_register(after_unregister(after_register(m, id, handler), id), id),
{
}

/// A channel for which no handler was ever registered has none: `dispatch`
/// yields `None` for it, whatever was done for other channels.
pub proof fn lemma_never_registered_is_unhandled<H>(ops: Seq<TableOp<H>>, id: usize)
    requires
        forall|k: int|
            0 <= k < ops.len() ==> !(#[trigger] ops[k] matches TableOp::Register(other, _)
                && other == id),
    ensures
        lookup(replay(ops), id) is None,
    decreases ops.len(),
{
    if ops.len() > 0 {
        let earlier = ops.drop_last();
        assert forall|k: int| 0 <= k < earlier.len() implies !(#[trigger] earlier[k] matches TableOp::Register(
            other,
            _,
        ) && other == id) by {
            assert(earlier[k] == ops[k]);
        }
        lemma_never_registered_is_unhandled(earlier, id);
        assert(ops.last() == ops[ops.len() - 1]);
    }
}

} // verus!
