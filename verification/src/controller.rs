//! The adapter between the dispatcher and the hardware.
//!
//! Nothing here reaches a device. Each operation is recorded as a
//! [`Command`]; whoever owns the hardware takes the recorded commands and
//! carries them out in order.

use vstd::prelude::*;

verus! {

/// The privilege mode of a hart context at the interrupt controller.
#[derive(Clone, Copy, Debug, PartialEq, Eq, Structural)]
pub enum Mode {
    Machine,
    Supervisor,
}

/// An interrupt source of the core itself, with its own enable bit.
#[derive(Clone, Copy, Debug, PartialEq, Eq, Structural)]
pub enum LocalSource {
    Software,
    Timer,
    External,
}

/// One write to the hardware.
#[derive(Clone, Copy, Debug, PartialEq, Eq, Structural)]
pub enum Command {
    /// Set the enable bit of a source of the calling core.
    EnableLocal(LocalSource),
    /// Clear the enable bit of a source of the calling core.
    DisableLocal(LocalSource),
    /// Set the lowest priority that the hart accepts in the mode.
    SetThreshold { hart: u32, mode: Mode, level: u32 },
    /// Set the priority of a device channel.
    SetPriority { channel: usize, level: u32 },
    /// Deliver a device channel to the hart in the mode.
    Enable { hart: u32, mode: Mode, channel: usize },
    /// Stop delivering a device channel to the hart in the mode.
    Disable { hart: u32, mode: Mode, channel: usize },
    /// Tell the controller that the hart has served the channel it claimed.
    Complete { hart: u32, mode: Mode, channel: usize },
}

/// The interrupt controller and the enable bits, seen from the dispatcher:
/// the number of harts that take interrupts, and the writes that are still to
/// be carried out.
pub struct Controller {
    harts: u32,
    pending: Vec<Command>,
}

impl Controller {
    /// The commands that are recorded and not yet taken, oldest first.
    pub closed spec fn view(&self) -> Seq<Command> {
        self.pending@
    }

    /// The number of harts that take interrupts.
    pub closed spec fn hart_count(&self) -> u32 {
        self.harts
    }

    /// An adapter for `harts` harts with nothing recorded.
    pub fn new(harts: u32) -> (ctl: Self)
        ensures
            ctl.hart_count() == harts,
            ctl@ == Seq::<Command>::empty(),
    {
        Controller { harts, pending: Vec::new() }
    }

    /// The number of harts that take interrupts.
    pub fn harts(&self) -> (harts: u32)
        ensures
            harts == self.hart_count(),
    {
        self.harts
    }

    /// Records `command` behind what is already recorded.
    pub fn issue(&mut self, command: Command)
        ensures
            final(self).hart_count() == old(self).hart_count(),
            final(self)@ == old(self)@.push(command),
    {
        self.pending.push(command);
    }

    /// Records that the enable bit of `source` is to be set (`enabled`) or
    /// cleared on the calling core.
    pub fn set_local(&mut self, source: LocalSource, enabled: bool)
        ensures
            final(self).hart_count() == old(self).hart_count(),
            final(self)@ == old(self)@.push(local_command(source, enabled)),
    {
        if enabled {
            self.issue(Command::EnableLocal(source));
        } else {
            self.issue(Command::DisableLocal(source));
        }
    }

    /// Records the lowest priority that `hart` accepts in `mode`.
    pub fn set_threshold(&mut self, hart: u32, mode: Mode, level: u32)
        ensures
            final(self).hart_count() == old(self).hart_count(),
            final(self)@ == old(self)@.push((Command::SetThreshold { hart, mode, level })),
    {
        self.issue(Command::SetThreshold { hart, mode, level });
    }

    /// Records the priority of `channel`.
    pub fn set_priority(&mut self, channel: usize, level: u32)
        ensures
            final(self).hart_count() == old(self).hart_count(),
            final(self)@ == old(self)@.push((Command::SetPriority { channel, level })),
    {
        self.issue(Command::SetPriority { channel, level });
    }

    /// Records that `channel` is to be delivered to `hart` in `mode`.
    pub fn enable(&mut self, hart: u32, mode: Mode, channel: usize)
        ensures
            final(self).hart_count() == old(self).hart_count(),
            final(self)@ == old(self)@.push((Command::Enable { hart, mode, channel })),
    {
        self.issue(Command::Enable { hart, mode, channel });
    }

    /// Records that `channel` is no longer to be delivered to `hart` in `mode`.
    pub fn disable(&mut self, hart: u32, mode: Mode, channel: usize)
        ensures
            final(self).hart_count() == old(self).hart_count(),
            final(self)@ == old(self)@.push((Command::Disable { hart, mode, channel })),
    {
        self.issue(Command::Disable { hart, mode, channel });
    }

    /// Records that `hart` has served `channel`, which it claimed in `mode`.
    pub fn complete(&mut self, hart: u32, mode: Mode, channel: usize)
        ensures
            final(self).hart_count() == old(self).hart_count(),
            final(self)@ == old(self)@.push((Command::Complete { hart, mode, channel })),
    {
        self.issue(Command::Complete { hart, mode, channel });
    }

    /// Hands out the recorded commands, oldest first, and forgets them.
    pub fn take_pending(&mut self) -> (commands: Vec<Command>)
        ensures
            commands@ == old(self)@,
            final(self)@ == Seq::<Command>::empty(),
            final(self).hart_count() == old(self).hart_count(),
    {
        let mut commands: Vec<Command> = Vec::new();
        core::mem::swap(&mut self.pending, &mut commands);
        commands
    }
}

/// The command that sets or clears the enable bit of `source`.
pub open spec fn local_command(source: LocalSource, enabled: bool) -> Command {
    if enabled {
        Command::EnableLocal(source)
    } else {
        Command::DisableLocal(source)
    }
}

/// What the hardware holds, as far as the commands change it: the enable
/// bits of the core, and the thresholds, priorities and deliveries of the
/// interrupt controller.
pub struct Hardware {
    /// The sources of the core whose enable bit is set.
    pub local: Set<LocalSource>,
    /// The threshold of each hart context that has one set.
    pub threshold: Map<(u32, Mode), u32>,
    /// The priority of each channel that has one set.
    pub priority: Map<usize, u32>,
    /// The hart contexts and channels between which delivery is on.
    pub delivered: Set<(u32, Mode, usize)>,
    /// The channels that each hart context has completed, oldest first.
    pub completed: Seq<(u32, Mode, usize)>,
}

/// The hardware after `command` is carried out.
pub open spec fn carry_out(hw: Hardware, command: Command) -> Hardware {
    match command {
        Command::EnableLocal(source) => Hardware { local: hw.local.insert(source), ..hw },
        Command::DisableLocal(source) => Hardware { local: hw.local.remove(source), ..hw },
        Command::SetThreshold { hart, mode, level } => Hardware {
            threshold: hw.threshold.insert((hart, mode), level),
            ..hw
        },
        Command::SetPriority { channel, level } => Hardware {
            priority: hw.priority.insert(channel, level),
            ..hw
        },
        Command::Enable { hart, mode, channel } => Hardware {
            delivered: hw.delivered.insert((hart, mode, channel)),
            ..hw
        },
        Command::Disable { hart, mode, channel } => Hardware {
            delivered: hw.delivered.remove((hart, mode, channel)),
            ..hw
        },
        Command::Complete { hart, mode, channel } => Hardware {
            completed: hw.completed.push((hart, mode, channel)),
            ..hw
        },
    }
}

/// The hardware after `commands` are carried out in order.
pub open spec fn carry_out_all(hw: Hardware, commands: Seq<Command>) -> Hardware
    decreases commands.len(),
{
    if commands.len() == 0 {
        hw
    } else {
        carry_out(carry_out_all(hw, commands.drop_last()), commands.last())
    }
}

/// Carrying out commands in two batches is carrying them out in one.
pub proof fn lemma_carry_out_in_batches(hw: Hardware, front: Seq<Command>, back: Seq<Command>)
    ensures
        carry_out_all(hw, front + back) == carry_out_all(carry_out_all(hw, front), back),
    decreases back.len(),
{
    if back.len() == 0 {
        assert(front + back =~= front);
    } else {
        assert((front + back).drop_last() =~= front + back.drop_last());
        lemma_carry_out_in_batches(hw, front, back.drop_last());
    }
}

} // verus!
