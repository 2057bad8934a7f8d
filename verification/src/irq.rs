//! The dispatcher: what to do on a trap, and what registering a handler or
//! enabling an interrupt means for the hardware.

use vstd::prelude::*;
use crate::cause::{class_of, classify, InterruptClass};
use crate::controller::{
    carry_out_all, lemma_carry_out_in_batches, local_command, Command, Controller, Hardware,
    LocalSource, Mode,
};
use crate::registry::{after_register, after_unregister, can_register, lookup, HandlerRegistry};
use crate::timer::{slot_after_register, TimerSlot};

verus! {

/// The priority that an enabled device channel gets.
pub const DEVICE_PRIORITY: u32 = 6;

/// The threshold at which a hart accepts every priority.
pub const OPEN_THRESHOLD: u32 = 0;

/// The command that turns delivery of `channel` to `hart` on or off.
pub open spec fn delivery_command(hart: u32, channel: usize, enabled: bool) -> Command {
    if enabled {
        Command::Enable { hart, mode: Mode::Supervisor, channel }
    } else {
        Command::Disable { hart, mode: Mode::Supervisor, channel }
    }
}

/// One delivery command for each hart below `harts`, in rising order.
pub open spec fn fan_out(channel: usize, harts: u32, enabled: bool) -> Seq<Command> {
    Seq::new(harts as nat, |hart: int| delivery_command(hart as u32, channel, enabled))
}

/// The commands of `set_enable(irq, enabled)` on a system with `harts` harts.
pub open spec fn enable_commands(irq: usize, enabled: bool, harts: u32) -> Seq<Command> {
    match class_of(irq) {
        InterruptClass::Timer => seq![local_command(LocalSource::Timer, enabled)],
        InterruptClass::ExternalSignal => Seq::empty(),
        InterruptClass::DeviceChannel(channel) => if enabled {
            seq![(Command::SetPriority { channel, level: DEVICE_PRIORITY })] + fan_out(
                channel,
                harts,
                true,
            )
        } else {
            fan_out(channel, harts, false)
        },
        InterruptClass::Invalid => Seq::empty(),
    }
}

/// The commands of `init_percpu` on `hart`.
pub open spec fn percpu_commands(hart: u32) -> Seq<Command> {
    seq![
        Command::EnableLocal(LocalSource::Software),
        Command::EnableLocal(LocalSource::Timer),
        Command::EnableLocal(LocalSource::External),
        (Command::SetThreshold { hart, mode: Mode::Supervisor, level: OPEN_THRESHOLD }),
    ]
}

/// One open threshold for each hart below `harts`, in rising order.
pub open spec fn threshold_commands(harts: u32) -> Seq<Command> {
    Seq::new(
        harts as nat,
        |hart: int|
            (Command::SetThreshold {
                hart: hart as u32,
                mode: Mode::Supervisor,
                level: OPEN_THRESHOLD,
            }),
    )
}

/// Whether `register(irq, ..)` installs its handler, given what is installed.
pub open spec fn register_succeeds<H>(timer: Option<H>, channels: Map<usize, H>, irq: usize) -> bool {
    match class_of(irq) {
        InterruptClass::Timer => timer is None,
        InterruptClass::ExternalSignal => false,
        InterruptClass::DeviceChannel(channel) => can_register(channels, channel),
        InterruptClass::Invalid => false,
    }
}

/// The handler that `unregister(irq)` removes, given what is installed.
pub open spec fn unregistered<H>(timer: Option<H>, channels: Map<usize, H>, irq: usize) -> Option<H> {
    match class_of(irq) {
        InterruptClass::Timer => timer,
        InterruptClass::ExternalSignal => None,
        InterruptClass::DeviceChannel(channel) => lookup(channels, channel),
        InterruptClass::Invalid => None,
    }
}

/// The command that ends the service of a claimed channel.
pub open spec fn completion(hart: u32, mode: Mode, channel: usize) -> Command {
    Command::Complete { hart, mode, channel }
}

/// The number of completions among `commands`.
pub open spec fn completes_in(commands: Seq<Command>) -> nat
    decreases commands.len(),
{
    if commands.len() == 0 {
        0
    } else {
        completes_in(commands.drop_last()) + if commands.last() is Complete {
            1nat
        } else {
            0nat
        }
    }
}

/// The handlers of the system: the one of the timer and those of the device
/// channels.
pub struct Dispatcher<H> {
    pub timer: TimerSlot<H>,
    pub channels: HandlerRegistry<H>,
}

impl<H: Copy> Dispatcher<H> {
    /// The channel table is well formed.
    pub open spec fn wf(&self) -> bool {
        self.channels.wf()
    }

    /// A dispatcher without any handler.
    pub fn new() -> (state: Self)
        ensures
            state.wf(),
            state.timer@ is None,
            state.channels@ == Map::<usize, H>::empty(),
    {
        Dispatcher { timer: TimerSlot::new(), channels: HandlerRegistry::new() }
    }
}

/// The right to complete one claim. `handle` gives one out when the
/// controller signals, and `handle_claimed` takes it back.
pub struct Claim {
    hart: u32,
    mode: Mode,
}

impl Claim {
    /// The hart that claims.
    pub closed spec fn spec_hart(&self) -> u32 {
        self.hart
    }

    /// The mode in which it claims.
    pub closed spec fn spec_mode(&self) -> Mode {
        self.mode
    }

    /// The hart that claims.
    #[verifier::when_used_as_spec(spec_hart)]
    pub fn hart(&self) -> (hart: u32)
        ensures
            hart == self.hart(),
    {
        self.hart
    }

    /// The mode in which it claims.
    #[verifier::when_used_as_spec(spec_mode)]
    pub fn mode(&self) -> (mode: Mode)
        ensures
            mode == self.mode(),
    {
        self.mode
    }
}

/// What the caller of `handle` has to do.
pub enum Trap<H> {
    /// The timer fired. Run the handler, if there is one, with the cause.
    Timer(Option<H>),
    /// A device is pending. Claim at the controller for the hart and mode of
    /// the claim, and pass the channel to `handle_claimed`.
    External(Claim),
}

/// Records what `hart` needs before it can take interrupts: the enable bits
/// of its software, timer and external interrupts, and an open threshold at
/// the controller.
pub fn init_percpu(ctl: &mut Controller, hart: u32)
    ensures
        final(ctl).hart_count() == old(ctl).hart_count(),
        final(ctl)@ == old(ctl)@ + percpu_commands(hart),
{
    ctl.set_local(LocalSource::Software, true);
    ctl.set_local(LocalSource::Timer, true);
    ctl.set_local(LocalSource::External, true);
    ctl.set_threshold(hart, Mode::Supervisor, OPEN_THRESHOLD);
    assert(ctl@ =~= old(ctl)@ + percpu_commands(hart));
}

/// Records an open threshold for every hart.
pub fn init_plic(ctl: &mut Controller)
    ensures
        final(ctl).hart_count() == old(ctl).hart_count(),
        final(ctl)@ == old(ctl)@ + threshold_commands(old(ctl).hart_count()),
{
    let harts = ctl.harts();
    let mut hart: u32 = 0;
    while hart < harts
        invariant
            hart <= harts,
            ctl.hart_count() == harts,
            ctl@ == old(ctl)@ + threshold_commands(hart),
        decreases harts - hart,
    {
        ctl.set_threshold(hart, Mode::Supervisor, OPEN_THRESHOLD);
        hart += 1;
        assert(ctl@ =~= old(ctl)@ + threshold_commands(hart));
    }
}

/// Records that delivery of `channel` to every hart is turned on or off.
fn set_delivery(ctl: &mut Controller, channel: usize, enabled: bool)
    ensures
        final(ctl).hart_count() == old(ctl).hart_count(),
        final(ctl)@ == old(ctl)@ + fan_out(channel, old(ctl).hart_count(), enabled),
{
    let harts = ctl.harts();
    let mut hart: u32 = 0;
    while hart < harts
        invariant
            hart <= harts,
            ctl.hart_count() == harts,
            ctl@ == old(ctl)@ + fan_out(channel, hart, enabled),
        decreases harts - hart,
    {
        if enabled {
            ctl.enable(hart, Mode::Supervisor, channel);
        } else {
            ctl.disable(hart, Mode::Supervisor, channel);
        }
        hart += 1;
        assert(ctl@ =~= old(ctl)@ + fan_out(channel, hart, enabled));
    }
}

/// Enables or disables the interrupt `irq`.
///
/// For the timer this is the timer enable bit of the calling core. A device
/// channel gets its priority, when it is enabled, and is then turned on or off
/// for every hart. The external signal is no interrupt that can be enabled by
/// itself: nothing is recorded for it.
///
/// Any other cause of the core itself is refused by the precondition.
pub fn set_enable(ctl: &mut Controller, irq: usize, enabled: bool)
    requires
        class_of(irq) != InterruptClass::Invalid,
    ensures
        final(ctl).hart_count() == old(ctl).hart_count(),
        final(ctl)@ == old(ctl)@ + enable_commands(irq, enabled, old(ctl).hart_count()),
{
    match classify(irq) {
        InterruptClass::Timer => {
            ctl.set_local(LocalSource::Timer, enabled);
            assert(ctl@ =~= old(ctl)@ + seq![local_command(LocalSource::Timer, enabled)]);
        },
        InterruptClass::DeviceChannel(channel) => {
            if enabled {
                ctl.set_priority(channel, DEVICE_PRIORITY);
            }
            set_delivery(ctl, channel, enabled);
            assert(ctl@ =~= old(ctl)@ + enable_commands(irq, enabled, old(ctl).hart_count()));
        },
        _ => {
            assert(ctl@ =~= old(ctl)@ + Seq::<Command>::empty());
        },
    }
}

/// Installs `handler` for `irq` and returns whether it did.
///
/// The timer has one slot; a device channel has its slot in the table, and a
/// channel whose handler was installed is enabled at once. The external signal
/// cannot have a handler: the call returns `false`. Where the call returns
/// `false` nothing has changed.
pub fn register<H: Copy>(
    state: &mut Dispatcher<H>,
    ctl: &mut Controller,
    irq: usize,
    handler: H,
) -> (installed: bool)
    requires
        old(state).wf(),
        class_of(irq) != InterruptClass::Invalid,
    ensures
        final(state).wf(),
        installed == register_succeeds(old(state).timer@, old(state).channels@, irq),
        final(state).timer@ == if class_of(irq) is Timer {
            slot_after_register(old(state).timer@, handler)
        } else {
            old(state).timer@
        },
        final(state).channels@ == if class_of(irq) is DeviceChannel {
            after_register(old(state).channels@, irq, handler)
        } else {
            old(state).channels@
        },
        final(ctl).hart_count() == old(ctl).hart_count(),
        final(ctl)@ == if installed && class_of(irq) is DeviceChannel {
            old(ctl)@ + enable_commands(irq, true, old(ctl).hart_count())
        } else {
            old(ctl)@
        },
{
    match classify(irq) {
        InterruptClass::Timer => state.timer.register(handler),
        InterruptClass::DeviceChannel(channel) => {
            if state.channels.register(channel, handler) {
                set_enable(ctl, irq, true);
                true
            } else {
                false
            }
        },
        _ => false,
    }
}

/// Removes the handler of `irq` and returns it.
///
/// A device channel whose handler was removed is disabled for every hart.
/// The external signal has no handler: the call returns `None`.
pub fn unregister<H: Copy>(
    state: &mut Dispatcher<H>,
    ctl: &mut Controller,
    irq: usize,
) -> (removed: Option<H>)
    requires
        old(state).wf(),
        class_of(irq) != InterruptClass::Invalid,
    ensures
        final(state).wf(),
        removed == unregistered(old(state).timer@, old(state).channels@, irq),
        final(state).timer@ == if class_of(irq) is Timer {
            None
        } else {
            old(state).timer@
        },
        final(state).channels@ == if class_of(irq) is DeviceChannel {
            after_unregister(old(state).channels@, irq)
        } else {
            old(state).channels@
        },
        final(ctl).hart_count() == old(ctl).hart_count(),
        final(ctl)@ == if removed is Some && class_of(irq) is DeviceChannel {
            old(ctl)@ + enable_commands(irq, false, old(ctl).hart_count())
        } else {
            old(ctl)@
        },
{
    match classify(irq) {
        InterruptClass::Timer => state.timer.unregister(),
        InterruptClass::DeviceChannel(channel) => {
            let removed = state.channels.unregister(channel);
            if removed.is_some() {
                set_enable(ctl, irq, false);
            }
            removed
        },
        _ => None,
    }
}

/// Decides what a trap with the cause `raw` on `hart` asks for.
///
/// A timer interrupt yields the timer handler, or `None` where none is
/// installed, which is no error. The external signal yields a claim for
/// `hart`. Nothing is changed.
///
/// A device channel is never the cause of a trap, and a cause of the core
/// that is neither the timer nor the external signal is unknown: both are
/// refused by the precondition.
pub fn handle<H: Copy>(state: &Dispatcher<H>, hart: u32, raw: usize) -> (trap: Trap<H>)
    requires
        class_of(raw) is Timer || class_of(raw) is ExternalSignal,
    ensures
        match trap {
            Trap::Timer(handler) => class_of(raw) is Timer && handler == state.timer@,
            Trap::External(claim) => class_of(raw) is ExternalSignal && claim.hart() == hart
                && claim.mode() == Mode::Supervisor,
        },
{
    match classify(raw) {
        InterruptClass::Timer => Trap::Timer(state.timer.dispatch()),
        _ => Trap::External(Claim { hart, mode: Mode::Supervisor }),
    }
}

/// Serves the channel that the controller gave for `claim`: returns the
/// handler to run, and records the completion.
///
/// The completion is recorded whether the channel has a handler or not. The
/// handler runs before the recorded commands are carried out.
pub fn handle_claimed<H: Copy>(
    state: &Dispatcher<H>,
    ctl: &mut Controller,
    claim: Claim,
    channel: usize,
) -> (handler: Option<H>)
    requires
        state.wf(),
    ensures
        handler == lookup(state.channels@, channel),
        final(ctl).hart_count() == old(ctl).hart_count(),
        final(ctl)@ == old(ctl)@.push(completion(claim.hart(), claim.mode(), channel)),
{
    let handler = state.channels.dispatch(channel);
    ctl.complete(claim.hart(), claim.mode(), channel);
    handler
}

/// How often `command` occurs in `commands`.
pub open spec fn occurrences(commands: Seq<Command>, command: Command) -> nat
    decreases commands.len(),
{
    if commands.len() == 0 {
        0
    } else {
        occurrences(commands.drop_last(), command) + if commands.last() == command {
            1nat
        } else {
            0nat
        }
    }
}

/// The occurrences in a sequence are those in its two parts.
pub proof fn lemma_occurrences_add(front: Seq<Command>, back: Seq<Command>, command: Command)
    ensures
        occurrences(front + back, command) == occurrences(front, command) + occurrences(
            back,
            command,
        ),
    decreases back.len(),
{
    if back.len() == 0 {
        assert(front + back =~= front);
    } else {
        assert((front + back).drop_last() =~= front + back.drop_last());
        lemma_occurrences_add(front, back.drop_last(), command);
    }
}

/// A fan-out holds the delivery command of each hart below `harts` once, and
/// no other command.
pub proof fn lemma_fan_out_once_per_hart(channel: usize, harts: u32, enabled: bool, command: Command)
    ensures
        occurrences(fan_out(channel, harts, enabled), command) == if exists|hart: u32|
            hart < harts && command == delivery_command(hart, channel, enabled) {
            1nat
        } else {
            0nat
        },
    decreases harts,
{
    if harts > 0 {
        let fewer = (harts - 1) as u32;
        assert(fan_out(channel, harts, enabled).drop_last() =~= fan_out(channel, fewer, enabled));
        lemma_fan_out_once_per_hart(channel, fewer, enabled, command);
        if command == delivery_command(fewer, channel, enabled) {
            assert(fewer < harts && command == delivery_command(fewer, channel, enabled));
        }
    }
}

/// Enabling a device channel on a system with `harts` harts sets its priority
/// once and enables it once for each hart, and does nothing more.
pub proof fn lemma_enable_fans_out(channel: usize, harts: u32)
    requires
        class_of(channel) is DeviceChannel,
    ensures
        enable_commands(channel, true, harts).len() == harts + 1,
        occurrences(
            enable_commands(channel, true, harts),
            (Command::SetPriority { channel, level: DEVICE_PRIORITY }),
        ) == 1,
        forall|hart: u32|
            hart < harts ==> occurrences(
                enable_commands(channel, true, harts),
                #[trigger] delivery_command(hart, channel, true),
            ) == 1,
{
    let priority = Command::SetPriority { channel, level: DEVICE_PRIORITY };
    let first = seq![priority];
    let rest = fan_out(channel, harts, true);
    assert(enable_commands(channel, true, harts) == first + rest);
    reveal_with_fuel(occurrences, 2);
    lemma_occurrences_add(first, rest, priority);
    lemma_fan_out_once_per_hart(channel, harts, true, priority);
    assert(occurrences(first, priority) == 1);
    assert forall|hart: u32| hart < harts implies occurrences(
        enable_commands(channel, true, harts),
        #[trigger] delivery_command(hart, channel, true),
    ) == 1 by {
        let command = delivery_command(hart, channel, true);
        lemma_occurrences_add(first, rest, command);
        lemma_fan_out_once_per_hart(channel, harts, true, command);
        assert(occurrences(first, command) == 0);
    }
}

/// Disabling a device channel disables it once for each hart, and does
/// nothing more.
pub proof fn lemma_disable_fans_out(channel: usize, harts: u32)
    requires
        class_of(channel) is DeviceChannel,
    ensures
        enable_commands(channel, false, harts).len() == harts,
        forall|hart: u32|
            hart < harts ==> occurrences(
                enable_commands(channel, false, harts),
                #[trigger] delivery_command(hart, channel, false),
            ) == 1,
{
    assert forall|hart: u32| hart < harts implies occurrences(
        enable_commands(channel, false, harts),
        #[trigger] delivery_command(hart, channel, false),
    ) == 1 by {
        lemma_fan_out_once_per_hart(channel, harts, false, delivery_command(hart, channel, false));
    }
}

/// Claims and completions pair up: serving a claim adds one completion to
/// what is recorded, for the hart and mode of the claim and the channel that
/// the controller gave, whether that channel has a handler or not.
pub proof fn lemma_claim_complete_pairing(recorded: Seq<Command>, hart: u32, mode: Mode, channel: usize)
    ensures
        completes_in(recorded.push(completion(hart, mode, channel))) == completes_in(recorded) + 1,
        occurrences(recorded.push(completion(hart, mode, channel)), completion(hart, mode, channel))
            == occurrences(recorded, completion(hart, mode, channel)) + 1,
{
    assert(recorded.push(completion(hart, mode, channel)).drop_last() =~= recorded);
}

/// Enabling, disabling and registering complete nothing: only a served
/// claim does.
pub proof fn lemma_configuration_completes_nothing(irq: usize, enabled: bool, harts: u32)
    ensures
        completes_in(enable_commands(irq, enabled, harts)) == 0,
{
    reveal_with_fuel(completes_in, 2);
    match class_of(irq) {
        InterruptClass::DeviceChannel(channel) => {
            lemma_fan_out_completes_nothing(channel, harts, enabled);
            if enabled {
                let first = seq![(Command::SetPriority { channel, level: DEVICE_PRIORITY })];
                lemma_completes_add(first, fan_out(channel, harts, true));
            }
        },
        _ => {},
    }
}

/// The completions in a sequence are those in its two parts.
pub proof fn lemma_completes_add(front: Seq<Command>, back: Seq<Command>)
    ensures
        completes_in(front + back) == completes_in(front) + completes_in(back),
    decreases back.len(),
{
    if back.len() == 0 {
        assert(front + back =~= front);
    } else {
        assert((front + back).drop_last() =~= front + back.drop_last());
        lemma_completes_add(front, back.drop_last());
    }
}

/// A fan-out completes nothing.
pub proof fn lemma_fan_out_completes_nothing(channel: usize, harts: u32, enabled: bool)
    ensures
        completes_in(fan_out(channel, harts, enabled)) == 0,
    decreases harts,
{
    if harts > 0 {
        let fewer = (harts - 1) as u32;
        assert(fan_out(channel, harts, enabled).drop_last() =~= fan_out(channel, fewer, enabled));
        lemma_fan_out_completes_nothing(channel, fewer, enabled);
    }
}

/// What a fan-out does to the hardware: delivery of the channel to every
/// hart below `harts` is on, or off, and nothing else has changed.
pub proof fn lemma_fan_out_reaches_every_hart(hw: Hardware, channel: usize, harts: u32, enabled: bool)
    ensures
        ({
            let after = carry_out_all(hw, fan_out(channel, harts, enabled));
            &&& after.local == hw.local
            &&& after.threshold == hw.threshold
            &&& after.priority == hw.priority
            &&& after.completed == hw.completed
            &&& forall|hart: u32, mode: Mode, other: usize| #[trigger]
                after.delivered.contains((hart, mode, other)) == if hart < harts && mode
                    == Mode::Supervisor && other == channel {
                    enabled
                } else {
                    hw.delivered.contains((hart, mode, other))
                }
        }),
    decreases harts,
{
    if harts > 0 {
        let fewer = (harts - 1) as u32;
        assert(fan_out(channel, harts, enabled).drop_last() =~= fan_out(channel, fewer, enabled));
        assert(fan_out(channel, harts, enabled).last() == delivery_command(fewer, channel, enabled));
        lemma_fan_out_reaches_every_hart(hw, channel, fewer, enabled);
    }
}

/// Enabling and disabling keep the hardware in step with the request: after
/// the commands of `set_enable` for a device channel are carried out, the
/// channel is delivered to every hart in supervisor mode, with the device
/// priority, or to none; no other delivery has changed.
pub proof fn lemma_set_enable_reaches_hardware(hw: Hardware, channel: usize, enabled: bool, harts: u32)
    requires
        class_of(channel) is DeviceChannel,
    ensures
        ({
            let after = carry_out_all(hw, enable_commands(channel, enabled, harts));
            &&& forall|hart: u32|
                hart < harts ==> #[trigger] after.delivered.contains(
                    (hart, Mode::Supervisor, channel),
                ) == enabled
            &&& forall|hart: u32, mode: Mode, other: usize|
                other != channel ==> #[trigger] after.delivered.contains((hart, mode, other))
                    == hw.delivered.contains((hart, mode, other))
            &&& enabled ==> after.priority.contains_key(channel) && after.priority[channel]
                == DEVICE_PRIORITY
            &&& after.local == hw.local
            &&& after.threshold == hw.threshold
            &&& after.completed == hw.completed
        }),
{
    if enabled {
        let first = seq![(Command::SetPriority { channel, level: DEVICE_PRIORITY })];
        reveal_with_fuel(carry_out_all, 2);
        lemma_carry_out_in_batches(hw, first, fan_out(channel, harts, true));
        lemma_fan_out_reaches_every_hart(carry_out_all(hw, first), channel, harts, true);
    } else {
        lemma_fan_out_reaches_every_hart(hw, channel, harts, false);
    }
}

} // verus!
