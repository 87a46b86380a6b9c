use vstd::prelude::*;
use crate::error::Error;
use crate::events::{
    any_sync, drop_lines, is_async, pending_ok, recorded, take_spec, Armed, Delivery, Edge,
    EventLoop, EventLoopView, PollStep,
};
use crate::registers::{
    lemma_restored, level_at, mode_at, pull_at, restored, with_mode, with_output, with_pull,
    RegisterMap, MAX_LINES, REGISTER_WORDS,
};
use crate::registry::{claim, released, LineRegistry, RegistryView};
use crate::types::flip;
pub use crate::types::{Level, Mode, PullUpDown, Trigger};

verus! {

/// The registry after a facade is constructed: the instance is live.
pub open spec fn after_construct(v: RegistryView) -> RegistryView {
    RegistryView { instance: true, taken: v.taken }
}

/// The registry after a facade is released: no instance is live.
pub open spec fn after_release(v: RegistryView) -> RegistryView {
    RegistryView { instance: false, taken: v.taken }
}

/// Whether constructing a facade succeeds: exactly when none is live.
pub open spec fn construct_succeeds(v: RegistryView) -> bool {
    !v.instance
}

/// While a facade is live a second construction fails; once it is released,
/// construction succeeds again.
pub proof fn lemma_single_instance(v: RegistryView)
    ensures
        !construct_succeeds(after_construct(v)),
        construct_succeeds(after_release(after_construct(v))),
{
}

/// Once a line is disarmed, no background worker delivers an edge for it.
pub proof fn lemma_no_delivery_after_disarm(armed: Seq<Option<Armed>>, line: u8)
    requires
        line < armed.len(),
    ensures
        !is_async(armed.update(line as int, None), line),
{
}

/// The lines of a set of input pins, in order.
pub open spec fn lines_of(pins: Seq<&InputPin>) -> Seq<u8> {
    pins.map_values(|p: &InputPin| p.line())
}

/// The poll step for the earliest edge taken, if any.
pub open spec fn step_of(e: Option<Edge>, armed: Seq<Option<Armed>>, lines: Seq<u8>) -> PollStep {
    match e {
        Some(e) => PollStep::Event(e.0, e.1),
        None => if any_sync(armed, lines) {
            PollStep::Wait
        } else {
            PollStep::Idle
        },
    }
}

/// The configuration `arm` gives a line.
pub open spec fn armed_as(trigger: Trigger, delivery: Delivery) -> Option<Armed> {
    if trigger == Trigger::Disabled {
        None
    } else {
        Some(Armed { trigger, delivery })
    }
}

/// Access to the GPIO peripheral: the register block and the interrupt
/// event loop, shared by every pin handle obtained from it.
#[derive(Debug)]
pub struct Gpio {
    regs: RegisterMap,
    events: EventLoop,
}

impl Gpio {
    /// The register words.
    pub closed spec fn registers(&self) -> Seq<u32> {
        self.regs@
    }

    /// The interrupt state.
    pub closed spec fn interrupts(&self) -> EventLoopView {
        self.events@
    }

    pub open spec fn wf(&self) -> bool {
        &&& self.registers().len() == REGISTER_WORDS
        &&& self.interrupts().armed.len() == MAX_LINES
        &&& pending_ok(self.interrupts().armed, self.interrupts().pending)
    }

    /// Whether the facade is well formed, as every facade that `new` builds
    /// and the methods keep; a caller outside the proofs may test it first.
    pub fn is_well_formed(&self) -> (r: bool)
        ensures
            r == self.wf(),
    {
        self.regs.is_well_formed() && self.events.is_well_formed()
    }

    /// Constructs the facade over the given register block. Fails with
    /// `InstanceExists` exactly when a facade is already live; otherwise
    /// the instance becomes live and no line is armed.
    pub fn new(registry: &mut LineRegistry, regs: RegisterMap) -> (r: Result<Gpio, Error>)
        requires
            regs.wf(),
        ensures
            r.is_ok() == construct_succeeds(old(registry)@),
            final(registry)@ == after_construct(old(registry)@),
            r matches Err(e) ==> e == Error::InstanceExists,
            r matches Ok(g) ==> {
                &&& g.wf()
                &&& g.registers() == regs@
                &&& g.interrupts().pending.len() == 0
                &&& !g.interrupts().worker_failed
                &&& forall|i: int| 0 <= i < MAX_LINES ==> g.interrupts().armed[i].is_none()
            },
    {
        if !registry.try_claim_instance() {
            return Err(Error::InstanceExists);
        }
        Ok(Gpio { regs, events: EventLoop::new() })
    }

    /// Releases the facade; a new one may then be constructed. Lines that
    /// are still checked out stay so.
    pub fn release(self, registry: &mut LineRegistry)
        ensures
            final(registry)@ == after_release(old(registry)@),
    {
        registry.release_instance();
    }

    /// Checks out `line`: `None` if it is out of range or already checked
    /// out, else a pin handle that restores the line when released.
    pub fn get(&self, registry: &mut LineRegistry, line: u8) -> (r: Option<Pin>)
        requires
            old(registry).wf(),
        ensures
            final(registry).wf(),
            (r.is_some(), final(registry)@.taken) == claim(old(registry)@.taken, line),
            final(registry)@.instance == old(registry)@.instance,
            r matches Some(p) ==> p.line() == line && p.clears(),
    {
        if registry.try_claim_line(line) {
            Some(Pin { line, clear_on_drop: true })
        } else {
            None
        }
    }

    /// The first step of a poll across `pins`; see `EventLoop::begin_poll`.
    pub fn poll_interrupts(&mut self, pins: &[&InputPin], reset: bool) -> (r: Result<
        PollStep,
        Error,
    >)
        requires
            old(self).wf(),
        ensures
            final(self).wf(),
            final(self).registers() == old(self).registers(),
            final(self).interrupts().armed == old(self).interrupts().armed,
            !final(self).interrupts().worker_failed,
            old(self).interrupts().worker_failed ==> r == Err::<PollStep, Error>(
                Error::ThreadPanic,
            ) && final(self).interrupts().pending == old(self).interrupts().pending,
            !old(self).interrupts().worker_failed ==> ({
                let lines = lines_of(pins@);
                let p = if reset {
                    drop_lines(old(self).interrupts().pending, lines)
                } else {
                    old(self).interrupts().pending
                };
                let (e, q) = take_spec(p, lines);
                &&& final(self).interrupts().pending == q
                &&& r == Ok::<PollStep, Error>(step_of(e, old(self).interrupts().armed, lines))
            }),
    {
        let lines = pin_lines(pins);
        self.events.begin_poll(lines.as_slice(), reset)
    }

    /// A later step of a poll across `pins`, after the multiplexer woke
    /// with `batch` (empty on timeout); see `EventLoop::wake`.
    pub fn poll_wake(&mut self, pins: &[&InputPin], batch: &[Edge]) -> (r: PollStep)
        requires
            old(self).wf(),
        ensures
            final(self).wf(),
            final(self).registers() == old(self).registers(),
            final(self).interrupts().armed == old(self).interrupts().armed,
            final(self).interrupts().worker_failed == old(self).interrupts().worker_failed,
            ({
                let lines = lines_of(pins@);
                let p = recorded(
                    old(self).interrupts().pending,
                    old(self).interrupts().armed,
                    batch@,
                    MAX_LINES as nat,
                );
                let (e, q) = take_spec(p, lines);
                &&& final(self).interrupts().pending == q
                &&& r == step_of(e, old(self).interrupts().armed, lines)
            }),
    {
        let lines = pin_lines(pins);
        self.events.wake(lines.as_slice(), batch)
    }

    /// Whether a background worker for `line` is still to invoke its
    /// callback: only while the line stays armed for asynchronous delivery.
    pub fn worker_delivers(&self, line: u8) -> (r: bool)
        requires
            self.wf(),
        ensures
            r == (line < MAX_LINES && is_async(self.interrupts().armed, line)),
    {
        (line as usize) < MAX_LINES && self.events.worker_delivers(line)
    }

    /// Records that a background worker terminated abnormally; the next
    /// poll reports `ThreadPanic`.
    pub fn report_worker_failure(&mut self)
        requires
            old(self).wf(),
        ensures
            final(self).wf(),
            final(self).registers() == old(self).registers(),
            final(self).interrupts().worker_failed,
            final(self).interrupts().armed == old(self).interrupts().armed,
            final(self).interrupts().pending == old(self).interrupts().pending,
    {
        self.events.report_worker_failure();
    }

    /// The register word at `index`.
    pub fn register_word(&self, index: usize) -> (r: u32)
        requires
            self.wf(),
            index < REGISTER_WORDS,
        ensures
            r == self.registers()[index as int],
    {
        self.regs.word(index)
    }

    /// Stores a register word read back from the hardware.
    pub fn load_register_word(&mut self, index: usize, value: u32)
        requires
            old(self).wf(),
            index < REGISTER_WORDS,
        ensures
            final(self).wf(),
            final(self).registers() == old(self).registers().update(index as int, value),
            final(self).interrupts() == old(self).interrupts(),
    {
        self.regs.load_word(index, value);
    }

    fn arm_line(&mut self, line: u8, trigger: Trigger, delivery: Delivery)
        requires
            old(self).wf(),
            line < MAX_LINES,
        ensures
            final(self).wf(),
            final(self).registers() == old(self).registers(),
            final(self).interrupts().armed == old(self).interrupts().armed.update(
                line as int,
                armed_as(trigger, delivery),
            ),
            final(self).interrupts().pending == drop_lines(
                old(self).interrupts().pending,
                seq![line],
            ),
            final(self).interrupts().worker_failed == old(self).interrupts().worker_failed,
    {
        self.events.arm(line, trigger, delivery);
    }

    fn release_line(&mut self, registry: &mut LineRegistry, line: u8, clear: bool)
        requires
            old(self).wf(),
            old(registry).wf(),
            line < MAX_LINES,
        ensures
            final(self).wf(),
            final(registry).wf(),
            final(registry)@.taken == released(old(registry)@.taken, line),
            final(registry)@.instance == old(registry)@.instance,
            final(self).interrupts().armed == old(self).interrupts().armed.update(
                line as int,
                None,
            ),
            final(self).interrupts().pending == drop_lines(
                old(self).interrupts().pending,
                seq![line],
            ),
            final(self).interrupts().worker_failed == old(self).interrupts().worker_failed,
            final(self).registers() == if clear {
                restored(old(self).registers(), line as int)
            } else {
                old(self).registers()
            },
            clear ==> mode_at(final(self).registers(), line as int) == Mode::Input && pull_at(
                final(self).registers(),
                line as int,
            ) == PullUpDown::Off,
    {
        self.events.disarm(line);
        if clear {
            self.regs.write_mode(line, Mode::Input);
            self.regs.set_pull(line, PullUpDown::Off);
            proof {
                lemma_restored(old(self).registers(), line as int);
            }
        }
        registry.release_line(line);
    }
}

fn pin_lines(pins: &[&InputPin]) -> (r: Vec<u8>)
    ensures
        r@ == lines_of(pins@),
{
    let mut lines: Vec<u8> = Vec::new();
    let mut i: usize = 0;
    while i < pins.len()
        invariant
            i <= pins@.len(),
            lines@.len() == i,
            forall|k: int| 0 <= k < i ==> lines@[k] == pins@[k].line(),
        decreases pins@.len() - i,
    {
        lines.push(pins[i].pin());
        i = i + 1;
    }
    proof {
        assert(lines@ =~= lines_of(pins@));
    }
    lines
}

/// An exclusively checked-out line whose mode has not been set.
#[derive(Debug)]
pub struct Pin {
    line: u8,
    clear_on_drop: bool,
}

impl Pin {
    #[verifier::type_invariant]
    spec fn inv(self) -> bool {
        self.line < MAX_LINES
    }

    /// The line this handle holds.
    pub closed spec fn line(&self) -> u8 {
        self.line
    }

    /// Whether releasing the handle restores the line.
    pub closed spec fn clears(&self) -> bool {
        self.clear_on_drop
    }

    /// The line number.
    pub fn pin(&self) -> (r: u8)
        ensures
            r == self.line(),
            r < MAX_LINES,
    {
        proof {
            use_type_invariant(self);
        }
        self.line
    }

    /// The current mode of the line.
    pub fn mode(&self, gpio: &Gpio) -> (r: Mode)
        requires
            gpio.wf(),
        ensures
            r == mode_at(gpio.registers(), self.line() as int),
    {
        gpio.regs.read_mode(self.pin())
    }

    /// Whether releasing the handle returns the line to input with no pull.
    pub fn set_clear_on_drop(&mut self, clear_on_drop: bool)
        ensures
            final(self).line() == old(self).line(),
            final(self).clears() == clear_on_drop,
    {
        proof {
            use_type_invariant(&*self);
        }
        self.clear_on_drop = clear_on_drop;
    }

    fn set_mode(&self, gpio: &mut Gpio, mode: Mode)
        requires
            old(gpio).wf(),
        ensures
            final(gpio).wf(),
            final(gpio).registers() == with_mode(old(gpio).registers(), self.line() as int, mode),
            final(gpio).interrupts() == old(gpio).interrupts(),
            mode_at(final(gpio).registers(), self.line() as int) == mode,
    {
        let line = self.pin();
        gpio.regs.write_mode(line, mode);
    }

    /// Switches the line to input.
    pub fn into_input(self, gpio: &mut Gpio) -> (r: InputPin)
        requires
            old(gpio).wf(),
        ensures
            final(gpio).wf(),
            final(gpio).registers() == with_mode(
                old(gpio).registers(),
                self.line() as int,
                Mode::Input,
            ),
            final(gpio).interrupts() == old(gpio).interrupts(),
            mode_at(final(gpio).registers(), self.line() as int) == Mode::Input,
            r.line() == self.line(),
            r.clears() == self.clears(),
    {
        self.set_mode(gpio, Mode::Input);
        InputPin { pin: self }
    }

    /// Switches the line to input with the pull-up resistor on.
    pub fn into_input_pullup(self, gpio: &mut Gpio) -> (r: InputPin)
        requires
            old(gpio).wf(),
        ensures
            final(gpio).wf(),
            final(gpio).registers() == with_pull(
                with_mode(old(gpio).registers(), self.line() as int, Mode::Input),
                self.line() as int,
                PullUpDown::PullUp,
            ),
            final(gpio).interrupts() == old(gpio).interrupts(),
            mode_at(final(gpio).registers(), self.line() as int) == Mode::Input,
            pull_at(final(gpio).registers(), self.line() as int) == PullUpDown::PullUp,
            r.line() == self.line(),
            r.clears() == self.clears(),
    {
        proof {
            use_type_invariant(&self);
        }
        let r = self.into_input(gpio);
        r.set_pullupdown(gpio, PullUpDown::PullUp);
        r
    }

    /// Switches the line to input with the pull-down resistor on.
    pub fn into_input_pulldown(self, gpio: &mut Gpio) -> (r: InputPin)
        requires
            old(gpio).wf(),
        ensures
            final(gpio).wf(),
            final(gpio).registers() == with_pull(
                with_mode(old(gpio).registers(), self.line() as int, Mode::Input),
                self.line() as int,
                PullUpDown::PullDown,
            ),
            final(gpio).interrupts() == old(gpio).interrupts(),
            mode_at(final(gpio).registers(), self.line() as int) == Mode::Input,
            pull_at(final(gpio).registers(), self.line() as int) == PullUpDown::PullDown,
            r.line() == self.line(),
            r.clears() == self.clears(),
    {
        proof {
            use_type_invariant(&self);
        }
        let r = self.into_input(gpio);
        r.set_pullupdown(gpio, PullUpDown::PullDown);
        r
    }

    /// Switches the line to output.
    pub fn into_output(self, gpio: &mut Gpio) -> (r: OutputPin)
        requires
            old(gpio).wf(),
        ensures
            final(gpio).wf(),
            final(gpio).registers() == with_mode(
                old(gpio).registers(),
                self.line() as int,
                Mode::Output,
            ),
            final(gpio).interrupts() == old(gpio).interrupts(),
            mode_at(final(gpio).registers(), self.line() as int) == Mode::Output,
            r.line() == self.line(),
            r.clears() == self.clears(),
    {
        self.set_mode(gpio, Mode::Output);
        OutputPin { pin: self }
    }

    /// Switches the line to an alternate function, or to any other mode.
    pub fn into_alt(self, gpio: &mut Gpio, mode: Mode) -> (r: AltPin)
        requires
            old(gpio).wf(),
        ensures
            final(gpio).wf(),
            final(gpio).registers() == with_mode(old(gpio).registers(), self.line() as int, mode),
            final(gpio).interrupts() == old(gpio).interrupts(),
            mode_at(final(gpio).registers(), self.line() as int) == mode,
            r.line() == self.line(),
            r.clears() == self.clears(),
    {
        self.set_mode(gpio, mode);
        AltPin { pin: self }
    }

    /// Releases the handle: the line's interrupt is disarmed, the line is
    /// returned to input with no pull unless restoring was switched off,
    /// and the line is free to be checked out again.
    pub fn release(self, gpio: &mut Gpio, registry: &mut LineRegistry)
        requires
            old(gpio).wf(),
            old(registry).wf(),
        ensures
            final(gpio).wf(),
            final(registry).wf(),
            final(registry)@.taken == released(old(registry)@.taken, self.line()),
            final(registry)@.instance == old(registry)@.instance,
            final(gpio).interrupts().armed == old(gpio).interrupts().armed.update(
                self.line() as int,
                None,
            ),
            final(gpio).interrupts().pending == drop_lines(
                old(gpio).interrupts().pending,
                seq![self.line()],
            ),
            final(gpio).interrupts().worker_failed == old(gpio).interrupts().worker_failed,
            final(gpio).registers() == if self.clears() {
                restored(old(gpio).registers(), self.line() as int)
            } else {
                old(gpio).registers()
            },
            self.clears() ==> mode_at(final(gpio).registers(), self.line() as int) == Mode::Input
                && pull_at(final(gpio).registers(), self.line() as int) == PullUpDown::Off,
    {
        let line = self.pin();
        gpio.release_line(registry, line, self.clear_on_drop);
    }
}

/// A checked-out line in input mode.
#[derive(Debug)]
pub struct InputPin {
    pin: Pin,
}

impl InputPin {
    /// The line this handle holds.
    pub closed spec fn line(&self) -> u8 {
        self.pin.line()
    }

    /// Whether releasing the handle restores the line.
    pub closed spec fn clears(&self) -> bool {
        self.pin.clears()
    }

    /// The line number.
    pub fn pin(&self) -> (r: u8)
        ensures
            r == self.line(),
            r < MAX_LINES,
    {
        self.pin.pin()
    }

    /// The current mode of the line.
    pub fn mode(&self, gpio: &Gpio) -> (r: Mode)
        requires
            gpio.wf(),
        ensures
            r == mode_at(gpio.registers(), self.line() as int),
    {
        self.pin.mode(gpio)
    }

    /// Whether releasing the handle returns the line to input with no pull.
    pub fn set_clear_on_drop(&mut self, clear_on_drop: bool)
        ensures
            final(self).line() == old(self).line(),
            final(self).clears() == clear_on_drop,
    {
        self.pin.set_clear_on_drop(clear_on_drop);
    }

    /// Releases the handle: the line's interrupt is disarmed, the line is
    /// returned to input with no pull unless restoring was switched off,
    /// and the line is free to be checked out again.
    pub fn release(self, gpio: &mut Gpio, registry: &mut LineRegistry)
        requires
            old(gpio).wf(),
            old(registry).wf(),
        ensures
            final(gpio).wf(),
            final(registry).wf(),
            final(registry)@.taken == released(old(registry)@.taken, self.line()),
            final(registry)@.instance == old(registry)@.instance,
            final(gpio).interrupts().armed == old(gpio).interrupts().armed.update(
                self.line() as int,
                None,
            ),
            final(gpio).interrupts().pending == drop_lines(
                old(gpio).interrupts().pending,
                seq![self.line()],
            ),
            final(gpio).interrupts().worker_failed == old(gpio).interrupts().worker_failed,
            final(gpio).registers() == if self.clears() {
                restored(old(gpio).registers(), self.line() as int)
            } else {
                old(gpio).registers()
            },
            self.clears() ==> mode_at(final(gpio).registers(), self.line() as int) == Mode::Input
                && pull_at(final(gpio).registers(), self.line() as int) == PullUpDown::Off,
    {
        self.pin.release(gpio, registry);
    }

    /// The level of the line.
    pub fn read(&self, gpio: &Gpio) -> (r: Level)
        requires
            gpio.wf(),
        ensures
            r == level_at(gpio.registers(), self.line() as int),
    {
        let line = self.pin();
        gpio.regs.read_level(line)
    }

    /// Whether the line is high.
    pub fn is_high(&self, gpio: &Gpio) -> (r: bool)
        requires
            gpio.wf(),
        ensures
            r == (level_at(gpio.registers(), self.line() as int) == Level::High),
    {
        self.read(gpio) == Level::High
    }

    /// Whether the line is low.
    pub fn is_low(&self, gpio: &Gpio) -> (r: bool)
        requires
            gpio.wf(),
        ensures
            r == (level_at(gpio.registers(), self.line() as int) == Level::Low),
    {
        self.read(gpio) == Level::Low
    }

    /// Sets the line's pull resistor; no other line's pull changes.
    pub fn set_pullupdown(&self, gpio: &mut Gpio, pull: PullUpDown)
        requires
            old(gpio).wf(),
        ensures
            final(gpio).wf(),
            final(gpio).registers() == with_pull(old(gpio).registers(), self.line() as int, pull),
            final(gpio).interrupts() == old(gpio).interrupts(),
            pull_at(final(gpio).registers(), self.line() as int) == pull,
            forall|l: int|
                0 <= l < MAX_LINES ==> mode_at(final(gpio).registers(), l) == mode_at(
                    old(gpio).registers(),
                    l,
                ),
    {
        let line = self.pin();
        gpio.regs.set_pull(line, pull);
    }

    /// Arms the line for `trigger`, its edges delivered by polling; any
    /// cached edge of the line is discarded. `Trigger::Disabled` disarms.
    pub fn set_interrupt(&self, gpio: &mut Gpio, trigger: Trigger)
        requires
            old(gpio).wf(),
        ensures
            final(gpio).wf(),
            final(gpio).registers() == old(gpio).registers(),
            final(gpio).interrupts().armed == old(gpio).interrupts().armed.update(
                self.line() as int,
                armed_as(trigger, Delivery::Sync),
            ),
            final(gpio).interrupts().pending == drop_lines(
                old(gpio).interrupts().pending,
                seq![self.line()],
            ),
            final(gpio).interrupts().worker_failed == old(gpio).interrupts().worker_failed,
    {
        let line = self.pin();
        gpio.arm_line(line, trigger, Delivery::Sync);
    }

    /// Disarms the line's synchronous interrupt.
    pub fn clear_interrupt(&self, gpio: &mut Gpio)
        requires
            old(gpio).wf(),
        ensures
            final(gpio).wf(),
            final(gpio).registers() == old(gpio).registers(),
            final(gpio).interrupts().armed == old(gpio).interrupts().armed.update(
                self.line() as int,
                None,
            ),
            final(gpio).interrupts().pending == drop_lines(
                old(gpio).interrupts().pending,
                seq![self.line()],
            ),
            final(gpio).interrupts().worker_failed == old(gpio).interrupts().worker_failed,
            !is_async(final(gpio).interrupts().armed, self.line()),
    {
        let line = self.pin();
        gpio.arm_line(line, Trigger::Disabled, Delivery::Sync);
    }

    /// Arms the line for `trigger`, its edges delivered to a background
    /// worker's callback. `Trigger::Disabled` disarms.
    pub fn set_async_interrupt(&self, gpio: &mut Gpio, trigger: Trigger)
        requires
            old(gpio).wf(),
        ensures
            final(gpio).wf(),
            final(gpio).registers() == old(gpio).registers(),
            final(gpio).interrupts().armed == old(gpio).interrupts().armed.update(
                self.line() as int,
                armed_as(trigger, Delivery::Async),
            ),
            final(gpio).interrupts().pending == drop_lines(
                old(gpio).interrupts().pending,
                seq![self.line()],
            ),
            final(gpio).interrupts().worker_failed == old(gpio).interrupts().worker_failed,
    {
        let line = self.pin();
        gpio.arm_line(line, trigger, Delivery::Async);
    }

    /// Disarms the line's asynchronous interrupt: from the moment this
    /// returns, no worker is to deliver an edge of the line.
    pub fn clear_async_interrupt(&self, gpio: &mut Gpio)
        requires
            old(gpio).wf(),
        ensures
            final(gpio).wf(),
            final(gpio).registers() == old(gpio).registers(),
            final(gpio).interrupts().armed == old(gpio).interrupts().armed.update(
                self.line() as int,
                None,
            ),
            final(gpio).interrupts().pending == drop_lines(
                old(gpio).interrupts().pending,
                seq![self.line()],
            ),
            final(gpio).interrupts().worker_failed == old(gpio).interrupts().worker_failed,
            !is_async(final(gpio).interrupts().armed, self.line()),
    {
        let line = self.pin();
        gpio.arm_line(line, Trigger::Disabled, Delivery::Sync);
    }

    /// The first step of a poll of this line; see `Gpio::poll_interrupts`.
    pub fn poll_interrupt(&self, gpio: &mut Gpio, reset: bool) -> (r: Result<PollStep, Error>)
        requires
            old(gpio).wf(),
        ensures
            final(gpio).wf(),
            final(gpio).registers() == old(gpio).registers(),
            final(gpio).interrupts().armed == old(gpio).interrupts().armed,
            !final(gpio).interrupts().worker_failed,
            old(gpio).interrupts().worker_failed ==> r == Err::<PollStep, Error>(
                Error::ThreadPanic,
            ) && final(gpio).interrupts().pending == old(gpio).interrupts().pending,
            !old(gpio).interrupts().worker_failed ==> ({
                let lines = seq![self.line()];
                let p = if reset {
                    drop_lines(old(gpio).interrupts().pending, lines)
                } else {
                    old(gpio).interrupts().pending
                };
                let (e, q) = take_spec(p, lines);
                &&& final(gpio).interrupts().pending == q
                &&& r == Ok::<PollStep, Error>(step_of(e, old(gpio).interrupts().armed, lines))
            }),
    {
        let pins: Vec<&InputPin> = vec![self];
        proof {
            assert(lines_of(pins@) =~= seq![self.line()]);
        }
        gpio.poll_interrupts(pins.as_slice(), reset)
    }

    /// A later step of a poll of this line; see `Gpio::poll_wake`.
    pub fn poll_wake(&self, gpio: &mut Gpio, batch: &[Edge]) -> (r: PollStep)
        requires
            old(gpio).wf(),
        ensures
            final(gpio).wf(),
            final(gpio).registers() == old(gpio).registers(),
            final(gpio).interrupts().armed == old(gpio).interrupts().armed,
            final(gpio).interrupts().worker_failed == old(gpio).interrupts().worker_failed,
            ({
                let lines = seq![self.line()];
                let p = recorded(
                    old(gpio).interrupts().pending,
                    old(gpio).interrupts().armed,
                    batch@,
                    MAX_LINES as nat,
                );
                let (e, q) = take_spec(p, lines);
                &&& final(gpio).interrupts().pending == q
                &&& r == step_of(e, old(gpio).interrupts().armed, lines)
            }),
    {
        let pins: Vec<&InputPin> = vec![self];
        proof {
            assert(lines_of(pins@) =~= seq![self.line()]);
        }
        gpio.poll_wake(pins.as_slice(), batch)
    }
}

/// A checked-out line in output mode.
#[derive(Debug)]
pub struct OutputPin {
    pin: Pin,
}

impl OutputPin {
    /// The line this handle holds.
    pub closed spec fn line(&self) -> u8 {
        self.pin.line()
    }

    /// Whether releasing the handle restores the line.
    pub closed spec fn clears(&self) -> bool {
        self.pin.clears()
    }

    /// The line number.
    pub fn pin(&self) -> (r: u8)
        ensures
            r == self.line(),
            r < MAX_LINES,
    {
        self.pin.pin()
    }

    /// The current mode of the line.
    pub fn mode(&self, gpio: &Gpio) -> (r: Mode)
        requires
            gpio.wf(),
        ensures
            r == mode_at(gpio.registers(), self.line() as int),
    {
        self.pin.mode(gpio)
    }

    /// Whether releasing the handle returns the line to input with no pull.
    pub fn set_clear_on_drop(&mut self, clear_on_drop: bool)
        ensures
            final(self).line() == old(self).line(),
            final(self).clears() == clear_on_drop,
    {
        self.pin.set_clear_on_drop(clear_on_drop);
    }

    /// Releases the handle: the line's interrupt is disarmed, the line is
    /// returned to input with no pull unless restoring was switched off,
    /// and the line is free to be checked out again.
    pub fn release(self, gpio: &mut Gpio, registry: &mut LineRegistry)
        requires
            old(gpio).wf(),
            old(registry).wf(),
        ensures
            final(gpio).wf(),
            final(registry).wf(),
            final(registry)@.taken == released(old(registry)@.taken, self.line()),
            final(registry)@.instance == old(registry)@.instance,
            final(gpio).interrupts().armed == old(gpio).interrupts().armed.update(
                self.line() as int,
                None,
            ),
            final(gpio).interrupts().pending == drop_lines(
                old(gpio).interrupts().pending,
                seq![self.line()],
            ),
            final(gpio).interrupts().worker_failed == old(gpio).interrupts().worker_failed,
            final(gpio).registers() == if self.clears() {
                restored(old(gpio).registers(), self.line() as int)
            } else {
                old(gpio).registers()
            },
            self.clears() ==> mode_at(final(gpio).registers(), self.line() as int) == Mode::Input
                && pull_at(final(gpio).registers(), self.line() as int) == PullUpDown::Off,
    {
        self.pin.release(gpio, registry);
    }

    /// Drives the line to `level`.
    pub fn write(&self, gpio: &mut Gpio, level: Level)
        requires
            old(gpio).wf(),
        ensures
            final(gpio).wf(),
            final(gpio).registers() == with_output(old(gpio).registers(), self.line() as int, level),
            final(gpio).interrupts() == old(gpio).interrupts(),
            mode_at(old(gpio).registers(), self.line() as int) == Mode::Output ==> level_at(
                final(gpio).registers(),
                self.line() as int,
            ) == level,
    {
        let line = self.pin();
        gpio.regs.set_output(line, level);
    }

    /// Drives the line high.
    pub fn set_high(&self, gpio: &mut Gpio)
        requires
            old(gpio).wf(),
        ensures
            final(gpio).wf(),
            final(gpio).registers() == with_output(
                old(gpio).registers(),
                self.line() as int,
                Level::High,
            ),
            final(gpio).interrupts() == old(gpio).interrupts(),
            mode_at(old(gpio).registers(), self.line() as int) == Mode::Output ==> level_at(
                final(gpio).registers(),
                self.line() as int,
            ) == Level::High,
    {
        self.write(gpio, Level::High);
    }

    /// Drives the line low.
    pub fn set_low(&self, gpio: &mut Gpio)
        requires
            old(gpio).wf(),
        ensures
            final(gpio).wf(),
            final(gpio).registers() == with_output(
                old(gpio).registers(),
                self.line() as int,
                Level::Low,
            ),
            final(gpio).interrupts() == old(gpio).interrupts(),
            mode_at(old(gpio).registers(), self.line() as int) == Mode::Output ==> level_at(
                final(gpio).registers(),
                self.line() as int,
            ) == Level::Low,
    {
        self.write(gpio, Level::Low);
    }

    /// The level the line reports.
    pub fn read(&self, gpio: &Gpio) -> (r: Level)
        requires
            gpio.wf(),
        ensures
            r == level_at(gpio.registers(), self.line() as int),
    {
        let line = self.pin();
        gpio.regs.read_level(line)
    }

    /// Whether the line reports high.
    pub fn is_set_high(&self, gpio: &Gpio) -> (r: bool)
        requires
            gpio.wf(),
        ensures
            r == (level_at(gpio.registers(), self.line() as int) == Level::High),
    {
        self.read(gpio) == Level::High
    }

    /// Whether the line reports low.
    pub fn is_set_low(&self, gpio: &Gpio) -> (r: bool)
        requires
            gpio.wf(),
        ensures
            r == (level_at(gpio.registers(), self.line() as int) == Level::Low),
    {
        self.read(gpio) == Level::Low
    }

    /// Drives the line to the opposite of the level it reports.
    pub fn toggle(&self, gpio: &mut Gpio)
        requires
            old(gpio).wf(),
        ensures
            final(gpio).wf(),
            final(gpio).registers() == with_output(
                old(gpio).registers(),
                self.line() as int,
                flip(level_at(old(gpio).registers(), self.line() as int)),
            ),
            final(gpio).interrupts() == old(gpio).interrupts(),
            mode_at(old(gpio).registers(), self.line() as int) == Mode::Output ==> level_at(
                final(gpio).registers(),
                self.line() as int,
            ) == flip(level_at(old(gpio).registers(), self.line() as int)),
    {
        let level = self.read(gpio);
        self.write(gpio, level.flipped());
    }
}

/// A checked-out line handed to an alternate function.
#[derive(Debug)]
pub struct AltPin {
    pin: Pin,
}

impl AltPin {
    /// The line this handle holds.
    pub closed spec fn line(&self) -> u8 {
        self.pin.line()
    }

    /// Whether releasing the handle restores the line.
    pub closed spec fn clears(&self) -> bool {
        self.pin.clears()
    }

    /// The line number.
    pub fn pin(&self) -> (r: u8)
        ensures
            r == self.line(),
            r < MAX_LINES,
    {
        self.pin.pin()
    }

    /// The current mode of the line.
    pub fn mode(&self, gpio: &Gpio) -> (r: Mode)
        requires
            gpio.wf(),
        ensures
            r == mode_at(gpio.registers(), self.line() as int),
    {
        self.pin.mode(gpio)
    }

    /// Whether releasing the handle returns the line to input with no pull.
    pub fn set_clear_on_drop(&mut self, clear_on_drop: bool)
        ensures
            final(self).line() == old(self).line(),
            final(self).clears() == clear_on_drop,
    {
        self.pin.set_clear_on_drop(clear_on_drop);
    }

    /// Releases the handle: the line's interrupt is disarmed, the line is
    /// returned to input with no pull unless restoring was switched off,
    /// and the line is free to be checked out again.
    pub fn release(self, gpio: &mut Gpio, registry: &mut LineRegistry)
        requires
            old(gpio).wf(),
            old(registry).wf(),
        ensures
            final(gpio).wf(),
            final(registry).wf(),
            final(registry)@.taken == released(old(registry)@.taken, self.line()),
            final(registry)@.instance == old(registry)@.instance,
            final(gpio).interrupts().armed == old(gpio).interrupts().armed.update(
                self.line() as int,
                None,
            ),
            final(gpio).interrupts().pending == drop_lines(
                old(gpio).interrupts().pending,
                seq![self.line()],
            ),
            final(gpio).interrupts().worker_failed == old(gpio).interrupts().worker_failed,
            final(gpio).registers() == if self.clears() {
                restored(old(gpio).registers(), self.line() as int)
            } else {
                old(gpio).registers()
            },
            self.clears() ==> mode_at(final(gpio).registers(), self.line() as int) == Mode::Input
                && pull_at(final(gpio).registers(), self.line() as int) == PullUpDown::Off,
    {
        self.pin.release(gpio, registry);
    }
}

} // verus!
