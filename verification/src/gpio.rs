//! The real hardware lines: rppal GPIO pins behind the line capabilities.
//! Each wrapper below makes one trusted call into rppal; the level, the pulse
//! count and the record of sampled bits are ghost bookkeeping that those
//! wrappers' contracts maintain, so the verified driver runs over these pins
//! exactly as it runs over the scripted in-memory lines. A pin's level at
//! construction is left arbitrary: only observing the line says anything.

use vstd::prelude::*;

use crate::lines::{ClockLine, DataLine};

verus! {

#[verifier::external_type_specification]
#[verifier::external_body]
pub struct ExInputPin(rppal::gpio::InputPin);

#[verifier::external_type_specification]
#[verifier::external_body]
pub struct ExOutputPin(rppal::gpio::OutputPin);

/// An input pin as the driver's data line.
pub struct GpioDataLine {
    pin: rppal::gpio::InputPin,
    level: Ghost<bool>,
    record: Ghost<Seq<bool>>,
}

/// An output pin as the driver's clock line.
pub struct GpioClockLine {
    pin: rppal::gpio::OutputPin,
    high: Ghost<bool>,
    count: Ghost<nat>,
}

/// Relies on rppal's `InputPin::is_low`: true exactly when the pin reads low
/// at this instant.
#[verifier::external_body]
fn pin_is_low(line: &mut GpioDataLine) -> (r: bool)
    ensures
        r == !old(line).level_high(),
        final(line).reads() == old(line).reads(),
{
    line.pin.is_low()
}

/// Relies on rppal's `InputPin::read`: the pin's level at this instant, high
/// or low.
#[verifier::external_body]
fn pin_read_level(line: &mut GpioDataLine) -> (r: bool)
    ensures
        final(line).reads() == old(line).reads().push(r),
{
    line.pin.read() == rppal::gpio::Level::High
}

/// Relies on rppal's `OutputPin::set_high`: drives the pin high.
#[verifier::external_body]
fn pin_set_high(line: &mut GpioClockLine)
    ensures
        final(line).clock_high(),
        final(line).pulses() == old(line).pulses(),
{
    line.pin.set_high();
}

/// Relies on rppal's `OutputPin::set_low`: drives the pin low, completing a
/// pulse when the pin was high.
#[verifier::external_body]
fn pin_set_low(line: &mut GpioClockLine)
    ensures
        !final(line).clock_high(),
        final(line).pulses() == old(line).pulses() + (if old(line).clock_high() {
            1nat
        } else {
            0nat
        }),
{
    line.pin.set_low();
}

/// Relies on rppal's `OutputPin::is_set_high`: whether the pin is currently
/// driven high.
#[verifier::external_body]
fn pin_is_set_high(line: &GpioClockLine) -> (r: bool)
    ensures
        r == line.clock_high(),
{
    line.pin.is_set_high()
}

/// Relies on rppal's `Delay`, through embedded-hal's `DelayNs`: sleeps at
/// least `micros` microseconds; the pin is not touched.
#[verifier::external_body]
fn pin_hold(line: &mut GpioClockLine, micros: u32)
    ensures
        final(line).clock_high() == old(line).clock_high(),
        final(line).pulses() == old(line).pulses(),
{
    let mut delay = rppal::hal::Delay::new();
    embedded_hal::delay::DelayNs::delay_us(&mut delay, micros);
}

impl GpioDataLine {
    /// Wraps a configured input pin; nothing sampled yet.
    pub fn new(pin: rppal::gpio::InputPin) -> (r: GpioDataLine)
        ensures
            r.reads() == Seq::<bool>::empty(),
    {
        GpioDataLine {
            pin,
            level: Ghost(vstd::pervasive::arbitrary()),
            record: Ghost(Seq::empty()),
        }
    }
}

impl DataLine for GpioDataLine {
    closed spec fn level_high(&self) -> bool {
        self.level@
    }

    closed spec fn reads(&self) -> Seq<bool> {
        self.record@
    }

    fn is_low(&mut self) -> (r: bool) {
        pin_is_low(self)
    }

    fn read_level(&mut self) -> (r: bool) {
        pin_read_level(self)
    }
}

/// Relies on rppal's `OutputPin::set_low`: hands the pin back driven low, the
/// driver's rest state.
#[verifier::external_body]
fn lowered(pin: rppal::gpio::OutputPin) -> (r: rppal::gpio::OutputPin) {
    let mut pin = pin;
    pin.set_low();
    pin
}

impl GpioClockLine {
    /// Wraps a configured output pin, driving it low first so the line starts
    /// in the driver's rest state, with no pulses counted yet.
    pub fn new(pin: rppal::gpio::OutputPin) -> (r: GpioClockLine)
        ensures
            !r.clock_high(),
            r.pulses() == 0,
    {
        GpioClockLine { pin: lowered(pin), high: Ghost(false), count: Ghost(0nat) }
    }
}

impl ClockLine for GpioClockLine {
    closed spec fn clock_high(&self) -> bool {
        self.high@
    }

    closed spec fn pulses(&self) -> nat {
        self.count@
    }

    fn set_high(&mut self) {
        pin_set_high(self)
    }

    fn set_low(&mut self) {
        pin_set_low(self)
    }

    fn is_set_high(&self) -> (r: bool) {
        pin_is_set_high(self)
    }

    fn hold(&mut self, micros: u32) {
        pin_hold(self, micros)
    }
}

} // verus!
