//! The interrupt lines the kernel knows, and where each sits in the
//! interrupt controller's register banks.
//!
//! The controller itself is a block of memory-mapped registers outside this
//! crate; the register-bank arithmetic that driving it takes is computed
//! here, from plain values.

use vstd::prelude::*;

verus! {

/// An interrupt line of the interrupt controller.
#[derive(Clone, Copy, Debug, PartialEq, Eq, Structural)]
pub enum Interrupt {
    Timer1,
    Timer3,
    Usb,
    Gpio0,
    Gpio1,
    Gpio2,
    Gpio3,
    Uart,
}

/// The hardware line number of each interrupt.
pub open spec fn spec_line(irq: Interrupt) -> u8 {
    match irq {
        Interrupt::Timer1 => 1,
        Interrupt::Timer3 => 3,
        Interrupt::Usb => 9,
        Interrupt::Gpio0 => 49,
        Interrupt::Gpio1 => 50,
        Interrupt::Gpio2 => 51,
        Interrupt::Gpio3 => 52,
        Interrupt::Uart => 57,
    }
}

impl Interrupt {
    /// The hardware line number of this interrupt.
    pub fn line(&self) -> (r: u8)
        ensures
            r == spec_line(*self),
    {
        match self {
            Interrupt::Timer1 => 1,
            Interrupt::Timer3 => 3,
            Interrupt::Usb => 9,
            Interrupt::Gpio0 => 49,
            Interrupt::Gpio1 => 50,
            Interrupt::Gpio2 => 51,
            Interrupt::Gpio3 => 52,
            Interrupt::Uart => 57,
        }
    }

    /// Where this interrupt sits in the controller's 32-bit register banks:
    /// the bank index and the single-bit mask to enable, disable or test the
    /// line there.
    pub fn bank_and_mask(&self) -> (r: (usize, u32))
        ensures
            r.0 == spec_line(*self) as int / 32,
            r.1 == 1u32 << (spec_line(*self) as u32 % 32),
    {
        let line = self.line() as usize;
        let bank = line / 32;
        let bit = (line % 32) as u32;
        (bank, 1u32 << bit)
    }
}

} // verus!
