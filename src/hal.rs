//! A GPIO output pin of a memory-mapped port: where its registers are, and what value
//! each operation writes to them. The volatile register access itself is the caller's.
use vstd::prelude::*;

verus! {

/// Base address of GPIO port C.
pub const GPIO_PORTC_BASE: usize = 0x4002_0C00;

/// Offset of the mode register from a port's base.
pub const MODE_REGISTER_OFFSET: usize = 0x00;

/// Offset of the output data register from a port's base.
pub const OUTPUT_DATA_REGISTER_OFFSET: usize = 0x14;

/// Number of pins on a port.
pub const PINS_PER_PORT: u8 = 16;

/// The bit of the output data register that drives pin `pin`.
pub open spec fn level_bit(pin: u8) -> u32 {
    1u32 << (pin as u32)
}

/// The lower bit of the two-bit mode field of pin `pin`; set, it selects output mode.
pub open spec fn output_mode_bit(pin: u8) -> u32 {
    1u32 << (2 * pin as u32)
}

/// Bit `j` of `x`.
pub open spec fn bit(x: u32, j: u32) -> bool {
    (x >> j) & 1u32 == 1u32
}

/// A single pin of a GPIO port.
pub struct GpioPin {
    port_base: usize,
    pin_number: u8,
}

impl GpioPin {
    pub closed spec fn port_base(&self) -> usize {
        self.port_base
    }

    pub closed spec fn pin(&self) -> u8 {
        self.pin_number
    }

    /// The pin exists on its port, and the port's registers lie in the address space.
    pub closed spec fn wf(&self) -> bool {
        &&& self.pin_number < PINS_PER_PORT
        &&& self.port_base + OUTPUT_DATA_REGISTER_OFFSET <= usize::MAX
    }

    /// Pin `pin_number` of the port at `port_base`. Configuring it as an output is done by
    /// writing `output_mode` of the mode register's current value back to that register.
    pub fn new(port_base: usize, pin_number: u8) -> (r: Self)
        requires
            pin_number < PINS_PER_PORT,
            port_base + OUTPUT_DATA_REGISTER_OFFSET <= usize::MAX,
        ensures
            r.wf(),
            r.port_base() == port_base,
            r.pin() == pin_number,
    {
        GpioPin { port_base, pin_number }
    }

    /// The pin's number on its port.
    pub fn pin_number(&self) -> (r: u8)
        ensures
            r == self.pin(),
    {
        self.pin_number
    }

    /// Address of the port's mode register.
    pub fn mode_register(&self) -> (r: usize)
        requires
            self.wf(),
        ensures
            r == self.port_base() + MODE_REGISTER_OFFSET,
    {
        self.port_base + MODE_REGISTER_OFFSET
    }

    /// Address of the port's output data register.
    pub fn output_register(&self) -> (r: usize)
        requires
            self.wf(),
        ensures
            r == self.port_base() + OUTPUT_DATA_REGISTER_OFFSET,
    {
        self.port_base + OUTPUT_DATA_REGISTER_OFFSET
    }

    /// The mode register value that puts this pin in output mode, given its current value.
    pub fn output_mode(&self, moder: u32) -> (r: u32)
        requires
            self.wf(),
        ensures
            r == moder | output_mode_bit(self.pin()),
    {
        moder | (1u32 << (2 * self.pin_number as u32))
    }

    /// The output data register value that drives this pin high, given its current value.
    pub fn set_high(&self, odr: u32) -> (r: u32)
        requires
            self.wf(),
        ensures
            r == odr | level_bit(self.pin()),
    {
        odr | (1u32 << self.pin_number as u32)
    }

    /// The output data register value that drives this pin low, given its current value.
    pub fn set_low(&self, odr: u32) -> (r: u32)
        requires
            self.wf(),
        ensures
            r == odr & !level_bit(self.pin()),
    {
        odr & !(1u32 << self.pin_number as u32)
    }
}

/// Driving a pin touches its own level bit only: driving it high sets that bit, driving
/// it low clears it, and every other pin of the port keeps its level.
pub proof fn lemma_levels_touch_one_pin(odr: u32, pin: u8, j: u32)
    requires
        pin < PINS_PER_PORT,
        j < 32,
    ensures
        bit(odr | level_bit(pin), pin as u32),
        !bit(odr & !level_bit(pin), pin as u32),
        j != pin ==> bit(odr | level_bit(pin), j) == bit(odr, j),
        j != pin ==> bit(odr & !level_bit(pin), j) == bit(odr, j),
{
    let p = pin as u32;
    assert(p < 16);
    assert(((odr | (1u32 << p)) >> p) & 1u32 == 1u32) by (bit_vector)
        requires
            p < 16,
    ;
    assert(((odr & !(1u32 << p)) >> p) & 1u32 != 1u32) by (bit_vector)
        requires
            p < 16,
    ;
    assert(j != p ==> ((odr | (1u32 << p)) >> j) & 1u32 == (odr >> j) & 1u32) by (bit_vector)
        requires
            p < 16,
            j < 32,
    ;
    assert(j != p ==> ((odr & !(1u32 << p)) >> j) & 1u32 == (odr >> j) & 1u32) by (bit_vector)
        requires
            p < 16,
            j < 32,
    ;
}

} // verus!
