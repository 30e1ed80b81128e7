use vstd::arithmetic::div_mod::lemma_fundamental_div_mod;
use vstd::prelude::*;

pub mod datetime;
pub mod register_access;

pub use crate::datetime::{CalendarDate, CalendarDateTime, Hours, TimeOfDay};
pub use crate::register_access::{
    BusOp, ClockOutputFrequency, CrystalDrive, FunctionReg, I2cBus, I2cInterface, IntAPinMode,
    InterruptReg, LoadCapacitance, OscillatorReg, PeriodicInterrupt, PinIoReg, Register,
    RegisterAccess,
};

verus! {

/// Default bus address of the chip (0xA2 to write, 0xA3 to read).
pub const DEFAULT_ADDRESS: u8 = 0x51;

/// Errors of the driver.
#[derive(Debug)]
pub enum Error<E> {
    /// The bus reported a failure.
    Interface(E),
    /// A date outside what the chip can hold was given.
    InvalidDate,
}

/// Cadence and size of the offset correction steps.
#[derive(Debug, Clone, Copy, PartialEq, Eq, Structural)]
pub enum OffsetMode {
    /// Correction made every 4 hours, 2.170 ppm per step.
    Normal,
    /// Correction made every 8 minutes, 2.0345 ppm per step.
    Fast,
}

impl OffsetMode {
    /// Size of one correction step in tenths of a ppb.
    pub open spec fn step(self) -> int {
        match self {
            OffsetMode::Normal => 21700,
            OffsetMode::Fast => 20345,
        }
    }

    /// Offset per step, measured in 0.1 ppb per step.
    pub fn offset_per_step(&self) -> (r: u32)
        ensures
            r == self.step(),
    {
        match self {
            OffsetMode::Normal => 21700,
            OffsetMode::Fast => 20345,
        }
    }
}

/// Integer division that truncates toward zero.
pub open spec fn div_trunc(a: int, b: int) -> int {
    if a >= 0 {
        a / b
    } else {
        -((-a) / b)
    }
}

/// Sign of `a`: -1, 0 or 1.
pub open spec fn sign(a: int) -> int {
    if a > 0 {
        1
    } else if a < 0 {
        -1
    } else {
        0
    }
}

/// `a` held within the range of `i8`.
pub open spec fn saturate_i8(a: int) -> int {
    if a < -128 {
        -128
    } else if a > 127 {
        127
    } else {
        a
    }
}

/// Register step count for a correction of `ppb` parts per billion: the
/// quotient by the step size rounded half away from zero, then saturated.
pub open spec fn offset_steps(ppb: int, step: int) -> int {
    saturate_i8(div_trunc(ppb * 10 + div_trunc(sign(ppb) * step, 2), step))
}

/// Offset register value for a correction of `offset_ppb` parts per billion.
pub fn offset_value_for_ppb_offset(offset_ppb: i32, offset_mode: OffsetMode) -> (r: i8)
    ensures
        r == offset_steps(offset_ppb as int, offset_mode.step()),
{
    let tenthppb_per_pulse: i64 = offset_mode.offset_per_step() as i64;
    let scaled: i64 = (offset_ppb as i64) * 10;
    let half: i64 = tenthppb_per_pulse / 2;
    let biased: i64 = if offset_ppb > 0 {
        scaled + half
    } else if offset_ppb < 0 {
        scaled - half
    } else {
        scaled
    };
    let q: i64 = if biased >= 0 {
        biased / tenthppb_per_pulse
    } else {
        -((-biased) / tenthppb_per_pulse)
    };
    if q < -128 {
        -128
    } else if q > 127 {
        127
    } else {
        q as i8
    }
}

/// A step count that the unsaturated quotient would put beyond the range of
/// `i8` is held at the nearest bound, and one within it is kept.
pub proof fn lemma_offset_saturates(offset_ppb: i32, offset_mode: OffsetMode)
    ensures
        ({
            let step = offset_mode.step();
            let q = div_trunc(offset_ppb * 10 + div_trunc(sign(offset_ppb as int) * step, 2), step);
            &&& q > 127 ==> offset_steps(offset_ppb as int, step) == 127
            &&& q < -128 ==> offset_steps(offset_ppb as int, step) == -128
            &&& -128 <= q <= 127 ==> offset_steps(offset_ppb as int, step) == q
        }),
{
}

/// The unsaturated step count is the quotient `a / s` rounded to the nearest
/// integer, with a tie resolved away from zero: the remainder `a - q * s` is
/// at most half a step, and exactly half a step only toward zero.
pub proof fn lemma_rounds_half_away_from_zero(a: int, s: int)
    requires
        s > 0,
    ensures
        ({
            let q = div_trunc(a + div_trunc(sign(a) * s, 2), s);
            &&& a > 0 ==> -s <= 2 * (a - q * s) < s
            &&& a < 0 ==> -s < 2 * (a - q * s) <= s
            &&& a == 0 ==> q == 0
        }),
{
    let h = s / 2;
    lemma_fundamental_div_mod(s, 2);
    assert(s - 1 <= 2 * h <= s);
    assert(div_trunc(s, 2) == h);
    assert(div_trunc(-s, 2) == -h);
    if a > 0 {
        let b = a + h;
        lemma_fundamental_div_mod(b, s);
        let q = b / s;
        assert(div_trunc(a + div_trunc(sign(a) * s, 2), s) == q);
        assert(b == s * q + b % s);
        assert(0 <= b % s < s);
        assert(a - q * s == b % s - h) by (nonlinear_arith)
            requires
                b == s * q + b % s,
                b == a + h,
        ;
    } else if a < 0 {
        let b = -a + h;
        lemma_fundamental_div_mod(b, s);
        let q = b / s;
        assert(div_trunc(a + div_trunc(sign(a) * s, 2), s) == -q);
        assert(0 <= b % s < s);
        assert(a - (-q) * s == h - b % s) by (nonlinear_arith)
            requires
                b == s * q + b % s,
                b == -a + h,
        ;
    }
}

/// Every offset rounds to the nearest step, with a tie resolved away from
/// zero, before it is saturated.
pub proof fn lemma_offset_rounds_to_nearest(offset_ppb: i32, offset_mode: OffsetMode)
    ensures
        ({
            let step = offset_mode.step();
            let a = offset_ppb * 10;
            let q = div_trunc(a + div_trunc(sign(offset_ppb as int) * step, 2), step);
            &&& a > 0 ==> -step <= 2 * (a - q * step) < step
            &&& a < 0 ==> -step < 2 * (a - q * step) <= step
            &&& a == 0 ==> q == 0
        }),
{
    let a = offset_ppb * 10;
    assert(sign(offset_ppb as int) == sign(a));
    lemma_rounds_half_away_from_zero(a, offset_mode.step());
}

/// Driver of a PCF85263A real-time clock over a register access interface.
pub struct Pcf85263a<I> {
    interface: I,
}

impl<I> Pcf85263a<I> {
    /// The register access interface that the driver owns.
    pub closed spec fn bus(&self) -> I {
        self.interface
    }
}

impl<I: RegisterAccess> Pcf85263a<I> {
    pub fn new(interface: I) -> (r: Self)
        ensures
            r.bus() == interface,
    {
        Pcf85263a { interface }
    }

    pub fn release(self) -> (r: I)
        ensures
            r == self.bus(),
    {
        self.interface
    }
}

impl<I2C: I2cBus> Pcf85263a<I2cInterface<I2C>> {
    /// A driver over `i2c` at the default address.
    pub fn new_with_i2c(i2c: I2C) -> (r: Self)
        ensures
            r.bus().bus() == i2c,
            r.bus().device_address() == DEFAULT_ADDRESS,
            r.bus().issued() == Seq::<BusOp>::empty(),
    {
        Self::new(I2cInterface::new(i2c, DEFAULT_ADDRESS))
    }
}

} // verus!
