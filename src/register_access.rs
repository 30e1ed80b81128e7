use vstd::prelude::*;

use crate::{Error, OffsetMode, Pcf85263a};

verus! {

/// Addresses of the chip's registers.
pub struct Register;

impl Register {
    pub const SECONDS_100TH: u8 = 0x00;
    pub const SECONDS: u8 = 0x01;
    pub const MINUTES: u8 = 0x02;
    pub const HOURS: u8 = 0x03;
    pub const DAYS: u8 = 0x04;
    pub const WEEKDAYS: u8 = 0x05;
    pub const MONTHS: u8 = 0x06;
    pub const YEARS: u8 = 0x07;
    pub const OFFSET: u8 = 0x24;
    pub const OSCILLATOR: u8 = 0x25;
    pub const BATTERY_SWITCH: u8 = 0x26;
    pub const PIN_IO: u8 = 0x27;
    pub const FUNCTION: u8 = 0x28;
    pub const INTA_ENABLE: u8 = 0x29;
    pub const INTB_ENABLE: u8 = 0x2A;
    pub const FLAGS: u8 = 0x2B;
    pub const RAM_BYTE: u8 = 0x2C;
    pub const WATCHDOG: u8 = 0x2D;
    pub const STOP_ENABLE: u8 = 0x2E;
    pub const RESETS: u8 = 0x2F;
}

/// Byte `b` with the field `mask << shift` replaced by `v << shift`; the other
/// bits are kept.
pub open spec fn with_field(b: u8, mask: u8, shift: u8, v: u8) -> u8 {
    (b & !((mask << shift) as u8)) | ((v << shift) as u8)
}

/// Mask of bit `bit` of a byte.
pub open spec fn bit_mask(bit: u8) -> u8 {
    (1u8 << bit) as u8
}

/// Byte `b` with bit `bit` set or cleared; the other bits are kept.
pub open spec fn with_flag(b: u8, bit: u8, set: bool) -> u8 {
    if set {
        b | bit_mask(bit)
    } else {
        b & !bit_mask(bit)
    }
}

/// Whether bit `bit` of `b` is set.
pub open spec fn flag_of(b: u8, bit: u8) -> bool {
    b & bit_mask(bit) != 0
}

/// Setting one flag keeps every other bit and leaves the flag as asked.
pub proof fn lemma_with_flag(b: u8, bit: u8, set: bool)
    requires
        bit < 8,
    ensures
        flag_of(with_flag(b, bit, set), bit) == set,
        forall|i: u8| i < 8 && i != bit ==> flag_of(with_flag(b, bit, set), i) == #[trigger] flag_of(b, i),
{
    let r = with_flag(b, bit, set);
    assert(forall|i: u8| i < 8 && i != bit ==> flag_of(r, i) == #[trigger] flag_of(b, i)) by (bit_vector)
        requires
            bit < 8,
            r == with_flag(b, bit, set),
    ;
    assert(flag_of(r, bit) == set) by (bit_vector)
        requires
            bit < 8,
            r == with_flag(b, bit, set),
    ;
}

/// Value of the field `mask << shift` of `b`.
pub open spec fn field_of(b: u8, mask: u8, shift: u8) -> u8 {
    (b >> shift) & mask
}

/// Replacing a field that fits in the byte leaves the new value in the field
/// and keeps every bit outside it.
pub proof fn lemma_with_field(b: u8, mask: u8, shift: u8, v: u8)
    requires
        shift < 8,
        (((mask << shift) as u8) >> shift) == mask,
        v & mask == v,
    ensures
        field_of(with_field(b, mask, shift, v), mask, shift) == v,
        with_field(b, mask, shift, v) & !((mask << shift) as u8) == b & !((mask << shift) as u8),
{
    let r = with_field(b, mask, shift, v);
    assert(field_of(r, mask, shift) == v && r & !((mask << shift) as u8) == b & !((mask << shift) as u8))
        by (bit_vector)
        requires
            shift < 8,
            (((mask << shift) as u8) >> shift) == mask,
            v & mask == v,
            r == with_field(b, mask, shift, v),
    ;
}

/// Load capacitance of the quartz oscillator.
#[derive(Debug, Clone, Copy, PartialEq, Eq, Structural)]
pub enum LoadCapacitance {
    Cl7pF,
    Cl6pF,
    Cl12_5pF,
    Cl12_5pF2,
}

impl LoadCapacitance {
    /// Two-bit field value of the load capacitance.
    pub open spec fn bits(self) -> u8 {
        match self {
            LoadCapacitance::Cl7pF => 0,
            LoadCapacitance::Cl6pF => 1,
            LoadCapacitance::Cl12_5pF => 2,
            LoadCapacitance::Cl12_5pF2 => 3,
        }
    }

    /// Load capacitance held in the two low bits of `v`.
    pub open spec fn of_bits(v: u8) -> LoadCapacitance {
        let f = v & 3;
        if f == 0 {
            LoadCapacitance::Cl7pF
        } else if f == 1 {
            LoadCapacitance::Cl6pF
        } else if f == 2 {
            LoadCapacitance::Cl12_5pF
        } else {
            LoadCapacitance::Cl12_5pF2
        }
    }

    pub fn as_u8(self) -> (r: u8)
        ensures
            r == self.bits(),
    {
        match self {
            LoadCapacitance::Cl7pF => 0b00,
            LoadCapacitance::Cl6pF => 0b01,
            LoadCapacitance::Cl12_5pF => 0b10,
            LoadCapacitance::Cl12_5pF2 => 0b11,
        }
    }
}

impl From<u8> for LoadCapacitance {
    fn from(val: u8) -> (r: LoadCapacitance) {
        let f = val & 0b11;
        if f == 0b00 {
            LoadCapacitance::Cl7pF
        } else if f == 0b01 {
            LoadCapacitance::Cl6pF
        } else if f == 0b10 {
            LoadCapacitance::Cl12_5pF
        } else {
            LoadCapacitance::Cl12_5pF2
        }
    }
}

impl vstd::std_specs::convert::FromSpecImpl<u8> for LoadCapacitance {
    open spec fn obeys_from_spec() -> bool {
        true
    }

    open spec fn from_spec(v: u8) -> LoadCapacitance {
        LoadCapacitance::of_bits(v)
    }
}

/// Drive strength of the quartz oscillator.
#[derive(Debug, Clone, Copy, PartialEq, Eq, Structural)]
pub enum CrystalDrive {
    /// Normal drive, R_S(max) = 100 kOhm
    Normal,
    /// Low drive, R_S(max) = 60 kOhm; reduces I_dd
    Low,
    /// High drive, R_S(max) = 500 kOhm; increases I_dd
    High,
}

impl CrystalDrive {
    /// Two-bit field value of the drive strength.
    pub open spec fn bits(self) -> u8 {
        match self {
            CrystalDrive::Normal => 0,
            CrystalDrive::Low => 1,
            CrystalDrive::High => 2,
        }
    }

    pub fn as_u8(self) -> (r: u8)
        ensures
            r == self.bits(),
    {
        match self {
            CrystalDrive::Normal => 0b00,
            CrystalDrive::Low => 0b01,
            // 0b11 selects the high drive too
            CrystalDrive::High => 0b10,
        }
    }
}

/// The oscillator control register.
#[derive(Debug, Clone, Copy, PartialEq, Eq, Structural)]
pub struct OscillatorReg(pub u8);

impl OscillatorReg {
    pub const CLKIV: u8 = 7;
    pub const OFFM: u8 = 6;
    pub const CLK_12_24: u8 = 5;
    pub const LOWJ: u8 = 4;
    pub const OSCD: u8 = 2;
    pub const OSCD_MASK: u8 = 0b11;
    pub const CL: u8 = 0;
    pub const CL_MASK: u8 = 0b11;

    /// Whether the clock counts hours in 12-hour form.
    pub fn is_12h_clock(&self) -> (r: bool)
        ensures
            r == flag_of(self.0, 5),
    {
        self.0 & (1 << Self::CLK_12_24) > 0
    }

    pub fn load_capcitance(&self) -> (r: LoadCapacitance)
        ensures
            r == LoadCapacitance::of_bits(self.0),
    {
        let b = self.0;
        assert((b & 3) & 3 == b & 3) by (bit_vector);
        LoadCapacitance::from(b & Self::CL_MASK)
    }

    pub fn with_load_capacitance(self, lc: LoadCapacitance) -> (r: Self)
        ensures
            r.0 == with_field(self.0, 3, 0, lc.bits()),
    {
        Self((self.0 & !(Self::CL_MASK << Self::CL)) | lc.as_u8() << Self::CL)
    }

    pub fn with_offset_mode(self, offm: OffsetMode) -> (r: Self)
        ensures
            r.0 == with_flag(self.0, 6, offm == OffsetMode::Fast),
    {
        Self(
            match offm {
                OffsetMode::Normal => self.0 & !(1 << Self::OFFM),
                OffsetMode::Fast => self.0 | (1 << Self::OFFM),
            },
        )
    }

    pub fn with_low_jitter(self, enabled: bool) -> (r: Self)
        ensures
            r.0 == with_flag(self.0, 4, enabled),
    {
        Self(
            if enabled {
                self.0 | (1 << Self::LOWJ)
            } else {
                self.0 & !(1 << Self::LOWJ)
            },
        )
    }

    pub fn with_crystal_drive(self, drive: CrystalDrive) -> (r: Self)
        ensures
            r.0 == with_field(self.0, 3, 2, drive.bits()),
    {
        Self((self.0 & !(Self::OSCD_MASK << Self::OSCD)) | (drive.as_u8() << Self::OSCD))
    }

    pub fn with_inverted_clockout(self, invert: bool) -> (r: Self)
        ensures
            r.0 == with_flag(self.0, 7, invert),
    {
        Self(
            if invert {
                self.0 | (1 << Self::CLKIV)
            } else {
                self.0 & !(1 << Self::CLKIV)
            },
        )
    }

    pub fn as_u8(&self) -> (r: u8)
        ensures
            r == self.0,
    {
        self.0
    }
}

impl Default for OscillatorReg {
    fn default() -> (r: Self)
        ensures
            r.0 == 0,
    {
        Self(0x00)
    }
}

/// Frequency on the clock output pin.
#[derive(Debug, Clone, Copy, PartialEq, Eq, Structural)]
pub enum ClockOutputFrequency {
    F32768,
    F16384,
    F8192,
    F4096,
    F2048,
    F1024,
    F1,
    StaticLow,
}

impl ClockOutputFrequency {
    /// Three-bit field value of the frequency.
    pub open spec fn bits(self) -> u8 {
        match self {
            ClockOutputFrequency::F32768 => 0,
            ClockOutputFrequency::F16384 => 1,
            ClockOutputFrequency::F8192 => 2,
            ClockOutputFrequency::F4096 => 3,
            ClockOutputFrequency::F2048 => 4,
            ClockOutputFrequency::F1024 => 5,
            ClockOutputFrequency::F1 => 6,
            ClockOutputFrequency::StaticLow => 7,
        }
    }

    /// Frequency held in the three low bits of `v`.
    pub open spec fn of_bits(v: u8) -> ClockOutputFrequency {
        let f = v & 7;
        if f == 0 {
            ClockOutputFrequency::F32768
        } else if f == 1 {
            ClockOutputFrequency::F16384
        } else if f == 2 {
            ClockOutputFrequency::F8192
        } else if f == 3 {
            ClockOutputFrequency::F4096
        } else if f == 4 {
            ClockOutputFrequency::F2048
        } else if f == 5 {
            ClockOutputFrequency::F1024
        } else if f == 6 {
            ClockOutputFrequency::F1
        } else {
            ClockOutputFrequency::StaticLow
        }
    }

    pub fn as_u8(self) -> (r: u8)
        ensures
            r == self.bits(),
    {
        match self {
            ClockOutputFrequency::F32768 => 0b000,
            ClockOutputFrequency::F16384 => 0b001,
            ClockOutputFrequency::F8192 => 0b010,
            ClockOutputFrequency::F4096 => 0b011,
            ClockOutputFrequency::F2048 => 0b100,
            ClockOutputFrequency::F1024 => 0b101,
            ClockOutputFrequency::F1 => 0b110,
            ClockOutputFrequency::StaticLow => 0b111,
        }
    }
}

impl From<u8> for ClockOutputFrequency {
    fn from(val: u8) -> (r: ClockOutputFrequency) {
        let f = val & 0b111;
        if f == 0b000 {
            ClockOutputFrequency::F32768
        } else if f == 0b001 {
            ClockOutputFrequency::F16384
        } else if f == 0b010 {
            ClockOutputFrequency::F8192
        } else if f == 0b011 {
            ClockOutputFrequency::F4096
        } else if f == 0b100 {
            ClockOutputFrequency::F2048
        } else if f == 0b101 {
            ClockOutputFrequency::F1024
        } else if f == 0b110 {
            ClockOutputFrequency::F1
        } else {
            ClockOutputFrequency::StaticLow
        }
    }
}

impl vstd::std_specs::convert::FromSpecImpl<u8> for ClockOutputFrequency {
    open spec fn obeys_from_spec() -> bool {
        true
    }

    open spec fn from_spec(v: u8) -> ClockOutputFrequency {
        ClockOutputFrequency::of_bits(v)
    }
}

/// Period of the periodic interrupt.
#[derive(Debug, Clone, Copy, PartialEq, Eq, Structural)]
pub enum PeriodicInterrupt {
    NoInterrupt,
    OncePerSecond,
    OncePerMinute,
    OncePerHour,
}

impl PeriodicInterrupt {
    /// Two-bit field value of the period.
    pub open spec fn bits(self) -> u8 {
        match self {
            PeriodicInterrupt::NoInterrupt => 0,
            PeriodicInterrupt::OncePerSecond => 1,
            PeriodicInterrupt::OncePerMinute => 2,
            PeriodicInterrupt::OncePerHour => 3,
        }
    }

    pub fn as_u8(&self) -> (r: u8)
        ensures
            r == self.bits(),
    {
        match self {
            PeriodicInterrupt::NoInterrupt => 0b00,
            PeriodicInterrupt::OncePerSecond => 0b01,
            PeriodicInterrupt::OncePerMinute => 0b10,
            PeriodicInterrupt::OncePerHour => 0b11,
        }
    }
}

/// The function control register.
#[derive(Debug, Clone, Copy, PartialEq, Eq, Structural)]
pub struct FunctionReg(pub u8);

impl FunctionReg {
    pub const S_100TH: u8 = 7;
    pub const PI: u8 = 5;
    pub const PI_MASK: u8 = 0b11;
    pub const RTCM: u8 = 4;
    pub const STOPM: u8 = 3;
    pub const COF: u8 = 0;
    pub const COF_MASK: u8 = 0b111;

    /// Whether the hundredths-of-a-second counter is on.
    pub fn s100th_enabled(&self) -> (r: bool)
        ensures
            r == flag_of(self.0, 7),
    {
        self.0 & (1 << Self::S_100TH) > 0
    }

    pub fn with_100th(self, enable: bool) -> (r: Self)
        ensures
            r.0 == with_flag(self.0, 7, enable),
    {
        if enable {
            Self(self.0 | (1 << Self::S_100TH))
        } else {
            Self(self.0 & !(1 << Self::S_100TH))
        }
    }

    pub fn clock_output_frequency(&self) -> (r: ClockOutputFrequency)
        ensures
            r == ClockOutputFrequency::of_bits(self.0),
    {
        let b = self.0;
        assert(((b >> 0u8) & 7) & 7 == b & 7) by (bit_vector);
        ClockOutputFrequency::from((b >> Self::COF) & Self::COF_MASK)
    }

    pub fn with_clock_output_frequency(self, cof: ClockOutputFrequency) -> (r: Self)
        ensures
            r.0 == with_field(self.0, 7, 0, cof.bits()),
    {
        Self((self.0 & !(Self::COF_MASK << Self::COF)) | (cof.as_u8() << Self::COF))
    }

    pub fn with_periodic_interrupt(self, pi: PeriodicInterrupt) -> (r: Self)
        ensures
            r.0 == with_field(self.0, 3, 5, pi.bits()),
    {
        Self((self.0 & !(Self::PI_MASK << Self::PI)) | (pi.as_u8() << Self::PI))
    }

    pub fn as_u8(&self) -> (r: u8)
        ensures
            r == self.0,
    {
        self.0
    }
}

impl Default for FunctionReg {
    fn default() -> (r: Self)
        ensures
            r.0 == 0,
    {
        Self(0x00)
    }
}

/// Function of the INTA pin.
#[derive(Debug, Clone, Copy, PartialEq, Eq, Structural)]
pub enum IntAPinMode {
    ClkOutputMode,
    BatteryModeIndication,
    IntA,
    HiZ,
}

impl IntAPinMode {
    /// Two-bit field value of the pin mode.
    pub open spec fn bits(self) -> u8 {
        match self {
            IntAPinMode::ClkOutputMode => 0,
            IntAPinMode::BatteryModeIndication => 1,
            IntAPinMode::IntA => 2,
            IntAPinMode::HiZ => 3,
        }
    }

    pub fn as_u8(&self) -> (r: u8)
        ensures
            r == self.bits(),
    {
        match self {
            IntAPinMode::ClkOutputMode => 0b00,
            IntAPinMode::BatteryModeIndication => 0b01,
            IntAPinMode::IntA => 0b10,
            IntAPinMode::HiZ => 0b11,
        }
    }
}

/// The pin input/output control register.
#[derive(Debug, Clone, Copy, PartialEq, Eq, Structural)]
pub struct PinIoReg(pub u8);

impl PinIoReg {
    pub const INTAPM: u8 = 0;
    pub const INTAPM_MASK: u8 = 0b11;

    pub fn with_inta_pinmode(self, intapm: IntAPinMode) -> (r: Self)
        ensures
            r.0 == with_field(self.0, 3, 0, intapm.bits()),
    {
        Self((self.0 & !(Self::INTAPM_MASK << Self::INTAPM)) | (intapm.as_u8() << Self::INTAPM))
    }

    pub fn as_u8(&self) -> (r: u8)
        ensures
            r == self.0,
    {
        self.0
    }
}

impl Default for PinIoReg {
    fn default() -> (r: Self)
        ensures
            r.0 == 0,
    {
        Self(0x00)
    }
}

/// An interrupt enable register (INTA or INTB).
#[derive(Debug, Clone, Copy, PartialEq, Eq, Structural)]
pub struct InterruptReg(pub u8);

impl InterruptReg {
    pub const ILP: u8 = 7;
    pub const PIE: u8 = 6;
    pub const OIE: u8 = 5;
    pub const A1IE: u8 = 4;
    pub const A2IE: u8 = 3;
    pub const TSRIE: u8 = 2;
    pub const BSIE: u8 = 1;
    pub const WDIE: u8 = 0;

    fn with_bit(self, bit: u8, set: bool) -> (r: Self)
        requires
            bit < 8,
        ensures
            r.0 == with_flag(self.0, bit, set),
    {
        Self(
            if set {
                self.0 | (1 << bit)
            } else {
                self.0 & !(1 << bit)
            },
        )
    }

    pub fn with_level(self, level: bool) -> (r: Self)
        ensures
            r.0 == with_flag(self.0, 7, level),
    {
        self.with_bit(Self::ILP, level)
    }

    pub fn with_periodic_interrupt(self, en: bool) -> (r: Self)
        ensures
            r.0 == with_flag(self.0, 6, en),
    {
        self.with_bit(Self::PIE, en)
    }

    pub fn with_offset_correction_interrupt(self, en: bool) -> (r: Self)
        ensures
            r.0 == with_flag(self.0, 5, en),
    {
        self.with_bit(Self::OIE, en)
    }

    pub fn with_alarm1_interrupt(self, en: bool) -> (r: Self)
        ensures
            r.0 == with_flag(self.0, 4, en),
    {
        self.with_bit(Self::A1IE, en)
    }

    pub fn with_alarm2_interrupt(self, en: bool) -> (r: Self)
        ensures
            r.0 == with_flag(self.0, 3, en),
    {
        self.with_bit(Self::A2IE, en)
    }

    pub fn with_battery_switch_interrupt(self, en: bool) -> (r: Self)
        ensures
            r.0 == with_flag(self.0, 1, en),
    {
        self.with_bit(Self::BSIE, en)
    }

    pub fn with_watchdog_interrupt(self, en: bool) -> (r: Self)
        ensures
            r.0 == with_flag(self.0, 0, en),
    {
        self.with_bit(Self::WDIE, en)
    }

    pub fn with_timestamp_interrupt(self, en: bool) -> (r: Self)
        ensures
            r.0 == with_flag(self.0, 2, en),
    {
        self.with_bit(Self::TSRIE, en)
    }

    pub fn as_u8(&self) -> (r: u8)
        ensures
            r == self.0,
    {
        self.0
    }
}

impl Default for InterruptReg {
    fn default() -> (r: Self)
        ensures
            r.0 == 0,
    {
        Self(0x00)
    }
}

/// One operation on the register file, as a driver issues it: a write of one
/// byte to one register, or a read of consecutive registers from `start`
/// together with the bytes that came back; `ok` tells whether it succeeded.
pub enum BusOp {
    Write { register: u8, value: u8, ok: bool },
    Read { start: u8, bytes: Seq<u8>, ok: bool },
}

/// The operation `op` as it stands when it failed.
pub open spec fn failed(op: BusOp) -> BusOp {
    match op {
        BusOp::Write { register, value, .. } => BusOp::Write { register, value, ok: false },
        BusOp::Read { start, bytes, .. } => BusOp::Read { start, bytes, ok: false },
    }
}

/// The operations `ops` cut at the `k`-th (counted from 1), which failed: the
/// ones before it succeeded and none follows it.
pub open spec fn fails_at(ops: Seq<BusOp>, k: int) -> Seq<BusOp> {
    ops.take(k - 1).push(failed(ops[k - 1]))
}

/// Successful single-register writes of `values` to consecutive registers
/// from `start`.
pub open spec fn writes_of(start: u8, values: Seq<u8>) -> Seq<BusOp> {
    Seq::new(
        values.len(),
        |i: int| BusOp::Write { register: (start + i) as u8, value: values[i], ok: true },
    )
}

/// Access to the chip's register file. `log` is the sequence of operations
/// issued so far; each method appends to it what it did, also when it fails.
pub trait RegisterAccess {
    type Error;

    /// The operations issued so far. The empty default is there so that an
    /// implementation outside verified code compiles without it; such an
    /// implementation does not keep the log, and what the driver's contracts
    /// state of the log does not hold of it.
    open spec fn log(&self) -> Seq<BusOp> {
        Seq::empty()
    }

    fn write_register(&mut self, register: u8, value: u8) -> (r: Result<(), Self::Error>)
        ensures
            final(self).log() == old(self).log().push(BusOp::Write { register, value, ok: r is Ok }),
    ;

    /// Writes `values` to consecutive registers from `start_register`, one
    /// register after the other; not atomic. On a failure the writes before
    /// the failing one succeeded, and no later one was issued.
    fn write_registers(&mut self, start_register: u8, values: &[u8]) -> (r: Result<(), Self::Error>)
        requires
            start_register + values@.len() <= 256,
        ensures
            r is Ok ==> final(self).log() == old(self).log() + writes_of(start_register, values@),
            r is Err ==> exists|k: int|
                1 <= k <= values@.len() && final(self).log() == old(self).log() + #[trigger] fails_at(
                    writes_of(start_register, values@),
                    k,
                ),
    ;

    fn read_register(&mut self, register: u8) -> (r: Result<u8, Self::Error>)
        ensures
            r matches Ok(v) ==> final(self).log() == old(self).log().push(
                BusOp::Read { start: register, bytes: seq![v], ok: true },
            ),
            r is Err ==> exists|b: u8|
                final(self).log() == #[trigger] old(self).log().push(
                    BusOp::Read { start: register, bytes: seq![b], ok: false },
                ),
    ;

    fn read_registers(&mut self, start_register: u8, values: &mut [u8]) -> (r: Result<(), Self::Error>)
        ensures
            final(self).log() == old(self).log().push(
                BusOp::Read { start: start_register, bytes: final(values)@, ok: r is Ok },
            ),
    ;
}

/// An I2C bus controller, as seen by the driver: it writes bytes to a device,
/// or writes bytes and then reads into a buffer in one transaction.
pub trait I2cBus {
    type Error;

    fn write(&mut self, address: u8, bytes: &[u8]) -> (r: Result<(), Self::Error>);

    fn write_read(&mut self, address: u8, bytes: &[u8], buffer: &mut [u8]) -> (r: Result<(), Self::Error>);
}

/// Register access over an I2C bus.
pub struct I2cInterface<I2C> {
    i2c: I2C,
    address: u8,
    ops: Ghost<Seq<BusOp>>,
}

impl<I2C> I2cInterface<I2C> {
    /// The bus of this interface.
    pub closed spec fn bus(&self) -> I2C {
        self.i2c
    }

    /// The device address of this interface.
    pub closed spec fn device_address(&self) -> u8 {
        self.address
    }

    /// The operations issued through this interface so far.
    pub closed spec fn issued(&self) -> Seq<BusOp> {
        self.ops@
    }

    pub fn new(i2c: I2C, address: u8) -> (r: Self)
        ensures
            r.bus() == i2c,
            r.device_address() == address,
            r.issued() == Seq::<BusOp>::empty(),
    {
        Self { i2c, address, ops: Ghost(Seq::empty()) }
    }

    pub fn release(self) -> (r: I2C)
        ensures
            r == self.bus(),
    {
        self.i2c
    }
}

impl<I2C: I2cBus> RegisterAccess for I2cInterface<I2C> {
    type Error = I2C::Error;

    open spec fn log(&self) -> Seq<BusOp> {
        self.issued()
    }

    fn write_register(&mut self, register: u8, value: u8) -> (r: Result<(), Self::Error>) {
        let payload: [u8; 2] = [register, value];
        let r = self.i2c.write(self.address, &payload);
        self.ops = Ghost(self.ops@.push(BusOp::Write { register, value, ok: r is Ok }));
        r
    }

    fn write_registers(&mut self, start_register: u8, values: &[u8]) -> (r: Result<(), Self::Error>) {
        let ghost start_ops = self.ops@;
        let mut i: usize = 0;
        while i < values.len()
            invariant
                i <= values@.len(),
                start_register + values@.len() <= 256,
                self.ops@ == start_ops + writes_of(start_register, values@.take(i as int)),
                old(self).log() == start_ops,
            decreases values@.len() - i,
        {
            let register = i as u8 + start_register;
            let res = self.write_register(register, values[i]);
            proof {
                assert(writes_of(start_register, values@.take(i + 1)) =~= writes_of(
                    start_register,
                    values@.take(i as int),
                ).push(BusOp::Write { register, value: values@[i as int], ok: true }));
                assert(writes_of(start_register, values@.take(i as int)) =~= writes_of(
                    start_register,
                    values@,
                ).take(i as int));
            }
            match res {
                Ok(()) => {},
                Err(e) => {
                    assert(self.log() =~= start_ops + fails_at(writes_of(start_register, values@), i + 1));
                    return Err(e);
                },
            }
            i += 1;
        }
        assert(values@.take(i as int) =~= values@);
        Ok(())
    }

    fn read_register(&mut self, register: u8) -> (r: Result<u8, Self::Error>) {
        let mut value: [u8; 1] = [0u8; 1];
        let res = self.read_registers(register, &mut value);
        assert(value@ =~= seq![value[0]]);
        match res {
            Ok(()) => Ok(value[0]),
            Err(e) => Err(e),
        }
    }

    fn read_registers(&mut self, start_register: u8, values: &mut [u8]) -> (r: Result<(), Self::Error>) {
        let command: [u8; 1] = [start_register];
        let r = self.i2c.write_read(self.address, &command, values);
        self.ops = Ghost(self.ops@.push(BusOp::Read { start: start_register, bytes: values@, ok: r is Ok }));
        r
    }
}

impl<I: RegisterAccess> Pcf85263a<I> {
    pub(crate) fn write_register(&mut self, register: u8, value: u8) -> (r: Result<(), Error<I::Error>>)
        ensures
            final(self).bus().log() == old(self).bus().log().push(
                BusOp::Write { register, value, ok: r is Ok },
            ),
            r matches Err(e) ==> e is Interface,
    {
        match self.interface.write_register(register, value) {
            Ok(()) => Ok(()),
            Err(e) => Err(Error::Interface(e)),
        }
    }

    pub(crate) fn write_register_multiple(&mut self, start_register: u8, values: &[u8]) -> (r: Result<
        (),
        Error<I::Error>,
    >)
        requires
            start_register + values@.len() <= 256,
        ensures
            r is Ok ==> final(self).bus().log() == old(self).bus().log() + writes_of(
                start_register,
                values@,
            ),
            r is Err ==> exists|k: int|
                1 <= k <= values@.len() && final(self).bus().log() == old(self).bus().log()
                    + #[trigger] fails_at(writes_of(start_register, values@), k),
            r matches Err(e) ==> e is Interface,
    {
        match self.interface.write_registers(start_register, values) {
            Ok(()) => Ok(()),
            Err(e) => Err(Error::Interface(e)),
        }
    }

    pub(crate) fn read_register(&mut self, register: u8) -> (r: Result<u8, Error<I::Error>>)
        ensures
            r matches Ok(v) ==> final(self).bus().log() == old(self).bus().log().push(
                BusOp::Read { start: register, bytes: seq![v], ok: true },
            ),
            r is Err ==> exists|b: u8|
                final(self).bus().log() == #[trigger] old(self).bus().log().push(
                    BusOp::Read { start: register, bytes: seq![b], ok: false },
                ),
            r matches Err(e) ==> e is Interface,
    {
        let ghost log0 = self.interface.log();
        match self.interface.read_register(register) {
            Ok(v) => Ok(v),
            Err(e) => {
                proof {
                    let b = choose|b: u8|
                        self.interface.log() == #[trigger] log0.push(
                            BusOp::Read { start: register, bytes: seq![b], ok: false },
                        );
                    assert(self.bus().log() == old(self).bus().log().push(
                        BusOp::Read { start: register, bytes: seq![b], ok: false },
                    ));
                }
                Err(Error::Interface(e))
            },
        }
    }

    /// Reads four consecutive registers from `start_register`.
    pub(crate) fn read_register_multiple(&mut self, start_register: u8) -> (r: Result<
        [u8; 4],
        Error<I::Error>,
    >)
        ensures
            r matches Ok(values) ==> final(self).bus().log() == old(self).bus().log().push(
                BusOp::Read { start: start_register, bytes: values@, ok: true },
            ),
            r is Err ==> exists|b: Seq<u8>|
                b.len() == 4 && final(self).bus().log() == #[trigger] old(self).bus().log().push(
                    BusOp::Read { start: start_register, bytes: b, ok: false },
                ),
            r matches Err(e) ==> e is Interface,
    {
        let mut values: [u8; 4] = [0u8; 4];
        let res = self.interface.read_registers(start_register, &mut values);
        assert(values@.len() == 4);
        match res {
            Ok(()) => Ok(values),
            Err(e) => {
                assert(self.bus().log() == old(self).bus().log().push(
                    BusOp::Read { start: start_register, bytes: values@, ok: false },
                ));
                Err(Error::Interface(e))
            },
        }
    }

    pub fn read_oscillator_register(&mut self) -> (r: Result<OscillatorReg, Error<I::Error>>)
        ensures
            r matches Ok(o) ==> final(self).bus().log() == old(self).bus().log().push(
                BusOp::Read { start: Register::OSCILLATOR, bytes: seq![o.0], ok: true },
            ),
            r is Err ==> exists|b: u8|
                final(self).bus().log() == #[trigger] old(self).bus().log().push(
                    BusOp::Read { start: Register::OSCILLATOR, bytes: seq![b], ok: false },
                ),
            r matches Err(e) ==> e is Interface,
    {
        match self.read_register(Register::OSCILLATOR) {
            Ok(v) => Ok(OscillatorReg(v)),
            Err(e) => Err(e),
        }
    }

    pub fn read_function_register(&mut self) -> (r: Result<FunctionReg, Error<I::Error>>)
        ensures
            r matches Ok(f) ==> final(self).bus().log() == old(self).bus().log().push(
                BusOp::Read { start: Register::FUNCTION, bytes: seq![f.0], ok: true },
            ),
            r is Err ==> exists|b: u8|
                final(self).bus().log() == #[trigger] old(self).bus().log().push(
                    BusOp::Read { start: Register::FUNCTION, bytes: seq![b], ok: false },
                ),
            r matches Err(e) ==> e is Interface,
    {
        match self.read_register(Register::FUNCTION) {
            Ok(v) => Ok(FunctionReg(v)),
            Err(e) => Err(e),
        }
    }

    pub fn write_oscillator_register(&mut self, osc: OscillatorReg) -> (r: Result<(), Error<I::Error>>)
        ensures
            final(self).bus().log() == old(self).bus().log().push(
                BusOp::Write { register: Register::OSCILLATOR, value: osc.0, ok: r is Ok },
            ),
            r matches Err(e) ==> e is Interface,
    {
        self.write_register(Register::OSCILLATOR, osc.as_u8())
    }

    /// Stops the clock (`stop`) or lets it run again.
    pub fn write_stop_register(&mut self, stop: bool) -> (r: Result<(), Error<I::Error>>)
        ensures
            final(self).bus().log() == old(self).bus().log().push(
                BusOp::Write { register: Register::STOP_ENABLE, value: if stop { 1u8 } else { 0u8 }, ok: r is Ok },
            ),
            r matches Err(e) ==> e is Interface,
    {
        self.write_register(
            Register::STOP_ENABLE,
            if stop {
                1
            } else {
                0
            },
        )
    }

    /// Resets the prescaler, so that the fractions of a second start from zero.
    pub fn clear_prescaler(&mut self) -> (r: Result<(), Error<I::Error>>)
        ensures
            final(self).bus().log() == old(self).bus().log().push(
                BusOp::Write { register: Register::RESETS, value: 0xA4, ok: r is Ok },
            ),
            r matches Err(e) ==> e is Interface,
    {
        self.write_register(Register::RESETS, 0xA4)
    }

    /// Writes the offset correction step count, in two's complement.
    pub fn write_offset_register(&mut self, offset: i8) -> (r: Result<(), Error<I::Error>>)
        ensures
            final(self).bus().log() == old(self).bus().log().push(
                BusOp::Write { register: Register::OFFSET, value: ((offset as int) % 256) as u8, ok: r is Ok },
            ),
            r matches Err(e) ==> e is Interface,
    {
        let value = #[verifier::truncate] (offset as u8);
        assert(value == (offset as int) % 256) by (bit_vector)
            requires
                value == #[verifier::truncate] (offset as u8),
        ;
        self.write_register(Register::OFFSET, value)
    }

    pub fn write_function_register(&mut self, fr: FunctionReg) -> (r: Result<(), Error<I::Error>>)
        ensures
            final(self).bus().log() == old(self).bus().log().push(
                BusOp::Write { register: Register::FUNCTION, value: fr.0, ok: r is Ok },
            ),
            r matches Err(e) ==> e is Interface,
    {
        self.write_register(Register::FUNCTION, fr.as_u8())
    }

    pub fn write_pinio_register(&mut self, pinio: PinIoReg) -> (r: Result<(), Error<I::Error>>)
        ensures
            final(self).bus().log() == old(self).bus().log().push(
                BusOp::Write { register: Register::PIN_IO, value: pinio.0, ok: r is Ok },
            ),
            r matches Err(e) ==> e is Interface,
    {
        self.write_register(Register::PIN_IO, pinio.as_u8())
    }

    pub fn write_inta_register(&mut self, ie: InterruptReg) -> (r: Result<(), Error<I::Error>>)
        ensures
            final(self).bus().log() == old(self).bus().log().push(
                BusOp::Write { register: Register::INTA_ENABLE, value: ie.0, ok: r is Ok },
            ),
            r matches Err(e) ==> e is Interface,
    {
        self.write_register(Register::INTA_ENABLE, ie.as_u8())
    }

    pub fn write_intb_register(&mut self, ie: InterruptReg) -> (r: Result<(), Error<I::Error>>)
        ensures
            final(self).bus().log() == old(self).bus().log().push(
                BusOp::Write { register: Register::INTB_ENABLE, value: ie.0, ok: r is Ok },
            ),
            r matches Err(e) ==> e is Interface,
    {
        self.write_register(Register::INTB_ENABLE, ie.as_u8())
    }
}

} // verus!
