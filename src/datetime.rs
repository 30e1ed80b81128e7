use vstd::prelude::*;

use crate::register_access::{fails_at, flag_of, writes_of, BusOp, OscillatorReg, Register, RegisterAccess};
use crate::{Error, Pcf85263a};

verus! {

/// Value of a packed binary-coded-decimal byte: low nibble units, high nibble tens.
/// Nibbles above 9 are not rejected and give values above 99.
pub open spec fn bcd_value(b: u8) -> int {
    (b as int % 16) + (b as int / 16) * 10
}

/// Byte that packs `v` as two decimal digits. For `v` above 99 the tens digit
/// no longer fits a nibble and the shifted value is cut to eight bits.
pub open spec fn bcd_byte(v: u8) -> int {
    ((v as int / 10) * 16 + v as int % 10) % 256
}

/// Decodes a packed BCD byte into its integer value.
pub fn decode_bcd(bcd: u8) -> (r: u8)
    ensures
        r as int == bcd_value(bcd),
        r <= 165,
{
    let unit = bcd & 0xF;
    let tens = (bcd >> 4) & 0xF;
    assert(unit == bcd % 16 && tens == bcd / 16 && tens <= 15) by (bit_vector)
        requires
            unit == bcd & 0xF,
            tens == (bcd >> 4) & 0xF,
    ;
    unit + tens * 10
}

/// Encodes an integer as a packed BCD byte; exact for 0 to 99.
pub fn encode_bcd(val: u8) -> (r: u8)
    ensures
        r as int == bcd_byte(val),
        val <= 99 ==> bcd_value(r) == val,
{
    let unit = val % 10;
    let tens = val / 10;
    let r = unit | (tens << 4);
    assert(r == ((tens as int) * 16 + unit as int) % 256) by (bit_vector)
        requires
            unit < 10,
            r == unit | (tens << 4),
    ;
    if val <= 99 {
        proof {
            lemma_bcd_round_trip(val);
        }
    }
    r
}

/// An hour as the chip's clock mode holds it: in 12-hour form (1 to 12, before
/// or after noon) or in 24-hour form (0 to 23).
#[derive(Debug, Clone, Copy, PartialEq, Eq, Structural)]
pub enum Hours {
    AM(u8),
    PM(u8),
    H24(u8),
}

impl Hours {
    /// The hour of the day, 0 to 23 for a well-formed value; midnight is AM 12,
    /// noon is PM 12.
    pub open spec fn hour_of_day(self) -> int {
        match self {
            Hours::H24(h) => h as int,
            Hours::AM(h) => if h == 12 {
                0
            } else {
                h as int
            },
            Hours::PM(h) => if h == 12 {
                12
            } else {
                h + 12
            },
        }
    }

    /// The 12-hour form of a hour of the day.
    pub open spec fn ampm_of(hour: u8) -> Hours {
        if hour == 0 {
            Hours::AM(12)
        } else if hour <= 11 {
            Hours::AM(hour)
        } else if hour == 12 {
            Hours::PM(12)
        } else {
            Hours::PM((hour - 12) as u8)
        }
    }

    pub fn as_24h(self) -> (r: u8)
        requires
            self matches Hours::PM(h) ==> h <= 243,
        ensures
            r as int == self.hour_of_day(),
    {
        match self {
            Hours::H24(hour) => hour,
            Hours::AM(am) => {
                if am == 12 {
                    0
                } else {
                    am
                }
            },
            Hours::PM(pm) => {
                if pm == 12 {
                    12
                } else {
                    pm + 12
                }
            },
        }
    }

    pub fn from_24h_as_ampm(hour: u8) -> (r: Self)
        ensures
            r == Hours::ampm_of(hour),
    {
        if hour <= 11 {
            if hour == 0 {
                Self::AM(12)
            } else {
                Self::AM(hour)
            }
        } else {
            if hour == 12 {
                Self::PM(12)
            } else {
                Self::PM(hour - 12)
            }
        }
    }
}

/// Converting a hour of the day to 12-hour form and back gives it again.
pub proof fn lemma_hours_round_trip(hour: u8)
    requires
        hour <= 23,
    ensures
        Hours::ampm_of(hour).hour_of_day() == hour,
{
}

/// A time of day: hour, minute, second and millisecond.
#[derive(Debug, Clone, Copy, PartialEq, Eq, Structural)]
pub struct TimeOfDay {
    pub hour: u32,
    pub minute: u32,
    pub second: u32,
    pub millisecond: u32,
}

impl TimeOfDay {
    /// Hour below 24, minute and second below 60, millisecond below 1000.
    pub open spec fn is_valid(self) -> bool {
        self.hour < 24 && self.minute < 60 && self.second < 60 && self.millisecond < 1000
    }
}

/// A Gregorian calendar date.
#[derive(Debug, Clone, Copy, PartialEq, Eq, Structural)]
pub struct CalendarDate {
    pub year: i32,
    pub month: u32,
    pub day: u32,
}

/// A date together with a time of day.
#[derive(Debug, Clone, Copy, PartialEq, Eq, Structural)]
pub struct CalendarDateTime {
    pub date: CalendarDate,
    pub time: TimeOfDay,
}

impl CalendarDate {
    /// Month from 1 to 12, day from 1 to 31.
    pub open spec fn is_valid(self) -> bool {
        1 <= self.month <= 12 && 1 <= self.day <= 31
    }

    /// Whether the chip can hold the year: 2000 to 2999.
    pub open spec fn year_in_range(self) -> bool {
        2000 <= self.year < 3000
    }
}

/// Hour held in the hours register byte `b`: in 12-hour mode the low five bits
/// hold the hour and bit 5 is set before noon; in 24-hour mode the low six bits
/// hold it.
pub open spec fn hours_of_byte(b: u8, twelve_hour: bool) -> Hours {
    if twelve_hour {
        let h = bcd_value(b & 0x1F) as u8;
        if b & 0x20 != 0 {
            Hours::AM(h)
        } else {
            Hours::PM(h)
        }
    } else {
        Hours::H24(bcd_value(b & 0x3F) as u8)
    }
}

/// Hours register byte for the hour of the day `hour`.
pub open spec fn byte_of_hours(hour: u8, twelve_hour: bool) -> u8 {
    if twelve_hour {
        match Hours::ampm_of(hour) {
            Hours::AM(h) => (bcd_byte(h) as u8) | 0x20u8,
            Hours::PM(h) => bcd_byte(h) as u8,
            Hours::H24(h) => bcd_byte(h) as u8,
        }
    } else {
        bcd_byte(hour) as u8
    }
}

/// Milliseconds for a count of hundredths of a second, at most 999.
pub open spec fn millis_of_hundredths(h: int) -> int {
    if h * 10 > 999 {
        999
    } else {
        h * 10
    }
}

/// Time held in the hundredths, seconds, minutes and hours registers. The top
/// bit of the seconds and minutes bytes is a status flag and is not read.
pub open spec fn time_of_registers(regs: Seq<u8>, twelve_hour: bool) -> TimeOfDay {
    TimeOfDay {
        hour: hours_of_byte(regs[3], twelve_hour).hour_of_day() as u32,
        minute: bcd_value(regs[2] & 0x7F) as u32,
        second: bcd_value(regs[1] & 0x7F) as u32,
        millisecond: millis_of_hundredths(bcd_value(regs[0])) as u32,
    }
}

/// Bytes written to the hundredths, seconds, minutes and hours registers to set
/// the time `t`: the hundredths start from zero.
pub open spec fn registers_of_time(t: TimeOfDay, twelve_hour: bool) -> Seq<u8> {
    seq![
        0u8,
        bcd_byte(t.second as u8) as u8,
        bcd_byte(t.minute as u8) as u8,
        byte_of_hours(t.hour as u8, twelve_hour),
    ]
}

/// Date held in the days, weekdays, months and years registers; the weekday is
/// not read.
pub open spec fn date_of_registers(regs: Seq<u8>) -> CalendarDate {
    CalendarDate {
        year: (bcd_value(regs[3]) + 2000) as i32,
        month: bcd_value(regs[2] & 0x07) as u32,
        day: bcd_value(regs[0] & 0x3F) as u32,
    }
}

/// Seconds held in a seconds register byte.
pub fn decode_seconds(val: u8) -> (r: u8)
    ensures
        r as int == bcd_value(val & 0x7F),
{
    decode_bcd(val & 0b01111111)
}

/// Minutes held in a minutes register byte.
pub fn decode_minutes(val: u8) -> (r: u8)
    ensures
        r as int == bcd_value(val & 0x7F),
{
    decode_bcd(val & 0b01111111)
}

/// Hundredths of a second held in the hundredths register byte.
pub fn decode_seconds_100th(val: u8) -> (r: u8)
    ensures
        r as int == bcd_value(val),
{
    decode_bcd(val)
}

/// Hour held in the hours register byte under the clock mode of `osc_reg`.
pub fn decode_hours(hours: u8, osc_reg: &OscillatorReg) -> (r: Hours)
    ensures
        r == hours_of_byte(hours, flag_of(osc_reg.0, 5)),
        r matches Hours::PM(h) ==> h <= 25,
{
    if osc_reg.is_12h_clock() {
        let h12_hour = decode_bcd(hours & 0b00011111);
        assert((hours & 0x1F) <= 0x1F && ((hours & (1u8 << 5u8) > 0) == (hours & 0x20 != 0)))
            by (bit_vector);
        if hours & (1 << 5) > 0 {
            Hours::AM(h12_hour)
        } else {
            Hours::PM(h12_hour)
        }
    } else {
        Hours::H24(decode_bcd(hours & 0b00111111))
    }
}

/// Hours register byte for the hour of the day `hours` under the clock mode of
/// `osc_reg`.
pub fn encode_hours(hours: u8, osc_reg: &OscillatorReg) -> (r: u8)
    ensures
        r == byte_of_hours(hours, flag_of(osc_reg.0, 5)),
{
    if osc_reg.is_12h_clock() {
        assert((1u8 << 5u8) == 0x20u8) by (bit_vector);
        match Hours::from_24h_as_ampm(hours) {
            Hours::AM(am) => encode_bcd(am) | (1 << 5),
            Hours::PM(pm) => encode_bcd(pm),
            Hours::H24(h) => encode_bcd(h),
        }
    } else {
        encode_bcd(hours)
    }
}

/// Years register byte for `year`; the chip holds years 2000 to 2999.
pub fn encode_years<E>(year: i32) -> (r: Result<u8, Error<E>>)
    ensures
        (year < 2000 || year >= 3000) <==> r matches Err(Error::InvalidDate),
        2000 <= year < 3000 ==> (r matches Ok(b) && b as int == bcd_byte(((year - 2000) % 256) as u8)),
{
    if year < 2000 || year >= 3000 {
        Err(Error::InvalidDate)
    } else {
        let offset: i32 = year - 2000;
        let byte = #[verifier::truncate] (offset as u8);
        assert(byte == offset % 256) by (bit_vector)
            requires
                0 <= offset < 1000,
                byte == #[verifier::truncate] (offset as u8),
        ;
        Ok(encode_bcd(byte))
    }
}

/// Day of the month held in a days register byte.
pub fn decode_days(days: u8) -> (r: u8)
    ensures
        r as int == bcd_value(days & 0x3F),
{
    decode_bcd(days & 0b00111111)
}

/// Month held in a months register byte.
pub fn decode_months(months: u8) -> (r: u8)
    ensures
        r as int == bcd_value(months & 0x07),
{
    decode_bcd(months & 0b00000111)
}

/// Year held in a years register byte.
pub fn decode_years(years: u8) -> (r: u16)
    ensures
        r as int == bcd_value(years) + 2000,
{
    decode_bcd(years) as u16 + 2000
}

/// Time held in the hundredths, seconds, minutes and hours registers, read
/// under the clock mode of `osc_reg`.
pub fn time_from_registers(regs: [u8; 4], osc_reg: &OscillatorReg) -> (r: TimeOfDay)
    ensures
        r == time_of_registers(regs@, flag_of(osc_reg.0, 5)),
{
    let hour = decode_hours(regs[3], osc_reg).as_24h() as u32;
    let minute = decode_minutes(regs[2]) as u32;
    let second = decode_seconds(regs[1]) as u32;
    let hundredths = decode_seconds_100th(regs[0]) as u32;
    let millisecond: u32 = if hundredths * 10 > 999 {
        999
    } else {
        hundredths * 10
    };
    TimeOfDay { hour, minute, second, millisecond }
}

/// Bytes that set the time `t` in the hundredths, seconds, minutes and hours
/// registers under the clock mode of `osc_reg`.
pub fn registers_for_time(t: &TimeOfDay, osc_reg: &OscillatorReg) -> (r: [u8; 4])
    requires
        t.is_valid(),
    ensures
        r@ == registers_of_time(*t, flag_of(osc_reg.0, 5)),
{
    let r = [
        0,
        encode_bcd(t.second as u8),
        encode_bcd(t.minute as u8),
        encode_hours(t.hour as u8, osc_reg),
    ];
    assert(r@ =~= registers_of_time(*t, flag_of(osc_reg.0, 5)));
    r
}

/// Date held in the days, weekdays, months and years registers.
pub fn date_from_registers(regs: [u8; 4]) -> (r: CalendarDate)
    ensures
        r == date_of_registers(regs@),
{
    CalendarDate {
        year: decode_years(regs[3]) as i32,
        month: decode_months(regs[2]) as u32,
        day: decode_days(regs[0]) as u32,
    }
}

/// Every integer from 0 to 99 survives BCD encoding and decoding.
pub proof fn lemma_bcd_round_trip(v: u8)
    requires
        v <= 99,
    ensures
        bcd_value(bcd_byte(v) as u8) == v,
        bcd_byte(v) <= 0x99,
{
    assert(bcd_byte(v) == (v / 10) * 16 + v % 10);
    assert(bcd_byte(v) % 16 == v % 10 && bcd_byte(v) / 16 == v / 10);
}

/// Writing a valid time and reading the registers back under the same clock
/// mode gives its hour, minute and second, with the hundredths started from
/// zero.
pub proof fn lemma_time_round_trip(t: TimeOfDay, twelve_hour: bool)
    requires
        t.is_valid(),
    ensures
        time_of_registers(registers_of_time(t, twelve_hour), twelve_hour)
            == (TimeOfDay { millisecond: 0, ..t }),
{
    let regs = registers_of_time(t, twelve_hour);
    let s = bcd_byte(t.second as u8) as u8;
    let m = bcd_byte(t.minute as u8) as u8;
    lemma_bcd_round_trip(t.second as u8);
    lemma_bcd_round_trip(t.minute as u8);
    assert(s <= 0x59 ==> s & 0x7F == s) by (bit_vector);
    assert(m <= 0x59 ==> m & 0x7F == m) by (bit_vector);
    let hour = t.hour as u8;
    if twelve_hour {
        match Hours::ampm_of(hour) {
            Hours::AM(h) => {
                let b = bcd_byte(h) as u8;
                lemma_bcd_round_trip(h);
                assert(b <= 0x12 ==> (b | 0x20u8) & 0x1F == b && (b | 0x20u8) & 0x20 != 0)
                    by (bit_vector);
            },
            Hours::PM(h) => {
                let b = bcd_byte(h) as u8;
                lemma_bcd_round_trip(h);
                assert(b <= 0x12 ==> b & 0x1F == b && b & 0x20 == 0) by (bit_vector);
            },
            Hours::H24(h) => {},
        }
        lemma_hours_round_trip(hour);
    } else {
        let b = bcd_byte(hour) as u8;
        lemma_bcd_round_trip(hour);
        assert(b <= 0x23 ==> b & 0x3F == b) by (bit_vector);
    }
}

/// Writing a date and reading the registers back gives it again, for the
/// years 2000 to 2099 whose offset fits two BCD digits and for the months that
/// the three-bit month field read keeps (1 to 7).
pub proof fn lemma_date_round_trip(d: CalendarDate, weekday: u8)
    requires
        d.is_valid(),
        2000 <= d.year < 2100,
        d.month <= 7,
    ensures
        date_of_registers(
            seq![
                bcd_byte(d.day as u8) as u8,
                weekday,
                bcd_byte(d.month as u8) as u8,
                bcd_byte(((d.year - 2000) % 256) as u8) as u8,
            ],
        ) == d,
{
    let day = bcd_byte(d.day as u8) as u8;
    let month = bcd_byte(d.month as u8) as u8;
    lemma_bcd_round_trip(d.day as u8);
    lemma_bcd_round_trip(d.month as u8);
    lemma_bcd_round_trip(((d.year - 2000) % 256) as u8);
    assert(day <= 0x31 ==> day & 0x3F == day) by (bit_vector);
    assert(month <= 7 ==> month & 0x07 == month) by (bit_vector);
}

/// Operations that read the time: the hundredths, seconds, minutes and hours
/// registers, then the oscillator register for the clock mode.
pub open spec fn read_time_ops(regs: Seq<u8>, osc: u8) -> Seq<BusOp> {
    seq![
        BusOp::Read { start: Register::SECONDS_100TH, bytes: regs, ok: true },
        BusOp::Read { start: Register::OSCILLATOR, bytes: seq![osc], ok: true },
    ]
}

/// Operations that set the time `t` once the oscillator register read `osc`:
/// stop the clock, reset the prescaler, write the four time registers, let the
/// clock run again.
pub open spec fn set_time_ops(t: TimeOfDay, osc: u8) -> Seq<BusOp> {
    seq![
        BusOp::Read { start: Register::OSCILLATOR, bytes: seq![osc], ok: true },
        BusOp::Write { register: Register::STOP_ENABLE, value: 1, ok: true },
        BusOp::Write { register: Register::RESETS, value: 0xA4, ok: true },
    ] + writes_of(Register::SECONDS_100TH, registers_of_time(t, flag_of(osc, 5))) + seq![
        BusOp::Write { register: Register::STOP_ENABLE, value: 0, ok: true },
    ]
}

/// Operations that set the date `d`: stop the clock, write the day, month and
/// year registers one by one, let the clock run again.
pub open spec fn set_date_ops(d: CalendarDate) -> Seq<BusOp> {
    seq![
        BusOp::Write { register: Register::STOP_ENABLE, value: 1, ok: true },
        BusOp::Write { register: Register::DAYS, value: bcd_byte(d.day as u8) as u8, ok: true },
        BusOp::Write { register: Register::MONTHS, value: bcd_byte(d.month as u8) as u8, ok: true },
        BusOp::Write { register: Register::YEARS, value: bcd_byte(((d.year - 2000) % 256) as u8) as u8, ok: true },
        BusOp::Write { register: Register::STOP_ENABLE, value: 0, ok: true },
    ]
}

/// A register file that keeps what is written after one operation: a write
/// replaces one byte, a read changes nothing.
pub open spec fn apply_op(regs: Seq<u8>, op: BusOp) -> Seq<u8> {
    match op {
        BusOp::Write { register, value, .. } => regs.update(register as int, value),
        BusOp::Read { .. } => regs,
    }
}

/// A register file that keeps what is written after the operations `ops`, in
/// order.
pub open spec fn apply_ops(regs: Seq<u8>, ops: Seq<BusOp>) -> Seq<u8>
    decreases ops.len(),
{
    if ops.len() == 0 {
        regs
    } else {
        apply_op(apply_ops(regs, ops.drop_last()), ops.last())
    }
}

proof fn lemma_apply_push(regs: Seq<u8>, ops: Seq<BusOp>, op: BusOp)
    ensures
        apply_ops(regs, ops.push(op)) == apply_op(apply_ops(regs, ops), op),
{
    assert(ops.push(op).drop_last() =~= ops);
}

/// On a register file that keeps what is written, setting a date and then a
/// time leaves registers from which the date, and the time with its
/// hundredths at zero, read back. This holds for the years 2000 to 2099 and
/// the months 1 to 7 that the three-bit month field keeps.
pub proof fn lemma_set_datetime_round_trip(regs: Seq<u8>, dt: CalendarDateTime)
    requires
        regs.len() == 256,
        dt.date.is_valid(),
        2000 <= dt.date.year < 2100,
        dt.date.month <= 7,
        dt.time.is_valid(),
    ensures
        ({
            let after = apply_ops(
                regs,
                set_date_ops(dt.date) + set_time_ops(dt.time, regs[Register::OSCILLATOR as int]),
            );
            &&& date_of_registers(after.subrange(4, 8)) == dt.date
            &&& time_of_registers(after.subrange(0, 4), flag_of(after[0x25], 5)) == (TimeOfDay {
                millisecond: 0,
                ..dt.time
            })
        }),
{
    let d = dt.date;
    let t = dt.time;
    let osc = regs[0x25];
    let tr = registers_of_time(t, flag_of(osc, 5));
    let dd = bcd_byte(d.day as u8) as u8;
    let mm = bcd_byte(d.month as u8) as u8;
    let yy = bcd_byte(((d.year - 2000) % 256) as u8) as u8;
    let s0 = Seq::<BusOp>::empty();
    let s1 = s0.push(BusOp::Write { register: 0x2E, value: 1, ok: true });
    let s2 = s1.push(BusOp::Write { register: 0x04, value: dd, ok: true });
    let s3 = s2.push(BusOp::Write { register: 0x06, value: mm, ok: true });
    let s4 = s3.push(BusOp::Write { register: 0x07, value: yy, ok: true });
    let s5 = s4.push(BusOp::Write { register: 0x2E, value: 0, ok: true });
    let s6 = s5.push(BusOp::Read { start: 0x25, bytes: seq![osc], ok: true });
    let s7 = s6.push(BusOp::Write { register: 0x2E, value: 1, ok: true });
    let s8 = s7.push(BusOp::Write { register: 0x2F, value: 0xA4, ok: true });
    let s9 = s8.push(BusOp::Write { register: 0x00, value: tr[0], ok: true });
    let s10 = s9.push(BusOp::Write { register: 0x01, value: tr[1], ok: true });
    let s11 = s10.push(BusOp::Write { register: 0x02, value: tr[2], ok: true });
    let s12 = s11.push(BusOp::Write { register: 0x03, value: tr[3], ok: true });
    let s13 = s12.push(BusOp::Write { register: 0x2E, value: 0, ok: true });
    assert(set_date_ops(d) + set_time_ops(t, osc) =~= s13);
    lemma_apply_push(regs, s0, s1.last());
    lemma_apply_push(regs, s1, s2.last());
    lemma_apply_push(regs, s2, s3.last());
    lemma_apply_push(regs, s3, s4.last());
    lemma_apply_push(regs, s4, s5.last());
    lemma_apply_push(regs, s5, s6.last());
    lemma_apply_push(regs, s6, s7.last());
    lemma_apply_push(regs, s7, s8.last());
    lemma_apply_push(regs, s8, s9.last());
    lemma_apply_push(regs, s9, s10.last());
    lemma_apply_push(regs, s10, s11.last());
    lemma_apply_push(regs, s11, s12.last());
    lemma_apply_push(regs, s12, s13.last());
    let after = apply_ops(regs, s13);
    assert(after.subrange(0, 4) =~= tr);
    assert(after.subrange(4, 8) =~= seq![dd, regs[5], mm, yy]);
    lemma_time_round_trip(t, flag_of(osc, 5));
    lemma_date_round_trip(d, regs[5]);
}

impl<I: RegisterAccess> Pcf85263a<I> {
    /// Reads the time of day. The hours byte is read under the clock mode of
    /// the oscillator register, which is read after the time registers. It
    /// succeeds exactly when both reads do; on a failure no operation follows
    /// the failing one.
    pub fn time(&mut self) -> (r: Result<TimeOfDay, Error<I::Error>>)
        ensures
            r matches Ok(t) ==> exists|regs: Seq<u8>, osc: u8|
                regs.len() == 4 && final(self).bus().log() == old(self).bus().log() + read_time_ops(regs, osc)
                    && t == #[trigger] time_of_registers(regs, flag_of(osc, 5)),
            r is Err ==> exists|regs: Seq<u8>, osc: u8, k: int|
                regs.len() == 4 && 1 <= k <= 2 && final(self).bus().log() == old(self).bus().log()
                    + #[trigger] fails_at(read_time_ops(regs, osc), k),
            r matches Err(e) ==> e is Interface,
    {
        let ghost log0 = self.bus().log();
        let regs = match self.read_register_multiple(Register::SECONDS_100TH) {
            Ok(regs) => regs,
            Err(e) => {
                proof {
                    let b = choose|b: Seq<u8>|
                        b.len() == 4 && self.bus().log() == #[trigger] log0.push(
                            BusOp::Read { start: Register::SECONDS_100TH, bytes: b, ok: false },
                        );
                    assert(self.bus().log() =~= log0 + fails_at(read_time_ops(b, 0), 1));
                }
                return Err(e);
            },
        };
        let ghost log1 = self.bus().log();
        let osc_reg = match self.read_oscillator_register() {
            Ok(o) => o,
            Err(e) => {
                proof {
                    let o = choose|o: u8|
                        self.bus().log() == #[trigger] log1.push(
                            BusOp::Read { start: Register::OSCILLATOR, bytes: seq![o], ok: false },
                        );
                    assert(self.bus().log() =~= log0 + fails_at(read_time_ops(regs@, o), 2));
                }
                return Err(e);
            },
        };
        let t = time_from_registers(regs, &osc_reg);
        assert(self.bus().log() =~= log0 + read_time_ops(regs@, osc_reg.0));
        assert(t == time_of_registers(regs@, flag_of(osc_reg.0, 5)));
        Ok(t)
    }

    /// Sets the time of day; the hundredths of a second start from zero. It
    /// succeeds exactly when every operation does; on a failure no operation
    /// follows the failing one, so a failure after the clock was stopped
    /// leaves it stopped.
    pub fn set_time(&mut self, time: TimeOfDay) -> (r: Result<(), Error<I::Error>>)
        requires
            time.is_valid(),
        ensures
            r is Ok ==> exists|osc: u8|
                final(self).bus().log() == old(self).bus().log() + #[trigger] set_time_ops(time, osc),
            r is Err ==> exists|osc: u8, k: int|
                1 <= k <= set_time_ops(time, osc).len() && final(self).bus().log() == old(
                    self,
                ).bus().log() + #[trigger] fails_at(set_time_ops(time, osc), k),
            r matches Err(e) ==> e is Interface,
    {
        let ghost log0 = self.bus().log();
        let osc_reg = match self.read_oscillator_register() {
            Ok(o) => o,
            Err(e) => {
                proof {
                    let o = choose|o: u8|
                        self.bus().log() == #[trigger] log0.push(
                            BusOp::Read { start: Register::OSCILLATOR, bytes: seq![o], ok: false },
                        );
                    assert(self.bus().log() =~= log0 + fails_at(set_time_ops(time, o), 1));
                }
                return Err(e);
            },
        };
        let ghost ops = set_time_ops(time, osc_reg.0);
        // the chip asks for the clock to be stopped and the prescaler reset
        // before the time registers are written
        match self.write_stop_register(true) {
            Ok(()) => {},
            Err(e) => {
                assert(self.bus().log() =~= log0 + fails_at(ops, 2));
                return Err(e);
            },
        }
        match self.clear_prescaler() {
            Ok(()) => {},
            Err(e) => {
                assert(self.bus().log() =~= log0 + fails_at(ops, 3));
                return Err(e);
            },
        }
        let ghost log3 = self.bus().log();
        assert(log3 =~= log0 + ops.take(3));
        let regs = registers_for_time(&time, &osc_reg);
        match self.write_register_multiple(Register::SECONDS_100TH, &regs) {
            Ok(()) => {},
            Err(e) => {
                proof {
                    let w = writes_of(Register::SECONDS_100TH, regs@);
                    let j = choose|j: int| 1 <= j <= regs@.len() && self.bus().log() == log3 + #[trigger] fails_at(w, j);
                    assert(ops[3 + j - 1] == w[j - 1]);
                    assert(self.bus().log() =~= log0 + fails_at(ops, 3 + j));
                }
                return Err(e);
            },
        }
        match self.write_stop_register(false) {
            Ok(()) => {},
            Err(e) => {
                assert(self.bus().log() =~= log0 + fails_at(ops, 8));
                return Err(e);
            },
        }
        assert(self.bus().log() =~= log0 + ops);
        Ok(())
    }

    /// Reads the date; the weekday register is read and left aside. It
    /// succeeds exactly when the read does.
    pub fn date(&mut self) -> (r: Result<CalendarDate, Error<I::Error>>)
        ensures
            r matches Ok(d) ==> exists|regs: Seq<u8>|
                regs.len() == 4 && final(self).bus().log() == old(self).bus().log().push(
                    BusOp::Read { start: Register::DAYS, bytes: regs, ok: true },
                ) && d == #[trigger] date_of_registers(regs),
            r is Err ==> exists|regs: Seq<u8>|
                regs.len() == 4 && final(self).bus().log() == #[trigger] old(self).bus().log().push(
                    BusOp::Read { start: Register::DAYS, bytes: regs, ok: false },
                ),
            r matches Err(e) ==> e is Interface,
    {
        let regs = match self.read_register_multiple(Register::DAYS) {
            Ok(regs) => regs,
            Err(e) => {
                return Err(e);
            },
        };
        let d = date_from_registers(regs);
        assert(d == date_of_registers(regs@));
        Ok(d)
    }

    /// Sets the date. A year that the chip cannot hold is refused before any
    /// register is touched. Otherwise it succeeds exactly when every operation
    /// does; on a failure of the bus no operation follows the failing one, so
    /// a failure after the clock was stopped leaves it stopped.
    pub fn set_date(&mut self, date: CalendarDate) -> (r: Result<(), Error<I::Error>>)
        requires
            date.is_valid(),
        ensures
            !date.year_in_range() <==> r matches Err(Error::InvalidDate),
            !date.year_in_range() ==> final(self).bus().log() == old(self).bus().log(),
            r is Ok ==> final(self).bus().log() == old(self).bus().log() + set_date_ops(date),
            date.year_in_range() && r is Err ==> exists|k: int|
                1 <= k <= 5 && final(self).bus().log() == old(self).bus().log()
                    + #[trigger] fails_at(set_date_ops(date), k),
            date.year_in_range() ==> (r matches Err(e) ==> e is Interface),
    {
        let ghost log0 = self.bus().log();
        let ghost ops = set_date_ops(date);
        let year = match encode_years(date.year) {
            Ok(y) => y,
            Err(e) => {
                return Err(e);
            },
        };
        match self.write_stop_register(true) {
            Ok(()) => {},
            Err(e) => {
                assert(self.bus().log() =~= log0 + fails_at(ops, 1));
                return Err(e);
            },
        }
        match self.write_register(Register::DAYS, encode_bcd(date.day as u8)) {
            Ok(()) => {},
            Err(e) => {
                assert(self.bus().log() =~= log0 + fails_at(ops, 2));
                return Err(e);
            },
        }
        match self.write_register(Register::MONTHS, encode_bcd(date.month as u8)) {
            Ok(()) => {},
            Err(e) => {
                assert(self.bus().log() =~= log0 + fails_at(ops, 3));
                return Err(e);
            },
        }
        match self.write_register(Register::YEARS, year) {
            Ok(()) => {},
            Err(e) => {
                assert(self.bus().log() =~= log0 + fails_at(ops, 4));
                return Err(e);
            },
        }
        match self.write_stop_register(false) {
            Ok(()) => {},
            Err(e) => {
                assert(self.bus().log() =~= log0 + fails_at(ops, 5));
                return Err(e);
            },
        }
        assert(self.bus().log() =~= log0 + ops);
        Ok(())
    }

    /// Reads the date, then the time. It succeeds exactly when every read
    /// does; on a failure no operation follows the failing one.
    pub fn datetime(&mut self) -> (r: Result<CalendarDateTime, Error<I::Error>>)
        ensures
            r matches Ok(dt) ==> exists|dregs: Seq<u8>, tregs: Seq<u8>, osc: u8|
                dregs.len() == 4 && tregs.len() == 4 && final(self).bus().log() == old(self).bus().log()
                    + seq![BusOp::Read { start: Register::DAYS, bytes: dregs, ok: true }]
                    + read_time_ops(tregs, osc)
                    && dt.date == #[trigger] date_of_registers(dregs)
                    && dt.time == #[trigger] time_of_registers(tregs, flag_of(osc, 5)),
            r is Err ==> exists|dregs: Seq<u8>, tregs: Seq<u8>, osc: u8, k: int|
                dregs.len() == 4 && tregs.len() == 4 && 1 <= k <= 3 && final(self).bus().log() == old(
                    self,
                ).bus().log() + #[trigger] fails_at(
                    seq![BusOp::Read { start: Register::DAYS, bytes: dregs, ok: true }]
                        + read_time_ops(tregs, osc),
                    k,
                ),
            r matches Err(e) ==> e is Interface,
    {
        let ghost log0 = self.bus().log();
        let date = match self.date() {
            Ok(d) => d,
            Err(e) => {
                proof {
                    let dregs = choose|dregs: Seq<u8>|
                        dregs.len() == 4 && self.bus().log() == #[trigger] log0.push(
                            BusOp::Read { start: Register::DAYS, bytes: dregs, ok: false },
                        );
                    assert(self.bus().log() =~= log0 + fails_at(
                        seq![BusOp::Read { start: Register::DAYS, bytes: dregs, ok: true }]
                            + read_time_ops(dregs, 0),
                        1,
                    ));
                }
                return Err(e);
            },
        };
        let ghost log1 = self.bus().log();
        let ghost dregs = choose|dregs: Seq<u8>|
            dregs.len() == 4 && log1 == log0.push(
                BusOp::Read { start: Register::DAYS, bytes: dregs, ok: true },
            ) && date == #[trigger] date_of_registers(dregs);
        let ghost first = seq![BusOp::Read { start: Register::DAYS, bytes: dregs, ok: true }];
        let time = match self.time() {
            Ok(t) => t,
            Err(e) => {
                proof {
                    let (tregs, osc, k) = choose|tregs: Seq<u8>, osc: u8, k: int|
                        tregs.len() == 4 && 1 <= k <= 2 && self.bus().log() == log1
                            + #[trigger] fails_at(read_time_ops(tregs, osc), k);
                    let all = first + read_time_ops(tregs, osc);
                    assert(all[k] == read_time_ops(tregs, osc)[k - 1]);
                    assert(self.bus().log() =~= log0 + fails_at(all, k + 1));
                }
                return Err(e);
            },
        };
        proof {
            let (tregs, osc) = choose|tregs: Seq<u8>, osc: u8|
                tregs.len() == 4 && self.bus().log() == log1 + read_time_ops(tregs, osc)
                    && time == #[trigger] time_of_registers(tregs, flag_of(osc, 5));
            assert(self.bus().log() =~= log0 + first + read_time_ops(tregs, osc));
        }
        Ok(CalendarDateTime { date, time })
    }

    /// Sets the date, then the time, as two transactions: a failure of the
    /// second leaves the first done. It succeeds exactly when every operation
    /// does; on a failure no operation follows the failing one.
    pub fn set_datetime(&mut self, datetime: &CalendarDateTime) -> (r: Result<(), Error<I::Error>>)
        requires
            datetime.date.is_valid(),
            datetime.time.is_valid(),
        ensures
            !datetime.date.year_in_range() <==> r matches Err(Error::InvalidDate),
            !datetime.date.year_in_range() ==> final(self).bus().log() == old(self).bus().log(),
            r is Ok ==> exists|osc: u8|
                final(self).bus().log() == old(self).bus().log() + set_date_ops(datetime.date)
                    + #[trigger] set_time_ops(datetime.time, osc),
            datetime.date.year_in_range() && r is Err ==> exists|osc: u8, k: int|
                1 <= k <= 5 + set_time_ops(datetime.time, osc).len() && final(self).bus().log()
                    == old(self).bus().log() + #[trigger] fails_at(
                    set_date_ops(datetime.date) + set_time_ops(datetime.time, osc),
                    k,
                ),
            datetime.date.year_in_range() ==> (r matches Err(e) ==> e is Interface),
    {
        let ghost log0 = self.bus().log();
        let ghost dops = set_date_ops(datetime.date);
        match self.set_date(datetime.date) {
            Ok(()) => {},
            Err(e) => {
                proof {
                    if datetime.date.year_in_range() {
                        let k = choose|k: int|
                            1 <= k <= 5 && self.bus().log() == log0 + #[trigger] fails_at(dops, k);
                        let all = dops + set_time_ops(datetime.time, 0);
                        assert(all[k - 1] == dops[k - 1]);
                        assert(self.bus().log() =~= log0 + fails_at(all, k));
                    }
                }
                return Err(e);
            },
        }
        let ghost log1 = self.bus().log();
        match self.set_time(datetime.time) {
            Ok(()) => {},
            Err(e) => {
                proof {
                    let (osc, k) = choose|osc: u8, k: int|
                        1 <= k <= set_time_ops(datetime.time, osc).len() && self.bus().log() == log1
                            + #[trigger] fails_at(set_time_ops(datetime.time, osc), k);
                    let all = dops + set_time_ops(datetime.time, osc);
                    assert(all[5 + k - 1] == set_time_ops(datetime.time, osc)[k - 1]);
                    assert(self.bus().log() =~= log0 + fails_at(all, 5 + k));
                }
                return Err(e);
            },
        }
        Ok(())
    }
}

} // verus!
