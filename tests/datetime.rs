use pcf85263a::datetime::{
    date_from_registers, decode_bcd, decode_hours, encode_bcd, encode_hours, encode_years,
    registers_for_time, time_from_registers,
};
use pcf85263a::{
    CalendarDate, CalendarDateTime, Error, Hours, OscillatorReg, Pcf85263a, RegisterAccess,
    TimeOfDay,
};

/// A register file that keeps what is written and hands it back on reads.
struct FakeChip {
    regs: [u8; 256],
    writes: usize,
}

impl FakeChip {
    fn new(oscillator: u8) -> Self {
        let mut regs = [0u8; 256];
        regs[0x25] = oscillator;
        FakeChip { regs, writes: 0 }
    }
}

impl RegisterAccess for FakeChip {
    type Error = ();

    fn write_register(&mut self, register: u8, value: u8) -> Result<(), ()> {
        self.regs[register as usize] = value;
        self.writes += 1;
        Ok(())
    }

    fn write_registers(&mut self, start_register: u8, values: &[u8]) -> Result<(), ()> {
        for (i, v) in values.iter().enumerate() {
            self.write_register(start_register + i as u8, *v)?;
        }
        Ok(())
    }

    fn read_register(&mut self, register: u8) -> Result<u8, ()> {
        Ok(self.regs[register as usize])
    }

    fn read_registers(&mut self, start_register: u8, values: &mut [u8]) -> Result<(), ()> {
        for (i, v) in values.iter_mut().enumerate() {
            *v = self.regs[start_register as usize + i];
        }
        Ok(())
    }
}

/// A bus on which every operation fails.
struct BrokenBus;

impl RegisterAccess for BrokenBus {
    type Error = u8;

    fn write_register(&mut self, _register: u8, _value: u8) -> Result<(), u8> {
        Err(7)
    }

    fn write_registers(&mut self, _start_register: u8, _values: &[u8]) -> Result<(), u8> {
        Err(7)
    }

    fn read_register(&mut self, _register: u8) -> Result<u8, u8> {
        Err(7)
    }

    fn read_registers(&mut self, _start_register: u8, _values: &mut [u8]) -> Result<(), u8> {
        Err(7)
    }
}

#[test]
fn test_decode_bcd() {
    assert_eq!(decode_bcd(0b00000010), 2);
    assert_eq!(decode_bcd(0b00110000), 30);
    assert_eq!(decode_bcd(0b10011000), 98);
}

#[test]
fn test_encode_bcd() {
    assert_eq!(encode_bcd(2), 0b00000010);
    assert_eq!(encode_bcd(30), 0b00110000);
    assert_eq!(encode_bcd(98), 0b10011000);
}

#[test]
fn test_hours_to_24h() {
    for h in 0..=23 {
        assert_eq!(Hours::H24(h).as_24h(), h);
    }

    assert_eq!(Hours::AM(12).as_24h(), 0);
    for h in 1..=11 {
        assert_eq!(Hours::AM(h).as_24h(), h);
    }

    assert_eq!(Hours::PM(12).as_24h(), 12);
    for h in 1..=11 {
        assert_eq!(Hours::PM(h).as_24h(), h + 12);
    }
}

#[test]
fn bcd_round_trip_all_values() {
    for v in 0..=99u8 {
        assert_eq!(decode_bcd(encode_bcd(v)), v);
    }
}

#[test]
fn bcd_malformed_nibbles_are_not_rejected() {
    assert_eq!(decode_bcd(0xFF), 165);
    assert_eq!(decode_bcd(0x0A), 10);
}

#[test]
fn hours_round_trip_all_values() {
    for h in 0..=23u8 {
        assert_eq!(Hours::from_24h_as_ampm(h).as_24h(), h);
    }
}

#[test]
fn hours_from_24h_vectors() {
    assert_eq!(Hours::from_24h_as_ampm(0), Hours::AM(12));
    assert_eq!(Hours::from_24h_as_ampm(1), Hours::AM(1));
    assert_eq!(Hours::from_24h_as_ampm(11), Hours::AM(11));
    assert_eq!(Hours::from_24h_as_ampm(12), Hours::PM(12));
    assert_eq!(Hours::from_24h_as_ampm(13), Hours::PM(1));
    assert_eq!(Hours::from_24h_as_ampm(23), Hours::PM(11));
}

#[test]
fn hours_byte_polarity_in_12h_mode() {
    let twelve = OscillatorReg(0x20);
    // bit 5 set means before noon
    assert_eq!(encode_hours(0, &twelve), 0x32);
    assert_eq!(encode_hours(13, &twelve), 0x01);
    assert_eq!(decode_hours(0x32, &twelve), Hours::AM(12));
    assert_eq!(decode_hours(0x01, &twelve), Hours::PM(1));
    let twenty_four = OscillatorReg(0x00);
    assert_eq!(encode_hours(13, &twenty_four), 0x13);
    assert_eq!(decode_hours(0x13, &twenty_four), Hours::H24(13));
}

#[test]
fn twelve_hour_mode_fidelity() {
    let twelve = OscillatorReg(0x20);
    for hour in [0u32, 13] {
        let t = TimeOfDay { hour, minute: 5, second: 6, millisecond: 0 };
        let regs = registers_for_time(&t, &twelve);
        assert_eq!(time_from_registers(regs, &twelve), t);
    }
}

#[test]
fn time_registers_mask_status_bits_and_cap_millis() {
    let osc = OscillatorReg(0x00);
    let t = time_from_registers([0x99, 0x80 | 0x45, 0x80 | 0x30, 0x14], &osc);
    assert_eq!(t, TimeOfDay { hour: 14, minute: 30, second: 45, millisecond: 990 });
    let t = time_from_registers([0xA0, 0x00, 0x00, 0x00], &osc);
    assert_eq!(t.millisecond, 999);
}

#[test]
fn date_registers_decode() {
    let d = date_from_registers([0x15, 0x05, 0x03, 0x24]);
    assert_eq!(d, CalendarDate { year: 2024, month: 3, day: 15 });
}

#[test]
fn years_out_of_range_are_refused() {
    assert!(matches!(encode_years::<()>(1999), Err(Error::InvalidDate)));
    assert!(matches!(encode_years::<()>(3000), Err(Error::InvalidDate)));
    assert!(matches!(encode_years::<()>(2024), Ok(0x24)));
    assert!(matches!(encode_years::<()>(2000), Ok(0x00)));
}

#[test]
fn set_and_read_back_date_and_time() {
    let mut rtc = Pcf85263a::new(FakeChip::new(0x00));
    let date = CalendarDate { year: 2024, month: 3, day: 15 };
    let time = TimeOfDay { hour: 14, minute: 30, second: 45, millisecond: 120 };
    rtc.set_date(date).unwrap();
    rtc.set_time(time).unwrap();
    assert_eq!(rtc.date().unwrap(), date);
    // the hundredths counter starts from zero when the time is set
    assert_eq!(rtc.time().unwrap(), TimeOfDay { millisecond: 0, ..time });
    let mut chip = rtc.release();
    // the chip has counted twelve hundredths of a second since
    chip.regs[0] = 0x12;
    let mut rtc = Pcf85263a::new(chip);
    assert_eq!(rtc.time().unwrap(), time);
    assert_eq!(
        rtc.datetime().unwrap(),
        CalendarDateTime { date, time }
    );
}

#[test]
fn set_time_sequence_on_the_registers() {
    let mut rtc = Pcf85263a::new(FakeChip::new(0x20));
    rtc.set_time(TimeOfDay { hour: 0, minute: 59, second: 7, millisecond: 0 }).unwrap();
    let chip = rtc.release();
    assert_eq!(&chip.regs[0..4], &[0x00, 0x07, 0x59, 0x32]);
    assert_eq!(chip.regs[0x2F], 0xA4);
    assert_eq!(chip.regs[0x2E], 0);
    // stop, reset, four time registers, run
    assert_eq!(chip.writes, 7);
}

#[test]
fn set_datetime_in_12h_mode_reads_back() {
    let mut rtc = Pcf85263a::new(FakeChip::new(0x20));
    let dt = CalendarDateTime {
        date: CalendarDate { year: 2099, month: 7, day: 31 },
        time: TimeOfDay { hour: 13, minute: 0, second: 0, millisecond: 0 },
    };
    rtc.set_datetime(&dt).unwrap();
    assert_eq!(rtc.datetime().unwrap(), dt);
}

#[test]
fn invalid_year_touches_no_register() {
    let mut rtc = Pcf85263a::new(FakeChip::new(0x00));
    let r = rtc.set_date(CalendarDate { year: 3000, month: 1, day: 1 });
    assert!(matches!(r, Err(Error::InvalidDate)));
    assert_eq!(rtc.release().writes, 0);
}

#[test]
fn bus_failure_is_reported() {
    let mut rtc = Pcf85263a::new(BrokenBus);
    assert!(matches!(rtc.time(), Err(Error::Interface(7))));
    assert!(matches!(rtc.date(), Err(Error::Interface(7))));
    let r = rtc.set_date(CalendarDate { year: 2024, month: 1, day: 1 });
    assert!(matches!(r, Err(Error::Interface(7))));
    let r = rtc.set_date(CalendarDate { year: 1999, month: 1, day: 1 });
    assert!(matches!(r, Err(Error::InvalidDate)));
}

/// A register file whose writes fail from the `fail_at`-th one on.
struct FlakyChip {
    chip: FakeChip,
    fail_at: usize,
}

impl RegisterAccess for FlakyChip {
    type Error = ();

    fn write_register(&mut self, register: u8, value: u8) -> Result<(), ()> {
        if self.chip.writes + 1 >= self.fail_at {
            self.chip.writes += 1;
            return Err(());
        }
        self.chip.write_register(register, value)
    }

    fn write_registers(&mut self, start_register: u8, values: &[u8]) -> Result<(), ()> {
        for (i, v) in values.iter().enumerate() {
            self.write_register(start_register + i as u8, *v)?;
        }
        Ok(())
    }

    fn read_register(&mut self, register: u8) -> Result<u8, ()> {
        self.chip.read_register(register)
    }

    fn read_registers(&mut self, start_register: u8, values: &mut [u8]) -> Result<(), ()> {
        self.chip.read_registers(start_register, values)
    }
}

#[test]
fn failed_prescaler_reset_leaves_clock_stopped() {
    let mut rtc = Pcf85263a::new(FlakyChip { chip: FakeChip::new(0x00), fail_at: 2 });
    let r = rtc.set_time(TimeOfDay { hour: 1, minute: 2, second: 3, millisecond: 0 });
    assert!(matches!(r, Err(Error::Interface(()))));
    let flaky = rtc.release();
    // the stop write went through, the reset failed, nothing followed
    assert_eq!(flaky.chip.writes, 2);
    assert_eq!(flaky.chip.regs[0x2E], 1);
    assert_eq!(&flaky.chip.regs[0..4], &[0, 0, 0, 0]);
}

#[test]
fn failed_month_write_stops_set_date() {
    let mut rtc = Pcf85263a::new(FlakyChip { chip: FakeChip::new(0x00), fail_at: 3 });
    let r = rtc.set_date(CalendarDate { year: 2024, month: 3, day: 15 });
    assert!(matches!(r, Err(Error::Interface(()))));
    let flaky = rtc.release();
    assert_eq!(flaky.chip.writes, 3);
    assert_eq!(flaky.chip.regs[0x04], 0x15);
    assert_eq!(flaky.chip.regs[0x07], 0);
    assert_eq!(flaky.chip.regs[0x2E], 1);
}

#[test]
fn failed_resume_write_is_reported() {
    // stop, reset and the four time registers go through; the resume fails
    let mut rtc = Pcf85263a::new(FlakyChip { chip: FakeChip::new(0x00), fail_at: 7 });
    let r = rtc.set_time(TimeOfDay { hour: 1, minute: 2, second: 3, millisecond: 0 });
    assert!(matches!(r, Err(Error::Interface(()))));
    let flaky = rtc.release();
    assert_eq!(flaky.chip.writes, 7);
    assert_eq!(flaky.chip.regs[0x2E], 1);
    assert_eq!(&flaky.chip.regs[0..4], &[0x00, 0x03, 0x02, 0x01]);
}
