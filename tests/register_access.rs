use embedded_hal::i2c::{Error as _, ErrorKind, I2c};
use embedded_hal_mock::eh1::i2c::{Mock as I2cMock, Transaction as I2cTransaction};
use pcf85263a::{
    ClockOutputFrequency, CrystalDrive, FunctionReg, I2cBus, I2cInterface, IntAPinMode,
    InterruptReg, LoadCapacitance, OffsetMode, OscillatorReg, Pcf85263a, PeriodicInterrupt,
    PinIoReg, RegisterAccess, DEFAULT_ADDRESS,
};

/// The mock bus seen through the driver's bus trait.
struct MockBus(I2cMock);

impl I2cBus for MockBus {
    type Error = ErrorKind;

    fn write(&mut self, address: u8, bytes: &[u8]) -> Result<(), ErrorKind> {
        self.0.write(address, bytes).map_err(|e| e.kind())
    }

    fn write_read(&mut self, address: u8, bytes: &[u8], buffer: &mut [u8]) -> Result<(), ErrorKind> {
        self.0.write_read(address, bytes, buffer).map_err(|e| e.kind())
    }
}

#[test]
fn test_osc_reg() {
    let mut reg = OscillatorReg::default();

    reg = reg.with_inverted_clockout(true);
    assert_eq!(reg.as_u8(), 0x80);

    reg = reg.with_load_capacitance(LoadCapacitance::Cl6pF);
    assert_eq!(reg.as_u8(), 0x81);

    reg = reg.with_offset_mode(OffsetMode::Fast);
    assert_eq!(reg.as_u8(), 0xC1);

    reg = reg.with_low_jitter(true);
    assert_eq!(reg.as_u8(), 0xD1);

    reg = reg.with_crystal_drive(CrystalDrive::Low);
    assert_eq!(reg.as_u8(), 0xD5);
}

#[test]
fn test_write_register() {
    let expectations = [I2cTransaction::write(DEFAULT_ADDRESS, vec![0x12, 0x34])];

    let i2c = MockBus(I2cMock::new(&expectations));

    let mut rtc = I2cInterface::new(i2c, DEFAULT_ADDRESS);
    rtc.write_register(0x12, 0x34).unwrap();

    let mut i2c = rtc.release();

    i2c.0.done();
}

#[test]
fn test_read_register() {
    let expectations = [I2cTransaction::write_read(
        DEFAULT_ADDRESS,
        vec![0x12],
        vec![0x34],
    )];

    let i2c = MockBus(I2cMock::new(&expectations));

    let mut rtc = I2cInterface::new(i2c, DEFAULT_ADDRESS);
    let reg_val = rtc.read_register(0x12).unwrap();
    assert_eq!(reg_val, 0x34);

    let mut i2c = rtc.release();

    i2c.0.done();
}

#[test]
fn test_read_register_multiple() {
    let expectations = [I2cTransaction::write_read(
        DEFAULT_ADDRESS,
        vec![0x12],
        vec![0x34, 0x56, 0x78],
    )];

    let i2c = MockBus(I2cMock::new(&expectations));

    let mut rtc = I2cInterface::new(i2c, DEFAULT_ADDRESS);
    let mut reg_val: [u8; 3] = [0; 3];
    rtc.read_registers(0x12, &mut reg_val).unwrap();
    assert_eq!(reg_val[0], 0x34);
    assert_eq!(reg_val[1], 0x56);
    assert_eq!(reg_val[2], 0x78);

    let mut i2c = rtc.release();

    i2c.0.done();
}

#[test]
fn write_registers_writes_one_register_at_a_time() {
    let expectations = [
        I2cTransaction::write(DEFAULT_ADDRESS, vec![0x00, 0x00]),
        I2cTransaction::write(DEFAULT_ADDRESS, vec![0x01, 0x45]),
        I2cTransaction::write(DEFAULT_ADDRESS, vec![0x02, 0x30]),
    ];
    let mut rtc = I2cInterface::new(MockBus(I2cMock::new(&expectations)), DEFAULT_ADDRESS);
    rtc.write_registers(0x00, &[0x00, 0x45, 0x30]).unwrap();
    rtc.release().0.done();
}

#[test]
fn driver_reads_time_over_i2c() {
    let expectations = [
        I2cTransaction::write_read(DEFAULT_ADDRESS, vec![0x00], vec![0x12, 0x45, 0x30, 0x14]),
        I2cTransaction::write_read(DEFAULT_ADDRESS, vec![0x25], vec![0x00]),
    ];
    let mut rtc = Pcf85263a::new_with_i2c(MockBus(I2cMock::new(&expectations)));
    let t = rtc.time().unwrap();
    assert_eq!((t.hour, t.minute, t.second, t.millisecond), (14, 30, 45, 120));
    rtc.release().release().0.done();
}

#[test]
fn driver_writes_offset_and_registers_over_i2c() {
    let expectations = [
        I2cTransaction::write(DEFAULT_ADDRESS, vec![0x24, 0xFF]),
        I2cTransaction::write(DEFAULT_ADDRESS, vec![0x2F, 0xA4]),
        I2cTransaction::write(DEFAULT_ADDRESS, vec![0x2E, 0x01]),
        I2cTransaction::write(DEFAULT_ADDRESS, vec![0x25, 0x40]),
        I2cTransaction::write(DEFAULT_ADDRESS, vec![0x28, 0x87]),
        I2cTransaction::write(DEFAULT_ADDRESS, vec![0x27, 0x02]),
        I2cTransaction::write(DEFAULT_ADDRESS, vec![0x29, 0x40]),
        I2cTransaction::write(DEFAULT_ADDRESS, vec![0x2A, 0x80]),
        I2cTransaction::write_read(DEFAULT_ADDRESS, vec![0x28], vec![0x81]),
    ];
    let mut rtc = Pcf85263a::new_with_i2c(MockBus(I2cMock::new(&expectations)));
    rtc.write_offset_register(-1).unwrap();
    rtc.clear_prescaler().unwrap();
    rtc.write_stop_register(true).unwrap();
    rtc.write_oscillator_register(OscillatorReg::default().with_offset_mode(OffsetMode::Fast))
        .unwrap();
    rtc.write_function_register(
        FunctionReg::default()
            .with_100th(true)
            .with_clock_output_frequency(ClockOutputFrequency::StaticLow),
    )
    .unwrap();
    rtc.write_pinio_register(PinIoReg::default().with_inta_pinmode(IntAPinMode::IntA)).unwrap();
    rtc.write_inta_register(InterruptReg::default().with_periodic_interrupt(true)).unwrap();
    rtc.write_intb_register(InterruptReg::default().with_level(true)).unwrap();
    let f = rtc.read_function_register().unwrap();
    assert!(f.s100th_enabled());
    assert_eq!(f.clock_output_frequency(), ClockOutputFrequency::F16384);
    rtc.release().release().0.done();
}

#[test]
fn bitfield_setters_keep_other_bits() {
    let reg = OscillatorReg(0xFF).with_load_capacitance(LoadCapacitance::Cl7pF);
    assert_eq!(reg.as_u8(), 0xFC);
    assert_eq!(OscillatorReg(0xFF).with_crystal_drive(CrystalDrive::Normal).as_u8(), 0xF3);
    assert_eq!(OscillatorReg(0xFF).with_low_jitter(false).as_u8(), 0xEF);
    assert_eq!(OscillatorReg(0xFF).with_inverted_clockout(false).as_u8(), 0x7F);
    assert_eq!(OscillatorReg(0xFF).with_offset_mode(OffsetMode::Normal).as_u8(), 0xBF);
    assert!(OscillatorReg(0x20).is_12h_clock());
    assert!(!OscillatorReg(0xDF).is_12h_clock());
    assert_eq!(OscillatorReg(0x03).load_capcitance(), LoadCapacitance::Cl12_5pF2);
    assert_eq!(
        FunctionReg(0xFF).with_periodic_interrupt(PeriodicInterrupt::NoInterrupt).as_u8(),
        0x9F
    );
    assert_eq!(
        FunctionReg(0x00).with_periodic_interrupt(PeriodicInterrupt::OncePerHour).as_u8(),
        0x60
    );
    assert!(!FunctionReg(0x7F).s100th_enabled());
    assert_eq!(FunctionReg(0x80).with_100th(false).as_u8(), 0x00);
    assert_eq!(PinIoReg(0xFF).with_inta_pinmode(IntAPinMode::ClkOutputMode).as_u8(), 0xFC);
    assert_eq!(
        PinIoReg(0x00).with_inta_pinmode(IntAPinMode::BatteryModeIndication).as_u8(),
        0x01
    );
    let ie = InterruptReg::default()
        .with_offset_correction_interrupt(true)
        .with_alarm1_interrupt(true)
        .with_alarm2_interrupt(true)
        .with_timestamp_interrupt(true)
        .with_battery_switch_interrupt(true)
        .with_watchdog_interrupt(true);
    assert_eq!(ie.as_u8(), 0x3F);
    assert_eq!(ie.with_alarm1_interrupt(false).as_u8(), 0x2F);
}

#[test]
fn field_values_from_bytes() {
    assert_eq!(LoadCapacitance::from(0x06), LoadCapacitance::Cl12_5pF);
    assert_eq!(ClockOutputFrequency::from(0x0E), ClockOutputFrequency::F1);
    assert_eq!(ClockOutputFrequency::F2048.as_u8(), 0b100);
    assert_eq!(CrystalDrive::High.as_u8(), 0b10);
    assert_eq!(LoadCapacitance::Cl12_5pF.as_u8(), 0b10);
    assert_eq!(PeriodicInterrupt::OncePerMinute.as_u8(), 0b10);
    assert_eq!(IntAPinMode::HiZ.as_u8(), 0b11);
}
