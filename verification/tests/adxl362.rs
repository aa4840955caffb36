use cubeled::adxl362::registers::{
    CMD_READ, CMD_WRITE, REG_ACT_INACT_CTL, REG_DEVID_AD, REG_DEVID_MST, REG_FILTER_CTL,
    REG_INTMAP2, REG_PARTID, REG_POWER_CTL, REG_STATUS, REG_THRESH_ACT_H, REG_THRESH_ACT_L,
    REG_THRESH_INACT_H, REG_THRESH_INACT_L, REG_TIME_ACT, REG_TIME_INACT_H, REG_TIME_INACT_L,
    REG_XDATA_L,
};
use cubeled::adxl362::{
    i16_from_le_bytes, split_u16, threshold_high_bits, threshold_low_byte, Acceleration,
    ActivityConfig, Adxl362, BusLog, DelayNs, Error, InactivityConfig, InterruptConfig, NoiseMode,
    OutputDataRate, Range, SpiBus, Status, WaitLog,
};

/// A register file that answers SPI frames the way the ADXL362 does, and
/// records every frame it sees.
struct FakeDevice {
    regs: [u8; 64],
    frames: Vec<Vec<u8>>,
    fail_at: Option<usize>,
}

impl FakeDevice {
    fn new() -> Self {
        let mut regs = [0u8; 64];
        regs[0x00] = 0xAD;
        regs[0x01] = 0x1D;
        regs[0x02] = 0xF2;
        FakeDevice { regs, frames: Vec::new(), fail_at: None }
    }
}

impl SpiBus for &mut FakeDevice {
    type Error = &'static str;

    // The bus history is a specification only; running code never asks for it.
    fn exchanges(&self) -> BusLog<Self::Error> {
        unreachable!()
    }

    fn transfer_in_place(&mut self, words: &mut [u8]) -> Result<(), Self::Error> {
        self.frames.push(words.to_vec());
        if self.fail_at == Some(self.frames.len() - 1) {
            return Err("bus fault");
        }
        let addr = words[1] as usize;
        if words[0] == CMD_WRITE {
            for i in 2..words.len() {
                self.regs[addr + i - 2] = words[i];
            }
        } else if words[0] == CMD_READ {
            for i in 2..words.len() {
                words[i] = self.regs[addr + i - 2];
            }
        }
        Ok(())
    }
}

struct FakeDelay {
    waits: Vec<u32>,
}

impl DelayNs for FakeDelay {
    // The delay history is a specification only; running code never asks for it.
    fn waits(&self) -> WaitLog {
        unreachable!()
    }

    fn delay_us(&mut self, us: u32) {
        self.waits.push(us);
    }
}

#[test]
fn init_resets_and_checks_ids() {
    let mut dev = FakeDevice::new();
    let mut delay = FakeDelay { waits: Vec::new() };
    {
        let mut accel = Adxl362::new(&mut dev);
        assert!(accel.init(&mut delay).is_ok());
    }
    assert_eq!(
        dev.frames,
        vec![
            vec![CMD_WRITE, REG_POWER_CTL, 0x00],
            vec![CMD_WRITE, 0x1F, 0x52],
            vec![CMD_READ, REG_DEVID_AD, 0],
            vec![CMD_READ, REG_DEVID_MST, 0],
            vec![CMD_READ, REG_PARTID, 0],
        ]
    );
    assert_eq!(delay.waits, vec![500]);
}

#[test]
fn init_stops_at_the_first_wrong_id() {
    let mut dev = FakeDevice::new();
    dev.regs[0x01] = 0x00;
    let mut delay = FakeDelay { waits: Vec::new() };
    {
        let mut accel = Adxl362::new(&mut dev);
        assert!(matches!(accel.init(&mut delay), Err(Error::InvalidDeviceId)));
    }
    assert_eq!(dev.frames.len(), 4);
}

#[test]
fn init_reports_bus_errors() {
    let mut dev = FakeDevice::new();
    dev.fail_at = Some(1);
    let mut delay = FakeDelay { waits: Vec::new() };
    {
        let mut accel = Adxl362::new(&mut dev);
        assert!(matches!(accel.init(&mut delay), Err(Error::Spi("bus fault"))));
    }
    assert_eq!(dev.frames.len(), 2);
    assert!(delay.waits.is_empty());
}

#[test]
fn configure_filter_writes_rate_and_range_and_keeps_power_bits() {
    let mut dev = FakeDevice::new();
    dev.regs[REG_POWER_CTL as usize] = 0b0110_0110;
    {
        let mut accel = Adxl362::new(&mut dev);
        assert!(accel.configure_filter(OutputDataRate::Hz100, Range::G8, NoiseMode::LowNoise).is_ok());
    }
    assert_eq!(dev.regs[REG_FILTER_CTL as usize], 0x83);
    assert_eq!(dev.regs[REG_POWER_CTL as usize], 0b0101_0110);
    assert_eq!(dev.frames[0], vec![CMD_WRITE, REG_FILTER_CTL, 0x83]);
    assert_eq!(dev.frames[1], vec![CMD_READ, REG_POWER_CTL, 0]);
}

#[test]
fn set_active_switches_only_the_measure_field() {
    let mut dev = FakeDevice::new();
    dev.regs[REG_POWER_CTL as usize] = 0b0010_0101;
    {
        let mut accel = Adxl362::new(&mut dev);
        assert!(accel.set_active(true).is_ok());
    }
    assert_eq!(dev.regs[REG_POWER_CTL as usize], 0b0010_0110);
    {
        let mut accel = Adxl362::new(&mut dev);
        assert!(accel.set_active(false).is_ok());
    }
    assert_eq!(dev.regs[REG_POWER_CTL as usize], 0b0010_0100);
}

#[test]
fn read_acceleration_decodes_little_endian_samples() {
    let mut dev = FakeDevice::new();
    let base = REG_XDATA_L as usize;
    dev.regs[base..base + 6].copy_from_slice(&[0x10, 0x00, 0xF0, 0xFF, 0x00, 0x80]);
    let acc = {
        let mut accel = Adxl362::new(&mut dev);
        match accel.read_acceleration() {
            Ok(a) => a,
            Err(_) => panic!("the fake bus does not fail"),
        }
    };
    assert_eq!(acc, Acceleration { x: 16, y: -16, z: -32768 });
    assert_eq!(dev.frames[0], vec![CMD_READ, REG_XDATA_L, 0, 0, 0, 0, 0, 0]);
}

#[test]
fn read_status_decodes_flags() {
    let mut dev = FakeDevice::new();
    dev.regs[REG_STATUS as usize] = 0b0101_0001;
    let status = {
        let mut accel = Adxl362::new(&mut dev);
        match accel.read_status() {
            Ok(s) => s,
            Err(_) => panic!("the fake bus does not fail"),
        }
    };
    assert_eq!(status, Status { data_ready: true, awake: true, act: true, inact: false });
}

#[test]
fn linked_setup_leaves_both_detectors_enabled() {
    let mut dev = FakeDevice::new();
    dev.regs[REG_ACT_INACT_CTL as usize] = 0b1100_0000;
    {
        let mut accel = Adxl362::new(&mut dev);
        assert!(accel
            .configure_activity(&ActivityConfig { threshold: 200, time: 3, referenced: true })
            .is_ok());
        assert!(accel
            .configure_inactivity(&InactivityConfig { threshold: 50, time: 300, referenced: true })
            .is_ok());
        assert!(accel.enable_linked_mode().is_ok());
    }
    assert_eq!(dev.regs[REG_THRESH_ACT_L as usize], 200);
    assert_eq!(dev.regs[REG_THRESH_ACT_H as usize], 0);
    assert_eq!(dev.regs[REG_TIME_ACT as usize], 3);
    assert_eq!(dev.regs[REG_THRESH_INACT_L as usize], 50);
    assert_eq!(dev.regs[REG_THRESH_INACT_H as usize], 0);
    assert_eq!(dev.regs[REG_TIME_INACT_L as usize], 0x2C);
    assert_eq!(dev.regs[REG_TIME_INACT_H as usize], 0x01);
    assert_eq!(dev.regs[REG_ACT_INACT_CTL as usize], 0b1101_1111);
}

#[test]
fn configure_activity_unreferenced_clears_the_reference_bit() {
    let mut dev = FakeDevice::new();
    dev.regs[REG_ACT_INACT_CTL as usize] = 0b0000_0010;
    {
        let mut accel = Adxl362::new(&mut dev);
        assert!(accel
            .configure_activity(&ActivityConfig { threshold: 0x7FF, time: 1, referenced: false })
            .is_ok());
    }
    assert_eq!(dev.regs[REG_ACT_INACT_CTL as usize], 0b0000_0001);
    assert_eq!(dev.regs[REG_THRESH_ACT_L as usize], 0xFF);
    assert_eq!(dev.regs[REG_THRESH_ACT_H as usize], 0x07);
}

#[test]
fn configure_interrupt2_maps_selected_conditions() {
    let mut dev = FakeDevice::new();
    {
        let mut accel = Adxl362::new(&mut dev);
        let cfg = InterruptConfig { active_low: false, awake: false, act: true, inact: true, data_ready: false };
        assert!(accel.configure_interrupt2(&cfg).is_ok());
    }
    assert_eq!(dev.frames, vec![vec![CMD_WRITE, REG_INTMAP2, 0x30]]);
}

#[test]
fn interrupt_config_bits_cover_every_flag() {
    let all = InterruptConfig { active_low: true, awake: true, act: true, inact: true, data_ready: true };
    assert_eq!(all.bits(), 0xF1);
    let none = InterruptConfig { active_low: false, awake: false, act: false, inact: false, data_ready: false };
    assert_eq!(none.bits(), 0);
}

#[test]
fn a_bus_error_stops_the_sequence() {
    let mut dev = FakeDevice::new();
    dev.fail_at = Some(1);
    {
        let mut accel = Adxl362::new(&mut dev);
        assert!(matches!(
            accel.configure_filter(OutputDataRate::Hz12_5, Range::G2, NoiseMode::Normal),
            Err(Error::Spi(_))
        ));
    }
    assert_eq!(dev.frames.len(), 2);
}

#[test]
fn field_codes_match_the_datasheet() {
    assert_eq!(OutputDataRate::Hz400.bits(), 5);
    assert_eq!(Range::G4.bits(), 0x40);
    assert_eq!(NoiseMode::UltraLowNoise.bits(), 0x20);
}

#[test]
fn byte_helpers_split_and_join() {
    assert_eq!(i16_from_le_bytes(0xFF, 0x7F), 32767);
    assert_eq!(i16_from_le_bytes(0xFF, 0xFF), -1);
    assert_eq!(threshold_low_byte(0x1234), 0x34);
    assert_eq!(threshold_high_bits(0x1234), 0x02);
    assert_eq!(split_u16(0xBEEF), (0xEF, 0xBE));
}
