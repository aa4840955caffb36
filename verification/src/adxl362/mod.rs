//! Driver for the Analog Devices ADXL362 SPI accelerometer.
//!
//! Every operation is a fixed sequence of three-byte (or, for a burst read,
//! longer) SPI frames. The contracts describe the frames the driver puts on
//! the bus through the bus's exchange log, and how the driver reads the
//! replies.
pub mod laws;
pub mod registers;

use vstd::prelude::*;
use registers::{
    ACT_INACT_CTL_ACT_EN, ACT_INACT_CTL_ACT_REF, ACT_INACT_CTL_INACT_EN, ACT_INACT_CTL_INACT_REF,
    ACT_INACT_CTL_LINKLOOP_LINKED, ACT_INACT_CTL_LINKLOOP_MASK, CMD_READ, CMD_WRITE,
    DEVID_AD_VAL, DEVID_MST_VAL, FILTER_CTL_ODR_100_HZ, FILTER_CTL_ODR_12_5_HZ,
    FILTER_CTL_ODR_200_HZ, FILTER_CTL_ODR_25_HZ, FILTER_CTL_ODR_400_HZ, FILTER_CTL_ODR_50_HZ,
    FILTER_CTL_RANGE_2G, FILTER_CTL_RANGE_4G, FILTER_CTL_RANGE_8G, INTMAP_ACT, INTMAP_AWAKE,
    INTMAP_DATA_READY, INTMAP_INACT, INTMAP_INT_LOW, PARTID_VAL, POWER_CTL_MEASURE_MASK,
    POWER_CTL_MEASURE_ON, POWER_CTL_MEASURE_STANDBY, POWER_CTL_NOISE_LOW, POWER_CTL_NOISE_MASK,
    POWER_CTL_NOISE_NORMAL, POWER_CTL_NOISE_ULTRALOW, REG_ACT_INACT_CTL, REG_DEVID_AD,
    REG_DEVID_MST, REG_FILTER_CTL, REG_INTMAP1, REG_INTMAP2, REG_PARTID, REG_POWER_CTL,
    REG_SOFT_RESET, REG_STATUS, REG_THRESH_ACT_H, REG_THRESH_ACT_L, REG_THRESH_INACT_H,
    REG_THRESH_INACT_L, REG_TIME_ACT, REG_TIME_INACT_H, REG_TIME_INACT_L, REG_XDATA_L,
    SOFT_RESET_KEY, STATUS_ACT, STATUS_AWAKE, STATUS_DATA_RDY, STATUS_INACT,
};

verus! {

/// What has happened on a bus: one entry per exchange, oldest first, holding
/// the bytes clocked out, the bytes clocked back in, and the result the bus
/// returned.
pub type BusLog<E> = Seq<(Seq<u8>, Seq<u8>, Result<(), E>)>;

/// The delays asked of a delay provider, in microseconds, oldest first.
pub type WaitLog = Seq<u32>;

/// A full-duplex SPI bus that exchanges a buffer in place (the role that
/// `embedded_hal::spi::SpiBus<u8>` plays for the driver; the firmware
/// implements it by calling that trait's `transfer_in_place`).
///
/// Implementations are not verified. What the driver relies on is that each
/// exchange is recorded in the bus's own history, [`SpiBus::exchanges`], with
/// the bytes sent, the bytes that came back (as many as were sent) and the
/// result returned. The bytes that come back are left open: the driver's
/// contracts hold for any reply. `exchanges` is a specification of the bus's
/// behaviour and is never called by running code.
pub trait SpiBus {
    type Error;

    /// Every exchange made on this bus so far.
    spec fn exchanges(&self) -> BusLog<Self::Error>;

    /// Clocks `words` out and overwrites them with the bytes clocked in.
    fn transfer_in_place(&mut self, words: &mut [u8]) -> (r: Result<(), Self::Error>)
        ensures
            final(words)@.len() == old(words)@.len(),
            final(self).exchanges() == old(self).exchanges().push((old(words)@, final(words)@, r)),
    ;
}

/// A blocking microsecond delay (the role that `embedded_hal::delay::DelayNs`
/// plays for the driver). Each delay is recorded in the provider's own
/// history, [`DelayNs::waits`], a specification that running code never calls.
pub trait DelayNs {
    /// Every delay asked of this provider so far.
    spec fn waits(&self) -> WaitLog;

    fn delay_us(&mut self, us: u32)
        ensures
            final(self).waits() == old(self).waits().push(us),
    ;
}

/// Errors returned by [`Adxl362`] operations.
#[derive(Debug)]
pub enum Error<E> {
    Spi(E),
    /// A device ID register did not match the expected ADXL362 value.
    InvalidDeviceId,
}

/// A 3-axis acceleration reading (12-bit resolution, sign-extended to `i16`).
#[derive(Debug, Clone, Copy, PartialEq, Eq, Structural)]
pub struct Acceleration {
    pub x: i16,
    pub y: i16,
    pub z: i16,
}

/// Flags decoded from the STATUS register.
#[derive(Debug, Clone, Copy, PartialEq, Eq, Structural)]
pub struct Status {
    pub data_ready: bool,
    pub awake: bool,
    pub act: bool,
    pub inact: bool,
}

/// Output data rate for the acceleration filter.
#[derive(Debug, Clone, Copy, PartialEq, Eq, Structural)]
pub enum OutputDataRate {
    Hz12_5,
    Hz25,
    Hz50,
    Hz100,
    Hz200,
    Hz400,
}

impl OutputDataRate {
    /// The ODR field value of FILTER_CTL for this rate.
    pub open spec fn code(self) -> u8 {
        match self {
            OutputDataRate::Hz12_5 => FILTER_CTL_ODR_12_5_HZ,
            OutputDataRate::Hz25 => FILTER_CTL_ODR_25_HZ,
            OutputDataRate::Hz50 => FILTER_CTL_ODR_50_HZ,
            OutputDataRate::Hz100 => FILTER_CTL_ODR_100_HZ,
            OutputDataRate::Hz200 => FILTER_CTL_ODR_200_HZ,
            OutputDataRate::Hz400 => FILTER_CTL_ODR_400_HZ,
        }
    }

    pub fn bits(self) -> (r: u8)
        ensures
            r == self.code(),
    {
        match self {
            OutputDataRate::Hz12_5 => FILTER_CTL_ODR_12_5_HZ,
            OutputDataRate::Hz25 => FILTER_CTL_ODR_25_HZ,
            OutputDataRate::Hz50 => FILTER_CTL_ODR_50_HZ,
            OutputDataRate::Hz100 => FILTER_CTL_ODR_100_HZ,
            OutputDataRate::Hz200 => FILTER_CTL_ODR_200_HZ,
            OutputDataRate::Hz400 => FILTER_CTL_ODR_400_HZ,
        }
    }
}

/// Measurement range for the acceleration filter.
#[derive(Debug, Clone, Copy, PartialEq, Eq, Structural)]
pub enum Range {
    G2,
    G4,
    G8,
}

impl Range {
    /// The RANGE field value of FILTER_CTL for this range.
    pub open spec fn code(self) -> u8 {
        match self {
            Range::G2 => FILTER_CTL_RANGE_2G,
            Range::G4 => FILTER_CTL_RANGE_4G,
            Range::G8 => FILTER_CTL_RANGE_8G,
        }
    }

    pub fn bits(self) -> (r: u8)
        ensures
            r == self.code(),
    {
        match self {
            Range::G2 => FILTER_CTL_RANGE_2G,
            Range::G4 => FILTER_CTL_RANGE_4G,
            Range::G8 => FILTER_CTL_RANGE_8G,
        }
    }
}

/// Noise/power trade-off mode.
#[derive(Debug, Clone, Copy, PartialEq, Eq, Structural)]
pub enum NoiseMode {
    Normal,
    LowNoise,
    UltraLowNoise,
}

impl NoiseMode {
    /// The LOW_NOISE field value of POWER_CTL for this mode.
    pub open spec fn code(self) -> u8 {
        match self {
            NoiseMode::Normal => POWER_CTL_NOISE_NORMAL,
            NoiseMode::LowNoise => POWER_CTL_NOISE_LOW,
            NoiseMode::UltraLowNoise => POWER_CTL_NOISE_ULTRALOW,
        }
    }

    pub fn bits(self) -> (r: u8)
        ensures
            r == self.code(),
    {
        match self {
            NoiseMode::Normal => POWER_CTL_NOISE_NORMAL,
            NoiseMode::LowNoise => POWER_CTL_NOISE_LOW,
            NoiseMode::UltraLowNoise => POWER_CTL_NOISE_ULTRALOW,
        }
    }
}

/// Configuration for the activity (motion start) detector.
#[derive(Debug, Clone, Copy, PartialEq, Eq, Structural)]
pub struct ActivityConfig {
    /// 11-bit unsigned threshold the acceleration samples are compared against.
    pub threshold: u16,
    /// Activity timer value; the resulting time in seconds is `time / ODR`.
    pub time: u8,
    /// Compare against a captured reference instead of an absolute value.
    pub referenced: bool,
}

/// Configuration for the inactivity (motion end) detector.
#[derive(Debug, Clone, Copy, PartialEq, Eq, Structural)]
pub struct InactivityConfig {
    /// 11-bit unsigned threshold the acceleration samples are compared against.
    pub threshold: u16,
    /// Inactivity timer value; the resulting time in seconds is `time / ODR`.
    pub time: u16,
    /// Compare against a captured reference instead of an absolute value.
    pub referenced: bool,
}

/// Selects which STATUS conditions are routed to an interrupt pin.
#[derive(Debug, Clone, Copy, PartialEq, Eq, Structural)]
pub struct InterruptConfig {
    /// Drive the pin active-low instead of active-high.
    pub active_low: bool,
    pub awake: bool,
    pub act: bool,
    pub inact: bool,
    pub data_ready: bool,
}

impl InterruptConfig {
    /// The INTMAP register value for this configuration: one bit per
    /// selected condition, nothing else.
    pub open spec fn code(self) -> u8 {
        ((if self.data_ready { INTMAP_DATA_READY } else { 0u8 })
            + (if self.act { INTMAP_ACT } else { 0u8 })
            + (if self.inact { INTMAP_INACT } else { 0u8 })
            + (if self.awake { INTMAP_AWAKE } else { 0u8 })
            + (if self.active_low { INTMAP_INT_LOW } else { 0u8 })) as u8
    }

    pub fn bits(self) -> (r: u8)
        ensures
            r == self.code(),
    {
        let mut bits: u8 = 0;
        if self.data_ready {
            proof { lemma_or_fresh_bit(bits, INTMAP_DATA_READY) }
            bits = bits | INTMAP_DATA_READY;
        }
        if self.act {
            proof { lemma_or_fresh_bit(bits, INTMAP_ACT) }
            bits = bits | INTMAP_ACT;
        }
        if self.inact {
            proof { lemma_or_fresh_bit(bits, INTMAP_INACT) }
            bits = bits | INTMAP_INACT;
        }
        if self.awake {
            proof { lemma_or_fresh_bit(bits, INTMAP_AWAKE) }
            bits = bits | INTMAP_AWAKE;
        }
        if self.active_low {
            proof { lemma_or_fresh_bit(bits, INTMAP_INT_LOW) }
            bits = bits | INTMAP_INT_LOW;
        }
        bits
    }
}

/// Setting a single bit above every bit of `b` adds it.
proof fn lemma_or_fresh_bit(b: u8, bit: u8)
    requires
        bit == 1 || bit == 16 || bit == 32 || bit == 64 || bit == 128,
        b < bit,
    ensures
        b | bit == b + bit,
{
    assert(b | bit == b + bit) by (bit_vector)
        requires
            bit == 1 || bit == 16 || bit == 32 || bit == 64 || bit == 128,
            b < bit,
    ;
}

/// A log that grew from `a` to `b` and then from `b` to `c` grew from `a` to
/// `c`, keeping every entry of `b`.
proof fn lemma_log_grows<E>(a: BusLog<E>, b: BusLog<E>, c: BusLog<E>)
    requires
        a.len() <= b.len() <= c.len(),
        b.subrange(0, a.len() as int) == a,
        c.subrange(0, b.len() as int) == b,
    ensures
        c.subrange(0, a.len() as int) == a,
        forall|i: int| 0 <= i < b.len() ==> #[trigger] c[i] == b[i],
{
    assert forall|i: int| 0 <= i < b.len() implies #[trigger] c[i] == b[i] by {
        assert(c.subrange(0, b.len() as int)[i] == c[i]);
    }
    assert(c.subrange(0, a.len() as int) =~= a);
}

/// The frame that reads one register.
pub open spec fn read_frame(addr: u8) -> Seq<u8> {
    seq![CMD_READ, addr, 0u8]
}

/// The frame that writes one register.
pub open spec fn write_frame(addr: u8, val: u8) -> Seq<u8> {
    seq![CMD_WRITE, addr, val]
}

/// The byte a register read returned: the third byte clocked back in.
pub open spec fn reply_byte<E>(log: BusLog<E>, i: int) -> u8 {
    log[i].1[2]
}

/// `new` is `old` followed by exchanges that sent a non-empty prefix of
/// `frames`, in order, and all of them but the last succeeded.
pub open spec fn sent_prefix<E>(old: BusLog<E>, new: BusLog<E>, frames: Seq<Seq<u8>>) -> bool {
    &&& old.len() < new.len() <= old.len() + frames.len()
    &&& new.subrange(0, old.len() as int) == old
    &&& forall|i: int| 0 <= i < new.len() - old.len() ==> #[trigger] new[old.len() + i].0 == frames[i]
    &&& forall|i: int| old.len() <= i < new.len() - 1 ==> #[trigger] new[i].2 is Ok
}

/// `count` exchanges happened after `old`, and the last one succeeded
/// (so, with [`sent_prefix`], every exchange did).
pub open spec fn sent_all<E>(old: BusLog<E>, new: BusLog<E>, count: int) -> bool {
    &&& new.len() == old.len() + count
    &&& new.last().2 is Ok
}

/// The error an operation reports for a failed exchange: the bus's own error.
pub open spec fn spi_error<T, E>(res: Result<(), E>) -> Result<T, Error<E>> {
    Err(Error::Spi(res->Err_0))
}

/// `r` failed exactly when the last exchange in `log` failed, and then with
/// the error the bus returned for it.
pub open spec fn fails_as_bus<T, E>(r: Result<T, Error<E>>, log: BusLog<E>) -> bool {
    &&& r is Ok <==> log.last().2 is Ok
    &&& log.last().2 is Err ==> r == spi_error::<T, E>(log.last().2)
}

/// FILTER_CTL for a data rate and range.
pub open spec fn filter_ctl_value(odr: OutputDataRate, range: Range) -> u8 {
    range.code() | odr.code()
}

/// POWER_CTL with its LOW_NOISE field replaced.
pub open spec fn power_ctl_with_noise(power_ctl: u8, noise: NoiseMode) -> u8 {
    (power_ctl & !POWER_CTL_NOISE_MASK) | noise.code()
}

/// The MEASURE field value that selects measurement (`true`) or standby.
pub open spec fn measure_code(active: bool) -> u8 {
    if active {
        POWER_CTL_MEASURE_ON
    } else {
        POWER_CTL_MEASURE_STANDBY
    }
}

/// POWER_CTL with its MEASURE field replaced.
pub open spec fn power_ctl_with_measure(power_ctl: u8, active: bool) -> u8 {
    (power_ctl & !POWER_CTL_MEASURE_MASK) | measure_code(active)
}

/// ACT_INACT_CTL with the activity detector enabled and its reference mode set.
pub open spec fn act_inact_with_activity(ctl: u8, referenced: bool) -> u8 {
    let base = (ctl & !ACT_INACT_CTL_ACT_REF) | ACT_INACT_CTL_ACT_EN;
    if referenced {
        base | ACT_INACT_CTL_ACT_REF
    } else {
        base
    }
}

/// ACT_INACT_CTL with the inactivity detector enabled and its reference mode set.
pub open spec fn act_inact_with_inactivity(ctl: u8, referenced: bool) -> u8 {
    let base = (ctl & !ACT_INACT_CTL_INACT_REF) | ACT_INACT_CTL_INACT_EN;
    if referenced {
        base | ACT_INACT_CTL_INACT_REF
    } else {
        base
    }
}

/// ACT_INACT_CTL with its LINKLOOP field set to linked mode.
pub open spec fn act_inact_linked(ctl: u8) -> u8 {
    (ctl & !ACT_INACT_CTL_LINKLOOP_MASK) | ACT_INACT_CTL_LINKLOOP_LINKED
}

/// The low byte of an 11-bit threshold.
pub open spec fn threshold_low(threshold: u16) -> u8 {
    (threshold % 256) as u8
}

/// The high three bits of an 11-bit threshold (bits above 10 are dropped).
pub open spec fn threshold_high(threshold: u16) -> u8 {
    ((threshold / 256) % 8) as u8
}

/// A little-endian two's-complement 16-bit value.
pub open spec fn i16_from_le(lo: u8, hi: u8) -> int {
    let u = lo + 256 * hi;
    if u >= 0x8000 {
        u - 0x10000
    } else {
        u
    }
}

/// The STATUS flags the driver reports for a STATUS register value.
pub open spec fn status_of(status: u8) -> Status {
    Status {
        data_ready: status & STATUS_DATA_RDY != 0,
        awake: status & STATUS_AWAKE != 0,
        act: status & STATUS_ACT != 0,
        inact: status & STATUS_INACT != 0,
    }
}

/// The frames of `init`, given the bytes the three ID reads return.
pub open spec fn init_frames() -> Seq<Seq<u8>> {
    seq![
        write_frame(REG_POWER_CTL, POWER_CTL_MEASURE_STANDBY),
        write_frame(REG_SOFT_RESET, SOFT_RESET_KEY),
        read_frame(REG_DEVID_AD),
        read_frame(REG_DEVID_MST),
        read_frame(REG_PARTID),
    ]
}

/// The identification value expected from the `i`-th ID read of `init`.
pub open spec fn expected_id(i: int) -> u8 {
    if i == 0 {
        DEVID_AD_VAL
    } else if i == 1 {
        DEVID_MST_VAL
    } else {
        PARTID_VAL
    }
}

/// The ID reads of `init` before exchange `k` (counted from the first frame
/// of `init`) all returned the expected values.
pub open spec fn ids_match_before<E>(old: BusLog<E>, new: BusLog<E>, k: int) -> bool {
    forall|j: int| 2 <= j < k ==> #[trigger] reply_byte(new, old.len() + j) == expected_id(j - 2)
}

/// The frames of `configure_filter`, given the POWER_CTL value read back.
pub open spec fn filter_frames(
    odr: OutputDataRate,
    range: Range,
    noise: NoiseMode,
    power_ctl: u8,
) -> Seq<Seq<u8>> {
    seq![
        write_frame(REG_FILTER_CTL, filter_ctl_value(odr, range)),
        read_frame(REG_POWER_CTL),
        write_frame(REG_POWER_CTL, power_ctl_with_noise(power_ctl, noise)),
    ]
}

/// The frames of `set_active`, given the POWER_CTL value read back.
pub open spec fn set_active_frames(active: bool, power_ctl: u8) -> Seq<Seq<u8>> {
    seq![read_frame(REG_POWER_CTL), write_frame(REG_POWER_CTL, power_ctl_with_measure(power_ctl, active))]
}

/// The frame of `read_acceleration`: a burst read of the six data bytes.
pub open spec fn acceleration_frame() -> Seq<u8> {
    seq![CMD_READ, REG_XDATA_L, 0u8, 0u8, 0u8, 0u8, 0u8, 0u8]
}

/// The acceleration decoded from the bytes a burst read returned.
pub open spec fn acceleration_of(reply: Seq<u8>) -> Acceleration {
    Acceleration {
        x: i16_from_le(reply[2], reply[3]) as i16,
        y: i16_from_le(reply[4], reply[5]) as i16,
        z: i16_from_le(reply[6], reply[7]) as i16,
    }
}

/// The frames of `configure_activity`, given the ACT_INACT_CTL value read back.
pub open spec fn activity_frames(cfg: ActivityConfig, ctl: u8) -> Seq<Seq<u8>> {
    seq![
        write_frame(REG_THRESH_ACT_L, threshold_low(cfg.threshold)),
        write_frame(REG_THRESH_ACT_H, threshold_high(cfg.threshold)),
        write_frame(REG_TIME_ACT, cfg.time),
        read_frame(REG_ACT_INACT_CTL),
        write_frame(REG_ACT_INACT_CTL, act_inact_with_activity(ctl, cfg.referenced)),
    ]
}

/// The frames of `configure_inactivity`, given the ACT_INACT_CTL value read back.
pub open spec fn inactivity_frames(cfg: InactivityConfig, ctl: u8) -> Seq<Seq<u8>> {
    seq![
        write_frame(REG_THRESH_INACT_L, threshold_low(cfg.threshold)),
        write_frame(REG_THRESH_INACT_H, threshold_high(cfg.threshold)),
        write_frame(REG_TIME_INACT_L, (cfg.time % 256) as u8),
        write_frame(REG_TIME_INACT_H, (cfg.time / 256) as u8),
        read_frame(REG_ACT_INACT_CTL),
        write_frame(REG_ACT_INACT_CTL, act_inact_with_inactivity(ctl, cfg.referenced)),
    ]
}

/// The frames of `enable_linked_mode`, given the ACT_INACT_CTL value read back.
pub open spec fn linked_mode_frames(ctl: u8) -> Seq<Seq<u8>> {
    seq![read_frame(REG_ACT_INACT_CTL), write_frame(REG_ACT_INACT_CTL, act_inact_linked(ctl))]
}

/// The longest burst any read of this driver makes (XDATA_L..ZDATA_H).
pub const MAX_BURST_LEN: usize = 6;

/// The frame of a burst read of `n` registers starting at `addr`.
pub open spec fn burst_frame(addr: u8, n: int) -> Seq<u8> {
    seq![CMD_READ, addr] + Seq::new(n as nat, |i: int| 0u8)
}

/// Decodes a little-endian two's-complement 16-bit value.
pub fn i16_from_le_bytes(lo: u8, hi: u8) -> (r: i16)
    ensures
        r == i16_from_le(lo, hi),
{
    let u: u32 = lo as u32 + 256 * (hi as u32);
    if u >= 0x8000 {
        (u as i32 - 0x10000) as i16
    } else {
        u as i16
    }
}

/// The low byte of an 11-bit threshold register pair.
pub fn threshold_low_byte(threshold: u16) -> (r: u8)
    ensures
        r == threshold_low(threshold),
{
    assert(threshold & 0xFF == threshold % 256) by (bit_vector);
    (threshold & 0xFF) as u8
}

/// The high byte of an 11-bit threshold register pair: bits 8 to 10.
pub fn threshold_high_bits(threshold: u16) -> (r: u8)
    ensures
        r == threshold_high(threshold),
{
    assert((threshold >> 8) & 0x07 == (threshold / 256) % 8) by (bit_vector);
    ((threshold >> 8) & 0x07) as u8
}

/// Splits a 16-bit register pair value into its low and high bytes.
pub fn split_u16(v: u16) -> (r: (u8, u8))
    ensures
        r.0 == v % 256,
        r.1 == v / 256,
{
    assert(v & 0xFF == v % 256) by (bit_vector);
    assert((v >> 8) & 0xFF == v / 256) by (bit_vector);
    ((v & 0xFF) as u8, ((v >> 8) & 0xFF) as u8)
}

/// Driver for the ADXL362 accelerometer, generic over any SPI bus.
pub struct Adxl362<SPI> {
    spi: SPI,
}

impl<SPI> Adxl362<SPI> {
    /// The bus the driver talks through.
    pub closed spec fn bus(&self) -> SPI {
        self.spi
    }
}

impl<SPI: SpiBus> Adxl362<SPI> {
    /// Every exchange made on the driver's bus, as the bus records it.
    pub open spec fn log(&self) -> BusLog<SPI::Error> {
        self.bus().exchanges()
    }
}

impl<SPI: SpiBus> Adxl362<SPI> {
    fn read_reg(&mut self, addr: u8) -> (r: Result<u8, Error<SPI::Error>>)
        ensures
            final(self).log().len() == old(self).log().len() + 1,
            final(self).log().subrange(0, old(self).log().len() as int) == old(self).log(),
            final(self).log().last().0 == read_frame(addr),
            final(self).log().last().1.len() == 3,
            fails_as_bus(r, final(self).log()),
            r is Ok ==> r->Ok_0 == reply_byte(final(self).log(), final(self).log().len() - 1),
    {
        let mut buf: Vec<u8> = vec![CMD_READ, addr, 0u8];
        let ghost frame = buf@;
        let res = self.spi.transfer_in_place(buf.as_mut_slice());
        assert(frame =~= read_frame(addr));
        match res {
            Ok(()) => Ok(buf[2]),
            Err(e) => Err(Error::Spi(e)),
        }
    }

    fn write_reg(&mut self, addr: u8, val: u8) -> (r: Result<(), Error<SPI::Error>>)
        ensures
            final(self).log().len() == old(self).log().len() + 1,
            final(self).log().subrange(0, old(self).log().len() as int) == old(self).log(),
            final(self).log().last().0 == write_frame(addr, val),
            fails_as_bus(r, final(self).log()),
    {
        let mut buf: Vec<u8> = vec![CMD_WRITE, addr, val];
        let ghost frame = buf@;
        let res = self.spi.transfer_in_place(buf.as_mut_slice());
        assert(frame =~= write_frame(addr, val));
        match res {
            Ok(()) => Ok(()),
            Err(e) => Err(Error::Spi(e)),
        }
    }

    pub fn configure_filter(
        &mut self,
        odr: OutputDataRate,
        range: Range,
        noise: NoiseMode,
    ) -> (r: Result<(), Error<SPI::Error>>)
        ensures
            sent_prefix(
                old(self).log(),
                final(self).log(),
                filter_frames(odr, range, noise, reply_byte(final(self).log(), old(self).log().len() as int + 1)),
            ),
            r is Ok <==> sent_all(old(self).log(), final(self).log(), 3),
            fails_as_bus(r, final(self).log()),
    {
        let ghost l0 = self.log();
        let filter_ctl = range.bits() | odr.bits();
        match self.write_reg(REG_FILTER_CTL, filter_ctl) {
            Ok(()) => {},
            Err(e) => {
                return Err(e);
            },
        }
        let ghost l1 = self.log();
        let power_ctl = match self.read_reg(REG_POWER_CTL) {
            Ok(v) => v,
            Err(e) => {
                proof { lemma_log_grows(l0, l1, self.log()); }
                return Err(e);
            },
        };
        let ghost l2 = self.log();
        let power_ctl = (power_ctl & !POWER_CTL_NOISE_MASK) | noise.bits();
        let res = self.write_reg(REG_POWER_CTL, power_ctl);
        proof {
            lemma_log_grows(l0, l1, l2);
            lemma_log_grows(l0, l2, self.log());
            assert(self.log()[l0.len() as int + 1] == l2[l0.len() as int + 1]);
        }
        res
    }

    /// Reads `out.len()` consecutive registers starting at `addr` in one burst.
    fn read_regs(&mut self, addr: u8, out: &mut [u8]) -> (r: Result<(), Error<SPI::Error>>)
        requires
            old(out)@.len() <= MAX_BURST_LEN,
        ensures
            final(self).log().len() == old(self).log().len() + 1,
            final(self).log().subrange(0, old(self).log().len() as int) == old(self).log(),
            final(self).log().last().0 == burst_frame(addr, old(out)@.len() as int),
            final(self).log().last().1.len() == old(out)@.len() + 2,
            fails_as_bus(r, final(self).log()),
            final(out)@.len() == old(out)@.len(),
            r is Err ==> final(out)@ == old(out)@,
            r is Ok ==> final(out)@ == final(self).log().last().1.subrange(2, old(out)@.len() as int + 2),
    {
        let n = out.len();
        let mut buf: Vec<u8> = Vec::new();
        buf.push(CMD_READ);
        buf.push(addr);
        let mut i: usize = 0;
        while i < n
            invariant
                i <= n,
                buf@.len() == i + 2,
                buf@[0] == CMD_READ,
                buf@[1] == addr,
                forall|j: int| 2 <= j < i + 2 ==> buf@[j] == 0u8,
            decreases n - i,
        {
            buf.push(0u8);
            i = i + 1;
        }
        let ghost frame = buf@;
        assert(frame =~= burst_frame(addr, n as int));
        let res = self.spi.transfer_in_place(buf.as_mut_slice());
        match res {
            Ok(()) => {
                let mut k: usize = 0;
                while k < n
                    invariant
                        k <= n,
                        n <= MAX_BURST_LEN,
                        n == out@.len(),
                        buf@.len() == n + 2,
                        forall|j: int| 0 <= j < k ==> out@[j] == buf@[j + 2],
                    decreases n - k,
                {
                    out[k] = buf[k + 2];
                    k = k + 1;
                }
                assert(out@ =~= buf@.subrange(2, n as int + 2));
                Ok(())
            },
            Err(e) => Err(Error::Spi(e)),
        }
    }

    /// Soft-resets the device and verifies its identification registers.
    pub fn init<D: DelayNs>(&mut self, delay: &mut D) -> (r: Result<(), Error<SPI::Error>>)
        ensures
            sent_prefix(old(self).log(), final(self).log(), init_frames()),
            ({
                let l0 = old(self).log();
                let l = final(self).log();
                let k = l.len() - l0.len();
                &&& (r matches Err(Error::Spi(_))) <==> l.last().2 is Err
                &&& l.last().2 is Err ==> r == spi_error::<(), SPI::Error>(l.last().2)
                &&& r is Ok <==> (l.last().2 is Ok && k == 5 && ids_match_before(l0, l, 5))
                &&& (r matches Err(Error::InvalidDeviceId)) <==> (l.last().2 is Ok && 3 <= k
                    && ids_match_before(l0, l, k - 1) && reply_byte(l, l.len() - 1) != expected_id(
                    k - 3,
                ))
                &&& final(delay).waits() == if k >= 3 {
                    old(delay).waits().push(500)
                } else {
                    old(delay).waits()
                }
            }),
    {
        let ghost l0 = self.log();
        let ghost fr = init_frames();
        match self.write_reg(REG_POWER_CTL, POWER_CTL_MEASURE_STANDBY) {
            Ok(()) => {},
            Err(e) => {
                return Err(e);
            },
        }
        let ghost l1 = self.log();
        match self.write_reg(REG_SOFT_RESET, SOFT_RESET_KEY) {
            Ok(()) => {},
            Err(e) => {
                proof { lemma_log_grows(l0, l1, self.log()); }
                return Err(e);
            },
        }
        let ghost l2 = self.log();
        proof { lemma_log_grows(l0, l1, l2); }
        delay.delay_us(500);
        let id0 = match self.read_reg(REG_DEVID_AD) {
            Ok(v) => v,
            Err(e) => {
                proof { lemma_log_grows(l0, l2, self.log()); }
                return Err(e);
            },
        };
        let ghost l3 = self.log();
        proof { lemma_log_grows(l0, l2, l3); }
        if id0 != DEVID_AD_VAL {
            return Err(Error::InvalidDeviceId);
        }
        let id1 = match self.read_reg(REG_DEVID_MST) {
            Ok(v) => v,
            Err(e) => {
                proof { lemma_log_grows(l0, l3, self.log()); }
                return Err(e);
            },
        };
        let ghost l4 = self.log();
        proof {
            lemma_log_grows(l0, l3, l4);
            assert(reply_byte(l4, l0.len() as int + 2) == id0);
            assert(ids_match_before(l0, l4, 3));
        }
        if id1 != DEVID_MST_VAL {
            return Err(Error::InvalidDeviceId);
        }
        let id2 = match self.read_reg(REG_PARTID) {
            Ok(v) => v,
            Err(e) => {
                proof { lemma_log_grows(l0, l4, self.log()); }
                return Err(e);
            },
        };
        let ghost l5 = self.log();
        proof {
            lemma_log_grows(l0, l4, l5);
            lemma_log_grows(l2, l3, l4);
            lemma_log_grows(l2, l4, l5);
            assert(reply_byte(l5, l0.len() as int + 2) == id0);
            assert(reply_byte(l5, l0.len() as int + 3) == id1);
            assert(ids_match_before(l0, l5, 4));
        }
        if id2 != PARTID_VAL {
            assert(reply_byte(l5, l0.len() as int + 4) != expected_id(4 - 2));
            return Err(Error::InvalidDeviceId);
        }
        Ok(())
    }

    /// Switches the device between standby and continuous measurement mode.
    pub fn set_active(&mut self, active: bool) -> (r: Result<(), Error<SPI::Error>>)
        ensures
            sent_prefix(
                old(self).log(),
                final(self).log(),
                set_active_frames(active, reply_byte(final(self).log(), old(self).log().len() as int)),
            ),
            r is Ok <==> sent_all(old(self).log(), final(self).log(), 2),
            fails_as_bus(r, final(self).log()),
    {
        let ghost l0 = self.log();
        let measure = if active {
            POWER_CTL_MEASURE_ON
        } else {
            POWER_CTL_MEASURE_STANDBY
        };
        let power_ctl = match self.read_reg(REG_POWER_CTL) {
            Ok(v) => v,
            Err(e) => {
                return Err(e);
            },
        };
        let ghost l1 = self.log();
        let power_ctl = (power_ctl & !POWER_CTL_MEASURE_MASK) | measure;
        let res = self.write_reg(REG_POWER_CTL, power_ctl);
        proof {
            lemma_log_grows(l0, l1, self.log());
        }
        res
    }

    pub fn read_acceleration(&mut self) -> (r: Result<Acceleration, Error<SPI::Error>>)
        ensures
            final(self).log().len() == old(self).log().len() + 1,
            final(self).log().subrange(0, old(self).log().len() as int) == old(self).log(),
            final(self).log().last().0 == acceleration_frame(),
            fails_as_bus(r, final(self).log()),
            r is Ok ==> r->Ok_0 == acceleration_of(final(self).log().last().1),
    {
        let mut buf: [u8; 6] = [0u8; 6];
        let ghost l0 = self.log();
        let res = self.read_regs(REG_XDATA_L, &mut buf);
        assert(burst_frame(REG_XDATA_L, 6) =~= acceleration_frame());
        match res {
            Ok(()) => {
                let ghost reply = self.log().last().1;
                assert(buf@ =~= reply.subrange(2, 8));
                assert(buf@[0] == reply[2] && buf@[1] == reply[3] && buf@[2] == reply[4]);
                assert(buf@[3] == reply[5] && buf@[4] == reply[6] && buf@[5] == reply[7]);
                Ok(
                    Acceleration {
                        x: i16_from_le_bytes(buf[0], buf[1]),
                        y: i16_from_le_bytes(buf[2], buf[3]),
                        z: i16_from_le_bytes(buf[4], buf[5]),
                    },
                )
            },
            Err(e) => Err(e),
        }
    }

    pub fn read_status(&mut self) -> (r: Result<Status, Error<SPI::Error>>)
        ensures
            final(self).log().len() == old(self).log().len() + 1,
            final(self).log().subrange(0, old(self).log().len() as int) == old(self).log(),
            final(self).log().last().0 == read_frame(REG_STATUS),
            fails_as_bus(r, final(self).log()),
            r is Ok ==> r->Ok_0 == status_of(reply_byte(final(self).log(), final(self).log().len() - 1)),
    {
        let status = match self.read_reg(REG_STATUS) {
            Ok(v) => v,
            Err(e) => {
                return Err(e);
            },
        };
        Ok(
            Status {
                data_ready: status & STATUS_DATA_RDY != 0,
                awake: status & STATUS_AWAKE != 0,
                act: status & STATUS_ACT != 0,
                inact: status & STATUS_INACT != 0,
            },
        )
    }

    pub fn configure_activity(&mut self, cfg: &ActivityConfig) -> (r: Result<(), Error<SPI::Error>>)
        ensures
            sent_prefix(
                old(self).log(),
                final(self).log(),
                activity_frames(*cfg, reply_byte(final(self).log(), old(self).log().len() as int + 3)),
            ),
            r is Ok <==> sent_all(old(self).log(), final(self).log(), 5),
            fails_as_bus(r, final(self).log()),
    {
        let ghost l0 = self.log();
        let lo = threshold_low_byte(cfg.threshold);
        match self.write_reg(REG_THRESH_ACT_L, lo) {
            Ok(()) => {},
            Err(e) => {
                return Err(e);
            },
        }
        let ghost l1 = self.log();
        let hi = threshold_high_bits(cfg.threshold);
        match self.write_reg(REG_THRESH_ACT_H, hi) {
            Ok(()) => {},
            Err(e) => {
                proof { lemma_log_grows(l0, l1, self.log()); }
                return Err(e);
            },
        }
        let ghost l2 = self.log();
        proof { lemma_log_grows(l0, l1, l2); }
        match self.write_reg(REG_TIME_ACT, cfg.time) {
            Ok(()) => {},
            Err(e) => {
                proof { lemma_log_grows(l0, l2, self.log()); }
                return Err(e);
            },
        }
        let ghost l3 = self.log();
        proof { lemma_log_grows(l0, l2, l3); }
        let act_inact_ctl = match self.read_reg(REG_ACT_INACT_CTL) {
            Ok(v) => v,
            Err(e) => {
                proof { lemma_log_grows(l0, l3, self.log()); }
                return Err(e);
            },
        };
        let ghost l4 = self.log();
        proof { lemma_log_grows(l0, l3, l4); }
        let mut act_inact_ctl = (act_inact_ctl & !ACT_INACT_CTL_ACT_REF) | ACT_INACT_CTL_ACT_EN;
        if cfg.referenced {
            act_inact_ctl = act_inact_ctl | ACT_INACT_CTL_ACT_REF;
        }
        let res = self.write_reg(REG_ACT_INACT_CTL, act_inact_ctl);
        proof {
            lemma_log_grows(l0, l4, self.log());
        }
        res
    }

    pub fn configure_inactivity(&mut self, cfg: &InactivityConfig) -> (r: Result<(), Error<SPI::Error>>)
        ensures
            sent_prefix(
                old(self).log(),
                final(self).log(),
                inactivity_frames(*cfg, reply_byte(final(self).log(), old(self).log().len() as int + 4)),
            ),
            r is Ok <==> sent_all(old(self).log(), final(self).log(), 6),
            fails_as_bus(r, final(self).log()),
    {
        let ghost l0 = self.log();
        let lo = threshold_low_byte(cfg.threshold);
        match self.write_reg(REG_THRESH_INACT_L, lo) {
            Ok(()) => {},
            Err(e) => {
                return Err(e);
            },
        }
        let ghost l1 = self.log();
        let hi = threshold_high_bits(cfg.threshold);
        match self.write_reg(REG_THRESH_INACT_H, hi) {
            Ok(()) => {},
            Err(e) => {
                proof { lemma_log_grows(l0, l1, self.log()); }
                return Err(e);
            },
        }
        let ghost l2 = self.log();
        proof { lemma_log_grows(l0, l1, l2); }
        let (time_lo, time_hi) = split_u16(cfg.time);
        match self.write_reg(REG_TIME_INACT_L, time_lo) {
            Ok(()) => {},
            Err(e) => {
                proof { lemma_log_grows(l0, l2, self.log()); }
                return Err(e);
            },
        }
        let ghost l3 = self.log();
        proof { lemma_log_grows(l0, l2, l3); }
        match self.write_reg(REG_TIME_INACT_H, time_hi) {
            Ok(()) => {},
            Err(e) => {
                proof { lemma_log_grows(l0, l3, self.log()); }
                return Err(e);
            },
        }
        let ghost l4 = self.log();
        proof { lemma_log_grows(l0, l3, l4); }
        let act_inact_ctl = match self.read_reg(REG_ACT_INACT_CTL) {
            Ok(v) => v,
            Err(e) => {
                proof { lemma_log_grows(l0, l4, self.log()); }
                return Err(e);
            },
        };
        let ghost l5 = self.log();
        proof { lemma_log_grows(l0, l4, l5); }
        let mut act_inact_ctl = (act_inact_ctl & !ACT_INACT_CTL_INACT_REF) | ACT_INACT_CTL_INACT_EN;
        if cfg.referenced {
            act_inact_ctl = act_inact_ctl | ACT_INACT_CTL_INACT_REF;
        }
        let res = self.write_reg(REG_ACT_INACT_CTL, act_inact_ctl);
        proof {
            lemma_log_grows(l0, l5, self.log());
        }
        res
    }

    /// Enables linked mode: an activity event arms inactivity detection once,
    /// and the device returns to standby after the following inactivity event.
    /// Requires [`Self::configure_activity`] and [`Self::configure_inactivity`]
    /// to have been called first to enable the respective detectors.
    pub fn enable_linked_mode(&mut self) -> (r: Result<(), Error<SPI::Error>>)
        ensures
            sent_prefix(
                old(self).log(),
                final(self).log(),
                linked_mode_frames(reply_byte(final(self).log(), old(self).log().len() as int)),
            ),
            r is Ok <==> sent_all(old(self).log(), final(self).log(), 2),
            fails_as_bus(r, final(self).log()),
    {
        let ghost l0 = self.log();
        let act_inact_ctl = match self.read_reg(REG_ACT_INACT_CTL) {
            Ok(v) => v,
            Err(e) => {
                return Err(e);
            },
        };
        let ghost l1 = self.log();
        let act_inact_ctl = (act_inact_ctl & !ACT_INACT_CTL_LINKLOOP_MASK)
            | ACT_INACT_CTL_LINKLOOP_LINKED;
        let res = self.write_reg(REG_ACT_INACT_CTL, act_inact_ctl);
        proof {
            lemma_log_grows(l0, l1, self.log());
        }
        res
    }

    pub fn configure_interrupt1(&mut self, cfg: &InterruptConfig) -> (r: Result<(), Error<SPI::Error>>)
        ensures
            sent_prefix(old(self).log(), final(self).log(), seq![write_frame(REG_INTMAP1, cfg.code())]),
            r is Ok <==> sent_all(old(self).log(), final(self).log(), 1),
            fails_as_bus(r, final(self).log()),
    {
        let res = self.write_reg(REG_INTMAP1, cfg.bits());
        res
    }

    pub fn configure_interrupt2(&mut self, cfg: &InterruptConfig) -> (r: Result<(), Error<SPI::Error>>)
        ensures
            sent_prefix(old(self).log(), final(self).log(), seq![write_frame(REG_INTMAP2, cfg.code())]),
            r is Ok <==> sent_all(old(self).log(), final(self).log(), 1),
            fails_as_bus(r, final(self).log()),
    {
        let res = self.write_reg(REG_INTMAP2, cfg.bits());
        res
    }

    pub fn new(spi: SPI) -> (r: Self)
        ensures
            r.bus() == spi,
            r.log() == spi.exchanges(),
    {
        Self { spi }
    }
}

} // verus!
