//! What the driver's register traffic means in the ADXL362's terms: the
//! register map, the bitfields it reads and writes, and what each update keeps.
use vstd::prelude::*;
use super::registers::{
    ACT_INACT_CTL_ACT_EN, ACT_INACT_CTL_ACT_REF, ACT_INACT_CTL_INACT_EN, ACT_INACT_CTL_INACT_REF,
    ACT_INACT_CTL_LINKLOOP_LINKED, ACT_INACT_CTL_LINKLOOP_MASK, INTMAP_ACT, INTMAP_AWAKE,
    INTMAP_DATA_READY, INTMAP_INACT, INTMAP_INT_LOW, POWER_CTL_MEASURE_MASK,
    POWER_CTL_NOISE_MASK,
};
use super::{
    act_inact_linked, act_inact_with_activity, act_inact_with_inactivity, filter_ctl_value,
    i16_from_le, measure_code, power_ctl_with_measure, power_ctl_with_noise, threshold_high,
    status_of, threshold_low, InterruptConfig, NoiseMode, OutputDataRate, Range, acceleration_frame,
    activity_frames, expected_id, filter_frames, inactivity_frames, init_frames, linked_mode_frames,
    read_frame, set_active_frames, write_frame, ActivityConfig, InactivityConfig, acceleration_of,
};
use super::registers::{REG_INTMAP1, REG_INTMAP2, REG_STATUS};

verus! {

/// Changing the noise mode sets the LOW_NOISE field of POWER_CTL to the mode's
/// code and leaves every other bit of the register as it was read.
pub proof fn law_noise_update_keeps_other_bits(power_ctl: u8, noise: NoiseMode)
    ensures
        power_ctl_with_noise(power_ctl, noise) & POWER_CTL_NOISE_MASK == noise.code(),
        power_ctl_with_noise(power_ctl, noise) & !POWER_CTL_NOISE_MASK == power_ctl
            & !POWER_CTL_NOISE_MASK,
        power_ctl_with_noise(power_ctl, noise) & 0x30u8 == match noise {
            NoiseMode::Normal => 0x00u8,
            NoiseMode::LowNoise => 0x10u8,
            NoiseMode::UltraLowNoise => 0x20u8,
        },
        power_ctl_with_noise(power_ctl, noise) & 0xCFu8 == power_ctl & 0xCFu8,
{
    let c = noise.code();
    assert(c == 0 || c == 0x10 || c == 0x20);
    assert(((power_ctl & !0x30u8) | c) & 0x30u8 == c && ((power_ctl & !0x30u8) | c) & !0x30u8
        == power_ctl & !0x30u8) by (bit_vector)
        requires
            c == 0 || c == 0x10 || c == 0x20,
    ;
    assert(((power_ctl & !0x30u8) | c) & 0xCFu8 == power_ctl & 0xCFu8) by (bit_vector)
        requires
            c == 0 || c == 0x10 || c == 0x20,
    ;
}

/// Switching between standby and measurement sets the MEASURE field of
/// POWER_CTL and leaves every other bit (noise mode, autosleep, ...) as it was.
pub proof fn law_measure_update_keeps_other_bits(power_ctl: u8, active: bool)
    ensures
        power_ctl_with_measure(power_ctl, active) & POWER_CTL_MEASURE_MASK == measure_code(active),
        power_ctl_with_measure(power_ctl, active) & !POWER_CTL_MEASURE_MASK == power_ctl
            & !POWER_CTL_MEASURE_MASK,
        power_ctl_with_measure(power_ctl, active) & 0x03u8 == if active {
            0x02u8
        } else {
            0x00u8
        },
        power_ctl_with_measure(power_ctl, active) & 0xFCu8 == power_ctl & 0xFCu8,
{
    let c = measure_code(active);
    assert(c == 0 || c == 0x02);
    assert(((power_ctl & !0x03u8) | c) & 0x03u8 == c && ((power_ctl & !0x03u8) | c) & !0x03u8
        == power_ctl & !0x03u8) by (bit_vector)
        requires
            c == 0 || c == 0x02,
    ;
    assert(((power_ctl & !0x03u8) | c) & 0xFCu8 == power_ctl & 0xFCu8) by (bit_vector)
        requires
            c == 0 || c == 0x02,
    ;
}

/// Configuring the activity detector enables it, sets its reference mode, and
/// leaves every other bit of ACT_INACT_CTL as it was read.
pub proof fn law_activity_update(ctl: u8, referenced: bool)
    ensures
        act_inact_with_activity(ctl, referenced) & ACT_INACT_CTL_ACT_EN != 0,
        (act_inact_with_activity(ctl, referenced) & ACT_INACT_CTL_ACT_REF != 0) == referenced,
        act_inact_with_activity(ctl, referenced) & !0x03u8 == ctl & !0x03u8,
        act_inact_with_activity(ctl, referenced) & 0x01u8 != 0,
        (act_inact_with_activity(ctl, referenced) & 0x02u8 != 0) == referenced,
{
    let r = act_inact_with_activity(ctl, referenced);
    if referenced {
        assert(r == ((ctl & !0x02u8) | 0x01u8) | 0x02u8);
        assert((((ctl & !0x02u8) | 0x01u8) | 0x02u8) & 0x01u8 != 0 && (((ctl & !0x02u8) | 0x01u8)
            | 0x02u8) & 0x02u8 != 0 && (((ctl & !0x02u8) | 0x01u8) | 0x02u8) & !0x03u8 == ctl
            & !0x03u8) by (bit_vector);
    } else {
        assert(r == (ctl & !0x02u8) | 0x01u8);
        assert(((ctl & !0x02u8) | 0x01u8) & 0x01u8 != 0 && ((ctl & !0x02u8) | 0x01u8) & 0x02u8 == 0
            && ((ctl & !0x02u8) | 0x01u8) & !0x03u8 == ctl & !0x03u8) by (bit_vector);
    }
}

/// Configuring the inactivity detector enables it, sets its reference mode,
/// and leaves every other bit of ACT_INACT_CTL as it was read.
pub proof fn law_inactivity_update(ctl: u8, referenced: bool)
    ensures
        act_inact_with_inactivity(ctl, referenced) & ACT_INACT_CTL_INACT_EN != 0,
        (act_inact_with_inactivity(ctl, referenced) & ACT_INACT_CTL_INACT_REF != 0) == referenced,
        act_inact_with_inactivity(ctl, referenced) & !0x0Cu8 == ctl & !0x0Cu8,
        act_inact_with_inactivity(ctl, referenced) & 0x04u8 != 0,
        (act_inact_with_inactivity(ctl, referenced) & 0x08u8 != 0) == referenced,
{
    let r = act_inact_with_inactivity(ctl, referenced);
    if referenced {
        assert(r == ((ctl & !0x08u8) | 0x04u8) | 0x08u8);
        assert((((ctl & !0x08u8) | 0x04u8) | 0x08u8) & 0x04u8 != 0 && (((ctl & !0x08u8) | 0x04u8)
            | 0x08u8) & 0x08u8 != 0 && (((ctl & !0x08u8) | 0x04u8) | 0x08u8) & !0x0Cu8 == ctl
            & !0x0Cu8) by (bit_vector);
    } else {
        assert(r == (ctl & !0x08u8) | 0x04u8);
        assert(((ctl & !0x08u8) | 0x04u8) & 0x04u8 != 0 && ((ctl & !0x08u8) | 0x04u8) & 0x08u8 == 0
            && ((ctl & !0x08u8) | 0x04u8) & !0x0Cu8 == ctl & !0x0Cu8) by (bit_vector);
    }
}

/// Enabling linked mode sets the LINKLOOP field to "linked" and leaves every
/// other bit of ACT_INACT_CTL (detector enables and reference modes) as it was.
pub proof fn law_linked_mode_update(ctl: u8)
    ensures
        act_inact_linked(ctl) & ACT_INACT_CTL_LINKLOOP_MASK == ACT_INACT_CTL_LINKLOOP_LINKED,
        act_inact_linked(ctl) & !ACT_INACT_CTL_LINKLOOP_MASK == ctl & !ACT_INACT_CTL_LINKLOOP_MASK,
        act_inact_linked(ctl) & 0x30u8 == 0x10u8,
        act_inact_linked(ctl) & 0xCFu8 == ctl & 0xCFu8,
{
    assert(((ctl & !0x30u8) | 0x10u8) & 0x30u8 == 0x10u8 && ((ctl & !0x30u8) | 0x10u8) & !0x30u8
        == ctl & !0x30u8) by (bit_vector);
    assert(((ctl & !0x30u8) | 0x10u8) & 0xCFu8 == ctl & 0xCFu8) by (bit_vector);
}

/// The set-up sequence the driver documents (activity, then inactivity, then
/// linked mode), applied to whatever ACT_INACT_CTL held, leaves both detectors
/// enabled with the requested reference modes, in linked mode.
pub proof fn law_linked_setup(ctl: u8, act_referenced: bool, inact_referenced: bool)
    ensures
        ({
            let r = act_inact_linked(
                act_inact_with_inactivity(act_inact_with_activity(ctl, act_referenced), inact_referenced),
            );
            &&& r & ACT_INACT_CTL_ACT_EN != 0
            &&& r & ACT_INACT_CTL_INACT_EN != 0
            &&& (r & ACT_INACT_CTL_ACT_REF != 0) == act_referenced
            &&& (r & ACT_INACT_CTL_INACT_REF != 0) == inact_referenced
            &&& r & ACT_INACT_CTL_LINKLOOP_MASK == ACT_INACT_CTL_LINKLOOP_LINKED
            &&& r & 0xC0u8 == ctl & 0xC0u8
        }),
{
    let a = act_inact_with_activity(ctl, act_referenced);
    let b = act_inact_with_inactivity(a, inact_referenced);
    let r = act_inact_linked(b);
    law_activity_update(ctl, act_referenced);
    law_inactivity_update(a, inact_referenced);
    law_linked_mode_update(b);
    let ar = act_referenced;
    let ir = inact_referenced;
    assert(r & 0x01u8 != 0 && r & 0x04u8 != 0 && (r & 0x02u8 != 0) == ar && (r & 0x08u8 != 0) == ir
        && r & 0xC0u8 == ctl & 0xC0u8) by (bit_vector)
        requires
            a & 0x01u8 != 0,
            (a & 0x02u8 != 0) == ar,
            a & !0x03u8 == ctl & !0x03u8,
            b & 0x04u8 != 0,
            (b & 0x08u8 != 0) == ir,
            b & !0x0Cu8 == a & !0x0Cu8,
            r & !0x30u8 == b & !0x30u8,
    ;
}

/// FILTER_CTL carries the data rate in bits 0 to 2 and the range in bits 6
/// and 7, and nothing else. The codes are the datasheet's: the range field
/// is 00 for +/-2 g, 01 for +/-4 g and 10 for +/-8 g, and the rate field is
/// `k` for 12.5 Hz times two to the `k`.
pub proof fn law_filter_ctl_fields(odr: OutputDataRate, range: Range)
    ensures
        filter_ctl_value(odr, range) & 0x07u8 == odr.code(),
        filter_ctl_value(odr, range) & 0xC0u8 == range.code(),
        filter_ctl_value(odr, range) & 0x38u8 == 0,
        filter_ctl_value(odr, range) & 0xC0u8 == match range {
            Range::G2 => 0x00u8,
            Range::G4 => 0x40u8,
            Range::G8 => 0x80u8,
        },
        filter_ctl_value(odr, range) & 0x07u8 == match odr {
            OutputDataRate::Hz12_5 => 0u8,
            OutputDataRate::Hz25 => 1u8,
            OutputDataRate::Hz50 => 2u8,
            OutputDataRate::Hz100 => 3u8,
            OutputDataRate::Hz200 => 4u8,
            OutputDataRate::Hz400 => 5u8,
        },
        range_g(range) == 2 * pow2_small(((filter_ctl_value(odr, range) & 0xC0u8) / 64) as int),
        rate_centihertz(odr) == 1250 * pow2_small((filter_ctl_value(odr, range) & 0x07u8) as int),
{
    let o = odr.code();
    let g = range.code();
    assert(o <= 5);
    assert(g == 0 || g == 0x40 || g == 0x80);
    assert((g | o) & 0x07u8 == o && (g | o) & 0xC0u8 == g && (g | o) & 0x38u8 == 0) by (bit_vector)
        requires
            o <= 5,
            g == 0 || g == 0x40 || g == 0x80,
    ;    reveal_with_fuel(pow2_small, 6);
    assert(pow2_small(0) == 1 && pow2_small(1) == 2 && pow2_small(2) == 4);
    assert(pow2_small(3) == 8 && pow2_small(4) == 16 && pow2_small(5) == 32);
}

/// The full-scale range in g.
pub open spec fn range_g(range: Range) -> int {
    match range {
        Range::G2 => 2,
        Range::G4 => 4,
        Range::G8 => 8,
    }
}

/// The output data rate in hundredths of a hertz.
pub open spec fn rate_centihertz(odr: OutputDataRate) -> int {
    match odr {
        OutputDataRate::Hz12_5 => 1250,
        OutputDataRate::Hz25 => 2500,
        OutputDataRate::Hz50 => 5000,
        OutputDataRate::Hz100 => 10000,
        OutputDataRate::Hz200 => 20000,
        OutputDataRate::Hz400 => 40000,
    }
}

/// Two to the `k`, for the small exponents of register fields.
pub open spec fn pow2_small(k: int) -> int
    decreases k,
{
    if k <= 0 {
        1
    } else {
        2 * pow2_small(k - 1)
    }
}

/// The STATUS flags are the register's datasheet bits: DATA_READY is bit 0,
/// ACT bit 4, INACT bit 5 and AWAKE bit 6. The FIFO bits (1 to 3) and
/// ERR_USER_REGS (bit 7) affect no flag.
pub proof fn law_status_flags_are_datasheet_bits(s: u8)
    ensures
        status_of(s).data_ready == (s & 0x01u8 != 0),
        status_of(s).act == (s & 0x10u8 != 0),
        status_of(s).inact == (s & 0x20u8 != 0),
        status_of(s).awake == (s & 0x40u8 != 0),
        status_of(s) == status_of(s & 0x71u8),
{
    let t = s & 0x71u8;
    assert(t & 0x01u8 == s & 0x01u8 && t & 0x10u8 == s & 0x10u8 && t & 0x20u8 == s & 0x20u8 && t
        & 0x40u8 == s & 0x40u8) by (bit_vector)
        requires
            t == s & 0x71u8,
    ;
}

/// An interrupt map routes exactly the selected conditions: each flag has its
/// own bit, and the FIFO bits stay clear.
pub proof fn law_interrupt_map_bits(cfg: InterruptConfig)
    ensures
        (cfg.code() & INTMAP_DATA_READY != 0) == cfg.data_ready,
        (cfg.code() & INTMAP_ACT != 0) == cfg.act,
        (cfg.code() & INTMAP_INACT != 0) == cfg.inact,
        (cfg.code() & INTMAP_AWAKE != 0) == cfg.awake,
        (cfg.code() & INTMAP_INT_LOW != 0) == cfg.active_low,
        cfg.code() & 0x0Eu8 == 0,
        (cfg.code() & 0x01u8 != 0) == cfg.data_ready,
        (cfg.code() & 0x10u8 != 0) == cfg.act,
        (cfg.code() & 0x20u8 != 0) == cfg.inact,
        (cfg.code() & 0x40u8 != 0) == cfg.awake,
        (cfg.code() & 0x80u8 != 0) == cfg.active_low,
{
    let d = cfg.data_ready;
    let a = cfg.act;
    let i = cfg.inact;
    let w = cfg.awake;
    let l = cfg.active_low;
    let c = cfg.code();
    assert(c == ((if d { 1u8 } else { 0u8 }) + (if a { 16u8 } else { 0u8 }) + (if i { 32u8 } else {
        0u8
    }) + (if w { 64u8 } else { 0u8 }) + (if l { 128u8 } else { 0u8 })) as u8);
    assert((c & 1u8 != 0) == d && (c & 16u8 != 0) == a && (c & 32u8 != 0) == i && (c & 64u8 != 0)
        == w && (c & 128u8 != 0) == l && c & 0x0Eu8 == 0) by (bit_vector)
        requires
            c == ((if d { 1u8 } else { 0u8 }) + (if a { 16u8 } else { 0u8 }) + (if i { 32u8 } else {
                0u8
            }) + (if w { 64u8 } else { 0u8 }) + (if l { 128u8 } else { 0u8 })) as u8,
    ;
}

/// A threshold written as its two register bytes reads back as its low
/// eleven bits.
pub proof fn law_threshold_split(threshold: u16)
    ensures
        threshold_low(threshold) + 256 * threshold_high(threshold) == threshold % 2048,
        threshold_high(threshold) < 8,
{
}

/// Decoding the two bytes of a 16-bit two's-complement value in little-endian
/// order gives the value back.
pub proof fn law_i16_le_round_trip(v: i16)
    ensures
        ({
            let u: int = if v < 0 { v + 0x10000 } else { v as int };
            i16_from_le((u % 256) as u8, (u / 256) as u8) == v
        }),
{
}

/// The driver speaks the ADXL362's register map: a read is `0x0B`, a write
/// `0x0A`; `init` puts POWER_CTL (0x2D) in standby, writes the reset key 0x52
/// to SOFT_RESET (0x1F) and reads DEVID_AD, DEVID_MST and PARTID (0x00 to
/// 0x02) expecting 0xAD, 0x1D and 0xF2; the filter goes to FILTER_CTL (0x2C)
/// and POWER_CTL; the activity detector to THRESH_ACT (0x20, 0x21), TIME_ACT
/// (0x22) and ACT_INACT_CTL (0x27); the inactivity detector to THRESH_INACT
/// (0x23, 0x24), TIME_INACT (0x25, 0x26) and ACT_INACT_CTL; STATUS is 0x0B,
/// the interrupt maps 0x2A and 0x2B, and a sample is a six-byte burst from
/// XDATA_L (0x0E).
pub proof fn law_register_map(
    addr: u8,
    val: u8,
    odr: OutputDataRate,
    range: Range,
    noise: NoiseMode,
    active: bool,
    act: ActivityConfig,
    inact: InactivityConfig,
    reg: u8,
)
    ensures
        read_frame(addr) == seq![0x0Bu8, addr, 0x00u8],
        write_frame(addr, val) == seq![0x0Au8, addr, val],
        init_frames() =~~= seq![
            seq![0x0Au8, 0x2Du8, 0x00u8],
            seq![0x0Au8, 0x1Fu8, 0x52u8],
            seq![0x0Bu8, 0x00u8, 0x00u8],
            seq![0x0Bu8, 0x01u8, 0x00u8],
            seq![0x0Bu8, 0x02u8, 0x00u8],
        ],
        expected_id(0) == 0xADu8 && expected_id(1) == 0x1Du8 && expected_id(2) == 0xF2u8,
        filter_frames(odr, range, noise, reg) =~~= seq![
            seq![0x0Au8, 0x2Cu8, filter_ctl_value(odr, range)],
            seq![0x0Bu8, 0x2Du8, 0x00u8],
            seq![0x0Au8, 0x2Du8, power_ctl_with_noise(reg, noise)],
        ],
        set_active_frames(active, reg) =~~= seq![
            seq![0x0Bu8, 0x2Du8, 0x00u8],
            seq![0x0Au8, 0x2Du8, power_ctl_with_measure(reg, active)],
        ],
        activity_frames(act, reg).len() == 5,
        activity_frames(act, reg)[0][1] == 0x20u8 && activity_frames(act, reg)[1][1] == 0x21u8,
        activity_frames(act, reg)[2] == seq![0x0Au8, 0x22u8, act.time],
        activity_frames(act, reg)[3] == seq![0x0Bu8, 0x27u8, 0x00u8],
        activity_frames(act, reg)[4][1] == 0x27u8,
        inactivity_frames(inact, reg).len() == 6,
        inactivity_frames(inact, reg)[0][1] == 0x23u8 && inactivity_frames(inact, reg)[1][1] == 0x24u8,
        inactivity_frames(inact, reg)[2][1] == 0x25u8 && inactivity_frames(inact, reg)[3][1] == 0x26u8,
        inactivity_frames(inact, reg)[4] == seq![0x0Bu8, 0x27u8, 0x00u8],
        inactivity_frames(inact, reg)[5][1] == 0x27u8,
        linked_mode_frames(reg)[0] == seq![0x0Bu8, 0x27u8, 0x00u8],
        linked_mode_frames(reg)[1][1] == 0x27u8,
        REG_STATUS == 0x0Bu8 && REG_INTMAP1 == 0x2Au8 && REG_INTMAP2 == 0x2Bu8,
        acceleration_frame() == seq![0x0Bu8, 0x0Eu8, 0u8, 0u8, 0u8, 0u8, 0u8, 0u8],
{
    assert(init_frames()[0] =~= seq![0x0Au8, 0x2Du8, 0x00u8]);
}

/// A burst read from XDATA_L returns XDATA_L, XDATA_H, YDATA_L, YDATA_H,
/// ZDATA_L, ZDATA_H after the two command bytes; each axis is the
/// little-endian two's-complement value of its pair, and a 12-bit sample
/// (whose high byte is sign-extended above bit 3) stays within -2048..=2047.
pub proof fn law_acceleration_decoding(reply: Seq<u8>)
    requires
        reply.len() == 8,
    ensures
        ({
            let a = acceleration_of(reply);
            let le = |lo: u8, hi: u8|
                if lo + 256 * hi >= 32768 {
                    lo + 256 * hi - 65536
                } else {
                    lo + 256 * hi
                };
            &&& a.x == le(reply[2], reply[3])
            &&& a.y == le(reply[4], reply[5])
            &&& a.z == le(reply[6], reply[7])
            &&& (reply[3] < 8 || reply[3] >= 0xF8) ==> -2048 <= a.x <= 2047
            &&& (reply[5] < 8 || reply[5] >= 0xF8) ==> -2048 <= a.y <= 2047
            &&& (reply[7] < 8 || reply[7] >= 0xF8) ==> -2048 <= a.z <= 2047
        }),
{
}

} // verus!
