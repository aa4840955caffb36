//! 8-bit colour arithmetic, through the `lib8tion` and `color8` crates.
use vstd::prelude::*;

verus! {

/// An 8-bit RGB pixel, as the LED strip takes it.
#[derive(Debug, Clone, Copy, PartialEq, Eq, Structural)]
pub struct Rgb8 {
    pub r: u8,
    pub g: u8,
    pub b: u8,
}

impl Rgb8 {
    pub fn new(r: u8, g: u8, b: u8) -> (c: Self)
        ensures
            c == (Rgb8 { r, g, b }),
    {
        Rgb8 { r, g, b }
    }
}

/// `lib8tion::scale8`: `i * (1 + scale) / 256`, rounded down.
pub open spec fn scale8_spec(i: u8, scale: u8) -> u8 {
    ((i * (1 + scale)) / 256) as u8
}

/// Every channel of a pixel scaled with [`scale8_spec`].
pub open spec fn scale_color_spec(c: Rgb8, scale: u8) -> Rgb8 {
    Rgb8 { r: scale8_spec(c.r, scale), g: scale8_spec(c.g, scale), b: scale8_spec(c.b, scale) }
}

/// `lib8tion::triwave8`: rises `0, 2, .., 254` over the first half of the
/// input range and falls back over the second half.
pub open spec fn triwave8_spec(i: u8) -> u8 {
    if i >= 128 {
        (2 * (255 - i)) as u8
    } else {
        (2 * i) as u8
    }
}

/// `lib8tion::beat8`: the high byte of a 32-bit phase that advances by
/// `bpm88 * 280` per elapsed millisecond, where a plain BPM below 256 is
/// first promoted to 8.8 fixed point.
pub open spec fn beat8_spec(bpm: u16, timebase: u32, now_millis: u32) -> u8 {
    let elapsed = (now_millis - timebase) % 0x1_0000_0000;
    let bpm88 = if bpm < 256 {
        bpm * 256
    } else {
        bpm as int
    };
    (((elapsed * bpm88 * 280) % 0x1_0000_0000) / 0x100_0000) as u8
}

/// What `lib8tion::sin16` returns: a piecewise-linear table approximation of
/// `sin` over a full circle of 65536 steps.
pub uninterp spec fn sin16_value(theta: u16) -> i16;

/// What `color8::color_from_palette16` returns for the `RAINBOW_COLORS`
/// palette with linear blending (the channels, red first).
pub uninterp spec fn rainbow_palette_rgb(index: u8, brightness: u8) -> (u8, u8, u8);

/// What converting `color8::Chsv::from_hue(hue)` to RGB (FastLED's
/// "rainbow" hue mapping at full saturation and value) returns.
pub uninterp spec fn rainbow_hue_rgb(hue: u8) -> (u8, u8, u8);

/// `lib8tion::scale8`, which computes exactly [`scale8_spec`].
#[verifier::external_body]
pub(crate) fn scale8(i: u8, scale: u8) -> (r: u8)
    ensures
        r == scale8_spec(i, scale),
{
    lib8tion::scale8(i, lib8tion::Fract8(scale))
}

/// `lib8tion::triwave8`, which computes exactly [`triwave8_spec`].
#[verifier::external_body]
pub(crate) fn triwave8(i: u8) -> (r: u8)
    ensures
        r == triwave8_spec(i),
{
    lib8tion::triwave8(i)
}

/// `lib8tion::beat8`, which computes exactly [`beat8_spec`] (with wrapping
/// 32-bit arithmetic).
#[verifier::external_body]
pub(crate) fn beat8(bpm: u16, timebase: u32, now_millis: u32) -> (r: u8)
    ensures
        r == beat8_spec(bpm, timebase, now_millis),
{
    lib8tion::beat8(bpm, timebase, now_millis)
}

/// `lib8tion::sin16`; its value is named [`sin16_value`].
#[verifier::external_body]
pub(crate) fn sin16(theta: u16) -> (r: i16)
    ensures
        r == sin16_value(theta),
{
    lib8tion::sin16(theta)
}

/// `lib8tion::cos16`, which the crate defines as `sin16` a quarter turn
/// (16384 steps, wrapping) further on.
#[verifier::external_body]
pub(crate) fn cos16(theta: u16) -> (r: i16)
    ensures
        r == sin16_value(((theta + 16384) % 65536) as u16),
{
    lib8tion::cos16(theta)
}

/// `color8::color_from_palette16(&RAINBOW_COLORS, index, brightness,
/// LinearBlend)`; its value is named [`rainbow_palette_rgb`]. The crate
/// forces black when `brightness` is zero.
#[verifier::external_body]
pub(crate) fn rainbow_palette_color(index: u8, brightness: u8) -> (c: Rgb8)
    ensures
        (c.r, c.g, c.b) == rainbow_palette_rgb(index, brightness),
        brightness == 0 ==> c == (Rgb8 { r: 0, g: 0, b: 0 }),
{
    let c = color8::color_from_palette16(
        &color8::RAINBOW_COLORS,
        index,
        brightness,
        color8::ColorBlend::LinearBlend,
    );
    Rgb8 { r: c.r, g: c.g, b: c.b }
}

/// `color8::Crgb::from(color8::Chsv::from_hue(hue))`; its value is named
/// [`rainbow_hue_rgb`].
#[verifier::external_body]
pub(crate) fn hue_color(hue: u8) -> (c: Rgb8)
    ensures
        (c.r, c.g, c.b) == rainbow_hue_rgb(hue),
{
    let c = color8::Crgb::from(color8::Chsv::from_hue(hue));
    Rgb8 { r: c.r, g: c.g, b: c.b }
}

/// `color8::Crgb::scale8`, which scales each channel with `lib8tion::scale8`.
#[verifier::external_body]
pub(crate) fn scale_color(c: Rgb8, scale: u8) -> (r: Rgb8)
    ensures
        r == scale_color_spec(c, scale),
{
    let s = color8::Crgb::new(c.r, c.g, c.b).scale8(scale);
    Rgb8 { r: s.r, g: s.g, b: s.b }
}

/// `color8::fade_to_black_by`, which scales every pixel by `255 - fade_by`
/// with `lib8tion::scale8` on each channel.
#[verifier::external_body]
pub(crate) fn fade_to_black_by(leds: &mut Vec<Rgb8>, fade_by: u8)
    ensures
        final(leds)@ == old(leds)@.map_values(|c: Rgb8| scale_color_spec(c, (255 - fade_by) as u8)),
{
    let mut px: Vec<color8::Crgb> = leds.iter().map(|c| color8::Crgb::new(c.r, c.g, c.b)).collect();
    color8::fade_to_black_by(&mut px, fade_by);
    *leds = px.iter().map(|c| Rgb8 { r: c.r, g: c.g, b: c.b }).collect();
}

/// `color8::nscale8`, which scales every pixel by `scale` with
/// `lib8tion::scale8` on each channel.
#[verifier::external_body]
pub(crate) fn nscale8(leds: &mut Vec<Rgb8>, scale: u8)
    ensures
        final(leds)@ == old(leds)@.map_values(|c: Rgb8| scale_color_spec(c, scale)),
{
    let mut px: Vec<color8::Crgb> = leds.iter().map(|c| color8::Crgb::new(c.r, c.g, c.b)).collect();
    color8::nscale8(&mut px, scale);
    *leds = px.iter().map(|c| Rgb8 { r: c.r, g: c.g, b: c.b }).collect();
}

} // verus!
