//! LED effects and the LED task's command handling.
//!
//! [`LedControl`] renders frames: each rendering method returns the 150
//! colours to write to the strip, in strip order. [`LedTask`] decides what the
//! LED task does with each command it receives.
use vstd::prelude::*;
use crate::color::{
    beat8, beat8_spec, cos16, fade_to_black_by, hue_color, nscale8, rainbow_hue_rgb,
    rainbow_palette_color, rainbow_palette_rgb, scale8, scale8_spec, scale_color,
    scale_color_spec, sin16, sin16_value, triwave8, triwave8_spec, Rgb8,
};
use crate::layout3d::{is_cube_layout, CubeFaces};

verus! {

pub const NUM_LEDS: usize = 150;

/// LEDs per row of a face; rows are wired in a serpentine.
pub const COLS: usize = 5;

/// Channel level of the solid status colours.
pub const LEVEL: u8 = 30;

/// Shared maximum brightness applied by every effect.
pub const BRIGHTNESS: u8 = 45;

/// How much the Larson scanner's trail fades per frame.
pub const SCANNER_FADE_BY: u8 = 64;

/// Milliseconds per hue step of the rainbow effect.
pub const RAINBOW_MILLIS_PER_STEP: u64 = 40;

/// Tempo of the pulse effect, in beats per minute.
pub const PULSE_BPM: u16 = 15;

/// Milliseconds between rendered frames.
pub const FRAME_INTERVAL_MILLIS: u64 = 50;

pub open spec fn rgb(r: u8, g: u8, b: u8) -> Rgb8 {
    Rgb8 { r, g, b }
}

pub open spec fn rgb_of(c: (u8, u8, u8)) -> Rgb8 {
    Rgb8 { r: c.0, g: c.1, b: c.2 }
}

pub fn black() -> (c: Rgb8)
    ensures
        c == rgb(0, 0, 0),
{
    Rgb8 { r: 0, g: 0, b: 0 }
}

pub fn red() -> (c: Rgb8)
    ensures
        c == rgb(LEVEL, 0, 0),
{
    Rgb8 { r: LEVEL, g: 0, b: 0 }
}

pub fn green() -> (c: Rgb8)
    ensures
        c == rgb(0, LEVEL, 0),
{
    Rgb8 { r: 0, g: LEVEL, b: 0 }
}

pub fn blue() -> (c: Rgb8)
    ensures
        c == rgb(0, 0, LEVEL),
{
    Rgb8 { r: 0, g: 0, b: LEVEL }
}

pub fn yellow() -> (c: Rgb8)
    ensures
        c == rgb(LEVEL, LEVEL, 0),
{
    Rgb8 { r: LEVEL, g: LEVEL, b: 0 }
}

pub fn magenta() -> (c: Rgb8)
    ensures
        c == rgb(LEVEL, 0, LEVEL),
{
    Rgb8 { r: LEVEL, g: 0, b: LEVEL }
}

pub fn cyan() -> (c: Rgb8)
    ensures
        c == rgb(0, LEVEL, LEVEL),
{
    Rgb8 { r: 0, g: LEVEL, b: LEVEL }
}

pub fn white() -> (c: Rgb8)
    ensures
        c == rgb(LEVEL, LEVEL, LEVEL),
{
    Rgb8 { r: LEVEL, g: LEVEL, b: LEVEL }
}

/// The colour of the Larson scanner's dot.
pub open spec fn scanner_color() -> Rgb8 {
    rgb(255, 0, 0)
}

/// Commands other tasks send to the LED task.
#[derive(Debug, Clone, Copy, PartialEq, Eq, Structural)]
pub enum LedCommand {
    NextEffect,
    SetEnabled(bool),
    ShowWifiConnecting,
    ShowWifiConnected,
    ShowWifiOff,
    ShowOtaInProgress,
    ShowOtaSuccess,
    ResumeAnimation,
}

/// The strip position of the `logical`-th LED: rows of [`COLS`] LEDs run
/// alternately forwards and backwards.
pub open spec fn meander_spec(logical: int) -> int {
    let row = logical / COLS as int;
    let col = logical % COLS as int;
    if row % 2 == 0 {
        logical
    } else {
        row * COLS + (COLS - 1 - col)
    }
}

pub fn meander_index(logical: usize) -> (r: usize)
    requires
        meander_spec(logical as int) <= usize::MAX,
    ensures
        r == meander_spec(logical as int),
{
    let row = logical / COLS;
    let col = logical % COLS;
    if row % 2 == 0 {
        logical
    } else {
        row * COLS + (COLS - 1 - col)
    }
}

/// A triangular pulse: over the first half of each beat the level ramps
/// linearly up to `highest` and back, over the second half it stays at 0.
pub open spec fn beattri8_clamped_spec(bpm: u16, highest: u8, phase_offset: u8, now_millis: u32) -> u8 {
    let beat = (beat8_spec(bpm, 0, now_millis) + phase_offset) % 256;
    if beat >= 128 {
        0
    } else {
        scale8_spec(triwave8_spec((beat * 2) as u8), highest)
    }
}

pub fn beattri8_clamped(bpm: u16, highest: u8, phase_offset: u8, now_millis: u32) -> (r: u8)
    ensures
        r == beattri8_clamped_spec(bpm, highest, phase_offset, now_millis),
{
    let beat = beat8(bpm, 0, now_millis).wrapping_add(phase_offset);
    if beat >= 128 {
        return 0;
    }
    scale8(triwave8(beat * 2), highest)
}

/// The rainbow effect's hue offset at `millis`: one step per
/// [`RAINBOW_MILLIS_PER_STEP`] milliseconds, wrapping at 256.
pub open spec fn rainbow_time_hue_spec(millis: u64) -> u8 {
    ((millis / RAINBOW_MILLIS_PER_STEP) % 256) as u8
}

pub fn rainbow_time_hue(millis: u64) -> (r: u8)
    ensures
        r == rainbow_time_hue_spec(millis),
{
    ((millis / RAINBOW_MILLIS_PER_STEP) % 256) as u8
}

/// The rainbow effect's rotation phase at `millis`: the sine and cosine of
/// `millis` taken as an angle of 65536 steps per turn.
pub fn rainbow_phase(millis: u64) -> (r: (i16, i16))
    ensures
        r.0 == sin16_value((millis % 65536) as u16),
        r.1 == sin16_value((((millis % 65536) + 16384) % 65536) as u16),
{
    let theta = (millis % 65536) as u16;
    (sin16(theta), cos16(theta))
}

/// The colour of a rainbow pixel whose position gives hue `pos_hue`, at time
/// hue `time_hue`.
pub open spec fn rainbow_pixel_spec(pos_hue: u8, time_hue: u8) -> Rgb8 {
    scale_color_spec(rgb_of(rainbow_hue_rgb(((pos_hue + time_hue) % 256) as u8)), BRIGHTNESS)
}

/// Where the Larson scanner's dot goes next: one LED on, turning round at
/// either end of the strip.
pub open spec fn scanner_step(pos: int, forward: bool) -> (int, bool) {
    if forward {
        if pos == NUM_LEDS - 1 {
            (pos - 1, false)
        } else {
            (pos + 1, true)
        }
    } else if pos == 0 {
        (pos + 1, true)
    } else {
        (pos - 1, false)
    }
}

/// A pixel of the Larson scanner's trail after one frame's fading.
pub open spec fn trail_fade(c: Rgb8) -> Rgb8 {
    scale_color_spec(c, (255 - SCANNER_FADE_BY) as u8)
}

/// The Larson scanner's trail after one frame: every LED faded once, then the
/// dot drawn at logical position `pos`.
pub open spec fn trail_step(trail: Seq<Rgb8>, pos: int) -> Seq<Rgb8> {
    trail.map_values(|c: Rgb8| trail_fade(c)).update(meander_spec(pos), scanner_color())
}

/// Renders the LED effects.
pub struct LedControl {
    led_colors: Vec<Rgb8>,
    scanner_trail: Vec<Rgb8>,
    scanner_pos: usize,
    scanner_forward: bool,
    palette_time_index: u8,
    layout: CubeFaces,
}

impl LedControl {
    /// The last frame rendered by the Larson scanner or palette effect.
    pub closed spec fn colors(&self) -> Seq<Rgb8> {
        self.led_colors@
    }

    /// The Larson scanner's full-brightness trail.
    pub closed spec fn trail(&self) -> Seq<Rgb8> {
        self.scanner_trail@
    }

    pub closed spec fn spec_scanner_pos(&self) -> int {
        self.scanner_pos as int
    }

    pub closed spec fn spec_scanner_forward(&self) -> bool {
        self.scanner_forward
    }

    pub closed spec fn spec_palette_time_index(&self) -> u8 {
        self.palette_time_index
    }

    /// The layout the rainbow effect is computed over.
    pub closed spec fn spec_layout(&self) -> CubeFaces {
        self.layout
    }

    /// Frame buffers hold one colour per LED, the scanner is on the strip,
    /// and the layout is the cube.
    pub open spec fn wf(&self) -> bool {
        &&& self.colors().len() == NUM_LEDS
        &&& self.trail().len() == NUM_LEDS
        &&& 0 <= self.spec_scanner_pos() < NUM_LEDS
        &&& is_cube_layout(self.spec_layout().spec_faces())
    }

    #[verifier::type_invariant]
    spec fn inv(self) -> bool {
        self.wf()
    }

    /// All LEDs dark, the scanner at the start moving forwards, the palette at
    /// its first colour. The strip should be written with [`Self::led_colors`].
    pub fn new() -> (r: Self)
        ensures
            r.wf(),
            r.colors() == Seq::new(NUM_LEDS as nat, |i: int| rgb(0, 0, 0)),
            r.trail() == Seq::new(NUM_LEDS as nat, |i: int| rgb(0, 0, 0)),
            r.spec_scanner_pos() == 0,
            r.spec_scanner_forward(),
            r.spec_palette_time_index() == 0,
    {
        let led_colors = solid(black());
        let scanner_trail = solid(black());
        LedControl {
            led_colors,
            scanner_trail,
            scanner_pos: 0,
            scanner_forward: true,
            palette_time_index: 0,
            layout: CubeFaces::new(),
        }
    }

    pub fn led_colors(&self) -> (r: &Vec<Rgb8>)
        ensures
            r@ == self.colors(),
    {
        &self.led_colors
    }

    /// The 3D layout the rainbow effect is computed over.
    pub fn layout(&self) -> (r: &CubeFaces)
        ensures
            is_cube_layout(r.spec_faces()),
    {
        proof {
            use_type_invariant(self);
        }
        &self.layout
    }

    /// Every LED in one colour.
    pub fn fill(&mut self, color: Rgb8) -> (r: Vec<Rgb8>)
        ensures
            *final(self) == *old(self),
            r@ == Seq::new(NUM_LEDS as nat, |i: int| color),
    {
        solid(color)
    }

    /// One frame of a Larson-scanner ("Knight Rider") sweep: the trail fades,
    /// the dot is drawn at its position on the serpentine strip, and it moves
    /// one LED on, turning round at either end. The frame is the trail at
    /// [`BRIGHTNESS`].
    pub fn larson_scanner_frame(&mut self) -> (r: Vec<Rgb8>)
        ensures
            old(self).wf(),
            final(self).wf(),
            final(self).trail() == trail_step(old(self).trail(), old(self).spec_scanner_pos()),
            (final(self).spec_scanner_pos(), final(self).spec_scanner_forward()) == scanner_step(
                old(self).spec_scanner_pos(),
                old(self).spec_scanner_forward(),
            ),
            final(self).colors() == final(self).trail().map_values(
                |c: Rgb8| scale_color_spec(c, BRIGHTNESS),
            ),
            final(self).spec_palette_time_index() == old(self).spec_palette_time_index(),
            r@ == final(self).colors(),
    {
        proof {
            use_type_invariant(&*self);
        }
        let mut trail = self.scanner_trail.clone();
        assert(trail@ =~= self.scanner_trail@);
        fade_to_black_by(&mut trail, SCANNER_FADE_BY);
        let idx = meander_index(self.scanner_pos);
        proof {
            lemma_meander_in_range(self.scanner_pos as int);
        }
        trail.set(idx, Rgb8 { r: 255, g: 0, b: 0 });
        let (pos, forward) = if self.scanner_forward {
            if self.scanner_pos == NUM_LEDS - 1 {
                (self.scanner_pos - 1, false)
            } else {
                (self.scanner_pos + 1, true)
            }
        } else if self.scanner_pos == 0 {
            (self.scanner_pos + 1, true)
        } else {
            (self.scanner_pos - 1, false)
        };
        let mut frame = trail.clone();
        assert(frame@ =~= trail@);
        nscale8(&mut frame, BRIGHTNESS);
        let colors = frame.clone();
        assert(colors@ =~= frame@);
        self.led_colors = colors;
        self.scanner_trail = trail;
        self.scanner_pos = pos;
        self.scanner_forward = forward;
        frame
    }

    /// One frame of the palette-cycling effect: LED `i` shows the rainbow
    /// palette at index `time + i` (wrapping at 256), and the time index moves
    /// on by one (wrapping).
    pub fn palette_frame(&mut self) -> (r: Vec<Rgb8>)
        ensures
            old(self).wf(),
            final(self).wf(),
            final(self).colors() == Seq::new(
                NUM_LEDS as nat,
                |i: int|
                    rgb_of(
                        rainbow_palette_rgb(
                            ((old(self).spec_palette_time_index() + i) % 256) as u8,
                            BRIGHTNESS,
                        ),
                    ),
            ),
            final(self).spec_palette_time_index() == (old(self).spec_palette_time_index() + 1) % 256,
            final(self).trail() == old(self).trail(),
            final(self).spec_scanner_pos() == old(self).spec_scanner_pos(),
            final(self).spec_scanner_forward() == old(self).spec_scanner_forward(),
            r@ == final(self).colors(),
    {
        proof {
            use_type_invariant(&*self);
        }
        let ghost t0 = self.palette_time_index;
        let mut colors: Vec<Rgb8> = Vec::new();
        let mut spatial_index: u8 = self.palette_time_index;
        let mut i: usize = 0;
        while i < NUM_LEDS
            invariant
                i <= NUM_LEDS,
                colors@.len() == i,
                spatial_index == (t0 + i) % 256,
                forall|j: int|
                    0 <= j < i ==> #[trigger] colors@[j] == rgb_of(
                        rainbow_palette_rgb(((t0 + j) % 256) as u8, BRIGHTNESS),
                    ),
            decreases NUM_LEDS - i,
        {
            let color = rainbow_palette_color(spatial_index, BRIGHTNESS);
            colors.push(color);
            spatial_index = spatial_index.wrapping_add(1);
            i = i + 1;
        }
        proof {
            use_type_invariant(&*self);
        }
        let led_colors = colors.clone();
        assert(led_colors@ =~= colors@);
        self.led_colors = led_colors;
        self.palette_time_index = self.palette_time_index.wrapping_add(1);
        assert(colors@ =~= Seq::new(
            NUM_LEDS as nat,
            |i: int| rgb_of(rainbow_palette_rgb(((t0 + i) % 256) as u8, BRIGHTNESS)),
        ));
        colors
    }

    /// One frame of the rotating rainbow: the pixel at layout position `k`
    /// takes the hue `pos_hues[k]` its position gives, shifted by the time hue
    /// at `millis`, at [`BRIGHTNESS`].
    pub fn rainbow_frame(&mut self, millis: u64, pos_hues: &Vec<u8>) -> (r: Vec<Rgb8>)
        ensures
            *final(self) == *old(self),
            r@ == Seq::new(
                pos_hues@.len(),
                |k: int| rainbow_pixel_spec(pos_hues@[k], rainbow_time_hue_spec(millis)),
            ),
    {
        let time_hue = rainbow_time_hue(millis);
        let mut out: Vec<Rgb8> = Vec::new();
        let mut k: usize = 0;
        while k < pos_hues.len()
            invariant
                k <= pos_hues@.len(),
                out@.len() == k,
                time_hue == rainbow_time_hue_spec(millis),
                forall|j: int|
                    0 <= j < k ==> #[trigger] out@[j] == rainbow_pixel_spec(pos_hues@[j], time_hue),
            decreases pos_hues@.len() - k,
        {
            let hue = pos_hues[k].wrapping_add(time_hue);
            let color = scale_color(hue_color(hue), BRIGHTNESS);
            out.push(color);
            k = k + 1;
        }
        assert(out@ =~= Seq::new(
            pos_hues@.len(),
            |k: int| rainbow_pixel_spec(pos_hues@[k], rainbow_time_hue_spec(millis)),
        ));
        out
    }

    /// One frame of the pulse effect: every LED red at the level of a
    /// triangular pulse at [`PULSE_BPM`], peaking at [`BRIGHTNESS`].
    pub fn pulse_frame(&mut self, millis: u64) -> (r: Vec<Rgb8>)
        ensures
            *final(self) == *old(self),
            r@ == Seq::new(
                NUM_LEDS as nat,
                |i: int| rgb(beattri8_clamped_spec(PULSE_BPM, BRIGHTNESS, 0, millis as u32), 0, 0),
            ),
    {
        let level = beattri8_clamped(PULSE_BPM, BRIGHTNESS, 0, millis as u32);
        self.fill(Rgb8 { r: level, g: 0, b: 0 })
    }
}

/// [`NUM_LEDS`] copies of `color`.
fn solid(color: Rgb8) -> (r: Vec<Rgb8>)
    ensures
        r@ == Seq::new(NUM_LEDS as nat, |i: int| color),
{
    let mut v: Vec<Rgb8> = Vec::new();
    let mut i: usize = 0;
    while i < NUM_LEDS
        invariant
            i <= NUM_LEDS,
            v@.len() == i,
            forall|j: int| 0 <= j < i ==> v@[j] == color,
        decreases NUM_LEDS - i,
    {
        v.push(color);
        i = i + 1;
    }
    assert(v@ =~= Seq::new(NUM_LEDS as nat, |i: int| color));
    v
}

proof fn lemma_meander_in_range(logical: int)
    requires
        0 <= logical < NUM_LEDS,
    ensures
        0 <= meander_spec(logical) < NUM_LEDS,
{
}

/// The effects the LED task cycles through.
#[derive(Debug, Clone, Copy, PartialEq, Eq, Structural)]
pub enum Effect {
    Palette,
    Rainbow,
    Pulse,
    LarsonScanner,
    Off,
}

impl Effect {
    pub open spec fn spec_next(self) -> Effect {
        match self {
            Effect::Palette => Effect::Rainbow,
            Effect::Rainbow => Effect::Pulse,
            Effect::Pulse => Effect::LarsonScanner,
            Effect::LarsonScanner => Effect::Off,
            Effect::Off => Effect::Palette,
        }
    }

    /// The cycle of the firmware's own LED task, which has no pulse effect.
    pub open spec fn spec_next_without_pulse(self) -> Effect {
        match self {
            Effect::Palette => Effect::Rainbow,
            Effect::Rainbow => Effect::LarsonScanner,
            Effect::Pulse => Effect::LarsonScanner,
            Effect::LarsonScanner => Effect::Off,
            Effect::Off => Effect::Palette,
        }
    }

    pub fn next(self) -> (r: Effect)
        ensures
            r == self.spec_next(),
    {
        match self {
            Effect::Palette => Effect::Rainbow,
            Effect::Rainbow => Effect::Pulse,
            Effect::Pulse => Effect::LarsonScanner,
            Effect::LarsonScanner => Effect::Off,
            Effect::Off => Effect::Palette,
        }
    }

    pub fn next_without_pulse(self) -> (r: Effect)
        ensures
            r == self.spec_next_without_pulse(),
    {
        match self {
            Effect::Palette => Effect::Rainbow,
            Effect::Rainbow => Effect::LarsonScanner,
            Effect::Pulse => Effect::LarsonScanner,
            Effect::LarsonScanner => Effect::Off,
            Effect::Off => Effect::Palette,
        }
    }
}

/// What the LED task does after handling a command.
#[derive(Debug, Clone, Copy, PartialEq, Eq, Structural)]
pub enum AfterCommand {
    /// A status colour is showing: leave it until the next effect change.
    KeepStatusColor,
    /// Rendering resumes: restart the frame ticker so it does not fire in a
    /// burst to catch up.
    ResetTicker,
    /// Nothing is rendered: blank the strip.
    Blank,
}

/// The LED task's response to one command: an optional solid colour to show
/// at once, then what to do next.
#[derive(Debug, Clone, Copy, PartialEq, Eq, Structural)]
pub struct LedTaskAction {
    pub fill: Option<Rgb8>,
    pub after: AfterCommand,
}

/// The LED task's state between commands.
pub struct LedTask {
    effect: Effect,
    enabled: bool,
    overridden: bool,
    with_pulse: bool,
}

/// The status colour a command shows, if any.
pub open spec fn command_fill(cmd: LedCommand) -> Option<Rgb8> {
    match cmd {
        LedCommand::ShowWifiConnecting => Some(rgb(LEVEL, LEVEL, 0)),
        LedCommand::ShowWifiConnected => Some(rgb(0, LEVEL, 0)),
        LedCommand::ShowWifiOff => Some(rgb(LEVEL, 0, 0)),
        LedCommand::ShowOtaInProgress => Some(rgb(0, 0, LEVEL)),
        LedCommand::ShowOtaSuccess => Some(rgb(0, 0, 0)),
        _ => None,
    }
}

impl LedTask {
    pub closed spec fn spec_effect(&self) -> Effect {
        self.effect
    }

    pub closed spec fn spec_enabled(&self) -> bool {
        self.enabled
    }

    /// A status colour is showing and normal rendering is paused.
    pub closed spec fn spec_overridden(&self) -> bool {
        self.overridden
    }

    /// The effect cycle includes the pulse effect.
    pub closed spec fn spec_with_pulse(&self) -> bool {
        self.with_pulse
    }

    /// Frames are being rendered.
    pub open spec fn spec_running(&self) -> bool {
        self.spec_enabled() && self.spec_effect() != Effect::Off && !self.spec_overridden()
    }

    /// The effect that follows `effect` in the effect cycle of the LED task.
    pub open spec fn cycle_next(&self, effect: Effect) -> Effect {
        if self.spec_with_pulse() {
            effect.spec_next()
        } else {
            effect.spec_next_without_pulse()
        }
    }

    /// The LED library's task: starts on the rainbow effect, enabled.
    pub fn new() -> (r: Self)
        ensures
            r.spec_effect() == Effect::Rainbow,
            r.spec_enabled(),
            !r.spec_overridden(),
            r.spec_with_pulse(),
    {
        LedTask { effect: Effect::Rainbow, enabled: true, overridden: false, with_pulse: true }
    }

    /// The firmware's LED task, whose effect cycle skips the pulse effect.
    pub fn new_without_pulse() -> (r: Self)
        ensures
            r.spec_effect() == Effect::Rainbow,
            r.spec_enabled(),
            !r.spec_overridden(),
            !r.spec_with_pulse(),
    {
        LedTask { effect: Effect::Rainbow, enabled: true, overridden: false, with_pulse: false }
    }

    pub fn effect(&self) -> (r: Effect)
        ensures
            r == self.spec_effect(),
    {
        self.effect
    }

    /// While running, the task renders a frame of its effect on every tick
    /// and listens for commands; otherwise it only waits for a command.
    pub fn running(&self) -> (r: bool)
        ensures
            r == self.spec_running(),
    {
        self.enabled && self.effect != Effect::Off && !self.overridden
    }

    /// Handles one command: `NextEffect` moves to the next effect and ends any
    /// status display, `SetEnabled` switches rendering on or off, the `Show..`
    /// commands show a status colour and pause rendering, `ResumeAnimation`
    /// ends the status display.
    pub fn handle_command(&mut self, cmd: LedCommand) -> (r: LedTaskAction)
        ensures
            final(self).spec_with_pulse() == old(self).spec_with_pulse(),
            final(self).spec_effect() == (if cmd == LedCommand::NextEffect {
                old(self).cycle_next(old(self).spec_effect())
            } else {
                old(self).spec_effect()
            }),
            final(self).spec_enabled() == (match cmd {
                LedCommand::SetEnabled(e) => e,
                _ => old(self).spec_enabled(),
            }),
            final(self).spec_overridden() == (match cmd {
                LedCommand::NextEffect | LedCommand::ResumeAnimation => false,
                LedCommand::SetEnabled(_) => old(self).spec_overridden(),
                _ => true,
            }),
            r.fill == command_fill(cmd),
            r.after == (if final(self).spec_overridden() {
                AfterCommand::KeepStatusColor
            } else if final(self).spec_running() {
                AfterCommand::ResetTicker
            } else {
                AfterCommand::Blank
            }),
    {
        let mut fill: Option<Rgb8> = None;
        match cmd {
            LedCommand::NextEffect => {
                self.overridden = false;
                self.effect = if self.with_pulse {
                    self.effect.next()
                } else {
                    self.effect.next_without_pulse()
                };
            },
            LedCommand::SetEnabled(new_enabled) => {
                self.enabled = new_enabled;
            },
            LedCommand::ShowWifiConnecting => {
                self.overridden = true;
                fill = Some(yellow());
            },
            LedCommand::ShowWifiConnected => {
                self.overridden = true;
                fill = Some(green());
            },
            LedCommand::ShowWifiOff => {
                self.overridden = true;
                fill = Some(red());
            },
            LedCommand::ShowOtaInProgress => {
                self.overridden = true;
                fill = Some(blue());
            },
            LedCommand::ShowOtaSuccess => {
                self.overridden = true;
                fill = Some(black());
            },
            LedCommand::ResumeAnimation => {
                self.overridden = false;
            },
        }
        let after = if self.overridden {
            AfterCommand::KeepStatusColor
        } else if self.enabled && self.effect != Effect::Off {
            AfterCommand::ResetTicker
        } else {
            AfterCommand::Blank
        };
        LedTaskAction { fill, after }
    }
}

/// Every logical LED maps to a strip position, and mapping twice gives the
/// LED back: the serpentine wiring is a reordering of the strip.
pub proof fn law_meander_is_involution(logical: int)
    requires
        0 <= logical < NUM_LEDS,
    ensures
        0 <= meander_spec(logical) < NUM_LEDS,
        meander_spec(meander_spec(logical)) == logical,
        meander_spec(logical) / (COLS as int) == logical / (COLS as int),
{
}

/// The dot of the Larson scanner moves exactly one LED per frame and never
/// leaves the strip.
pub proof fn law_scanner_moves_one_step(pos: int, forward: bool)
    requires
        0 <= pos < NUM_LEDS,
    ensures
        0 <= scanner_step(pos, forward).0 < NUM_LEDS,
        scanner_step(pos, forward).0 == pos + 1 || scanner_step(pos, forward).0 == pos - 1,
        scanner_step(pos, forward).1 ==> scanner_step(pos, forward).0 == pos + 1,
        !scanner_step(pos, forward).1 ==> scanner_step(pos, forward).0 == pos - 1,
{
}

/// Where the Larson scanner's dot is after `n` frames.
pub open spec fn scanner_after(pos: int, forward: bool, n: nat) -> (int, bool)
    decreases n,
{
    if n == 0 {
        (pos, forward)
    } else {
        let prev = scanner_after(pos, forward, (n - 1) as nat);
        scanner_step(prev.0, prev.1)
    }
}

/// Where the Larson scanner's dot is `n` frames after it left the first LED
/// moving forwards: the motion repeats every `2 * (NUM_LEDS - 1)` frames,
/// forwards over the strip to the last LED and backwards to the first.
pub open spec fn scanner_phase(n: nat) -> (int, bool) {
    if n == 0 {
        (0, true)
    } else {
        let m = (n - 1) % (2 * (NUM_LEDS - 1)) + 1;
        if m < NUM_LEDS {
            (m, true)
        } else {
            (2 * (NUM_LEDS - 1) - m, false)
        }
    }
}

/// Counting on by one moves a remainder on by one, wrapping to zero.
proof fn lemma_mod_succ(a: int, p: int)
    requires
        a >= 0,
        p > 0,
    ensures
        (a + 1) % p == if a % p == p - 1 {
            0
        } else {
            a % p + 1
        },
{
    let q = a / p;
    let r = a % p;
    vstd::arithmetic::div_mod::lemma_fundamental_div_mod(a, p);
    vstd::arithmetic::div_mod::lemma_mod_pos_bound(a, p);
    assert(p * q == q * p) by (nonlinear_arith);
    if r == p - 1 {
        assert((q + 1) * p == q * p + p) by (nonlinear_arith);
        vstd::arithmetic::div_mod::lemma_fundamental_div_mod_converse(a + 1, p, q + 1, 0);
    } else {
        vstd::arithmetic::div_mod::lemma_fundamental_div_mod_converse(a + 1, p, q, r + 1);
    }
}

/// The dot bounces end to end for ever: from the start of the strip it runs
/// forwards over every LED to the last one, then backwards over every LED to
/// the first, and again, one LED per frame.
pub proof fn law_scanner_bounces(n: nat)
    ensures
        scanner_after(0, true, n) == scanner_phase(n),
        n < NUM_LEDS ==> scanner_after(0, true, n) == (n as int, true),
        NUM_LEDS <= n < 2 * NUM_LEDS - 1 ==> scanner_after(0, true, n) == (
            2 * (NUM_LEDS - 1) - n,
            false,
        ),
    decreases n,
{
    if n > 0 {
        law_scanner_bounces((n - 1) as nat);
        let p = 2 * (NUM_LEDS - 1) as int;
        let prev = scanner_after(0, true, (n - 1) as nat);
        assert(scanner_after(0, true, n) == scanner_step(prev.0, prev.1));
        if n > 1 {
            lemma_mod_succ((n - 2) as int, p);
            vstd::arithmetic::div_mod::lemma_mod_pos_bound((n - 2) as int, p);
            let m0 = (n - 2) % p + 1;
            let m = (n - 1) % p + 1;
            assert(m == if m0 == p { 1 } else { m0 + 1 });
        } else {
            vstd::arithmetic::div_mod::lemma_small_mod(0, p as nat);
        }
    }
}

/// `c` after `k` frames of fading.
pub open spec fn faded(c: Rgb8, k: nat) -> Rgb8
    decreases k,
{
    if k == 0 {
        c
    } else {
        trail_fade(faded(c, (k - 1) as nat))
    }
}

/// The Larson scanner's trail after `n` frames that start from trail `trail`
/// with the dot at `pos` moving forwards (`forward`) or backwards.
pub open spec fn trail_after(trail: Seq<Rgb8>, pos: int, forward: bool, n: nat) -> Seq<Rgb8>
    decreases n,
{
    if n == 0 {
        trail
    } else {
        trail_step(trail_after(trail, pos, forward, (n - 1) as nat), scanner_after(pos, forward, (n - 1) as nat).0)
    }
}

/// A dot that starts on the strip stays on it.
proof fn lemma_scanner_after_on_strip(pos: int, forward: bool, n: nat)
    requires
        0 <= pos < NUM_LEDS,
    ensures
        0 <= scanner_after(pos, forward, n).0 < NUM_LEDS,
    decreases n,
{
    if n > 0 {
        lemma_scanner_after_on_strip(pos, forward, (n - 1) as nat);
        let prev = scanner_after(pos, forward, (n - 1) as nat);
        law_scanner_moves_one_step(prev.0, prev.1);
    }
}

/// The trail keeps one pixel per LED.
proof fn lemma_trail_after_len(trail: Seq<Rgb8>, pos: int, forward: bool, n: nat)
    requires
        trail.len() == NUM_LEDS,
        0 <= pos < NUM_LEDS,
    ensures
        trail_after(trail, pos, forward, n).len() == NUM_LEDS,
    decreases n,
{
    if n > 0 {
        lemma_trail_after_len(trail, pos, forward, (n - 1) as nat);
        lemma_scanner_after_on_strip(pos, forward, (n - 1) as nat);
        law_meander_is_involution(scanner_after(pos, forward, (n - 1) as nat).0);
    }
}

/// The dot leaves a fading trail: the LED it was drawn on `k` frames before
/// the latest one, and not drawn on since, shows the dot's colour faded `k`
/// times (frame `m`, counted from one, draws the dot at
/// `scanner_after(pos, forward, m - 1)`).
pub proof fn law_scanner_trail_fades(trail: Seq<Rgb8>, pos: int, forward: bool, n: nat, k: nat)
    requires
        trail.len() == NUM_LEDS,
        0 <= pos < NUM_LEDS,
        k < n,
        forall|j: nat|
            n - k <= j < n ==> #[trigger] scanner_after(pos, forward, j).0 != scanner_after(
                pos,
                forward,
                (n - k - 1) as nat,
            ).0,
    ensures
        trail_after(trail, pos, forward, n)[meander_spec(
            scanner_after(pos, forward, (n - k - 1) as nat).0,
        )] == faded(scanner_color(), k),
    decreases k,
{
    let q = scanner_after(pos, forward, (n - k - 1) as nat).0;
    let p = scanner_after(pos, forward, (n - 1) as nat).0;
    let prev = trail_after(trail, pos, forward, (n - 1) as nat);
    lemma_trail_after_len(trail, pos, forward, (n - 1) as nat);
    lemma_scanner_after_on_strip(pos, forward, (n - k - 1) as nat);
    lemma_scanner_after_on_strip(pos, forward, (n - 1) as nat);
    law_meander_is_involution(q);
    law_meander_is_involution(p);
    assert(trail_after(trail, pos, forward, n) == trail_step(prev, p));
    if k > 0 {
        assert(p != q) by {
            assert(scanner_after(pos, forward, (n - 1) as nat).0 != q);
        }
        assert(meander_spec(p) != meander_spec(q));
        assert forall|j: nat| (n - 1) - (k - 1) <= j < n - 1 implies #[trigger] scanner_after(
            pos,
            forward,
            j,
        ).0 != scanner_after(pos, forward, ((n - 1) - (k - 1) - 1) as nat).0 by {
            assert(n - k <= j < n);
        }
        law_scanner_trail_fades(trail, pos, forward, (n - 1) as nat, (k - 1) as nat);
        assert(prev[meander_spec(q)] == faded(scanner_color(), (k - 1) as nat));
    }
}

/// The rainbow turns one hue step every 40 ms and shows every one of the 256
/// hues before it wraps: the time hue is 0 for the first 40 ms, stays put
/// within each 40 ms step, goes up by one (wrapping only from 255 to 0) from
/// each step to the next, and reaches hue `h` at `40 * h` ms.
pub proof fn law_rainbow_hue_turns_once_per_step(millis: u64, h: u8)
    ensures
        millis < 40 ==> rainbow_time_hue_spec(millis) == 0,
        millis + 40 <= u64::MAX ==> rainbow_time_hue_spec((millis + 40) as u64) as int == (
        rainbow_time_hue_spec(millis) + 1) % 256,
        rainbow_time_hue_spec((millis - millis % 40) as u64) == rainbow_time_hue_spec(millis),
        rainbow_time_hue_spec((40 * h) as u64) == h,
{
    let m = millis as int;
    let q = m / 40;
    vstd::arithmetic::div_mod::lemma_fundamental_div_mod(m, 40);
    vstd::arithmetic::div_mod::lemma_mod_pos_bound(m, 40);
    if m + 40 <= u64::MAX {
        vstd::arithmetic::div_mod::lemma_fundamental_div_mod_converse(m + 40, 40, q + 1, m % 40);
        lemma_mod_succ(q, 256);
    }
    vstd::arithmetic::div_mod::lemma_fundamental_div_mod_converse(m - m % 40, 40, q, 0);
    vstd::arithmetic::div_mod::lemma_fundamental_div_mod_converse(40 * h, 40, h as int, 0);
    vstd::arithmetic::div_mod::lemma_small_mod(h as nat, 256);
    if m < 40 {
        vstd::arithmetic::div_mod::lemma_fundamental_div_mod_converse(m, 40, 0, m);
        vstd::arithmetic::div_mod::lemma_small_mod(0, 256);
    }
}

/// The firmware's cycle is the LED library's cycle with the pulse effect
/// skipped: Palette, Rainbow, LarsonScanner, Off and round again.
pub proof fn law_cycle_without_pulse_skips_pulse(e: Effect)
    ensures
        e.spec_next_without_pulse() == if e.spec_next() == Effect::Pulse {
            Effect::Pulse.spec_next()
        } else {
            e.spec_next()
        },
        Effect::Palette.spec_next_without_pulse() == Effect::Rainbow,
        Effect::Rainbow.spec_next_without_pulse() == Effect::LarsonScanner,
        Effect::LarsonScanner.spec_next_without_pulse() == Effect::Off,
        Effect::Off.spec_next_without_pulse() == Effect::Palette,
{
}

/// Five effect changes bring the LED library's cycle back to the same effect,
/// and every effect is visited on the way.
pub proof fn law_effect_cycle(e: Effect)
    ensures
        e.spec_next().spec_next().spec_next().spec_next().spec_next() == e,
        e.spec_next() != e,
        Effect::Palette.spec_next() == Effect::Rainbow,
        Effect::Rainbow.spec_next() == Effect::Pulse,
        Effect::Pulse.spec_next() == Effect::LarsonScanner,
        Effect::LarsonScanner.spec_next() == Effect::Off,
        Effect::Off.spec_next() == Effect::Palette,
{
}

/// The firmware's cycle has four effects and never enters the pulse effect.
pub proof fn law_effect_cycle_without_pulse(e: Effect)
    ensures
        e != Effect::Pulse ==> e.spec_next_without_pulse().spec_next_without_pulse().spec_next_without_pulse().spec_next_without_pulse()
            == e,
        e.spec_next_without_pulse() != Effect::Pulse,
{
}

} // verus!
