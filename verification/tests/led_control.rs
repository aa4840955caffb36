use cubeled::color::Rgb8;
use cubeled::led_control::{
    beattri8_clamped, black, blue, green, meander_index, rainbow_phase, rainbow_time_hue, red,
    yellow, AfterCommand, Effect, LedCommand, LedControl, LedTask, NUM_LEDS,
};

#[test]
fn meander_reverses_odd_rows() {
    assert_eq!(meander_index(0), 0);
    assert_eq!(meander_index(4), 4);
    assert_eq!(meander_index(5), 9);
    assert_eq!(meander_index(9), 5);
    assert_eq!(meander_index(10), 10);
    assert_eq!(meander_index(149), 145);
    for i in 0..NUM_LEDS {
        assert_eq!(meander_index(meander_index(i)), i);
    }
}

#[test]
fn pulse_is_a_clamped_triangle() {
    assert_eq!(beattri8_clamped(15, 45, 0, 0), 0);
    assert_eq!(beattri8_clamped(15, 45, 0, 500), 23);
    assert_eq!(beattri8_clamped(15, 45, 0, 999), 45);
    assert_eq!(beattri8_clamped(15, 45, 0, 1500), 22);
    assert_eq!(beattri8_clamped(15, 45, 0, 2000), 0);
    assert_eq!(beattri8_clamped(15, 45, 0, 3000), 0);
}

#[test]
fn pulse_frame_fills_red_at_the_pulse_level() {
    let mut control = LedControl::new();
    let frame = control.pulse_frame(999);
    assert_eq!(frame.len(), NUM_LEDS);
    assert!(frame.iter().all(|c| *c == Rgb8 { r: 45, g: 0, b: 0 }));
}

#[test]
fn new_control_is_dark() {
    let control = LedControl::new();
    assert_eq!(control.led_colors().len(), NUM_LEDS);
    assert!(control.led_colors().iter().all(|c| *c == black()));
}

#[test]
fn fill_repeats_the_color() {
    let mut control = LedControl::new();
    let frame = control.fill(yellow());
    assert_eq!(frame.len(), NUM_LEDS);
    assert!(frame.iter().all(|c| *c == Rgb8 { r: 30, g: 30, b: 0 }));
}

#[test]
fn larson_scanner_draws_and_fades_its_trail() {
    let mut control = LedControl::new();
    let first = control.larson_scanner_frame();
    assert_eq!(first[0], Rgb8 { r: 45, g: 0, b: 0 });
    assert!(first[1..].iter().all(|c| *c == black()));
    let second = control.larson_scanner_frame();
    assert_eq!(second[0], Rgb8 { r: 34, g: 0, b: 0 });
    assert_eq!(second[1], Rgb8 { r: 45, g: 0, b: 0 });
    assert_eq!(control.led_colors(), &second);
}

#[test]
fn larson_scanner_follows_the_serpentine_and_turns_round() {
    let mut control = LedControl::new();
    let mut frame = Vec::new();
    for _ in 0..6 {
        frame = control.larson_scanner_frame();
    }
    // The sixth frame draws logical LED 5, which sits at strip position 9.
    assert_eq!(frame[9], Rgb8 { r: 45, g: 0, b: 0 });
    for _ in 6..NUM_LEDS {
        frame = control.larson_scanner_frame();
    }
    // The 150th frame draws the last LED (logical 149, strip position 145);
    // the next frame turns round and draws logical 148 (strip position 146).
    assert_eq!(frame[145], Rgb8 { r: 45, g: 0, b: 0 });
    frame = control.larson_scanner_frame();
    assert_eq!(frame[146], Rgb8 { r: 45, g: 0, b: 0 });
}

#[test]
fn palette_frame_walks_the_rainbow_palette() {
    let mut control = LedControl::new();
    let first = control.palette_frame();
    assert_eq!(first.len(), NUM_LEDS);
    assert_eq!(first[0], Rgb8 { r: 46, g: 0, b: 0 });
    let second = control.palette_frame();
    // The time index moved on by one: LED 0 now shows what LED 1 showed.
    assert_eq!(second[0], first[1]);
    assert_eq!(second[148], first[149]);
}

#[test]
fn rainbow_frame_scales_hues() {
    let mut control = LedControl::new();
    let frame = control.rainbow_frame(0, &vec![0, 0]);
    assert_eq!(frame, vec![Rgb8 { r: 45, g: 0, b: 0 }, Rgb8 { r: 45, g: 0, b: 0 }]);
    assert_eq!(rainbow_time_hue(1000), 25);
    assert_eq!(rainbow_time_hue(10240), 0);
    let shifted = control.rainbow_frame(10240, &vec![0]);
    assert_eq!(shifted, vec![Rgb8 { r: 45, g: 0, b: 0 }]);
}

#[test]
fn rainbow_phase_is_sine_and_cosine() {
    assert_eq!(rainbow_phase(0), (0, 32645));
    assert_eq!(rainbow_phase(65536), (0, 32645));
    assert_eq!(rainbow_phase(16384).0, 32645);
}

#[test]
fn effects_cycle_through_all_five() {
    let mut e = Effect::Palette;
    let mut seen = Vec::new();
    for _ in 0..5 {
        seen.push(e);
        e = e.next();
    }
    assert_eq!(e, Effect::Palette);
    assert_eq!(
        seen,
        vec![Effect::Palette, Effect::Rainbow, Effect::Pulse, Effect::LarsonScanner, Effect::Off]
    );
    assert_eq!(Effect::Rainbow.next_without_pulse(), Effect::LarsonScanner);
}

#[test]
fn led_task_starts_running_on_rainbow() {
    let task = LedTask::new();
    assert_eq!(task.effect(), Effect::Rainbow);
    assert!(task.running());
}

#[test]
fn status_colours_pause_rendering_until_resumed() {
    let mut task = LedTask::new();
    let a = task.handle_command(LedCommand::ShowWifiConnecting);
    assert_eq!(a.fill, Some(yellow()));
    assert_eq!(a.after, AfterCommand::KeepStatusColor);
    assert!(!task.running());
    let b = task.handle_command(LedCommand::SetEnabled(true));
    assert_eq!(b.fill, None);
    assert_eq!(b.after, AfterCommand::KeepStatusColor);
    let c = task.handle_command(LedCommand::ShowWifiConnected);
    assert_eq!(c.fill, Some(green()));
    let d = task.handle_command(LedCommand::ShowWifiOff);
    assert_eq!(d.fill, Some(red()));
    let e = task.handle_command(LedCommand::ResumeAnimation);
    assert_eq!(e.after, AfterCommand::ResetTicker);
    assert!(task.running());
    assert_eq!(task.effect(), Effect::Rainbow);
}

#[test]
fn ota_status_colours() {
    let mut task = LedTask::new();
    assert_eq!(task.handle_command(LedCommand::ShowOtaInProgress).fill, Some(blue()));
    assert_eq!(task.handle_command(LedCommand::ShowOtaSuccess).fill, Some(black()));
    assert!(!task.running());
}

#[test]
fn disabling_or_switching_off_blanks_the_strip() {
    let mut task = LedTask::new();
    let a = task.handle_command(LedCommand::SetEnabled(false));
    assert_eq!(a.after, AfterCommand::Blank);
    assert!(!task.running());
    let b = task.handle_command(LedCommand::SetEnabled(true));
    assert_eq!(b.after, AfterCommand::ResetTicker);
    // Rainbow -> Pulse -> LarsonScanner -> Off
    task.handle_command(LedCommand::NextEffect);
    task.handle_command(LedCommand::NextEffect);
    let off = task.handle_command(LedCommand::NextEffect);
    assert_eq!(task.effect(), Effect::Off);
    assert_eq!(off.after, AfterCommand::Blank);
    let palette = task.handle_command(LedCommand::NextEffect);
    assert_eq!(task.effect(), Effect::Palette);
    assert_eq!(palette.after, AfterCommand::ResetTicker);
}

#[test]
fn next_effect_ends_a_status_display() {
    let mut task = LedTask::new_without_pulse();
    task.handle_command(LedCommand::ShowWifiConnected);
    let a = task.handle_command(LedCommand::NextEffect);
    assert_eq!(task.effect(), Effect::LarsonScanner);
    assert_eq!(a.after, AfterCommand::ResetTicker);
    assert!(task.running());
}

#[test]
fn larson_scanner_repeats_every_round_trip() {
    let mut control = LedControl::new();
    let mut frame = Vec::new();
    for _ in 0..150 {
        frame = control.larson_scanner_frame();
    }
    assert_eq!(frame[meander_index(149)], Rgb8 { r: 45, g: 0, b: 0 });
    for _ in 150..299 {
        frame = control.larson_scanner_frame();
    }
    assert_eq!(frame[meander_index(0)], Rgb8 { r: 45, g: 0, b: 0 });
    frame = control.larson_scanner_frame();
    assert_eq!(frame[meander_index(1)], Rgb8 { r: 45, g: 0, b: 0 });
    assert_eq!(frame[meander_index(0)], Rgb8 { r: 34, g: 0, b: 0 });
}

#[test]
fn larson_trail_fades_once_per_frame() {
    let mut control = LedControl::new();
    let mut frame = Vec::new();
    for _ in 0..3 {
        frame = control.larson_scanner_frame();
    }
    assert_eq!(frame[meander_index(2)], Rgb8 { r: 45, g: 0, b: 0 });
    assert_eq!(frame[meander_index(1)], Rgb8 { r: 34, g: 0, b: 0 });
    assert_eq!(frame[meander_index(0)], Rgb8 { r: 25, g: 0, b: 0 });
    assert!(frame[3..].iter().all(|c| *c == black()));
}
