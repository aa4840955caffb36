use cubeled::adxl362::Status;
use cubeled::led_control::LedCommand;
use cubeled::sleep_control::{classify_wakeup, ResetKind, WakeReason, WakeupCause};
use cubeled::tasks::{
    ip_after_wait, press_action, ButtonAction, InactivityTimer, IpOutcome, Ipv4Addr, Ipv4Cidr,
    StaticIpv4, WifiAction, WifiControl, WifiEvent, WifiPhase, INACTIVITY_OFF_TICKS,
};

fn status(act: bool, inact: bool) -> Status {
    Status { data_ready: false, awake: false, act, inact }
}

#[test]
fn short_and_long_presses() {
    assert_eq!(press_action(true), ButtonAction::NextEffect);
    assert_eq!(press_action(false), ButtonAction::ToggleWifi);
}

#[test]
fn leds_turn_off_on_the_tick_after_the_countdown() {
    let mut timer = InactivityTimer::new();
    assert_eq!(timer.on_status(status(false, true)), None);
    for _ in 0..INACTIVITY_OFF_TICKS {
        assert_eq!(timer.on_tick(), None);
    }
    assert_eq!(timer.on_tick(), Some(LedCommand::SetEnabled(false)));
    assert_eq!(timer.on_tick(), None);
}

#[test]
fn activity_cancels_the_countdown() {
    let mut timer = InactivityTimer::new();
    timer.on_status(status(false, true));
    for _ in 0..50 {
        timer.on_tick();
    }
    assert_eq!(timer.on_status(status(true, false)), Some(LedCommand::SetEnabled(true)));
    for _ in 0..200 {
        assert_eq!(timer.on_tick(), None);
    }
}

#[test]
fn activity_and_inactivity_together_start_the_countdown() {
    let mut timer = InactivityTimer::new();
    assert_eq!(timer.on_status(status(true, true)), Some(LedCommand::SetEnabled(true)));
    for _ in 0..INACTIVITY_OFF_TICKS {
        assert_eq!(timer.on_tick(), None);
    }
    assert_eq!(timer.on_tick(), Some(LedCommand::SetEnabled(false)));
}

#[test]
fn wifi_connects_retries_and_toggles_off() {
    let (mut wifi, start) = WifiControl::start();
    assert_eq!(start, vec![WifiAction::Show(LedCommand::ShowWifiConnecting), WifiAction::StartRadio]);
    assert_eq!(wifi.handle(WifiEvent::ConnectFailed), vec![]);
    assert_eq!(wifi.phase(), WifiPhase::RetryWait);
    assert_eq!(wifi.handle(WifiEvent::RetryElapsed), vec![]);
    assert_eq!(wifi.phase(), WifiPhase::Connecting);
    assert_eq!(wifi.handle(WifiEvent::ConnectSucceeded), vec![]);
    assert_eq!(wifi.phase(), WifiPhase::WaitingForIp);
    assert_eq!(
        wifi.handle(WifiEvent::IpAcquired),
        vec![WifiAction::Show(LedCommand::ShowWifiConnected)]
    );
    assert_eq!(wifi.phase(), WifiPhase::Online);
    assert_eq!(
        wifi.handle(WifiEvent::Toggle),
        vec![
            WifiAction::StopRadio,
            WifiAction::Show(LedCommand::ShowWifiOff),
            WifiAction::Pause(1000),
            WifiAction::Show(LedCommand::ResumeAnimation),
        ]
    );
    assert_eq!(wifi.phase(), WifiPhase::Idle);
    assert_eq!(
        wifi.handle(WifiEvent::Toggle),
        vec![WifiAction::Show(LedCommand::ShowWifiConnecting), WifiAction::StartRadio]
    );
    assert_eq!(wifi.phase(), WifiPhase::Connecting);
}

#[test]
fn wifi_reconnects_when_the_link_drops() {
    let (mut wifi, _) = WifiControl::start();
    wifi.handle(WifiEvent::ConnectSucceeded);
    wifi.handle(WifiEvent::IpAcquired);
    assert_eq!(
        wifi.handle(WifiEvent::Disconnected),
        vec![WifiAction::Show(LedCommand::ShowWifiConnecting), WifiAction::StartRadio]
    );
    assert_eq!(wifi.phase(), WifiPhase::Connecting);
}

#[test]
fn idle_wifi_ignores_everything_but_a_toggle() {
    let (mut wifi, _) = WifiControl::start();
    wifi.handle(WifiEvent::Toggle);
    assert_eq!(wifi.handle(WifiEvent::Disconnected), vec![]);
    assert_eq!(wifi.phase(), WifiPhase::Idle);
}

#[test]
fn static_ip_fallback() {
    assert_eq!(ip_after_wait(true), IpOutcome::Dhcp);
    assert_eq!(
        ip_after_wait(false),
        IpOutcome::Static(StaticIpv4 {
            address: Ipv4Cidr { address: Ipv4Addr { a: 192, b: 168, c: 137, d: 50 }, prefix_len: 24 },
            gateway: Ipv4Addr { a: 192, b: 168, c: 137, d: 1 },
        })
    );
}

#[test]
fn wakeup_classification() {
    assert_eq!(
        classify_wakeup(Some(ResetKind::CoreDeepSleep), WakeupCause::Timer),
        WakeReason::TimerElapsed
    );
    assert_eq!(
        classify_wakeup(Some(ResetKind::CoreDeepSleep), WakeupCause::Other),
        WakeReason::Activity
    );
    assert_eq!(classify_wakeup(Some(ResetKind::Other), WakeupCause::Timer), WakeReason::ColdBoot);
    assert_eq!(classify_wakeup(None, WakeupCause::Other), WakeReason::ColdBoot);
}
