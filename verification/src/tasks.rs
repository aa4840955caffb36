//! The decisions of the firmware's background tasks: the button, the motion
//! sensor, and the Wi-Fi connection.
//!
//! Each task is a state machine: the firmware waits for an event, hands it to
//! the machine, and performs the actions it returns.
use vstd::prelude::*;
use crate::adxl362::Status;
use crate::led_control::LedCommand;

verus! {

/// A press held at least this long toggles Wi-Fi instead of changing effect.
pub const LONG_PRESS_MILLIS: u64 = 1000;

/// What a button press does.
#[derive(Debug, Clone, Copy, PartialEq, Eq, Structural)]
pub enum ButtonAction {
    /// Short press: show the next effect.
    NextEffect,
    /// Long press: toggle Wi-Fi and OTA on or off (then wait for the release,
    /// so it is not also counted as a short press).
    ToggleWifi,
}

/// Classifies a press by whether the button came back up within
/// [`LONG_PRESS_MILLIS`].
pub fn press_action(released_in_time: bool) -> (r: ButtonAction)
    ensures
        r == (if released_in_time {
            ButtonAction::NextEffect
        } else {
            ButtonAction::ToggleWifi
        }),
{
    if released_in_time {
        ButtonAction::NextEffect
    } else {
        ButtonAction::ToggleWifi
    }
}

/// Milliseconds between sensor ticks.
pub const SENSOR_TICK_MILLIS: u64 = 100;

/// Ticks of continued inactivity before the LEDs turn off (ten seconds).
pub const INACTIVITY_OFF_TICKS: u32 = 100;

/// The spec of one tick of [`InactivityTimer`]: a running countdown goes down
/// by one, and when it has run out the LEDs are disabled.
pub open spec fn tick_spec(ticks: Option<u32>) -> (Option<u32>, Option<LedCommand>) {
    match ticks {
        Some(0) => (None, Some(LedCommand::SetEnabled(false))),
        Some(n) => (Some((n - 1) as u32), None),
        None => (None, None),
    }
}

/// The countdown after `n` ticks.
pub open spec fn ticks_after(ticks: Option<u32>, n: nat) -> Option<u32>
    decreases n,
{
    if n == 0 {
        ticks
    } else {
        tick_spec(ticks_after(ticks, (n - 1) as nat)).0
    }
}

/// Turns the LEDs on at motion and off after a stretch of inactivity.
pub struct InactivityTimer {
    ticks: Option<u32>,
}

impl InactivityTimer {
    /// Ticks left before the LEDs turn off, if the countdown is running.
    pub closed spec fn spec_ticks(&self) -> Option<u32> {
        self.ticks
    }

    pub fn new() -> (r: Self)
        ensures
            r.spec_ticks() is None,
    {
        InactivityTimer { ticks: None }
    }

    /// Handles an interrupt from the sensor: activity stops the countdown and
    /// enables the LEDs, inactivity (re)starts the countdown; when both are
    /// reported, the countdown starts.
    pub fn on_status(&mut self, status: Status) -> (r: Option<LedCommand>)
        ensures
            final(self).spec_ticks() == (if status.inact {
                Some(INACTIVITY_OFF_TICKS)
            } else if status.act {
                None
            } else {
                old(self).spec_ticks()
            }),
            r == (if status.act {
                Some(LedCommand::SetEnabled(true))
            } else {
                None
            }),
    {
        let mut command: Option<LedCommand> = None;
        if status.act {
            self.ticks = None;
            command = Some(LedCommand::SetEnabled(true));
        }
        if status.inact {
            self.ticks = Some(INACTIVITY_OFF_TICKS);
        }
        command
    }

    /// Handles a tick (see [`tick_spec`]).
    pub fn on_tick(&mut self) -> (r: Option<LedCommand>)
        ensures
            (final(self).spec_ticks(), r) == tick_spec(old(self).spec_ticks()),
    {
        match self.ticks {
            Some(0) => {
                self.ticks = None;
                Some(LedCommand::SetEnabled(false))
            },
            Some(n) => {
                self.ticks = Some(n - 1);
                None
            },
            None => None,
        }
    }
}

/// Where the Wi-Fi task is waiting.
#[derive(Debug, Clone, Copy, PartialEq, Eq, Structural)]
pub enum WifiPhase {
    /// A connection attempt is under way (or a long press).
    Connecting,
    /// The last attempt failed; waiting [`WIFI_RETRY_MILLIS`] (or a long press).
    RetryWait,
    /// Connected; waiting for an IP address (or a long press).
    WaitingForIp,
    /// Online; waiting for the access point to drop the link (or a long press).
    Online,
    /// Wi-Fi is off; waiting for a long press.
    Idle,
}

/// What the Wi-Fi task was waiting for has happened.
#[derive(Debug, Clone, Copy, PartialEq, Eq, Structural)]
pub enum WifiEvent {
    ConnectSucceeded,
    ConnectFailed,
    RetryElapsed,
    IpAcquired,
    Disconnected,
    Toggle,
}

/// Something the Wi-Fi task does at once.
#[derive(Debug, Clone, Copy, PartialEq, Eq, Structural)]
pub enum WifiAction {
    /// Send a command to the LED task.
    Show(LedCommand),
    /// Configure the station with the network's credentials and start it.
    StartRadio,
    /// Disconnect and stop the station.
    StopRadio,
    /// Wait this many milliseconds.
    Pause(u64),
}

/// Milliseconds between connection attempts.
pub const WIFI_RETRY_MILLIS: u64 = 5000;

/// How long the "Wi-Fi off" colour shows before the animation resumes.
pub const WIFI_OFF_MILLIS: u64 = 1000;

/// Whether Wi-Fi is on in a phase.
pub open spec fn wifi_active(p: WifiPhase) -> bool {
    p != WifiPhase::Idle
}

/// Turning Wi-Fi on: show "connecting", start the station.
pub open spec fn start_actions() -> Seq<WifiAction> {
    seq![WifiAction::Show(LedCommand::ShowWifiConnecting), WifiAction::StartRadio]
}

/// Turning Wi-Fi off: stop the station, show "off" for a second, then let
/// the animation resume.
pub open spec fn stop_actions() -> Seq<WifiAction> {
    seq![
        WifiAction::StopRadio,
        WifiAction::Show(LedCommand::ShowWifiOff),
        WifiAction::Pause(WIFI_OFF_MILLIS),
        WifiAction::Show(LedCommand::ResumeAnimation),
    ]
}

/// One step of the Wi-Fi task: the next phase and the actions on the way.
/// Events a phase does not wait for change nothing.
pub open spec fn wifi_step(p: WifiPhase, e: WifiEvent) -> (WifiPhase, Seq<WifiAction>) {
    match (p, e) {
        (WifiPhase::Idle, WifiEvent::Toggle) => (WifiPhase::Connecting, start_actions()),
        (WifiPhase::Idle, _) => (WifiPhase::Idle, seq![]),
        (_, WifiEvent::Toggle) => (WifiPhase::Idle, stop_actions()),
        (WifiPhase::Connecting, WifiEvent::ConnectSucceeded) => (WifiPhase::WaitingForIp, seq![]),
        (WifiPhase::Connecting, WifiEvent::ConnectFailed) => (WifiPhase::RetryWait, seq![]),
        (WifiPhase::RetryWait, WifiEvent::RetryElapsed) => (WifiPhase::Connecting, seq![]),
        (WifiPhase::WaitingForIp, WifiEvent::IpAcquired) => (
            WifiPhase::Online,
            seq![WifiAction::Show(LedCommand::ShowWifiConnected)],
        ),
        (WifiPhase::Online, WifiEvent::Disconnected) => (WifiPhase::Connecting, start_actions()),
        _ => (p, seq![]),
    }
}

/// The Wi-Fi task, which owns the station for the whole run and switches it
/// on and off at each long press.
pub struct WifiControl {
    phase: WifiPhase,
}

impl WifiControl {
    pub closed spec fn spec_phase(&self) -> WifiPhase {
        self.phase
    }

    /// The task starts by turning Wi-Fi on.
    pub fn start() -> (r: (Self, Vec<WifiAction>))
        ensures
            r.0.spec_phase() == WifiPhase::Connecting,
            r.1@ == start_actions(),
    {
        let mut actions: Vec<WifiAction> = Vec::new();
        actions.push(WifiAction::Show(LedCommand::ShowWifiConnecting));
        actions.push(WifiAction::StartRadio);
        assert(actions@ =~= start_actions());
        (WifiControl { phase: WifiPhase::Connecting }, actions)
    }

    pub fn phase(&self) -> (r: WifiPhase)
        ensures
            r == self.spec_phase(),
    {
        self.phase
    }

    pub fn handle(&mut self, event: WifiEvent) -> (r: Vec<WifiAction>)
        ensures
            (final(self).spec_phase(), r@) == wifi_step(old(self).spec_phase(), event),
    {
        let mut actions: Vec<WifiAction> = Vec::new();
        let next = match (self.phase, event) {
            (WifiPhase::Idle, WifiEvent::Toggle) => {
                actions.push(WifiAction::Show(LedCommand::ShowWifiConnecting));
                actions.push(WifiAction::StartRadio);
                WifiPhase::Connecting
            },
            (WifiPhase::Idle, _) => WifiPhase::Idle,
            (_, WifiEvent::Toggle) => {
                actions.push(WifiAction::StopRadio);
                actions.push(WifiAction::Show(LedCommand::ShowWifiOff));
                actions.push(WifiAction::Pause(WIFI_OFF_MILLIS));
                actions.push(WifiAction::Show(LedCommand::ResumeAnimation));
                WifiPhase::Idle
            },
            (WifiPhase::Connecting, WifiEvent::ConnectSucceeded) => WifiPhase::WaitingForIp,
            (WifiPhase::Connecting, WifiEvent::ConnectFailed) => WifiPhase::RetryWait,
            (WifiPhase::RetryWait, WifiEvent::RetryElapsed) => WifiPhase::Connecting,
            (WifiPhase::WaitingForIp, WifiEvent::IpAcquired) => {
                actions.push(WifiAction::Show(LedCommand::ShowWifiConnected));
                WifiPhase::Online
            },
            (WifiPhase::Online, WifiEvent::Disconnected) => {
                actions.push(WifiAction::Show(LedCommand::ShowWifiConnecting));
                actions.push(WifiAction::StartRadio);
                WifiPhase::Connecting
            },
            (p, _) => p,
        };
        self.phase = next;
        proof {
            let (sp, sa) = wifi_step(old(self).spec_phase(), event);
            assert(actions@ =~= sa);
        }
        actions
    }
}

/// How long to wait for a DHCP lease before falling back to a static address.
pub const DHCP_TIMEOUT_SECS: u64 = 30;

/// An IPv4 address, most significant octet first.
#[derive(Debug, Clone, Copy, PartialEq, Eq, Structural)]
pub struct Ipv4Addr {
    pub a: u8,
    pub b: u8,
    pub c: u8,
    pub d: u8,
}

/// An IPv4 address with its prefix length.
#[derive(Debug, Clone, Copy, PartialEq, Eq, Structural)]
pub struct Ipv4Cidr {
    pub address: Ipv4Addr,
    pub prefix_len: u8,
}

/// A static IPv4 configuration.
#[derive(Debug, Clone, Copy, PartialEq, Eq, Structural)]
pub struct StaticIpv4 {
    pub address: Ipv4Cidr,
    pub gateway: Ipv4Addr,
}

/// How the device got its address.
#[derive(Debug, Clone, Copy, PartialEq, Eq, Structural)]
pub enum IpOutcome {
    /// A DHCP lease arrived in time.
    Dhcp,
    /// No lease within [`DHCP_TIMEOUT_SECS`] (e.g. an access point with no
    /// DHCP server): use this static configuration.
    Static(StaticIpv4),
}

pub open spec fn static_fallback_spec() -> StaticIpv4 {
    StaticIpv4 {
        address: Ipv4Cidr { address: Ipv4Addr { a: 192, b: 168, c: 137, d: 50 }, prefix_len: 24 },
        gateway: Ipv4Addr { a: 192, b: 168, c: 137, d: 1 },
    }
}

/// Decides the address after waiting for DHCP.
pub fn ip_after_wait(lease_arrived: bool) -> (r: IpOutcome)
    ensures
        r == (if lease_arrived {
            IpOutcome::Dhcp
        } else {
            IpOutcome::Static(static_fallback_spec())
        }),
{
    if lease_arrived {
        IpOutcome::Dhcp
    } else {
        IpOutcome::Static(
            StaticIpv4 {
                address: Ipv4Cidr { address: Ipv4Addr { a: 192, b: 168, c: 137, d: 50 }, prefix_len: 24 },
                gateway: Ipv4Addr { a: 192, b: 168, c: 137, d: 1 },
            },
        )
    }
}

/// After inactivity is reported the LEDs stay on for [`INACTIVITY_OFF_TICKS`]
/// more ticks: a countdown from `k` counts down for `k` ticks without
/// sending anything, its `k + 1`-th tick disables the LEDs, and it is then
/// stopped.
pub proof fn law_inactivity_countdown(k: u32, j: nat)
    ensures
        j <= k ==> ticks_after(Some(k), j) == Some((k - j) as u32),
        j <= k ==> tick_spec(ticks_after(Some(k), j)).1 == (if j == k {
            Some(LedCommand::SetEnabled(false))
        } else {
            None::<LedCommand>
        }),
        j > k ==> ticks_after(Some(k), j) is None,
        j > k ==> tick_spec(ticks_after(Some(k), j)).1 is None,
    decreases j,
{
    if j > 0 {
        law_inactivity_countdown(k, (j - 1) as nat);
    }
}

/// Each long press toggles Wi-Fi: from off it turns it on (showing
/// "connecting"), from any on phase it turns it off (showing "off", then
/// resuming the animation).
pub proof fn law_wifi_toggle_alternates(p: WifiPhase)
    ensures
        wifi_active(wifi_step(p, WifiEvent::Toggle).0) == !wifi_active(p),
        !wifi_active(p) ==> wifi_step(p, WifiEvent::Toggle).1 == start_actions(),
        wifi_active(p) ==> wifi_step(p, WifiEvent::Toggle).1 == stop_actions(),
{
}

/// Only a long press turns Wi-Fi off: no other event leaves an on phase for
/// the off phase, and no other event turns it on.
pub proof fn law_wifi_only_toggle_switches(p: WifiPhase, e: WifiEvent)
    requires
        e != WifiEvent::Toggle,
    ensures
        wifi_active(wifi_step(p, e).0) == wifi_active(p),
{
}

} // verus!
