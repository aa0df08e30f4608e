//! Power and idle status, and the profile by which the agent paces itself.

use crate::text::{
    chars_of, is_text, number, opt_view, parse_number, same_str, trim, trimmed, views,
};
use crate::types::PowerState;
use vstd::prelude::*;
use vstd::string::*;

verus! {

// ---------------------------------------------------------------------
// Power source
// ---------------------------------------------------------------------

/// What the `online` file of a power supply says.
pub open spec fn online_state(contents: Seq<char>) -> PowerState {
    let t = trimmed(contents);
    if t == "1"@ {
        PowerState::AC
    } else if t == "0"@ {
        PowerState::Battery
    } else {
        PowerState::Unknown
    }
}

fn read_online(contents: &str) -> (r: PowerState)
    ensures
        r == online_state(contents@),
{
    let chars = chars_of(contents);
    let t = trim(chars.as_slice());
    if is_text(t, "1") {
        PowerState::AC
    } else if is_text(t, "0") {
        PowerState::Battery
    } else {
        PowerState::Unknown
    }
}

/// The state that the first supply from the `i`-th on tells which tells one.
pub open spec fn first_online(supplies: Seq<Seq<char>>, i: int) -> PowerState
    decreases supplies.len() - i,
{
    if i < 0 || i >= supplies.len() {
        PowerState::Unknown
    } else if online_state(supplies[i]) != PowerState::Unknown {
        online_state(supplies[i])
    } else {
        first_online(supplies, i + 1)
    }
}

/// The power state of a Linux host. The supply named `AC` decides alone
/// where its file can be read; otherwise the first supply that tells.
pub open spec fn linux_state(ac: Option<Seq<char>>, supplies: Seq<Seq<char>>) -> PowerState {
    match ac {
        Some(s) => online_state(s),
        None => first_online(supplies, 0),
    }
}

/// The power state of a Linux host: `ac_online` is the file of the supply
/// named `AC`, `supplies` are those of all supplies, as far as they could
/// be read.
pub fn linux_power_state(ac_online: &Option<String>, supplies: &Vec<String>) -> (r: PowerState)
    ensures
        r == linux_state(opt_view(*ac_online), views(supplies@)),
{
    match ac_online {
        Some(s) => read_online(s.as_str()),
        None => {
            let ghost want = views(supplies@);
            let mut i: usize = 0;
            while i < supplies.len()
                invariant
                    i <= supplies@.len(),
                    want == views(supplies@),
                    first_online(want, 0) == first_online(want, i as int),
                    *ac_online is None,
                decreases supplies@.len() - i,
            {
                assert(want[i as int] == supplies@[i as int]@);
                let state = read_online(supplies[i].as_str());
                if state != PowerState::Unknown {
                    return state;
                }
                i += 1;
            }
            PowerState::Unknown
        },
    }
}

/// The charge that the first file from the `i`-th on tells which tells one.
pub open spec fn first_capacity(files: Seq<Seq<char>>, i: int) -> Option<nat>
    decreases files.len() - i,
{
    if i < 0 || i >= files.len() {
        None
    } else {
        match number(trimmed(files[i]), 10, 255) {
            Some(n) => Some(n),
            None => first_capacity(files, i + 1),
        }
    }
}

/// The charge of the battery of a Linux host, in percent: `capacities` are
/// the files of the supplies, as far as they could be read.
pub fn linux_battery_percentage(capacities: &Vec<String>) -> (r: Option<u8>)
    ensures
        match r {
            Some(n) => first_capacity(views(capacities@), 0) == Some(n as nat),
            None => first_capacity(views(capacities@), 0) is None,
        },
{
    let ghost want = views(capacities@);
    let mut i: usize = 0;
    while i < capacities.len()
        invariant
            i <= capacities@.len(),
            want == views(capacities@),
            first_capacity(want, 0) == first_capacity(want, i as int),
        decreases capacities@.len() - i,
    {
        assert(want[i as int] == capacities@[i as int]@);
        let chars = chars_of(capacities[i].as_str());
        match parse_number(trim(chars.as_slice()), 10, 255) {
            Some(n) => {
                return Some(n as u8);
            },
            None => {},
        }
        i += 1;
    }
    None
}

/// The power state that the first power source from the `i`-th on tells
/// which tells one.
pub open spec fn first_source(states: Seq<Seq<char>>, i: int) -> PowerState
    decreases states.len() - i,
{
    if i < 0 || i >= states.len() {
        PowerState::Unknown
    } else if states[i] == "AC Power"@ {
        PowerState::AC
    } else if states[i] == "Battery Power"@ {
        PowerState::Battery
    } else {
        first_source(states, i + 1)
    }
}

/// The power state of a macOS host: `states` are the states of its power
/// sources.
pub fn macos_power_state(states: &Vec<String>) -> (r: PowerState)
    ensures
        r == first_source(views(states@), 0),
{
    let ghost want = views(states@);
    let mut i: usize = 0;
    while i < states.len()
        invariant
            i <= states@.len(),
            want == views(states@),
            first_source(want, 0) == first_source(want, i as int),
        decreases states@.len() - i,
    {
        assert(want[i as int] == states@[i as int]@);
        if same_str(states[i].as_str(), "AC Power") {
            return PowerState::AC;
        }
        if same_str(states[i].as_str(), "Battery Power") {
            return PowerState::Battery;
        }
        i += 1;
    }
    PowerState::Unknown
}

/// The first charge from the `i`-th on that is a percentage.
pub open spec fn first_percentage(capacities: Seq<i64>, i: int) -> Option<u8>
    decreases capacities.len() - i,
{
    if i < 0 || i >= capacities.len() {
        None
    } else if 0 <= capacities[i] <= 100 {
        Some(capacities[i] as u8)
    } else {
        first_percentage(capacities, i + 1)
    }
}

/// The charge of the battery of a macOS host, in percent.
pub fn macos_battery_percentage(capacities: &Vec<i64>) -> (r: Option<u8>)
    ensures
        r == first_percentage(capacities@, 0),
{
    let mut i: usize = 0;
    while i < capacities.len()
        invariant
            i <= capacities@.len(),
            first_percentage(capacities@, 0) == first_percentage(capacities@, i as int),
        decreases capacities@.len() - i,
    {
        let pct: i64 = capacities[i];
        if 0 <= pct && pct <= 100 {
            return Some(pct as u8);
        }
        i += 1;
    }
    None
}

/// Power status of a Windows host.
#[derive(Debug, Clone, Copy, PartialEq, Eq, Structural)]
pub struct WindowsPowerStatus {
    pub ac_line_status: u8,
    pub battery_life_percent: u8,
}

/// The power state of a Windows host; `None` where the status could not be
/// had.
pub open spec fn windows_state(status: Option<WindowsPowerStatus>) -> PowerState {
    match status {
        Some(s) => if s.ac_line_status == 1 {
            PowerState::AC
        } else if s.ac_line_status == 0 {
            PowerState::Battery
        } else {
            PowerState::Unknown
        },
        None => PowerState::Unknown,
    }
}

/// The power state of a Windows host.
pub fn windows_power_state(status: Option<WindowsPowerStatus>) -> (r: PowerState)
    ensures
        r == windows_state(status),
{
    match status {
        Some(s) => if s.ac_line_status == 1 {
            PowerState::AC
        } else if s.ac_line_status == 0 {
            PowerState::Battery
        } else {
            PowerState::Unknown
        },
        None => PowerState::Unknown,
    }
}

/// The charge of the battery of a Windows host, in percent; 255 stands for
/// an unknown charge.
pub open spec fn windows_charge(status: Option<WindowsPowerStatus>) -> Option<u8> {
    match status {
        Some(s) => if s.battery_life_percent == 255 {
            None
        } else {
            Some(s.battery_life_percent)
        },
        None => None,
    }
}

/// The charge of the battery of a Windows host, in percent.
pub fn windows_battery_percentage(status: Option<WindowsPowerStatus>) -> (r: Option<u8>)
    ensures
        r == windows_charge(status),
{
    match status {
        Some(s) => if s.battery_life_percent == 255 {
            None
        } else {
            Some(s.battery_life_percent)
        },
        None => None,
    }
}

// ---------------------------------------------------------------------
// Idle time
// ---------------------------------------------------------------------

/// How long a session has been idle, in microseconds, by the point in time
/// since which it is idle, if that is one. 0 stands for a session in use; a
/// point in the future tells nothing.
pub open spec fn idle_time(raw: Seq<char>, now_usec: nat) -> Option<nat> {
    match number(trimmed(raw), 10, u64::MAX as nat) {
        None => None,
        Some(since) => if since == 0 {
            Some(0)
        } else if since > now_usec || now_usec - since > u64::MAX {
            None
        } else {
            Some((now_usec - since) as nat)
        },
    }
}

/// How long a session has been idle, in microseconds.
pub fn parse_idle_since_hint(raw: &str, now_usec: u128) -> (r: Option<u64>)
    ensures
        match r {
            Some(n) => idle_time(raw@, now_usec as nat) == Some(n as nat),
            None => idle_time(raw@, now_usec as nat) is None,
        },
{
    let chars = chars_of(raw);
    match parse_number(trim(chars.as_slice()), 10, u64::MAX) {
        None => None,
        Some(since) => {
            if since == 0 {
                return Some(0);
            }
            if since as u128 > now_usec {
                return None;
            }
            let elapsed: u128 = now_usec - since as u128;
            if elapsed > u64::MAX as u128 {
                None
            } else {
                Some(elapsed as u64)
            }
        },
    }
}

/// The time from `then` to `now`, in microseconds, by a clock of
/// milliseconds that begins anew after 2^32 of them.
pub open spec fn ticks_between(now: u32, then: u32) -> int {
    1000 * if now >= then {
        now - then
    } else {
        now - then + 0x1_0000_0000
    }
}

/// The time since the last input of a Windows host, in microseconds.
pub fn windows_idle(now: u32, last_input: u32) -> (r: u64)
    ensures
        r == ticks_between(now, last_input),
{
    let elapsed: u32 = now.wrapping_sub(last_input);
    (elapsed as u64) * 1000
}

// ---------------------------------------------------------------------
// Monitor
// ---------------------------------------------------------------------

/// What a host tells of its power supply.
#[derive(Debug)]
pub enum PowerReading {
    Linux {
        /// The `online` file of the supply named `AC`.
        ac_online: Option<String>,
        /// The `online` files of all supplies.
        online: Vec<String>,
        /// The `capacity` files of all supplies.
        capacity: Vec<String>,
    },
    Macos { states: Vec<String>, capacities: Vec<i64> },
    Windows(Option<WindowsPowerStatus>),
    Other,
}

/// What a host tells of its user.
#[derive(Debug)]
pub enum IdleReading {
    /// The hint of the session manager and the time, in microseconds.
    Linux { hint: Option<String>, now_usec: u128 },
    /// Microseconds since the last input.
    Macos(Option<u64>),
    /// The clock, and the clock at the last input.
    Windows(Option<(u32, u32)>),
    Other,
}

/// Tells power and idle status from what a host tells.
#[derive(Debug, Clone, Copy)]
pub struct PowerMonitor {}

/// The power state that a reading tells.
pub open spec fn state_told(reading: PowerReading) -> PowerState {
    match reading {
        PowerReading::Linux { ac_online, online, .. } => linux_state(
            opt_view(ac_online),
            views(online@),
        ),
        PowerReading::Macos { states, .. } => first_source(views(states@), 0),
        PowerReading::Windows(status) => windows_state(status),
        PowerReading::Other => PowerState::Unknown,
    }
}

/// The charge that a reading tells.
pub open spec fn charge_told(reading: PowerReading) -> Option<nat> {
    match reading {
        PowerReading::Linux { capacity, .. } => first_capacity(views(capacity@), 0),
        PowerReading::Macos { capacities, .. } => match first_percentage(capacities@, 0) {
            Some(n) => Some(n as nat),
            None => None,
        },
        PowerReading::Windows(status) => match windows_charge(status) {
            Some(n) => Some(n as nat),
            None => None,
        },
        PowerReading::Other => None,
    }
}

/// The idle time that a reading tells, in microseconds.
pub open spec fn idle_told(reading: IdleReading) -> Option<nat> {
    match reading {
        IdleReading::Linux { hint, now_usec } => match hint {
            Some(h) => idle_time(h@, now_usec as nat),
            None => None,
        },
        IdleReading::Macos(t) => match t {
            Some(n) => Some(n as nat),
            None => None,
        },
        IdleReading::Windows(t) => match t {
            Some((now, then)) => Some(ticks_between(now, then) as nat),
            None => None,
        },
        IdleReading::Other => None,
    }
}

impl PowerMonitor {
    pub fn new() -> (r: PowerMonitor)
        ensures
            r == (PowerMonitor {  }),
    {
        PowerMonitor {  }
    }

    /// The power state.
    pub fn power_state(&self, reading: &PowerReading) -> (r: PowerState)
        ensures
            r == state_told(*reading),
    {
        match reading {
            PowerReading::Linux { ac_online, online, .. } => linux_power_state(ac_online, online),
            PowerReading::Macos { states, .. } => macos_power_state(states),
            PowerReading::Windows(status) => windows_power_state(*status),
            PowerReading::Other => PowerState::Unknown,
        }
    }

    /// The charge of the battery, in percent.
    pub fn battery_percentage(&self, reading: &PowerReading) -> (r: Option<u8>)
        ensures
            match r {
                Some(n) => charge_told(*reading) == Some(n as nat),
                None => charge_told(*reading) is None,
            },
    {
        match reading {
            PowerReading::Linux { capacity, .. } => linux_battery_percentage(capacity),
            PowerReading::Macos { capacities, .. } => macos_battery_percentage(capacities),
            PowerReading::Windows(status) => windows_battery_percentage(*status),
            PowerReading::Other => None,
        }
    }

    /// How long the user has been idle, in microseconds.
    pub fn user_idle_duration(&self, reading: &IdleReading) -> (r: Option<u64>)
        ensures
            match r {
                Some(n) => idle_told(*reading) == Some(n as nat),
                None => idle_told(*reading) is None,
            },
    {
        match reading {
            IdleReading::Linux { hint, now_usec } => match hint {
                Some(h) => parse_idle_since_hint(h.as_str(), *now_usec),
                None => None,
            },
            IdleReading::Macos(t) => *t,
            IdleReading::Windows(t) => match t {
                Some((now, then)) => Some(windows_idle(*now, *then)),
                None => None,
            },
            IdleReading::Other => None,
        }
    }

    /// Whether the user has been idle for `threshold` microseconds. A user
    /// of whom nothing is known is not idle.
    pub fn is_user_idle(&self, reading: &IdleReading, threshold: u64) -> (r: bool)
        ensures
            r == (idle_told(*reading) is Some && idle_told(*reading)->0 >= threshold),
    {
        match self.user_idle_duration(reading) {
            Some(d) => d >= threshold,
            None => false,
        }
    }
}

impl Default for PowerMonitor {
    fn default() -> (r: Self)
        ensures
            r == (PowerMonitor {  }),
    {
        PowerMonitor {  }
    }
}

// ---------------------------------------------------------------------
// Profile
// ---------------------------------------------------------------------

/// The profile by which the agent paces itself.
#[derive(Debug, Clone, Copy, PartialEq, Eq, Structural)]
pub enum PowerProfile {
    /// Mains, user at work.
    Normal,
    /// Mains, user idle: deferred scans are made.
    IdleAC,
    /// Battery, user at work: fewer scans, larger batches.
    BatteryActive,
    /// Battery, user idle: still fewer scans, long intervals.
    BatteryIdle,
    /// Battery below 10 percent: only what is needed.
    CriticalBattery,
}

/// The profile that power state, idle status and charge call for.
pub open spec fn profile_for(power: PowerState, idle: bool, charge: Option<nat>) -> PowerProfile {
    if power == PowerState::Battery {
        if charge is Some && charge->0 < 10 {
            PowerProfile::CriticalBattery
        } else if idle {
            PowerProfile::BatteryIdle
        } else {
            PowerProfile::BatteryActive
        }
    } else if idle {
        PowerProfile::IdleAC
    } else {
        PowerProfile::Normal
    }
}

impl PowerProfile {
    /// The profile that the readings call for; `idle_threshold` is in
    /// microseconds.
    pub fn detect(
        monitor: &PowerMonitor,
        power: &PowerReading,
        idle: &IdleReading,
        idle_threshold: u64,
    ) -> (r: PowerProfile)
        ensures
            r == profile_for(
                state_told(*power),
                idle_told(*idle) is Some && idle_told(*idle)->0 >= idle_threshold,
                charge_told(*power),
            ),
    {
        PowerProfile::from_inputs(
            monitor.power_state(power),
            monitor.is_user_idle(idle, idle_threshold),
            monitor.battery_percentage(power),
        )
    }

    /// The profile that power state, idle status and charge call for.
    pub fn from_inputs(power: PowerState, is_idle: bool, battery_pct: Option<u8>) -> (r:
        PowerProfile)
        ensures
            r == profile_for(
                power,
                is_idle,
                match battery_pct {
                    Some(n) => Some(n as nat),
                    None => None,
                },
            ),
    {
        match power {
            PowerState::Battery => {
                let critical = match battery_pct {
                    Some(n) => n < 10,
                    None => false,
                };
                if critical {
                    PowerProfile::CriticalBattery
                } else if is_idle {
                    PowerProfile::BatteryIdle
                } else {
                    PowerProfile::BatteryActive
                }
            },
            _ => if is_idle {
                PowerProfile::IdleAC
            } else {
                PowerProfile::Normal
            },
        }
    }

    /// Rate of file scans, in percent of the normal rate.
    pub fn fim_scan_percent(&self) -> (r: u32)
        ensures
            r == match *self {
                PowerProfile::Normal => 100int,
                PowerProfile::IdleAC => 200,
                PowerProfile::BatteryActive => 50,
                PowerProfile::BatteryIdle => 25,
                PowerProfile::CriticalBattery => 0,
            },
    {
        match self {
            PowerProfile::Normal => 100,
            PowerProfile::IdleAC => 200,
            PowerProfile::BatteryActive => 50,
            PowerProfile::BatteryIdle => 25,
            PowerProfile::CriticalBattery => 0,
        }
    }

    /// Time between two batches of logs, in seconds.
    pub fn log_batch_interval(&self) -> (r: u64)
        ensures
            r == match *self {
                PowerProfile::Normal => 5int,
                PowerProfile::IdleAC => 5,
                PowerProfile::BatteryActive => 10,
                PowerProfile::BatteryIdle => 20,
                PowerProfile::CriticalBattery => 60,
            },
    {
        match self {
            PowerProfile::Normal => 5,
            PowerProfile::IdleAC => 5,
            PowerProfile::BatteryActive => 10,
            PowerProfile::BatteryIdle => 20,
            PowerProfile::CriticalBattery => 60,
        }
    }

    /// Time between two inventories, in seconds.
    pub fn inventory_interval(&self) -> (r: u64)
        ensures
            r == match *self {
                PowerProfile::Normal => 3600int,
                PowerProfile::IdleAC => 3600,
                PowerProfile::BatteryActive => 14400,
                PowerProfile::BatteryIdle => 28800,
                PowerProfile::CriticalBattery => 86400,
            },
    {
        match self {
            PowerProfile::Normal => 3600,
            PowerProfile::IdleAC => 3600,
            PowerProfile::BatteryActive => 14400,
            PowerProfile::BatteryIdle => 28800,
            PowerProfile::CriticalBattery => 86400,
        }
    }

    /// Whether configuration assessments are made.
    pub fn sca_enabled(&self) -> (r: bool)
        ensures
            r == (*self != PowerProfile::CriticalBattery),
    {
        match self {
            PowerProfile::CriticalBattery => false,
            _ => true,
        }
    }
}

/// A low charge counts only on battery, and there whatever the user does.
pub proof fn law_critical_only_on_battery(power: PowerState, idle: bool, charge: Option<nat>)
    ensures
        profile_for(power, idle, charge) == PowerProfile::CriticalBattery <==> (power
            == PowerState::Battery && charge is Some && charge->0 < 10),
{
}

} // verus!
