//! Power and idleness: what the host tells is taken at its word, and the
//! agent never works harder on battery than on mains.

use crate::power::{
    first_capacity, first_online, first_percentage, first_source, linux_battery_percentage,
    linux_power_state, macos_battery_percentage, macos_power_state, online_state,
    parse_idle_since_hint, windows_battery_percentage, windows_idle, windows_power_state,
    IdleReading, PowerMonitor, PowerProfile, PowerReading, WindowsPowerStatus,
};
use crate::text::{number, trimmed, views};
use crate::types::PowerState;
use vstd::prelude::*;

verus! {

proof fn lemma_one_and_zero()
    ensures
        "1"@ != "0"@,
{
    reveal_strlit("1");
    reveal_strlit("0");
    assert("1"@[0] != "0"@[0]);
}

/// The supply named `AC` decides alone where it can be read: `1` is mains,
/// `0` is battery, and anything else tells nothing.
pub proof fn law_the_mains_supply_decides(ac: Option<String>, supplies: Vec<String>, r: PowerState)
    requires
        call_ensures(linux_power_state, (&ac, &supplies), r),
        ac is Some,
    ensures
        r == PowerState::AC <==> trimmed(ac->0@) == "1"@,
        r == PowerState::Battery <==> trimmed(ac->0@) == "0"@,
{
    lemma_one_and_zero();
}

/// Without that supply the first one that tells decides.
pub proof fn law_the_first_supply_that_tells_decides(supplies: Vec<String>, r: PowerState, i: int)
    requires
        call_ensures(linux_power_state, (&None::<String>, &supplies), r),
        0 <= i <= supplies@.len(),
        forall|k: int|
            0 <= k < i ==> trimmed((#[trigger] supplies@[k])@) != "1"@ && trimmed(supplies@[k]@) != "0"@,
    ensures
        i == supplies@.len() ==> r == PowerState::Unknown,
        i < supplies@.len() && trimmed(supplies@[i]@) == "1"@ ==> r == PowerState::AC,
        i < supplies@.len() && trimmed(supplies@[i]@) == "0"@ ==> r == PowerState::Battery,
{
    lemma_one_and_zero();
    let v = views(supplies@);
    assert forall|k: int| 0 <= k < i implies online_state(#[trigger] v[k]) == PowerState::Unknown by {
        assert(v[k] == supplies@[k]@);
    }
    lemma_online(v, 0, i);
    if i < supplies@.len() {
        assert(v[i] == supplies@[i]@);
    }
}

proof fn lemma_online(v: Seq<Seq<char>>, from: int, i: int)
    requires
        0 <= from <= i <= v.len(),
        forall|k: int| 0 <= k < i ==> online_state(#[trigger] v[k]) == PowerState::Unknown,
    ensures
        first_online(v, from) == first_online(v, i),
    decreases i - from,
{
    if from < i {
        assert(online_state(v[from]) == PowerState::Unknown);
        lemma_online(v, from + 1, i);
    }
}

/// The charge is that of the first file that holds one.
pub proof fn law_the_first_charge_counts(files: Vec<String>, r: Option<u8>, i: int)
    requires
        call_ensures(linux_battery_percentage, (&files,), r),
        0 <= i <= files@.len(),
        forall|k: int| 0 <= k < i ==> number(trimmed((#[trigger] files@[k])@), 10, 255) is None,
    ensures
        i == files@.len() ==> r is None,
        i < files@.len() && number(trimmed(files@[i]@), 10, 255) is Some ==> r is Some && Some(
            r->0 as nat,
        ) == number(trimmed(files@[i]@), 10, 255),
{
    let v = views(files@);
    assert forall|k: int| 0 <= k < i implies number(trimmed(#[trigger] v[k]), 10, 255) is None by {
        assert(v[k] == files@[k]@);
    }
    lemma_capacity(v, 0, i);
    if i < files@.len() {
        assert(v[i] == files@[i]@);
    }
}

proof fn lemma_capacity(v: Seq<Seq<char>>, from: int, i: int)
    requires
        0 <= from <= i <= v.len(),
        forall|k: int| 0 <= k < i ==> number(trimmed(#[trigger] v[k]), 10, 255) is None,
    ensures
        first_capacity(v, from) == first_capacity(v, i),
    decreases i - from,
{
    if from < i {
        assert(number(trimmed(v[from]), 10, 255) is None);
        lemma_capacity(v, from + 1, i);
    }
}

/// On macOS the first source that names mains or battery decides.
pub proof fn law_the_first_source_that_tells_decides(states: Vec<String>, r: PowerState, i: int)
    requires
        call_ensures(macos_power_state, (&states,), r),
        0 <= i <= states@.len(),
        forall|k: int|
            0 <= k < i ==> (#[trigger] states@[k])@ != "AC Power"@ && states@[k]@ != "Battery Power"@,
    ensures
        i == states@.len() ==> r == PowerState::Unknown,
        i < states@.len() && states@[i]@ == "AC Power"@ ==> r == PowerState::AC,
        i < states@.len() && states@[i]@ == "Battery Power"@ ==> r == PowerState::Battery,
{
    reveal_strlit("AC Power");
    reveal_strlit("Battery Power");
    assert("AC Power"@[0] != "Battery Power"@[0]);
    let v = views(states@);
    assert forall|k: int| 0 <= k < i implies #[trigger] v[k] != "AC Power"@ && v[k] != "Battery Power"@ by {
        assert(v[k] == states@[k]@);
    }
    lemma_source(v, 0, i);
    if i < states@.len() {
        assert(v[i] == states@[i]@);
    }
}

proof fn lemma_source(v: Seq<Seq<char>>, from: int, i: int)
    requires
        0 <= from <= i <= v.len(),
        forall|k: int| 0 <= k < i ==> #[trigger] v[k] != "AC Power"@ && v[k] != "Battery Power"@,
    ensures
        first_source(v, from) == first_source(v, i),
    decreases i - from,
{
    if from < i {
        assert(v[from] != "AC Power"@);
        lemma_source(v, from + 1, i);
    }
}

/// On macOS the charge is the first that is a percentage.
pub proof fn law_the_first_percentage_counts(capacities: Vec<i64>, r: Option<u8>, i: int)
    requires
        call_ensures(macos_battery_percentage, (&capacities,), r),
        0 <= i <= capacities@.len(),
        forall|k: int| 0 <= k < i ==> !(0 <= #[trigger] capacities@[k] <= 100),
    ensures
        i == capacities@.len() ==> r is None,
        i < capacities@.len() && 0 <= capacities@[i] <= 100 ==> r is Some && r->0 == capacities@[i],
        r is Some ==> r->0 <= 100,
{
    lemma_percentage(capacities@, 0, i);
    lemma_percent(capacities@, 0);
}

proof fn lemma_percentage(v: Seq<i64>, from: int, i: int)
    requires
        0 <= from <= i <= v.len(),
        forall|k: int| 0 <= k < i ==> !(0 <= #[trigger] v[k] <= 100),
    ensures
        first_percentage(v, from) == first_percentage(v, i),
    decreases i - from,
{
    if from < i {
        assert(!(0 <= v[from] <= 100));
        lemma_percentage(v, from + 1, i);
    }
}

proof fn lemma_percent(v: Seq<i64>, i: int)
    requires
        0 <= i,
    ensures
        first_percentage(v, i) matches Some(n) ==> n <= 100,
    decreases v.len() - i,
{
    if i < v.len() {
        lemma_percent(v, i + 1);
    }
}

/// On Windows 1 is mains and 0 is battery, and a charge of 255 is none.
pub proof fn law_power_of_windows(
    status: WindowsPowerStatus,
    state: PowerState,
    charge: Option<u8>,
    none: PowerState,
    no_charge: Option<u8>,
)
    requires
        call_ensures(windows_power_state, (Some(status),), state),
        call_ensures(windows_battery_percentage, (Some(status),), charge),
        call_ensures(windows_power_state, (None::<WindowsPowerStatus>,), none),
        call_ensures(windows_battery_percentage, (None::<WindowsPowerStatus>,), no_charge),
    ensures
        state == PowerState::AC <==> status.ac_line_status == 1,
        state == PowerState::Battery <==> status.ac_line_status == 0,
        charge is None <==> status.battery_life_percent == 255,
        charge is Some ==> charge->0 == status.battery_life_percent,
        none == PowerState::Unknown,
        no_charge is None,
{
}

/// The idle time and the point since which the user is idle add up to now; a
/// session in use is not idle at all, and a point in the future tells
/// nothing.
pub proof fn law_idle_time_adds_up(raw: &str, now_usec: u128, r: Option<u64>, since: nat)
    requires
        call_ensures(parse_idle_since_hint, (raw, now_usec), r),
        number(trimmed(raw@), 10, 0xffff_ffff_ffff_ffff) == Some(since),
    ensures
        since == 0 ==> r == Some(0u64),
        since > now_usec ==> r is None,
        0 < since <= now_usec && now_usec - since <= u64::MAX ==> r is Some && since + r->0 == now_usec,
{
}

/// A hint that is no number tells nothing.
pub proof fn law_hints_that_are_no_numbers(raw: &str, now_usec: u128, r: Option<u64>)
    requires
        call_ensures(parse_idle_since_hint, (raw, now_usec), r),
        number(trimmed(raw@), 10, 0xffff_ffff_ffff_ffff) is None,
    ensures
        r is None,
{
}

/// The clock of Windows counts milliseconds and begins anew after 2^32: the
/// last input and the idle time bring it to where it stands.
pub proof fn law_idle_time_of_windows(now: u32, last_input: u32, r: u64)
    requires
        call_ensures(windows_idle, (now, last_input), r),
    ensures
        r % 1000 == 0,
        r / 1000 < 0x1_0000_0000,
        (last_input + r / 1000) % 0x1_0000_0000 == now,
{
}

/// A user is idle from the threshold on, and one of whom nothing is known is
/// not.
pub proof fn law_idle_users(
    m: PowerMonitor,
    reading: IdleReading,
    threshold: u64,
    idle: bool,
    time: Option<u64>,
)
    requires
        call_ensures(PowerMonitor::is_user_idle, (&m, &reading, threshold), idle),
        call_ensures(PowerMonitor::user_idle_duration, (&m, &reading), time),
    ensures
        idle <==> time is Some && time->0 >= threshold,
        reading is Other ==> time is None,
{
}

/// The monitor tells of each kind of host what that host's own readings tell.
pub proof fn law_the_monitor_reads_each_host(
    m: PowerMonitor,
    ac_online: Option<String>,
    online: Vec<String>,
    capacity: Vec<String>,
    states: Vec<String>,
    capacities: Vec<i64>,
    status: Option<WindowsPowerStatus>,
    r: (PowerState, PowerState, PowerState, PowerState),
    c: (Option<u8>, Option<u8>, Option<u8>, Option<u8>),
    rl: PowerState,
    rm: PowerState,
    rw: PowerState,
    cl: Option<u8>,
    cm: Option<u8>,
    cw: Option<u8>,
)
    requires
        call_ensures(
            PowerMonitor::power_state,
            (&m, &PowerReading::Linux { ac_online, online, capacity }),
            r.0,
        ),
        call_ensures(PowerMonitor::power_state, (&m, &PowerReading::Macos { states, capacities }), r.1),
        call_ensures(PowerMonitor::power_state, (&m, &PowerReading::Windows(status)), r.2),
        call_ensures(PowerMonitor::power_state, (&m, &PowerReading::Other), r.3),
        call_ensures(
            PowerMonitor::battery_percentage,
            (&m, &PowerReading::Linux { ac_online, online, capacity }),
            c.0,
        ),
        call_ensures(
            PowerMonitor::battery_percentage,
            (&m, &PowerReading::Macos { states, capacities }),
            c.1,
        ),
        call_ensures(PowerMonitor::battery_percentage, (&m, &PowerReading::Windows(status)), c.2),
        call_ensures(PowerMonitor::battery_percentage, (&m, &PowerReading::Other), c.3),
        call_ensures(linux_power_state, (&ac_online, &online), rl),
        call_ensures(macos_power_state, (&states,), rm),
        call_ensures(windows_power_state, (status,), rw),
        call_ensures(linux_battery_percentage, (&capacity,), cl),
        call_ensures(macos_battery_percentage, (&capacities,), cm),
        call_ensures(windows_battery_percentage, (status,), cw),
    ensures
        r.0 == rl && r.1 == rm && r.2 == rw && r.3 == PowerState::Unknown,
        c.0 == cl && c.1 == cm && c.2 == cw && c.3 is None,
{
}

/// The same holds of the user: each kind of host tells the idle time in its
/// own way.
pub proof fn law_the_monitor_reads_each_user(
    m: PowerMonitor,
    hint: String,
    now_usec: u128,
    t: u64,
    now: u32,
    then: u32,
    l: Option<u64>,
    a: Option<u64>,
    w: Option<u64>,
    unknown: Option<u64>,
    ticks: u64,
)
    requires
        call_ensures(
            PowerMonitor::user_idle_duration,
            (&m, &IdleReading::Linux { hint: Some(hint), now_usec }),
            l,
        ),
        call_ensures(PowerMonitor::user_idle_duration, (&m, &IdleReading::Macos(Some(t))), a),
        call_ensures(
            PowerMonitor::user_idle_duration,
            (&m, &IdleReading::Windows(Some((now, then)))),
            w,
        ),
        call_ensures(
            PowerMonitor::user_idle_duration,
            (&m, &IdleReading::Linux { hint: None, now_usec }),
            unknown,
        ),
        call_ensures(windows_idle, (now, then), ticks),
    ensures
        a == Some(t),
        w == Some(ticks),
        unknown is None,
        number(trimmed(hint@), 10, 0xffff_ffff_ffff_ffff) == Some(0nat) ==> l == Some(0u64),
        number(trimmed(hint@), 10, 0xffff_ffff_ffff_ffff) is None ==> l is None,
        number(trimmed(hint@), 10, 0xffff_ffff_ffff_ffff) matches Some(n) ==> (0 < n <= now_usec
            && now_usec - n <= u64::MAX ==> l is Some && n + l->0 == now_usec),
{
}

/// Below ten percent of charge on battery the agent does only what is needed;
/// else power and idleness decide, and an unknown supply counts as mains.
pub proof fn law_profiles(power: PowerState, is_idle: bool, charge: Option<u8>, r: PowerProfile)
    requires
        call_ensures(PowerProfile::from_inputs, (power, is_idle, charge), r),
    ensures
        r == PowerProfile::CriticalBattery <==> power == PowerState::Battery && charge is Some
            && charge->0 <= 9,
        r == PowerProfile::BatteryIdle <==> power == PowerState::Battery && is_idle && !(charge is Some
            && charge->0 <= 9),
        r == PowerProfile::BatteryActive <==> power == PowerState::Battery && !is_idle && !(
        charge is Some && charge->0 <= 9),
        r == PowerProfile::IdleAC <==> power != PowerState::Battery && is_idle,
        r == PowerProfile::Normal <==> power != PowerState::Battery && !is_idle,
{
}

/// The profile of a host is the one that its readings call for.
pub proof fn law_detected_profiles(
    m: PowerMonitor,
    power: PowerReading,
    idle: IdleReading,
    threshold: u64,
    state: PowerState,
    is_idle: bool,
    charge: Option<u8>,
    detected: PowerProfile,
    computed: PowerProfile,
)
    requires
        call_ensures(PowerMonitor::power_state, (&m, &power), state),
        call_ensures(PowerMonitor::is_user_idle, (&m, &idle, threshold), is_idle),
        call_ensures(PowerMonitor::battery_percentage, (&m, &power), charge),
        call_ensures(PowerProfile::detect, (&m, &power, &idle, threshold), detected),
        call_ensures(PowerProfile::from_inputs, (state, is_idle, charge), computed),
    ensures
        detected == computed,
{
}

/// How hard the agent works under a profile: the rate of scans, and the times
/// between batches and inventories.
pub proof fn law_pace(p: PowerProfile, scans: u32, batch: u64, inventory: u64, assess: bool)
    requires
        call_ensures(PowerProfile::fim_scan_percent, (&p,), scans),
        call_ensures(PowerProfile::log_batch_interval, (&p,), batch),
        call_ensures(PowerProfile::inventory_interval, (&p,), inventory),
        call_ensures(PowerProfile::sca_enabled, (&p,), assess),
    ensures
        p == PowerProfile::Normal ==> scans == 100 && batch == 5 && inventory == 60 * 60,
        p == PowerProfile::IdleAC ==> scans == 2 * 100 && batch == 5 && inventory == 60 * 60,
        p == PowerProfile::BatteryActive ==> scans * 2 == 100 && batch == 2 * 5 && inventory == 4 * 60 * 60,
        p == PowerProfile::BatteryIdle ==> scans * 4 == 100 && batch == 4 * 5 && inventory == 8 * 60 * 60,
        p == PowerProfile::CriticalBattery ==> scans == 0 && batch == 60 && inventory == 24 * 60 * 60,
        assess <==> p != PowerProfile::CriticalBattery,
{
}

/// Less power is never more work: from mains to battery to a low charge,
/// scans become fewer and batches and inventories rarer.
pub proof fn law_less_power_is_less_work(
    idle: bool,
    charge: Option<u8>,
    mains: PowerProfile,
    battery: PowerProfile,
    ms: u32,
    bs: u32,
    mb: u64,
    bb: u64,
    mi: u64,
    bi: u64,
)
    requires
        call_ensures(PowerProfile::from_inputs, (PowerState::AC, idle, charge), mains),
        call_ensures(PowerProfile::from_inputs, (PowerState::Battery, idle, charge), battery),
        call_ensures(PowerProfile::fim_scan_percent, (&mains,), ms),
        call_ensures(PowerProfile::fim_scan_percent, (&battery,), bs),
        call_ensures(PowerProfile::log_batch_interval, (&mains,), mb),
        call_ensures(PowerProfile::log_batch_interval, (&battery,), bb),
        call_ensures(PowerProfile::inventory_interval, (&mains,), mi),
        call_ensures(PowerProfile::inventory_interval, (&battery,), bi),
    ensures
        bs < ms,
        bb > mb,
        bi > mi,
{
}

} // verus!
