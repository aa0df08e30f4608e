use sda_agent::power::{
    linux_battery_percentage, linux_power_state, macos_battery_percentage, macos_power_state,
    parse_idle_since_hint, windows_idle, IdleReading, PowerMonitor, PowerProfile, PowerReading,
    WindowsPowerStatus,
};
use sda_agent::types::PowerState;

#[test]
fn test_power_profile_detect_battery_critical() {
    // Battery with <10% charge always maps to CriticalBattery.
    assert_eq!(
        PowerProfile::from_inputs(PowerState::Battery, false, Some(5)),
        PowerProfile::CriticalBattery
    );
    assert_eq!(
        PowerProfile::from_inputs(PowerState::Battery, true, Some(9)),
        PowerProfile::CriticalBattery
    );

    // 10% is the boundary — not critical.
    assert_eq!(
        PowerProfile::from_inputs(PowerState::Battery, false, Some(10)),
        PowerProfile::BatteryActive
    );

    // Idle on non-critical battery.
    assert_eq!(
        PowerProfile::from_inputs(PowerState::Battery, true, Some(50)),
        PowerProfile::BatteryIdle
    );

    // Idle on AC.
    assert_eq!(
        PowerProfile::from_inputs(PowerState::AC, true, None),
        PowerProfile::IdleAC
    );

    // Active on AC.
    assert_eq!(
        PowerProfile::from_inputs(PowerState::AC, false, None),
        PowerProfile::Normal
    );

    // Unknown power state, active user.
    assert_eq!(
        PowerProfile::from_inputs(PowerState::Unknown, false, None),
        PowerProfile::Normal
    );

    // Critical battery pauses FIM and disables SCA.
    let critical = PowerProfile::CriticalBattery;
    assert_eq!(critical.fim_scan_percent() as f64 / 100.0, 0.0);
    assert!(!critical.sca_enabled());
}

#[test]
fn test_macos_user_idle_duration_is_some() {
    let monitor = PowerMonitor::new();
    assert!(monitor
        .user_idle_duration(&IdleReading::Macos(Some(0)))
        .is_some());
}

#[test]
fn test_windows_power_state_returns_known_value() {
    let monitor = PowerMonitor::new();
    for line in [0u8, 1] {
        let state = monitor.power_state(&PowerReading::Windows(Some(WindowsPowerStatus {
            ac_line_status: line,
            battery_life_percent: 50,
        })));
        assert!(
            matches!(state, PowerState::AC | PowerState::Battery),
            "expected AC or Battery, got {:?}",
            state
        );
    }
}

#[test]
fn test_windows_user_idle_duration_is_some() {
    let monitor = PowerMonitor::new();
    assert!(monitor
        .user_idle_duration(&IdleReading::Windows(Some((5, 3))))
        .is_some());
}

#[test]
fn test_parse_idle_since_hint_not_idle() {
    // IdleSinceHint == 0 means logind considers the session active.
    let now = 1_700_000_000_000_000_u128;
    assert_eq!(parse_idle_since_hint("0\n", now), Some(0));
    assert_eq!(parse_idle_since_hint("0", now), Some(0));
}

#[test]
fn test_parse_idle_since_hint_idle_for_30_seconds() {
    let now: u128 = 1_700_000_030_000_000;
    let thirty_s_ago: u64 = 1_700_000_000_000_000;
    let got = parse_idle_since_hint(&thirty_s_ago.to_string(), now);
    assert_eq!(got, Some(30 * 1_000_000));
}

#[test]
fn test_parse_idle_since_hint_rejects_future_timestamps() {
    let now: u128 = 1_000_000;
    let in_the_future: u64 = 2_000_000;
    assert_eq!(parse_idle_since_hint(&in_the_future.to_string(), now), None);
}

#[test]
fn test_parse_idle_since_hint_rejects_garbage_and_empty() {
    let now = 1_700_000_000_000_000_u128;
    assert_eq!(parse_idle_since_hint("", now), None);
    assert_eq!(parse_idle_since_hint("   \n", now), None);
    assert_eq!(parse_idle_since_hint("not-a-number", now), None);
    assert_eq!(parse_idle_since_hint("-1", now), None);
}

#[test]
fn test_linux_user_idle_duration_does_not_panic() {
    let monitor = PowerMonitor::new();
    for hint in [None, Some("0".to_string()), Some("garbage".to_string())] {
        let reading = IdleReading::Linux {
            hint,
            now_usec: 1_700_000_000_000_000,
        };
        if let Some(d) = monitor.user_idle_duration(&reading) {
            assert!(d / 1_000_000 < 60 * 60 * 24 * 365);
        }
    }
}

#[test]
fn idle_times_too_long_to_count_are_unknown() {
    assert_eq!(parse_idle_since_hint("1", u64::MAX as u128 + 2), None);
    assert_eq!(
        parse_idle_since_hint("1", u64::MAX as u128 + 1),
        Some(u64::MAX)
    );
}

#[test]
fn linux_power_state_prefers_the_supply_named_ac() {
    let ones = vec!["1\n".to_string()];
    assert_eq!(
        linux_power_state(&Some("0\n".into()), &ones),
        PowerState::Battery
    );
    assert_eq!(
        linux_power_state(&Some("odd".into()), &ones),
        PowerState::Unknown
    );
    assert_eq!(
        linux_power_state(&None, &vec!["?".into(), "0".into(), "1".into()]),
        PowerState::Battery
    );
    assert_eq!(linux_power_state(&None, &vec![]), PowerState::Unknown);
}

#[test]
fn linux_charge_is_the_first_readable_one() {
    assert_eq!(
        linux_battery_percentage(&vec!["full".into(), "300".into(), "42\n".into(), "7".into()]),
        Some(42)
    );
    assert_eq!(linux_battery_percentage(&vec![]), None);
}

#[test]
fn macos_sources_are_read_in_order() {
    assert_eq!(
        macos_power_state(&vec!["Off Line".into(), "Battery Power".into(), "AC Power".into()]),
        PowerState::Battery
    );
    assert_eq!(macos_power_state(&vec![]), PowerState::Unknown);
    assert_eq!(macos_battery_percentage(&vec![-1, 101, 100]), Some(100));
    assert_eq!(macos_battery_percentage(&vec![-1]), None);
}

#[test]
fn windows_charge_255_is_unknown() {
    let monitor = PowerMonitor::new();
    let status = |pct: u8| {
        PowerReading::Windows(Some(WindowsPowerStatus {
            ac_line_status: 9,
            battery_life_percent: pct,
        }))
    };
    assert_eq!(monitor.battery_percentage(&status(255)), None);
    assert_eq!(monitor.battery_percentage(&status(80)), Some(80));
    assert_eq!(monitor.power_state(&status(80)), PowerState::Unknown);
    assert_eq!(
        monitor.power_state(&PowerReading::Windows(None)),
        PowerState::Unknown
    );
    assert_eq!(monitor.power_state(&PowerReading::Other), PowerState::Unknown);
}

#[test]
fn windows_idle_survives_the_wrap_of_the_clock() {
    assert_eq!(windows_idle(1000, 400), 600_000);
    assert_eq!(windows_idle(5, u32::MAX - 4), 10_000);
}

#[test]
fn user_is_idle_from_the_threshold_on() {
    let monitor = PowerMonitor::new();
    let reading = IdleReading::Macos(Some(1000));
    assert!(monitor.is_user_idle(&reading, 1000));
    assert!(!monitor.is_user_idle(&reading, 1001));
    assert!(!monitor.is_user_idle(&IdleReading::Other, 0));
}

#[test]
fn profiles_pace_the_agent() {
    for (p, fim, batch, inventory, sca) in [
        (PowerProfile::Normal, 100, 5, 3600, true),
        (PowerProfile::IdleAC, 200, 5, 3600, true),
        (PowerProfile::BatteryActive, 50, 10, 14400, true),
        (PowerProfile::BatteryIdle, 25, 20, 28800, true),
        (PowerProfile::CriticalBattery, 0, 60, 86400, false),
    ] {
        assert_eq!(p.fim_scan_percent(), fim);
        assert_eq!(p.log_batch_interval(), batch);
        assert_eq!(p.inventory_interval(), inventory);
        assert_eq!(p.sca_enabled(), sca);
    }
}

#[test]
fn profile_is_detected_from_readings() {
    let monitor = PowerMonitor::new();
    let power = PowerReading::Linux {
        ac_online: Some("0\n".into()),
        online: vec![],
        capacity: vec!["9\n".into()],
    };
    assert_eq!(
        PowerProfile::detect(&monitor, &power, &IdleReading::Other, 300_000_000),
        PowerProfile::CriticalBattery
    );
    assert_eq!(
        PowerProfile::detect(
            &monitor,
            &PowerReading::Other,
            &IdleReading::Macos(Some(400_000_000)),
            300_000_000
        ),
        PowerProfile::IdleAC
    );
}
