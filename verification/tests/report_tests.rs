use batteryctl::alert::{alert_step, AlertConfig, AlertState};
use batteryctl::battery::{BatteryCondition, BatteryInfo, ChargingState};
use batteryctl::health::{
    build_capacity_trend, calculate_age_description, compare_with_new, generate_health_report,
};
use batteryctl::history::BatterySnapshot;
use batteryctl::optimize::{generate_suggestions, suggestions_for, Priority};
use batteryctl::power::{AppPowerInfo, PowerReport};
use batteryctl::text::truncate_str;

fn make_test_info() -> BatteryInfo {
    BatteryInfo {
        level: 87,
        state: ChargingState::Charging,
        time_remaining_minutes: Some(83),
        power_draw_mw: Some(15200),
        cycle_count: Some(47),
        max_capacity_mah: Some(4215),
        design_capacity_mah: Some(4500),
        current_capacity_mah: Some(3667),
        temperature_deci_c: Some(320),
        voltage_mv: Some(12400),
        condition: BatteryCondition::Normal,
        manufacture_date: Some("2024-03-15".to_string()),
        is_present: true,
    }
}

#[test]
fn test_alert_config_default() {
    let config = AlertConfig::default();
    assert_eq!(config.level_threshold, None);
    assert!(!config.on_full);
    assert_eq!(config.check_interval_secs, 60);
}

#[test]
fn test_alert_step_fires_once() {
    let config = AlertConfig {
        level_threshold: Some(20),
        on_full: true,
        check_interval_secs: 60,
    };
    let mut low = make_test_info();
    low.level = 15;
    low.state = ChargingState::Discharging;

    let st = AlertState::default();
    let (st, fire_low, fire_full) = {
        let r = alert_step(&config, &low, &st);
        (r.0, r.1, r.2)
    };
    assert!(fire_low);
    assert!(!fire_full);

    // the same condition does not fire twice in a row
    let r2 = alert_step(&config, &low, &st);
    assert!(!r2.1);

    // once the level recovers, the alert arms again
    let mut ok = low.clone();
    ok.level = 55;
    let r3 = alert_step(&config, &ok, &r2.0);
    assert!(!r3.1);
    let r4 = alert_step(&config, &low, &r3.0);
    assert!(r4.1);

    // a full battery fires the full alert
    let mut full = make_test_info();
    full.level = 100;
    full.state = ChargingState::Full;
    let r5 = alert_step(&config, &full, &r4.0);
    assert!(r5.2);
}

#[test]
fn test_generate_health_report() {
    let info = make_test_info();
    let report = generate_health_report(&info, Vec::new());
    assert_eq!(report.design_capacity_mah, Some(4500));
    assert_eq!(report.max_capacity_mah, Some(4215));
    assert_eq!(report.capacity_loss_mah, Some(285));
    assert_eq!(report.cycle_count, Some(47));
    assert_eq!(report.estimated_remaining_cycles, Some(953));
    assert_eq!(report.condition, "Normal");
    // 285 / 4500 in hundredths of a percent, truncated
    assert_eq!(report.capacity_loss_percent, Some(633));
    assert_eq!(report.health_percent, Some(9366));
    assert!(report.capacity_trend.is_empty());
}

#[test]
fn test_compare_with_new() {
    let info = make_test_info();
    let comparison = compare_with_new(&info);
    assert!(!comparison.is_empty());
    assert_eq!(comparison[0].0, "Max Capacity");
    assert_eq!(comparison[0].1, "4500 mAh");
    assert_eq!(comparison[0].2, "4215 mAh");
    assert_eq!(comparison[1].0, "Health");
    assert_eq!(comparison[1].1, "100.0%");
    assert_eq!(comparison[1].2, "93.6%");
    assert_eq!(comparison[3].0, "Condition");
    assert_eq!(comparison[3].2, "Normal");
}

#[test]
fn test_age_description() {
    // 400 days: one year, one month
    assert_eq!(
        calculate_age_description(0, 400 * 86400),
        Some("1 year, 1 month".to_string())
    );
    // 65 days: two months
    assert_eq!(
        calculate_age_description(0, 65 * 86400),
        Some("2 months".to_string())
    );
    // same day
    assert_eq!(calculate_age_description(0, 3600), Some("0 days".to_string()));
    // manufactured in the future
    assert_eq!(calculate_age_description(2 * 86400, 0), None);
}

fn cap_snap(ts: i64, max: Option<u32>, design: Option<u32>) -> BatterySnapshot {
    BatterySnapshot {
        timestamp: ts,
        level: 50,
        is_charging: false,
        power_draw_mw: None,
        cycle_count: None,
        max_capacity: max,
        design_capacity: design,
    }
}

#[test]
fn test_capacity_trend_same_day_first_capacity_wins() {
    // two same-day snapshots, only the second carrying capacity data:
    // one point for that day, from the second snapshot
    let rows = vec![
        cap_snap(1000, None, None),
        cap_snap(2000, Some(4000), Some(5000)),
        cap_snap(3000, Some(3900), Some(5000)),
    ];
    let trend = build_capacity_trend(&rows);
    assert_eq!(trend.len(), 1);
    assert_eq!(trend[0].day, 0);
    assert_eq!(trend[0].max_capacity_mah, 4000);
    assert_eq!(trend[0].health_centi, 8000);
}

#[test]
fn test_capacity_trend_buckets_by_day() {
    let rows = vec![
        cap_snap(1000, Some(4200), Some(4500)),
        cap_snap(86400 + 1000, Some(4190), None),
        cap_snap(3 * 86400, Some(4180), Some(0)),
    ];
    let trend = build_capacity_trend(&rows);
    assert_eq!(trend.len(), 3);
    assert_eq!(trend[0].day, 0);
    assert_eq!(trend[1].day, 1);
    assert_eq!(trend[2].day, 3);
    // missing design capacity falls back to the snapshot's own max
    assert_eq!(trend[1].health_centi, 10000);
    // a zero design capacity reads as full health
    assert_eq!(trend[2].health_centi, 10000);
    assert!(trend[0].day < trend[1].day && trend[1].day < trend[2].day);
}

#[test]
fn test_generate_suggestions() {
    let info = BatteryInfo {
        level: 50,
        state: ChargingState::Discharging,
        time_remaining_minutes: Some(120),
        power_draw_mw: Some(10_000),
        cycle_count: Some(100),
        max_capacity_mah: Some(4000),
        design_capacity_mah: Some(4500),
        current_capacity_mah: None,
        temperature_deci_c: Some(350),
        voltage_mv: None,
        condition: BatteryCondition::Normal,
        manufacture_date: None,
        is_present: true,
    };

    let report = generate_suggestions(&info, None, false);
    assert!(!report.suggestions.is_empty());
}

#[test]
fn test_aggressive_mode_adds_suggestions() {
    let info = BatteryInfo {
        level: 50,
        state: ChargingState::Discharging,
        time_remaining_minutes: None,
        power_draw_mw: None,
        cycle_count: None,
        max_capacity_mah: None,
        design_capacity_mah: None,
        current_capacity_mah: None,
        temperature_deci_c: None,
        voltage_mv: None,
        condition: BatteryCondition::Unknown,
        manufacture_date: None,
        is_present: true,
    };

    let normal = generate_suggestions(&info, None, false);
    let aggressive = generate_suggestions(&info, None, true);
    assert!(aggressive.suggestions.len() > normal.suggestions.len());
}

fn app(name: &str, cpu_centi: u64, mem: u64, mw: u64, count: usize) -> AppPowerInfo {
    AppPowerInfo {
        name: name.to_string(),
        cpu_centi,
        memory_bytes: mem,
        estimated_power_mw: mw,
        process_count: count,
    }
}

#[test]
fn test_power_report_percentages() {
    let report = PowerReport {
        apps: vec![
            app("Chrome", 3400, 500 << 20, 10_000, 5),
            app("Code", 1700, 300 << 20, 5_000, 2),
        ],
        total_cpu_centi: 5100,
        total_estimated_mw: 15_000,
        system_power_draw_mw: None,
    };

    let pcts = report.with_percentages();
    assert_eq!(pcts.len(), 2);
    assert_eq!(pcts[0].0, "Chrome");
    // 10 W of 15 W in hundredths of a percent
    assert_eq!(pcts[0].2, 6666);
    assert_eq!(pcts[1].2, 3333);
}

#[test]
fn test_suggestions_ranked_and_counted() {
    let mut info = make_test_info();
    info.level = 85;
    info.state = ChargingState::Charging;
    info.temperature_deci_c = Some(450);

    let power = PowerReport {
        apps: vec![
            app("Chrome", 3400, 0, 10_000, 5),
            app("Code", 1700, 0, 5_000, 2),
            app("Term", 2500, 0, 2_000, 1),
            app("Idle", 9900, 0, 1_000, 1),
        ],
        total_cpu_centi: 17_500,
        total_estimated_mw: 18_000,
        system_power_draw_mw: None,
    };

    let report = suggestions_for(&info, Some(&power), true, 250);
    // hot apps among the top three: Chrome and Term
    let highs = report.high_impact();
    let mediums = report.medium_impact();
    let lows = report.low_impact();
    assert_eq!(highs.len(), 3); // two hot apps + brightness
    assert_eq!(mediums.len(), 5); // processes, unplug, temperature, two radio tips
    assert_eq!(lows.len(), 3);
    assert_eq!(
        report.suggestions.len(),
        highs.len() + mediums.len() + lows.len()
    );
    // sorted by priority
    let ranks: Vec<u8> = report
        .suggestions
        .iter()
        .map(|s| match s.priority {
            Priority::High => 0,
            Priority::Medium => 1,
            Priority::Low => 2,
        })
        .collect();
    let mut sorted = ranks.clone();
    sorted.sort();
    assert_eq!(ranks, sorted);
    // 2 * 15 (hot) + 30 (brightness) + 15 (processes) + 30 (aggressive)
    assert_eq!(report.estimated_total_savings_minutes, Some(105));
    assert_eq!(highs[0].title, "Chrome is using 34% CPU");
    assert_eq!(highs[0].estimated_savings, Some("saves ~7.0W".to_string()));
}

#[test]
fn test_truncate_str() {
    assert_eq!(truncate_str("hello", 10), "hello");
    assert_eq!(truncate_str("abcdefghij", 8), "abcde...");
}

#[test]
fn test_power_share_with_zero_total() {
    let report = PowerReport {
        apps: vec![app("Idle", 0, 0, 0, 1)],
        total_cpu_centi: 0,
        total_estimated_mw: 0,
        system_power_draw_mw: None,
    };
    let pcts = report.with_percentages();
    assert_eq!(pcts.len(), 1);
    assert_eq!(pcts[0].2, 0);
}
