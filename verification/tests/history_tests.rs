use batteryctl::battery::{BatteryCondition, BatteryInfo, ChargingState};
use batteryctl::errors::BatteryError;
use batteryctl::history::{
    format_duration, parse_duration_str, summarize, BatterySnapshot, HistoryManager,
};

fn make_test_info(level: u8, charging: bool) -> BatteryInfo {
    BatteryInfo {
        level,
        state: if charging {
            ChargingState::Charging
        } else {
            ChargingState::Discharging
        },
        time_remaining_minutes: None,
        power_draw_mw: Some(10_000),
        cycle_count: Some(50),
        max_capacity_mah: Some(4200),
        design_capacity_mah: Some(4500),
        current_capacity_mah: None,
        temperature_deci_c: None,
        voltage_mv: None,
        condition: BatteryCondition::Normal,
        manufacture_date: None,
        is_present: true,
    }
}

fn temp_store() -> (tempfile::NamedTempFile, HistoryManager) {
    let tmp = tempfile::NamedTempFile::new().unwrap();
    let hist = HistoryManager::open_at(tmp.path().to_str().unwrap()).unwrap();
    (tmp, hist)
}

#[test]
fn test_record_and_retrieve() {
    let (_tmp, mut hist) = temp_store();

    let info = make_test_info(80, false);
    hist.record_snapshot(&info).unwrap();
    hist.record_snapshot(&info).unwrap();

    assert_eq!(hist.snapshot_count().unwrap(), 2);

    let snapshots = hist.get_snapshots_range(60).unwrap();
    assert_eq!(snapshots.len(), 2);
    assert_eq!(snapshots[0].level, 80);
}

#[test]
fn test_parse_duration_str() {
    assert_eq!(parse_duration_str("24h").unwrap(), 24 * 60);
    assert_eq!(parse_duration_str("7d").unwrap(), 7 * 24 * 60);
    assert_eq!(parse_duration_str("4w").unwrap(), 28 * 24 * 60);
    assert_eq!(parse_duration_str("1m").unwrap(), 30 * 24 * 60);
    assert!(parse_duration_str("abc").is_err());
}

#[test]
fn test_parse_duration_edge_cases() {
    assert_eq!(parse_duration_str(" 12H "), Ok(12 * 60));
    assert_eq!(parse_duration_str("h"), Err(BatteryError::InvalidFormat));
    assert_eq!(parse_duration_str(""), Err(BatteryError::InvalidFormat));
    assert_eq!(parse_duration_str("5x"), Err(BatteryError::InvalidFormat));
    assert_eq!(
        parse_duration_str("99999999999999999999h"),
        Err(BatteryError::InvalidFormat)
    );
}

#[test]
fn test_format_duration() {
    assert_eq!(format_duration(12 * 60), "Last 12 hours");
    assert_eq!(format_duration(3 * 24 * 60), "Last 3 days");
    assert_eq!(format_duration(2 * 7 * 24 * 60), "Last 2 weeks");
    assert_eq!(format_duration(60 * 24 * 60), "Last 2 months");
    assert_eq!(format_duration(60), "Last 1 hour");
}

#[test]
fn test_round_trip_preserves_fields() {
    let (_tmp, mut hist) = temp_store();

    let mut infos = Vec::new();
    for (level, charging) in [(80u8, false), (60u8, true), (40u8, false)] {
        let info = make_test_info(level, charging);
        hist.record_snapshot(&info).unwrap();
        infos.push(info);
    }

    let rows = hist.get_snapshots_range(24 * 60).unwrap();
    assert_eq!(rows.len(), 3);
    for w in rows.windows(2) {
        assert!(w[0].timestamp <= w[1].timestamp);
    }
    // all rows were recorded within the same second or two, so the order
    // of equal timestamps is free; check the recorded field multiset
    let mut levels: Vec<u8> = rows.iter().map(|r| r.level).collect();
    levels.sort();
    assert_eq!(levels, vec![40, 60, 80]);
    for row in &rows {
        assert_eq!(row.power_draw_mw, Some(10_000));
        assert_eq!(row.cycle_count, Some(50));
        assert_eq!(row.max_capacity, Some(4200));
        assert_eq!(row.design_capacity, Some(4500));
        let expected_charging = infos
            .iter()
            .find(|i| i.level == row.level)
            .map(|i| i.state == ChargingState::Charging)
            .unwrap();
        assert_eq!(row.is_charging, expected_charging);
    }
}

#[test]
fn test_summary_empty_range() {
    let (_tmp, mut hist) = temp_store();
    let summary = hist.get_summary(60).unwrap();
    assert_eq!(summary.snapshots_count, 0);
    assert_eq!(summary.avg_level_centi, None);
    assert_eq!(summary.min_level, 0);
    assert_eq!(summary.max_level, 0);
    assert_eq!(summary.charging_periods, 0);
    assert_eq!(summary.total_charging_minutes, 0);
    assert_eq!(summary.total_discharging_minutes, 0);
    assert_eq!(summary.avg_discharge_rate_mw, None);
    assert_eq!(summary.estimated_cycles_centi, 0);
    assert_eq!(summary.period_description, "Last 1 hour");
}

fn snap(
    ts: i64,
    level: u8,
    charging: bool,
    power: Option<u32>,
) -> BatterySnapshot {
    BatterySnapshot {
        timestamp: ts,
        level,
        is_charging: charging,
        power_draw_mw: power,
        cycle_count: None,
        max_capacity: None,
        design_capacity: None,
    }
}

#[test]
fn test_summarize_statistics() {
    let rows = vec![
        snap(0, 80, true, None),
        snap(600, 75, false, Some(10_000)),
        snap(1200, 70, false, Some(12_000)),
    ];
    let s = summarize(&rows, 24 * 60);
    assert_eq!(s.snapshots_count, 3);
    assert_eq!(s.min_level, 70);
    assert_eq!(s.max_level, 80);
    // mean of 80, 75, 70 in hundredths
    assert_eq!(s.avg_level_centi, Some(7500));
    // the window starts charging: one charging period
    assert_eq!(s.charging_periods, 1);
    // first gap attributed to the earlier (charging) sample
    assert_eq!(s.total_charging_minutes, 10);
    assert_eq!(s.total_discharging_minutes, 10);
    // mean of the two discharge readings
    assert_eq!(s.avg_discharge_rate_mw, Some(11_000));
    // one not-charging pair with a five-point drop
    assert_eq!(s.estimated_cycles_centi, 5);
    assert_eq!(s.period_description, "Last 1 day");
}

#[test]
fn test_summarize_charging_transitions() {
    let rows = vec![
        snap(0, 50, false, None),
        snap(60, 52, true, None),
        snap(120, 55, true, None),
        snap(180, 54, false, None),
        snap(240, 56, true, None),
    ];
    let s = summarize(&rows, 60);
    assert_eq!(s.charging_periods, 2);
    assert_eq!(s.total_charging_minutes, 2);
    assert_eq!(s.total_discharging_minutes, 2);
    // pairs with both samples not charging: none
    assert_eq!(s.estimated_cycles_centi, 0);
}

#[test]
fn test_prune_deletes_old_rows() {
    let (_tmp, mut hist) = temp_store();
    let info = make_test_info(70, false);
    hist.record_snapshot(&info).unwrap();
    hist.record_snapshot(&info).unwrap();
    assert_eq!(hist.snapshot_count().unwrap(), 2);

    // a negative retention keeps nothing: the cutoff lies in the future
    let deleted = hist.prune(-60).unwrap();
    assert_eq!(deleted, 2);
    assert_eq!(hist.snapshot_count().unwrap(), 0);
}

#[test]
fn test_open_twice_same_file() {
    let tmp = tempfile::NamedTempFile::new().unwrap();
    let path = tmp.path().to_str().unwrap().to_string();
    {
        let mut hist = HistoryManager::open_at(&path).unwrap();
        let info = make_test_info(64, true);
        hist.record_snapshot(&info).unwrap();
        assert_eq!(hist.snapshot_count().unwrap(), 1);
    }
    // a second open neither errors nor duplicates schema or data
    let mut hist2 = HistoryManager::open_at(&path).unwrap();
    assert_eq!(hist2.snapshot_count().unwrap(), 1);
    let info = make_test_info(65, true);
    hist2.record_snapshot(&info).unwrap();
    assert_eq!(hist2.snapshot_count().unwrap(), 2);
}

#[test]
fn test_open_bad_path_is_storage_error() {
    let r = HistoryManager::open_at("/nonexistent-dir-for-batteryctl/sub/history.db");
    assert_eq!(r.err(), Some(BatteryError::StorageError));
}

#[test]
fn test_signed_durations() {
    // a signed numeric prefix parses like the number itself would
    assert_eq!(parse_duration_str("+5h"), Ok(300));
    assert_eq!(parse_duration_str("-5h"), Ok(-300));
    assert_eq!(format_duration(-300), "Last -5 hours");
}
