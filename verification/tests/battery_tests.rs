use batteryctl::battery::{
    determine_condition, is_battery_type, reading_from_sysfs, BatteryCondition, BatteryInfo,
    ChargingState, SysfsBattery,
};
use batteryctl::parse::{
    extract_number_before, extract_profiler_value, extract_time_remaining, parse_leading_u32,
    parse_macos_battery, parse_u32_str,
};

fn make_info() -> BatteryInfo {
    BatteryInfo {
        level: 87,
        state: ChargingState::Charging,
        time_remaining_minutes: Some(83),
        power_draw_mw: Some(15200),
        cycle_count: Some(47),
        max_capacity_mah: Some(4215),
        design_capacity_mah: Some(4500),
        current_capacity_mah: Some(3667),
        temperature_deci_c: Some(320),
        voltage_mv: Some(12400),
        condition: BatteryCondition::Normal,
        manufacture_date: Some("2024-03-15".to_string()),
        is_present: true,
    }
}

#[test]
fn test_extract_number_before() {
    assert_eq!(extract_number_before("87%;", '%'), Some(87));
    assert_eq!(extract_number_before("  100%", '%'), Some(100));
    assert_eq!(extract_number_before("abc%", '%'), None);
}

#[test]
fn test_extract_time_remaining() {
    assert_eq!(
        extract_time_remaining("InternalBattery 87%; charging; 1:23 remaining"),
        Some(83)
    );
    assert_eq!(
        extract_time_remaining("InternalBattery 87%; (no estimate)"),
        None
    );
}

#[test]
fn test_battery_info_health() {
    let info = make_info();

    let health = info.health_percent().unwrap();
    assert_eq!(health, 9366);
    assert_eq!(info.capacity_loss_mah(), Some(285));
    assert_eq!(info.estimated_remaining_cycles(), Some(953));
    assert_eq!(info.time_remaining_display(), "1h 23m");
}

#[test]
fn test_determine_condition() {
    assert_eq!(
        determine_condition(Some(4500), Some(5000), None),
        BatteryCondition::Normal
    );
    assert_eq!(
        determine_condition(Some(3500), Some(5000), None),
        BatteryCondition::ServiceRecommended
    );
    assert_eq!(
        determine_condition(Some(2000), Some(5000), None),
        BatteryCondition::Replace
    );
}

#[test]
fn test_parse_macos_battery() {
    let pmset = "Now drawing from 'AC Power'\n -InternalBattery-0 (id=1234567)\t87%; charging; 1:23 remaining present: true";
    let profiler = "Battery Information:\n      Cycle Count: 47\n      Condition: Normal\n      Full Charge Capacity (mAh): 4215\n      Design Capacity (mAh): 4500";

    let info = parse_macos_battery(pmset, profiler);
    assert_eq!(info.level, 87);
    assert_eq!(info.state, ChargingState::Charging);
    assert_eq!(info.time_remaining_minutes, Some(83));
    assert_eq!(info.cycle_count, Some(47));
}

#[test]
fn test_parse_macos_capacities_and_condition() {
    let pmset = "Now drawing from 'Battery Power'\n -InternalBattery-0\t42%; discharging; (no estimate) present: true";
    let profiler = "Battery Information:\n  Cycle Count: 312\n  Condition: Replace Soon\n  Maximum Capacity: 87%\n  Design Capacity (mAh): 5000";

    let info = parse_macos_battery(pmset, profiler);
    assert_eq!(info.level, 42);
    assert_eq!(info.state, ChargingState::Discharging);
    assert_eq!(info.time_remaining_minutes, None);
    assert_eq!(info.condition, BatteryCondition::Replace);
    // design scaled by the maximum-capacity percent
    assert_eq!(info.max_capacity_mah, Some(4350));
    assert_eq!(info.design_capacity_mah, Some(5000));
}

#[test]
fn test_condition_fallback_from_percent() {
    let pmset = "87%;";
    let profiler = "Battery Information:\n  Maximum Capacity: 73%";
    let info = parse_macos_battery(pmset, profiler);
    assert_eq!(info.condition, BatteryCondition::ServiceRecommended);
}

#[test]
fn test_level_clamped_to_100() {
    // the percentage in the text is clamped
    let info = parse_macos_battery("InternalBattery 250%;", "");
    assert_eq!(info.level, 100);

    // the attribute-file reading is clamped too, and defaults to 0
    let mut raw = empty_sysfs();
    raw.capacity = Some(250);
    let reading = reading_from_sysfs(&raw);
    assert_eq!(reading.level, 100);

    let raw2 = empty_sysfs();
    let reading2 = reading_from_sysfs(&raw2);
    assert_eq!(reading2.level, 0);
}

fn empty_sysfs() -> SysfsBattery {
    SysfsBattery {
        capacity: None,
        status: String::new(),
        energy_full: None,
        energy_full_design: None,
        energy_now: None,
        charge_full: None,
        charge_full_design: None,
        charge_now: None,
        power_now_uw: None,
        current_now_ua: None,
        voltage_now_uv: None,
        cycle_count: None,
        temp_deci_c: None,
        manufacture_date: None,
    }
}

#[test]
fn test_sysfs_reading_charge_family() {
    let mut raw = empty_sysfs();
    raw.capacity = Some(76);
    raw.status = "Discharging\n".to_string();
    raw.charge_full = Some(4_215_000);
    raw.charge_full_design = Some(4_500_000);
    raw.charge_now = Some(3_667_000);
    raw.energy_full = Some(99_000_000);
    raw.power_now_uw = Some(12_000_000);
    raw.current_now_ua = Some(1_000_000);
    raw.voltage_now_uv = Some(12_400_000);
    raw.cycle_count = Some(47);
    raw.temp_deci_c = Some(320);
    raw.energy_now = Some(48_000_000);

    let r = reading_from_sysfs(&raw);
    assert_eq!(r.level, 76);
    assert_eq!(r.state, ChargingState::Discharging);
    // the amp-hour family wins over the watt-hour family
    assert_eq!(r.max_capacity_mah, Some(4215));
    assert_eq!(r.design_capacity_mah, Some(4500));
    assert_eq!(r.current_capacity_mah, Some(3667));
    // direct power attribute, micro- to milliwatts
    assert_eq!(r.power_draw_mw, Some(12000));
    assert_eq!(r.voltage_mv, Some(12400));
    assert_eq!(r.temperature_deci_c, Some(320));
    // discharging: energy / power * 60 = 48 Wh / 12 W * 60 = 240 min
    assert_eq!(r.time_remaining_minutes, Some(240));
    assert_eq!(r.condition, BatteryCondition::Normal);
}

#[test]
fn test_sysfs_derived_power_and_charging_time() {
    let mut raw = empty_sysfs();
    raw.status = "Charging".to_string();
    raw.energy_now = Some(40_000_000);
    raw.energy_full = Some(52_000_000);
    raw.power_now_uw = Some(24_000_000);
    let r = reading_from_sysfs(&raw);
    // charging: (full - now) / power * 60 = 12 Wh / 24 W * 60 = 30 min
    assert_eq!(r.time_remaining_minutes, Some(30));

    let mut raw2 = empty_sysfs();
    raw2.current_now_ua = Some(2_000_000);
    raw2.voltage_now_uv = Some(12_000_000);
    let r2 = reading_from_sysfs(&raw2);
    // derived power: 2 A * 12 V = 24 W
    assert_eq!(r2.power_draw_mw, Some(24000));
    // no direct power attribute, so no time estimate
    assert_eq!(r2.time_remaining_minutes, None);
}

#[test]
fn test_time_remaining_display_forms() {
    let mut info = make_info();
    info.time_remaining_minutes = Some(59);
    assert_eq!(info.time_remaining_display(), "59m");
    info.time_remaining_minutes = Some(65);
    assert_eq!(info.time_remaining_display(), "1h 05m");
    info.time_remaining_minutes = None;
    assert_eq!(info.time_remaining_display(), "Calculating...");
    info.time_remaining_minutes = Some(-5);
    assert_eq!(info.time_remaining_display(), "Calculating...");
}

#[test]
fn test_profiler_field_extraction() {
    let profiler = "Battery Information:\n  Cycle Count: 47\n  Manufacture Date: 2024-03-15\n";
    assert_eq!(
        extract_profiler_value(profiler, "Cycle Count"),
        Some("47".to_string())
    );
    assert_eq!(
        extract_profiler_value(profiler, "Manufacture Date"),
        Some("2024-03-15".to_string())
    );
    assert_eq!(extract_profiler_value(profiler, "Condition"), None);
}

#[test]
fn test_numeric_value_parsers() {
    assert_eq!(parse_u32_str("47"), Some(47));
    assert_eq!(parse_u32_str("47x"), None);
    assert_eq!(parse_leading_u32("87%"), Some(87));
    assert_eq!(parse_leading_u32("4215 mAh"), Some(4215));
    assert_eq!(parse_leading_u32("mAh"), None);
}

#[test]
fn test_condition_labels() {
    assert_eq!(BatteryCondition::Normal.label(), "Normal");
    assert_eq!(BatteryCondition::ServiceRecommended.label(), "Service Recommended");
    assert_eq!(BatteryCondition::Replace.label(), "Replace");
    assert_eq!(ChargingState::NotCharging.label(), "Not Charging");
}

#[test]
fn test_is_battery_type() {
    assert!(is_battery_type("Battery\n"));
    assert!(is_battery_type("  battery  "));
    assert!(!is_battery_type("Mains\n"));
    assert!(!is_battery_type(""));
}

#[test]
fn test_extract_number_overflow_is_none() {
    assert_eq!(extract_number_before("99999999999%", '%'), None);
    assert_eq!(extract_number_before("4294967295%", '%'), Some(u32::MAX));
}

#[test]
fn test_time_token_needs_exactly_two_parts() {
    assert_eq!(extract_time_remaining("boot 1:2:3 remaining"), None);
    assert_eq!(extract_time_remaining("x 0:05 remaining"), Some(5));
    assert_eq!(extract_time_remaining("1:23 elsewhere"), None);
}
