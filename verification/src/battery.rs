//! Canonical battery model: a platform-independent snapshot of battery state
//! and the pure computations derived from it.

use vstd::prelude::*;
use vstd::string::StrSliceExecFns;
use vstd::string::StringExecFns;
use crate::text::{
    append_u64, append_u64_pad2, dec_digits, dec_digits_pad2, lower_seq, spec_trim_end,
    spec_trim_start, str_eq_lower, trim_end_idx, trim_start_idx,
};

verus! {

/// An optional machine integer seen as an optional mathematical integer.
pub open spec fn option_i64_int(o: Option<i64>) -> Option<int> {
    match o {
        Some(v) => Some(v as int),
        None => None,
    }
}

/// An optional machine integer seen as an optional mathematical integer.
pub open spec fn option_u32_int(o: Option<u32>) -> Option<int> {
    match o {
        Some(v) => Some(v as int),
        None => None,
    }
}

/// Charging state of the battery.
#[derive(Debug, Clone, Copy, PartialEq, Eq, Structural)]
pub enum ChargingState {
    Charging,
    Discharging,
    Full,
    NotCharging,
    Unknown,
}

/// Battery condition assessment.
#[derive(Debug, Clone, Copy, PartialEq, Eq, Structural)]
pub enum BatteryCondition {
    Normal,
    Replace,
    ServiceRecommended,
    Poor,
    Unknown,
}

/// Core battery information snapshot.
///
/// Quantities that the hardware reports fractionally are carried as scaled
/// integers: power draw in milliwatts, temperature in tenths of a degree
/// Celsius, voltage in millivolts.  Absent data is `None`, never zero; the
/// level alone defaults to 0 when unreadable.
#[derive(Debug, Clone)]
pub struct BatteryInfo {
    pub level: u8,
    pub state: ChargingState,
    pub time_remaining_minutes: Option<i64>,
    pub power_draw_mw: Option<u32>,
    pub cycle_count: Option<u32>,
    pub max_capacity_mah: Option<u32>,
    pub design_capacity_mah: Option<u32>,
    pub current_capacity_mah: Option<u32>,
    pub temperature_deci_c: Option<u32>,
    pub voltage_mv: Option<u32>,
    pub condition: BatteryCondition,
    pub manufacture_date: Option<String>,
    pub is_present: bool,
}

impl BatteryInfo {
    /// A well-formed reading always keeps its level within 0..=100.
    pub open spec fn wf(self) -> bool {
        self.level <= 100
    }

    /// Health in hundredths of a percent: `max / design * 100`, so a return
    /// of `Some(9366)` means 93.66%.  Absent when either capacity is unknown
    /// or the design capacity is zero.
    pub fn health_percent(&self) -> (r: Option<u64>)
        ensures
            r == (match (self.max_capacity_mah, self.design_capacity_mah) {
                (Some(max), Some(design)) => if design > 0 {
                    Some(((max as int) * 10000 / (design as int)) as u64)
                } else {
                    None
                },
                _ => None,
            }),
    {
        match (self.max_capacity_mah, self.design_capacity_mah) {
            (Some(max), Some(design)) => {
                if design > 0 {
                    Some(max as u64 * 10000 / design as u64)
                } else {
                    None
                }
            }
            _ => None,
        }
    }

    /// Capacity lost relative to the design capacity, in mAh; negative when
    /// the battery reports more than its design capacity.
    pub fn capacity_loss_mah(&self) -> (r: Option<i64>)
        ensures
            r == (match (self.max_capacity_mah, self.design_capacity_mah) {
                (Some(max), Some(design)) => Some((design - max) as i64),
                _ => None,
            }),
    {
        match (self.max_capacity_mah, self.design_capacity_mah) {
            (Some(max), Some(design)) => Some(design as i64 - max as i64),
            _ => None,
        }
    }

    /// Cycles left before the nominal 1000-cycle lifetime is used up,
    /// saturating at zero.
    pub fn estimated_remaining_cycles(&self) -> (r: Option<u32>)
        ensures
            r == (match self.cycle_count {
                Some(c) => Some(if c >= 1000 {
                    0u32
                } else {
                    (1000 - c) as u32
                }),
                None => None,
            }),
    {
        match self.cycle_count {
            Some(c) => Some(1000u32.saturating_sub(c)),
            None => None,
        }
    }
}

/// What the shared condition fallback rule yields: capacity health when both
/// capacities are known (thresholds 80% and 60% of design), else the cycle
/// count heuristic (thresholds 800 and 1000 cycles), else unknown.
pub open spec fn spec_condition(
    max_cap: Option<u32>,
    design_cap: Option<u32>,
    cycle_count: Option<u32>,
) -> BatteryCondition {
    match (max_cap, design_cap) {
        (Some(max), Some(design)) => {
            if design == 0 {
                BatteryCondition::Unknown
            } else if max * 100 >= design * 80 {
                BatteryCondition::Normal
            } else if max * 100 >= design * 60 {
                BatteryCondition::ServiceRecommended
            } else {
                BatteryCondition::Replace
            }
        },
        _ => match cycle_count {
            Some(cycles) => {
                if cycles < 800 {
                    BatteryCondition::Normal
                } else if cycles < 1000 {
                    BatteryCondition::ServiceRecommended
                } else {
                    BatteryCondition::Replace
                }
            },
            None => BatteryCondition::Unknown,
        },
    }
}

/// Condition fallback used whenever a telemetry source cannot supply the
/// condition directly.
pub fn determine_condition(
    max_cap: Option<u32>,
    design_cap: Option<u32>,
    cycle_count: Option<u32>,
) -> (r: BatteryCondition)
    ensures
        r == spec_condition(max_cap, design_cap, cycle_count),
{
    if let (Some(max), Some(design)) = (max_cap, design_cap) {
        if design == 0 {
            return BatteryCondition::Unknown;
        }
        let health_num = max as u64 * 100;
        if health_num >= design as u64 * 80 {
            return BatteryCondition::Normal;
        } else if health_num >= design as u64 * 60 {
            return BatteryCondition::ServiceRecommended;
        } else {
            return BatteryCondition::Replace;
        }
    }
    if let Some(cycles) = cycle_count {
        if cycles < 800 {
            return BatteryCondition::Normal;
        } else if cycles < 1000 {
            return BatteryCondition::ServiceRecommended;
        } else {
            return BatteryCondition::Replace;
        }
    }
    BatteryCondition::Unknown
}

/// What the display rule yields: `"{h}h {mm}m"` for an hour or more (the
/// minutes zero-padded to two digits), `"{m}m"` below an hour, and
/// `"Calculating..."` for unknown or negative estimates.
pub open spec fn spec_time_remaining_display(mins_opt: Option<i64>) -> Seq<char> {
    match mins_opt {
        Some(mins) => {
            if mins >= 0 {
                let h = mins as int / 60;
                let m = mins as int % 60;
                if h > 0 {
                    dec_digits(h) + "h "@ + dec_digits_pad2(m) + "m"@
                } else {
                    dec_digits(m) + "m"@
                }
            } else {
                "Calculating..."@
            }
        },
        None => "Calculating..."@,
    }
}

impl BatteryInfo {
    /// Time remaining as a display string.
    pub fn time_remaining_display(&self) -> (r: String)
        ensures
            r@ == spec_time_remaining_display(self.time_remaining_minutes),
    {
        match self.time_remaining_minutes {
            Some(mins) => {
                if mins >= 0 {
                    let total = mins as u64;
                    let hours = total / 60;
                    let rem = total % 60;
                    let mut out = String::new();
                    if hours > 0 {
                        append_u64(hours, &mut out);
                        out.append("h ");
                        append_u64_pad2(rem, &mut out);
                        out.append("m");
                    } else {
                        append_u64(rem, &mut out);
                        out.append("m");
                    }
                    proof {
                        assert(out@ =~= spec_time_remaining_display(
                            self.time_remaining_minutes,
                        ));
                    }
                    out
                } else {
                    String::from_str("Calculating...")
                }
            },
            None => String::from_str("Calculating..."),
        }
    }
}

/// Raw attribute values read from one power-supply directory entry, before
/// normalization.  Integer attributes keep the units the files use:
/// micro-amp-hours or micro-watt-hours for the capacity families,
/// micro-watts, micro-amps and micro-volts for the power family, tenths of
/// a degree for the temperature.
pub struct SysfsBattery {
    pub capacity: Option<u32>,
    pub status: String,
    pub energy_full: Option<u32>,
    pub energy_full_design: Option<u32>,
    pub energy_now: Option<u32>,
    pub charge_full: Option<u32>,
    pub charge_full_design: Option<u32>,
    pub charge_now: Option<u32>,
    pub power_now_uw: Option<u32>,
    pub current_now_ua: Option<u32>,
    pub voltage_now_uv: Option<u32>,
    pub cycle_count: Option<u32>,
    pub temp_deci_c: Option<u32>,
    pub manufacture_date: Option<String>,
}

/// Charging state from the status attribute, matched case-insensitively
/// after trimming.
pub open spec fn spec_status_state(status: Seq<char>) -> ChargingState {
    let ts = spec_trim_start(status, 0, status.len() as int);
    let te = spec_trim_end(status, ts, status.len() as int);
    let t = lower_seq(status.subrange(ts, te));
    if t == "charging"@ {
        ChargingState::Charging
    } else if t == "discharging"@ {
        ChargingState::Discharging
    } else if t == "full"@ {
        ChargingState::Full
    } else if t == "not charging"@ {
        ChargingState::NotCharging
    } else {
        ChargingState::Unknown
    }
}

/// An optional micro-unit value scaled down to milli-units by truncating
/// division.
pub open spec fn opt_div1000(o: Option<u32>) -> Option<int> {
    match o {
        Some(v) => Some(v as int / 1000),
        None => None,
    }
}

/// The capacity triple (max, design, current) in milli-units: the
/// amp-hour family when it reports a full value, else the watt-hour family.
pub open spec fn spec_sysfs_caps(d: SysfsBattery) -> (Option<int>, Option<int>, Option<int>) {
    if d.charge_full is Some {
        (opt_div1000(d.charge_full), opt_div1000(d.charge_full_design), opt_div1000(d.charge_now))
    } else {
        (opt_div1000(d.energy_full), opt_div1000(d.energy_full_design), opt_div1000(d.energy_now))
    }
}

/// Power draw in milliwatts: the direct power attribute when present, else
/// current times voltage, saturating at the 32-bit range.
pub open spec fn spec_sysfs_power_mw(d: SysfsBattery) -> Option<int> {
    match d.power_now_uw {
        Some(p) => Some(p as int / 1000),
        None => match (d.current_now_ua, d.voltage_now_uv) {
            (Some(c), Some(v)) => {
                let mw = (c as int) * ((v as int) / 1000) / 1000000;
                Some(
                    if mw > 0xffffffff {
                        0xffffffff
                    } else {
                        mw
                    },
                )
            },
            _ => None,
        },
    }
}

/// Time remaining in minutes, computed only when the direct power reading
/// exceeds 0.1 W: energy left over power while discharging, energy missing
/// over power while charging (clamped at zero), unknown otherwise.
pub open spec fn spec_sysfs_time_remaining(
    state: ChargingState,
    energy_now: Option<u32>,
    energy_full: Option<u32>,
    power_now_uw: Option<u32>,
) -> Option<int> {
    match power_now_uw {
        Some(p) => {
            if p > 100000 {
                match state {
                    ChargingState::Discharging => match energy_now {
                        Some(e) => Some((e as int) * 60 / (p as int)),
                        None => None,
                    },
                    ChargingState::Charging => match (energy_now, energy_full) {
                        (Some(e), Some(f)) => {
                            if f > e {
                                Some(((f - e) as int) * 60 / (p as int))
                            } else {
                                Some(0)
                            }
                        },
                        _ => None,
                    },
                    _ => None,
                }
            } else {
                None
            }
        },
        None => None,
    }
}

fn status_state(status: &str) -> (r: ChargingState)
    ensures
        r == spec_status_state(status@),
{
    let n = status.unicode_len();
    let ts = trim_start_idx(status, n, 0, n);
    let te = trim_end_idx(status, n, ts, n);
    let t = status.substring_char(ts, te);
    if str_eq_lower(t, "charging") {
        ChargingState::Charging
    } else if str_eq_lower(t, "discharging") {
        ChargingState::Discharging
    } else if str_eq_lower(t, "full") {
        ChargingState::Full
    } else if str_eq_lower(t, "not charging") {
        ChargingState::NotCharging
    } else {
        ChargingState::Unknown
    }
}

fn opt_milli(o: Option<u32>) -> (r: Option<u32>)
    ensures
        option_u32_int(r) == opt_div1000(o),
{
    match o {
        Some(v) => Some(v / 1000),
        None => None,
    }
}

/// Builds a canonical reading from the attribute values of a power-supply
/// entry: the level clamped to 100 and defaulting to 0 when unreadable,
/// every other missing attribute staying unknown, and the condition from
/// the shared fallback rule.
pub fn reading_from_sysfs(d: &SysfsBattery) -> (r: BatteryInfo)
    ensures
        r.level as int == (match d.capacity {
            Some(c) => if c > 100 {
                100int
            } else {
                c as int
            },
            None => 0int,
        }),
        r.wf(),
        r.state == spec_status_state(d.status@),
        option_u32_int(r.max_capacity_mah) == spec_sysfs_caps(*d).0,
        option_u32_int(r.design_capacity_mah) == spec_sysfs_caps(*d).1,
        option_u32_int(r.current_capacity_mah) == spec_sysfs_caps(*d).2,
        option_u32_int(r.power_draw_mw) == spec_sysfs_power_mw(*d),
        option_i64_int(r.time_remaining_minutes) == spec_sysfs_time_remaining(
            r.state,
            d.energy_now,
            d.energy_full,
            d.power_now_uw,
        ),
        r.cycle_count == d.cycle_count,
        r.temperature_deci_c == d.temp_deci_c,
        option_u32_int(r.voltage_mv) == opt_div1000(d.voltage_now_uv),
        r.condition == spec_condition(r.max_capacity_mah, r.design_capacity_mah, d.cycle_count),
        r.manufacture_date == d.manufacture_date,
        r.is_present,
{
    let level: u8 = match d.capacity {
        Some(c) => {
            if c > 100 {
                100
            } else {
                c as u8
            }
        },
        None => 0,
    };
    let state = status_state(d.status.as_str());
    let (max_cap, design_cap, current_cap) = if d.charge_full.is_some() {
        (opt_milli(d.charge_full), opt_milli(d.charge_full_design), opt_milli(d.charge_now))
    } else {
        (opt_milli(d.energy_full), opt_milli(d.energy_full_design), opt_milli(d.energy_now))
    };
    let power_draw_mw: Option<u32> = match d.power_now_uw {
        Some(p) => Some(p / 1000),
        None => match (d.current_now_ua, d.voltage_now_uv) {
            (Some(c), Some(v)) => {
                let q: u32 = v / 1000;
                proof {
                    assert((c as int) * (q as int) < 0x10000000000000000) by (nonlinear_arith)
                        requires
                            (c as int) <= 0xffffffff,
                            (q as int) <= 0xffffffff,
                    ;
                }
                let mw = (c as u64) * (q as u64) / 1000000;
                if mw > 0xffffffffu64 {
                    Some(0xffffffffu32)
                } else {
                    Some(mw as u32)
                }
            },
            _ => None,
        },
    };
    let time_remaining_minutes: Option<i64> = match d.power_now_uw {
        Some(p) => {
            if p > 100000 {
                match state {
                    ChargingState::Discharging => match d.energy_now {
                        Some(e) => Some(((e as u64) * 60 / (p as u64)) as i64),
                        None => None,
                    },
                    ChargingState::Charging => match (d.energy_now, d.energy_full) {
                        (Some(e), Some(f)) => {
                            if f > e {
                                Some((((f - e) as u64) * 60 / (p as u64)) as i64)
                            } else {
                                Some(0)
                            }
                        },
                        _ => None,
                    },
                    _ => None,
                }
            } else {
                None
            }
        },
        None => None,
    };
    let condition = determine_condition(max_cap, design_cap, d.cycle_count);
    let manufacture_date = match &d.manufacture_date {
        Some(x) => Some(x.clone()),
        None => None,
    };
    BatteryInfo {
        level,
        state,
        time_remaining_minutes,
        power_draw_mw,
        cycle_count: d.cycle_count,
        max_capacity_mah: max_cap,
        design_capacity_mah: design_cap,
        current_capacity_mah: current_cap,
        temperature_deci_c: d.temp_deci_c,
        voltage_mv: opt_milli(d.voltage_now_uv),
        condition,
        manufacture_date,
        is_present: true,
    }
}

/// Display name of a charging state.
pub open spec fn spec_state_label(s: ChargingState) -> Seq<char> {
    match s {
        ChargingState::Charging => "Charging"@,
        ChargingState::Discharging => "Discharging"@,
        ChargingState::Full => "Full"@,
        ChargingState::NotCharging => "Not Charging"@,
        ChargingState::Unknown => "Unknown"@,
    }
}

impl ChargingState {
    /// Display name of the state.
    pub fn label(&self) -> (r: String)
        ensures
            r@ == spec_state_label(*self),
    {
        match self {
            ChargingState::Charging => String::from_str("Charging"),
            ChargingState::Discharging => String::from_str("Discharging"),
            ChargingState::Full => String::from_str("Full"),
            ChargingState::NotCharging => String::from_str("Not Charging"),
            ChargingState::Unknown => String::from_str("Unknown"),
        }
    }
}

/// Display name of a condition.
pub open spec fn spec_condition_label(c: BatteryCondition) -> Seq<char> {
    match c {
        BatteryCondition::Normal => "Normal"@,
        BatteryCondition::Replace => "Replace"@,
        BatteryCondition::ServiceRecommended => "Service Recommended"@,
        BatteryCondition::Poor => "Poor"@,
        BatteryCondition::Unknown => "Unknown"@,
    }
}

impl BatteryCondition {
    /// Display name of the condition.
    pub fn label(&self) -> (r: String)
        ensures
            r@ == spec_condition_label(*self),
    {
        match self {
            BatteryCondition::Normal => String::from_str("Normal"),
            BatteryCondition::Replace => String::from_str("Replace"),
            BatteryCondition::ServiceRecommended => String::from_str("Service Recommended"),
            BatteryCondition::Poor => String::from_str("Poor"),
            BatteryCondition::Unknown => String::from_str("Unknown"),
        }
    }
}

/// Whether a power-supply entry's type attribute marks a battery: the
/// trimmed text equals `battery`, matched case-insensitively.
pub fn is_battery_type(s: &str) -> (r: bool)
    ensures
        r == (lower_seq(
            s@.subrange(
                spec_trim_start(s@, 0, s@.len() as int),
                spec_trim_end(s@, spec_trim_start(s@, 0, s@.len() as int), s@.len() as int),
            ),
        ) == "battery"@),
{
    let n = s.unicode_len();
    let ts = trim_start_idx(s, n, 0, n);
    let te = trim_end_idx(s, n, ts, n);
    let t = s.substring_char(ts, te);
    str_eq_lower(t, "battery")
}

/// Law: the capacity branch of the condition fallback is exactly the
/// health-percentage rule — normal from 80% health up, service
/// recommended from 60%, replacement below that.
pub proof fn lemma_condition_matches_health(max: u32, design: u32)
    requires
        design > 0,
    ensures
        ({
            let h = (max as int) * 10000 / (design as int);
            &&& (spec_condition(Some(max), Some(design), None) == BatteryCondition::Normal <==> h
                >= 8000)
            &&& (spec_condition(Some(max), Some(design), None)
                == BatteryCondition::ServiceRecommended <==> 6000 <= h < 8000)
            &&& (spec_condition(Some(max), Some(design), None) == BatteryCondition::Replace <==> h
                < 6000)
        }),
{
    let m = max as int;
    let d = design as int;
    let h = m * 10000 / d;
    vstd::arithmetic::div_mod::lemma_fundamental_div_mod(m * 10000, d);
    let rem = (m * 10000) % d;
    assert(0 <= rem < d) by {
        vstd::arithmetic::div_mod::lemma_mod_bound(m * 10000, d);
    }
    assert(m * 10000 == d * h + rem);
    assert(m * 100 >= d * 80 <==> h >= 8000) by (nonlinear_arith)
        requires
            d > 0,
            0 <= rem < d,
            m * 10000 == d * h + rem,
    ;
    assert(m * 100 >= d * 60 <==> h >= 6000) by (nonlinear_arith)
        requires
            d > 0,
            0 <= rem < d,
            m * 10000 == d * h + rem,
    ;
}

} // verus!
