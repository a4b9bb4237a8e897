//! Alert rules: the pure decision step of the battery monitor.  The loop
//! that sleeps, reads the battery and delivers notifications runs outside
//! the library and feeds each fresh reading through [`alert_step`].

use vstd::prelude::*;
use crate::battery::{BatteryInfo, ChargingState};

verus! {

/// Alert configuration.
#[derive(Debug, Clone)]
pub struct AlertConfig {
    pub level_threshold: Option<u8>,
    pub on_full: bool,
    pub check_interval_secs: u64,
}

impl Default for AlertConfig {
    /// No thresholds armed, checking once a minute.
    fn default() -> (r: Self)
        ensures
            r.level_threshold is None,
            !r.on_full,
            r.check_interval_secs == 60,
    {
        AlertConfig { level_threshold: None, on_full: false, check_interval_secs: 60 }
    }
}

/// Which alerts have already fired, so that each condition alerts once per
/// crossing.
#[derive(Debug, Clone, Copy, PartialEq, Eq, Structural, Default)]
pub struct AlertState {
    pub level_alerted: bool,
    pub full_alerted: bool,
}

/// The low-battery condition: at or under the threshold and not on power.
pub open spec fn spec_low_condition(config: AlertConfig, info: BatteryInfo) -> bool {
    match config.level_threshold {
        Some(threshold) => info.level <= threshold && !(info.state == ChargingState::Charging
            || info.state == ChargingState::Full),
        None => false,
    }
}

/// The full-battery condition: fully charged state or a level at 100.
pub open spec fn spec_full_condition(config: AlertConfig, info: BatteryInfo) -> bool {
    config.on_full && (info.state == ChargingState::Full || info.level >= 100)
}

/// One decision step of the alert monitor: whether to fire the low and the
/// full alert for this reading, and the armed state to carry to the next
/// reading.  An alert fires exactly when its condition holds and it has
/// not fired since the condition last cleared.
pub fn alert_step(config: &AlertConfig, info: &BatteryInfo, st: &AlertState) -> (r: (
    AlertState,
    bool,
    bool,
))
    ensures
        r.1 == (spec_low_condition(*config, *info) && !st.level_alerted),
        r.2 == (spec_full_condition(*config, *info) && !st.full_alerted),
        r.0.level_alerted == (if config.level_threshold is Some {
            spec_low_condition(*config, *info)
        } else {
            st.level_alerted
        }),
        r.0.full_alerted == (if config.on_full {
            spec_full_condition(*config, *info)
        } else {
            st.full_alerted
        }),
{
    let mut fire_low = false;
    let mut fire_full = false;
    let mut next = *st;
    match config.level_threshold {
        Some(threshold) => {
            let on_power = matches!(
                info.state,
                ChargingState::Charging | ChargingState::Full
            );
            if info.level <= threshold && !on_power {
                if !st.level_alerted {
                    fire_low = true;
                }
                next.level_alerted = true;
            } else {
                next.level_alerted = false;
            }
        },
        None => {},
    }
    if config.on_full {
        if matches!(info.state, ChargingState::Full) || info.level >= 100 {
            if !st.full_alerted {
                fire_full = true;
            }
            next.full_alerted = true;
        } else {
            next.full_alerted = false;
        }
    }
    (next, fire_low, fire_full)
}

} // verus!
