//! Battery health reporting: wear figures derived from a reading, and the
//! long-horizon capacity trend bucketed by UTC calendar day.

use vstd::prelude::*;
use vstd::arithmetic::div_mod::{lemma_fundamental_div_mod, lemma_fundamental_div_mod_converse};
use vstd::string::StringExecFns;
use crate::battery::{option_u32_int, BatteryCondition, BatteryInfo};
use crate::errors::BatteryError;
use crate::history::{div_trunc, sorted_by_timestamp, BatterySnapshot};
use crate::text::{append_u64, dec_digits, u64_to_string};

verus! {

/// One point of the long-horizon capacity trend: a UTC calendar day (as
/// days since the epoch), the max capacity recorded that day, and the
/// health it implies, in hundredths of a percent.
#[derive(Debug, Clone, Copy, PartialEq, Eq, Structural)]
pub struct CapacityDataPoint {
    pub day: i64,
    pub max_capacity_mah: u32,
    pub health_centi: u64,
}

/// The UTC calendar day of a timestamp: floor division by the seconds of a
/// day.
pub open spec fn day_of_ts(ts: int) -> int {
    ts / 86400
}

/// The trend point a capacity-bearing snapshot yields: its own design
/// capacity when present, else its max capacity standing in for it; the
/// health is 100% when the design capacity is exactly zero.
pub open spec fn point_of(snap: BatterySnapshot, mc: u32) -> CapacityDataPoint {
    let design = match snap.design_capacity {
        Some(d) => d as int,
        None => mc as int,
    };
    CapacityDataPoint {
        day: day_of_ts(snap.timestamp as int) as i64,
        max_capacity_mah: mc,
        health_centi: (if design > 0 {
            (mc as int) * 10000 / design
        } else {
            10000int
        }) as u64,
    }
}

/// The capacity trend of an ordered range: one point per calendar day that
/// has a snapshot with a known max capacity, taken from the first such
/// snapshot of the day.
pub open spec fn spec_trend(s: Seq<BatterySnapshot>) -> Seq<CapacityDataPoint>
    decreases s.len(),
{
    if s.len() == 0 {
        Seq::empty()
    } else {
        let rest = spec_trend(s.drop_last());
        match s.last().max_capacity {
            Some(mc) => {
                if rest.len() > 0 && rest.last().day as int == day_of_ts(
                    s.last().timestamp as int,
                ) {
                    rest
                } else {
                    rest.push(point_of(s.last(), mc))
                }
            },
            None => rest,
        }
    }
}

/// The UTC calendar day of a timestamp.
pub fn day_of_ts_exec(ts: i64) -> (d: i64)
    ensures
        d as int == day_of_ts(ts as int),
{
    if ts >= 0 {
        ((ts as u64) / 86400) as i64
    } else {
        let mag: u64 = if ts == i64::MIN {
            0x8000000000000000u64
        } else {
            (-ts) as u64
        };
        let q: u64 = (mag - 1) / 86400 + 1;
        proof {
            let m = mag as int;
            let qq = (m + 86399) / 86400;
            lemma_fundamental_div_mod(m + 86399, 86400);
            assert(0 <= (m + 86399) % 86400 < 86400);
            assert(m <= 86400 * qq < m + 86400);
            lemma_fundamental_div_mod_converse(-m, 86400, -qq, 86400 * qq - m);
            assert((-m) / 86400 == -qq);
            lemma_fundamental_div_mod(m - 1, 86400);
            lemma_fundamental_div_mod_converse(
                m + 86399,
                86400,
                (m - 1) / 86400 + 1,
                (m - 1) % 86400,
            );
            assert(qq == (m - 1) / 86400 + 1);
        }
        -(q as i64)
    }
}

/// Over an ordered range, the trend days come out strictly ascending.
pub proof fn lemma_trend_ascending(s: Seq<BatterySnapshot>)
    requires
        sorted_by_timestamp(s),
    ensures
        forall|i: int, j: int|
            0 <= i < j < spec_trend(s).len() ==> #[trigger] spec_trend(s)[i].day
                < #[trigger] spec_trend(s)[j].day,
        forall|i: int|
            0 <= i < spec_trend(s).len() ==> s.len() > 0 && #[trigger] spec_trend(s)[i].day as int
                <= day_of_ts(s.last().timestamp as int),
    decreases s.len(),
{
    if s.len() > 0 {
        let pre = s.drop_last();
        assert(sorted_by_timestamp(pre)) by {
            assert(forall|i: int| 0 <= i < pre.len() ==> pre[i] == #[trigger] s[i]);
        }
        lemma_trend_ascending(pre);
        if pre.len() > 0 {
            assert(pre.last() == s[s.len() - 2]);
            assert(s[s.len() - 2].timestamp <= s.last().timestamp);
            assert(day_of_ts(pre.last().timestamp as int) <= day_of_ts(
                s.last().timestamp as int,
            )) by {
                vstd::arithmetic::div_mod::lemma_div_is_ordered(
                    pre.last().timestamp as int,
                    s.last().timestamp as int,
                    86400,
                );
            }
        }
        let rest = spec_trend(pre);
        assert(forall|i: int| 0 <= i < rest.len() ==> rest[i] == #[trigger] spec_trend(s)[i]);
    }
}

/// Computes the capacity trend of an ordered range of snapshots.
pub fn build_capacity_trend(snapshots: &Vec<BatterySnapshot>) -> (r: Vec<CapacityDataPoint>)
    requires
        sorted_by_timestamp(snapshots@),
    ensures
        r@ == spec_trend(snapshots@),
{
    let ghost s = snapshots@;
    let mut out: Vec<CapacityDataPoint> = Vec::new();
    let mut i: usize = 0;
    proof {
        assert(s.take(0) =~= Seq::<BatterySnapshot>::empty());
    }
    while i < snapshots.len()
        invariant
            s == snapshots@,
            i <= s.len(),
            out@ == spec_trend(s.take(i as int)),
        decreases s.len() - i,
    {
        let cur = snapshots[i];
        proof {
            let t = s.take(i as int + 1);
            assert(t.drop_last() =~= s.take(i as int));
            assert(t.last() == s[i as int]);
        }
        match cur.max_capacity {
            Some(mc) => {
                let day = day_of_ts_exec(cur.timestamp);
                let dup = out.len() > 0 && out[out.len() - 1].day == day;
                if !dup {
                    let design = match cur.design_capacity {
                        Some(d) => d,
                        None => mc,
                    };
                    let health_centi: u64 = if design > 0 {
                        (mc as u64) * 10000 / (design as u64)
                    } else {
                        10000
                    };
                    let point = CapacityDataPoint { day, max_capacity_mah: mc, health_centi };
                    proof {
                        assert(point == point_of(s[i as int], mc));
                    }
                    out.push(point);
                }
            },
            None => {},
        }
        i = i + 1;
    }
    proof {
        assert(s.take(s.len() as int) =~= s);
    }
    out
}

/// Age in whole days between a manufacture timestamp and now, truncating
/// toward zero.
pub open spec fn spec_age_days(manu_ts: int, now_ts: int) -> int {
    div_trunc(now_ts - manu_ts, 86400)
}

/// The age description: years and months when a year or more has passed,
/// months alone under a year, days alone under a synthetic thirty-day
/// month.
pub open spec fn spec_age_description(days: int) -> Seq<char> {
    let years = days / 365;
    let months = (days % 365) / 30;
    if years > 0 {
        if months > 0 {
            dec_digits(years) + " year"@ + (if years > 1 {
                "s"@
            } else {
                Seq::<char>::empty()
            }) + ", "@ + dec_digits(months) + " month"@ + (if months > 1 {
                "s"@
            } else {
                Seq::<char>::empty()
            })
        } else {
            dec_digits(years) + " year"@ + (if years > 1 {
                "s"@
            } else {
                Seq::<char>::empty()
            })
        }
    } else if months > 0 {
        dec_digits(months) + " month"@ + (if months > 1 {
            "s"@
        } else {
            Seq::<char>::empty()
        })
    } else {
        dec_digits(days) + " day"@ + (if days != 1 {
            "s"@
        } else {
            Seq::<char>::empty()
        })
    }
}

/// Describes the battery age given the manufacture timestamp and the
/// current time; nothing when the manufacture date lies a full day or more
/// in the future.
pub fn calculate_age_description(manu_ts: i64, now_ts: i64) -> (r: Option<String>)
    ensures
        match r {
            Some(st) => spec_age_days(manu_ts as int, now_ts as int) >= 0 && st@
                == spec_age_description(spec_age_days(manu_ts as int, now_ts as int)),
            None => spec_age_days(manu_ts as int, now_ts as int) < 0,
        },
{
    let diff: i128 = now_ts as i128 - manu_ts as i128;
    let days: i64 = if diff >= 0 {
        ((diff as u128) / 86400) as i64
    } else {
        let mag = (-diff) as u128;
        if mag / 86400 > 0 {
            return None;
        }
        0
    };
    proof {
        assert(days as int == spec_age_days(manu_ts as int, now_ts as int));
    }
    let years: u64 = (days as u64) / 365;
    let rem: u64 = (days as u64) % 365;
    let months: u64 = rem / 30;
    let mut out = String::new();
    if years > 0 {
        append_u64(years, &mut out);
        out.append(" year");
        if years > 1 {
            out.append("s");
        }
        if months > 0 {
            out.append(", ");
            append_u64(months, &mut out);
            out.append(" month");
            if months > 1 {
                out.append("s");
            }
        }
    } else if months > 0 {
        append_u64(months, &mut out);
        out.append(" month");
        if months > 1 {
            out.append("s");
        }
    } else {
        append_u64(days as u64, &mut out);
        out.append(" day");
        if days != 1 {
            out.append("s");
        }
    }
    proof {
        assert(out@ =~= spec_age_description(days as int));
    }
    Some(out)
}

/// Capacity loss relative to the design capacity, in hundredths of a
/// percent, truncated toward the lower magnitude.
pub open spec fn spec_capacity_loss_centi(max: u32, design: u32) -> int {
    if max <= design {
        ((design - max) * 10000) / (design as int)
    } else {
        -((((max - design) * 10000) + design - 1) / (design as int))
    }
}

/// Complete battery health report.  Percentages are scaled integers in
/// hundredths of a percent.
#[derive(Debug, Clone)]
pub struct HealthReport {
    pub design_capacity_mah: Option<u32>,
    pub max_capacity_mah: Option<u32>,
    pub capacity_loss_mah: Option<i64>,
    pub capacity_loss_percent: Option<i64>,
    pub cycle_count: Option<u32>,
    pub estimated_remaining_cycles: Option<u32>,
    pub condition: String,
    pub health_percent: Option<u64>,
    pub manufacture_date: Option<String>,
    pub age_description: Option<String>,
    pub capacity_trend: Vec<CapacityDataPoint>,
}

/// Assembles a health report from a reading and a precomputed capacity
/// trend (empty when history is unavailable).  The age description comes
/// from the machine clock, so only its absence is pinned down.
pub fn generate_health_report(info: &BatteryInfo, capacity_trend: Vec<CapacityDataPoint>) -> (r:
    HealthReport)
    ensures
        r.design_capacity_mah == info.design_capacity_mah,
        r.max_capacity_mah == info.max_capacity_mah,
        r.cycle_count == info.cycle_count,
        r.manufacture_date == info.manufacture_date,
        r.capacity_trend == capacity_trend,
        r.condition@ == crate::battery::spec_condition_label(info.condition),
        r.capacity_loss_mah == (match (info.max_capacity_mah, info.design_capacity_mah) {
            (Some(max), Some(design)) => Some((design - max) as i64),
            _ => None,
        }),
        r.capacity_loss_percent == (match (info.max_capacity_mah, info.design_capacity_mah) {
            (Some(max), Some(design)) => if design > 0 {
                Some(spec_capacity_loss_centi(max, design) as i64)
            } else {
                Option::<i64>::None
            },
            _ => None,
        }),
        r.health_percent == (match (info.max_capacity_mah, info.design_capacity_mah) {
            (Some(max), Some(design)) => if design > 0 {
                Some(((max as int) * 10000 / (design as int)) as u64)
            } else {
                None
            },
            _ => None,
        }),
        r.estimated_remaining_cycles == (match info.cycle_count {
            Some(c) => Some(if c >= 1000 {
                0u32
            } else {
                (1000 - c) as u32
            }),
            None => None,
        }),
        info.manufacture_date is None ==> r.age_description is None,
        r.age_description is Some ==> info.manufacture_date is Some,
{
    let capacity_loss = info.capacity_loss_mah();
    let capacity_loss_percent: Option<i64> = match (
        info.max_capacity_mah,
        info.design_capacity_mah,
    ) {
        (Some(max), Some(design)) => {
            if design > 0 {
                if max <= design {
                    let num = ((design - max) as u64) * 10000;
                    Some((num / (design as u64)) as i64)
                } else {
                    let num = ((max - design) as u64) * 10000;
                    let q = (num + (design as u64) - 1) / (design as u64);
                    proof {
                        assert(q as int <= (num as int) + (design as int) - 1) by (
                        nonlinear_arith)
                            requires
                                q as int == ((num as int) + (design as int) - 1) / (
                                design as int),
                                design >= 1,
                        ;
                    }
                    Some(-(q as i64))
                }
            } else {
                None
            }
        },
        _ => None,
    };
    let age_description: Option<String> = match &info.manufacture_date {
        Some(d) => match crate::clock::parse_date_timestamp(d.as_str()) {
            Some(ts) => calculate_age_description(ts, crate::clock::now_timestamp()),
            None => None,
        },
        None => None,
    };
    HealthReport {
        design_capacity_mah: info.design_capacity_mah,
        max_capacity_mah: info.max_capacity_mah,
        capacity_loss_mah: capacity_loss,
        capacity_loss_percent,
        cycle_count: info.cycle_count,
        estimated_remaining_cycles: info.estimated_remaining_cycles(),
        condition: info.condition.label(),
        health_percent: info.health_percent(),
        manufacture_date: match &info.manufacture_date {
            Some(d) => Some(d.clone()),
            None => None,
        },
        age_description,
        capacity_trend,
    }
}

/// The three character columns of one comparison row.
pub open spec fn row_views(r: (String, String, String)) -> (Seq<char>, Seq<char>, Seq<char>) {
    (r.0@, r.1@, r.2@)
}

/// The comparison table a reading yields: capacities, health, cycle count
/// where known, and always the condition, each against a new battery of
/// the same design.
pub open spec fn spec_comparison_rows(info: BatteryInfo) -> Seq<
    (Seq<char>, Seq<char>, Seq<char>),
> {
    let caps: Seq<(Seq<char>, Seq<char>, Seq<char>)> = match (
        info.max_capacity_mah,
        info.design_capacity_mah,
    ) {
        (Some(max), Some(design)) => seq![
            ("Max Capacity"@, dec_digits(design as int) + " mAh"@, dec_digits(max as int)
                + " mAh"@),
        ],
        _ => Seq::empty(),
    };
    let health: Seq<(Seq<char>, Seq<char>, Seq<char>)> = match (
        info.max_capacity_mah,
        info.design_capacity_mah,
    ) {
        (Some(max), Some(design)) => {
            if design > 0 {
                let centi = (max as int) * 10000 / (design as int);
                seq![
                    ("Health"@, "100.0%"@, dec_digits(centi / 100) + "."@ + dec_digits(
                        (centi / 10) % 10,
                    ) + "%"@),
                ]
            } else {
                Seq::empty()
            }
        },
        _ => Seq::empty(),
    };
    let cycles: Seq<(Seq<char>, Seq<char>, Seq<char>)> = match info.cycle_count {
        Some(c) => seq![("Cycle Count"@, "0"@, dec_digits(c as int))],
        None => Seq::empty(),
    };
    caps + health + cycles + seq![
        ("Condition"@, "Normal"@, crate::battery::spec_condition_label(info.condition)),
    ]
}

/// Compares the battery with a new one of the same design.
pub fn compare_with_new(info: &BatteryInfo) -> (r: Vec<(String, String, String)>)
    ensures
        r@.map_values(|row: (String, String, String)| row_views(row)) == spec_comparison_rows(
            *info,
        ),
{
    let mut out: Vec<(String, String, String)> = Vec::new();
    match (info.max_capacity_mah, info.design_capacity_mah) {
        (Some(max), Some(design)) => {
            let mut new_col = u64_to_string(design as u64);
            new_col.append(" mAh");
            let mut cur_col = u64_to_string(max as u64);
            cur_col.append(" mAh");
            out.push((String::from_str("Max Capacity"), new_col, cur_col));
        },
        _ => {},
    }
    match (info.max_capacity_mah, info.design_capacity_mah) {
        (Some(max), Some(design)) => {
            if design > 0 {
                let centi = (max as u64) * 10000 / (design as u64);
                let mut cur = u64_to_string(centi / 100);
                cur.append(".");
                proof {
                    assert((centi / 10) % 10 < 10);
                }
                append_u64((centi / 10) % 10, &mut cur);
                cur.append("%");
                out.push((String::from_str("Health"), String::from_str("100.0%"), cur));
            }
        },
        _ => {},
    }
    match info.cycle_count {
        Some(c) => {
            out.push((String::from_str("Cycle Count"), String::from_str("0"), u64_to_string(
                c as u64,
            )));
        },
        None => {},
    }
    out.push((String::from_str("Condition"), String::from_str("Normal"), info.condition.label()));
    proof {
        assert(out@.map_values(|row: (String, String, String)| row_views(row))
            =~= spec_comparison_rows(*info));
    }
    out
}

} // verus!
