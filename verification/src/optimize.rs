//! Optimization suggestions: ranked advice derived from the battery state,
//! the power report, and how many processes are running.

use vstd::prelude::*;
use vstd::string::StringExecFns;
use crate::battery::{BatteryInfo, ChargingState};
use crate::power::PowerReport;
use crate::text::append_u64;

verus! {

/// Priority level for optimization suggestions.
#[derive(Debug, Clone, Copy, PartialEq, Eq, Structural, PartialOrd, Ord)]
pub enum Priority {
    High,
    Medium,
    Low,
}

/// Sort rank of a priority: high before medium before low.
pub open spec fn rank(p: Priority) -> int {
    match p {
        Priority::High => 0,
        Priority::Medium => 1,
        Priority::Low => 2,
    }
}

/// A single optimization suggestion.
#[derive(Debug, Clone)]
pub struct Suggestion {
    pub priority: Priority,
    pub title: String,
    pub description: String,
    pub estimated_savings: Option<String>,
}

/// Overall optimization report.
#[derive(Debug, Clone)]
pub struct OptimizationReport {
    pub suggestions: Vec<Suggestion>,
    pub estimated_total_savings_minutes: Option<i64>,
}

/// The subsequence with the given priority, in order.
pub open spec fn spec_impact(s: Seq<Suggestion>, p: Priority) -> Seq<Suggestion>
    decreases s.len(),
{
    if s.len() == 0 {
        Seq::empty()
    } else {
        let rest = spec_impact(s.drop_last(), p);
        if s.last().priority == p {
            rest.push(s.last())
        } else {
            rest
        }
    }
}

/// Filtering by priority distributes over concatenation.
pub proof fn lemma_impact_concat(a: Seq<Suggestion>, b: Seq<Suggestion>, p: Priority)
    ensures
        spec_impact(a + b, p) == spec_impact(a, p) + spec_impact(b, p),
    decreases b.len(),
{
    if b.len() == 0 {
        assert(a + b =~= a);
        assert(spec_impact(a, p) + spec_impact(b, p) =~= spec_impact(a, p));
    } else {
        lemma_impact_concat(a, b.drop_last(), p);
        let ab = a + b;
        assert(ab.drop_last() =~= a + b.drop_last());
        assert(ab.last() == b.last());
        if b.last().priority == p {
            assert(spec_impact(a, p) + spec_impact(b.drop_last(), p).push(b.last())
                =~= (spec_impact(a, p) + spec_impact(b.drop_last(), p)).push(b.last()));
        }
    }
}

/// Every element carries the given priority.
pub open spec fn all_prio(s: Seq<Suggestion>, p: Priority) -> bool {
    forall|i: int| 0 <= i < s.len() ==> (#[trigger] s[i]).priority == p
}

/// Filtering a uniform sequence by its own priority returns it whole, and
/// by any other priority returns nothing.
pub proof fn lemma_impact_uniform(s: Seq<Suggestion>, p: Priority, q: Priority)
    requires
        all_prio(s, p),
    ensures
        p == q ==> spec_impact(s, q) == s,
        p != q ==> spec_impact(s, q) == Seq::<Suggestion>::empty(),
    decreases s.len(),
{
    if s.len() > 0 {
        let pre = s.drop_last();
        assert(all_prio(pre, p)) by {
            assert(forall|i: int| 0 <= i < pre.len() ==> pre[i] == #[trigger] s[i]);
        }
        lemma_impact_uniform(pre, p, q);
        assert(s.last() == s[s.len() - 1]);
        if p == q {
            assert(spec_impact(s, q) =~= s);
        }
    }
}

impl OptimizationReport {
    /// The high-impact suggestions, in order.
    pub fn high_impact(&self) -> (r: Vec<&Suggestion>)
        ensures
            r@.map_values(|x: &Suggestion| *x) == spec_impact(self.suggestions@, Priority::High),
    {
        filter_by(&self.suggestions, Priority::High)
    }

    /// The medium-impact suggestions, in order.
    pub fn medium_impact(&self) -> (r: Vec<&Suggestion>)
        ensures
            r@.map_values(|x: &Suggestion| *x) == spec_impact(
                self.suggestions@,
                Priority::Medium,
            ),
    {
        filter_by(&self.suggestions, Priority::Medium)
    }

    /// The low-impact suggestions, in order.
    pub fn low_impact(&self) -> (r: Vec<&Suggestion>)
        ensures
            r@.map_values(|x: &Suggestion| *x) == spec_impact(self.suggestions@, Priority::Low),
    {
        filter_by(&self.suggestions, Priority::Low)
    }
}

fn filter_by(suggestions: &Vec<Suggestion>, p: Priority) -> (r: Vec<&Suggestion>)
    ensures
        r@.map_values(|x: &Suggestion| *x) == spec_impact(suggestions@, p),
{
    let ghost s = suggestions@;
    let mut out: Vec<&Suggestion> = Vec::new();
    let mut i: usize = 0;
    proof {
        assert(s.take(0) =~= Seq::<Suggestion>::empty());
        assert(out@.map_values(|x: &Suggestion| *x) =~= spec_impact(s.take(0), p));
    }
    while i < suggestions.len()
        invariant
            s == suggestions@,
            i <= s.len(),
            out@.map_values(|x: &Suggestion| *x) == spec_impact(s.take(i as int), p),
        decreases s.len() - i,
    {
        proof {
            let t = s.take(i as int + 1);
            assert(t.drop_last() =~= s.take(i as int));
            assert(t.last() == s[i as int]);
        }
        if suggestions[i].priority == p {
            out.push(&suggestions[i]);
            proof {
                assert(out@.map_values(|x: &Suggestion| *x) =~= spec_impact(
                    s.take(i as int + 1),
                    p,
                ));
            }
        } else {
            proof {
                assert(out@.map_values(|x: &Suggestion| *x) =~= spec_impact(
                    s.take(i as int + 1),
                    p,
                ));
            }
        }
        i = i + 1;
    }
    proof {
        assert(s.take(s.len() as int) =~= s);
    }
    out
}

/// Among the first `k` CPU shares, how many exceed a fifth of a CPU
/// (2000 hundredths of a percent).
pub open spec fn hot_in_prefix(cpu_shares: Seq<u64>, k: int) -> int
    decreases k,
        when 0 <= k <= cpu_shares.len()
{
    if k <= 0 {
        0
    } else {
        hot_in_prefix(cpu_shares, k - 1) + if cpu_shares[k - 1] > 2000 {
            1int
        } else {
            0int
        }
    }
}

/// How many of the top three applications count as hot.
pub open spec fn spec_hot_count(cpu_shares: Seq<u64>) -> int {
    let k = if cpu_shares.len() < 3 {
        cpu_shares.len() as int
    } else {
        3
    };
    hot_in_prefix(cpu_shares, k)
}

/// Expected number of high-impact suggestions.
pub open spec fn spec_high_count(battery: BatteryInfo, hot: int) -> int {
    hot + 1 + if battery.level < 20 && battery.state != ChargingState::Charging {
        1int
    } else {
        0int
    }
}

/// Expected number of medium-impact suggestions.
pub open spec fn spec_medium_count(
    battery: BatteryInfo,
    process_count: int,
    aggressive: bool,
) -> int {
    (if process_count > 100 {
        1int
    } else {
        0int
    }) + (if battery.level > 80 && battery.state == ChargingState::Charging {
        1int
    } else {
        0int
    }) + (match battery.temperature_deci_c {
        Some(t) => if t > 400 {
            1int
        } else {
            0int
        },
        None => 0int,
    }) + (if aggressive {
        2int
    } else {
        0int
    })
}

/// Expected number of low-impact suggestions.
pub open spec fn spec_low_count(aggressive: bool) -> int {
    2 + if aggressive {
        1int
    } else {
        0int
    }
}

/// Expected total of the estimated savings minutes.
pub open spec fn spec_total_savings(hot: int, process_count: int, aggressive: bool) -> int {
    hot * 15 + 30 + (if process_count > 100 {
        15int
    } else {
        0int
    }) + (if aggressive {
        30int
    } else {
        0int
    })
}

/// The CPU shares of a report's applications.
pub open spec fn cpu_shares_of(r: PowerReport) -> Seq<u64> {
    r.apps@.map_values(|a: crate::power::AppPowerInfo| a.cpu_centi)
}

fn fixed_suggestion(p: Priority, title: &str, description: &str, savings: Option<&str>) -> (r:
    Suggestion)
    ensures
        r.priority == p,
{
    Suggestion {
        priority: p,
        title: String::from_str(title),
        description: String::from_str(description),
        estimated_savings: match savings {
            Some(sv) => Some(String::from_str(sv)),
            None => None,
        },
    }
}

/// `"saves ~X.YW"` for a milliwatt figure scaled by seven tenths.
fn hot_savings_string(mw: u64) -> String {
    let scaled: u128 = (mw as u128) * 7 / 10;
    let tenths_wide: u128 = scaled / 100;
    let tenths: u64 = if tenths_wide > 0xffffffffffffffffu128 {
        0xffffffffffffffffu64
    } else {
        tenths_wide as u64
    };
    let mut out = String::from_str("saves ~");
    append_u64(tenths / 10, &mut out);
    out.append(".");
    append_u64(tenths % 10, &mut out);
    out.append("W");
    out
}

/// `"{name} is using {pct}% CPU"` with the share rounded to whole
/// percents.
fn hot_title_string(name: &String, cpu_centi: u64) -> String {
    let mut out = name.clone();
    out.append(" is using ");
    let pct = (cpu_centi / 100) + (if cpu_centi % 100 >= 50 {
        1
    } else {
        0
    });
    append_u64(pct, &mut out);
    out.append("% CPU");
    out
}

/// Builds the ranked suggestion list from the battery state, the power
/// report, the aggressiveness switch, and the running process count: hot
/// applications and the critical-level warning rank high beside the
/// standing brightness advice; the process count, charge-care, temperature
/// and aggressive radio tips rank medium; the remaining tips rank low.
/// The savings estimate adds fifteen minutes per hot application, thirty
/// for brightness, fifteen for trimming processes, and thirty for the
/// aggressive extras.
#[verifier::rlimit(100)]
#[verifier::spinoff_prover]
pub fn suggestions_for(
    battery: &BatteryInfo,
    power: Option<&PowerReport>,
    aggressive: bool,
    process_count: usize,
) -> (r: OptimizationReport)
    ensures
        ({
            let hot = match power {
                Some(p) => spec_hot_count(cpu_shares_of(*p)),
                None => 0int,
            };
            &&& spec_impact(r.suggestions@, Priority::High).len() == spec_high_count(
                *battery,
                hot,
            )
            &&& spec_impact(r.suggestions@, Priority::Medium).len() == spec_medium_count(
                *battery,
                process_count as int,
                aggressive,
            )
            &&& spec_impact(r.suggestions@, Priority::Low).len() == spec_low_count(aggressive)
            &&& r.suggestions@.len() == spec_high_count(*battery, hot) + spec_medium_count(
                *battery,
                process_count as int,
                aggressive,
            ) + spec_low_count(aggressive)
            &&& r.estimated_total_savings_minutes == Some(
                spec_total_savings(hot, process_count as int, aggressive) as i64,
            )
            &&& forall|i: int, j: int|
                0 <= i < j < r.suggestions@.len() ==> rank(
                    (#[trigger] r.suggestions@[i]).priority,
                ) <= rank((#[trigger] r.suggestions@[j]).priority)
        }),
{
    let ghost hot_spec: int = match power {
        Some(p) => spec_hot_count(cpu_shares_of(*p)),
        None => 0int,
    };
    let mut highs: Vec<Suggestion> = Vec::new();
    let mut mediums: Vec<Suggestion> = Vec::new();
    let mut lows: Vec<Suggestion> = Vec::new();
    let mut savings: i64 = 0;
    let mut hot: u64 = 0;
    match power {
        Some(report) => {
            let ghost shares = cpu_shares_of(*report);
            let top = if report.apps.len() < 3 {
                report.apps.len()
            } else {
                3
            };
            let mut k: usize = 0;
            while k < top
                invariant
                    shares == cpu_shares_of(*report),
                    top == (if report.apps@.len() < 3 {
                        report.apps@.len() as int
                    } else {
                        3int
                    }),
                    k <= top,
                    hot as int == hot_in_prefix(shares, k as int),
                    hot <= k,
                    highs@.len() == hot,
                    all_prio(highs@, Priority::High),
                    savings as int == 15 * (hot as int),
                    mediums@.len() == 0,
                    lows@.len() == 0,
                decreases top - k,
            {
                let app = &report.apps[k];
                proof {
                    assert(shares[k as int] == app.cpu_centi);
                }
                if app.cpu_centi > 2000 {
                    let title = hot_title_string(&app.name, app.cpu_centi);
                    let sv = hot_savings_string(app.estimated_power_mw);
                    highs.push(
                        Suggestion {
                            priority: Priority::High,
                            title,
                            description: String::from_str(
                                "Close unused instances or switch to a lighter alternative",
                            ),
                            estimated_savings: Some(sv),
                        },
                    );
                    savings = savings + 15;
                    hot = hot + 1;
                }
                k = k + 1;
            }
            proof {
                assert(hot as int == hot_spec);
            }
        },
        None => {},
    }
    highs.push(
        fixed_suggestion(
            Priority::High,
            "Reduce display brightness",
            "Lower brightness to 50-60% for significant power savings",
            Some("saves ~2W"),
        ),
    );
    savings = savings + 30;
    if process_count > 100 {
        let mut title = String::new();
        append_u64(process_count as u64, &mut title);
        title.append(" processes running");
        mediums.push(
            Suggestion {
                priority: Priority::Medium,
                title,
                description: String::from_str(
                    "Close unused applications to reduce background power drain",
                ),
                estimated_savings: Some(String::from_str("saves ~0.5-1W")),
            },
        );
        savings = savings + 15;
    }
    if battery.level > 80 && matches!(battery.state, ChargingState::Charging) {
        mediums.push(
            fixed_suggestion(
                Priority::Medium,
                "Unplug charger to preserve battery health",
                "Keeping battery between 20-80% extends its lifespan",
                None,
            ),
        );
    }
    if battery.level < 20 && !matches!(battery.state, ChargingState::Charging) {
        highs.push(
            fixed_suggestion(
                Priority::High,
                "Battery critically low",
                "Connect to power source soon to avoid unexpected shutdown",
                None,
            ),
        );
    }
    match battery.temperature_deci_c {
        Some(t) => {
            if t > 400 {
                let mut title = String::from_str("Battery temperature high (");
                let deg = (t as u64) / 10 + (if (t as u64) % 10 >= 5 {
                    1
                } else {
                    0
                });
                append_u64(deg, &mut title);
                title.append("C)");
                mediums.push(
                    Suggestion {
                        priority: Priority::Medium,
                        title,
                        description: String::from_str(
                            "Move to a cooler environment or reduce workload. High temperature degrades battery health.",
                        ),
                        estimated_savings: None,
                    },
                );
            }
        },
        None => {},
    }
    if aggressive {
        mediums.push(
            fixed_suggestion(
                Priority::Medium,
                "Disable Bluetooth if not in use",
                "Bluetooth radio consumes power even when idle",
                Some("saves ~0.3W"),
            ),
        );
        savings = savings + 10;
        mediums.push(
            fixed_suggestion(
                Priority::Medium,
                "Disable Wi-Fi if not needed",
                "Use airplane mode for offline work to save power",
                Some("saves ~0.5W"),
            ),
        );
        savings = savings + 15;
        lows.push(
            fixed_suggestion(
                Priority::Low,
                "Turn off keyboard backlight",
                "Every bit helps when maximizing battery life",
                Some("saves ~0.1W"),
            ),
        );
        savings = savings + 5;
    }
    lows.push(
        fixed_suggestion(
            Priority::Low,
            "Enable Low Power Mode when below 20%",
            "System-level power optimizations extend remaining time",
            Some("saves ~10-15%"),
        ),
    );
    lows.push(
        fixed_suggestion(
            Priority::Low,
            "Keep system updated",
            "OS updates often include power management improvements",
            None,
        ),
    );
    let ghost gh = highs@;
    let ghost gm = mediums@;
    let ghost gl = lows@;
    let mut suggestions = highs;
    let mut mediums_moved = mediums;
    let mut lows_moved = lows;
    suggestions.append(&mut mediums_moved);
    suggestions.append(&mut lows_moved);
    proof {
        assert(suggestions@ == gh + gm + gl);
        lemma_impact_concat(gh + gm, gl, Priority::High);
        lemma_impact_concat(gh, gm, Priority::High);
        lemma_impact_concat(gh + gm, gl, Priority::Medium);
        lemma_impact_concat(gh, gm, Priority::Medium);
        lemma_impact_concat(gh + gm, gl, Priority::Low);
        lemma_impact_concat(gh, gm, Priority::Low);
        lemma_impact_uniform(gh, Priority::High, Priority::High);
        lemma_impact_uniform(gh, Priority::High, Priority::Medium);
        lemma_impact_uniform(gh, Priority::High, Priority::Low);
        lemma_impact_uniform(gm, Priority::Medium, Priority::High);
        lemma_impact_uniform(gm, Priority::Medium, Priority::Medium);
        lemma_impact_uniform(gm, Priority::Medium, Priority::Low);
        lemma_impact_uniform(gl, Priority::Low, Priority::High);
        lemma_impact_uniform(gl, Priority::Low, Priority::Medium);
        lemma_impact_uniform(gl, Priority::Low, Priority::Low);
        assert(spec_impact(suggestions@, Priority::High) =~= gh);
        assert(spec_impact(suggestions@, Priority::Medium) =~= gm);
        assert(spec_impact(suggestions@, Priority::Low) =~= gl);
    }
    OptimizationReport {
        suggestions,
        estimated_total_savings_minutes: Some(savings),
    }
}

/// Relies on `sysinfo::System::new_all` and `System::processes`: how many
/// processes are running at the moment of the call.  The machine decides
/// the value, so nothing is promised of it.
#[verifier::external_body]
fn running_process_count() -> usize {
    sysinfo::System::new_all().processes().len()
}

/// Generates optimization suggestions for the current machine state: the
/// running process count is sampled here, and the rest of the decision is
/// [`suggestions_for`], whose contract holds whatever count came back.
pub fn generate_suggestions(
    battery: &BatteryInfo,
    power: Option<&PowerReport>,
    aggressive: bool,
) -> (r: OptimizationReport)
    ensures
        exists|process_count: usize|
            {
                let hot = match power {
                    Some(p) => spec_hot_count(cpu_shares_of(*p)),
                    None => 0int,
                };
                &&& spec_impact(r.suggestions@, Priority::High).len() == spec_high_count(
                    *battery,
                    hot,
                )
                &&& spec_impact(r.suggestions@, Priority::Medium).len()
                    == #[trigger] spec_medium_count(*battery, process_count as int, aggressive)
                &&& spec_impact(r.suggestions@, Priority::Low).len() == spec_low_count(
                    aggressive,
                )
                &&& r.estimated_total_savings_minutes == Some(
                    spec_total_savings(hot, process_count as int, aggressive) as i64,
                )
            },
{
    let process_count = running_process_count();
    suggestions_for(battery, power, aggressive, process_count)
}

} // verus!
