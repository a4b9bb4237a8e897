//! Power consumption report model.  The sampling of running processes and
//! the attribution heuristic that fills these records happen outside the
//! library; the report itself and its percentage breakdown are verified
//! here.  Power figures are milliwatts; CPU shares are hundredths of a
//! percent.

use vstd::prelude::*;

verus! {

/// Per-process power consumption estimate.
#[derive(Debug, Clone)]
pub struct ProcessPowerInfo {
    pub name: String,
    pub pid: u32,
    pub cpu_centi: u64,
    pub memory_bytes: u64,
    pub estimated_power_mw: u64,
}

/// Power consumption aggregated by application name.
#[derive(Debug, Clone)]
pub struct AppPowerInfo {
    pub name: String,
    pub cpu_centi: u64,
    pub memory_bytes: u64,
    pub estimated_power_mw: u64,
    pub process_count: usize,
}

/// Overall power consumption report.
#[derive(Debug, Clone)]
pub struct PowerReport {
    pub apps: Vec<AppPowerInfo>,
    pub total_cpu_centi: u64,
    pub total_estimated_mw: u64,
    pub system_power_draw_mw: Option<u32>,
}

/// The share of the total that `mw` makes up, in hundredths of a percent,
/// capped at the 64-bit range; a total of zero is read as one milliwatt to
/// avoid dividing by zero.
pub open spec fn spec_share_centi(mw: int, total: int) -> int {
    let denom = if total > 0 {
        total
    } else {
        1
    };
    let share = mw * 10000 / denom;
    if share > 0xffffffffffffffff {
        0xffffffffffffffff
    } else {
        share
    }
}

impl PowerReport {
    /// Each application with its power draw and its share of the total.
    pub fn with_percentages(&self) -> (r: Vec<(String, u64, u64)>)
        ensures
            r@.len() == self.apps@.len(),
            forall|i: int|
                0 <= i < r@.len() ==> {
                    &&& (#[trigger] r@[i]).0@ == self.apps@[i].name@
                    &&& r@[i].1 == self.apps@[i].estimated_power_mw
                    &&& r@[i].2 as int == spec_share_centi(
                        self.apps@[i].estimated_power_mw as int,
                        self.total_estimated_mw as int,
                    )
                },
    {
        let denom: u64 = if self.total_estimated_mw > 0 {
            self.total_estimated_mw
        } else {
            1
        };
        let mut out: Vec<(String, u64, u64)> = Vec::new();
        let mut i: usize = 0;
        while i < self.apps.len()
            invariant
                i <= self.apps@.len(),
                denom as int == (if self.total_estimated_mw > 0 {
                    self.total_estimated_mw as int
                } else {
                    1int
                }),
                out@.len() == i,
                forall|j: int|
                    0 <= j < i ==> {
                        &&& (#[trigger] out@[j]).0@ == self.apps@[j].name@
                        &&& out@[j].1 == self.apps@[j].estimated_power_mw
                        &&& out@[j].2 as int == spec_share_centi(
                            self.apps@[j].estimated_power_mw as int,
                            self.total_estimated_mw as int,
                        )
                    },
            decreases self.apps@.len() - i,
        {
            let app = &self.apps[i];
            let mw = app.estimated_power_mw;
            proof {
                assert((mw as int) * 10000 < 0x100000000000000000000000000000000) by (
                nonlinear_arith)
                    requires
                        mw <= 0xffffffffffffffffu64,
                ;
            }
            let wide = (mw as u128) * 10000 / (denom as u128);
            let pct: u64 = if wide > 0xffffffffffffffffu128 {
                0xffffffffffffffffu64
            } else {
                wide as u64
            };
            proof {
                assert(pct as int == spec_share_centi(mw as int, self.total_estimated_mw as int));
            }
            out.push((app.name.clone(), mw, pct));
            i = i + 1;
        }
        out
    }
}

} // verus!
