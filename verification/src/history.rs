//! History store: a durable, append-only, timestamp-ordered log of battery
//! snapshots kept in a SQLite database, with range, count and prune
//! queries.
//!
//! The store itself is the `rusqlite` connection; its contents are modelled
//! as a multiset of rows, and every statement the store runs is a trusted
//! item whose contract says what that statement does to the rows.

use vstd::prelude::*;
use vstd::multiset::Multiset;
use vstd::string::StringExecFns;
use vstd::string::StrSliceExecFns;
use crate::battery::{option_u32_int, BatteryInfo, ChargingState};
use crate::health::{build_capacity_trend, spec_trend, CapacityDataPoint};
use crate::clock::now_timestamp;
use crate::errors::BatteryError;
use crate::text::{
    dec_digits_signed, i64_to_string, lower_char, parse_i64_range, parse_i64_seq,
    spec_trim_end, spec_trim_start, trim_end_idx, trim_start_idx,
};

verus! {

/// One persisted row: a reading reduced to what the history keeps.
#[derive(Debug, Clone, Copy)]
pub struct BatterySnapshot {
    pub timestamp: i64,
    pub level: u8,
    pub is_charging: bool,
    pub power_draw_mw: Option<u32>,
    pub cycle_count: Option<u32>,
    pub max_capacity: Option<u32>,
    pub design_capacity: Option<u32>,
}

/// Ascending by timestamp.
pub open spec fn sorted_by_timestamp(s: Seq<BatterySnapshot>) -> bool {
    forall|i: int, j: int| 0 <= i < j < s.len() ==> s[i].timestamp <= s[j].timestamp
}

/// The row that recording `info` at time `ts` appends: `is_charging` holds
/// exactly in the charging and full states.
pub open spec fn snapshot_of(info: BatteryInfo, ts: i64) -> BatterySnapshot {
    BatterySnapshot {
        timestamp: ts,
        level: info.level,
        is_charging: info.state == ChargingState::Charging || info.state == ChargingState::Full,
        power_draw_mw: info.power_draw_mw,
        cycle_count: info.cycle_count,
        max_capacity: info.max_capacity_mah,
        design_capacity: info.design_capacity_mah,
    }
}

/// SQLite connection type of the `rusqlite` crate, opaque to verification.
#[verifier::external_type_specification]
#[verifier::external_body]
pub struct ExConnection(rusqlite::Connection);

/// Error type of the `rusqlite` crate, opaque to verification.
#[verifier::external_type_specification]
#[verifier::external_body]
pub struct ExRusqliteError(rusqlite::Error);

/// The rows of the snapshots table behind a connection.  The table itself
/// presents no client-visible order, so the contents are a multiset.
pub uninterp spec fn db_rows(conn: rusqlite::Connection) -> Multiset<BatterySnapshot>;

/// The rows whose timestamp is at or after `cutoff`.
pub open spec fn rows_since(m: Multiset<BatterySnapshot>, cutoff: i64) -> Multiset<
    BatterySnapshot,
> {
    m.filter(|row: BatterySnapshot| row.timestamp >= cutoff)
}

/// Relies on `rusqlite::Connection::open`: opens or creates the database
/// file at `path`.  What the file already holds decides the rows, so
/// nothing is promised of them.
#[verifier::external_body]
fn open_connection(path: &str) -> Result<rusqlite::Connection, rusqlite::Error> {
    rusqlite::Connection::open(path)
}

/// Relies on `rusqlite::Connection::execute_batch` running `CREATE TABLE IF
/// NOT EXISTS` and `CREATE INDEX IF NOT EXISTS`: creating the schema is
/// idempotent and leaves the stored rows as they are.
#[verifier::external_body]
fn create_schema(conn: &mut rusqlite::Connection) -> (r: Result<(), rusqlite::Error>)
    ensures
        db_rows(*final(conn)) == db_rows(*old(conn)),
{
    conn.execute_batch(
        "CREATE TABLE IF NOT EXISTS snapshots (
            timestamp INTEGER NOT NULL, level INTEGER NOT NULL,
            is_charging BOOLEAN NOT NULL, power_draw_mw INTEGER,
            cycle_count INTEGER, max_capacity INTEGER, design_capacity INTEGER);
        CREATE INDEX IF NOT EXISTS idx_snapshots_timestamp ON snapshots(timestamp);",
    )
}

/// Relies on `rusqlite::Connection::execute` running an `INSERT`: on
/// success exactly the given row is added; a failed statement changes
/// nothing.
#[verifier::external_body]
fn insert_row(conn: &mut rusqlite::Connection, row: &BatterySnapshot) -> (r: Result<
    (),
    rusqlite::Error,
>)
    ensures
        r is Ok ==> db_rows(*final(conn)) == db_rows(*old(conn)).insert(*row),
        r is Err ==> db_rows(*final(conn)) == db_rows(*old(conn)),
{
    let sql = "INSERT INTO snapshots (timestamp, level, is_charging, power_draw_mw, cycle_count, max_capacity, design_capacity) VALUES (?1, ?2, ?3, ?4, ?5, ?6, ?7)";
    match conn.execute(
        sql,
        (row.timestamp, row.level, row.is_charging, row.power_draw_mw, row.cycle_count,
        row.max_capacity, row.design_capacity),
    ) {
        Ok(_) => Ok(()),
        Err(e) => Err(e),
    }
}

/// Relies on `rusqlite::Statement::query_map` running `SELECT ... WHERE
/// timestamp >= ?1 ORDER BY timestamp ASC`: on success the result holds
/// exactly the rows at or after `since`, ascending by timestamp, and the
/// stored rows are untouched.
#[verifier::external_body]
fn select_rows_since(conn: &mut rusqlite::Connection, since: i64) -> (r: Result<
    Vec<BatterySnapshot>,
    rusqlite::Error,
>)
    ensures
        db_rows(*final(conn)) == db_rows(*old(conn)),
        r matches Ok(v) ==> v@.to_multiset() == rows_since(db_rows(*old(conn)), since),
        r matches Ok(v) ==> sorted_by_timestamp(v@),
{
    let sql = "SELECT timestamp, level, is_charging, power_draw_mw, cycle_count, max_capacity, design_capacity FROM snapshots WHERE timestamp >= ?1 ORDER BY timestamp ASC";
    let mut stmt = conn.prepare(sql)?;
    let rows = stmt.query_map((since,), |row| {
        Ok(BatterySnapshot {
            timestamp: row.get(0)?, level: row.get(1)?, is_charging: row.get(2)?,
            power_draw_mw: row.get(3)?, cycle_count: row.get(4)?,
            max_capacity: row.get(5)?, design_capacity: row.get(6)?,
        })
    })?;
    rows.collect()
}

/// Relies on `rusqlite::Connection::query_row` running `SELECT COUNT(*)`:
/// on success the count of stored rows, the rows untouched.
#[verifier::external_body]
fn count_rows(conn: &mut rusqlite::Connection) -> (r: Result<i64, rusqlite::Error>)
    ensures
        db_rows(*final(conn)) == db_rows(*old(conn)),
        r matches Ok(n) ==> n >= 0 && n as int == db_rows(*old(conn)).len(),
{
    conn.query_row("SELECT COUNT(*) FROM snapshots", (), |row| row.get(0))
}

/// Relies on `rusqlite::Connection::execute` running `DELETE ... WHERE
/// timestamp < ?1`: on success exactly the rows at or after `cutoff`
/// survive and the count of deleted rows is returned; a failed statement
/// changes nothing.
#[verifier::external_body]
fn delete_before(conn: &mut rusqlite::Connection, cutoff: i64) -> (r: Result<
    usize,
    rusqlite::Error,
>)
    ensures
        r matches Ok(n) ==> db_rows(*final(conn)) == rows_since(db_rows(*old(conn)), cutoff)
            && n as int == db_rows(*old(conn)).len() - db_rows(*final(conn)).len(),
        r is Err ==> db_rows(*final(conn)) == db_rows(*old(conn)),
{
    conn.execute("DELETE FROM snapshots WHERE timestamp < ?1", (cutoff,))
}

/// `now` minus `minutes` minutes in seconds, saturating at the ends of the
/// 64-bit range.
fn range_cutoff(now: i64, minutes: i64) -> i64 {
    let secs = match minutes.checked_mul(60) {
        Some(v) => v,
        None => {
            if minutes > 0 {
                i64::MAX
            } else {
                i64::MIN
            }
        },
    };
    match now.checked_sub(secs) {
        Some(v) => v,
        None => {
            if secs > 0 {
                i64::MIN
            } else {
                i64::MAX
            }
        },
    }
}

/// Manages the SQLite history database.
pub struct HistoryManager {
    conn: rusqlite::Connection,
}

impl HistoryManager {
    /// The stored rows, as the library models them.
    pub closed spec fn rows(self) -> Multiset<BatterySnapshot> {
        db_rows(self.conn)
    }

    /// Opens (or creates) the history database at `path` and makes sure
    /// the schema exists.  Opening an existing store neither errors nor
    /// duplicates anything: schema creation is idempotent and the rows
    /// stay what they were.
    pub fn open_at(path: &str) -> (r: Result<HistoryManager, BatteryError>)
        ensures
            r matches Err(e) ==> e == BatteryError::StorageError,
    {
        match open_connection(path) {
            Ok(mut conn) => match create_schema(&mut conn) {
                Ok(()) => Ok(HistoryManager { conn }),
                Err(_) => Err(BatteryError::StorageError),
            },
            Err(_) => Err(BatteryError::StorageError),
        }
    }

    /// Appends one row for `info`; the timestamp is captured here, at
    /// insert time, never caller-supplied.
    pub fn record_snapshot(&mut self, info: &BatteryInfo) -> (r: Result<(), BatteryError>)
        ensures
            r is Ok ==> exists|ts: i64|
                final(self).rows() == old(self).rows().insert(snapshot_of(*info, ts)),
            r matches Err(e) ==> e == BatteryError::StorageError && final(self).rows() == old(
                self,
            ).rows(),
    {
        let ts = now_timestamp();
        let row = BatterySnapshot {
            timestamp: ts,
            level: info.level,
            is_charging: matches!(info.state, ChargingState::Charging | ChargingState::Full),
            power_draw_mw: info.power_draw_mw,
            cycle_count: info.cycle_count,
            max_capacity: info.max_capacity_mah,
            design_capacity: info.design_capacity_mah,
        };
        proof {
            assert(row == snapshot_of(*info, ts));
        }
        match insert_row(&mut self.conn, &row) {
            Ok(()) => {
                proof {
                    assert(final(self).rows() == old(self).rows().insert(
                        snapshot_of(*info, ts),
                    ));
                }
                Ok(())
            },
            Err(_) => Err(BatteryError::StorageError),
        }
    }

    /// The rows of the last `duration_minutes` minutes, ascending by
    /// timestamp: exactly those whose timestamp is at or after now minus
    /// the duration (the cutoff saturates at the ends of the 64-bit
    /// range).
    pub fn get_snapshots_range(&mut self, duration_minutes: i64) -> (r: Result<
        Vec<BatterySnapshot>,
        BatteryError,
    >)
        ensures
            final(self).rows() == old(self).rows(),
            r matches Ok(v) ==> sorted_by_timestamp(v@) && exists|cutoff: i64|
                v@.to_multiset() == #[trigger] rows_since(old(self).rows(), cutoff),
            r matches Err(e) ==> e == BatteryError::StorageError,
    {
        let now = now_timestamp();
        let cutoff = range_cutoff(now, duration_minutes);
        match select_rows_since(&mut self.conn, cutoff) {
            Ok(v) => {
                proof {
                    assert(v@.to_multiset() == rows_since(old(self).rows(), cutoff));
                }
                Ok(v)
            },
            Err(_) => Err(BatteryError::StorageError),
        }
    }

    /// The total number of stored rows.
    pub fn snapshot_count(&mut self) -> (r: Result<usize, BatteryError>)
        ensures
            final(self).rows() == old(self).rows(),
            r matches Ok(n) ==> n as int == old(self).rows().len(),
            r matches Err(e) ==> e == BatteryError::StorageError,
    {
        match count_rows(&mut self.conn) {
            Ok(n) => {
                if n >= 0 {
                    let wide = n as u64;
                    if wide <= usize::MAX as u64 {
                        Ok(wide as usize)
                    } else {
                        Err(BatteryError::StorageError)
                    }
                } else {
                    Err(BatteryError::StorageError)
                }
            },
            Err(_) => Err(BatteryError::StorageError),
        }
    }

    /// Summary of battery usage over the last `duration_minutes` minutes;
    /// an empty window yields zero counts and unknown averages, never an
    /// error.
    pub fn get_summary(&mut self, duration_minutes: i64) -> (r: Result<
        HistorySummary,
        BatteryError,
    >)
        ensures
            final(self).rows() == old(self).rows(),
            r matches Ok(su) ==> exists|v: Seq<BatterySnapshot>, cutoff: i64|
                #[trigger] ordered_range(v, old(self).rows(), cutoff) && summary_matches(
                    su,
                    v,
                    duration_minutes,
                ),
            r matches Err(e) ==> e == BatteryError::StorageError,
    {
        match self.get_snapshots_range(duration_minutes) {
            Ok(v) => {
                let su = summarize(&v, duration_minutes);
                proof {
                    let cutoff = choose|c: i64|
                        v@.to_multiset() == #[trigger] rows_since(old(self).rows(), c);
                    assert(ordered_range(v@, old(self).rows(), cutoff) && summary_matches(
                        su,
                        v@,
                        duration_minutes,
                    ));
                }
                Ok(su)
            },
            Err(e) => Err(e),
        }
    }

    /// Deletes the rows older than now minus `keep_minutes` minutes and
    /// returns how many were deleted.
    pub fn prune(&mut self, keep_minutes: i64) -> (r: Result<usize, BatteryError>)
        ensures
            r matches Ok(n) ==> exists|cutoff: i64|
                final(self).rows() == #[trigger] rows_since(old(self).rows(), cutoff) && n as int
                    == old(self).rows().len() - final(self).rows().len(),
            r matches Err(e) ==> e == BatteryError::StorageError && final(self).rows() == old(
                self,
            ).rows(),
    {
        let now = now_timestamp();
        let cutoff = range_cutoff(now, keep_minutes);
        match delete_before(&mut self.conn, cutoff) {
            Ok(n) => {
                proof {
                    assert(final(self).rows() == rows_since(old(self).rows(), cutoff));
                }
                Ok(n)
            },
            Err(_) => Err(BatteryError::StorageError),
        }
    }
}

/// Division truncating toward zero, as the clock arithmetic the store
/// mirrors rounds its durations.
pub open spec fn div_trunc(a: int, d: int) -> int {
    if a >= 0 {
        a / d
    } else {
        -((-a) / d)
    }
}

fn trunc_div_exec(a: i64, d: u64) -> (r: i64)
    requires
        2 <= d <= 0x7fffffffffffffff,
    ensures
        r as int == div_trunc(a as int, d as int),
{
    if a >= 0 {
        let q = (a as u64) / d;
        proof {
            assert(q <= a as u64) by (nonlinear_arith)
                requires
                    q == (a as u64) / d,
                    d >= 2,
            ;
        }
        q as i64
    } else {
        let mag: u64 = if a == i64::MIN {
            0x8000000000000000u64
        } else {
            (-a) as u64
        };
        let q = mag / d;
        proof {
            assert(q <= 0x7fffffffffffffffu64) by (nonlinear_arith)
                requires
                    q == mag / d,
                    d >= 2,
                    mag <= 0x8000000000000000u64,
            ;
        }
        -(q as i64)
    }
}

/// An `s` for every count but one.
pub open spec fn spec_plural(x: int) -> Seq<char> {
    if x != 1 {
        "s"@
    } else {
        Seq::<char>::empty()
    }
}

/// The period description: `"Last N hours"` under a day, then days under a
/// week, then weeks under thirty days, then thirty-day months.
pub open spec fn spec_format_duration(minutes: int) -> Seq<char> {
    let hours = div_trunc(minutes, 60);
    if hours < 24 {
        "Last "@ + dec_digits_signed(hours) + " hour"@ + spec_plural(hours)
    } else {
        let days = div_trunc(minutes, 1440);
        if days < 7 {
            "Last "@ + dec_digits_signed(days) + " day"@ + spec_plural(days)
        } else if days < 30 {
            "Last "@ + dec_digits_signed(days / 7) + " week"@ + spec_plural(days / 7)
        } else {
            "Last "@ + dec_digits_signed(days / 30) + " month"@ + spec_plural(days / 30)
        }
    }
}

/// Renders a duration in minutes as the period description.
pub fn format_duration(minutes: i64) -> (r: String)
    ensures
        r@ == spec_format_duration(minutes as int),
{
    let mut out = String::new();
    out.append("Last ");
    let hours = trunc_div_exec(minutes, 60);
    if hours < 24 {
        let h = i64_to_string(hours);
        out.append(h.as_str());
        out.append(" hour");
        if hours != 1 {
            out.append("s");
        }
        proof {
            assert(out@ =~= spec_format_duration(minutes as int));
        }
        out
    } else {
        let days = trunc_div_exec(minutes, 1440);
        if days < 7 {
            let ds = i64_to_string(days);
            out.append(ds.as_str());
            out.append(" day");
            if days != 1 {
                out.append("s");
            }
            proof {
                assert(out@ =~= spec_format_duration(minutes as int));
            }
            out
        } else if days < 30 {
            let weeks = ((days as u64) / 7) as i64;
            let ws = i64_to_string(weeks);
            out.append(ws.as_str());
            out.append(" week");
            if weeks != 1 {
                out.append("s");
            }
            proof {
                assert(out@ =~= spec_format_duration(minutes as int));
            }
            out
        } else {
            let months = ((days as u64) / 30) as i64;
            let ms = i64_to_string(months);
            out.append(ms.as_str());
            out.append(" month");
            if months != 1 {
                out.append("s");
            }
            proof {
                assert(out@ =~= spec_format_duration(minutes as int));
            }
            out
        }
    }
}

/// What the duration grammar accepts: an optionally signed numeric prefix
/// and exactly one trailing unit letter (h, d, w, or a synthetic thirty-day
/// m), case-insensitively, surrounded by optional whitespace, the result
/// in minutes and within the 64-bit range.
pub open spec fn spec_parse_duration(s: Seq<char>) -> Option<int> {
    let ts = spec_trim_start(s, 0, s.len() as int);
    let te = spec_trim_end(s, ts, s.len() as int);
    if te <= ts {
        None
    } else {
        let unit = lower_char(s[te - 1]);
        let um: int = if unit == 'h' {
            60
        } else if unit == 'd' {
            1440
        } else if unit == 'w' {
            10080
        } else if unit == 'm' {
            43200
        } else {
            0
        };
        if um == 0 {
            None
        } else {
            match parse_i64_seq(s.subrange(ts, te - 1)) {
                Some(v) => {
                    if -0x8000000000000000 <= v * um <= 0x7fffffffffffffff {
                        Some(v * um)
                    } else {
                        None
                    }
                },
                None => None,
            }
        }
    }
}

/// Parses a duration string such as `24h`, `7d`, `4w` or `1m` into
/// minutes.
pub fn parse_duration_str(s: &str) -> (r: Result<i64, BatteryError>)
    ensures
        match r {
            Ok(v) => spec_parse_duration(s@) == Some(v as int),
            Err(e) => e == BatteryError::InvalidFormat && spec_parse_duration(s@) is None,
        },
{
    let n = s.unicode_len();
    let ts = trim_start_idx(s, n, 0, n);
    let te = trim_end_idx(s, n, ts, n);
    if te <= ts {
        return Err(BatteryError::InvalidFormat);
    }
    let c = s.get_char(te - 1);
    let unit = if c >= 'A' && c <= 'Z' {
        ((c as u8) + 32) as char
    } else {
        c
    };
    proof {
        assert(unit == lower_char(s@[te - 1]));
    }
    let um: i64 = if unit == 'h' {
        60
    } else if unit == 'd' {
        1440
    } else if unit == 'w' {
        10080
    } else if unit == 'm' {
        43200
    } else {
        return Err(BatteryError::InvalidFormat);
    };
    match parse_i64_range(s, n, ts, te - 1) {
        Some(v) => match v.checked_mul(um) {
            Some(m) => Ok(m),
            None => Err(BatteryError::InvalidFormat),
        },
        None => Err(BatteryError::InvalidFormat),
    }
}

/// Sum of the levels.
pub open spec fn sum_levels(s: Seq<BatterySnapshot>) -> int
    decreases s.len(),
{
    if s.len() == 0 {
        0
    } else {
        sum_levels(s.drop_last()) + s.last().level
    }
}

/// Least level; 0 over an empty range.
pub open spec fn spec_min_level(s: Seq<BatterySnapshot>) -> int
    decreases s.len(),
{
    if s.len() == 0 {
        0
    } else if s.len() == 1 {
        s[0].level as int
    } else {
        let m = spec_min_level(s.drop_last());
        if s.last().level < m {
            s.last().level as int
        } else {
            m
        }
    }
}

/// Greatest level; 0 over an empty range.
pub open spec fn spec_max_level(s: Seq<BatterySnapshot>) -> int
    decreases s.len(),
{
    if s.len() == 0 {
        0
    } else if s.len() == 1 {
        s[0].level as int
    } else {
        let m = spec_max_level(s.drop_last());
        if s.last().level > m {
            s.last().level as int
        } else {
            m
        }
    }
}

/// Number of transitions into the charging state across consecutive
/// samples; a range that starts already charging counts its first sample
/// as the start of one period.
pub open spec fn spec_charging_periods(s: Seq<BatterySnapshot>) -> int
    decreases s.len(),
{
    if s.len() == 0 {
        0
    } else {
        spec_charging_periods(s.drop_last()) + if s.last().is_charging && (s.len() == 1 || !s[
            s.len() - 2].is_charging) {
            1int
        } else {
            0int
        }
    }
}

/// Minutes attributed to charging: each inter-sample gap, in whole
/// minutes, goes to the earlier sample's state.
pub open spec fn spec_charging_minutes(s: Seq<BatterySnapshot>) -> int
    decreases s.len(),
{
    if s.len() <= 1 {
        0
    } else {
        spec_charging_minutes(s.drop_last()) + if s[s.len() - 2].is_charging {
            (s.last().timestamp - s[s.len() - 2].timestamp) / 60
        } else {
            0int
        }
    }
}

/// Minutes attributed to discharging.
pub open spec fn spec_discharging_minutes(s: Seq<BatterySnapshot>) -> int
    decreases s.len(),
{
    if s.len() <= 1 {
        0
    } else {
        spec_discharging_minutes(s.drop_last()) + if !s[s.len() - 2].is_charging {
            (s.last().timestamp - s[s.len() - 2].timestamp) / 60
        } else {
            0int
        }
    }
}

/// Sum of the power readings present on discharging samples.
pub open spec fn spec_discharge_power_sum(s: Seq<BatterySnapshot>) -> int
    decreases s.len(),
{
    if s.len() == 0 {
        0
    } else {
        spec_discharge_power_sum(s.drop_last()) + if !s.last().is_charging {
            match s.last().power_draw_mw {
                Some(p) => p as int,
                None => 0,
            }
        } else {
            0int
        }
    }
}

/// Number of power readings present on discharging samples.
pub open spec fn spec_discharge_power_count(s: Seq<BatterySnapshot>) -> int
    decreases s.len(),
{
    if s.len() == 0 {
        0
    } else {
        spec_discharge_power_count(s.drop_last()) + if !s.last().is_charging && s.last()
            .power_draw_mw is Some {
            1int
        } else {
            0int
        }
    }
}

pub open spec fn abs_diff(a: int, b: int) -> int {
    if a >= b {
        a - b
    } else {
        b - a
    }
}

/// Wear heuristic numerator: sum of absolute level changes between
/// consecutive samples that are both in a not-charging state.  Hundredths
/// of a cycle, since one cycle is one hundred level points.
pub open spec fn spec_wear_sum(s: Seq<BatterySnapshot>) -> int
    decreases s.len(),
{
    if s.len() <= 1 {
        0
    } else {
        spec_wear_sum(s.drop_last()) + if !s.last().is_charging && !s[s.len() - 2].is_charging {
            abs_diff(s.last().level as int, s[s.len() - 2].level as int)
        } else {
            0int
        }
    }
}

/// Summary statistics for a time period.  Averages are scaled integers:
/// the mean level in hundredths of a level, the discharge rate in
/// milliwatts, the wear estimate in hundredths of a cycle.
#[derive(Debug, Clone)]
pub struct HistorySummary {
    pub period_description: String,
    pub snapshots_count: usize,
    pub avg_level_centi: Option<u32>,
    pub min_level: u8,
    pub max_level: u8,
    pub charging_periods: u64,
    pub total_charging_minutes: i64,
    pub total_discharging_minutes: i64,
    pub avg_discharge_rate_mw: Option<u32>,
    pub estimated_cycles_centi: u64,
}

/// Exactly what a summary of the range `s` over `period_minutes` holds: an
/// empty range gives zero counts and unknown averages, never an error.
pub open spec fn summary_matches(
    su: HistorySummary,
    s: Seq<BatterySnapshot>,
    period_minutes: i64,
) -> bool {
    &&& su.period_description@ == spec_format_duration(period_minutes as int)
    &&& su.snapshots_count == s.len()
    &&& s.len() == 0 ==> {
        &&& su.avg_level_centi is None
        &&& su.min_level == 0
        &&& su.max_level == 0
        &&& su.charging_periods == 0
        &&& su.total_charging_minutes == 0
        &&& su.total_discharging_minutes == 0
        &&& su.avg_discharge_rate_mw is None
        &&& su.estimated_cycles_centi == 0
    }
    &&& s.len() > 0 ==> {
        &&& option_u32_int(su.avg_level_centi) == Some(sum_levels(s) * 100 / s.len() as int)
        &&& su.min_level as int == spec_min_level(s)
        &&& su.max_level as int == spec_max_level(s)
        &&& su.charging_periods as int == spec_charging_periods(s)
        &&& su.total_charging_minutes as int == spec_charging_minutes(s)
        &&& su.total_discharging_minutes as int == spec_discharging_minutes(s)
        &&& option_u32_int(su.avg_discharge_rate_mw) == (if spec_discharge_power_count(s) > 0 {
            Some(spec_discharge_power_sum(s) / spec_discharge_power_count(s))
        } else {
            Option::<int>::None
        })
        &&& su.estimated_cycles_centi as int == (if spec_wear_sum(s) <= 0xffffffffffffffff {
            spec_wear_sum(s)
        } else {
            0xffffffffffffffff
        })
    }
}

/// Computes the summary of an ordered range of snapshots.
pub fn summarize(snapshots: &Vec<BatterySnapshot>, period_minutes: i64) -> (r: HistorySummary)
    requires
        sorted_by_timestamp(snapshots@),
    ensures
        summary_matches(r, snapshots@, period_minutes),
{
    let desc = format_duration(period_minutes);
    let n = snapshots.len();
    if n == 0 {
        return HistorySummary {
            period_description: desc,
            snapshots_count: 0,
            avg_level_centi: None,
            min_level: 0,
            max_level: 0,
            charging_periods: 0,
            total_charging_minutes: 0,
            total_discharging_minutes: 0,
            avg_discharge_rate_mw: None,
            estimated_cycles_centi: 0,
        };
    }
    let ghost s = snapshots@;
    let first = snapshots[0];
    let mut sum: u128 = first.level as u128;
    let mut minl: u8 = first.level;
    let mut maxl: u8 = first.level;
    let mut periods: u64 = if first.is_charging {
        1
    } else {
        0
    };
    let mut cm: i64 = 0;
    let mut dm: i64 = 0;
    let mut psum: u128 = 0;
    let mut pcount: u64 = 0;
    if !first.is_charging {
        match first.power_draw_mw {
            Some(p) => {
                psum = p as u128;
                pcount = 1;
            },
            None => {},
        }
    }
    let mut wear: u64 = 0;
    proof {
        assert(s.take(1).drop_last() =~= s.take(0));
        assert(s.take(1).len() == 1);
        assert(s.take(1)[0] == s[0]);
        assert(s.take(1).last() == s[0]);
        assert(sum_levels(s.take(0)) == 0);
        assert(spec_charging_periods(s.take(0)) == 0);
        assert(spec_discharge_power_sum(s.take(0)) == 0);
        assert(spec_discharge_power_count(s.take(0)) == 0);
    }
    let mut i: usize = 1;
    while i < n
        invariant
            n == s.len(),
            s == snapshots@,
            sorted_by_timestamp(s),
            1 <= i <= n,
            sum == sum_levels(s.take(i as int)),
            sum <= 255 * i,
            minl as int == spec_min_level(s.take(i as int)),
            maxl as int == spec_max_level(s.take(i as int)),
            periods as int == spec_charging_periods(s.take(i as int)),
            periods <= i,
            cm as int == spec_charging_minutes(s.take(i as int)),
            dm as int == spec_discharging_minutes(s.take(i as int)),
            cm >= 0,
            dm >= 0,
            60 * (cm as int + dm as int) <= s[i - 1].timestamp as int - s[0].timestamp as int,
            psum == spec_discharge_power_sum(s.take(i as int)),
            pcount as int == spec_discharge_power_count(s.take(i as int)),
            psum <= 0xffffffff * (pcount as int),
            pcount <= i,
            wear as int == (if spec_wear_sum(s.take(i as int)) <= 0xffffffffffffffff {
                spec_wear_sum(s.take(i as int))
            } else {
                0xffffffffffffffff
            }),
        decreases n - i,
    {
        let prev = snapshots[i - 1];
        let cur = snapshots[i];
        proof {
            let t = s.take(i as int + 1);
            let tp = s.take(i as int);
            assert(t.drop_last() =~= tp);
            assert(t.len() == i + 1);
            assert(t.last() == s[i as int]);
            assert(t[t.len() - 2] == s[i - 1]);
            assert(s[i - 1].timestamp <= s[i as int].timestamp);
            assert(s[0].timestamp <= s[i - 1].timestamp);
        }
        sum = sum + cur.level as u128;
        if cur.level < minl {
            minl = cur.level;
        }
        if cur.level > maxl {
            maxl = cur.level;
        }
        if cur.is_charging && !prev.is_charging {
            periods = periods + 1;
        }
        if !cur.is_charging {
            match cur.power_draw_mw {
                Some(p) => {
                    psum = psum + p as u128;
                    pcount = pcount + 1;
                },
                None => {},
            }
        }
        let d: u64 = ((cur.timestamp as i128) - (prev.timestamp as i128)) as u64;
        let dd: u64 = d / 60;
        proof {
            let di = s[i as int].timestamp as int - s[i - 1].timestamp as int;
            assert(d as int == di);
            assert(d as int == 60 * (dd as int) + (d as int) % 60);
            assert(60 * (dd as int) <= di);
            assert(60 * (cm as int + dm as int + dd as int) <= s[i as int].timestamp as int - s[
                0].timestamp as int);
            assert((cm as int) + (dd as int) < 0x8000000000000000);
            assert((dm as int) + (dd as int) < 0x8000000000000000);
        }
        if prev.is_charging {
            cm = cm + dd as i64;
        } else {
            dm = dm + dd as i64;
        }
        let ld: u64 = if cur.level >= prev.level {
            (cur.level - prev.level) as u64
        } else {
            (prev.level - cur.level) as u64
        };
        if !cur.is_charging && !prev.is_charging {
            wear = wear.saturating_add(ld);
        }
        i = i + 1;
    }
    proof {
        assert(s.take(n as int) =~= s);
    }
    let a = (sum * 100) / (n as u128);
    proof {
        assert(100 * sum <= 25500 * (n as int));
        vstd::arithmetic::div_mod::lemma_div_is_ordered(
            100 * (sum as int),
            25500 * (n as int),
            n as int,
        );
        vstd::arithmetic::div_mod::lemma_div_by_multiple(25500, n as int);
        assert((25500 * (n as int)) / (n as int) == 25500);
        assert(a <= 25500);
    }
    let avg: u32 = a as u32;
    let rate: Option<u32> = if pcount > 0 {
        let m = psum / (pcount as u128);
        proof {
            vstd::arithmetic::div_mod::lemma_div_is_ordered(
                psum as int,
                0xffffffff * (pcount as int),
                pcount as int,
            );
            vstd::arithmetic::div_mod::lemma_div_by_multiple(0xffffffff, pcount as int);
            assert(m <= 0xffffffff);
        }
        Some(m as u32)
    } else {
        None
    };
    HistorySummary {
        period_description: desc,
        snapshots_count: n,
        avg_level_centi: Some(avg),
        min_level: minl,
        max_level: maxl,
        charging_periods: periods,
        total_charging_minutes: cm,
        total_discharging_minutes: dm,
        avg_discharge_rate_mw: rate,
        estimated_cycles_centi: wear,
    }
}

/// The sequence `v` lists, in timestamp order, the rows of `m` at or
/// after `cutoff`.
pub open spec fn ordered_range(
    v: Seq<BatterySnapshot>,
    m: Multiset<BatterySnapshot>,
    cutoff: i64,
) -> bool {
    &&& sorted_by_timestamp(v)
    &&& v.to_multiset() == rows_since(m, cutoff)
}

impl HistoryManager {
    /// The capacity trend over the last 180 days of stored history.
    pub fn capacity_trend(&mut self) -> (r: Result<Vec<CapacityDataPoint>, BatteryError>)
        ensures
            final(self).rows() == old(self).rows(),
            r matches Ok(t) ==> exists|v: Seq<BatterySnapshot>, cutoff: i64|
                #[trigger] ordered_range(v, old(self).rows(), cutoff) && t@ == spec_trend(v),
            r matches Err(e) ==> e == BatteryError::StorageError,
    {
        match self.get_snapshots_range(259200) {
            Ok(v) => {
                let t = build_capacity_trend(&v);
                proof {
                    let cutoff = choose|c: i64|
                        v@.to_multiset() == #[trigger] rows_since(old(self).rows(), c);
                    assert(ordered_range(v@, old(self).rows(), cutoff) && t@ == spec_trend(v@));
                }
                Ok(t)
            },
            Err(e) => Err(e),
        }
    }
}

/// Law: a range query whose cutoff lies at or before every stored row
/// returns the whole history — recording rows and then querying a window
/// that covers their full span loses none of them.
pub proof fn lemma_range_covers_all(m: Multiset<BatterySnapshot>, cutoff: i64)
    requires
        forall|r: BatterySnapshot| #[trigger] m.count(r) > 0 ==> r.timestamp >= cutoff,
    ensures
        rows_since(m, cutoff) == m,
{
    broadcast use vstd::multiset::group_multiset_axioms;

    let f = |row: BatterySnapshot| row.timestamp >= cutoff;
    assert forall|r: BatterySnapshot| m.filter(f).count(r) == #[trigger] m.count(r) by {
        if m.count(r) > 0 {
            assert(f(r));
        }
    }
    assert(rows_since(m, cutoff) =~= m);
}

} // verus!
