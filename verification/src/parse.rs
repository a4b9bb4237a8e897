//! Free-text parsing for the command-output telemetry source: percentage
//! extraction, time-remaining tokens, and labelled profiler fields.

use vstd::prelude::*;
use vstd::string::StrSliceExecFns;
use vstd::string::StringExecFns;
use crate::battery::{option_i64_int, option_u32_int, BatteryCondition, BatteryInfo, ChargingState};
use crate::text::{
    all_digits, check_all_digits, check_prefix, contains_seq, digits_val, find_char_from,
    find_in_range, has_prefix, is_digit_char, is_space_char, lemma_find_char,
    lemma_find_in_vs_sub, lemma_skip_spaces, lemma_token_end, lemma_trim, lower_seq,
    parse_digits_limit, parse_i64_range, parse_i64_seq, range_equals, skip_spaces,
    spec_find_char, spec_find_in, spec_skip_spaces, spec_token_end, spec_trim_end,
    spec_trim_start, str_contains, str_contains_lower, str_eq_lower, token_end, trim_end_idx,
    trim_start_idx,
};

verus! {

/// Start of the maximal run of decimal digits ending just before `e`.
pub open spec fn digit_run_start(s: Seq<char>, e: int) -> int
    decreases e,
        when 0 <= e <= s.len()
{
    if e <= 0 {
        0
    } else if is_digit_char(s[e - 1]) {
        digit_run_start(s, e - 1)
    } else {
        e
    }
}

pub proof fn lemma_digit_run_start(s: Seq<char>, e: int)
    requires
        0 <= e <= s.len(),
    ensures
        0 <= digit_run_start(s, e) <= e,
        all_digits(s.subrange(digit_run_start(s, e), e)),
    decreases e,
{
    if e > 0 && is_digit_char(s[e - 1]) {
        lemma_digit_run_start(s, e - 1);
        let b = digit_run_start(s, e - 1);
        assert(s.subrange(b, e - 1) =~= s.subrange(b, e).drop_last());
        assert(forall|i: int|
            0 <= i < e - b ==> s.subrange(b, e)[i] == #[trigger] s[b + i]);
        assert(forall|i: int|
            0 <= i < e - 1 - b ==> s.subrange(b, e - 1)[i] == #[trigger] s[b + i]);
    }
}

fn digit_run_start_at(s: &str, n: usize, e: usize) -> (r: usize)
    requires
        n == s@.len(),
        e <= n,
    ensures
        r == digit_run_start(s@, e as int),
        r <= e,
    decreases e,
{
    proof {
        lemma_digit_run_start(s@, e as int);
    }
    if e == 0 {
        0
    } else {
        let c = s.get_char(e - 1);
        if (c as u32) >= 48 && (c as u32) <= 57 {
            digit_run_start_at(s, n, e - 1)
        } else {
            e
        }
    }
}

/// What scanning backward from the first occurrence of `delimiter` yields:
/// the value of the digit run just before it, when the delimiter occurs, the
/// run is not empty, and the value fits a 32-bit unsigned integer.
pub open spec fn spec_extract_number_before(s: Seq<char>, delimiter: char) -> Option<int> {
    let e = spec_find_char(s, delimiter, 0);
    if e >= s.len() {
        None
    } else {
        let b = digit_run_start(s, e);
        if b < e && digits_val(s.subrange(b, e)) <= 0xffffffff {
            Some(digits_val(s.subrange(b, e)))
        } else {
            None
        }
    }
}

/// The run of digits immediately preceding the first `delimiter`, as a
/// number.
pub fn extract_number_before(s: &str, delimiter: char) -> (r: Option<u32>)
    ensures
        match r {
            Some(v) => spec_extract_number_before(s@, delimiter) == Some(v as int),
            None => spec_extract_number_before(s@, delimiter) is None,
        },
{
    let n = s.unicode_len();
    let e = find_char_from(s, n, delimiter, 0);
    proof {
        lemma_find_char(s@, delimiter, 0);
    }
    if e >= n {
        return None;
    }
    let b = digit_run_start_at(s, n, e);
    proof {
        lemma_digit_run_start(s@, e as int);
    }
    if b >= e {
        return None;
    }
    match parse_digits_limit(s, n, b, e, 0xffffffff) {
        Some(v) => Some(v as u32),
        None => None,
    }
}

/// First index at or after `from` whose character is not a decimal digit;
/// `s.len()` when all are digits.
pub open spec fn digit_run_end(s: Seq<char>, from: int) -> int
    decreases s.len() - from,
        when 0 <= from <= s.len()
{
    if from >= s.len() {
        s.len() as int
    } else if is_digit_char(s[from]) {
        digit_run_end(s, from + 1)
    } else {
        from
    }
}

pub proof fn lemma_digit_run_end(s: Seq<char>, from: int)
    requires
        0 <= from <= s.len(),
    ensures
        from <= digit_run_end(s, from) <= s.len(),
        all_digits(s.subrange(from, digit_run_end(s, from))),
    decreases s.len() - from,
{
    let e = digit_run_end(s, from);
    if from < s.len() && is_digit_char(s[from]) {
        lemma_digit_run_end(s, from + 1);
        let t = s.subrange(from, e);
        let t2 = s.subrange(from + 1, e);
        assert forall|i: int| 0 <= i < t.len() implies is_digit_char(t[i]) by {
            if i == 0 {
                assert(t[0] == s[from]);
            } else {
                assert(t[i] == s[from + i]);
                assert(t2[i - 1] == s[from + i]);
                assert(is_digit_char(t2[i - 1]));
            }
        }
    }
}

fn digit_run_end_at(s: &str, n: usize, from: usize) -> (r: usize)
    requires
        n == s@.len(),
        from <= n,
    ensures
        r == digit_run_end(s@, from as int),
        from <= r <= n,
    decreases n - from,
{
    proof {
        lemma_digit_run_end(s@, from as int);
    }
    if from >= n {
        n
    } else {
        let c = s.get_char(from);
        if (c as u32) >= 48 && (c as u32) <= 57 {
            digit_run_end_at(s, n, from + 1)
        } else {
            from
        }
    }
}

/// Value of the leading run of decimal digits, when there is one and it
/// fits a 32-bit unsigned integer.  Used for profiler values that carry a
/// trailing unit such as a percent sign or `mAh`.
pub open spec fn spec_leading_number(s: Seq<char>) -> Option<int> {
    let e = digit_run_end(s, 0);
    if e > 0 && digits_val(s.subrange(0, e)) <= 0xffffffff {
        Some(digits_val(s.subrange(0, e)))
    } else {
        None
    }
}

/// Parses the leading digit run of `s` as a number.
pub fn parse_leading_u32(s: &str) -> (r: Option<u32>)
    ensures
        match r {
            Some(v) => spec_leading_number(s@) == Some(v as int),
            None => spec_leading_number(s@) is None,
        },
{
    let n = s.unicode_len();
    let e = digit_run_end_at(s, n, 0);
    proof {
        lemma_digit_run_end(s@, 0);
    }
    if e == 0 {
        return None;
    }
    match parse_digits_limit(s, n, 0, e, 0xffffffff) {
        Some(v) => Some(v as u32),
        None => None,
    }
}

/// What `str::parse::<u32>` accepts: an optional plus sign followed by at
/// least one decimal digit, with the value in 32-bit unsigned range.
pub open spec fn spec_parse_u32(s: Seq<char>) -> Option<int> {
    let mag = if s.len() > 0 && s[0] == '+' {
        s.subrange(1, s.len() as int)
    } else {
        s
    };
    if mag.len() > 0 && all_digits(mag) && digits_val(mag) <= 0xffffffff {
        Some(digits_val(mag))
    } else {
        None
    }
}

/// Parses all of `s` as a 32-bit unsigned decimal number.
pub fn parse_u32_str(s: &str) -> (r: Option<u32>)
    ensures
        match r {
            Some(v) => spec_parse_u32(s@) == Some(v as int),
            None => spec_parse_u32(s@) is None,
        },
{
    let n = s.unicode_len();
    if n == 0 {
        return None;
    }
    let from: usize = if s.get_char(0) == '+' {
        1
    } else {
        0
    };
    proof {
        if from == 1 {
            assert(s@.subrange(1, s@.len() as int) =~= s@.subrange(from as int, n as int));
        } else {
            assert(s@ =~= s@.subrange(from as int, n as int));
        }
    }
    if from >= n {
        return None;
    }
    if !check_all_digits(s, n, from, n) {
        return None;
    }
    match parse_digits_limit(s, n, from, n, 0xffffffff) {
        Some(v) => Some(v as u32),
        None => None,
    }
}

/// Outcome of one candidate `H:MM` token: `None` keeps scanning (the token
/// does not split at a single colon into two parts), `Some(None)` stops the
/// search without a value, `Some(Some(v))` stops with `v` minutes.
pub open spec fn time_token_step(tok: Seq<char>) -> Option<Option<int>> {
    let k = spec_find_char(tok, ':', 0);
    if k < tok.len() && spec_find_char(tok, ':', k + 1) == tok.len() {
        match (parse_i64_seq(tok.subrange(0, k)), parse_i64_seq(
            tok.subrange(k + 1, tok.len() as int),
        )) {
            (Some(h), Some(m)) => {
                if -0x8000000000000000 <= h * 60 <= 0x7fffffffffffffff && -0x8000000000000000 <= h
                    * 60 + m <= 0x7fffffffffffffff {
                    Some(Some(h * 60 + m))
                } else {
                    Some(None)
                }
            },
            _ => Some(None),
        }
    } else {
        None
    }
}

#[via_fn]
proof fn scan_time_dec(s: Seq<char>, from: int) {
    lemma_skip_spaces(s, from);
    let a = spec_skip_spaces(s, from);
    if a < s.len() {
        lemma_token_end(s, a);
        assert(spec_token_end(s, a) == spec_token_end(s, a + 1));
        lemma_token_end(s, a + 1);
    }
}

/// Scans whitespace-separated tokens from `from` for a token holding a
/// colon whose following token is the word `remaining`, and yields the
/// minute count `H * 60 + M` of the first such `H:MM` token.
pub open spec fn scan_time_tokens(s: Seq<char>, from: int) -> Option<int>
    decreases s.len() - from,
        when 0 <= from <= s.len()
        via scan_time_dec
{
    let a = spec_skip_spaces(s, from);
    if a >= s.len() {
        None
    } else {
        let b = spec_token_end(s, a);
        let c2 = spec_skip_spaces(s, b);
        let d2 = spec_token_end(s, c2);
        if c2 < s.len() && s.subrange(c2, d2) == "remaining"@ {
            match time_token_step(s.subrange(a, b)) {
                Some(v) => v,
                None => scan_time_tokens(s, b),
            }
        } else {
            scan_time_tokens(s, b)
        }
    }
}

/// What the time-remaining extraction yields: nothing when the line claims
/// no estimate or says not charging, else the first `H:MM remaining` match.
pub open spec fn spec_extract_time_remaining(line: Seq<char>) -> Option<int> {
    if contains_seq(line, "(no estimate)"@) || contains_seq(line, "not charging"@) {
        None
    } else {
        scan_time_tokens(line, 0)
    }
}

fn scan_time_exec(s: &str, n: usize, from: usize) -> (r: Option<i64>)
    requires
        n == s@.len(),
        from <= n,
    ensures
        match r {
            Some(v) => scan_time_tokens(s@, from as int) == Some(v as int),
            None => scan_time_tokens(s@, from as int) is None,
        },
    decreases n - from,
{
    let a = skip_spaces(s, n, from);
    if a >= n {
        return None;
    }
    let b = token_end(s, n, a);
    proof {
        lemma_skip_spaces(s@, from as int);
        assert(!is_space_char(s@[a as int]));
        assert(spec_token_end(s@, a as int) == spec_token_end(s@, a as int + 1));
        lemma_token_end(s@, a as int + 1);
        assert(b >= a + 1);
    }
    let c2 = skip_spaces(s, n, b);
    let d2 = token_end(s, n, c2);
    let next_rem = c2 < n && range_equals(s, n, c2, d2, "remaining");
    if next_rem {
        let ghost tok = s@.subrange(a as int, b as int);
        let k_abs = find_in_range(s, n, ':', a, b);
        proof {
            lemma_find_in_vs_sub(s@, ':', a as int, b as int, 0);
        }
        if k_abs < b {
            let k2_abs = find_in_range(s, n, ':', k_abs + 1, b);
            proof {
                lemma_find_in_vs_sub(s@, ':', a as int, b as int, k_abs + 1 - a as int);
            }
            if k2_abs == b {
                let h_opt = parse_i64_range(s, n, a, k_abs);
                let m_opt = parse_i64_range(s, n, k_abs + 1, b);
                proof {
                    assert(s@.subrange(a as int, k_abs as int) =~= tok.subrange(
                        0,
                        k_abs - a as int,
                    ));
                    assert(s@.subrange(k_abs as int + 1, b as int) =~= tok.subrange(
                        k_abs - a as int + 1,
                        tok.len() as int,
                    ));
                }
                match (h_opt, m_opt) {
                    (Some(h), Some(m)) => {
                        match h.checked_mul(60) {
                            Some(h60) => match h60.checked_add(m) {
                                Some(v) => Some(v),
                                None => None,
                            },
                            None => None,
                        }
                    },
                    _ => None,
                }
            } else {
                scan_time_exec(s, n, b)
            }
        } else {
            scan_time_exec(s, n, b)
        }
    } else {
        scan_time_exec(s, n, b)
    }
}

/// Minutes remaining parsed from an `H:MM remaining` token pair, unless
/// the line claims `(no estimate)` or says `not charging`.
pub fn extract_time_remaining(line: &str) -> (r: Option<i64>)
    ensures
        match r {
            Some(v) => spec_extract_time_remaining(line@) == Some(v as int),
            None => spec_extract_time_remaining(line@) is None,
        },
{
    if str_contains(line, "(no estimate)") || str_contains(line, "not charging") {
        return None;
    }
    let n = line.unicode_len();
    scan_time_exec(line, n, 0)
}

#[via_fn]
proof fn profiler_scan_dec(s: Seq<char>, key: Seq<char>, from: int) {
    lemma_find_char(s, '\n', from);
}

/// Character range of the value of the first line whose trimmed form starts
/// with `key` and holds a colon: the trimmed text after the first colon.
pub open spec fn spec_profiler_range(s: Seq<char>, key: Seq<char>, from: int) -> Option<
    (int, int),
>
    decreases s.len() - from,
        when 0 <= from <= s.len()
        via profiler_scan_dec
{
    let e = spec_find_char(s, '\n', from);
    let ts = spec_trim_start(s, from, e);
    let te = spec_trim_end(s, ts, e);
    let k = spec_find_in(s, ':', ts, te);
    if has_prefix(s, ts, te, key) && k < te {
        let vs = spec_trim_start(s, k + 1, te);
        let ve = spec_trim_end(s, vs, te);
        Some((vs, ve))
    } else if e >= s.len() {
        None
    } else {
        spec_profiler_range(s, key, e + 1)
    }
}

/// What the labelled-field extraction yields over the whole text.
pub open spec fn spec_extract_profiler_value(s: Seq<char>, key: Seq<char>) -> Option<Seq<char>> {
    match spec_profiler_range(s, key, 0) {
        Some(r) => Some(s.subrange(r.0, r.1)),
        None => None,
    }
}

fn profiler_scan_exec(s: &str, n: usize, key: &str, from: usize) -> (r: Option<String>)
    requires
        n == s@.len(),
        from <= n,
    ensures
        match r {
            Some(v) => match spec_profiler_range(s@, key@, from as int) {
                Some(rng) => v@ == s@.subrange(rng.0, rng.1),
                None => false,
            },
            None => spec_profiler_range(s@, key@, from as int) is None,
        },
    decreases n - from,
{
    let e = find_char_from(s, n, '\n', from);
    proof {
        lemma_find_char(s@, '\n', from as int);
        lemma_trim(s@, from as int, e as int);
    }
    let ts = trim_start_idx(s, n, from, e);
    let te = trim_end_idx(s, n, ts, e);
    let k = find_in_range(s, n, ':', ts, te);
    let pref = check_prefix(s, n, ts, te, key);
    if pref && k < te {
        let vs = trim_start_idx(s, n, k + 1, te);
        let ve = trim_end_idx(s, n, vs, te);
        let sub = s.substring_char(vs, ve);
        Some(String::from_str(sub))
    } else if e >= n {
        None
    } else {
        profiler_scan_exec(s, n, key, e + 1)
    }
}

/// The trimmed text after the colon on the first line whose trimmed form
/// starts with `key`.
pub fn extract_profiler_value(profiler: &str, key: &str) -> (r: Option<String>)
    ensures
        match r {
            Some(v) => spec_extract_profiler_value(profiler@, key@) == Some(v@),
            None => spec_extract_profiler_value(profiler@, key@) is None,
        },
{
    let n = profiler.unicode_len();
    profiler_scan_exec(profiler, n, key, 0)
}

/// Whether a pmset line is looked at at all: it names the internal battery
/// or carries a percent sign.
pub open spec fn pmset_relevant(line: Seq<char>) -> bool {
    contains_seq(lower_seq(line), "internalbattery"@) || contains_seq(lower_seq(line), "%"@)
}

/// Level after one pmset line: the percentage before the first percent
/// sign, clamped to 100, when the line is relevant and carries one.
pub open spec fn pmset_line_level(line: Seq<char>, prev: int) -> int {
    if pmset_relevant(line) {
        match spec_extract_number_before(line, '%') {
            Some(p) => if p > 100 {
                100
            } else {
                p
            },
            None => prev,
        }
    } else {
        prev
    }
}

/// Charging state after one pmset line, decided by substring priority.
pub open spec fn pmset_line_state(line: Seq<char>, prev: ChargingState) -> ChargingState {
    if pmset_relevant(line) {
        let low = lower_seq(line);
        if contains_seq(low, "charging"@) && !contains_seq(low, "discharging"@) && !contains_seq(
            low,
            "not charging"@,
        ) {
            ChargingState::Charging
        } else if contains_seq(low, "discharging"@) {
            ChargingState::Discharging
        } else if contains_seq(low, "charged"@) || contains_seq(low, "finishing charge"@) {
            ChargingState::Full
        } else if contains_seq(low, "not charging"@) {
            ChargingState::NotCharging
        } else {
            prev
        }
    } else {
        prev
    }
}

/// Time remaining after one pmset line.
pub open spec fn pmset_line_minutes(line: Seq<char>, prev: Option<int>) -> Option<int> {
    if pmset_relevant(line) {
        match spec_extract_time_remaining(line) {
            Some(t) => Some(t),
            None => prev,
        }
    } else {
        prev
    }
}

#[via_fn]
proof fn pmset_scan_dec(
    s: Seq<char>,
    from: int,
    level: int,
    state: ChargingState,
    minutes: Option<int>,
) {
    lemma_find_char(s, '\n', from);
}

/// Folds the pmset lines: each relevant line may overwrite the level, the
/// state, and the minutes gathered so far.  A trailing carriage return on
/// a line is dropped before the line is read.
pub open spec fn pmset_scan(
    s: Seq<char>,
    from: int,
    level: int,
    state: ChargingState,
    minutes: Option<int>,
) -> (int, ChargingState, Option<int>)
    decreases s.len() - from,
        when 0 <= from <= s.len()
        via pmset_scan_dec
{
    let e = spec_find_char(s, '\n', from);
    let le = if e > from && s[e - 1] == '\r' {
        e - 1
    } else {
        e
    };
    let line = s.subrange(from, le);
    let level2 = pmset_line_level(line, level);
    let state2 = pmset_line_state(line, state);
    let minutes2 = pmset_line_minutes(line, minutes);
    if e >= s.len() {
        (level2, state2, minutes2)
    } else {
        pmset_scan(s, e + 1, level2, state2, minutes2)
    }
}

/// What the whole pmset output yields, starting from level 0, state
/// unknown, and no time estimate.
pub open spec fn spec_pmset(s: Seq<char>) -> (int, ChargingState, Option<int>) {
    pmset_scan(s, 0, 0, ChargingState::Unknown, Option::<int>::None)
}

fn pmset_scan_exec(
    s: &str,
    n: usize,
    from: usize,
    level: u8,
    state: ChargingState,
    minutes: Option<i64>,
) -> (r: (u8, ChargingState, Option<i64>))
    requires
        n == s@.len(),
        from <= n,
        level <= 100,
    ensures
        ({
            let g = pmset_scan(s@, from as int, level as int, state, option_i64_int(minutes));
            &&& r.0 as int == g.0
            &&& r.1 == g.1
            &&& option_i64_int(r.2) == g.2
            &&& r.0 <= 100
        }),
    decreases n - from,
{
    let e = find_char_from(s, n, '\n', from);
    proof {
        lemma_find_char(s@, '\n', from as int);
    }
    let le = if e > from && s.get_char(e - 1) == '\r' {
        e - 1
    } else {
        e
    };
    let line = s.substring_char(from, le);
    let ghost lseq = s@.subrange(from as int, le as int);
    let relevant = str_contains_lower(line, "internalbattery") || str_contains_lower(line, "%");
    let mut lv = level;
    let mut st = state;
    let mut mn = minutes;
    if relevant {
        match extract_number_before(line, '%') {
            Some(p) => {
                lv = if p > 100 {
                    100u8
                } else {
                    p as u8
                };
            },
            None => {},
        }
        let has_chg = str_contains_lower(line, "charging");
        let has_dis = str_contains_lower(line, "discharging");
        let has_not = str_contains_lower(line, "not charging");
        if has_chg && !has_dis && !has_not {
            st = ChargingState::Charging;
        } else if has_dis {
            st = ChargingState::Discharging;
        } else if str_contains_lower(line, "charged") || str_contains_lower(
            line,
            "finishing charge",
        ) {
            st = ChargingState::Full;
        } else if has_not {
            st = ChargingState::NotCharging;
        }
        match extract_time_remaining(line) {
            Some(t) => {
                mn = Some(t);
            },
            None => {},
        }
    }
    proof {
        assert(lv as int == pmset_line_level(lseq, level as int));
        assert(st == pmset_line_state(lseq, state));
        assert(option_i64_int(mn) == pmset_line_minutes(lseq, option_i64_int(minutes)));
    }
    if e >= n {
        (lv, st, mn)
    } else {
        pmset_scan_exec(s, n, e + 1, lv, st, mn)
    }
}

/// Strictly parsed numeric profiler field.
pub open spec fn spec_profiler_u32(s: Seq<char>, key: Seq<char>) -> Option<int> {
    match spec_extract_profiler_value(s, key) {
        Some(v) => spec_parse_u32(v),
        None => None,
    }
}

/// Numeric profiler field read from the leading digit run of the value,
/// tolerating a trailing unit.
pub open spec fn spec_profiler_leading(s: Seq<char>, key: Seq<char>) -> Option<int> {
    match spec_extract_profiler_value(s, key) {
        Some(v) => spec_leading_number(v),
        None => None,
    }
}

/// Condition from the profiler output: the explicit label when recognized,
/// else the capacity-percentage fallback over the maximum-capacity field.
pub open spec fn spec_macos_condition(profiler: Seq<char>) -> BatteryCondition {
    let cs = match spec_extract_profiler_value(profiler, "Condition"@) {
        Some(v) => v,
        None => Seq::<char>::empty(),
    };
    let low = lower_seq(cs);
    if low == "normal"@ {
        BatteryCondition::Normal
    } else if low == "replace soon"@ || low == "replace now"@ || low == "replace"@ {
        BatteryCondition::Replace
    } else if low == "service"@ || low == "service recommended"@ {
        BatteryCondition::ServiceRecommended
    } else {
        match spec_profiler_leading(profiler, "Maximum Capacity"@) {
            Some(pct) => if pct >= 80 {
                BatteryCondition::Normal
            } else if pct >= 60 {
                BatteryCondition::ServiceRecommended
            } else {
                BatteryCondition::Replace
            },
            None => BatteryCondition::Unknown,
        }
    }
}

/// Max capacity in mAh: the directly reported full-charge capacity when
/// present, else the design capacity scaled by the maximum-capacity
/// percent (saturating at the 32-bit range), else the design capacity
/// itself.
pub open spec fn spec_macos_max_capacity(profiler: Seq<char>) -> Option<int> {
    match spec_profiler_leading(profiler, "Full Charge Capacity"@) {
        Some(fc) => Some(fc),
        None => match spec_profiler_leading(profiler, "Design Capacity"@) {
            Some(d) => match spec_profiler_leading(profiler, "Maximum Capacity"@) {
                Some(pct) => {
                    let scaled = d * pct / 100;
                    Some(
                        if scaled > 0xffffffff {
                            0xffffffff
                        } else {
                            scaled
                        },
                    )
                },
                None => Some(d),
            },
            None => None,
        },
    }
}

/// The condition label match shared by both profiler branches.
fn macos_condition_of(cs: &str, max_pct: Option<u32>) -> (r: BatteryCondition)
    ensures
        r == ({
            let low = lower_seq(cs@);
            if low == "normal"@ {
                BatteryCondition::Normal
            } else if low == "replace soon"@ || low == "replace now"@ || low == "replace"@ {
                BatteryCondition::Replace
            } else if low == "service"@ || low == "service recommended"@ {
                BatteryCondition::ServiceRecommended
            } else {
                match option_u32_int(max_pct) {
                    Some(pct) => if pct >= 80 {
                        BatteryCondition::Normal
                    } else if pct >= 60 {
                        BatteryCondition::ServiceRecommended
                    } else {
                        BatteryCondition::Replace
                    },
                    None => BatteryCondition::Unknown,
                }
            }
        }),
{
    if str_eq_lower(cs, "normal") {
        BatteryCondition::Normal
    } else if str_eq_lower(cs, "replace soon") || str_eq_lower(cs, "replace now") || str_eq_lower(
        cs,
        "replace",
    ) {
        BatteryCondition::Replace
    } else if str_eq_lower(cs, "service") || str_eq_lower(cs, "service recommended") {
        BatteryCondition::ServiceRecommended
    } else {
        match max_pct {
            Some(pct) => {
                if pct >= 80 {
                    BatteryCondition::Normal
                } else if pct >= 60 {
                    BatteryCondition::ServiceRecommended
                } else {
                    BatteryCondition::Replace
                }
            },
            None => BatteryCondition::Unknown,
        }
    }
}

/// Builds a canonical reading from the two command outputs: level, state
/// and time remaining from the first, and cycle count, capacities,
/// condition and manufacture date from the second.
pub fn parse_macos_battery(pmset: &str, profiler: &str) -> (r: BatteryInfo)
    ensures
        r.level as int == spec_pmset(pmset@).0,
        r.state == spec_pmset(pmset@).1,
        option_i64_int(r.time_remaining_minutes) == spec_pmset(pmset@).2,
        option_u32_int(r.cycle_count) == spec_profiler_u32(profiler@, "Cycle Count"@),
        option_u32_int(r.max_capacity_mah) == spec_macos_max_capacity(profiler@),
        option_u32_int(r.design_capacity_mah) == spec_profiler_leading(
            profiler@,
            "Design Capacity"@,
        ),
        r.condition == spec_macos_condition(profiler@),
        match r.manufacture_date {
            Some(d) => spec_extract_profiler_value(profiler@, "Manufacture Date"@) == Some(d@),
            None => spec_extract_profiler_value(profiler@, "Manufacture Date"@) is None,
        },
        r.power_draw_mw is None,
        r.current_capacity_mah is None,
        r.temperature_deci_c is None,
        r.voltage_mv is None,
        r.is_present,
        r.wf(),
{
    let n = pmset.unicode_len();
    let (level, state, minutes) = pmset_scan_exec(pmset, n, 0, 0, ChargingState::Unknown, None);
    let cycle_count = match extract_profiler_value(profiler, "Cycle Count") {
        Some(v) => parse_u32_str(v.as_str()),
        None => None,
    };
    let max_pct = match extract_profiler_value(profiler, "Maximum Capacity") {
        Some(v) => parse_leading_u32(v.as_str()),
        None => None,
    };
    let design_capacity_mah = match extract_profiler_value(profiler, "Design Capacity") {
        Some(v) => parse_leading_u32(v.as_str()),
        None => None,
    };
    let full_charge = match extract_profiler_value(profiler, "Full Charge Capacity") {
        Some(v) => parse_leading_u32(v.as_str()),
        None => None,
    };
    let condition = match extract_profiler_value(profiler, "Condition") {
        Some(cs) => macos_condition_of(cs.as_str(), max_pct),
        None => {
            let empty = String::new();
            macos_condition_of(empty.as_str(), max_pct)
        },
    };
    let max_capacity_mah = match full_charge {
        Some(fc) => Some(fc),
        None => match design_capacity_mah {
            Some(d) => match max_pct {
                Some(pct) => {
                    proof {
                        assert((d as int) * (pct as int) < 0x10000000000000000) by (
                        nonlinear_arith)
                            requires
                                (d as int) <= 0xffffffff,
                                (pct as int) <= 0xffffffff,
                        ;
                    }
                    let scaled = (d as u64) * (pct as u64) / 100;
                    if scaled > 0xffffffffu64 {
                        Some(0xffffffffu32)
                    } else {
                        Some(scaled as u32)
                    }
                },
                None => Some(d),
            },
            None => None,
        },
    };
    let manufacture_date = extract_profiler_value(profiler, "Manufacture Date");
    BatteryInfo {
        level,
        state,
        time_remaining_minutes: minutes,
        power_draw_mw: None,
        cycle_count,
        max_capacity_mah,
        design_capacity_mah,
        current_capacity_mah: None,
        temperature_deci_c: None,
        voltage_mv: None,
        condition,
        manufacture_date,
        is_present: true,
    }
}

} // verus!
