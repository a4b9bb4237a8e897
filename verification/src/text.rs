//! Character- and string-scanning helpers shared by the telemetry parsers,
//! and decimal rendering for the display strings.
//!
//! Scanning works over the character view of a `&str`; whitespace and case
//! folding are handled at the ASCII level, which is all the parsed command
//! output uses.

use vstd::prelude::*;
use vstd::string::StrSliceExecFns;

verus! {

/// ASCII decimal digit.
pub open spec fn is_digit_char(c: char) -> bool {
    48 <= c as u32 <= 57
}

/// Numeric value of an ASCII digit.
pub open spec fn digit_val(c: char) -> int {
    c as u32 - 48
}

/// Lower-case image of an ASCII letter; every other character is unchanged.
pub open spec fn lower_char(c: char) -> char {
    if 65 <= c as u32 <= 90 {
        ((c as u32 + 32) as u8) as char
    } else {
        c
    }
}

/// The whole sequence, lower-cased character by character.
pub open spec fn lower_seq(s: Seq<char>) -> Seq<char> {
    s.map_values(|c: char| lower_char(c))
}

/// ASCII whitespace: space, tab, line feed, vertical tab, form feed,
/// carriage return.
pub open spec fn is_space_char(c: char) -> bool {
    c == ' ' || c == '\t' || c == '\n' || c == '\r' || c as u32 == 11 || c as u32 == 12
}

/// Lower-casing keeps digits as they are.
pub broadcast proof fn lemma_lower_seq_index(s: Seq<char>, i: int)
    requires
        0 <= i < s.len(),
    ensures
        #[trigger] lower_seq(s)[i] == lower_char(s[i]),
        lower_seq(s).len() == s.len(),
{
}

/// Index of the first occurrence of `c` in `s` at or after `from`;
/// `s.len()` when there is none.
pub open spec fn spec_find_char(s: Seq<char>, c: char, from: int) -> int
    decreases s.len() - from,
        when 0 <= from <= s.len()
{
    if from >= s.len() {
        s.len() as int
    } else if s[from] == c {
        from
    } else {
        spec_find_char(s, c, from + 1)
    }
}

pub proof fn lemma_find_char(s: Seq<char>, c: char, from: int)
    requires
        0 <= from <= s.len(),
    ensures
        from <= spec_find_char(s, c, from) <= s.len(),
        spec_find_char(s, c, from) < s.len() ==> s[spec_find_char(s, c, from)] == c,
        forall|j: int| from <= j < spec_find_char(s, c, from) ==> s[j] != c,
    decreases s.len() - from,
{
    if from < s.len() && s[from] != c {
        lemma_find_char(s, c, from + 1);
    }
}

/// Executable counterpart of [`spec_find_char`].
pub fn find_char_from(s: &str, n: usize, c: char, from: usize) -> (r: usize)
    requires
        n == s@.len(),
        from <= n,
    ensures
        r == spec_find_char(s@, c, from as int),
    decreases n - from,
{
    if from >= n {
        n
    } else if s.get_char(from) == c {
        from
    } else {
        find_char_from(s, n, c, from + 1)
    }
}

/// Value of a run of decimal digits, most significant first.
pub open spec fn digits_val(s: Seq<char>) -> int
    decreases s.len(),
{
    if s.len() == 0 {
        0
    } else {
        digits_val(s.drop_last()) * 10 + digit_val(s.last())
    }
}

/// Every character is a decimal digit.
pub open spec fn all_digits(s: Seq<char>) -> bool {
    forall|i: int| 0 <= i < s.len() ==> is_digit_char(#[trigger] s[i])
}

pub proof fn lemma_digits_val_nonneg(s: Seq<char>)
    requires
        all_digits(s),
    ensures
        digits_val(s) >= 0,
    decreases s.len(),
{
    if s.len() > 0 {
        assert(all_digits(s.drop_last())) by {
            assert(forall|i: int|
                0 <= i < s.len() - 1 ==> s.drop_last()[i] == #[trigger] s[i]);
        }
        lemma_digits_val_nonneg(s.drop_last());
    }
}

/// A prefix of a digit run never exceeds the value of the whole run.
pub proof fn lemma_digits_val_prefix(s: Seq<char>, k: int)
    requires
        all_digits(s),
        0 <= k <= s.len(),
    ensures
        digits_val(s.take(k)) <= digits_val(s),
    decreases s.len() - k,
{
    if k < s.len() {
        lemma_digits_val_prefix(s, k + 1);
        let t = s.take(k + 1);
        assert(t.drop_last() =~= s.take(k));
        assert(all_digits(t)) by {
            assert(forall|i: int| 0 <= i < t.len() ==> t[i] == #[trigger] s[i]);
        }
        lemma_digits_val_nonneg(t.drop_last());
        assert(digits_val(t) == digits_val(s.take(k)) * 10 + digit_val(t.last()));
        assert(digit_val(t.last()) >= 0);
        assert(digits_val(s.take(k)) <= digits_val(t));
    } else {
        assert(s.take(k) =~= s);
    }
}

/// Parses `s[from..to)`, a run of decimal digits, as a number, failing
/// exactly when the value exceeds `limit`.
pub fn parse_digits_limit(s: &str, n: usize, from: usize, to: usize, limit: u64) -> (r: Option<
    u64,
>)
    requires
        n == s@.len(),
        from <= to <= n,
        all_digits(s@.subrange(from as int, to as int)),
    ensures
        match r {
            Some(v) => v <= limit && v as int == digits_val(s@.subrange(from as int, to as int)),
            None => digits_val(s@.subrange(from as int, to as int)) > limit,
        },
{
    let ghost whole = s@.subrange(from as int, to as int);
    let mut acc: u64 = 0;
    let mut i: usize = from;
    while i < to
        invariant
            n == s@.len(),
            from <= i <= to <= n,
            all_digits(whole),
            whole == s@.subrange(from as int, to as int),
            acc <= limit,
            acc as int == digits_val(s@.subrange(from as int, i as int)),
        decreases to - i,
    {
        let c = s.get_char(i);
        proof {
            assert(whole[i - from] == s@[i as int]);
            assert(is_digit_char(c));
        }
        let d: u64 = (c as u32 - 48) as u64;
        proof {
            let prev = s@.subrange(from as int, i as int);
            let cur = s@.subrange(from as int, i as int + 1);
            assert(cur.drop_last() =~= prev);
            assert(cur.last() == s@[i as int]);
            assert(digits_val(cur) == digits_val(prev) * 10 + digit_val(s@[i as int]));
            assert(limit / 10 * 10 + limit % 10 == limit);
        }
        if acc > limit / 10 || (acc == limit / 10 && d > limit % 10) {
            proof {
                let cur = s@.subrange(from as int, i as int + 1);
                assert(digits_val(cur) > limit);
                assert(whole.take(i - from + 1) =~= cur);
                lemma_digits_val_prefix(whole, i - from + 1);
            }
            return None;
        }
        acc = acc * 10 + d;
        i = i + 1;
    }
    proof {
        assert(s@.subrange(from as int, i as int) =~= whole);
    }
    Some(acc)
}

/// Checks that `s[from..to)` consists of decimal digits only.
pub fn check_all_digits(s: &str, n: usize, from: usize, to: usize) -> (r: bool)
    requires
        n == s@.len(),
        from <= to <= n,
    ensures
        r == all_digits(s@.subrange(from as int, to as int)),
{
    let ghost t = s@.subrange(from as int, to as int);
    let mut i: usize = from;
    while i < to
        invariant
            n == s@.len(),
            from <= i <= to <= n,
            t == s@.subrange(from as int, to as int),
            forall|j: int| from <= j < i ==> is_digit_char(#[trigger] s@[j]),
        decreases to - i,
    {
        let c = s.get_char(i);
        if !((c as u32) >= 48 && (c as u32) <= 57) {
            proof {
                assert(t[i - from] == s@[i as int]);
                assert(!is_digit_char(t[i - from]));
            }
            return false;
        }
        i = i + 1;
    }
    proof {
        assert(forall|k: int| 0 <= k < t.len() ==> t[k] == #[trigger] s@[from + k]);
    }
    true
}

/// What `str::parse::<i64>` accepts: an optional sign followed by at least
/// one decimal digit, with the value in range for a 64-bit signed integer.
pub open spec fn parse_i64_seq(s: Seq<char>) -> Option<int> {
    if s.len() > 0 && (s[0] == '+' || s[0] == '-') {
        let mag = s.subrange(1, s.len() as int);
        if mag.len() > 0 && all_digits(mag) {
            if s[0] == '-' {
                if digits_val(mag) <= 0x8000000000000000 {
                    Some(-digits_val(mag))
                } else {
                    None
                }
            } else {
                if digits_val(mag) <= 0x7fffffffffffffff {
                    Some(digits_val(mag))
                } else {
                    None
                }
            }
        } else {
            None
        }
    } else if s.len() > 0 && all_digits(s) {
        if digits_val(s) <= 0x7fffffffffffffff {
            Some(digits_val(s))
        } else {
            None
        }
    } else {
        None
    }
}

/// Parses `s[from..to)` as a signed 64-bit decimal number.
pub fn parse_i64_range(s: &str, n: usize, from: usize, to: usize) -> (r: Option<i64>)
    requires
        n == s@.len(),
        from <= to <= n,
    ensures
        match r {
            Some(v) => parse_i64_seq(s@.subrange(from as int, to as int)) == Some(v as int),
            None => parse_i64_seq(s@.subrange(from as int, to as int)) is None,
        },
{
    let ghost t = s@.subrange(from as int, to as int);
    if from >= to {
        return None;
    }
    let c0 = s.get_char(from);
    proof {
        assert(t[0] == s@[from as int]);
    }
    let neg = c0 == '-';
    let signed = neg || c0 == '+';
    let mstart = if signed {
        from + 1
    } else {
        from
    };
    proof {
        if signed {
            assert(t.subrange(1, t.len() as int) =~= s@.subrange(mstart as int, to as int));
        } else {
            assert(t =~= s@.subrange(mstart as int, to as int));
        }
    }
    if mstart >= to {
        return None;
    }
    if !check_all_digits(s, n, mstart, to) {
        return None;
    }
    let limit: u64 = if neg {
        0x8000000000000000
    } else {
        0x7fffffffffffffff
    };
    match parse_digits_limit(s, n, mstart, to, limit) {
        None => None,
        Some(v) => {
            if neg {
                if v == 0x8000000000000000 {
                    Some(i64::MIN)
                } else {
                    Some(-(v as i64))
                }
            } else {
                Some(v as i64)
            }
        },
    }
}

/// `pat` occurs in `s` starting at index `i`.
pub open spec fn match_at(s: Seq<char>, pat: Seq<char>, i: int) -> bool {
    0 <= i && i + pat.len() <= s.len() && s.subrange(i, i + pat.len()) == pat
}

/// `pat` occurs somewhere in `s`.
pub open spec fn contains_seq(s: Seq<char>, pat: Seq<char>) -> bool {
    exists|i: int| match_at(s, pat, i)
}

fn match_at_exec(s: &str, n: usize, pat: &str, m: usize, i: usize) -> (r: bool)
    requires
        n == s@.len(),
        m == pat@.len(),
        i + m <= n,
    ensures
        r == match_at(s@, pat@, i as int),
{
    let mut j: usize = 0;
    while j < m
        invariant
            n == s@.len(),
            m == pat@.len(),
            i + m <= n,
            j <= m,
            forall|k: int| 0 <= k < j ==> s@[i + k] == #[trigger] pat@[k],
        decreases m - j,
    {
        if s.get_char(i + j) != pat.get_char(j) {
            proof {
                assert(s@.subrange(i as int, i + m) != pat@) by {
                    assert(s@.subrange(i as int, i + m)[j as int] == s@[i + j]);
                }
            }
            return false;
        }
        j = j + 1;
    }
    proof {
        assert(s@.subrange(i as int, i + m) =~= pat@);
    }
    true
}

/// Whether `pat` occurs in `s`.
pub fn str_contains(s: &str, pat: &str) -> (r: bool)
    ensures
        r == contains_seq(s@, pat@),
{
    let n = s.unicode_len();
    let m = pat.unicode_len();
    if m > n {
        proof {
            assert(forall|i: int| !match_at(s@, pat@, i));
        }
        return false;
    }
    if m == 0 {
        proof {
            assert(s@.subrange(0, 0) =~= pat@);
            assert(match_at(s@, pat@, 0));
        }
        return true;
    }
    let mut i: usize = 0;
    while i <= n - m
        invariant
            n == s@.len(),
            m == pat@.len(),
            1 <= m <= n,
            i <= n - m + 1,
            forall|k: int| 0 <= k < i ==> !match_at(s@, pat@, k),
        decreases n - m - i + 1,
    {
        if match_at_exec(s, n, pat, m, i) {
            proof {
                assert(match_at(s@, pat@, i as int));
            }
            return true;
        }
        i = i + 1;
    }
    proof {
        assert forall|k: int| !(#[trigger] match_at(s@, pat@, k)) by {
            if match_at(s@, pat@, k) {
                assert(0 <= k && k + pat@.len() <= s@.len());
            }
        }
    }
    false
}

fn match_at_lower_exec(s: &str, n: usize, pat: &str, m: usize, i: usize) -> (r: bool)
    requires
        n == s@.len(),
        m == pat@.len(),
        i + m <= n,
    ensures
        r == match_at(lower_seq(s@), pat@, i as int),
{
    broadcast use lemma_lower_seq_index;

    let mut j: usize = 0;
    while j < m
        invariant
            n == s@.len(),
            m == pat@.len(),
            i + m <= n,
            j <= m,
            forall|k: int| 0 <= k < j ==> lower_seq(s@)[i + k] == #[trigger] pat@[k],
        decreases m - j,
    {
        let c = s.get_char(i + j);
        let lc = if c >= 'A' && c <= 'Z' {
            ((c as u8) + 32) as char
        } else {
            c
        };
        proof {
            assert(lc == lower_char(s@[i + j]));
        }
        if lc != pat.get_char(j) {
            proof {
                assert(lower_seq(s@).subrange(i as int, i + m) != pat@) by {
                    assert(lower_seq(s@).subrange(i as int, i + m)[j as int] == lower_seq(s@)[i
                        + j]);
                }
            }
            return false;
        }
        j = j + 1;
    }
    proof {
        assert(lower_seq(s@).subrange(i as int, i + m) =~= pat@);
    }
    true
}

/// Whether `pat` occurs in the lower-cased image of `s`; `pat` itself is
/// matched exactly, so callers pass it already in lower case.
pub fn str_contains_lower(s: &str, pat: &str) -> (r: bool)
    ensures
        r == contains_seq(lower_seq(s@), pat@),
{
    broadcast use lemma_lower_seq_index;

    let n = s.unicode_len();
    let m = pat.unicode_len();
    proof {
        assert(lower_seq(s@).len() == s@.len());
    }
    if m > n {
        proof {
            assert(forall|i: int| !match_at(lower_seq(s@), pat@, i));
        }
        return false;
    }
    if m == 0 {
        proof {
            assert(lower_seq(s@).subrange(0, 0) =~= pat@);
            assert(match_at(lower_seq(s@), pat@, 0));
        }
        return true;
    }
    let mut i: usize = 0;
    while i <= n - m
        invariant
            n == s@.len(),
            m == pat@.len(),
            1 <= m <= n,
            i <= n - m + 1,
            lower_seq(s@).len() == n,
            forall|k: int| 0 <= k < i ==> !match_at(lower_seq(s@), pat@, k),
        decreases n - m - i + 1,
    {
        if match_at_lower_exec(s, n, pat, m, i) {
            return true;
        }
        i = i + 1;
    }
    proof {
        assert forall|k: int| !(#[trigger] match_at(lower_seq(s@), pat@, k)) by {
            if match_at(lower_seq(s@), pat@, k) {
                assert(0 <= k && k + pat@.len() <= lower_seq(s@).len());
            }
        }
    }
    false
}

/// First non-whitespace index at or after `from`; `s.len()` when none.
pub open spec fn spec_skip_spaces(s: Seq<char>, from: int) -> int
    decreases s.len() - from,
        when 0 <= from <= s.len()
{
    if from >= s.len() {
        s.len() as int
    } else if is_space_char(s[from]) {
        spec_skip_spaces(s, from + 1)
    } else {
        from
    }
}

/// First whitespace index at or after `from`; `s.len()` when none.
pub open spec fn spec_token_end(s: Seq<char>, from: int) -> int
    decreases s.len() - from,
        when 0 <= from <= s.len()
{
    if from >= s.len() {
        s.len() as int
    } else if is_space_char(s[from]) {
        from
    } else {
        spec_token_end(s, from + 1)
    }
}

pub proof fn lemma_skip_spaces(s: Seq<char>, from: int)
    requires
        0 <= from <= s.len(),
    ensures
        from <= spec_skip_spaces(s, from) <= s.len(),
        spec_skip_spaces(s, from) < s.len() ==> !is_space_char(s[spec_skip_spaces(s, from)]),
    decreases s.len() - from,
{
    if from < s.len() && is_space_char(s[from]) {
        lemma_skip_spaces(s, from + 1);
    }
}

pub proof fn lemma_token_end(s: Seq<char>, from: int)
    requires
        0 <= from <= s.len(),
    ensures
        from <= spec_token_end(s, from) <= s.len(),
    decreases s.len() - from,
{
    if from < s.len() && !is_space_char(s[from]) {
        lemma_token_end(s, from + 1);
    }
}

fn is_space_exec(c: char) -> (r: bool)
    ensures
        r == is_space_char(c),
{
    c == ' ' || c == '\t' || c == '\n' || c == '\r' || (c as u32) == 11 || (c as u32) == 12
}

/// Executable counterpart of [`spec_skip_spaces`].
pub fn skip_spaces(s: &str, n: usize, from: usize) -> (r: usize)
    requires
        n == s@.len(),
        from <= n,
    ensures
        r == spec_skip_spaces(s@, from as int),
        from <= r <= n,
    decreases n - from,
{
    proof {
        lemma_skip_spaces(s@, from as int);
    }
    if from >= n {
        n
    } else if is_space_exec(s.get_char(from)) {
        skip_spaces(s, n, from + 1)
    } else {
        from
    }
}

/// Executable counterpart of [`spec_token_end`].
pub fn token_end(s: &str, n: usize, from: usize) -> (r: usize)
    requires
        n == s@.len(),
        from <= n,
    ensures
        r == spec_token_end(s@, from as int),
        from <= r <= n,
    decreases n - from,
{
    proof {
        lemma_token_end(s@, from as int);
    }
    if from >= n {
        n
    } else if is_space_exec(s.get_char(from)) {
        from
    } else {
        token_end(s, n, from + 1)
    }
}

/// Start of `s[from..to)` with leading whitespace dropped.
pub open spec fn spec_trim_start(s: Seq<char>, from: int, to: int) -> int
    decreases to - from,
        when 0 <= from <= to <= s.len()
{
    if from >= to {
        from
    } else if is_space_char(s[from]) {
        spec_trim_start(s, from + 1, to)
    } else {
        from
    }
}

/// End of `s[from..to)` with trailing whitespace dropped.
pub open spec fn spec_trim_end(s: Seq<char>, from: int, to: int) -> int
    decreases to - from,
        when 0 <= from <= to <= s.len()
{
    if to <= from {
        to
    } else if is_space_char(s[to - 1]) {
        spec_trim_end(s, from, to - 1)
    } else {
        to
    }
}

pub proof fn lemma_trim(s: Seq<char>, from: int, to: int)
    requires
        0 <= from <= to <= s.len(),
    ensures
        from <= spec_trim_start(s, from, to) <= to,
        from <= spec_trim_end(s, from, to) <= to,
    decreases to - from,
{
    if from < to {
        if is_space_char(s[from]) {
            lemma_trim(s, from + 1, to);
            assert(spec_trim_end(s, from, to) == if is_space_char(s[to - 1]) {
                spec_trim_end(s, from, to - 1)
            } else {
                to
            });
            if is_space_char(s[to - 1]) {
                if from + 1 <= to - 1 {
                    lemma_trim(s, from + 1, to - 1);
                    lemma_trim(s, from, to - 1);
                }
            }
        } else {
            if is_space_char(s[to - 1]) {
                lemma_trim(s, from, to - 1);
            }
        }
    }
}

/// Executable counterpart of [`spec_trim_start`].
pub fn trim_start_idx(s: &str, n: usize, from: usize, to: usize) -> (r: usize)
    requires
        n == s@.len(),
        from <= to <= n,
    ensures
        r == spec_trim_start(s@, from as int, to as int),
        from <= r <= to,
    decreases to - from,
{
    if from >= to {
        from
    } else if is_space_exec(s.get_char(from)) {
        trim_start_idx(s, n, from + 1, to)
    } else {
        from
    }
}

/// Executable counterpart of [`spec_trim_end`].
pub fn trim_end_idx(s: &str, n: usize, from: usize, to: usize) -> (r: usize)
    requires
        n == s@.len(),
        from <= to <= n,
    ensures
        r == spec_trim_end(s@, from as int, to as int),
        from <= r <= to,
    decreases to - from,
{
    if to <= from {
        to
    } else if is_space_exec(s.get_char(to - 1)) {
        trim_end_idx(s, n, from, to - 1)
    } else {
        to
    }
}

/// `s[from..to)` begins with `pat`.
pub open spec fn has_prefix(s: Seq<char>, from: int, to: int, pat: Seq<char>) -> bool {
    from + pat.len() <= to && s.subrange(from, from + pat.len()) == pat
}

/// Whether `s[from..to)` begins with `pat`.
pub fn check_prefix(s: &str, n: usize, from: usize, to: usize, pat: &str) -> (r: bool)
    requires
        n == s@.len(),
        from <= to <= n,
    ensures
        r == has_prefix(s@, from as int, to as int, pat@),
{
    let m = pat.unicode_len();
    if m > to - from {
        return false;
    }
    match_at_exec(s, n, pat, m, from)
}

/// Decimal digit character for a value 0..=9.
pub open spec fn digit_char(d: int) -> char {
    if d == 0 {
        '0'
    } else if d == 1 {
        '1'
    } else if d == 2 {
        '2'
    } else if d == 3 {
        '3'
    } else if d == 4 {
        '4'
    } else if d == 5 {
        '5'
    } else if d == 6 {
        '6'
    } else if d == 7 {
        '7'
    } else if d == 8 {
        '8'
    } else {
        '9'
    }
}

/// Decimal rendering of a non-negative number, most significant digit first,
/// without leading zeros (except for the number 0 itself).
pub open spec fn dec_digits(n: int) -> Seq<char>
    decreases n,
        when n >= 0
{
    if n < 10 {
        seq![digit_char(n)]
    } else {
        dec_digits(n / 10).push(digit_char(n % 10))
    }
}

/// Decimal rendering of a signed number: a minus sign before the digits of
/// the magnitude when negative.
pub open spec fn dec_digits_signed(n: int) -> Seq<char> {
    if n < 0 {
        seq!['-'] + dec_digits(-n)
    } else {
        dec_digits(n)
    }
}

fn digit_str(d: u8) -> (r: &'static str)
    requires
        d < 10,
    ensures
        r@ == seq![digit_char(d as int)],
{
    proof {
        reveal_strlit("0");
        reveal_strlit("1");
        reveal_strlit("2");
        reveal_strlit("3");
        reveal_strlit("4");
        reveal_strlit("5");
        reveal_strlit("6");
        reveal_strlit("7");
        reveal_strlit("8");
        reveal_strlit("9");
    }
    let r = match d {
        0 => "0",
        1 => "1",
        2 => "2",
        3 => "3",
        4 => "4",
        5 => "5",
        6 => "6",
        7 => "7",
        8 => "8",
        _ => "9",
    };
    proof {
        assert(r@ =~= seq![digit_char(d as int)]);
    }
    r
}

/// Appends the decimal digits of `n` to `out`.
pub fn append_u64(n: u64, out: &mut String)
    ensures
        final(out)@ == old(out)@ + dec_digits(n as int),
    decreases n,
{
    if n >= 10 {
        append_u64(n / 10, out);
    }
    let d = (n % 10) as u8;
    out.append(digit_str(d));
    proof {
        if n < 10 {
            assert(final(out)@ =~= old(out)@ + dec_digits(n as int));
        } else {
            assert(dec_digits(n as int) == dec_digits(n as int / 10).push(
                digit_char(n as int % 10),
            ));
            assert(final(out)@ =~= old(out)@ + dec_digits(n as int));
        }
    }
}

/// The decimal digits of `n` as a string.
pub fn u64_to_string(n: u64) -> (r: String)
    ensures
        r@ == dec_digits(n as int),
{
    let mut out = String::new();
    append_u64(n, &mut out);
    proof {
        assert(out@ =~= dec_digits(n as int));
    }
    out
}

/// The decimal digits of `n` as a string, with a minus sign when negative.
pub fn i64_to_string(n: i64) -> (r: String)
    ensures
        r@ == dec_digits_signed(n as int),
{
    if n >= 0 {
        let r = u64_to_string(n as u64);
        r
    } else {
        let mut out = String::new();
        out.append("-");
        let mag: u64 = if n == i64::MIN {
            9223372036854775808u64
        } else {
            (-n) as u64
        };
        append_u64(mag, &mut out);
        proof {
            reveal_strlit("-");
            assert(out@ =~= dec_digits_signed(n as int));
        }
        out
    }
}

/// The decimal digits of `n`, zero-padded on the left to two places.
pub open spec fn dec_digits_pad2(n: int) -> Seq<char> {
    if 0 <= n < 10 {
        seq!['0'] + dec_digits(n)
    } else {
        dec_digits(n)
    }
}

/// Appends `n` zero-padded to at least two digits, as `{:02}` formats it.
pub fn append_u64_pad2(n: u64, out: &mut String)
    ensures
        final(out)@ == old(out)@ + dec_digits_pad2(n as int),
{
    if n < 10 {
        out.append("0");
        proof {
            reveal_strlit("0");
        }
    }
    append_u64(n, out);
    proof {
        assert(final(out)@ =~= old(out)@ + dec_digits_pad2(n as int));
    }
}

/// Shortens a string to at most `max_len` characters, replacing the cut
/// tail with an ellipsis.
pub fn truncate_str(s: &str, max_len: usize) -> (r: String)
    requires
        max_len >= 3,
    ensures
        r@ == if s@.len() <= max_len {
            s@
        } else {
            s@.subrange(0, max_len - 3) + "..."@
        },
{
    let n = s.unicode_len();
    if n <= max_len {
        String::from_str(s)
    } else {
        let head = s.substring_char(0, max_len - 3);
        let mut out = String::from_str(head);
        out.append("...");
        out
    }
}

/// Index of the first occurrence of `c` in `s[from..to)`; `to` when none.
pub open spec fn spec_find_in(s: Seq<char>, c: char, from: int, to: int) -> int
    decreases to - from,
        when 0 <= from <= to <= s.len()
{
    if from >= to {
        to
    } else if s[from] == c {
        from
    } else {
        spec_find_in(s, c, from + 1, to)
    }
}

pub proof fn lemma_find_in(s: Seq<char>, c: char, from: int, to: int)
    requires
        0 <= from <= to <= s.len(),
    ensures
        from <= spec_find_in(s, c, from, to) <= to,
        spec_find_in(s, c, from, to) < to ==> s[spec_find_in(s, c, from, to)] == c,
    decreases to - from,
{
    if from < to && s[from] != c {
        lemma_find_in(s, c, from + 1, to);
    }
}

/// Finding within `s[a..b)` agrees with finding within the subrange taken
/// as a sequence of its own.
pub proof fn lemma_find_in_vs_sub(s: Seq<char>, c: char, a: int, b: int, j: int)
    requires
        0 <= a <= b <= s.len(),
        0 <= j <= b - a,
    ensures
        spec_find_in(s, c, a + j, b) - a == spec_find_char(s.subrange(a, b), c, j),
    decreases b - a - j,
{
    let t = s.subrange(a, b);
    if a + j < b {
        assert(t[j] == s[a + j]);
        if s[a + j] != c {
            lemma_find_in_vs_sub(s, c, a, b, j + 1);
        }
    }
}

/// Executable counterpart of [`spec_find_in`].
pub fn find_in_range(s: &str, n: usize, c: char, from: usize, to: usize) -> (r: usize)
    requires
        n == s@.len(),
        from <= to <= n,
    ensures
        r == spec_find_in(s@, c, from as int, to as int),
        from <= r <= to,
    decreases to - from,
{
    proof {
        lemma_find_in(s@, c, from as int, to as int);
    }
    if from >= to {
        to
    } else if s.get_char(from) == c {
        from
    } else {
        find_in_range(s, n, c, from + 1, to)
    }
}

/// Whether `s[from..to)` equals `pat` exactly.
pub fn range_equals(s: &str, n: usize, from: usize, to: usize, pat: &str) -> (r: bool)
    requires
        n == s@.len(),
        from <= to <= n,
    ensures
        r == (s@.subrange(from as int, to as int) == pat@),
{
    let m = pat.unicode_len();
    if to - from != m {
        proof {
            assert(s@.subrange(from as int, to as int).len() != pat@.len());
        }
        return false;
    }
    let r = match_at_exec(s, n, pat, m, from);
    proof {
        if r {
            assert(s@.subrange(from as int, from + m) =~= s@.subrange(from as int, to as int));
        } else {
            assert(s@.subrange(from as int, from + m) == s@.subrange(from as int, to as int));
        }
    }
    r
}

/// Whether the lower-cased image of `s` equals `pat` exactly; `pat` is
/// matched as given, so callers pass it already in lower case.
pub fn str_eq_lower(s: &str, pat: &str) -> (r: bool)
    ensures
        r == (lower_seq(s@) == pat@),
{
    broadcast use lemma_lower_seq_index;

    let n = s.unicode_len();
    let m = pat.unicode_len();
    if n != m {
        proof {
            assert(lower_seq(s@).len() != pat@.len());
        }
        return false;
    }
    let r = match_at_lower_exec(s, n, pat, m, 0);
    proof {
        if r {
            assert(lower_seq(s@).subrange(0, m as int) =~= lower_seq(s@));
        } else {
            assert(lower_seq(s@).subrange(0, m as int) =~= lower_seq(s@));
        }
    }
    r
}

} // verus!
