//! The grammar of duration literals: one or more `<digits><unit>` segments
//! with no separator, `unit` one of `h`, `m`, `s` and `ms`, summed up.
use crate::duration::{
    max_nanos, min_int, Duration, NANOS_PER_MILLI, NANOS_PER_SEC, SECS_PER_HOUR, SECS_PER_MINUTE,
};
use vstd::prelude::*;

verus! {

/// Why a duration literal was refused.
#[derive(Clone, Copy, Debug, PartialEq, Eq, Structural)]
pub enum DurationError {
    /// A unit letter with no digits before it.
    EmptyNumericSection,
    /// A numeric section that is not a run of digits, or that does not fit
    /// in 64 bits.
    InvalidNumber,
    /// A letter that starts no unit.
    UnknownUnit(char),
    /// Digits at the end, with no unit after them.
    UnfinishedCalculation,
    /// A literal that adds up to no time at all.
    ZeroDuration,
}

#[derive(Clone, Copy, Debug, PartialEq, Eq, Structural)]
pub enum Unit {
    Hour,
    Minute,
    Second,
    Millisecond,
}

pub open spec fn unit_nanos(u: Unit) -> int {
    match u {
        Unit::Hour => SECS_PER_HOUR * NANOS_PER_SEC,
        Unit::Minute => SECS_PER_MINUTE * NANOS_PER_SEC,
        Unit::Second => NANOS_PER_SEC as int,
        Unit::Millisecond => NANOS_PER_MILLI as int,
    }
}

/// Whether a character has the Unicode `Alphabetic` property.
pub uninterp spec fn alphabetic(c: char) -> bool;

/// Whether `c` starts a unit rather than belonging to a number: an ASCII
/// letter, or a non-ASCII character with the `Alphabetic` property.
pub open spec fn is_letter(c: char) -> bool {
    if (c as u32) < 128 {
        'a' <= c <= 'z' || 'A' <= c <= 'Z'
    } else {
        alphabetic(c)
    }
}

/// Relies on `char::is_alphabetic`, which tells whether `c` has the Unicode
/// `Alphabetic` property; among ASCII characters those are the letters.
#[verifier::external_body]
fn is_alphabetic(c: char) -> (r: bool)
    ensures
        r == alphabetic(c),
        (c as u32) < 128 ==> (r <==> ('a' <= c <= 'z' || 'A' <= c <= 'Z')),
{
    c.is_alphabetic()
}

pub open spec fn is_digit(c: char) -> bool {
    '0' <= c <= '9'
}

pub open spec fn all_digits(s: Seq<char>) -> bool {
    forall|i: int| 0 <= i < s.len() ==> is_digit(#[trigger] s[i])
}

/// The number that a run of decimal digits writes.
pub open spec fn decimal_value(s: Seq<char>) -> int
    decreases s.len(),
{
    if s.len() == 0 {
        0
    } else {
        decimal_value(s.drop_last()) * 10 + (s.last() as int - '0' as int)
    }
}

/// The number before a unit.
pub open spec fn section_number(s: Seq<char>) -> Result<u64, DurationError> {
    if s.len() == 0 {
        Err(DurationError::EmptyNumericSection)
    } else if all_digits(s) && decimal_value(s) <= u64::MAX {
        Ok(decimal_value(s) as u64)
    } else {
        Err(DurationError::InvalidNumber)
    }
}

/// The unit that starts at `s[i]`, and how many characters it takes:
/// `m` followed by `s` is milliseconds, `m` otherwise minutes.
pub open spec fn unit_at(s: Seq<char>, i: int) -> Option<(Unit, int)> {
    if s[i] == 'h' {
        Some((Unit::Hour, 1))
    } else if s[i] == 's' {
        Some((Unit::Second, 1))
    } else if s[i] == 'm' {
        if i + 1 < s.len() && s[i + 1] == 's' {
            Some((Unit::Millisecond, 2))
        } else {
            Some((Unit::Minute, 1))
        }
    } else {
        None
    }
}

/// The segment whose number runs from `start` to the letter at `i`: its
/// length in nanoseconds and the width of its unit.
pub open spec fn segment_at(s: Seq<char>, start: int, i: int) -> Result<(int, int), DurationError> {
    match section_number(s.subrange(start, i)) {
        Err(e) => Err(e),
        Ok(n) => match unit_at(s, i) {
            None => Err(DurationError::UnknownUnit(s[i])),
            Some((u, w)) => Ok((n * unit_nanos(u), w)),
        },
    }
}

/// Scans `s` from `i` on, where the current number began at `start`: the
/// sum of the segments that end from there on, and whether digits are left
/// over at the end; or the first error met from the left.
pub open spec fn segments(s: Seq<char>, start: int, i: int) -> Result<(int, bool), DurationError>
    decreases s.len() - i,
{
    if i >= s.len() {
        Ok((0, start < s.len()))
    } else if !is_letter(s[i]) {
        segments(s, start, i + 1)
    } else {
        match segment_at(s, start, i) {
            Err(e) => Err(e),
            Ok((t, w)) => add_to(t, segments(s, i + w, i + w)),
        }
    }
}

pub open spec fn add_to(k: int, r: Result<(int, bool), DurationError>) -> Result<
    (int, bool),
    DurationError,
> {
    match r {
        Ok((t, d)) => Ok((k + t, d)),
        Err(e) => Err(e),
    }
}

pub open spec fn trim_start_quotes(s: Seq<char>) -> Seq<char>
    decreases s.len(),
{
    if s.len() > 0 && s[0] == '"' {
        trim_start_quotes(s.drop_first())
    } else {
        s
    }
}

pub open spec fn trim_end_quotes(s: Seq<char>) -> Seq<char>
    decreases s.len(),
{
    if s.len() > 0 && s.last() == '"' {
        trim_end_quotes(s.drop_last())
    } else {
        s
    }
}

/// `s` without the quote characters at either end.
pub open spec fn trim_quotes(s: Seq<char>) -> Seq<char> {
    trim_end_quotes(trim_start_quotes(s))
}

/// What a duration literal stands for, in nanoseconds, saturated at the
/// longest duration.
pub open spec fn duration_nanos(text: Seq<char>) -> Result<int, DurationError> {
    match segments(trim_quotes(text), 0, 0) {
        Err(e) => Err(e),
        Ok((t, dirty)) => if t == 0 {
            Err(DurationError::ZeroDuration)
        } else if dirty {
            Err(DurationError::UnfinishedCalculation)
        } else {
            Ok(min_int(t, max_nanos()))
        },
    }
}

/// The characters of `dur` without the quotes at either end.
pub(crate) fn trimmed_chars(dur: &str) -> (r: Vec<char>)
    ensures
        r@ == trim_quotes(dur@),
{
    let n = dur.unicode_len();
    let mut lo: usize = 0;
    assert(dur@.subrange(0, n as int) =~= dur@);
    while lo < n && dur.get_char(lo) == '"'
        invariant
            n == dur@.len(),
            lo <= n,
            trim_start_quotes(dur@) == trim_start_quotes(dur@.subrange(lo as int, n as int)),
        decreases n - lo,
    {
        assert(dur@.subrange(lo as int, n as int).drop_first() =~= dur@.subrange(
            lo + 1,
            n as int,
        ));
        lo = lo + 1;
    }
    let ghost front = dur@.subrange(lo as int, n as int);
    assert(trim_start_quotes(dur@) == front);
    let mut hi: usize = n;
    while hi > lo && dur.get_char(hi - 1) == '"'
        invariant
            n == dur@.len(),
            lo <= hi <= n,
            front == dur@.subrange(lo as int, n as int),
            trim_end_quotes(front) == trim_end_quotes(dur@.subrange(lo as int, hi as int)),
        decreases hi,
    {
        assert(dur@.subrange(lo as int, hi as int).drop_last() =~= dur@.subrange(
            lo as int,
            hi - 1,
        ));
        hi = hi - 1;
    }
    let mut r: Vec<char> = Vec::new();
    let mut k: usize = lo;
    while k < hi
        invariant
            n == dur@.len(),
            lo <= k <= hi <= n,
            r@ == dur@.subrange(lo as int, k as int),
        decreases hi - k,
    {
        r.push(dur.get_char(k));
        assert(r@ =~= dur@.subrange(lo as int, k + 1));
        k = k + 1;
    }
    r
}

/// A longer run of digits writes no smaller number.
proof fn lemma_decimal_prefix(s: Seq<char>, k: int)
    requires
        0 <= k <= s.len(),
        all_digits(s),
    ensures
        decimal_value(s.subrange(0, k)) <= decimal_value(s),
        0 <= decimal_value(s),
    decreases s.len(),
{
    if s.len() > 0 {
        assert(all_digits(s.drop_last()));
        if k < s.len() {
            assert(s.drop_last().subrange(0, k) =~= s.subrange(0, k));
            lemma_decimal_prefix(s.drop_last(), k);
        } else {
            assert(s.subrange(0, k) =~= s);
            lemma_decimal_prefix(s.drop_last(), 0);
        }
        assert(is_digit(s[s.len() - 1]));
    } else {
        assert(s.subrange(0, k) =~= s);
    }
}

/// Reads the number in `s[start..end]`.
fn parse_num(s: &Vec<char>, start: usize, end: usize) -> (r: Result<u64, DurationError>)
    requires
        start <= end <= s.len(),
    ensures
        r == section_number(s@.subrange(start as int, end as int)),
{
    let ghost sect = s@.subrange(start as int, end as int);
    if start == end {
        return Err(DurationError::EmptyNumericSection);
    }
    let mut value: u128 = 0;
    let mut k: usize = start;
    while k < end
        invariant
            start <= k <= end <= s.len(),
            sect == s@.subrange(start as int, end as int),
            all_digits(sect.subrange(0, k - start)),
            value == decimal_value(sect.subrange(0, k - start)),
            value <= u64::MAX,
        decreases end - k,
    {
        let c = s[k];
        if !('0' <= c && c <= '9') {
            assert(!is_digit(sect[k - start]));
            return Err(DurationError::InvalidNumber);
        }
        let ghost prev = sect.subrange(0, k - start);
        let ghost next = sect.subrange(0, k - start + 1);
        assert(next.drop_last() =~= prev);
        value = value * 10 + (c as u32 - '0' as u32) as u128;
        assert(all_digits(next));
        if value > u64::MAX as u128 {
            proof {
                if all_digits(sect) {
                    lemma_decimal_prefix(sect, k - start + 1);
                }
            }
            return Err(DurationError::InvalidNumber);
        }
        k = k + 1;
    }
    assert(sect.subrange(0, k - start) =~= sect);
    Ok(value as u64)
}

/// Reads the unit that starts at `s[i]`, with how many characters it takes.
fn parse_unit(s: &Vec<char>, i: usize) -> (r: Result<(Unit, usize), DurationError>)
    requires
        i < s.len(),
    ensures
        match unit_at(s@, i as int) {
            Some((u, w)) => r == Ok::<(Unit, usize), DurationError>((u, w as usize)),
            None => r == Err::<(Unit, usize), DurationError>(DurationError::UnknownUnit(s@[i as int])),
        },
{
    let c = s[i];
    if c == 'h' {
        Ok((Unit::Hour, 1))
    } else if c == 's' {
        Ok((Unit::Second, 1))
    } else if c == 'm' {
        if i + 1 < s.len() && s[i + 1] == 's' {
            Ok((Unit::Millisecond, 2))
        } else {
            Ok((Unit::Minute, 1))
        }
    } else {
        Err(DurationError::UnknownUnit(c))
    }
}

/// `num` units, saturated at the longest duration.
fn create_duration(num: u64, unit: Unit) -> (r: Duration)
    ensures
        r@ == min_int(num * unit_nanos(unit), max_nanos()),
{
    let per = match unit {
        Unit::Hour => SECS_PER_HOUR,
        Unit::Minute => SECS_PER_MINUTE,
        Unit::Second => 1,
        Unit::Millisecond => {
            let r = Duration::from_millis(num);
            assert(num * NANOS_PER_MILLI <= max_nanos()) by (nonlinear_arith)
                requires
                    num <= u64::MAX,
                    max_nanos() == u64::MAX * NANOS_PER_SEC + (NANOS_PER_SEC - 1),
            ;
            return r;
        },
    };
    assert(num * unit_nanos(unit) == (num * per) * NANOS_PER_SEC) by (nonlinear_arith)
        requires
            unit_nanos(unit) == per * NANOS_PER_SEC,
    ;
    if num as u128 * per as u128 <= u64::MAX as u128 {
        let r = Duration::from_secs(num * per);
        assert(r@ <= max_nanos()) by (nonlinear_arith)
            requires
                r@ == (num * per) * NANOS_PER_SEC,
                num * per <= u64::MAX,
                max_nanos() == u64::MAX * NANOS_PER_SEC + (NANOS_PER_SEC - 1),
        ;
        r
    } else {
        assert(num * unit_nanos(unit) > max_nanos()) by (nonlinear_arith)
            requires
                num * unit_nanos(unit) == (num * per) * NANOS_PER_SEC,
                num * per > u64::MAX,
                max_nanos() == u64::MAX * NANOS_PER_SEC + (NANOS_PER_SEC - 1),
        ;
        Duration::max_value()
    }
}

/// Reads the segment whose number runs from `start` up to the letter at
/// `i`: its duration and where the text goes on after its unit.
fn parse_next(s: &Vec<char>, start: usize, i: usize) -> (r: Result<(Duration, usize), DurationError>)
    requires
        start <= i < s.len(),
    ensures
        match segment_at(s@, start as int, i as int) {
            Ok((t, w)) => r matches Ok((d, next)) && d@ == min_int(t, max_nanos()) && next == i + w,
            Err(e) => r == Err::<(Duration, usize), DurationError>(e),
        },
{
    let num = match parse_num(s, start, i) {
        Ok(n) => n,
        Err(e) => return Err(e),
    };
    let (unit, width) = match parse_unit(s, i) {
        Ok(u) => u,
        Err(e) => return Err(e),
    };
    Ok((create_duration(num, unit), i + width))
}

/// Parses a duration literal such as `"1h30m"` or `250ms`.
pub fn parse_duration(dur: &str) -> (r: Result<Duration, DurationError>)
    ensures
        match duration_nanos(dur@) {
            Ok(t) => r matches Ok(d) && d@ == t,
            Err(e) => r == Err::<Duration, DurationError>(e),
        },
{
    let s = trimmed_chars(dur);
    let ghost whole = segments(s@, 0, 0);
    let mut parsed = Duration::zero();
    let ghost mut prefix: int = 0;
    let mut start: usize = 0;
    let mut i: usize = 0;
    while i < s.len()
        invariant
            start <= i <= s.len(),
            s@ == trim_quotes(dur@),
            whole == segments(s@, 0, 0),
            whole == add_to(prefix, segments(s@, start as int, i as int)),
            0 <= prefix,
            parsed@ == min_int(prefix, max_nanos()),
        decreases s.len() - i,
    {
        if is_alphabetic(s[i]) {
            match parse_next(&s, start, i) {
                Ok((add, next)) => {
                    let ghost t = segment_at(s@, start as int, i as int)->Ok_0.0;
                    proof {
                        prefix = prefix + t;
                    }
                    parsed = parsed.saturating_add(add);
                    start = next;
                    i = next;
                },
                Err(e) => return Err(e),
            }
        } else {
            i = i + 1;
        }
    }
    if parsed.is_zero() {
        Err(DurationError::ZeroDuration)
    } else if start < s.len() {
        Err(DurationError::UnfinishedCalculation)
    } else {
        Ok(parsed)
    }
}


proof fn lemma_segments_nonneg(s: Seq<char>, start: int, i: int)
    requires
        0 <= start <= i,
        segments(s, start, i) is Ok,
    ensures
        segments(s, start, i)->Ok_0.0 >= 0,
    decreases s.len() - i,
{
    if i < s.len() {
        if !is_letter(s[i]) {
            lemma_segments_nonneg(s, start, i + 1);
        } else {
            let (t, w) = segment_at(s, start, i)->Ok_0;
            lemma_segments_nonneg(s, i + w, i + w);
            let n = section_number(s.subrange(start, i))->Ok_0;
            assert(n * unit_nanos(unit_at(s, i)->Some_0.0) >= 0) by (nonlinear_arith)
                requires
                    n >= 0,
                    unit_nanos(unit_at(s, i)->Some_0.0) >= 0,
            ;
        }
    }
}

/// A literal that adds up to some time starts with a digit.
proof fn lemma_starts_with_digit(s: Seq<char>, i: int)
    requires
        0 <= i <= s.len(),
        forall|k: int| 0 <= k < i ==> !is_letter(#[trigger] s[k]),
        segments(s, 0, i) matches Ok((t, _)) && t != 0,
    ensures
        s.len() > 0 && is_digit(s[0]),
    decreases s.len() - i,
{
    if i < s.len() {
        if !is_letter(s[i]) {
            lemma_starts_with_digit(s, i + 1);
        } else {
            assert(s.subrange(0, i)[0] == s[0]);
        }
    }
}

/// Scanning the tail of `a + b` is scanning `b`.
proof fn lemma_segments_shift(a: Seq<char>, b: Seq<char>, start: int, i: int)
    requires
        0 <= start <= i,
    ensures
        segments(a + b, a.len() + start, a.len() + i) == segments(b, start, i),
    decreases b.len() - i,
{
    let s = a + b;
    let o = a.len() as int;
    if i < b.len() {
        assert(s[o + i] == b[i]);
        assert(s.subrange(o + start, o + i) =~= b.subrange(start, i));
        if i + 1 < b.len() {
            assert(s[o + i + 1] == b[i + 1]);
        }
        assert(unit_at(s, o + i) == unit_at(b, i));
        if !is_letter(b[i]) {
            lemma_segments_shift(a, b, start, i + 1);
        } else if let Ok((t, w)) = segment_at(b, start, i) {
            lemma_segments_shift(a, b, i + w, i + w);
        }
    }
}

/// Scanning `a + b` from inside `a`, where the scan of `a` ends cleanly and
/// `b` starts with a digit.
proof fn lemma_segments_concat(a: Seq<char>, b: Seq<char>, start: int, i: int)
    requires
        0 <= start <= i <= a.len(),
        segments(a, start, i) matches Ok((_, dirty)) && !dirty,
        b.len() > 0 ==> is_digit(b[0]),
    ensures
        segments(a + b, start, i) == add_to(segments(a, start, i)->Ok_0.0, segments(b, 0, 0)),
    decreases a.len() - i,
{
    let s = a + b;
    if i == a.len() {
        lemma_segments_shift(a, b, 0, 0);
        if let Ok((t, d)) = segments(b, 0, 0) {
            assert(add_to(0, segments(b, 0, 0)) == segments(b, 0, 0));
        }
    } else {
        assert(s[i] == a[i]);
        assert(s.subrange(start, i) =~= a.subrange(start, i));
        if i + 1 < a.len() {
            assert(s[i + 1] == a[i + 1]);
        } else if b.len() > 0 {
            assert(s[i + 1] == b[0]);
        }
        assert(unit_at(s, i) == unit_at(a, i));
        if !is_letter(a[i]) {
            lemma_segments_concat(a, b, start, i + 1);
        } else {
            let (t, w) = segment_at(a, start, i)->Ok_0;
            lemma_segments_concat(a, b, i + w, i + w);
        }
    }
}

proof fn lemma_trim_start_concat(a: Seq<char>, b: Seq<char>)
    requires
        trim_start_quotes(a).len() > 0,
    ensures
        trim_start_quotes(a + b) == trim_start_quotes(a) + b,
        trim_start_quotes(a).last() == a.last(),
    decreases a.len(),
{
    if a.len() > 0 && a[0] == '"' {
        assert((a + b).drop_first() =~= a.drop_first() + b);
        lemma_trim_start_concat(a.drop_first(), b);
    }
}

proof fn lemma_trim_end_concat(a: Seq<char>, b: Seq<char>)
    requires
        trim_end_quotes(b).len() > 0,
    ensures
        trim_end_quotes(a + b) == a + trim_end_quotes(b),
    decreases b.len(),
{
    if b.len() > 0 && b.last() == '"' {
        assert((a + b).drop_last() =~= a + b.drop_last());
        lemma_trim_end_concat(a, b.drop_last());
    }
}

proof fn lemma_trim_end_empty(s: Seq<char>)
    requires
        s.len() == 0,
    ensures
        trim_end_quotes(s).len() == 0,
{
}

/// Writing two accepted duration literals one after the other adds them up
/// (saturated at the longest duration), provided that no quote character
/// stands where they meet.
pub proof fn lemma_duration_concat_adds(a: Seq<char>, b: Seq<char>)
    requires
        duration_nanos(a) is Ok,
        duration_nanos(b) is Ok,
        a.last() != '"',
        b[0] != '"',
    ensures
        duration_nanos(a + b) == Ok::<int, DurationError>(
            min_int(duration_nanos(a)->Ok_0 + duration_nanos(b)->Ok_0, max_nanos()),
        ),
{
    let ta = trim_start_quotes(a);
    if ta.len() == 0 {
        lemma_trim_end_empty(ta);
    }
    lemma_trim_start_concat(a, b);
    assert(trim_quotes(a) == ta);
    assert(trim_start_quotes(b) == b);
    let tb = trim_end_quotes(b);
    assert(trim_quotes(b) == tb);
    lemma_trim_end_concat(ta, b);
    assert(trim_quotes(a + b) == ta + tb);
    lemma_starts_with_digit(tb, 0);
    lemma_segments_concat(ta, tb, 0, 0);
    lemma_segments_nonneg(ta, 0, 0);
    lemma_segments_nonneg(tb, 0, 0);
}

} // verus!
