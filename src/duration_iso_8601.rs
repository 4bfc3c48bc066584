//! The duration codec: text in the ISO 8601 duration form `PnWnDTnHnMnS` to and
//! from a count of milliseconds.
//!
//! Reading goes left to right with one flag (past the `T` separator or not) and a
//! buffer of pending digits. Each unit letter turns the buffer into milliseconds:
//! the number is read exactly and multiplied by the unit's weight. The units are
//! added exactly, fractions included, and only the total is truncated to whole
//! milliseconds. It saturates at `i64::MAX`.
//! Years and months are recognised and refused. A `P` after the first is
//! ignored, units may repeat and add up, and digits left pending at the end
//! count for nothing.
use crate::text::{
    all_digits, decimal_text, decimal_value, digit_char, digit_to_char, digit_value, is_digit,
    lemma_decimal_text, lemma_digit_char, push_char, push_decimal,
};
use vstd::arithmetic::div_mod::*;
use vstd::arithmetic::power::*;
use vstd::prelude::*;
use vstd::string::*;

verus! {

pub const WEEK_AS_MS: u64 = 604800000;

pub const DAYS_AS_MS: u64 = 86400000;

pub const HOUR_AS_MS: u64 = 3600000;

pub const MINUTE_AS_MS: u64 = 60000;

pub const SECONDS_AS_MS: u64 = 1000;

/// The largest duration, in milliseconds, that a `Duration` holds (`i64::MAX`).
pub const MAX_MS: u64 = 9223372036854775807;

/// A signed span of time, counted in milliseconds.
#[derive(Debug, Clone, Copy, PartialEq, Eq, Structural)]
pub struct Duration {
    pub ms: i64,
}

impl Duration {
    pub fn milliseconds(ms: i64) -> (r: Duration)
        ensures
            r.ms == ms,
    {
        Duration { ms }
    }

    pub fn num_milliseconds(&self) -> (r: i64)
        ensures
            r == self.ms,
    {
        self.ms
    }
}

/// Why a text is not a duration.
#[derive(Debug, Clone, Copy, PartialEq, Eq, Structural)]
pub enum DurationFault {
    /// The text does not begin with `P`.
    MissingLeadMarker,
    /// A second `T`.
    DuplicateTimeMarker,
    /// A unit letter of the other section: `W`, `D` or `Y` after `T`
    /// (`in_time_section`), `H` or `S` before it.
    WrongZone { token: char, in_time_section: bool },
    /// The digits before `unit` are not a number.
    NumberFormat { unit: char },
    /// Years (`Y`) or months (`M` before `T`), which this codec does not implement.
    UnsupportedUnit { unit: char },
    /// A character that the grammar does not know.
    UnknownToken { token: char },
}

/// A refused duration text: the fault and the whole input.
#[derive(Debug, Clone, PartialEq)]
pub struct Iso8601Error {
    pub kind: DurationFault,
    pub input: String,
}

/// The weight in milliseconds of a unit letter.
pub open spec fn unit_weight(u: char) -> int {
    if u == 'W' {
        WEEK_AS_MS as int
    } else if u == 'D' {
        DAYS_AS_MS as int
    } else if u == 'H' {
        HOUR_AS_MS as int
    } else if u == 'M' {
        MINUTE_AS_MS as int
    } else {
        SECONDS_AS_MS as int
    }
}

pub open spec fn is_number_char(c: char) -> bool {
    is_digit(c) || c == '.'
}

pub open spec fn number_chars(s: Seq<char>) -> bool {
    forall|i: int| 0 <= i < s.len() ==> is_number_char(#[trigger] s[i])
}

/// The index of the first `.` in `s`, or its length if there is none.
pub open spec fn dot_position(s: Seq<char>) -> int
    decreases s.len(),
{
    if s.len() == 0 {
        0
    } else if s[0] == '.' {
        0
    } else {
        1 + dot_position(s.drop_first())
    }
}

/// The digits after the first `.` of `s` (empty if there is none).
pub open spec fn fraction_part(s: Seq<char>) -> Seq<char> {
    if dot_position(s) < s.len() {
        s.skip(dot_position(s) + 1)
    } else {
        Seq::empty()
    }
}

/// The digits before the first `.` of `s` (all of `s` if there is none).
pub open spec fn whole_part(s: Seq<char>) -> Seq<char> {
    s.take(dot_position(s))
}

/// Whether `buf` is a number: at least one digit, and at most one `.`.
pub open spec fn number_ok(buf: Seq<char>) -> bool {
    let frac = fraction_part(buf);
    dot_position(frac) == frac.len() && whole_part(buf).len() + frac.len() > 0
}

/// The number `buf` times ten to the power of its count of fraction digits: the
/// number exactly, as an integer over a power of ten.
pub open spec fn number_scaled(buf: Seq<char>) -> int {
    decimal_value(whole_part(buf)) * pow(10, fraction_part(buf).len()) + decimal_value(
        fraction_part(buf),
    )
}

/// Where a left-to-right reading stands: past `T` or not, the pending digits,
/// and the milliseconds read so far, exactly `num / 10^scale`.
pub struct ScanState {
    pub time: bool,
    pub buf: Seq<char>,
    pub num: int,
    pub scale: nat,
}

pub open spec fn start_state() -> ScanState {
    ScanState { time: false, buf: Seq::empty(), num: 0, scale: 0 }
}

/// The pending number, in the unit `unit`, added exactly to what was read so far.
pub open spec fn add_amount(st: ScanState, unit: char) -> Result<ScanState, DurationFault> {
    if number_ok(st.buf) {
        let k = fraction_part(st.buf).len();
        let scale = if st.scale >= k {
            st.scale
        } else {
            k
        };
        Ok(
            ScanState {
                time: st.time,
                buf: Seq::empty(),
                num: st.num * pow(10, (scale - st.scale) as nat) + number_scaled(st.buf)
                    * unit_weight(unit) * pow(10, (scale - k) as nat),
                scale,
            },
        )
    } else {
        Err(DurationFault::NumberFormat { unit })
    }
}

/// A count of milliseconds held to the range of a `Duration`.
pub open spec fn capped_ms(t: int) -> int {
    if t > MAX_MS {
        MAX_MS as int
    } else {
        t
    }
}

/// One character of a duration text.
pub open spec fn scan_step(st: ScanState, c: char) -> Result<ScanState, DurationFault> {
    if is_number_char(c) {
        Ok(ScanState { buf: st.buf.push(c), ..st })
    } else if c == 'P' {
        Ok(st)
    } else if c == 'T' {
        if st.time {
            Err(DurationFault::DuplicateTimeMarker)
        } else {
            Ok(ScanState { time: true, ..st })
        }
    } else if c == 'Y' {
        if st.time {
            Err(DurationFault::WrongZone { token: c, in_time_section: true })
        } else {
            Err(DurationFault::UnsupportedUnit { unit: c })
        }
    } else if c == 'W' || c == 'D' {
        if st.time {
            Err(DurationFault::WrongZone { token: c, in_time_section: true })
        } else {
            add_amount(st, c)
        }
    } else if c == 'H' || c == 'S' {
        if !st.time {
            Err(DurationFault::WrongZone { token: c, in_time_section: false })
        } else {
            add_amount(st, c)
        }
    } else if c == 'M' {
        if !st.time {
            Err(DurationFault::UnsupportedUnit { unit: c })
        } else {
            add_amount(st, c)
        }
    } else {
        Err(DurationFault::UnknownToken { token: c })
    }
}

pub open spec fn scan(st: ScanState, s: Seq<char>) -> Result<ScanState, DurationFault>
    decreases s.len(),
{
    if s.len() == 0 {
        Ok(st)
    } else {
        match scan_step(st, s[0]) {
            Ok(next) => scan(next, s.drop_first()),
            Err(f) => Err(f),
        }
    }
}

/// The milliseconds that a duration text denotes, or why it is refused: the
/// exact total of its units, truncated once to whole milliseconds.
pub open spec fn duration_of_text(s: Seq<char>) -> Result<int, DurationFault> {
    if s.len() == 0 || s[0] != 'P' {
        Err(DurationFault::MissingLeadMarker)
    } else {
        match scan(start_state(), s) {
            Ok(st) => Ok(capped_ms(st.num / pow(10, st.scale))),
            Err(f) => Err(f),
        }
    }
}

/// `n` followed by the unit letter, or nothing where `n` is zero.
pub open spec fn unit_text(n: int, u: char) -> Seq<char> {
    if n > 0 {
        decimal_text(n as nat).push(u)
    } else {
        Seq::empty()
    }
}

/// The fraction of a second below `f` < 1000 milliseconds: three digits after
/// a `.`, trailing zeros dropped, nothing at all where `f` is zero.
pub open spec fn fraction_text(f: int) -> Seq<char> {
    let d1 = digit_char(f / 100);
    let d2 = digit_char((f / 10) % 10);
    let d3 = digit_char(f % 10);
    if f == 0 {
        Seq::empty()
    } else if f % 10 != 0 {
        seq!['.', d1, d2, d3]
    } else if f % 100 != 0 {
        seq!['.', d1, d2]
    } else {
        seq!['.', d1]
    }
}

pub open spec fn seconds_text(ms: int) -> Seq<char> {
    if ms > 0 {
        (decimal_text((ms / 1000) as nat) + fraction_text(ms % 1000)).push('S')
    } else {
        Seq::empty()
    }
}

/// The canonical text of a duration: weeks, days, and (where a part of a day
/// remains) `T` with hours, minutes and seconds; zero parts left out. A duration
/// that is not positive is `P`.
pub open spec fn iso_text(ms: int) -> Seq<char> {
    if ms <= 0 {
        seq!['P']
    } else {
        let weeks = ms / (WEEK_AS_MS as int);
        let in_week = ms % (WEEK_AS_MS as int);
        let days = in_week / (DAYS_AS_MS as int);
        let rest = in_week % (DAYS_AS_MS as int);
        let hours = rest / (HOUR_AS_MS as int);
        let in_hour = rest % (HOUR_AS_MS as int);
        let time_part = if rest > 0 {
            seq!['T'] + unit_text(hours, 'H') + unit_text(in_hour / (MINUTE_AS_MS as int), 'M')
                + seconds_text(in_hour % (MINUTE_AS_MS as int))
        } else {
            Seq::empty()
        };
        seq!['P'] + unit_text(weeks, 'W') + unit_text(days, 'D') + time_part
    }
}

pub open spec fn error_message(kind: DurationFault, input: Seq<char>) -> Seq<char> {
    match kind {
        DurationFault::MissingLeadMarker => "Invalid ISO_8601 Duration: should start with Period indicator (P) > "@
            + input,
        DurationFault::DuplicateTimeMarker => "Invalid ISO_8601 Duration: should not have double Time indicator (T) > "@
            + input,
        DurationFault::WrongZone { token, in_time_section } => "Invalid ISO_8601 Duration: "@
            + seq![token] + zone_phrase_of(in_time_section) + input,
        DurationFault::NumberFormat { unit } => "Invalid ISO_8601 Duration: "@ + unit_name_of(unit)
            + " number invalid > "@ + input,
        DurationFault::UnsupportedUnit { unit } => "Not Implemented ISO_8601 Duration: "@
            + unsupported_name_of(unit) + " > "@ + input,
        DurationFault::UnknownToken { token } => "Invalid ISO_8601 Duration: "@ + seq![token]
            + " is not a token available > "@ + input,
    }
}

pub open spec fn zone_phrase_of(in_time_section: bool) -> Seq<char> {
    if in_time_section {
        " is not available in Time zone > "@
    } else {
        " is not available in Period zone > "@
    }
}

pub open spec fn unit_name_of(unit: char) -> Seq<char> {
    if unit == 'W' {
        "weeks"@
    } else if unit == 'D' {
        "days"@
    } else if unit == 'H' {
        "hours"@
    } else if unit == 'M' {
        "minutes"@
    } else {
        "seconds"@
    }
}

pub open spec fn unsupported_name_of(unit: char) -> Seq<char> {
    if unit == 'Y' {
        "Year (Y)"@
    } else {
        "Month (M)"@
    }
}

fn zone_phrase(in_time_section: bool) -> (r: &'static str)
    ensures
        r@ == zone_phrase_of(in_time_section),
{
    if in_time_section {
        " is not available in Time zone > "
    } else {
        " is not available in Period zone > "
    }
}

fn unit_name(unit: char) -> (r: &'static str)
    ensures
        r@ == unit_name_of(unit),
{
    if unit == 'W' {
        "weeks"
    } else if unit == 'D' {
        "days"
    } else if unit == 'H' {
        "hours"
    } else if unit == 'M' {
        "minutes"
    } else {
        "seconds"
    }
}

fn unsupported_name(unit: char) -> (r: &'static str)
    ensures
        r@ == unsupported_name_of(unit),
{
    if unit == 'Y' {
        "Year (Y)"
    } else {
        "Month (M)"
    }
}

pub proof fn lemma_dot_position(s: Seq<char>, k: int)
    requires
        0 <= k <= s.len(),
        forall|j: int| 0 <= j < k ==> s[j] != '.',
        k == s.len() || s[k] == '.',
    ensures
        dot_position(s) == k,
    decreases s.len(),
{
    if s.len() > 0 && k > 0 {
        lemma_dot_position(s.drop_first(), k - 1);
    }
}

pub proof fn lemma_dot_position_bound(s: Seq<char>)
    ensures
        0 <= dot_position(s) <= s.len(),
    decreases s.len(),
{
    if s.len() > 0 {
        lemma_dot_position_bound(s.drop_first());
    }
}

/// How much one unit can add to one place of the running sum: a digit times the
/// largest weight.
const PLACE_STEP: u128 = 5443200000;

/// Sums of digits times weights, one per decimal place after the point, read as one
/// number: each place is worth ten times the next.
pub open spec fn places_value(p: Seq<u128>) -> int
    decreases p.len(),
{
    if p.len() == 0 {
        0
    } else {
        places_value(p.drop_last()) * 10 + p.last()
    }
}

proof fn lemma_places_nonnegative(p: Seq<u128>)
    ensures
        places_value(p) >= 0,
    decreases p.len(),
{
    if p.len() > 0 {
        lemma_places_nonnegative(p.drop_last());
    }
}

/// Adding `x` at place `j` adds `x` times the worth of that place.
proof fn lemma_places_update(p: Seq<u128>, j: int, x: int)
    requires
        0 <= j < p.len(),
        0 <= p[j] + x <= u128::MAX,
    ensures
        places_value(p.update(j, (p[j] + x) as u128)) == places_value(p) + x * pow(
            10,
            (p.len() - 1 - j) as nat,
        ),
    decreases p.len(),
{
    let q = p.update(j, (p[j] + x) as u128);
    reveal(pow);
    if j == p.len() - 1 {
        assert(q.drop_last() =~= p.drop_last());
        assert(pow(10, 0) == 1);
    } else {
        assert(q.drop_last() =~= p.drop_last().update(j, (p[j] + x) as u128));
        lemma_places_update(p.drop_last(), j, x);
        let e = (p.len() - 2 - j) as nat;
        assert(pow(10, (p.len() - 1 - j) as nat) == 10 * pow(10, e));
        let v = places_value(p.drop_last());
        assert((v + x * pow(10, e)) * 10 + p.last() == v * 10 + p.last() + x * (10 * pow(10, e)))
            by (nonlinear_arith);
    }
}

/// A sum of places read from its first place: the first is worth a power of ten.
proof fn lemma_places_front(s: Seq<u128>)
    requires
        s.len() > 0,
    ensures
        places_value(s) == s[0] * pow(10, (s.len() - 1) as nat) + places_value(s.drop_first()),
    decreases s.len(),
{
    reveal(pow);
    if s.len() == 1 {
        assert(s.drop_first() =~= Seq::<u128>::empty());
        assert(s.drop_last() =~= Seq::<u128>::empty());
        assert(pow(10, 0) == 1);
    } else {
        let t = s.drop_last();
        lemma_places_front(t);
        assert(t.drop_first() =~= s.drop_first().drop_last());
        assert(s.drop_first().last() == s.last());
        let p = pow(10, (s.len() - 2) as nat);
        assert(pow(10, (s.len() - 1) as nat) == 10 * p);
        let d = s[0] as int;
        let x = places_value(t.drop_first());
        let l = s.last() as int;
        assert((d * p + x) * 10 + l == d * (10 * p) + (x * 10 + l)) by (nonlinear_arith);
    }
}

/// One step of truncating a sum of places, from its last place back to its first.
proof fn lemma_places_step(s: Seq<u128>)
    requires
        s.len() > 0,
    ensures
        places_value(s) / pow(10, s.len()) == (s[0] + places_value(s.drop_first()) / pow(
            10,
            s.drop_first().len(),
        )) / 10,
{
    lemma_places_front(s);
    lemma_places_nonnegative(s.drop_first());
    let p = pow(10, (s.len() - 1) as nat);
    assert(s.drop_first().len() == (s.len() - 1) as nat);
    assert(pow(10, s.len()) == p * 10) by {
        reveal(pow);
    }
    lemma_pow_positive(10, (s.len() - 1) as nat);
    let r = places_value(s.drop_first());
    let x = places_value(s);
    assert(x == r + (s[0] as int) * p);
    lemma_hoist_over_denominator(r, s[0] as int, p as nat);
    lemma_div_denominator(x, p, 10);
}

/// `t` held to the range of a `Duration`, as a `u64`.
pub open spec fn capped_u64(t: int) -> u64 {
    if t > MAX_MS {
        MAX_MS
    } else {
        t as u64
    }
}

/// Checks that `buf` is a number; gives its whole part in a unit of `w`
/// milliseconds, capped, and the index where its fraction digits start.
fn read_number(buf: &Vec<char>, w: u64) -> (r: Option<(u64, usize)>)
    requires
        number_chars(buf@),
        1000 <= w <= WEEK_AS_MS,
    ensures
        r is Some <==> number_ok(buf@),
        r matches Some((whole_ms, fstart)) ==> {
            &&& whole_ms == capped_u64(decimal_value(whole_part(buf@)) * w)
            &&& fstart <= buf@.len()
            &&& buf@.skip(fstart as int) == fraction_part(buf@)
            &&& all_digits(fraction_part(buf@))
            &&& all_digits(whole_part(buf@))
        },
{
    let n = buf.len();
    let mut k: usize = 0;
    while k < n && buf[k] != '.'
        invariant
            k <= n,
            n == buf@.len(),
            forall|j: int| 0 <= j < k ==> buf@[j] != '.',
        decreases n - k,
    {
        k = k + 1;
    }
    proof {
        lemma_dot_position(buf@, k as int);
    }
    let fstart = if k < n {
        k + 1
    } else {
        n
    };
    let ghost whole = buf@.take(k as int);
    let ghost frac = buf@.subrange(fstart as int, n as int);
    assert(frac =~= fraction_part(buf@));
    assert(buf@.skip(fstart as int) =~= frac);
    let mut j: usize = fstart;
    while j < n
        invariant
            fstart <= j <= n,
            n == buf@.len(),
            frac == buf@.subrange(fstart as int, n as int),
            frac == fraction_part(buf@),
            forall|i: int| fstart <= i < j ==> buf@[i] != '.',
        decreases n - j,
    {
        if buf[j] == '.' {
            proof {
                assert(frac[j - fstart] == '.');
                assert(dot_position(frac) < frac.len()) by {
                    assert forall|i: int| 0 <= i < j - fstart implies frac[i] != '.' by {
                        assert(frac[i] == buf@[fstart + i]);
                    }
                    lemma_dot_position(frac, j - fstart);
                }
            }
            return None;
        }
        j = j + 1;
    }
    proof {
        assert forall|i: int| 0 <= i < frac.len() implies frac[i] != '.' by {
            assert(frac[i] == buf@[fstart + i]);
        }
        lemma_dot_position(frac, frac.len() as int);
        assert forall|i: int| 0 <= i < frac.len() implies is_digit(#[trigger] frac[i]) by {
            assert(frac[i] == buf@[fstart + i]);
            assert(is_number_char(buf@[fstart + i]));
        }
        assert forall|i: int| 0 <= i < whole.len() implies is_digit(#[trigger] whole[i]) by {
            assert(is_number_char(buf@[i]));
        }
    }
    if k == 0 && fstart == n {
        return None;
    }
    // The whole part, saturating.

    let mut acc: u64 = 0;
    let mut i: usize = 0;
    while i < k
        invariant
            i <= k <= n,
            n == buf@.len(),
            whole == buf@.take(k as int),
            all_digits(whole),
            acc == (if decimal_value(whole.take(i as int)) > MAX_MS {
                MAX_MS as int
            } else {
                decimal_value(whole.take(i as int)) as int
            }),
        decreases k - i,
    {
        assert(whole.take(i + 1).drop_last() =~= whole.take(i as int));
        assert(whole[i as int] == buf@[i as int]);
        assert(is_digit(whole[i as int]));
        let d = (buf[i] as u64) - ('0' as u64);
        let ghost prev = decimal_value(whole.take(i as int)) as int;
        assert(decimal_value(whole.take(i + 1)) == prev * 10 + d);
        if acc > (MAX_MS - d) / 10 {
            assert(prev * 10 + d > MAX_MS) by (nonlinear_arith)
                requires
                    acc > (MAX_MS - d) / 10,
                    acc == (if prev > MAX_MS {
                        MAX_MS as int
                    } else {
                        prev
                    }),
                    0 <= d <= 9,
            ;
            acc = MAX_MS;
        } else {
            assert(acc * 10 + d <= MAX_MS && prev <= MAX_MS) by (nonlinear_arith)
                requires
                    acc <= (MAX_MS - d) / 10,
                    acc == (if prev > MAX_MS {
                        MAX_MS as int
                    } else {
                        prev
                    }),
                    0 <= d <= 9,
            ;
            acc = acc * 10 + d;
        }
        i = i + 1;
    }
    assert(whole.take(k as int) =~= whole);
    let ghost wv = decimal_value(whole) as int;
    if acc > MAX_MS / w {
        assert(wv * w > MAX_MS) by (nonlinear_arith)
            requires
                acc > MAX_MS / w,
                acc == (if wv > MAX_MS {
                    MAX_MS as int
                } else {
                    wv
                }),
                w >= 1000,
        ;
        Some((MAX_MS, fstart))
    } else {
        assert(acc * w <= MAX_MS && acc == wv) by (nonlinear_arith)
            requires
                acc <= MAX_MS / w,
                acc == (if wv > MAX_MS {
                    MAX_MS as int
                } else {
                    wv
                }),
                w >= 1000,
        ;
        Some((acc * w, fstart))
    }
}

/// The milliseconds read so far, exactly: the whole parts of the units, and the
/// sums of their fraction digits place by place.
struct Total {
    /// The whole parts, capped.
    whole: u64,
    /// For each decimal place after the point, the sum of each unit's digit there
    /// times its weight.
    places: Vec<u128>,
    /// The whole parts, not capped.
    exact_whole: Ghost<int>,
}

impl Total {
    /// The total as an integer over `10^places.len()`.
    spec fn num(&self) -> int {
        self.exact_whole@ * pow(10, self.places@.len()) + places_value(self.places@)
    }

    /// What holds after `units` units: no place exceeds its bound.
    spec fn inv(&self, units: int) -> bool {
        &&& self.exact_whole@ >= 0
        &&& self.whole == capped_u64(self.exact_whole@)
        &&& forall|j: int|
            0 <= j < self.places@.len() ==> #[trigger] self.places@[j] <= PLACE_STEP * units
    }

    fn new() -> (r: Total)
        ensures
            r.inv(0),
            r.num() == 0,
            r.places@.len() == 0,
    {
        Total { whole: 0, places: Vec::new(), exact_whole: Ghost(0) }
    }

    /// Adds the number in `buf`, of unit weight `w`, read by `read_number` as
    /// `whole_ms` and `fstart`.
    #[verifier::rlimit(40)]
    fn add(&mut self, buf: &Vec<char>, w: u64, whole_ms: u64, fstart: usize, units: usize)
        requires
            old(self).inv(units as int),
            units < usize::MAX,
            number_chars(buf@),
            number_ok(buf@),
            1000 <= w <= WEEK_AS_MS,
            whole_ms == capped_u64(decimal_value(whole_part(buf@)) * w),
            fstart <= buf@.len(),
            buf@.skip(fstart as int) == fraction_part(buf@),
            all_digits(fraction_part(buf@)),
        ensures
            final(self).inv(units + 1),
            ({
                let k = fraction_part(buf@).len();
                let old_scale = old(self).places@.len();
                let scale = if old_scale >= k {
                    old_scale
                } else {
                    k
                };
                &&& final(self).places@.len() == scale
                &&& final(self).num() == old(self).num() * pow(10, (scale - old_scale) as nat)
                    + number_scaled(buf@) * w * pow(10, (scale - k) as nat)
            }),
    {
        let ghost frac = fraction_part(buf@);
        let ghost whole = whole_part(buf@);
        let ghost k = frac.len();
        let ghost old_scale = self.places@.len();
        let ghost old_places = self.places@;
        let ghost wv = decimal_value(whole) as int;
        // Whole parts.
        proof {
            assert(wv * w >= 0) by (nonlinear_arith)
                requires
                    wv >= 0,
                    w >= 1000,
            ;
        }
        self.whole = if self.whole > MAX_MS - whole_ms {
            MAX_MS
        } else {
            self.whole + whole_ms
        };
        self.exact_whole = Ghost(self.exact_whole@ + wv * w);
        let ghost new_whole = self.whole;
        let ghost new_exact = self.exact_whole@;
        // Places for every fraction digit.
        let n = buf.len();
        let flen = n - fstart;
        assert(flen == k);
        assert(pow(10, 0) == 1) by {
            reveal(pow);
        }
        assert(self.places@.take(old_scale as int) =~= old_places);
        while self.places.len() < flen
            invariant
                self.whole == new_whole,
                self.exact_whole@ == new_exact,
                old_scale <= self.places@.len() <= (if old_scale >= k {
                    old_scale
                } else {
                    k
                }),
                flen == k,
                self.places@.take(old_scale as int) == old_places,
                forall|j: int|
                    old_scale <= j < self.places@.len() ==> #[trigger] self.places@[j] == 0,
                places_value(self.places@) == places_value(old_places) * pow(
                    10,
                    (self.places@.len() - old_scale) as nat,
                ),
            decreases flen - self.places@.len(),
        {
            let ghost before = self.places@;
            self.places.push(0);
            proof {
                assert(self.places@.drop_last() =~= before);
                assert(self.places@.take(old_scale as int) =~= before.take(old_scale as int));
                reveal(pow);
                let e = (before.len() - old_scale) as nat;
                assert(pow(10, (e + 1) as nat) == 10 * pow(10, e));
                let v = places_value(old_places);
                assert(v * pow(10, e) * 10 == v * (10 * pow(10, e))) by (nonlinear_arith);
            }
        }
        proof {
            assert(self.places@.take(old_scale as int) == old_places);
            if old_scale >= k {
                assert(self.places@.len() == old_scale);
            }
        }
        let ghost scale = self.places@.len();
        let ghost extended = self.places@;
        // Each digit times the weight, at its place.
        let mut j: usize = 0;
        assert(frac.take(0) =~= Seq::<char>::empty());
        assert(decimal_value(Seq::<char>::empty()) == 0);
        while j < flen
            invariant
                self.whole == new_whole,
                self.exact_whole@ == new_exact,
                j <= flen,
                flen == k,
                fstart + flen == n,
                n == buf@.len(),
                frac == buf@.skip(fstart as int),
                all_digits(frac),
                1000 <= w <= WEEK_AS_MS,
                units < usize::MAX,
                scale == self.places@.len(),
                k <= scale,
                old_scale <= scale,
                extended.len() == scale,
                forall|i: int| 0 <= i < old_scale ==> #[trigger] extended[i] == old_places[i],
                forall|i: int| old_scale <= i < scale ==> #[trigger] extended[i] == 0,
                forall|i: int| 0 <= i < old_scale ==> #[trigger] old_places[i] <= PLACE_STEP * units,
                forall|i: int|
                    0 <= i < scale ==> #[trigger] self.places@[i] <= extended[i] + (if i < j {
                        9 * WEEK_AS_MS
                    } else {
                        0
                    }),
                places_value(self.places@) == places_value(extended) + w * decimal_value(
                    frac.take(j as int),
                ) * pow(10, (scale - j) as nat),
            decreases flen - j,
        {
            assert(frac[j as int] == buf@[fstart + j]);
            assert(is_digit(frac[j as int]));
            let d = (buf[fstart + j] as u128) - ('0' as u128);
            let ghost before = self.places@;
            assert(d <= 9);
            assert(d * (w as u128) <= 9 * WEEK_AS_MS) by (nonlinear_arith)
                requires
                    d <= 9,
                    w <= WEEK_AS_MS,
            ;
            let add = d * (w as u128);
            assert(extended[j as int] <= PLACE_STEP * units) by {
                if j < old_scale {
                    assert(extended[j as int] == old_places[j as int]);
                }
            }
            assert(PLACE_STEP * units + 9 * WEEK_AS_MS <= PLACE_STEP * (units + 1));
            assert(PLACE_STEP * (units + 1) <= u128::MAX) by (nonlinear_arith)
                requires
                    units < usize::MAX,
            ;
            let cur = self.places[j];
            self.places[j] = cur + add;
            proof {
                lemma_places_update(before, j as int, add as int);
                assert(self.places@ =~= before.update(j as int, (before[j as int] + add) as u128));
                assert(frac.take(j + 1).drop_last() =~= frac.take(j as int));
                let dv = decimal_value(frac.take(j as int));
                assert(decimal_value(frac.take(j + 1)) == dv * 10 + d);
                reveal(pow);
                let e = (scale - j - 1) as nat;
                assert(pow(10, (scale - j) as nat) == 10 * pow(10, e));
                assert(w * dv * (10 * pow(10, e)) + add * pow(10, e) == w * (dv * 10 + d) * pow(
                    10,
                    e,
                )) by (nonlinear_arith)
                    requires
                        add == d * w,
                ;
            }
            j = j + 1;
        }
        proof {
            assert(frac.take(k as int) =~= frac);
            // The new total against the exact sum.
            let old_num = old(self).exact_whole@ * pow(10, old_scale) + places_value(old_places);
            let a = (scale - old_scale) as nat;
            let b = (scale - k) as nat;
            lemma_pow_adds(10, old_scale, a);
            lemma_pow_adds(10, k, b);
            assert(old_scale + a == scale && k + b == scale);
            let pa = pow(10, a);
            let pb = pow(10, b);
            let po = pow(10, old_scale);
            let pk = pow(10, k);
            let ps = pow(10, scale);
            let ew = old(self).exact_whole@;
            let pv = places_value(old_places);
            let fv = decimal_value(frac) as int;
            assert(places_value(extended) == pv * pa);
            assert(places_value(self.places@) == pv * pa + w * fv * pb);
            assert(whole =~= buf@.take(dot_position(buf@)));
            assert(number_scaled(buf@) == wv * pk + fv);
            assert(self.exact_whole@ == ew + wv * w);
            assert(self.places@.len() == scale);
            assert(self.num() == (ew + wv * w) * ps + places_value(self.places@));
            assert(self.num() == (ew + wv * w) * ps + pv * pa + w * fv * pb);
            assert(ew * ps == ew * po * pa) by (nonlinear_arith)
                requires
                    ps == po * pa,
            ;
            assert(wv * w * ps == wv * pk * w * pb) by (nonlinear_arith)
                requires
                    ps == pk * pb,
            ;
            assert((ew + wv * w) * ps == ew * ps + wv * w * ps) by (nonlinear_arith);
            assert((ew * po + pv) * pa == ew * po * pa + pv * pa) by (nonlinear_arith);
            assert((wv * pk + fv) * w * pb == wv * pk * w * pb + w * fv * pb) by (nonlinear_arith);
            assert forall|i: int| 0 <= i < scale implies #[trigger] self.places@[i] <= PLACE_STEP
                * (units + 1) by {
                if i < old_scale {
                    assert(extended[i] == old_places[i]);
                }
            }
        }
    }

    /// The total truncated to whole milliseconds, capped.
    fn truncated(&self, units: usize) -> (r: u64)
        requires
            self.inv(units as int),
        ensures
            r == capped_ms(self.num() / pow(10, self.places@.len())),
    {
        let n = self.places.len();
        let mut c: u128 = 0;
        let mut j: usize = n;
        assert(self.places@.subrange(n as int, n as int) =~= Seq::<u128>::empty());
        assert(pow(10, 0) == 1) by {
            reveal(pow);
        }
        let ghost bound = PLACE_STEP * units;
        assert(bound <= u128::MAX / 2) by (nonlinear_arith)
            requires
                bound == PLACE_STEP * units,
                units <= usize::MAX,
        ;
        while j > 0
            invariant
                j <= n,
                n == self.places@.len(),
                self.inv(units as int),
                bound == PLACE_STEP * units,
                bound <= u128::MAX / 2,
                c <= bound,
                c == places_value(self.places@.subrange(j as int, n as int)) / pow(
                    10,
                    (n - j) as nat,
                ),
            decreases j,
        {
            j = j - 1;
            let ghost sfx = self.places@.subrange(j as int, n as int);
            assert(sfx.drop_first() =~= self.places@.subrange(j + 1, n as int));
            assert(sfx[0] == self.places@[j as int]);
            proof {
                lemma_places_step(sfx);
            }
            let p = self.places[j];
            c = (p + c) / 10;
        }
        assert(self.places@.subrange(0, n as int) =~= self.places@);
        proof {
            lemma_places_nonnegative(self.places@);
            lemma_pow_positive(10, n as nat);
            lemma_hoist_over_denominator(
                places_value(self.places@),
                self.exact_whole@,
                pow(10, n as nat) as nat,
            );
            lemma_div_pos_is_pos(places_value(self.places@), pow(10, n as nat));
        }
        let t = (self.whole as u128) + c;
        if t > MAX_MS as u128 {
            MAX_MS
        } else {
            t as u64
        }
    }
}

/// The state that the reading loop keeps, as the specification sees it.
spec fn state_of(time: bool, buf: Seq<char>, total: Total) -> ScanState {
    ScanState { time, buf, num: total.num(), scale: total.places@.len() }
}

pub open spec fn parse_result_matches(s: Seq<char>, r: Result<Duration, Iso8601Error>) -> bool {
    match r {
        Ok(d) => duration_of_text(s) == Ok::<int, DurationFault>(d.ms as int),
        Err(e) => duration_of_text(s) == Err::<int, DurationFault>(e.kind) && e.input@ == s,
    }
}

fn refuse(kind: DurationFault, s: &str) -> (e: Iso8601Error)
    ensures
        e.kind == kind,
        e.input@ == s@,
{
    Iso8601Error { kind, input: String::from_str(s) }
}

fn unit_weight_ms(unit: char) -> (w: u64)
    ensures
        w == unit_weight(unit),
{
    if unit == 'W' {
        WEEK_AS_MS
    } else if unit == 'D' {
        DAYS_AS_MS
    } else if unit == 'H' {
        HOUR_AS_MS
    } else if unit == 'M' {
        MINUTE_AS_MS
    } else {
        SECONDS_AS_MS
    }
}

fn push_unit(out: &mut String, n: u64, unit: char)
    ensures
        final(out)@ == old(out)@ + unit_text(n as int, unit),
{
    if n > 0 {
        push_decimal(out, n);
        push_char(out, unit);
        assert(final(out)@ =~= old(out)@ + unit_text(n as int, unit));
    } else {
        assert(final(out)@ =~= old(out)@ + unit_text(n as int, unit));
    }
}

fn push_seconds(out: &mut String, ms: u64)
    requires
        ms < MINUTE_AS_MS,
    ensures
        final(out)@ == old(out)@ + seconds_text(ms as int),
{
    if ms == 0 {
        assert(final(out)@ =~= old(out)@ + seconds_text(ms as int));
        return;
    }
    push_decimal(out, ms / 1000);
    let f = ms % 1000;
    let ghost before_fraction = out@;
    if f != 0 {
        push_char(out, '.');
        push_char(out, digit_to_char(f / 100));
        if f % 100 != 0 {
            push_char(out, digit_to_char((f / 10) % 10));
        }
        if f % 10 != 0 {
            push_char(out, digit_to_char(f % 10));
        }
    }
    assert(out@ =~= before_fraction + fraction_text(f as int));
    push_char(out, 'S');
    assert(final(out)@ =~= old(out)@ + seconds_text(ms as int));
}

/// The reading of `a + b` is the reading of `a` and then of `b`.
pub proof fn lemma_scan_append(st: ScanState, a: Seq<char>, b: Seq<char>)
    ensures
        scan(st, a + b) == (match scan(st, a) {
            Ok(mid) => scan(mid, b),
            Err(f) => Err(f),
        }),
    decreases a.len(),
{
    if a.len() == 0 {
        assert(a + b =~= b);
    } else {
        assert((a + b)[0] == a[0]);
        assert((a + b).drop_first() =~= a.drop_first() + b);
        match scan_step(st, a[0]) {
            Ok(next) => lemma_scan_append(next, a.drop_first(), b),
            Err(_) => {},
        }
    }
}

pub proof fn lemma_scan_number_chars(st: ScanState, ds: Seq<char>)
    requires
        number_chars(ds),
    ensures
        scan(st, ds) == Ok::<ScanState, DurationFault>(ScanState { buf: st.buf + ds, ..st }),
    decreases ds.len(),
{
    if ds.len() == 0 {
        assert(st.buf + ds =~= st.buf);
    } else {
        assert(is_number_char(ds[0]));
        let next = ScanState { buf: st.buf.push(ds[0]), ..st };
        assert(number_chars(ds.drop_first()));
        lemma_scan_number_chars(next, ds.drop_first());
        assert(next.buf + ds.drop_first() =~= st.buf + ds);
    }
}

proof fn lemma_digits_are_number_chars(ds: Seq<char>)
    requires
        all_digits(ds),
    ensures
        number_chars(ds),
        forall|i: int| 0 <= i < ds.len() ==> ds[i] != '.',
{
    assert forall|i: int| 0 <= i < ds.len() implies is_number_char(#[trigger] ds[i]) && ds[i]
        != '.' by {
        assert(is_digit(ds[i]));
    }
}

/// A number without a fraction is its digits.
proof fn lemma_number_of_digits(ds: Seq<char>)
    requires
        all_digits(ds),
        ds.len() > 0,
    ensures
        number_ok(ds),
        fraction_part(ds).len() == 0,
        number_scaled(ds) == decimal_value(ds),
{
    lemma_digits_are_number_chars(ds);
    lemma_dot_position(ds, ds.len() as int);
    assert(ds.take(ds.len() as int) =~= ds);
    let e = Seq::<char>::empty();
    assert(fraction_part(ds) == e);
    assert(dot_position(e) == 0);
    assert(decimal_value(e) == 0);
    assert(pow(10, 0) == 1) by {
        reveal(pow);
    }
}

/// Reading `n` and a unit letter of the current section adds `n` units.
proof fn lemma_scan_unit(st: ScanState, n: int, u: char)
    requires
        st.buf == Seq::<char>::empty(),
        st.scale == 0,
        n >= 0,
        (u == 'W' || u == 'D') && !st.time || (u == 'H' || u == 'M' || u == 'S') && st.time,
    ensures
        scan(st, unit_text(n, u)) == Ok::<ScanState, DurationFault>(
            ScanState { num: st.num + n * unit_weight(u), ..st },
        ),
{
    if n == 0 {
        assert(unit_text(n, u) =~= Seq::<char>::empty());
    } else {
        let dt = decimal_text(n as nat);
        lemma_decimal_text(n as nat);
        lemma_digits_are_number_chars(dt);
        assert(unit_text(n, u) =~= dt + seq![u]);
        lemma_scan_append(st, dt, seq![u]);
        lemma_scan_number_chars(st, dt);
        assert(st.buf + dt =~= dt);
        lemma_number_of_digits(dt);
        assert(pow(10, 0) == 1) by {
            reveal(pow);
        }
        assert(seq![u].drop_first() =~= Seq::<char>::empty());
        reveal_with_fuel(scan, 2);
        assert(seq![u][0] == u);
        let mid = ScanState { buf: dt, ..st };
        let w = unit_weight(u);
        assert(number_scaled(dt) * w * 1 == n * w);
        assert(add_amount(mid, u) == Ok::<ScanState, DurationFault>(
            ScanState { num: st.num + n * w, ..st },
        ));
    }
}

proof fn lemma_value3(a: char, b: char, c: char)
    requires
        is_digit(a),
        is_digit(b),
        is_digit(c),
    ensures
        decimal_value(seq![a, b, c]) == (digit_value(a) * 10 + digit_value(b)) * 10 + digit_value(c),
        decimal_value(seq![a, b]) == digit_value(a) * 10 + digit_value(b),
        decimal_value(seq![a]) == digit_value(a),
{
    assert(seq![a, b, c].drop_last() =~= seq![a, b]);
    assert(seq![a, b].drop_last() =~= seq![a]);
    assert(seq![a].drop_last() =~= Seq::<char>::empty());
    assert(decimal_value(Seq::<char>::empty()) == 0);
    assert(decimal_value(seq![a]) == digit_value(a));
    assert(seq![a, b].last() == b);
    assert(decimal_value(seq![a, b]) == digit_value(a) * 10 + digit_value(b));
    assert(seq![a, b, c].last() == c);
}

/// The number `dt` followed by the fraction text of `f` milliseconds, in seconds,
/// is exactly `dt * 1000 + f` milliseconds.
proof fn lemma_fraction_amount(dt: Seq<char>, f: int)
    requires
        all_digits(dt),
        dt.len() > 0,
        0 <= f < 1000,
    ensures
        number_chars(dt + fraction_text(f)),
        number_ok(dt + fraction_text(f)),
        number_scaled(dt + fraction_text(f)) * 1000 == (decimal_value(dt) * 1000 + f) * pow(
            10,
            fraction_part(dt + fraction_text(f)).len(),
        ),
{
    let ft = fraction_text(f);
    let buf = dt + ft;
    lemma_digits_are_number_chars(dt);
    let d1 = digit_char(f / 100);
    let d2 = digit_char((f / 10) % 10);
    let d3 = digit_char(f % 10);
    lemma_digit_char(f / 100);
    lemma_digit_char((f / 10) % 10);
    lemma_digit_char(f % 10);
    assert forall|i: int| 0 <= i < buf.len() implies is_number_char(#[trigger] buf[i]) by {
        if i < dt.len() {
            assert(buf[i] == dt[i]);
        } else {
            assert(buf[i] == ft[i - dt.len()]);
        }
    }
    if f == 0 {
        assert(buf =~= dt);
        lemma_number_of_digits(dt);
        assert(pow(10, 0) == 1) by {
            reveal(pow);
        }
    } else {
        let digits = ft.drop_first();
        assert(buf[dt.len() as int] == '.');
        assert forall|j: int| 0 <= j < dt.len() implies buf[j] != '.' by {
            assert(buf[j] == dt[j]);
        }
        lemma_dot_position(buf, dt.len() as int);
        assert(buf.take(dt.len() as int) =~= dt);
        assert(fraction_part(buf) =~= digits);
        lemma_dot_position(digits, digits.len() as int);
        lemma_value3(d1, d2, d3);
        reveal_with_fuel(pow, 4);
        assert(pow(10, 3) == 1000 && pow(10, 2) == 100 && pow(10, 1) == 10);
        let p = pow(10, digits.len());
        if f % 10 != 0 {
            assert(digits =~= seq![d1, d2, d3]);
            assert(decimal_value(digits) == f);
            assert(decimal_value(digits) * 1000 == f * p);
        } else if f % 100 != 0 {
            assert(digits =~= seq![d1, d2]);
            assert(decimal_value(digits) == f / 10);
            assert(decimal_value(digits) * 1000 == f * p);
        } else {
            assert(digits =~= seq![d1]);
            assert(decimal_value(digits) == f / 100);
            assert(decimal_value(digits) * 1000 == f * p);
        }
        let v = decimal_value(dt) as int;
        let fv = decimal_value(digits) as int;
        assert((v * p + fv) * 1000 == (v * 1000 + f) * p) by (nonlinear_arith)
            requires
                fv * 1000 == f * p,
        ;
    }
}

/// Reading the seconds text of `x` milliseconds adds exactly `x`.
proof fn lemma_scan_seconds(st: ScanState, x: int)
    requires
        st.buf == Seq::<char>::empty(),
        st.time,
        st.scale == 0,
        0 <= x < MINUTE_AS_MS,
    ensures
        scan(st, seconds_text(x)) matches Ok(end) && end.num == (st.num + x) * pow(10, end.scale),
{
    if x == 0 {
        assert(seconds_text(x) =~= Seq::<char>::empty());
        assert(pow(10, 0) == 1) by {
            reveal(pow);
        }
    } else {
        let dt = decimal_text((x / 1000) as nat);
        let buf = dt + fraction_text(x % 1000);
        lemma_decimal_text((x / 1000) as nat);
        lemma_fraction_amount(dt, x % 1000);
        assert(seconds_text(x) =~= buf + seq!['S']);
        lemma_scan_append(st, buf, seq!['S']);
        lemma_scan_number_chars(st, buf);
        assert(st.buf + buf =~= buf);
        reveal_with_fuel(scan, 2);
        assert(seq!['S'][0] == 'S');
        lemma_fundamental_div_mod(x, 1000);
        let k = fraction_part(buf).len();
        assert(pow(10, 0) == 1 && pow(10, (k - 0) as nat) == pow(10, k)) by {
            reveal(pow);
        }
        let pk = pow(10, k);
        assert(st.num * pk + number_scaled(buf) * 1000 * 1 == (st.num + x) * pk) by (
        nonlinear_arith)
            requires
                number_scaled(buf) * 1000 == (decimal_value(dt) * 1000 + x % 1000) * pk,
                x == 1000 * (x / 1000) + x % 1000,
                decimal_value(dt) == x / 1000,
        ;
    }
}

proof fn lemma_scan_nonnegative(st: ScanState, s: Seq<char>)
    requires
        0 <= st.num,
    ensures
        scan(st, s) matches Ok(end) ==> 0 <= end.num,
    decreases s.len(),
{
    if s.len() > 0 {
        match scan_step(st, s[0]) {
            Ok(next) => {
                if number_ok(st.buf) {
                    let k = fraction_part(st.buf).len();
                    let scale = if st.scale >= k {
                        st.scale
                    } else {
                        k
                    };
                    let pa = pow(10, (scale - st.scale) as nat);
                    let pb = pow(10, (scale - k) as nat);
                    let pk = pow(10, k);
                    lemma_pow_positive(10, (scale - st.scale) as nat);
                    lemma_pow_positive(10, (scale - k) as nat);
                    lemma_pow_positive(10, k);
                    let w = unit_weight(s[0]);
                    let n = number_scaled(st.buf);
                    assert(n >= 0) by (nonlinear_arith)
                        requires
                            n == decimal_value(whole_part(st.buf)) * pk + decimal_value(
                                fraction_part(st.buf),
                            ),
                            pk > 0,
                    ;
                    assert(st.num * pa + n * w * pb >= 0) by (nonlinear_arith)
                        requires
                            st.num >= 0,
                            n >= 0,
                            w > 0,
                            pa > 0,
                            pb > 0,
                    ;
                }
                lemma_scan_nonnegative(next, s.drop_first());
            },
            Err(_) => {},
        }
    }
}

/// A duration text never denotes a negative duration.
pub proof fn lemma_duration_nonnegative(s: Seq<char>)
    ensures
        duration_of_text(s) matches Ok(ms) ==> 0 <= ms,
{
    lemma_scan_nonnegative(start_state(), s);
    if scan(start_state(), s) is Ok {
        let end = scan(start_state(), s)->Ok_0;
        lemma_pow_positive(10, end.scale);
        lemma_div_pos_is_pos(end.num, pow(10, end.scale));
    }
}

/// Writing a duration and reading the text back gives the same number of
/// milliseconds, for every duration from zero up.
pub proof fn lemma_format_then_parse(ms: int)
    requires
        0 <= ms <= MAX_MS,
    ensures
        duration_of_text(iso_text(ms)) == Ok::<int, DurationFault>(ms),
{
    let s0 = start_state();
    let p = seq!['P'];
    assert(p.drop_first() =~= Seq::<char>::empty());
    assert(p[0] == 'P');
    assert(scan(s0, p) == Ok::<ScanState, DurationFault>(s0)) by {
        reveal_with_fuel(scan, 2);
    }
    assert(pow(10, 0) == 1) by {
        reveal(pow);
    }
    if ms == 0 {
        assert(iso_text(ms) =~= p);
    } else {
        let w = WEEK_AS_MS as int;
        let d = DAYS_AS_MS as int;
        let h = HOUR_AS_MS as int;
        let m = MINUTE_AS_MS as int;
        let weeks = ms / w;
        let in_week = ms % w;
        let days = in_week / d;
        let rest = in_week % d;
        let hours = rest / h;
        let in_hour = rest % h;
        let minutes = in_hour / m;
        let secs = in_hour % m;
        lemma_fundamental_div_mod(ms, w);
        lemma_fundamental_div_mod(in_week, d);
        lemma_fundamental_div_mod(rest, h);
        lemma_fundamental_div_mod(in_hour, m);
        lemma_mod_pos_bound(ms, w);
        lemma_mod_pos_bound(in_week, d);
        lemma_mod_pos_bound(rest, h);
        lemma_mod_pos_bound(in_hour, m);
        lemma_div_pos_is_pos(ms, w);
        lemma_div_pos_is_pos(in_week, d);
        lemma_div_pos_is_pos(rest, h);
        lemma_div_pos_is_pos(in_hour, m);
        assert(weeks * w == w * weeks && days * d == d * days && hours * h == h * hours && minutes
            * m == m * minutes) by (nonlinear_arith);
        assert(ms == weeks * w + days * d + hours * h + minutes * m + secs);
        let t_w = unit_text(weeks, 'W');
        let t_d = unit_text(days, 'D');
        lemma_scan_unit(s0, weeks, 'W');
        let s1 = ScanState { num: weeks * w, ..s0 };
        lemma_scan_unit(s1, days, 'D');
        let s2 = ScanState { num: weeks * w + days * d, ..s0 };
        lemma_scan_append(s0, p, t_w);
        lemma_scan_append(s0, p + t_w, t_d);
        let head = p + t_w + t_d;
        assert(scan(s0, head) == Ok::<ScanState, DurationFault>(s2));
        if rest == 0 {
            assert(iso_text(ms) =~= head);
        } else {
            let tt = seq!['T'];
            let s3 = ScanState { time: true, ..s2 };
            assert(tt.drop_first() =~= Seq::<char>::empty());
            assert(tt[0] == 'T');
            assert(scan(s2, tt) == Ok::<ScanState, DurationFault>(s3)) by {
                reveal_with_fuel(scan, 2);
            }
            let t_h = unit_text(hours, 'H');
            let t_m = unit_text(minutes, 'M');
            let t_s = seconds_text(secs);
            lemma_scan_unit(s3, hours, 'H');
            let s4 = ScanState { num: s3.num + hours * h, ..s3 };
            lemma_scan_unit(s4, minutes, 'M');
            let s5 = ScanState { num: s4.num + minutes * m, ..s4 };
            lemma_scan_seconds(s5, secs);
            lemma_scan_append(s2, tt, t_h);
            lemma_scan_append(s2, tt + t_h, t_m);
            lemma_scan_append(s2, tt + t_h + t_m, t_s);
            let tail = tt + t_h + t_m + t_s;
            lemma_scan_append(s0, head, tail);
            assert(iso_text(ms) =~= head + tail);
            let end = scan(s5, t_s)->Ok_0;
            lemma_pow_positive(10, end.scale);
            lemma_div_by_multiple(ms, pow(10, end.scale));
        }
    }
}

/// The reader and writer of duration texts.
pub struct Iso8601;

impl Iso8601 {
    /// Reads a duration text.
    pub fn parse_str(s: &str) -> (r: Result<Duration, Iso8601Error>)
        ensures
            parse_result_matches(s@, r),
    {
        let len = s.unicode_len();
        if len == 0 || s.get_char(0) != 'P' {
            return Err(refuse(DurationFault::MissingLeadMarker, s));
        }
        let mut time = false;
        let mut buf: Vec<char> = Vec::new();
        let mut total = Total::new();
        let mut i: usize = 0;
        assert(s@.skip(0) =~= s@);
        while i < len
            invariant
                len == s@.len(),
                i <= len,
                total.inv(i as int),
                number_chars(buf@),
                s@.len() > 0 && s@[0] == 'P',
                scan(start_state(), s@) == scan(state_of(time, buf@, total), s@.skip(i as int)),
            decreases len - i,
        {
            let c = s.get_char(i);
            let ghost st = state_of(time, buf@, total);
            assert(s@.skip(i as int).drop_first() =~= s@.skip(i + 1));
            assert(s@.skip(i as int)[0] == c);
            if ('0' <= c && c <= '9') || c == '.' {
                buf.push(c);
                assert(buf@ =~= st.buf.push(c));
            } else if c == 'P' {
            } else if c == 'T' {
                if time {
                    return Err(refuse(DurationFault::DuplicateTimeMarker, s));
                }
                time = true;
            } else if c == 'Y' {
                if time {
                    return Err(refuse(DurationFault::WrongZone { token: c, in_time_section: true }, s));
                }
                return Err(refuse(DurationFault::UnsupportedUnit { unit: c }, s));
            } else if c == 'W' || c == 'D' || c == 'H' || c == 'M' || c == 'S' {
                if (c == 'W' || c == 'D') && time {
                    return Err(refuse(DurationFault::WrongZone { token: c, in_time_section: true }, s));
                }
                if (c == 'H' || c == 'S') && !time {
                    return Err(
                        refuse(DurationFault::WrongZone { token: c, in_time_section: false }, s),
                    );
                }
                if c == 'M' && !time {
                    return Err(refuse(DurationFault::UnsupportedUnit { unit: c }, s));
                }
                match read_number(&buf, unit_weight_ms(c)) {
                    None => {
                        return Err(refuse(DurationFault::NumberFormat { unit: c }, s));
                    },
                    Some((whole_ms, fstart)) => {
                        total.add(&buf, unit_weight_ms(c), whole_ms, fstart, i);
                        buf = Vec::new();
                        assert(buf@ =~= Seq::<char>::empty());
                    },
                }
            } else {
                return Err(refuse(DurationFault::UnknownToken { token: c }, s));
            }
            assert(scan_step(st, c) == Ok::<ScanState, DurationFault>(state_of(time, buf@, total)));
            i = i + 1;
        }
        assert(s@.skip(len as int) =~= Seq::<char>::empty());
        Ok(Duration { ms: total.truncated(i) as i64 })
    }

    /// Writes the canonical text of a duration.
    ///
    /// A duration that is not positive is written `P`, which reads back as zero.
    pub fn to_string(duration: Duration) -> (r: String)
        ensures
            r@ == iso_text(duration.ms as int),
    {
        let mut out = String::from_str("P");
        proof {
            reveal_strlit("P");
        }
        assert(out@ =~= seq!['P']);
        if duration.ms <= 0 {
            return out;
        }
        let ms = duration.ms as u64;
        let weeks = ms / WEEK_AS_MS;
        let in_week = ms % WEEK_AS_MS;
        push_unit(&mut out, weeks, 'W');
        let days = in_week / DAYS_AS_MS;
        let rest = in_week % DAYS_AS_MS;
        push_unit(&mut out, days, 'D');
        if rest == 0 {
            assert(out@ =~= iso_text(duration.ms as int));
            return out;
        }
        push_char(&mut out, 'T');
        let in_hour = rest % HOUR_AS_MS;
        push_unit(&mut out, rest / HOUR_AS_MS, 'H');
        push_unit(&mut out, in_hour / MINUTE_AS_MS, 'M');
        push_seconds(&mut out, in_hour % MINUTE_AS_MS);
        assert(out@ =~= iso_text(duration.ms as int));
        out
    }
}

impl Iso8601Error {
    /// The message that tells what was refused, and the input.
    pub fn to_string(&self) -> (r: String)
        ensures
            r@ == error_message(self.kind, self.input@),
    {
        let mut out;
        match self.kind {
            DurationFault::MissingLeadMarker => {
                out = String::from_str(
                    "Invalid ISO_8601 Duration: should start with Period indicator (P) > ",
                );
            },
            DurationFault::DuplicateTimeMarker => {
                out = String::from_str(
                    "Invalid ISO_8601 Duration: should not have double Time indicator (T) > ",
                );
            },
            DurationFault::WrongZone { token, in_time_section } => {
                out = String::from_str("Invalid ISO_8601 Duration: ");
                push_char(&mut out, token);
                out.append(zone_phrase(in_time_section));
            },
            DurationFault::NumberFormat { unit } => {
                out = String::from_str("Invalid ISO_8601 Duration: ");
                out.append(unit_name(unit));
                out.append(" number invalid > ");
            },
            DurationFault::UnsupportedUnit { unit } => {
                out = String::from_str("Not Implemented ISO_8601 Duration: ");
                out.append(unsupported_name(unit));
                out.append(" > ");
            },
            DurationFault::UnknownToken { token } => {
                out = String::from_str("Invalid ISO_8601 Duration: ");
                push_char(&mut out, token);
                out.append(" is not a token available > ");
            },
        }
        out.append(self.input.as_str());
        proof {
            assert(out@ =~= error_message(self.kind, self.input@));
        }
        out
    }
}

/// Reads an optional duration field: an empty text means that the field is absent.
pub fn deserialize(s: &str) -> (r: Result<Option<Duration>, Iso8601Error>)
    ensures
        s@.len() == 0 ==> r matches Ok(None),
        s@.len() > 0 ==> match r {
            Ok(Some(d)) => duration_of_text(s@) == Ok::<int, DurationFault>(d.ms as int),
            Ok(None) => false,
            Err(e) => duration_of_text(s@) == Err::<int, DurationFault>(e.kind) && e.input@ == s@,
        },
{
    if s.unicode_len() == 0 {
        return Ok(None);
    }
    match Iso8601::parse_str(s) {
        Ok(d) => Ok(Some(d)),
        Err(e) => Err(e),
    }
}

/// Writes an optional duration field: an absent field has no text.
pub fn serialize(duration: &Option<Duration>) -> (r: Option<String>)
    ensures
        match duration {
            Some(d) => r matches Some(t) && t@ == iso_text(d.ms as int),
            None => r is None,
        },
{
    match duration {
        Some(d) => Some(Iso8601::to_string(*d)),
        None => None,
    }
}

} // verus!
