//! The time model: instants in milliseconds and spans between them.

use vstd::prelude::*;

verus! {

/// Truncating (round toward zero) division, as the `/` operator of the
/// underlying machine integers computes it.
pub open spec fn div_trunc(a: int, d: int) -> int {
    if a >= 0 {
        a / d
    } else {
        -((-a) / d)
    }
}

/// Truncating remainder, matching the machine `%` operator: the sign follows
/// the dividend.
pub open spec fn rem_trunc(a: int, d: int) -> int {
    if a >= 0 {
        a % d
    } else {
        -((-a) % d)
    }
}

/// A time in milliseconds from an arbitrary origin.
#[derive(Clone, Copy, Debug, Default, PartialEq, Eq, Structural, PartialOrd, Ord, Hash)]
pub struct TimePoint {
    msecs: i64,
}

impl TimePoint {
    /// The instant, as mathematical milliseconds.
    pub closed spec fn spec_msecs(self) -> int {
        self.msecs as int
    }

    /// The instant a given number of milliseconds from the origin, as a
    /// mathematical value.
    pub closed spec fn spec_from_msecs(time: i64) -> TimePoint {
        TimePoint { msecs: time }
    }

    /// Create a `TimePoint` from milliseconds.
    pub fn from_msecs(time: i64) -> (r: Self)
        ensures
            r == TimePoint::spec_from_msecs(time),
            r.spec_msecs() == time as int,
    {
        TimePoint { msecs: time }
    }

    /// The time in milliseconds.
    pub fn msecs(self) -> (r: i64)
        ensures
            r as int == self.spec_msecs(),
    {
        self.msecs
    }

    /// The whole seconds, rounded toward zero.
    pub fn secs(self) -> (r: i64)
        ensures
            r as int == div_trunc(self.spec_msecs(), 1000),
    {
        div_units(self.msecs, 1000)
    }

    /// The whole minutes, rounded toward zero.
    pub fn mins(self) -> (r: i64)
        ensures
            r as int == div_trunc(self.spec_msecs(), 60000int),
    {
        div_units(self.msecs, 60 * 1000)
    }

    /// The whole hours, rounded toward zero.
    pub fn hours(self) -> (r: i64)
        ensures
            r as int == div_trunc(self.spec_msecs(), 3600000int),
    {
        div_units(self.msecs, 60 * 60 * 1000)
    }

    /// The minute component, 0..60 for non-negative times.
    pub fn mins_comp(self) -> (r: i64)
        ensures
            r as int == rem_trunc(div_trunc(self.spec_msecs(), 60000int), 60),
    {
        rem_units(self.mins(), 60)
    }

    /// The second component, 0..60 for non-negative times.
    pub fn secs_comp(self) -> (r: i64)
        ensures
            r as int == rem_trunc(div_trunc(self.spec_msecs(), 1000), 60),
    {
        rem_units(self.secs(), 60)
    }

    /// The millisecond component, 0..1000 for non-negative times.
    pub fn msecs_comp(self) -> (r: i64)
        ensures
            r as int == rem_trunc(self.spec_msecs(), 1000),
    {
        rem_units(self.msecs, 1000)
    }

    /// The same distance from the origin, on the other side.
    pub fn neg(self) -> (r: Self)
        requires
            self.spec_msecs() != i64::MIN as int,
        ensures
            r.spec_msecs() == -self.spec_msecs(),
    {
        TimePoint { msecs: -self.msecs }
    }
}

/// Round-trip of the millisecond constructor: for every `i64` value, reading
/// the milliseconds back from the instant built by `from_msecs` yields
/// exactly the value it was given.
pub proof fn lemma_msecs_round_trip(time: i64)
    ensures
        TimePoint::spec_from_msecs(time).spec_msecs() == time as int,
{
}

/// The magnitude of an `i64`, as a `u64` (total, also for `i64::MIN`).
fn abs_u64(a: i64) -> (r: u64)
    ensures
        r as int == if a >= 0 { a as int } else { -(a as int) },
{
    if a >= 0 {
        a as u64
    } else if a == i64::MIN {
        9223372036854775808u64
    } else {
        (-a) as u64
    }
}

/// Truncating division of an `i64` by a positive divisor.
fn div_units(a: i64, d: u64) -> (r: i64)
    requires
        0 < d,
    ensures
        r as int == div_trunc(a as int, d as int),
{
    let mag = abs_u64(a);
    let q = mag / d;
    if a >= 0 {
        proof {
            assert(q as int == (a as int) / (d as int));
            vstd::arithmetic::div_mod::lemma_div_is_ordered(0, a as int, d as int);
            vstd::arithmetic::div_mod::lemma_div_is_ordered(a as int, i64::MAX as int, d as int);
        }
        q as i64
    } else {
        proof {
            assert(q as int == (-(a as int)) / (d as int));
            vstd::arithmetic::div_mod::lemma_div_is_ordered(0, -(a as int), d as int);
            vstd::arithmetic::div_mod::lemma_div_is_ordered(-(a as int), -(i64::MIN as int), d as
                int);
            assert((-(i64::MIN as int)) / (d as int) <= -(i64::MIN as int)) by {
                vstd::arithmetic::div_mod::lemma_div_nonincreasing(-(i64::MIN as int), d as int);
            }
        }
        if q == 9223372036854775808u64 {
            // Only possible for a == i64::MIN and d == 1.
            i64::MIN
        } else {
            -(q as i64)
        }
    }
}

/// Truncating remainder of an `i64` by a positive divisor.
fn rem_units(a: i64, d: u64) -> (r: i64)
    requires
        0 < d <= i64::MAX as u64,
    ensures
        r as int == rem_trunc(a as int, d as int),
{
    let mag = abs_u64(a);
    let m = mag % d;
    proof {
        vstd::arithmetic::div_mod::lemma_mod_bound(mag as int, d as int);
    }
    if a >= 0 {
        m as i64
    } else {
        -(m as i64)
    }
}

/// A span of time: a start instant and an end instant.
#[derive(Clone, Copy, Debug, Default, PartialEq, Eq, Structural)]
pub struct TimeSpan {
    /// Start time of the span.
    pub start: TimePoint,
    /// End time of the span.
    pub end: TimePoint,
}

impl TimeSpan {
    /// Create a new `TimeSpan` from a start and an end.
    pub fn new(start: TimePoint, end: TimePoint) -> (r: Self)
        ensures
            r.start == start,
            r.end == end,
    {
        TimeSpan { start, end }
    }
}

/// The digit character of a value below ten.
pub open spec fn spec_digit(d: int) -> char
    recommends
        0 <= d < 10,
{
    ((0x30 + d) as u8) as char
}

/// The decimal digits of a non-negative number, most significant first.
pub open spec fn spec_decimal(n: int) -> Seq<char>
    recommends
        0 <= n,
    decreases n,
{
    if n < 10 {
        seq![spec_digit(n)]
    } else {
        spec_decimal(n / 10).push(spec_digit(n % 10))
    }
}

/// The decimal digits of a non-negative number, zero-padded on the left
/// to at least two places.
pub open spec fn spec_decimal_pad2(n: int) -> Seq<char> {
    if n < 10 {
        seq!['0'].add(spec_decimal(n))
    } else {
        spec_decimal(n)
    }
}

/// The decimal digits of a non-negative number, zero-padded on the left
/// to at least three places.
pub open spec fn spec_decimal_pad3(n: int) -> Seq<char> {
    if n < 10 {
        seq!['0', '0'].add(spec_decimal(n))
    } else if n < 100 {
        seq!['0'].add(spec_decimal(n))
    } else {
        spec_decimal(n)
    }
}

/// The text of a time: an optional minus sign, then hours, minutes and
/// seconds (each at least two digits) and milliseconds (at least three),
/// with the given separator between seconds and milliseconds.
pub open spec fn spec_time_text(ms: int, separator: char) -> Seq<char> {
    let mag = if ms < 0 {
        -ms
    } else {
        ms
    };
    let sign: Seq<char> = if ms < 0 {
        seq!['-']
    } else {
        Seq::empty()
    };
    sign + spec_decimal_pad2(mag / 3600000) + seq![':'] + spec_decimal_pad2((mag / 60000) % 60)
        + seq![':'] + spec_decimal_pad2((mag / 1000) % 60) + seq![separator] + spec_decimal_pad3(
        mag % 1000,
    )
}

/// Relies on `String::push`: appends exactly the given character to the
/// end of the string.
#[verifier::external_body]
pub(crate) fn push_char(s: &mut String, c: char)
    ensures
        final(s)@ == old(s)@.push(c),
{
    s.push(c);
}

/// Append the decimal digits of `n`, most significant first.
pub(crate) fn push_decimal(s: &mut String, n: u64)
    ensures
        final(s)@ == old(s)@ + spec_decimal(n as int),
    decreases n,
{
    if n < 10 {
        let c = ((0x30 + n as u8)) as char;
        push_char(s, c);
        proof {
            assert(final(s)@ =~= old(s)@ + seq![spec_digit(n as int)]);
        }
    } else {
        push_decimal(s, n / 10);
        let d = (n % 10) as u8;
        let c = (0x30 + d) as char;
        push_char(s, c);
        proof {
            assert(final(s)@ =~= old(s)@ + spec_decimal(n as int));
        }
    }
}

/// Append the decimal digits of `n`, zero-padded to at least two places.
fn push_decimal_pad2(s: &mut String, n: u64)
    ensures
        final(s)@ == old(s)@ + spec_decimal_pad2(n as int),
{
    let ghost before = s@;
    if n < 10 {
        push_char(s, '0');
    }
    push_decimal(s, n);
    proof {
        if n < 10 {
            assert(final(s)@ =~= before + spec_decimal_pad2(n as int));
        }
    }
}

/// Append the decimal digits of `n`, zero-padded to at least three
/// places.
fn push_decimal_pad3(s: &mut String, n: u64)
    ensures
        final(s)@ == old(s)@ + spec_decimal_pad3(n as int),
{
    let ghost before = s@;
    if n < 10 {
        push_char(s, '0');
        push_char(s, '0');
    } else if n < 100 {
        push_char(s, '0');
    }
    push_decimal(s, n);
    proof {
        assert(final(s)@ =~= before + spec_decimal_pad3(n as int));
    }
}

impl TimePoint {
    /// Render the time as `[-]HH:MM:SS<sep>mmm`, with the caller's choice
    /// of the separator before the milliseconds.
    pub fn fmt_separator(&self, separator: char) -> (r: String)
        ensures
            r@ == spec_time_text(self.spec_msecs(), separator),
    {
        let mag = abs_u64(self.msecs);
        let mut out = String::new();
        if self.msecs < 0 {
            push_char(&mut out, '-');
        }
        push_decimal_pad2(&mut out, mag / 3600000);
        push_char(&mut out, ':');
        push_decimal_pad2(&mut out, (mag / 60000) % 60);
        push_char(&mut out, ':');
        push_decimal_pad2(&mut out, (mag / 1000) % 60);
        push_char(&mut out, separator);
        push_decimal_pad3(&mut out, mag % 1000);
        proof {
            assert(out@ =~= spec_time_text(self.spec_msecs(), separator));
        }
        out
    }
}

} // verus!
