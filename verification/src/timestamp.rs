//! Instants in UTC.
//!
//! A [`Timestamp`] is a second since 1970-01-01T00:00:00Z and the nanoseconds into
//! it, over the range of the `chrono` crate, which reads the clock and knows RFC
//! 3339. The second named 60 in a text, a leap second, lengthens the second before
//! it: its nanoseconds are the second thousand million of that second. So it comes
//! after the second 59 and before the next minute, and what is written of it names
//! the second 60 again.
//!
//! In the contracts an instant is a place on a line on which every second has two
//! thousand million places, in the order of time.

use vstd::prelude::*;

use core::cmp::Ordering;

verus! {

/// The first second of the range.
pub const MIN_SECONDS: i64 = -8334601228800;

/// The last second of the range.
pub const MAX_SECONDS: i64 = 8210266876799;

/// Nanoseconds in a second.
pub open spec fn second() -> int {
    1_000_000_000
}

/// Nanoseconds in a millisecond.
pub open spec fn millisecond() -> int {
    1_000_000
}

/// Places in a second: those of its nanoseconds and those of a leap second after it.
pub open spec fn places() -> int {
    2_000_000_000
}

/// The place that lies `nanos` into the second `seconds`.
pub open spec fn place(seconds: int, nanos: int) -> int {
    seconds * places() + nanos
}

/// The second of an instant.
pub open spec fn seconds_of(t: int) -> int {
    t / places()
}

/// Nanoseconds into the second of an instant.
pub open spec fn nanos_of(t: int) -> int {
    t % places()
}

/// An instant lies in a leap second.
pub open spec fn is_leap(t: int) -> bool {
    nanos_of(t) >= second()
}

/// The second of the day that an instant falls in.
pub open spec fn second_of_day(t: int) -> int {
    seconds_of(t) % 86_400
}

/// An instant is in range: a leap second only ends a minute.
pub open spec fn in_range(t: int) -> bool {
    &&& MIN_SECONDS <= seconds_of(t) <= MAX_SECONDS
    &&& is_leap(t) ==> seconds_of(t) % 60 == 59
}

/// The millisecond that an instant falls in, a leap second counting on into the next
/// second.
pub open spec fn millis_of(t: int) -> int {
    seconds_of(t) * 1000 + nanos_of(t) / millisecond()
}

/// The instant `seconds` after `t`. From a leap second one comes as from the second
/// 59 when going on, and as from the next minute when going back.
pub open spec fn later(t: int, seconds: int) -> int {
    if is_leap(t) && seconds > 0 {
        place(seconds_of(t) + seconds, nanos_of(t) - second())
    } else if is_leap(t) && seconds < 0 {
        place(seconds_of(t) + 1 + seconds, nanos_of(t) - second())
    } else {
        place(seconds_of(t) + seconds, nanos_of(t))
    }
}

/// Nanoseconds from `from` to `to`. Where the earlier one by the time of day lies in a
/// leap second, that second counts too.
pub open spec fn nanos_between(from: int, to: int) -> int {
    let leap = if second_of_day(from) < second_of_day(to) && is_leap(from) {
        second()
    } else if second_of_day(to) < second_of_day(from) && is_leap(to) {
        -second()
    } else {
        0
    };
    (seconds_of(to) - seconds_of(from)) * second() + nanos_of(to) - nanos_of(from) + leap
}

/// `a / b` rounded towards zero.
pub open spec fn trunc_div(a: int, b: int) -> int {
    if a >= 0 {
        a / b
    } else {
        -((-a) / b)
    }
}

/// Whole seconds from `from` to `to`, rounded towards zero.
pub open spec fn seconds_between(from: int, to: int) -> int {
    trunc_div(nanos_between(from, to), second())
}

/// Whole milliseconds from `from` to `to`, rounded towards zero.
pub open spec fn millis_between(from: int, to: int) -> int {
    trunc_div(nanos_between(from, to), millisecond())
}

/// The instant that `chrono` reads from an RFC 3339 text.
pub uninterp spec fn rfc3339_instant(text: Seq<char>) -> Option<int>;

/// The RFC 3339 text that `chrono` writes for an instant.
pub uninterp spec fn rfc3339_text(t: int) -> Seq<char>;

/// The view of an optional instant.
pub open spec fn timestamp_option(t: Option<Timestamp>) -> Option<int> {
    match t {
        Some(x) => Some(x@),
        None => None,
    }
}

/// A number of days in seconds that no second of the range lies further back than.
const DAYS_BEFORE: i64 = 8_640_000_000_000;

/// An instant in UTC.
#[derive(Clone, Copy, Debug)]
pub struct Timestamp {
    seconds: i64,
    nanos: u32,
}

impl View for Timestamp {
    type V = int;

    closed spec fn view(&self) -> int {
        place(self.seconds as int, self.nanos as int)
    }
}

impl Timestamp {
    /// The instant is in range.
    #[verifier::type_invariant]
    pub open spec fn well_formed(self) -> bool {
        self.nanos_fit() && in_range(self@)
    }

    /// The nanoseconds have a place in the second.
    pub closed spec fn nanos_fit(self) -> bool {
        self.nanos < places()
    }

    /// The instant `nanos` nanoseconds into `seconds`, where it is in range.
    pub fn from_unix(seconds: i64, nanos: u32) -> (r: Option<Timestamp>)
        ensures
            r is Some <==> nanos < places() && in_range(place(seconds as int, nanos as int)),
            r matches Some(t) ==> t@ == place(seconds as int, nanos as int),
    {
        if nanos >= 2_000_000_000 {
            return None;
        }
        proof {
            lemma_place(seconds as int, nanos as int);
        }
        if seconds < MIN_SECONDS || seconds > MAX_SECONDS {
            return None;
        }
        if nanos >= 1_000_000_000 && (seconds + DAYS_BEFORE) % 60 != 59 {
            return None;
        }
        Some(Timestamp { seconds, nanos })
    }

    /// 1970-01-01T00:00:00Z.
    pub fn epoch() -> (r: Timestamp)
        ensures
            r@ == 0,
    {
        Timestamp { seconds: 0, nanos: 0 }
    }

    /// The second that the instant falls in.
    pub fn unix_seconds(&self) -> (r: i64)
        ensures
            r == seconds_of(self@),
    {
        proof {
            use_type_invariant(self);
            lemma_place(self.seconds as int, self.nanos as int);
        }
        self.seconds
    }

    /// Nanoseconds into that second.
    pub fn subsec_nanos(&self) -> (r: u32)
        ensures
            r == nanos_of(self@),
    {
        proof {
            use_type_invariant(self);
            lemma_place(self.seconds as int, self.nanos as int);
        }
        self.nanos
    }

    /// The millisecond that the instant falls in, a leap second counting on into the
    /// next second.
    pub fn unix_millis(&self) -> (r: i64)
        ensures
            r == millis_of(self@),
    {
        proof {
            use_type_invariant(self);
            lemma_place(self.seconds as int, self.nanos as int);
        }
        self.seconds * 1000 + (self.nanos / 1_000_000) as i64
    }

    /// Nanoseconds from `nanos` into `seconds` to this instant.
    fn nanos_since(&self, seconds: i64, nanos: u32) -> (r: i128)
        requires
            MIN_SECONDS - u32::MAX <= seconds <= MAX_SECONDS,
            nanos < places(),
        ensures
            r == nanos_between(place(seconds as int, nanos as int), self@),
            -30_000_000_000_000_000_000_000 < r < 30_000_000_000_000_000_000_000,
    {
        proof {
            use_type_invariant(self);
            lemma_place(self.seconds as int, self.nanos as int);
            lemma_place(seconds as int, nanos as int);
        }
        let from: i64 = in_its_day(seconds);
        let to: i64 = in_its_day(self.seconds);
        let leap: i128 = if from < to && nanos >= 1_000_000_000 {
            1_000_000_000
        } else if to < from && self.nanos >= 1_000_000_000 {
            -1_000_000_000
        } else {
            0
        };
        (self.seconds as i128 - seconds as i128) * 1_000_000_000 + self.nanos as i128
            - nanos as i128 + leap
    }

    /// Whole seconds from `earlier` to this instant, rounded towards zero.
    pub fn seconds_since(&self, earlier: &Timestamp) -> (r: i64)
        ensures
            r == seconds_between(earlier@, self@),
    {
        proof {
            use_type_invariant(earlier);
            lemma_place(earlier.seconds as int, earlier.nanos as int);
        }
        let diff: i128 = self.nanos_since(earlier.seconds, earlier.nanos);
        let whole: i128 = if diff >= 0 {
            diff / 1_000_000_000
        } else {
            -((-diff) / 1_000_000_000)
        };
        whole as i64
    }

    /// Whole seconds from `ahead` seconds before `end` to this instant, rounded towards
    /// zero.
    pub fn seconds_since_before(&self, end: &Timestamp, ahead: u32) -> (r: i64)
        ensures
            r == seconds_between(later(end@, -(ahead as int)), self@),
    {
        proof {
            use_type_invariant(end);
            lemma_place(end.seconds as int, end.nanos as int);
        }
        let diff: i128 = if end.nanos >= 1_000_000_000 && ahead > 0 {
            self.nanos_since(end.seconds + 1 - ahead as i64, end.nanos - 1_000_000_000)
        } else {
            self.nanos_since(end.seconds - ahead as i64, end.nanos)
        };
        let whole: i128 = if diff >= 0 {
            diff / 1_000_000_000
        } else {
            -((-diff) / 1_000_000_000)
        };
        whole as i64
    }

    /// Whole milliseconds from `earlier` to this instant, rounded towards zero.
    pub fn millis_since(&self, earlier: &Timestamp) -> (r: i64)
        ensures
            r == millis_between(earlier@, self@),
    {
        proof {
            use_type_invariant(earlier);
            lemma_place(earlier.seconds as int, earlier.nanos as int);
        }
        let diff: i128 = self.nanos_since(earlier.seconds, earlier.nanos);
        let whole: i128 = if diff >= 0 {
            diff / 1_000_000
        } else {
            -((-diff) / 1_000_000)
        };
        whole as i64
    }

    /// The instant `seconds` later, where it is in range.
    pub fn plus_seconds(&self, seconds: i64) -> (r: Option<Timestamp>)
        ensures
            r is Some <==> in_range(later(self@, seconds as int)),
            r matches Some(t) ==> t@ == later(self@, seconds as int),
    {
        proof {
            use_type_invariant(self);
            lemma_place(self.seconds as int, self.nanos as int);
        }
        let leap: bool = self.nanos >= 1_000_000_000;
        let nanos: u32 = if leap && seconds != 0 {
            self.nanos - 1_000_000_000
        } else {
            self.nanos
        };
        let total: i128 = if leap && seconds < 0 {
            self.seconds as i128 + 1 + seconds as i128
        } else {
            self.seconds as i128 + seconds as i128
        };
        proof {
            lemma_place(total as int, nanos as int);
        }
        if MIN_SECONDS as i128 <= total && total <= MAX_SECONDS as i128 {
            Some(Timestamp { seconds: total as i64, nanos })
        } else {
            None
        }
    }

    /// Whether this instant is before `other`.
    pub fn is_before(&self, other: &Timestamp) -> (r: bool)
        ensures
            r == (self@ < other@),
    {
        proof {
            use_type_invariant(self);
            use_type_invariant(other);
        }
        self.seconds < other.seconds || (self.seconds == other.seconds && self.nanos < other.nanos)
    }

    /// What the clock shows. It may show anything in range.
    pub fn now() -> (r: Timestamp)
        ensures
            in_range(r@),
    {
        let (seconds, nanos) = clock();
        proof {
            lemma_place(seconds as int, nanos as int);
        }
        Timestamp { seconds, nanos }
    }

    /// Reads an RFC 3339 text.
    pub fn parse_rfc3339(text: &str) -> (r: Option<Timestamp>)
        ensures
            timestamp_option(r) == rfc3339_instant(text@),
    {
        match raw_rfc3339_instant(text) {
            Some((seconds, nanos)) => {
                proof {
                    lemma_place(seconds as int, nanos as int);
                }
                Some(Timestamp { seconds, nanos })
            },
            None => None,
        }
    }

    /// Writes the instant as an RFC 3339 text.
    pub fn to_rfc3339(&self) -> (r: String)
        ensures
            r@ == rfc3339_text(self@),
    {
        proof {
            use_type_invariant(self);
            lemma_place(self.seconds as int, self.nanos as int);
        }
        raw_rfc3339_text(self.seconds, self.nanos)
    }
}

/// The second of the day that a second is.
fn in_its_day(seconds: i64) -> (r: i64)
    requires
        MIN_SECONDS - u32::MAX <= seconds <= MAX_SECONDS,
    ensures
        r == seconds as int % 86_400,
{
    (seconds + DAYS_BEFORE) % 86_400
}

/// Going back out of range leads before every instant in range.
pub proof fn lemma_before_the_range(t: int, now: int, back: int)
    requires
        in_range(t),
        in_range(now),
        back > 0,
        !in_range(later(now, -back)),
    ensures
        later(now, -back) < t,
{
    let nanos = if is_leap(now) {
        nanos_of(now) - second()
    } else {
        nanos_of(now)
    };
    let seconds = if is_leap(now) {
        seconds_of(now) + 1 - back
    } else {
        seconds_of(now) - back
    };
    lemma_place(seconds, nanos);
    assert(later(now, -back) == place(seconds, nanos));
    assert(seconds < MIN_SECONDS);
    assert(t == place(seconds_of(t), nanos_of(t)));
}

/// A place gives back the second and the nanoseconds that it was made of.
proof fn lemma_place(seconds: int, nanos: int)
    requires
        0 <= nanos < places(),
    ensures
        seconds_of(place(seconds, nanos)) == seconds,
        nanos_of(place(seconds, nanos)) == nanos,
{
}

impl PartialEq for Timestamp {
    fn eq(&self, other: &Timestamp) -> (r: bool) {
        proof {
            use_type_invariant(self);
            use_type_invariant(other);
        }
        self.seconds == other.seconds && self.nanos == other.nanos
    }
}

impl vstd::std_specs::cmp::PartialEqSpecImpl for Timestamp {
    open spec fn obeys_eq_spec() -> bool {
        true
    }

    open spec fn eq_spec(&self, other: &Timestamp) -> bool {
        self@ == other@
    }
}

impl Eq for Timestamp {

}

impl PartialOrd for Timestamp {
    fn partial_cmp(&self, other: &Timestamp) -> (r: Option<Ordering>) {
        if self.is_before(other) {
            Some(Ordering::Less)
        } else if other.is_before(self) {
            Some(Ordering::Greater)
        } else {
            Some(Ordering::Equal)
        }
    }
}

impl vstd::std_specs::cmp::PartialOrdSpecImpl for Timestamp {
    open spec fn obeys_partial_cmp_spec() -> bool {
        true
    }

    open spec fn partial_cmp_spec(&self, other: &Timestamp) -> Option<Ordering> {
        if self@ < other@ {
            Some(Ordering::Less)
        } else if self@ > other@ {
            Some(Ordering::Greater)
        } else {
            Some(Ordering::Equal)
        }
    }
}

/// Calls `chrono::Utc::now`: whatever the clock shows, it is in range. On a machine
/// whose clock stands before 1970 it panics.
#[verifier::external_body]
fn clock() -> (r: (i64, u32))
    ensures
        MIN_SECONDS <= r.0 <= MAX_SECONDS,
        r.1 < 1_000_000_000,
{
    let now = chrono::Utc::now();
    (now.timestamp(), now.timestamp_subsec_nanos())
}

/// Calls `chrono::DateTime::parse_from_rfc3339`, whose grammar is left to the
/// name. A year has four digits and an offset stays under a day, so the second
/// found is within a day of the years 0 to 9999. The second 60 of a minute is read as
/// its second 59 with a thousand million nanoseconds more, and an offset is a whole
/// number of minutes.
#[verifier::external_body]
fn raw_rfc3339_instant(text: &str) -> (r: Option<(i64, u32)>)
    ensures
        r is None <==> rfc3339_instant(text@) is None,
        r matches Some(p) ==> {
            &&& rfc3339_instant(text@) == Some(place(p.0 as int, p.1 as int))
            &&& -62167305600 <= p.0 <= 253402387199
            &&& p.1 < 2_000_000_000
            &&& p.1 >= 1_000_000_000 ==> p.0 as int % 60 == 59
        },
{
    let parsed = chrono::DateTime::parse_from_rfc3339(text).ok();
    parsed.map(|d| (d.timestamp(), d.timestamp_subsec_nanos()))
}

/// Calls `chrono::DateTime::from_timestamp` and `to_rfc3339`, whose form is left
/// to the name. There is such a `DateTime` for every second in range, and for a leap
/// second that ends a minute.
#[verifier::external_body]
fn raw_rfc3339_text(seconds: i64, nanos: u32) -> (r: String)
    requires
        nanos < 2_000_000_000,
        in_range(place(seconds as int, nanos as int)),
    ensures
        r@ == rfc3339_text(place(seconds as int, nanos as int)),
{
    chrono::DateTime::from_timestamp(seconds, nanos).unwrap().to_rfc3339()
}

/// Law: between two instants outside leap seconds lie the nanoseconds by which their
/// seconds and nanoseconds differ, and from the later to the earlier as many less than
/// none.
pub proof fn differences_are_those_of_the_clock(s1: int, n1: int, s2: int, n2: int)
    requires
        0 <= n1 < 1_000_000_000,
        0 <= n2 < 1_000_000_000,
    ensures
        ({
            let (from, to) = (place(s1, n1), place(s2, n2));
            let nanos = (s2 * 1_000_000_000 + n2) - (s1 * 1_000_000_000 + n1);
            &&& nanos_between(from, to) == nanos
            &&& nanos_between(to, from) == -nanos
            &&& from < to <==> nanos > 0
            &&& from == to <==> nanos == 0
            &&& seconds_of(from) == s1
            &&& nanos_of(from) == n1
            &&& millis_of(from) * 1_000_000 <= s1 * 1_000_000_000 + n1
            &&& s1 * 1_000_000_000 + n1 < (millis_of(from) + 1) * 1_000_000
        }),
{
    lemma_place(s1, n1);
    lemma_place(s2, n2);
}

/// Law: whole seconds and milliseconds are cut off towards zero.
pub proof fn whole_seconds_are_cut_off(from: int, to: int)
    ensures
        ({
            let nanos = nanos_between(from, to);
            let (s, ms) = (seconds_between(from, to), millis_between(from, to));
            &&& nanos >= 0 ==> s * 1_000_000_000 <= nanos < (s + 1) * 1_000_000_000
            &&& nanos < 0 ==> (s - 1) * 1_000_000_000 < nanos <= s * 1_000_000_000
            &&& nanos >= 0 ==> ms * 1_000_000 <= nanos < (ms + 1) * 1_000_000
            &&& nanos < 0 ==> (ms - 1) * 1_000_000 < nanos <= ms * 1_000_000
        }),
{
}

/// Law: the instant so many seconds later is just so many seconds away, and going back
/// undoes going on.
pub proof fn later_is_as_much_later(t: int, seconds: int)
    requires
        !is_leap(t),
    ensures
        nanos_between(t, later(t, seconds)) == seconds * 1_000_000_000,
        seconds_between(t, later(t, seconds)) == seconds,
        later(later(t, seconds), -seconds) == t,
{
    let (s, n) = (seconds_of(t), nanos_of(t));
    lemma_place(s, n);
    lemma_place(s + seconds, n);
    assert(t == place(s, n));
    differences_are_those_of_the_clock(s, n, s + seconds, n);
    whole_seconds_are_cut_off(t, later(t, seconds));
}

/// Law: from within a leap second one goes on as from the second that it lengthens, and
/// back as from the second after it. To another second of the day it counts as a second
/// of its own.
pub proof fn leap_seconds_count_once(s: int, n: int, other: int, m: int, k: int)
    requires
        0 <= n < 1_000_000_000,
        0 <= m < 1_000_000_000,
        k > 0,
    ensures
        ({
            let leap = place(s, 1_000_000_000 + n);
            &&& is_leap(leap)
            &&& later(leap, k) == later(place(s, n), k)
            &&& later(leap, -k) == later(place(s + 1, n), -k)
            &&& later(leap, 0) == leap
            &&& s % 86_400 < other % 86_400 ==> nanos_between(leap, place(other, m)) == (other
                - s) * 1_000_000_000 + m - n
            &&& s % 86_400 >= other % 86_400 ==> nanos_between(leap, place(other, m)) == (other - s
                - 1) * 1_000_000_000 + m - n
            &&& nanos_between(place(other, m), leap) == -nanos_between(leap, place(other, m))
        }),
{
    lemma_place(s, 1_000_000_000 + n);
    lemma_place(s, n);
    lemma_place(s + 1, n);
    lemma_place(other, m);
}

/// Law: the instants in range are those of `chrono`: the seconds from the first to the last,
/// and of the leap seconds those that end a minute.
pub proof fn range_is_that_of_the_calendar(s: int, n: int)
    requires
        0 <= n < 2_000_000_000,
    ensures
        in_range(place(s, n)) <==> {
            &&& -8334601228800 <= s
            &&& s <= 8210266876799
            &&& n >= 1_000_000_000 ==> s % 60 == 59
        },
        millis_of(place(s, n)) * 1_000_000 <= s * 1_000_000_000 + n,
        s * 1_000_000_000 + n < (millis_of(place(s, n)) + 1) * 1_000_000,
{
    lemma_place(s, n);
}

} // verus!
