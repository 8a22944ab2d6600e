//! Instants in UTC, as whole seconds since the Unix epoch plus nanoseconds,
//! and the clock and RFC 3339 text conversions that chrono provides.
use vstd::prelude::*;

verus! {

/// Earliest whole second that a chrono `DateTime<Utc>` can hold (year -262143, January 1).
pub const UTC_MIN_SECS: i64 = -8_334_601_315_200;

/// Latest whole second that a chrono `DateTime<Utc>` can hold (year 262142, December 31).
pub const UTC_MAX_SECS: i64 = 8_210_266_876_799;

/// First second of year 0000 (0000-01-01T00:00:00Z): from here on chrono
/// writes RFC 3339 years with four digits.
pub const RFC3339_FOUR_DIGIT_MIN_SECS: i64 = -62_167_219_200;

/// Last second of year 9999 (9999-12-31T23:59:59Z).
pub const RFC3339_FOUR_DIGIT_MAX_SECS: i64 = 253_402_300_799;

pub const SECS_PER_MINUTE: i64 = 60;

pub const SECS_PER_HOUR: i64 = 3_600;

pub const SECS_PER_DAY: i64 = 86_400;

pub const NANOS_PER_SEC: u32 = 1_000_000_000;

/// A point in UTC time: `secs` whole seconds since 1970-01-01T00:00:00Z and
/// `nanos` nanoseconds past that second. During a leap second `nanos` runs
/// from one to two seconds.
#[derive(Clone, Copy, Debug, PartialEq, Eq, Structural)]
pub struct UtcInstant {
    pub secs: i64,
    pub nanos: u32,
}

impl UtcInstant {
    /// The instant is one that chrono's `DateTime<Utc>` can represent.
    pub open spec fn is_valid(self) -> bool {
        &&& UTC_MIN_SECS <= self.secs <= UTC_MAX_SECS
        &&& (self.nanos < NANOS_PER_SEC || (self.nanos < 2 * NANOS_PER_SEC && self.secs % 60
            == 59))
    }

    /// A valid instant that does not fall inside a leap second.
    pub open spec fn is_regular(self) -> bool {
        &&& UTC_MIN_SECS <= self.secs <= UTC_MAX_SECS
        &&& self.nanos < NANOS_PER_SEC
    }

    /// Nanoseconds since the epoch, as a mathematical integer.
    pub open spec fn total_nanos(self) -> int {
        self.secs * 1_000_000_000 + self.nanos
    }
}

/// Integer division that rounds toward zero, as Rust's `/` does on signed integers.
pub open spec fn div_toward_zero(a: int, b: int) -> int
    recommends
        b > 0,
{
    if a >= 0 {
        a / b
    } else {
        -((-a) / b)
    }
}

/// Whole seconds from `earlier` to `later`, rounded toward zero.
pub open spec fn whole_seconds_between(later: UtcInstant, earlier: UtcInstant) -> int {
    div_toward_zero(later.total_nanos() - earlier.total_nanos(), 1_000_000_000)
}

/// Whole minutes from `earlier` to `later`, rounded toward zero: the number of
/// minutes that chrono reports for `later.signed_duration_since(earlier)`.
pub open spec fn whole_minutes_between(later: UtcInstant, earlier: UtcInstant) -> int {
    div_toward_zero(whole_seconds_between(later, earlier), 60)
}

/// Rounding a nanosecond count toward zero to whole seconds, given the split
/// into a second count and a non-negative remainder below one second.
proof fn lemma_whole_seconds_from_parts(ds: int, dn: int)
    requires
        0 <= dn < 1_000_000_000,
    ensures
        div_toward_zero(ds * 1_000_000_000 + dn, 1_000_000_000) == (if ds < 0 && dn > 0 {
            ds + 1
        } else {
            ds
        }),
{
    let x = ds * 1_000_000_000 + dn;
    if ds >= 0 {
        assert(x >= 0);
        assert(x / 1_000_000_000 == ds) by (nonlinear_arith)
            requires
                x == ds * 1_000_000_000 + dn,
                0 <= dn < 1_000_000_000,
        ;
    } else if dn == 0 {
        assert(-x == (-ds) * 1_000_000_000) by (nonlinear_arith)
            requires
                x == ds * 1_000_000_000 + dn,
                dn == 0,
        ;
        assert((-x) / 1_000_000_000 == -ds) by (nonlinear_arith)
            requires
                -x == (-ds) * 1_000_000_000,
        ;
    } else {
        assert(-x == (-ds - 1) * 1_000_000_000 + (1_000_000_000 - dn)) by (nonlinear_arith)
            requires
                x == ds * 1_000_000_000 + dn,
        ;
        assert((-x) / 1_000_000_000 == -ds - 1) by (nonlinear_arith)
            requires
                -x == (-ds - 1) * 1_000_000_000 + (1_000_000_000 - dn),
                0 < dn < 1_000_000_000,
                ds < 0,
        ;
    }
}

/// Law: the whole minutes between two instants bracket their difference in
/// nanoseconds, rounded toward zero, however far apart they are: for a
/// non-negative difference `d`, `m` minutes with `m * 60 s <= d < (m + 1) * 60 s`;
/// for a negative one, `(m - 1) * 60 s < d <= m * 60 s`.
pub proof fn lemma_whole_minutes_bracket(later: UtcInstant, earlier: UtcInstant)
    ensures
        ({
            let d = later.total_nanos() - earlier.total_nanos();
            let m = whole_minutes_between(later, earlier);
            &&& d >= 0 ==> m * 60_000_000_000 <= d < (m + 1) * 60_000_000_000
            &&& d < 0 ==> (m - 1) * 60_000_000_000 < d <= m * 60_000_000_000
        }),
{
    let d = later.total_nanos() - earlier.total_nanos();
    let s = whole_seconds_between(later, earlier);
    let m = whole_minutes_between(later, earlier);
    if d >= 0 {
        assert(s == d / 1_000_000_000);
        assert(s * 1_000_000_000 <= d < (s + 1) * 1_000_000_000) by (nonlinear_arith)
            requires
                s == d / 1_000_000_000,
                d >= 0,
        ;
        assert(s >= 0) by (nonlinear_arith)
            requires
                s == d / 1_000_000_000,
                d >= 0,
        ;
        assert(m == s / 60);
        assert(m * 60_000_000_000 <= d < (m + 1) * 60_000_000_000) by (nonlinear_arith)
            requires
                m == s / 60,
                s >= 0,
                s * 1_000_000_000 <= d < (s + 1) * 1_000_000_000,
        ;
    } else {
        let e = -d;
        let t = e / 1_000_000_000;
        assert(s == -t);
        assert(t * 1_000_000_000 <= e < (t + 1) * 1_000_000_000 && t >= 0) by (nonlinear_arith)
            requires
                t == e / 1_000_000_000,
                e > 0,
        ;
        if s >= 0 {
            assert(t == 0);
            assert(m == 0);
        } else {
            assert(m == -(t / 60));
        }
        assert((m - 1) * 60_000_000_000 < d <= m * 60_000_000_000) by (nonlinear_arith)
            requires
                d == -e,
                m == -(t / 60),
                t >= 0,
                t * 1_000_000_000 <= e < (t + 1) * 1_000_000_000,
        ;
    }
}

/// Law: moving the later instant one minute later adds exactly one whole
/// minute, as long as it is not before the earlier one; in particular two
/// instants a whole number `k` of days apart are `1440 * k` minutes apart.
pub proof fn lemma_whole_minutes_step(later: UtcInstant, later2: UtcInstant, earlier: UtcInstant)
    requires
        later.total_nanos() >= earlier.total_nanos(),
        later2.total_nanos() == later.total_nanos() + 60_000_000_000,
    ensures
        whole_minutes_between(later2, earlier) == whole_minutes_between(later, earlier) + 1,
{
    lemma_whole_minutes_bracket(later, earlier);
    lemma_whole_minutes_bracket(later2, earlier);
    let d = later.total_nanos() - earlier.total_nanos();
    let m = whole_minutes_between(later, earlier);
    let m2 = whole_minutes_between(later2, earlier);
    assert(m2 == m + 1) by (nonlinear_arith)
        requires
            m * 60_000_000_000 <= d < (m + 1) * 60_000_000_000,
            m2 * 60_000_000_000 <= d + 60_000_000_000 < (m2 + 1) * 60_000_000_000,
    ;
}

/// Law: instants exactly `k` days apart, the later one not earlier, are
/// `1440 * k` whole minutes apart.
pub proof fn lemma_whole_minutes_days(later: UtcInstant, earlier: UtcInstant, k: nat)
    requires
        later.total_nanos() == earlier.total_nanos() + k * 86_400_000_000_000,
    ensures
        whole_minutes_between(later, earlier) == 1440 * k,
{
    lemma_whole_minutes_bracket(later, earlier);
    let d = later.total_nanos() - earlier.total_nanos();
    let m = whole_minutes_between(later, earlier);
    assert(m == 1440 * k) by (nonlinear_arith)
        requires
            d == k * 86_400_000_000_000,
            k >= 0,
            m * 60_000_000_000 <= d < (m + 1) * 60_000_000_000,
    ;
}

/// Whole minutes from `earlier` to `later`, rounded toward zero, as chrono's
/// `signed_duration_since(..).num_minutes()` gives them for instants outside
/// leap seconds.
pub fn minutes_between(later: UtcInstant, earlier: UtcInstant) -> (m: i64)
    requires
        later.is_regular(),
        earlier.is_regular(),
    ensures
        m == whole_minutes_between(later, earlier),
{
    let mut ds: i64 = later.secs - earlier.secs;
    let mut dn: i64 = later.nanos as i64 - earlier.nanos as i64;
    if dn < 0 {
        ds = ds - 1;
        dn = dn + 1_000_000_000;
    }
    let whole_secs: i64 = if ds < 0 && dn > 0 {
        ds + 1
    } else {
        ds
    };
    proof {
        assert(ds * 1_000_000_000 + dn == later.total_nanos() - earlier.total_nanos())
            by (nonlinear_arith)
            requires
                ds == later.secs - earlier.secs || ds == later.secs - earlier.secs - 1,
                ds == later.secs - earlier.secs ==> dn == later.nanos - earlier.nanos,
                ds == later.secs - earlier.secs - 1 ==> dn == later.nanos - earlier.nanos
                    + 1_000_000_000,
                later.total_nanos() == later.secs * 1_000_000_000 + later.nanos,
                earlier.total_nanos() == earlier.secs * 1_000_000_000 + earlier.nanos,
        ;
        lemma_whole_seconds_from_parts(ds as int, dn as int);
    }
    if whole_secs >= 0 {
        whole_secs / SECS_PER_MINUTE
    } else {
        -((-whole_secs) / SECS_PER_MINUTE)
    }
}

/// Reads the system clock through chrono's `Utc::now()`.
///
/// Trusted: chrono builds the result with `DateTime::from_timestamp` from the
/// time elapsed since the Unix epoch and unwraps it, so the instant is never
/// before the epoch, lies in chrono's range and has fewer than a billion
/// nanoseconds. Which instant comes back depends on the clock and is not stated.
#[verifier::external_body]
pub(crate) fn utc_now() -> (t: UtcInstant)
    ensures
        t.is_regular(),
        t.secs >= 0,
{
    let now = chrono::Utc::now();
    UtcInstant { secs: now.timestamp(), nanos: now.timestamp_subsec_nanos() }
}

/// What chrono's `DateTime::parse_from_rfc3339` yields for a text, converted to
/// UTC and given as (whole seconds since the epoch, nanoseconds).
pub uninterp spec fn rfc3339_instant(text: Seq<char>) -> Option<(i64, u32)>;

/// Parses RFC 3339 text with chrono's `DateTime::parse_from_rfc3339` and
/// converts it to UTC.
///
/// Trusted: the result is the named function `rfc3339_instant` of the text,
/// and, as chrono documents that `timestamp` and `timestamp_subsec_nanos`
/// round-trip through `DateTime::from_timestamp`, a parsed instant is valid.
#[verifier::external_body]
pub(crate) fn parse_rfc3339(text: &str) -> (r: Option<UtcInstant>)
    ensures
        r is Some <==> rfc3339_instant(text@) is Some,
        r matches Some(t) ==> rfc3339_instant(text@) == Some((t.secs, t.nanos)) && t.is_valid(),
{
    chrono::DateTime::parse_from_rfc3339(text).ok().map(
        |d| UtcInstant { secs: d.timestamp(), nanos: d.timestamp_subsec_nanos() },
    )
}

/// The text that chrono's `DateTime::<Utc>::to_rfc3339` writes for an instant.
pub uninterp spec fn rfc3339_text(secs: i64, nanos: u32) -> Seq<char>;

/// Writes an instant as RFC 3339 text with chrono's `to_rfc3339`.
///
/// Trusted: the text is the named function `rfc3339_text` of the instant's
/// seconds and nanoseconds. A valid instant is one that
/// `DateTime::from_timestamp` accepts, so the conversion cannot fail.
/// For years 0000 to 9999 chrono's `write_rfc3339` writes
/// `YYYY-MM-DDTHH:MM:SS`, the second as 60 during a leap second, then a
/// fraction of 3, 6 or 9 digits that holds the nanoseconds exactly (none when
/// they are zero) and the offset `+00:00`; `parse_rfc3339` reads exactly these
/// fields back, so the text parses to the same instant. Outside those years
/// the year gets a sign and more digits, which `parse_from_rfc3339` refuses.
#[verifier::external_body]
pub(crate) fn format_rfc3339(t: UtcInstant) -> (s: String)
    requires
        t.is_valid(),
    ensures
        s@ == rfc3339_text(t.secs, t.nanos),
        RFC3339_FOUR_DIGIT_MIN_SECS <= t.secs <= RFC3339_FOUR_DIGIT_MAX_SECS ==> rfc3339_instant(s@)
            == Some((t.secs, t.nanos)),
{
    chrono::DateTime::from_timestamp(t.secs, t.nanos).unwrap().to_rfc3339()
}

} // verus!
