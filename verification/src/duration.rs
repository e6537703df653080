//! Time spans given on the command line (`15m`, `1h`, `7d`, `30s`).
use vstd::prelude::*;

use crate::error::{CliError, IntErrorKind};
use crate::text::{chars_of, string_of, strip_trailing, strip_trailing_chars, trim, trim_chars};

verus! {

/// The longest span in seconds, either way (`i64::MAX` milliseconds, whole seconds).
pub const MAX_SECONDS: i64 = 9_223_372_036_854_775;

/// A span of whole seconds, within `-MAX_SECONDS..=MAX_SECONDS`.
#[derive(Debug, Clone, Copy, PartialEq, Eq)]
pub struct Duration {
    secs: i64,
}

impl View for Duration {
    type V = int;

    closed spec fn view(&self) -> int {
        self.secs as int
    }
}

/// Integer division that rounds toward zero, as `i64` division does.
pub open spec fn div_toward_zero(a: int, b: int) -> int
    recommends
        b > 0,
{
    if a >= 0 {
        a / b
    } else {
        -((-a) / b)
    }
}

/// A count of seconds that a `Duration` can hold.
pub open spec fn in_span(secs: int) -> bool {
    -MAX_SECONDS <= secs <= MAX_SECONDS
}

impl Duration {
    #[verifier::type_invariant]
    spec fn inv(self) -> bool {
        in_span(self.secs as int)
    }

    /// `seconds` seconds.
    pub fn seconds(seconds: i64) -> (r: Duration)
        requires
            in_span(seconds as int),
        ensures
            r@ == seconds,
    {
        Duration { secs: seconds }
    }

    /// `minutes` minutes.
    pub fn minutes(minutes: i64) -> (r: Duration)
        requires
            in_span(minutes * 60),
        ensures
            r@ == minutes * 60,
    {
        Duration { secs: minutes * 60 }
    }

    /// `hours` hours.
    pub fn hours(hours: i64) -> (r: Duration)
        requires
            in_span(hours * 3600),
        ensures
            r@ == hours * 3600,
    {
        Duration { secs: hours * 3600 }
    }

    /// `days` days.
    pub fn days(days: i64) -> (r: Duration)
        requires
            in_span(days * 86400),
        ensures
            r@ == days * 86400,
    {
        Duration { secs: days * 86400 }
    }

    /// The whole span in seconds.
    pub fn num_seconds(&self) -> (r: i64)
        ensures
            r == self@,
            in_span(r as int),
    {
        proof {
            use_type_invariant(self);
        }
        self.secs
    }

    /// The whole span in hours, rounded toward zero.
    pub fn num_hours(&self) -> (r: i64)
        ensures
            r == div_toward_zero(self@, 3600),
    {
        proof {
            use_type_invariant(self);
        }
        self.secs / 3600
    }
}

/// The unit a duration suffix names.
#[derive(Debug, Clone, Copy, PartialEq, Eq, Structural)]
pub enum Unit {
    Seconds,
    Minutes,
    Hours,
    Days,
}

/// Seconds per unit.
pub open spec fn unit_seconds(u: Unit) -> int {
    match u {
        Unit::Seconds => 1,
        Unit::Minutes => 60,
        Unit::Hours => 3600,
        Unit::Days => 86400,
    }
}

/// `c` is an ASCII decimal digit.
pub open spec fn is_digit(c: char) -> bool {
    '0' <= c <= '9'
}

/// Reads the digits `ds` onto `acc`, left to right, stopping at the first
/// character that is no digit or the first step that leaves the `i64` range.
pub open spec fn read_digits(ds: Seq<char>, negative: bool, acc: int) -> Result<int, IntErrorKind>
    decreases ds.len(),
{
    if ds.len() == 0 {
        Ok(acc)
    } else if !is_digit(ds[0]) {
        Err(IntErrorKind::InvalidDigit)
    } else {
        let d = ds[0] as int - '0' as int;
        let next = if negative { acc * 10 - d } else { acc * 10 + d };
        if next > i64::MAX {
            Err(IntErrorKind::PosOverflow)
        } else if next < i64::MIN {
            Err(IntErrorKind::NegOverflow)
        } else {
            read_digits(ds.drop_first(), negative, next)
        }
    }
}

/// `i64::from_str`: an optional sign, then decimal digits.
pub open spec fn parse_i64(s: Seq<char>) -> Result<int, IntErrorKind> {
    if s.len() == 0 {
        Err(IntErrorKind::Empty)
    } else if (s[0] == '+' || s[0] == '-') && s.len() == 1 {
        Err(IntErrorKind::InvalidDigit)
    } else if s[0] == '+' {
        read_digits(s.drop_first(), false, 0)
    } else if s[0] == '-' {
        read_digits(s.drop_first(), true, 0)
    } else {
        read_digits(s, false, 0)
    }
}

/// Why a duration text was refused.
#[derive(Debug, Clone, Copy, PartialEq, Eq, Structural)]
pub enum DurationFault {
    /// No known unit suffix.
    Format,
    /// The number before the suffix is not an `i64`.
    Number(IntErrorKind),
}

/// The number and unit a duration text stands for: the trimmed text must end
/// in `m`, `h`, `d` or `s` (tried in that order); all of that letter at the end
/// is dropped and the rest read as an `i64`.
pub open spec fn duration_parts(s: Seq<char>) -> Result<(int, Unit), DurationFault> {
    let t = trim(s);
    let unit = if t.len() > 0 && t.last() == 'm' {
        Some(('m', Unit::Minutes))
    } else if t.len() > 0 && t.last() == 'h' {
        Some(('h', Unit::Hours))
    } else if t.len() > 0 && t.last() == 'd' {
        Some(('d', Unit::Days))
    } else if t.len() > 0 && t.last() == 's' {
        Some(('s', Unit::Seconds))
    } else {
        None
    };
    match unit {
        None => Err(DurationFault::Format),
        Some((c, u)) => match parse_i64(strip_trailing(t, c)) {
            Ok(n) => Ok((n, u)),
            Err(k) => Err(DurationFault::Number(k)),
        },
    }
}

/// The span, in seconds, that a duration text stands for.
pub open spec fn duration_seconds(s: Seq<char>) -> Result<int, DurationFault> {
    match duration_parts(s) {
        Ok((n, u)) => Ok(n * unit_seconds(u)),
        Err(f) => Err(f),
    }
}

/// The unit a suffix letter names.
pub open spec fn unit_of(c: char) -> Unit {
    if c == 'm' {
        Unit::Minutes
    } else if c == 'h' {
        Unit::Hours
    } else if c == 'd' {
        Unit::Days
    } else {
        Unit::Seconds
    }
}

/// A duration text whose span a `Duration` can hold, or that is refused.
/// (`chrono` panics on a readable number whose span is too long.)
pub open spec fn duration_fits(s: Seq<char>) -> bool {
    match duration_seconds(s) {
        Ok(secs) => in_span(secs),
        Err(_) => true,
    }
}

/// The error a refused duration text is reported with.
pub open spec fn duration_error_is(s: Seq<char>, f: DurationFault, e: CliError) -> bool {
    match f {
        DurationFault::Format => e matches CliError::InvalidDuration { input } && input@ == trim(
            s,
        ),
        DurationFault::Number(k) => e == CliError::InvalidNumber(k),
    }
}

/// Reads an `i64` the way `i64::from_str` does.
pub fn parse_i64_chars(s: &[char]) -> (r: Result<i64, IntErrorKind>)
    ensures
        match r {
            Ok(v) => parse_i64(s@) == Ok::<int, IntErrorKind>(v as int),
            Err(k) => parse_i64(s@) == Err::<int, IntErrorKind>(k),
        },
{
    if s.len() == 0 {
        return Err(IntErrorKind::Empty);
    }
    if (s[0] == '+' || s[0] == '-') && s.len() == 1 {
        return Err(IntErrorKind::InvalidDigit);
    }
    let negative = s[0] == '-';
    let start: usize = if s[0] == '+' || s[0] == '-' { 1 } else { 0 };
    let ghost ds = s@.skip(start as int);
    assert(start == 1 ==> ds =~= s@.drop_first());
    assert(start == 0 ==> ds =~= s@);
    assert(parse_i64(s@) == read_digits(ds, negative, 0));
    let mut acc: i64 = 0;
    let mut i = start;
    while i < s.len()
        invariant
            start <= i <= s.len(),
            ds == s@.skip(start as int),
            parse_i64(s@) == read_digits(ds, negative, 0),
            read_digits(ds, negative, 0) == read_digits(s@.skip(i as int), negative, acc as int),
        decreases s.len() - i,
    {
        let c = s[i];
        let ghost rest = s@.skip(i as int);
        assert(rest[0] == c);
        assert(rest.drop_first() =~= s@.skip(i + 1));
        if !('0' <= c && c <= '9') {
            assert(read_digits(rest, negative, acc as int) == Err::<int, IntErrorKind>(
                IntErrorKind::InvalidDigit,
            ));
            return Err(IntErrorKind::InvalidDigit);
        }
        let d = (c as u32 - '0' as u32) as i128;
        assert(d == c as int - '0' as int);
        let next: i128 = if negative { acc as i128 * 10 - d } else { acc as i128 * 10 + d };
        assert(next == (if negative { acc * 10 - d } else { acc * 10 + d }));
        if next > i64::MAX as i128 {
            return Err(IntErrorKind::PosOverflow);
        }
        if next < i64::MIN as i128 {
            return Err(IntErrorKind::NegOverflow);
        }
        acc = next as i64;
        i += 1;
    }
    assert(s@.skip(i as int) =~= Seq::<char>::empty());
    Ok(acc)
}

/// Reads a duration such as `15m`, `1h`, `24h`, `7d` or `30s`, after trimming
/// white space.
pub fn parse_duration(s: &str) -> (r: Result<Duration, CliError>)
    requires
        duration_fits(s@),
    ensures
        match duration_seconds(s@) {
            Ok(secs) => r matches Ok(d) && d@ == secs,
            Err(f) => r matches Err(e) && duration_error_is(s@, f, e),
        },
{
    let all = chars_of(s);
    let t = trim_chars(&all);
    let n = t.len();
    let (c, unit) = if n > 0 && t[n - 1] == 'm' {
        ('m', Unit::Minutes)
    } else if n > 0 && t[n - 1] == 'h' {
        ('h', Unit::Hours)
    } else if n > 0 && t[n - 1] == 'd' {
        ('d', Unit::Days)
    } else if n > 0 && t[n - 1] == 's' {
        ('s', Unit::Seconds)
    } else {
        return Err(CliError::InvalidDuration { input: string_of(&t) });
    };
    let digits = strip_trailing_chars(&t, c);
    match parse_i64_chars(&digits) {
        Err(k) => Err(CliError::InvalidNumber(k)),
        Ok(v) => {
            let d = match unit {
                Unit::Seconds => Duration::seconds(v),
                Unit::Minutes => Duration::minutes(v),
                Unit::Hours => Duration::hours(v),
                Unit::Days => Duration::days(v),
            };
            Ok(d)
        },
    }
}

/// Whether `parse_duration` can take `s`: its span, if it has one, is not too long.
pub fn duration_fits_text(s: &str) -> (r: bool)
    ensures
        r == duration_fits(s@),
{
    let all = chars_of(s);
    let t = trim_chars(&all);
    let n = t.len();
    let (c, per): (char, i128) = if n > 0 && t[n - 1] == 'm' {
        ('m', 60)
    } else if n > 0 && t[n - 1] == 'h' {
        ('h', 3600)
    } else if n > 0 && t[n - 1] == 'd' {
        ('d', 86400)
    } else if n > 0 && t[n - 1] == 's' {
        ('s', 1)
    } else {
        return true;
    };
    let digits = strip_trailing_chars(&t, c);
    assert(duration_parts(s@) == match parse_i64(strip_trailing(t@, c)) {
        Ok(n) => Ok((n, unit_of(c))),
        Err(k) => Err(DurationFault::Number(k)),
    });
    assert(unit_seconds(unit_of(c)) == per);
    match parse_i64_chars(&digits) {
        Err(_) => true,
        Ok(v) => {
            assert(-0x8000_0000_0000_0000 * 86400 <= v as i128 * per <= 0x8000_0000_0000_0000 * 86400)
                by (nonlinear_arith)
                requires
                    1 <= per <= 86400,
                    i64::MIN <= v <= i64::MAX,
            ;
            let secs = v as i128 * per;
            assert(duration_seconds(s@) == Ok::<int, DurationFault>(v * per));
            -(MAX_SECONDS as i128) <= secs && secs <= MAX_SECONDS as i128
        },
    }
}

} // verus!
