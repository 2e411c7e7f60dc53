//! Durations, and how the configuration document writes one.
//!
//! A duration is written with its unit (`"30s"`, `"500ms"`) and the unit is not
//! optional: `30` is thirty of something, and picking a unit for it is how a
//! heartbeat interval becomes thirty milliseconds.

use vstd::prelude::*;
use vstd::string::*;

use crate::registry;
use crate::text;

verus! {

/// Nanoseconds in one second.
pub const NANOS_PER_SEC: u128 = 1_000_000_000;

/// The longest duration: a 64-bit count of seconds and the nanoseconds of one
/// more, less one.
pub const MAX_NANOS: u128 = 18_446_744_073_709_551_615_999_999_999;

/// A length of time, in whole nanoseconds.
#[derive(Debug, Clone, Copy, PartialEq, Eq, PartialOrd, Ord, Hash, Structural)]
pub struct Duration {
    nanos: u128,
}

impl View for Duration {
    type V = nat;

    /// The length in nanoseconds.
    closed spec fn view(&self) -> nat {
        self.nanos as nat
    }
}

impl Duration {
    #[verifier::type_invariant]
    closed spec fn fits(self) -> bool {
        self.nanos <= MAX_NANOS
    }

    /// A duration of so many seconds.
    pub fn from_secs(secs: u64) -> (duration: Self)
        ensures
            duration@ == secs * 1_000_000_000,
    {
        Self { nanos: secs as u128 * NANOS_PER_SEC }
    }

    /// A duration of so many milliseconds.
    pub fn from_millis(millis: u64) -> (duration: Self)
        ensures
            duration@ == millis * 1_000_000,
    {
        Self { nanos: millis as u128 * 1_000_000 }
    }

    /// A duration of so many microseconds.
    pub fn from_micros(micros: u64) -> (duration: Self)
        ensures
            duration@ == micros * 1_000,
    {
        Self { nanos: micros as u128 * 1_000 }
    }

    /// A duration of so many nanoseconds.
    pub fn from_nanos(nanos: u64) -> (duration: Self)
        ensures
            duration@ == nanos,
    {
        Self { nanos: nanos as u128 }
    }

    /// The length in nanoseconds.
    pub fn as_nanos(&self) -> (nanos: u128)
        ensures
            nanos == self@,
            nanos <= MAX_NANOS,
    {
        proof {
            use_type_invariant(self);
        }
        self.nanos
    }

    /// The length in nanoseconds, or the largest 64-bit count where it is
    /// longer than that.
    pub fn as_nanos_clamped(&self) -> (nanos: u64)
        ensures
            nanos == clamped(self@),
    {
        if self.nanos <= 18_446_744_073_709_551_615 {
            self.nanos as u64
        } else {
            u64::MAX
        }
    }

    /// Whether this is no time at all.
    pub fn is_zero(&self) -> (zero: bool)
        ensures
            zero == (self@ == 0),
    {
        self.nanos == 0
    }

    /// This duration cut into `parts` equal parts, rounded down.
    pub fn divided(&self, parts: u32) -> (part: Self)
        requires
            parts > 0,
        ensures
            part@ == self@ / parts as nat,
    {
        proof {
            use_type_invariant(self);
            assert(self.nanos / parts as u128 <= self.nanos) by (nonlinear_arith)
                requires
                    parts > 0,
            ;
        }
        Self { nanos: self.nanos / parts as u128 }
    }

    /// This duration as an operator is shown it.
    pub fn shown_text(&self) -> (text: String)
        ensures
            text@ == shown(self@),
    {
        proof {
            use_type_invariant(self);
        }
        debug_format((self.nanos / NANOS_PER_SEC) as u64, (self.nanos % NANOS_PER_SEC) as u32)
    }

    /// The longer of two durations.
    pub fn longer_of(self, other: Self) -> (longer: Self)
        ensures
            longer@ == if self@ >= other@ {
                self@
            } else {
                other@
            },
    {
        if self.nanos >= other.nanos {
            self
        } else {
            other
        }
    }
}

/// The text [`std::time::Duration`]'s `Debug` gives so many seconds and
/// nanoseconds.
pub uninterp spec fn debug_text(secs: u64, nanos: u32) -> Seq<char>;

/// How a length of so many nanoseconds is shown to an operator: with a unit
/// that suits its size.
pub open spec fn shown(length: nat) -> Seq<char> {
    debug_text((length / 1_000_000_000) as u64, (length % 1_000_000_000) as u32)
}

/// Formats with the `Debug` of [`std::time::Duration`]. Nothing is claimed of
/// the text but that the two numbers decide it; the precondition is what keeps
/// [`std::time::Duration::new`] from carrying nanoseconds into the seconds,
/// which is where it can panic.
#[verifier::external_body]
fn debug_format(secs: u64, nanos: u32) -> (text: String)
    requires
        nanos < 1_000_000_000,
    ensures
        text@ == debug_text(secs, nanos),
{
    format!("{:?}", std::time::Duration::new(secs, nanos))
}

/// Two durations of one length are one duration.
pub proof fn one_duration_per_length(one: Duration, other: Duration)
    requires
        one@ == other@,
    ensures
        one == other,
{
}

/// A count of nanoseconds as a 64-bit reading holds it: the count, or the
/// largest reading where the count does not fit.
pub open spec fn clamped(nanos: nat) -> u64 {
    if nanos <= u64::MAX {
        nanos as u64
    } else {
        u64::MAX
    }
}

/// A 64-bit reading moved on by `by`, stopping at the largest reading.
pub open spec fn moved_on(reading: u64, by: nat) -> u64 {
    clamped((reading + by) as nat)
}

pub open spec fn is_digit(c: char) -> bool {
    '0' <= c <= '9'
}

/// How many digits `raw` starts with.
pub open spec fn leading_digits(raw: Seq<char>) -> nat
    decreases raw.len(),
{
    if raw.len() > 0 && is_digit(raw[0]) {
        1 + leading_digits(raw.subrange(1, raw.len() as int))
    } else {
        0
    }
}

/// The number a run of decimal digits spells.
pub open spec fn digits_value(digits: Seq<char>) -> nat
    decreases digits.len(),
{
    if digits.len() == 0 {
        0
    } else {
        digits_value(digits.drop_last()) * 10 + (digits.last() as u32 - '0' as u32) as nat
    }
}

/// How many nanoseconds one of a unit is.
pub open spec fn unit_nanos(unit: Seq<char>) -> Option<nat> {
    if unit == "ns"@ {
        Some(1)
    } else if unit == "us"@ {
        Some(1_000)
    } else if unit == "ms"@ {
        Some(1_000_000)
    } else if unit == "s"@ {
        Some(1_000_000_000)
    } else if unit == "m"@ {
        Some(60_000_000_000)
    } else if unit == "h"@ {
        Some(3_600_000_000_000)
    } else {
        None
    }
}

/// What a written duration says: its length in nanoseconds, or why it says
/// none.
pub open spec fn duration_read(raw: Seq<char>) -> Result<nat, Seq<char>> {
    let digits = leading_digits(raw);
    let value = raw.subrange(0, digits as int);
    let unit = raw.subrange(digits as int, raw.len() as int);
    if digits == raw.len() {
        Err("`"@ + raw + "` has no unit (ns, us, ms, s, m, h)"@)
    } else if digits == 0 {
        Err("`"@ + raw + "` does not start with a number"@)
    } else if digits_value(value) > u64::MAX {
        Err("`"@ + value + "` is not a whole number"@)
    } else {
        match unit_nanos(unit) {
            None => Err("`"@ + unit + "` is not a duration unit (ns, us, ms, s, m, h)"@),
            Some(nanos) => if digits_value(value) * nanos > u64::MAX {
                Err("`"@ + raw + "` does not fit in a 64-bit nanosecond count"@)
            } else {
                Ok(digits_value(value) * nanos)
            },
        }
    }
}

fn quoted(text: &str, after: &str) -> (whole: String)
    ensures
        whole@ == "`"@ + text@ + after@,
{
    let mut whole: String = "`".to_owned();
    whole.append(text);
    whole.append(after);
    whole
}

pub(crate) fn count_leading_digits(raw: &str) -> (digits: usize)
    ensures
        digits == leading_digits(raw@),
        digits <= raw@.len(),
        forall|i: int| 0 <= i < digits ==> is_digit(#[trigger] raw@[i]),
{
    let length: usize = raw.unicode_len();
    let mut digits: usize = 0;
    proof {
        assert(raw@.subrange(0, length as int) =~= raw@);
    }
    while digits < length
        invariant
            digits <= length,
            length == raw@.len(),
            forall|i: int| 0 <= i < digits ==> is_digit(#[trigger] raw@[i]),
            leading_digits(raw@) == digits + leading_digits(
                raw@.subrange(digits as int, length as int),
            ),
        decreases length - digits,
    {
        let c: char = raw.get_char(digits);
        if (c as u32) < 48 || (c as u32) > 57 {
            return digits;
        }
        proof {
            let rest = raw@.subrange(digits as int, length as int);
            assert(rest.subrange(1, rest.len() as int) =~= raw@.subrange(
                digits + 1,
                length as int,
            ));
        }
        digits += 1;
    }
    digits
}

pub(crate) fn whole_number(digits: &str) -> (value: Option<u64>)
    requires
        forall|i: int| 0 <= i < digits@.len() ==> is_digit(#[trigger] digits@[i]),
    ensures
        value == if digits_value(digits@) <= u64::MAX {
            Some(digits_value(digits@) as u64)
        } else {
            None::<u64>
        },
{
    let length: usize = digits.unicode_len();
    let mut value: Option<u64> = Some(0);
    let mut at: usize = 0;
    while at < length
        invariant
            at <= length,
            length == digits@.len(),
            forall|i: int| 0 <= i < digits@.len() ==> is_digit(#[trigger] digits@[i]),
            value == if digits_value(digits@.take(at as int)) <= u64::MAX {
                Some(digits_value(digits@.take(at as int)) as u64)
            } else {
                None::<u64>
            },
        decreases length - at,
    {
        let c: char = digits.get_char(at);
        let ones: u64 = (c as u32 - 48) as u64;
        proof {
            assert(digits@.take(at + 1).drop_last() =~= digits@.take(at as int));
            assert(digits@.take(at + 1).last() == digits@[at as int]);
        }
        value = match value {
            None => None,
            Some(tens) => match tens.checked_mul(10) {
                None => None,
                Some(shifted) => shifted.checked_add(ones),
            },
        };
        at += 1;
    }
    proof {
        assert(digits@.take(length as int) =~= digits@);
    }
    value
}

fn nanos_per_unit(unit: &str) -> (nanos: Option<u64>)
    ensures
        match nanos {
            None => unit_nanos(unit@) is None,
            Some(count) => unit_nanos(unit@) == Some(count as nat),
        },
{
    if text::same(unit, "ns") {
        Some(1)
    } else if text::same(unit, "us") {
        Some(1_000)
    } else if text::same(unit, "ms") {
        Some(1_000_000)
    } else if text::same(unit, "s") {
        Some(1_000_000_000)
    } else if text::same(unit, "m") {
        Some(60_000_000_000)
    } else if text::same(unit, "h") {
        Some(3_600_000_000_000)
    } else {
        None
    }
}

/// Parse `"<whole number><unit>"`, where the unit is one of `ns`, `us`, `ms`,
/// `s`, `m`, `h`.
///
/// # Errors
///
/// What is wrong with it, in words that name the part that is wrong.
pub fn parse_duration(raw: &str) -> (parsed: Result<Duration, String>)
    ensures
        match duration_read(raw@) {
            Ok(nanos) => parsed matches Ok(duration) && duration@ == nanos,
            Err(message) => parsed matches Err(said) && said@ == message,
        },
{
    let length: usize = raw.unicode_len();
    let digits: usize = count_leading_digits(raw);
    if digits == length {
        return Err(quoted(raw, "` has no unit (ns, us, ms, s, m, h)"));
    }
    if digits == 0 {
        return Err(quoted(raw, "` does not start with a number"));
    }
    let value: &str = raw.substring_char(0, digits);
    let unit: &str = raw.substring_char(digits, length);
    let value_count: u64 = match whole_number(value) {
        None => {
            return Err(quoted(value, "` is not a whole number"));
        },
        Some(count) => count,
    };
    let nanos: u64 = match nanos_per_unit(unit) {
        None => {
            return Err(quoted(unit, "` is not a duration unit (ns, us, ms, s, m, h)"));
        },
        Some(count) => count,
    };
    match value_count.checked_mul(nanos) {
        None => Err(quoted(raw, "` does not fit in a 64-bit nanosecond count")),
        Some(total) => Ok(Duration::from_nanos(total)),
    }
}

/// A number in decimal is a run of digits that spells it.
pub proof fn decimal_spells_its_number(value: nat)
    ensures
        text::decimal(value).len() > 0,
        forall|i: int|
            0 <= i < text::decimal(value).len() ==> is_digit(#[trigger] text::decimal(value)[i]),
        digits_value(text::decimal(value)) == value,
    decreases value,
{
    let written = text::decimal(value);
    if value < 10 {
        assert(written.drop_last() =~= Seq::<char>::empty());
        assert(digits_value(written.drop_last()) == 0);
    } else {
        decimal_spells_its_number(value / 10);
        assert(written.drop_last() =~= text::decimal(value / 10));
    }
}

pub proof fn digits_before_something_else(digits: Seq<char>, rest: Seq<char>)
    requires
        forall|i: int| 0 <= i < digits.len() ==> is_digit(#[trigger] digits[i]),
        rest.len() == 0 || !is_digit(rest[0]),
    ensures
        leading_digits(digits + rest) == digits.len(),
    decreases digits.len(),
{
    let whole = digits + rest;
    if digits.len() == 0 {
        assert(whole =~= rest);
    } else {
        assert(whole[0] == digits[0]);
        let fewer = digits.subrange(1, digits.len() as int);
        assert(whole.subrange(1, whole.len() as int) =~= fewer + rest);
        digits_before_something_else(fewer, rest);
    }
}

/// A count written in decimal with a unit behind it is read back as that many
/// of the unit, wherever the whole fits in a 64-bit nanosecond count.
pub proof fn a_written_duration_is_read_back(count: nat, unit: Seq<char>)
    requires
        unit_nanos(unit) is Some,
        count * unit_nanos(unit)->0 <= u64::MAX,
    ensures
        duration_read(text::decimal(count) + unit) == Ok::<nat, Seq<char>>(
            count * unit_nanos(unit)->0,
        ),
{
    reveal_strlit("ns");
    reveal_strlit("us");
    reveal_strlit("ms");
    reveal_strlit("s");
    reveal_strlit("m");
    reveal_strlit("h");
    decimal_spells_its_number(count);
    let written = text::decimal(count);
    let raw = written + unit;
    digits_before_something_else(written, unit);
    assert(raw.subrange(0, written.len() as int) =~= written);
    assert(raw.subrange(written.len() as int, raw.len() as int) =~= unit);
    let nanos = unit_nanos(unit)->0;
    assert(count <= count * nanos) by (nonlinear_arith)
        requires
            nanos >= 1,
    ;
}

/// A number without a unit is never read as a duration.
pub proof fn a_bare_number_is_never_a_duration(raw: Seq<char>)
    requires
        forall|i: int| 0 <= i < raw.len() ==> is_digit(#[trigger] raw[i]),
    ensures
        duration_read(raw) is Err,
{
    digits_before_something_else(raw, Seq::empty());
    assert(raw + Seq::<char>::empty() =~= raw);
}

/// What each unit is: a nanosecond, and then a thousand of one for each of the
/// next three, and sixty of one for each of the last two.
pub proof fn what_each_unit_is()
    ensures
        unit_nanos("ns"@) == Some(1nat),
        unit_nanos("us"@) == Some(1_000 * unit_nanos("ns"@)->0),
        unit_nanos("ms"@) == Some(1_000 * unit_nanos("us"@)->0),
        unit_nanos("s"@) == Some(1_000 * unit_nanos("ms"@)->0),
        unit_nanos("m"@) == Some(60 * unit_nanos("s"@)->0),
        unit_nanos("h"@) == Some(60 * unit_nanos("m"@)->0),
{
    reveal_strlit("ns");
    reveal_strlit("us");
    reveal_strlit("ms");
    reveal_strlit("s");
    reveal_strlit("m");
    reveal_strlit("h");
    assert("ns"@.len() == 2 && "ns"@[0] == 'n' && "ns"@[1] == 's');
    assert("us"@.len() == 2 && "us"@[0] == 'u' && "us"@[1] == 's');
    assert("ms"@.len() == 2 && "ms"@[0] == 'm' && "ms"@[1] == 's');
    assert("s"@.len() == 1 && "s"@[0] == 's');
    assert("m"@.len() == 1 && "m"@[0] == 'm');
    assert("h"@.len() == 1 && "h"@[0] == 'h');
}

/// Nothing else is a unit.
pub proof fn nothing_else_is_a_unit(unit: Seq<char>)
    requires
        unit != "ns"@,
        unit != "us"@,
        unit != "ms"@,
        unit != "s"@,
        unit != "m"@,
        unit != "h"@,
    ensures
        unit_nanos(unit) is None,
{
}

/// One more digit is ten times as much and the digit.
pub proof fn digits_count_in_tens(digits: Seq<char>, c: char)
    requires
        48 <= c as u32 <= 57,
    ensures
        is_digit(c),
        digits_value(Seq::empty()) == 0,
        digits_value(digits.push(c)) == 10 * digits_value(digits) + (c as u32 - 48),
{
    assert(digits.push(c).drop_last() =~= digits);
}

/// A digit is one of the ten.
pub proof fn a_digit_is_one_of_ten(c: char)
    ensures
        is_digit(c) <==> 48 <= c as u32 <= 57,
{
}

proof fn what_leads_is_digits(raw: Seq<char>)
    ensures
        leading_digits(raw) <= raw.len(),
        forall|i: int| 0 <= i < leading_digits(raw) ==> is_digit(#[trigger] raw[i]),
        leading_digits(raw) < raw.len() ==> !is_digit(raw[leading_digits(raw) as int]),
    decreases raw.len(),
{
    if raw.len() > 0 && is_digit(raw[0]) {
        let rest = raw.subrange(1, raw.len() as int);
        what_leads_is_digits(rest);
        assert forall|i: int| 0 <= i < leading_digits(raw) implies is_digit(
            #[trigger] raw[i],
        ) by {
            if i > 0 {
                assert(rest[i - 1] == raw[i]);
            }
        }
        if leading_digits(raw) < raw.len() {
            assert(rest[leading_digits(rest) as int] == raw[leading_digits(raw) as int]);
        }
    }
}

/// What is read is what was written: a run of digits, the longest there is and at
/// least one, and behind it a unit; and the length is that many of the unit, where
/// it fits.
pub proof fn what_is_read_was_written(raw: Seq<char>) -> (cut: int)
    requires
        duration_read(raw) is Ok,
    ensures
        0 < cut < raw.len(),
        forall|i: int| 0 <= i < cut ==> is_digit(#[trigger] raw[i]),
        !is_digit(raw[cut]),
        unit_nanos(raw.skip(cut)) is Some,
        duration_read(raw)->Ok_0 == digits_value(raw.take(cut)) * unit_nanos(raw.skip(cut))->0,
        duration_read(raw)->Ok_0 <= u64::MAX,
{
    what_leads_is_digits(raw);
    let cut = leading_digits(raw) as int;
    assert(raw.subrange(0, cut) =~= raw.take(cut));
    assert(raw.subrange(cut, raw.len() as int) =~= raw.skip(cut));
    cut
}

/// A length that does not fit is refused rather than cut down.
pub proof fn what_does_not_fit_is_refused(count: nat, unit: Seq<char>)
    requires
        unit_nanos(unit) is Some,
        count * unit_nanos(unit)->0 > u64::MAX,
    ensures
        duration_read(text::decimal(count) + unit) is Err,
{
    let raw = text::decimal(count) + unit;
    decimal_spells_its_number(count);
    if duration_read(raw) is Ok {
        let cut = what_is_read_was_written(raw);
        let digits = text::decimal(count).len() as int;
        if unit.len() > 0 && is_digit(unit[0]) {
            reveal_strlit("ns");
            reveal_strlit("us");
            reveal_strlit("ms");
            reveal_strlit("s");
            reveal_strlit("m");
            reveal_strlit("h");
            assert("ns"@[0] == 'n' && "us"@[0] == 'u' && "ms"@[0] == 'm' && "s"@[0] == 's'
                && "m"@[0] == 'm' && "h"@[0] == 'h');
        }
        if cut < digits {
            assert(is_digit(raw[cut]));
        } else if cut > digits {
            assert(is_digit(raw[digits]));
            assert(raw[digits] == unit[0]);
        }
        assert(raw.take(digits) =~= text::decimal(count));
        assert(raw.skip(digits) =~= unit);
    }
}

/// A count that fits is kept, and one that does not is the most that does.
pub proof fn a_clamp_keeps_what_fits(nanos: nat)
    ensures
        nanos <= u64::MAX ==> clamped(nanos) == nanos,
        nanos > u64::MAX ==> clamped(nanos) == u64::MAX,
{
}

/// A length is shown by its whole seconds and what is left of it.
pub proof fn a_length_is_shown_by_its_seconds(secs: u64, nanos: u32)
    requires
        nanos < 1_000_000_000,
    ensures
        shown((secs * 1_000_000_000 + nanos) as nat) == debug_text(secs, nanos),
{
    let length = (secs * 1_000_000_000 + nanos) as nat;
    assert(length / 1_000_000_000 == secs);
    assert(length % 1_000_000_000 == nanos);
}

/// A reading moved on past the largest stops there.
pub proof fn a_reading_stops_at_the_largest(reading: u64, by: nat)
    ensures
        reading + by > u64::MAX ==> moved_on(reading, by) == u64::MAX,
        reading + by <= u64::MAX ==> moved_on(reading, by) == reading + by,
{
}

/// What is refused is quoted, whole or the part that is wrong.
pub proof fn a_refused_duration_is_quoted(raw: Seq<char>)
    requires
        duration_read(raw) is Err,
    ensures
        ({
            let said = duration_read(raw)->Err_0;
            let cut = leading_digits(raw) as int;
            ||| registry::stands_in(raw, said)
            ||| registry::stands_in(raw.subrange(0, cut), said)
            ||| registry::stands_in(raw.subrange(cut, raw.len() as int), said)
        }),
{
}

} // verus!
