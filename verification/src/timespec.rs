//! Timespecs: the one notation every time-valued option accepts.
//!
//! Two spellings are accepted, both resolved to whole milliseconds:
//! - unit-suffixed: a sequence of `<number><unit>` pairs with units `ms`, `s`,
//!   `m` and `h`, where a number may carry one decimal point (`1.5s`,
//!   `1h30m10s`);
//! - timestamp: `HH:MM:SS[.mmm]` or `MM:SS[.mmm]`.
//!
//! Values are computed exactly and rounded half up to the millisecond only
//! once, at the end.

use crate::digits::{
    add_numbers, all_digits, div_pow10_saturating, le_val, mul_small, pow10, push_low_digit,
    shift_up,
};
use crate::text::{
    decimal, digit_char, digit_value, is_digit, join3, push_decimal, push_padded, split_on,
    string_from,
    zero_padded,
};
use vstd::prelude::*;

verus! {

// ---------------------------------------------------------------------------
// Numbers inside a timespec
// ---------------------------------------------------------------------------

/// Whether `t` holds a decimal point.
pub open spec fn has_point(t: Seq<char>) -> bool
    decreases t.len(),
{
    t.len() > 0 && (t.last() == '.' || has_point(t.drop_last()))
}

/// Whether `t` holds at least one digit.
pub open spec fn has_digit(t: Seq<char>) -> bool
    decreases t.len(),
{
    t.len() > 0 && (is_digit(t.last()) || has_digit(t.drop_last()))
}

/// The digits of a number read as one integer, its point ignored:
/// `12.5` gives `125`.
pub open spec fn mantissa(t: Seq<char>) -> nat
    decreases t.len(),
{
    if t.len() == 0 {
        0
    } else if is_digit(t.last()) {
        10 * mantissa(t.drop_last()) + digit_value(t.last())
    } else {
        mantissa(t.drop_last())
    }
}

/// How many digits follow the point of a number: `12.5` gives `1`.
/// The number's value is `mantissa(t) / 10^fraction_len(t)`.
pub open spec fn fraction_len(t: Seq<char>) -> nat
    decreases t.len(),
{
    if t.len() == 0 || t.last() == '.' {
        0
    } else if has_point(t.drop_last()) {
        fraction_len(t.drop_last()) + 1
    } else {
        0
    }
}

/// `n / d` rounded to the nearest integer, halves rounded up.
pub open spec fn round_half_up(n: nat, d: nat) -> nat
    recommends
        d > 0,
{
    (n + d / 2) / d
}

/// `v`, or `u64::MAX` where `v` is larger.
pub open spec fn saturate(v: nat) -> nat {
    if v <= u64::MAX {
        v
    } else {
        u64::MAX as nat
    }
}

// ---------------------------------------------------------------------------
// Unit-suffixed notation
// ---------------------------------------------------------------------------

/// Where the number that starts at `i` ends: it takes digits, and the first
/// decimal point it meets.
pub open spec fn number_end(s: Seq<char>, i: int, seen_point: bool) -> int
    decreases s.len() - i,
{
    if 0 <= i < s.len() && (is_digit(s[i]) || (s[i] == '.' && !seen_point)) {
        number_end(s, i + 1, seen_point || s[i] == '.')
    } else {
        i
    }
}

/// The unit that starts at `e`: its length in milliseconds and how many
/// characters spell it. `ms` is matched before `m`.
pub open spec fn unit_at(s: Seq<char>, e: int) -> Option<(nat, nat)> {
    if 0 <= e && e + 1 < s.len() && s[e] == 'm' && s[e + 1] == 's' {
        Some((1, 2))
    } else if 0 <= e < s.len() {
        if s[e] == 's' {
            Some((1000, 1))
        } else if s[e] == 'm' {
            Some((60_000, 1))
        } else if s[e] == 'h' {
            Some((3_600_000, 1))
        } else {
            None
        }
    } else {
        None
    }
}

/// The exact value of the pairs from position `i` on, in milliseconds
/// multiplied by `10^scale`; `None` where they are malformed. `scale` must
/// be at least the number of decimals of every number.
pub open spec fn scaled_sum(s: Seq<char>, i: int, scale: nat) -> Option<nat>
    decreases s.len() - i,
{
    if i < 0 || i >= s.len() {
        Some(0)
    } else {
        let e = number_end(s, i, false);
        let t = s.subrange(i, e);
        if e <= i || !has_digit(t) {
            None
        } else {
            match unit_at(s, e) {
                None => None,
                Some((u, l)) => match scaled_sum(s, e + l, scale) {
                    None => None,
                    Some(rest) => Some(
                        mantissa(t) * u * pow10((scale - fraction_len(t)) as nat) + rest,
                    ),
                },
            }
        }
    }
}

/// The milliseconds a unit-suffixed timespec stands for, rounded half up and
/// saturated at `u64::MAX`; `None` where it is malformed.
pub open spec fn unit_suffixed_millis(s: Seq<char>) -> Option<nat> {
    match scaled_sum(s, 0, s.len()) {
        None => None,
        Some(n) => Some(saturate(round_half_up(n, pow10(s.len())))),
    }
}

/// Why a unit-suffixed timespec is rejected, reading its pairs from
/// position `i` on: a pair with no number, a number that is only a point, a
/// unit that is none of `ms`, `s`, `m`, `h`, or a number with no unit after
/// it.
pub open spec fn unit_suffixed_error(s: Seq<char>, i: int) -> Seq<char>
    decreases s.len() - i,
{
    if i < 0 || i >= s.len() {
        Seq::empty()
    } else {
        let e = number_end(s, i, false);
        if e <= i {
            "Invalid timespec: '"@ + s + "'"@
        } else if !has_digit(s.subrange(i, e)) {
            "Invalid number in timespec: '"@ + s.subrange(i, e) + "'"@
        } else {
            match unit_at(s, e) {
                None => if e < s.len() {
                    "Unknown timespec unit: '"@ + seq![s[e]] + "'"@
                } else {
                    "Timespec must end with a unit (ms, s, m, or h), got: '"@ + s + "'"@
                },
                Some((u, l)) => unit_suffixed_error(s, e + l),
            }
        }
    }
}

// ---------------------------------------------------------------------------
// Timestamp notation
// ---------------------------------------------------------------------------

/// A non-empty run of digits.
pub open spec fn is_digit_run(t: Seq<char>) -> bool {
    t.len() > 0 && forall|k: int| 0 <= k < t.len() ==> is_digit(#[trigger] t[k])
}

/// The value of an hours or minutes field, where it is a run of digits that
/// fits in a `u64`.
pub open spec fn timestamp_field(t: Seq<char>) -> Option<nat> {
    if is_digit_run(t) && mantissa(t) <= u64::MAX {
        Some(mantissa(t))
    } else {
        None
    }
}

/// A decimal number: digits with at most one point, which neither starts
/// nor ends it.
pub open spec fn is_decimal(t: Seq<char>) -> bool {
    &&& t.len() > 0
    &&& forall|k: int| 0 <= k < t.len() ==> is_digit(#[trigger] t[k]) || t[k] == '.'
    &&& t[0] != '.'
    &&& t.last() != '.'
    &&& forall|a: int, b: int|
        0 <= a < b < t.len() && #[trigger] t[a] == '.' ==> #[trigger] t[b] != '.'
}

/// The milliseconds of a timestamp's hours, minutes and seconds fields;
/// `None` where a field is malformed or minutes or seconds reach 60.
pub open spec fn timestamp_parts_millis(
    hours: Option<nat>,
    minutes: Option<nat>,
    seconds: Seq<char>,
) -> Option<nat> {
    match (hours, minutes) {
        (Some(h), Some(m)) => {
            if !is_decimal(seconds) || m >= 60 || mantissa(seconds) / pow10(
                fraction_len(seconds),
            ) >= 60 {
                None
            } else {
                Some(
                    h * 3_600_000 + m * 60_000 + round_half_up(
                        mantissa(seconds) * 1000,
                        pow10(fraction_len(seconds)),
                    ),
                )
            }
        },
        _ => None,
    }
}

/// The milliseconds a timestamp stands for (`HH:MM:SS[.mmm]` or
/// `MM:SS[.mmm]`); `None` where it is malformed.
pub open spec fn timestamp_millis(s: Seq<char>) -> Option<nat> {
    let parts = split_on(s, ':');
    if parts.len() == 3 {
        timestamp_parts_millis(timestamp_field(parts[0]), timestamp_field(parts[1]), parts[2])
    } else if parts.len() == 2 {
        timestamp_parts_millis(Some(0), timestamp_field(parts[0]), parts[1])
    } else {
        None
    }
}

/// Why a timestamp is rejected, given its fields: `Invalid timestamp`, with
/// the reason where minutes or seconds reach 60.
pub open spec fn timestamp_parts_error(
    hours: Option<nat>,
    minutes: Option<nat>,
    seconds: Seq<char>,
    s: Seq<char>,
) -> Seq<char> {
    match (hours, minutes) {
        (Some(_), Some(m)) => if !is_decimal(seconds) {
            "Invalid timestamp: '"@ + s + "'"@
        } else if m >= 60 {
            "Invalid timestamp: '"@ + s + "' (minutes must be < 60)"@
        } else {
            "Invalid timestamp: '"@ + s + "' (seconds must be < 60)"@
        },
        _ => "Invalid timestamp: '"@ + s + "'"@,
    }
}

/// Why a timestamp is rejected.
pub open spec fn timestamp_error(s: Seq<char>) -> Seq<char> {
    let parts = split_on(s, ':');
    if parts.len() == 3 {
        timestamp_parts_error(timestamp_field(parts[0]), timestamp_field(parts[1]), parts[2], s)
    } else if parts.len() == 2 {
        timestamp_parts_error(Some(0), timestamp_field(parts[0]), parts[1], s)
    } else {
        "Invalid timestamp: '"@ + s + "'"@
    }
}

// ---------------------------------------------------------------------------
// Timespecs
// ---------------------------------------------------------------------------

/// The milliseconds a timespec stands for; `None` where it is rejected.
pub open spec fn timespec_millis(s: Seq<char>) -> Option<nat> {
    if s.len() == 0 {
        None
    } else if s.contains(':') {
        timestamp_millis(s)
    } else {
        unit_suffixed_millis(s)
    }
}

/// Why a timespec is rejected.
pub open spec fn timespec_error(s: Seq<char>) -> Seq<char> {
    if s.len() == 0 {
        "Timespec cannot be empty"@
    } else if s.contains(':') {
        timestamp_error(s)
    } else {
        unit_suffixed_error(s, 0)
    }
}

/// Whether a timespec's value fits a `u64` of milliseconds. A unit-suffixed
/// value saturates and always does; a timestamp whose hours overflow does
/// not.
pub open spec fn timespec_in_range(s: Seq<char>) -> bool {
    timespec_millis(s) matches Some(v) ==> v <= u64::MAX
}

proof fn lemma_half_pow10(n: nat)
    requires
        n >= 1,
    ensures
        pow10(n) / 2 == 5 * pow10((n - 1) as nat),
{
    assert(pow10(n) == 10 * pow10((n - 1) as nat));
    assert((10 * pow10((n - 1) as nat)) / 2 == 5 * pow10((n - 1) as nat)) by (nonlinear_arith);
}

/// The LE digits of `x`.
fn small_number(x: u8) -> (v: Vec<u8>)
    requires
        x < 10,
    ensures
        all_digits(v@),
        le_val(v@) == x,
{
    let mut v: Vec<u8> = Vec::new();
    push_low_digit(&mut v, x);
    assert(le_val(Seq::<u8>::empty()) == 0);
    v
}

/// `n / 10^k` rounded half up, saturated at `u64::MAX`.
fn round_scaled(n: &Vec<u8>, k: usize) -> (r: u64)
    requires
        all_digits(n@),
    ensures
        r == saturate(round_half_up(le_val(n@), pow10(k as nat))),
{
    if k == 0 {
        assert(pow10(0) == 1);
        return div_pow10_saturating(n, 0);
    }
    let five = small_number(5);
    let half = shift_up(&five, k - 1);
    let total = add_numbers(n, &half);
    proof {
        lemma_half_pow10(k as nat);
        assert(pow10((k - 1) as nat) * 5 == 5 * pow10((k - 1) as nat)) by (nonlinear_arith);
    }
    div_pow10_saturating(&total, k)
}

/// The number `s[start..end]` (digits and at most one point), as the LE
/// digits of its mantissa and its count of decimals.
fn read_number(s: &Vec<char>, start: usize) -> (r: (usize, Vec<u8>, usize, bool))
    requires
        start < s.len(),
    ensures
        start <= r.0 <= s.len(),
        r.0 == number_end(s@, start as int, false),
        all_digits(r.1@),
        le_val(r.1@) == mantissa(s@.subrange(start as int, r.0 as int)),
        r.2 == fraction_len(s@.subrange(start as int, r.0 as int)),
        r.2 <= r.0 - start,
        r.3 == has_digit(s@.subrange(start as int, r.0 as int)),
{
    let mut i = start;
    let mut seen_point = false;
    let mut mant: Vec<u8> = Vec::new();
    let mut frac: usize = 0;
    let mut any_digit = false;
    assert(s@.subrange(start as int, start as int) =~= Seq::<char>::empty());
    assert(le_val(mant@) == 0);
    while i < s.len() && (('0' <= s[i] && s[i] <= '9') || (s[i] == '.' && !seen_point))
        invariant
            start <= i <= s.len(),
            number_end(s@, i as int, seen_point) == number_end(s@, start as int, false),
            all_digits(mant@),
            le_val(mant@) == mantissa(s@.subrange(start as int, i as int)),
            frac == fraction_len(s@.subrange(start as int, i as int)),
            frac <= i - start,
            seen_point == has_point(s@.subrange(start as int, i as int)),
            any_digit == has_digit(s@.subrange(start as int, i as int)),
        decreases s.len() - i,
    {
        let c = s[i];
        let ghost t = s@.subrange(start as int, i as int);
        proof {
            assert(s@.subrange(start as int, i + 1) =~= t.push(c));
            assert(t.push(c).drop_last() =~= t);
        }
        if c == '.' {
            seen_point = true;
            frac = 0;
        } else {
            let d: u8 = ((c as u32) - 48) as u8;
            push_low_digit(&mut mant, d);
            any_digit = true;
            if seen_point {
                frac = frac + 1;
            }
        }
        i = i + 1;
    }
    (i, mant, frac, any_digit)
}

/// Parses a unit-suffixed timespec held in `s`.
fn parse_unit_suffixed(s: &Vec<char>, input: &str) -> (r: Result<u64, String>)
    requires
        s@ == input@,
        s.len() > 0,
    ensures
        match r {
            Ok(v) => unit_suffixed_millis(s@) == Some(v as nat),
            Err(e) => unit_suffixed_millis(s@) is None && e@ == unit_suffixed_error(s@, 0),
        },
{
    let n = s.len();
    let ghost scale = n as nat;
    let mut acc: Vec<u8> = Vec::new();
    let mut i: usize = 0;
    assert(le_val(acc@) == 0);
    while i < n
        invariant
            n == s.len(),
            scale == n,
            i <= n,
            all_digits(acc@),
            scaled_sum(s@, 0, scale) == match scaled_sum(s@, i as int, scale) {
                None => None,
                Some(rest) => Some(le_val(acc@) + rest),
            },
            unit_suffixed_error(s@, 0) == unit_suffixed_error(s@, i as int),
            s@ == input@,
        decreases n - i,
    {
        let (e, mant, frac, any_digit) = read_number(s, i);
        let ghost t = s@.subrange(i as int, e as int);
        if e == i {
            return Err(join3("Invalid timespec: '", input, "'"));
        }
        if !any_digit {
            let number = string_from(&crate::text::slice_chars(s, i, e));
            assert(number@ == t);
            return Err(join3("Invalid number in timespec: '", number.as_str(), "'"));
        }
        let unit: u64;
        let len: usize;
        if n - e >= 2 && s[e] == 'm' && s[e + 1] == 's' {
            unit = 1;
            len = 2;
        } else if e < n {
            let c = s[e];
            if c == 's' {
                unit = 1000;
                len = 1;
            } else if c == 'm' {
                unit = 60_000;
                len = 1;
            } else if c == 'h' {
                unit = 3_600_000;
                len = 1;
            } else {
                let mut u: Vec<char> = Vec::new();
                u.push(c);
                let name = string_from(&u);
                assert(name@ =~= seq![s@[e as int]]);
                return Err(join3("Unknown timespec unit: '", name.as_str(), "'"));
            }
        } else {
            return Err(
                join3("Timespec must end with a unit (ms, s, m, or h), got: '", input, "'"),
            );
        }
        assert(unit_at(s@, e as int) == Some((unit as nat, len as nat)));
        let scaled = mul_small(&mant, unit);
        let term = shift_up(&scaled, n - frac);
        proof {
            assert(le_val(term@) == pow10((n - frac) as nat) * (unit * mantissa(t)));
            assert(pow10((n - frac) as nat) * (unit * mantissa(t)) == mantissa(t) * unit * pow10(
                (scale - fraction_len(t)) as nat,
            )) by (nonlinear_arith)
                requires
                    scale == n,
                    frac == fraction_len(t),
            ;
        }
        acc = add_numbers(&acc, &term);
        i = e + len;
    }
    Ok(round_scaled(&acc, n))
}

/// The mantissa (as LE digits) and the count of decimals of `t`, which holds
/// only digits and points.
fn read_decimal(t: &Vec<char>) -> (r: (Vec<u8>, usize))
    requires
        forall|k: int| 0 <= k < t.len() ==> is_digit(#[trigger] t@[k]) || t@[k] == '.',
    ensures
        all_digits(r.0@),
        le_val(r.0@) == mantissa(t@),
        r.1 == fraction_len(t@),
{
    let mut mant: Vec<u8> = Vec::new();
    let mut frac: usize = 0;
    let mut seen_point = false;
    let mut i: usize = 0;
    assert(t@.take(0) =~= Seq::<char>::empty());
    assert(le_val(mant@) == 0);
    while i < t.len()
        invariant
            i <= t.len(),
            forall|k: int| 0 <= k < t.len() ==> is_digit(#[trigger] t@[k]) || t@[k] == '.',
            all_digits(mant@),
            le_val(mant@) == mantissa(t@.take(i as int)),
            frac == fraction_len(t@.take(i as int)),
            frac <= i,
            seen_point == has_point(t@.take(i as int)),
        decreases t.len() - i,
    {
        let c = t[i];
        proof {
            assert(t@.take(i + 1) =~= t@.take(i as int).push(c));
            assert(t@.take(i as int).push(c).drop_last() =~= t@.take(i as int));
        }
        if c == '.' {
            seen_point = true;
            frac = 0;
        } else {
            let d: u8 = ((c as u32) - 48) as u8;
            push_low_digit(&mut mant, d);
            if seen_point {
                frac = frac + 1;
            }
        }
        i = i + 1;
    }
    assert(t@.take(t.len() as int) =~= t@);
    (mant, frac)
}

/// The value of `t` where it is a run of digits that fits a `u64`, as an
/// hours or minutes field must be.
pub fn read_timestamp_field(t: &Vec<char>) -> (r: Option<u64>)
    ensures
        match r {
            Some(v) => timestamp_field(t@) == Some(v as nat),
            None => timestamp_field(t@) is None,
        },
{
    if t.len() == 0 {
        return None;
    }
    let mut acc: u64 = 0;
    let mut overflow = false;
    let mut i: usize = 0;
    assert(t@.take(0) =~= Seq::<char>::empty());
    while i < t.len()
        invariant
            i <= t.len(),
            forall|k: int| 0 <= k < i ==> is_digit(#[trigger] t@[k]),
            !overflow ==> acc == mantissa(t@.take(i as int)),
            overflow ==> mantissa(t@.take(i as int)) > u64::MAX,
        decreases t.len() - i,
    {
        let c = t[i];
        if !('0' <= c && c <= '9') {
            assert(!is_digit_run(t@));
            return None;
        }
        proof {
            assert(t@.take(i + 1) =~= t@.take(i as int).push(c));
            assert(t@.take(i as int).push(c).drop_last() =~= t@.take(i as int));
        }
        let d: u64 = ((c as u32) - 48) as u64;
        if !overflow {
            if acc <= (u64::MAX - d) / 10 {
                acc = acc * 10 + d;
            } else {
                overflow = true;
            }
        }
        i = i + 1;
    }
    assert(t@.take(t.len() as int) =~= t@);
    if overflow {
        None
    } else {
        Some(acc)
    }
}

/// Whether `t` is a decimal number: digits with at most one point, which
/// neither starts nor ends it.
fn is_valid_decimal(t: &Vec<char>) -> (r: bool)
    ensures
        r == is_decimal(t@),
{
    if t.len() == 0 {
        return false;
    }
    let mut seen_point = false;
    let ghost mut point_at: int = 0;
    let mut idx: usize = 0;
    while idx < t.len()
        invariant
            0 < t.len(),
            idx <= t.len(),
            forall|k: int| 0 <= k < idx ==> is_digit(#[trigger] t@[k]) || t@[k] == '.',
            forall|a: int, b: int|
                0 <= a < b < idx && #[trigger] t@[a] == '.' ==> #[trigger] t@[b] != '.',
            seen_point ==> 0 <= point_at < idx && t@[point_at] == '.',
            !seen_point ==> forall|k: int| 0 <= k < idx ==> #[trigger] t@[k] != '.',
            idx > 0 ==> t@[0] != '.',
        decreases t.len() - idx,
    {
        let c = t[idx];
        if c == '.' {
            if seen_point || idx == 0 {
                proof {
                    if seen_point {
                        assert(t@[point_at] == '.' && t@[idx as int] == '.');
                    }
                }
                return false;
            }
            seen_point = true;
            proof {
                point_at = idx as int;
            }
        } else if !('0' <= c && c <= '9') {
            return false;
        }
        idx = idx + 1;
    }
    t[t.len() - 1] != '.'
}

/// Parses a timestamp held in `s`, returning its exact value.
fn parse_timestamp(s: &Vec<char>, input: &str) -> (r: Result<u128, String>)
    requires
        s@ == input@,
    ensures
        match r {
            Ok(v) => timestamp_millis(s@) == Some(v as nat),
            Err(e) => timestamp_millis(s@) is None && e@ == timestamp_error(s@),
        },
{
    let mut done: Vec<Vec<char>> = Vec::new();
    let ghost mut done_view: Seq<Seq<char>> = Seq::empty();
    let mut cur: Vec<char> = Vec::new();
    let mut i: usize = 0;
    assert(s@.take(0) =~= Seq::<char>::empty());
    assert(split_on(Seq::<char>::empty(), ':') =~= done_view.push(cur@));
    while i < s.len()
        invariant
            i <= s.len(),
            done@.len() == done_view.len(),
            forall|k: int| 0 <= k < done_view.len() ==> #[trigger] done@[k]@ == done_view[k],
            split_on(s@.take(i as int), ':') =~= done_view.push(cur@),
        decreases s.len() - i,
    {
        let c = s[i];
        proof {
            assert(s@.take(i + 1).drop_last() =~= s@.take(i as int));
            assert(s@.take(i + 1).last() == c);
        }
        if c == ':' {
            let finished = cur;
            proof {
                done_view = done_view.push(finished@);
            }
            done.push(finished);
            cur = Vec::new();
            assert(split_on(s@.take(i + 1), ':') =~= done_view.push(cur@));
        } else {
            let ghost before = cur@;
            cur.push(c);
            assert(split_on(s@.take(i + 1), ':') =~= done_view.push(cur@));
        }
        i = i + 1;
    }
    assert(s@.take(s.len() as int) =~= s@);
    let ghost parts = split_on(s@, ':');
    let hours: Option<u64>;
    let minutes: Option<u64>;
    let seconds: &Vec<char>;
    if done.len() == 2 {
        hours = read_timestamp_field(&done[0]);
        if hours.is_none() {
            return Err(join3("Invalid timestamp: '", input, "'"));
        }
        minutes = read_timestamp_field(&done[1]);
        seconds = &cur;
        assert(parts[0] == done@[0]@ && parts[1] == done@[1]@ && parts[2] == cur@);
    } else if done.len() == 1 {
        hours = Some(0);
        minutes = read_timestamp_field(&done[0]);
        seconds = &cur;
        assert(parts[0] == done@[0]@ && parts[1] == cur@);
    } else {
        return Err(join3("Invalid timestamp: '", input, "'"));
    }
    if minutes.is_none() {
        return Err(join3("Invalid timestamp: '", input, "'"));
    }
    if !is_valid_decimal(seconds) {
        return Err(join3("Invalid timestamp: '", input, "'"));
    }
    let h = hours.unwrap();
    let m = minutes.unwrap();
    let (mant, frac) = read_decimal(seconds);
    if m >= 60 {
        return Err(join3("Invalid timestamp: '", input, "' (minutes must be < 60)"));
    }
    let whole_seconds = div_pow10_saturating(&mant, frac);
    if whole_seconds >= 60 {
        return Err(join3("Invalid timestamp: '", input, "' (seconds must be < 60)"));
    }
    let scaled = mul_small(&mant, 1000);
    let second_millis = round_scaled(&scaled, frac);
    proof {
        let sm = round_half_up(mantissa(seconds@) * 1000, pow10(fraction_len(seconds@)));
        crate::digits::lemma_pow10_positive(fraction_len(seconds@));
        assert(mantissa(seconds@) / pow10(fraction_len(seconds@)) < 60);
        assert(mantissa(seconds@) < 60 * pow10(fraction_len(seconds@))) by (nonlinear_arith)
            requires
                mantissa(seconds@) / pow10(fraction_len(seconds@)) < 60,
                pow10(fraction_len(seconds@)) >= 1,
        ;
        assert(sm <= 60_000) by (nonlinear_arith)
            requires
                sm == (mantissa(seconds@) * 1000 + pow10(fraction_len(seconds@)) / 2) / pow10(
                    fraction_len(seconds@),
                ),
                mantissa(seconds@) < 60 * pow10(fraction_len(seconds@)),
                pow10(fraction_len(seconds@)) >= 1,
        ;
    }
    let total: u128 = (h as u128) * 3_600_000 + (m as u128) * 60_000 + (second_millis as u128);
    Ok(total)
}

/// Whether `s` holds the character `c`.
pub fn contains_char(s: &Vec<char>, c: char) -> (r: bool)
    ensures
        r == s@.contains(c),
{
    let mut i: usize = 0;
    while i < s.len()
        invariant
            i <= s.len(),
            forall|k: int| 0 <= k < i ==> s@[k] != c,
        decreases s.len() - i,
    {
        if s[i] == c {
            assert(s@[i as int] == c);
            return true;
        }
        i = i + 1;
    }
    false
}

/// Parses a timespec to its exact value, which may exceed `u64::MAX` for a
/// timestamp with huge hours.
pub fn timespec_value(input: &str) -> (r: Result<u128, String>)
    ensures
        match r {
            Ok(v) => timespec_millis(input@) == Some(v as nat),
            Err(e) => timespec_millis(input@) is None && e@ == timespec_error(input@),
        },
{
    let s = crate::text::chars_of(input);
    if s.len() == 0 {
        return Err(String::from_str("Timespec cannot be empty"));
    }
    if contains_char(&s, ':') {
        parse_timestamp(&s, input)
    } else {
        match parse_unit_suffixed(&s, input) {
            Ok(v) => Ok(v as u128),
            Err(e) => Err(e),
        }
    }
}

/// Whether `input` is a timespec whose value fits a `u64` of milliseconds,
/// or is no timespec at all: the inputs [`parse_timespec`] accepts.
pub fn timespec_fits(input: &str) -> (r: bool)
    ensures
        r == timespec_in_range(input@),
{
    match timespec_value(input) {
        Ok(v) => v <= u64::MAX as u128,
        Err(_) => true,
    }
}

/// Parses a timespec into milliseconds.
///
/// Two notations are accepted:
/// - unit-suffixed: a sequence of `<number><unit>` pairs, units `ms`, `s`,
///   `m`, `h`, with an optional decimal point, e.g. `10s`, `1500ms`, `1.5s`,
///   `1h30m10s`;
/// - timestamp: `HH:MM:SS[.mmm]` or `MM:SS[.mmm]`, e.g. `00:01:30.500`,
///   `01:30`, `1:02:03.250`.
///
/// Fractions below one millisecond are rounded to the nearest millisecond,
/// halves up. `0s` parses; callers that need a positive value use
/// [`parse_positive_timespec`].
pub fn parse_timespec(input: &str) -> (r: Result<u64, String>)
    requires
        timespec_in_range(input@),
    ensures
        r is Ok <==> timespec_millis(input@) is Some,
        r matches Ok(v) ==> timespec_millis(input@) == Some(v as nat),
        r matches Err(e) ==> e@ == timespec_error(input@),
{
    match timespec_value(input) {
        Ok(v) => Ok(v as u64),
        Err(e) => Err(e),
    }
}

/// Like [`parse_timespec`], but rejects a zero duration: for the options
/// where a zero-length value is meaningless (`-d`, `-e`, `--length`, `to=`).
pub fn parse_positive_timespec(input: &str) -> (r: Result<u64, String>)
    requires
        timespec_in_range(input@),
    ensures
        r is Ok <==> (timespec_millis(input@) matches Some(v) && v > 0),
        r matches Ok(v) ==> timespec_millis(input@) == Some(v as nat),
        timespec_millis(input@) == Some(0nat) ==> (r matches Err(e) && e@
            == "Timespec must be greater than zero, got: '"@ + input@ + "'"@),
        timespec_millis(input@) is None ==> (r matches Err(e) && e@ == timespec_error(input@)),
{
    let duration = parse_timespec(input)?;
    if duration == 0 {
        return Err(join3("Timespec must be greater than zero, got: '", input, "'"));
    }
    Ok(duration)
}

/// How a duration is written in an error message: whole seconds below a
/// minute as `5s`, anything else as seconds with three decimals, `90.500s`.
pub open spec fn duration_text(ms: nat) -> Seq<char> {
    if ms % 1000 == 0 && ms < 60_000 {
        decimal(ms / 1000) + seq!['s']
    } else {
        decimal(ms / 1000) + seq!['.'] + zero_padded(ms % 1000, 3) + seq!['s']
    }
}

/// Formats a duration in milliseconds for a user-facing error message.
pub fn format_duration(ms: u64) -> (r: String)
    ensures
        r@ == duration_text(ms as nat),
{
    let mut out: Vec<char> = Vec::new();
    push_decimal(&mut out, ms / 1000);
    if ms % 1000 == 0 && ms < 60_000 {
        out.push('s');
    } else {
        out.push('.');
        push_padded(&mut out, ms % 1000, 3);
        out.push('s');
    }
    string_from(&out)
}

// ---------------------------------------------------------------------------
// Reading back what was written
// ---------------------------------------------------------------------------

/// Whether every character of `t` is a digit.
pub open spec fn all_digit_chars(t: Seq<char>) -> bool {
    forall|k: int| 0 <= k < t.len() ==> is_digit(#[trigger] t[k])
}

proof fn lemma_digit_char_value(d: nat)
    requires
        d < 10,
    ensures
        is_digit(digit_char(d)),
        digit_value(digit_char(d)) == d,
{
}

proof fn lemma_digits_have_no_point(t: Seq<char>)
    requires
        all_digit_chars(t),
    ensures
        !has_point(t),
    decreases t.len(),
{
    if t.len() > 0 {
        assert(all_digit_chars(t.drop_last()));
        lemma_digits_have_no_point(t.drop_last());
    }
}

/// The mantissa of digits appended to `a` shifts `a`'s left.
proof fn lemma_mantissa_append_digits(a: Seq<char>, b: Seq<char>)
    requires
        all_digit_chars(b),
    ensures
        mantissa(a + b) == mantissa(a) * pow10(b.len()) + mantissa(b),
    decreases b.len(),
{
    if b.len() == 0 {
        assert(a + b =~= a);
        assert(pow10(0) == 1);
    } else {
        let b0 = b.drop_last();
        assert(all_digit_chars(b0));
        lemma_mantissa_append_digits(a, b0);
        assert((a + b).drop_last() =~= a + b0);
        assert((a + b).last() == b.last());
        assert(is_digit(b.last()));
        assert(pow10(b.len()) == 10 * pow10(b0.len()));
        assert(mantissa(a + b) == 10 * mantissa(a + b0) + digit_value(b.last()));
        assert(mantissa(b) == 10 * mantissa(b0) + digit_value(b.last()));
        assert(10 * (mantissa(a) * pow10(b0.len()) + mantissa(b0)) == mantissa(a) * (10 * pow10(
            b0.len(),
        )) + 10 * mantissa(b0)) by (nonlinear_arith);
    }
}

/// `decimal(n)` is a run of digits whose value is `n`, at most three long
/// below a thousand.
proof fn lemma_decimal_reads_back(n: nat)
    ensures
        all_digit_chars(decimal(n)),
        decimal(n).len() >= 1,
        mantissa(decimal(n)) == n,
        n < 1000 ==> decimal(n).len() <= 3,
    decreases n,
{
    if n < 10 {
        lemma_digit_char_value(n);
        assert(decimal(n).drop_last() =~= Seq::<char>::empty());
        assert(mantissa(decimal(n).drop_last()) == 0);
    } else {
        lemma_decimal_reads_back(n / 10);
        lemma_digit_char_value(n % 10);
        let d = decimal(n);
        assert(d.drop_last() =~= decimal(n / 10));
        assert(d.last() == digit_char(n % 10));
        assert(mantissa(d) == 10 * mantissa(decimal(n / 10)) + digit_value(digit_char(n % 10)));
        assert(all_digit_chars(d)) by {
            assert forall|k: int| 0 <= k < d.len() implies is_digit(#[trigger] d[k]) by {
                if k < d.len() - 1 {
                    assert(d[k] == decimal(n / 10)[k]);
                }
            }
        }
        if n < 1000 {
            assert(n / 10 < 100);
            if n / 10 >= 10 {
                lemma_decimal_reads_back(n / 100);
                assert(decimal(n / 10) == decimal(n / 10 / 10).push(digit_char((n / 10) % 10)));
                assert(n / 10 / 10 < 10);
            }
        }
    }
}

/// Zeros contribute nothing to a mantissa.
proof fn lemma_zeros_read_as_zero(z: Seq<char>)
    requires
        forall|k: int| 0 <= k < z.len() ==> #[trigger] z[k] == '0',
    ensures
        all_digit_chars(z),
        mantissa(z) == 0,
    decreases z.len(),
{
    if z.len() > 0 {
        lemma_zeros_read_as_zero(z.drop_last());
        assert(z.last() == '0');
    }
}

/// Below a thousand, `zero_padded(r, 3)` is three digits whose value is `r`.
proof fn lemma_three_digits_read_back(r: nat)
    requires
        r < 1000,
    ensures
        all_digit_chars(zero_padded(r, 3)),
        zero_padded(r, 3).len() == 3,
        mantissa(zero_padded(r, 3)) == r,
{
    let d = decimal(r);
    lemma_decimal_reads_back(r);
    if d.len() < 3 {
        let z = Seq::new((3 - d.len()) as nat, |i: int| '0');
        lemma_zeros_read_as_zero(z);
        lemma_mantissa_append_digits(z, d);
        assert(zero_padded(r, 3) == z + d);

        assert(all_digit_chars(z + d)) by {
            assert forall|k: int| 0 <= k < (z + d).len() implies is_digit(#[trigger] (z + d)[k]) by {
                if k < z.len() {
                    assert((z + d)[k] == z[k]);
                } else {
                    assert((z + d)[k] == d[k - z.len()]);
                }
            }
        }
    }
}

/// A number ends only after its run of digits.
proof fn lemma_number_end_skips_digits(s: Seq<char>, i: int, j: int, seen: bool)
    requires
        0 <= i <= j <= s.len(),
        forall|k: int| i <= k < j ==> is_digit(#[trigger] s[k]),
    ensures
        number_end(s, i, seen) == number_end(s, j, seen),
    decreases j - i,
{
    if i < j {
        assert(is_digit(s[i]));
        lemma_number_end_skips_digits(s, i + 1, j, seen);
    }
}

/// The timespec `t` followed by `s`, where `t` has a digit and its value
/// in milliseconds, shifted by its `f` decimals, is `ms`, reads as `ms`.
proof fn lemma_seconds_read_back(t: Seq<char>, ms: nat)
    requires
        ms <= u64::MAX,
        t.len() >= 1,
        number_end(t.push('s'), 0, false) == t.len(),
        has_digit(t),
        forall|k: int| 0 <= k < t.len() ==> is_digit(#[trigger] t[k]) || t[k] == '.',
        mantissa(t) * 1000 == ms * pow10(fraction_len(t)),
        fraction_len(t) <= t.len(),
    ensures
        timespec_millis(t.push('s')) == Some(ms),
{
    let s = t.push('s');
    let len = s.len();
    let f = fraction_len(t);
    assert(!s.contains(':')) by {
        if s.contains(':') {
            let k = choose|k: int| 0 <= k < s.len() && s[k] == ':';
            if k < t.len() {
                assert(s[k] == t[k]);
            }
        }
    }
    assert(s.subrange(0, t.len() as int) =~= t);
    assert(unit_at(s, t.len() as int) == Some((1000nat, 1nat)));
    assert(scaled_sum(s, (t.len() + 1) as int, len) == Some(0nat));
    assert(scaled_sum(s, 0, len) == Some(mantissa(t) * 1000 * pow10((len - f) as nat)));
    crate::digits::lemma_pow10_add(f, (len - f) as nat);
    crate::digits::lemma_pow10_positive(len);
    let p = pow10(len);
    assert(mantissa(t) * 1000 * pow10((len - f) as nat) == ms * p) by (nonlinear_arith)
        requires
            mantissa(t) * 1000 == ms * pow10(f),
            pow10(f) * pow10((len - f) as nat) == p,
    ;
    assert(round_half_up(ms * p, p) == ms) by (nonlinear_arith)
        requires
            p >= 1,
    {
        assert(p / 2 < p);
        assert(ms * p + p / 2 == p * ms + p / 2);
    }
}

/// What [`format_duration`] writes reads back, as a timespec, as the same
/// number of milliseconds: an error message's durations can be typed in
/// again.
pub proof fn lemma_duration_text_reads_back(ms: nat)
    requires
        ms <= u64::MAX,
    ensures
        timespec_millis(duration_text(ms)) == Some(ms),
{
    let q = ms / 1000;
    let r = ms % 1000;
    let d = decimal(q);
    lemma_decimal_reads_back(q);
    lemma_digits_have_no_point(d);
    if r == 0 && ms < 60_000 {
        let t = d;
        assert(duration_text(ms) =~= t.push('s'));
        lemma_number_end_skips_digits(t.push('s'), 0, t.len() as int, false);
        assert(has_digit(t)) by {
            assert(is_digit(t.last()));
        }
        assert(fraction_len(t) == 0);
        assert(pow10(0) == 1);
        lemma_seconds_read_back(t, ms);
    } else {
        let f = zero_padded(r, 3);
        lemma_three_digits_read_back(r);
        let head = d.push('.');
        let t = head + f;
        assert(duration_text(ms) =~= t.push('s'));
        let s = t.push('s');
        lemma_number_end_skips_digits(s, 0, d.len() as int, false);
        lemma_number_end_skips_digits(s, (d.len() + 1) as int, t.len() as int, true);
        assert(s[d.len() as int] == '.');
        assert(number_end(s, 0, false) == t.len());
        assert(head.drop_last() =~= d);
        assert(!is_digit(head.last()));
        assert(has_point(head));
        assert(mantissa(head) == mantissa(d));
        assert(fraction_len(head) == 0);
        lemma_mantissa_append_digits(head, f);
        lemma_pow10_three();
        assert(mantissa(t) == q * 1000 + r);
        lemma_fraction_counts_digits_after_point(head, f);
        assert(has_digit(t)) by {
            assert(t.last() == f.last());
            assert(is_digit(f[2]));
        }
        assert(mantissa(t) * 1000 == ms * pow10(3));
        lemma_seconds_read_back(t, ms);
    }
}

proof fn lemma_pow10_three()
    ensures
        pow10(3) == 1000,
{
    assert(pow10(0) == 1);
    assert(pow10(1) == 10);
    assert(pow10(2) == 100);
}

/// After a point, each digit adds one decimal.
proof fn lemma_fraction_counts_digits_after_point(head: Seq<char>, f: Seq<char>)
    requires
        head.len() > 0,
        head.last() == '.',
        all_digit_chars(f),
    ensures
        fraction_len(head + f) == f.len(),
        has_point(head + f),
    decreases f.len(),
{
    if f.len() == 0 {
        assert(head + f =~= head);
    } else {
        let f0 = f.drop_last();
        assert(all_digit_chars(f0));
        lemma_fraction_counts_digits_after_point(head, f0);
        assert((head + f).drop_last() =~= head + f0);
        assert(is_digit(f.last()));
    }
}

// ---------------------------------------------------------------------------
// Compound timespecs
// ---------------------------------------------------------------------------

/// Whether `s` holds no decimal point: every number in it is whole.
pub open spec fn has_no_point(s: Seq<char>) -> bool {
    forall|k: int| 0 <= k < s.len() ==> #[trigger] s[k] != '.'
}

proof fn lemma_no_point_means_no_fraction(t: Seq<char>)
    requires
        has_no_point(t),
    ensures
        !has_point(t),
        fraction_len(t) == 0,
    decreases t.len(),
{
    if t.len() > 0 {
        assert(has_no_point(t.drop_last()));
        lemma_no_point_means_no_fraction(t.drop_last());
        assert(t.last() != '.');
    }
}

proof fn lemma_number_end_bounds(s: Seq<char>, i: int, seen: bool)
    requires
        0 <= i <= s.len(),
    ensures
        i <= number_end(s, i, seen) <= s.len(),
    decreases s.len() - i,
{
    if i < s.len() && (is_digit(s[i]) || (s[i] == '.' && !seen)) {
        lemma_number_end_bounds(s, i + 1, seen || s[i] == '.');
    }
}

/// With whole numbers only, the sum at any scale is the sum at scale 0
/// shifted by that scale.
proof fn lemma_whole_sum_scales(s: Seq<char>, i: int, scale: nat)
    requires
        has_no_point(s),
    ensures
        scaled_sum(s, i, scale) == match scaled_sum(s, i, 0) {
            Some(v) => Some(v * pow10(scale)),
            None => None,
        },
    decreases s.len() - i,
{
    if 0 <= i < s.len() {
        let e = number_end(s, i, false);
        lemma_number_end_bounds(s, i, false);
        if e > i {
            let t = s.subrange(i, e);
            assert(has_no_point(t)) by {
                assert forall|k: int| 0 <= k < t.len() implies #[trigger] t[k] != '.' by {
                    assert(t[k] == s[i + k]);
                }
            }
            lemma_no_point_means_no_fraction(t);
            if let Some((u, l)) = unit_at(s, e) {
                lemma_whole_sum_scales(s, e + l, scale);
                if let Some(rest) = scaled_sum(s, e + l, 0) {
                    let m = mantissa(t);
                    let p = pow10(scale);
                    assert(pow10(0) == 1);
                    assert(m * u * p + rest * p == (m * u * 1 + rest) * p) by (nonlinear_arith);
                }
            }
        }
    }
}

proof fn lemma_number_end_after_prefix(p: Seq<char>, b: Seq<char>, j: int, seen: bool)
    requires
        0 <= j,
    ensures
        number_end(p + b, p.len() + j, seen) == p.len() + number_end(b, j, seen),
    decreases b.len() - j,
{
    let s = p + b;
    if j < b.len() {
        assert(s[p.len() + j] == b[j]);
        if is_digit(b[j]) || (b[j] == '.' && !seen) {
            lemma_number_end_after_prefix(p, b, j + 1, seen || b[j] == '.');
        }
    }
}

/// The pairs after a prefix sum as they do on their own.
proof fn lemma_sum_after_prefix(p: Seq<char>, b: Seq<char>, j: int, scale: nat)
    requires
        0 <= j,
    ensures
        scaled_sum(p + b, p.len() + j, scale) == scaled_sum(b, j, scale),
    decreases b.len() - j,
{
    let s = p + b;
    if j < b.len() {
        let e = number_end(b, j, false);
        lemma_number_end_bounds(b, j, false);
        lemma_number_end_after_prefix(p, b, j, false);
        assert(s.subrange(p.len() + j, p.len() + e) =~= b.subrange(j, e));
        if e < b.len() {
            assert(s[p.len() + e] == b[e]);
        }
        if e + 1 < b.len() {
            assert(s[p.len() + e + 1] == b[e + 1]);
        }
        assert(unit_at(s, p.len() + e) == unit_at(b, e));
        if let Some((u, l)) = unit_at(b, e) {
            lemma_sum_after_prefix(p, b, e + l, scale);
        }
    }
}

proof fn lemma_number_end_within(a: Seq<char>, b: Seq<char>, i: int, seen: bool)
    requires
        0 <= i,
        number_end(a, i, seen) < a.len(),
    ensures
        number_end(a + b, i, seen) == number_end(a, i, seen),
    decreases a.len() - i,
{
    let s = a + b;
    if i < a.len() {
        assert(s[i] == a[i]);
        if is_digit(a[i]) || (a[i] == '.' && !seen) {
            lemma_number_end_within(a, b, i + 1, seen || a[i] == '.');
        }
    }
}

/// The pairs of `a` from `i` on, followed by `b`, sum to their own sum plus
/// what follows: no pair of `a` runs on into `b`, whose first character is
/// not the `s` of a unit `ms`.
proof fn lemma_sum_before_suffix(a: Seq<char>, b: Seq<char>, i: int, x: nat)
    requires
        0 <= i <= a.len(),
        scaled_sum(a, i, 0) == Some(x),
        b.len() > 0 ==> b[0] != 's',
    ensures
        scaled_sum(a + b, i, 0) == match scaled_sum(a + b, a.len() as int, 0) {
            Some(y) => Some(x + y),
            None => None,
        },
    decreases a.len() - i,
{
    let s = a + b;
    if i >= a.len() {
        assert(x == 0);
    } else {
        let e = number_end(a, i, false);
        lemma_number_end_bounds(a, i, false);
        let t = a.subrange(i, e);
        let (u, l) = unit_at(a, e).unwrap();
        assert(e < a.len());
        lemma_number_end_within(a, b, i, false);
        assert(s.subrange(i, e) =~= t);
        assert(s[e] == a[e]);
        if e + 1 < a.len() {
            assert(s[e + 1] == a[e + 1]);
        } else if b.len() > 0 {
            assert(s[e + 1] == b[0]);
        }
        assert(unit_at(s, e) == unit_at(a, e));
        let rest = scaled_sum(a, e + l, 0).unwrap();
        lemma_sum_before_suffix(a, b, e + l, rest);
    }
}

proof fn lemma_whole_timespec_millis(s: Seq<char>)
    requires
        has_no_point(s),
        s.len() > 0,
        !s.contains(':'),
    ensures
        timespec_millis(s) == match scaled_sum(s, 0, 0) {
            Some(v) => Some(saturate(v)),
            None => None,
        },
{
    lemma_whole_sum_scales(s, 0, s.len());
    if let Some(v) = scaled_sum(s, 0, 0) {
        let p = pow10(s.len());
        crate::digits::lemma_pow10_positive(s.len());
        assert(round_half_up(v * p, p) == v) by (nonlinear_arith)
            requires
                p >= 1,
        {
            assert(p / 2 < p);
        }
    }
}

/// A compound timespec is the sum of its parts: two whole-numbered
/// unit-suffixed timespecs written one after the other (`1h` then `30m10s`)
/// stand for the sum of what each stands for, where that sum fits a `u64`.
pub proof fn lemma_compound_timespec_is_the_sum_of_its_parts(
    a: Seq<char>,
    b: Seq<char>,
    va: nat,
    vb: nat,
)
    requires
        !a.contains(':'),
        !b.contains(':'),
        has_no_point(a),
        has_no_point(b),
        timespec_millis(a) == Some(va),
        timespec_millis(b) == Some(vb),
        va + vb <= u64::MAX,
    ensures
        timespec_millis(a + b) == Some(va + vb),
{
    let s = a + b;
    lemma_plain_concat(a, b);
    lemma_whole_timespec_millis(a);
    lemma_whole_timespec_millis(b);
    lemma_whole_timespec_millis(s);
    let x = scaled_sum(a, 0, 0).unwrap();
    let y = scaled_sum(b, 0, 0).unwrap();
    assert(number_end(b, 0, false) > 0);
    assert(b[0] != 's');
    lemma_sum_before_suffix(a, b, 0, x);
    lemma_sum_after_prefix(a, b, 0, 0);
    assert(a.len() + 0 == a.len());
    assert(scaled_sum(s, 0, 0) == Some(x + y));
}

proof fn lemma_plain_concat(a: Seq<char>, b: Seq<char>)
    requires
        !a.contains(':'),
        !b.contains(':'),
        has_no_point(a),
        has_no_point(b),
    ensures
        !(a + b).contains(':'),
        has_no_point(a + b),
{
    let s = a + b;
    assert(has_no_point(s)) by {
        assert forall|k: int| 0 <= k < s.len() implies #[trigger] s[k] != '.' by {
            if k < a.len() {
                assert(s[k] == a[k]);
            } else {
                assert(s[k] == b[k - a.len()]);
            }
        }
    }
    assert(!s.contains(':')) by {
        if s.contains(':') {
            let k = choose|k: int| 0 <= k < s.len() && s[k] == ':';
            if k < a.len() {
                assert(s[k] == a[k]);
                assert(a.contains(':'));
            } else {
                assert(s[k] == b[k - a.len()]);
                assert(b.contains(':'));
            }
        }
    }
}

/// `zero_padded(r, w)` is a run of digits whose value is `r`.
proof fn lemma_padded_reads_back(r: nat, w: nat)
    ensures
        all_digit_chars(zero_padded(r, w)),
        mantissa(zero_padded(r, w)) == r,
        zero_padded(r, w).len() >= 1,
{
    let d = decimal(r);
    lemma_decimal_reads_back(r);
    if d.len() < w {
        let z = Seq::new((w - d.len()) as nat, |i: int| '0');
        lemma_zeros_read_as_zero(z);
        lemma_mantissa_append_digits(z, d);
        assert(zero_padded(r, w) == z + d);
        assert(all_digit_chars(z + d)) by {
            assert forall|k: int| 0 <= k < (z + d).len() implies is_digit(#[trigger] (z + d)[k]) by {
                if k < z.len() {
                    assert((z + d)[k] == z[k]);
                } else {
                    assert((z + d)[k] == d[k - z.len()]);
                }
            }
        }
    }
}

/// One pair, a whole number of hours, minutes or seconds, reads as that
/// many milliseconds.
proof fn lemma_one_pair_reads_back(t: Seq<char>, u: char, unit: nat)
    requires
        t.len() >= 1,
        all_digit_chars(t),
        (u == 'h' && unit == 3_600_000) || (u == 'm' && unit == 60_000) || (u == 's' && unit
            == 1000),
        mantissa(t) * unit <= u64::MAX,
    ensures
        timespec_millis(t.push(u)) == Some(mantissa(t) * unit),
        has_no_point(t.push(u)),
        !t.push(u).contains(':'),
{
    let s = t.push(u);
    assert(has_no_point(s)) by {
        assert forall|k: int| 0 <= k < s.len() implies #[trigger] s[k] != '.' by {
            if k < t.len() {
                assert(s[k] == t[k]);
                assert(is_digit(t[k]));
            }
        }
    }
    assert(!s.contains(':')) by {
        if s.contains(':') {
            let k = choose|k: int| 0 <= k < s.len() && s[k] == ':';
            if k < t.len() {
                assert(s[k] == t[k]);
                assert(is_digit(t[k]));
            }
        }
    }
    lemma_number_end_skips_digits(s, 0, t.len() as int, false);
    assert(number_end(s, 0, false) == t.len());
    assert(s.subrange(0, t.len() as int) =~= t);
    assert(has_digit(t)) by {
        assert(is_digit(t.last()));
    }
    assert(has_no_point(t)) by {
        assert forall|k: int| 0 <= k < t.len() implies #[trigger] t[k] != '.' by {
            assert(is_digit(t[k]));
        }
    }
    lemma_no_point_means_no_fraction(t);
    assert(unit_at(s, t.len() as int) == Some((unit, 1nat)));
    assert(scaled_sum(s, (t.len() + 1) as int, 0) == Some(0nat));
    assert(pow10(0) == 1);
    assert(fraction_len(s.subrange(0, t.len() as int)) == 0);
    assert(mantissa(t) * unit * pow10(0) == mantissa(t) * unit);
    assert(scaled_sum(s, 0, 0) == Some(mantissa(t) * unit * pow10((0 - fraction_len(t)) as nat)
        + 0));
    assert(scaled_sum(s, 0, 0) == Some(mantissa(t) * unit));
    lemma_whole_timespec_millis(s);
}

proof fn lemma_hours_minutes_seconds(secs: nat)
    ensures
        (secs / 3600) * 3_600_000 + ((secs % 3600) / 60) * 60_000 + (secs % 60) * 1000 == secs
            * 1000,
{
    let h = secs / 3600;
    let r = secs % 3600;
    assert(secs == h * 3600 + r);
    assert(r == (r / 60) * 60 + r % 60);
    assert(r % 60 == secs % 60) by {
        assert(secs == h * 60 * 60 + r) by (nonlinear_arith)
            requires
                secs == h * 3600 + r,
        ;
        vstd::arithmetic::div_mod::lemma_mod_mod(secs as int, 60, 60);
        vstd::arithmetic::div_mod::lemma_mod_multiples_vanish((h * 60) as int, r as int, 60);
    }
    assert(h * 3_600_000 + (r / 60) * 60_000 + (r % 60) * 1000 == (h * 3600 + (r / 60) * 60
        + r % 60) * 1000) by (nonlinear_arith);
}

/// The status line's time (`7s`, `1m05s`, `1h01m01s`) is itself a timespec,
/// standing for the same whole seconds.
pub proof fn lemma_status_time_reads_back(secs: nat)
    requires
        secs * 1000 <= u64::MAX,
    ensures
        timespec_millis(crate::terminal::status_duration_text(secs)) == Some(secs * 1000),
{
    let h = secs / 3600;
    let m = (secs % 3600) / 60;
    let sec = secs % 60;
    let hs = decimal(h);
    let ms = zero_padded(m, 2);
    let ss_pad = zero_padded(sec, 2);
    let ss = decimal(sec);
    lemma_decimal_reads_back(h);
    lemma_padded_reads_back(m, 2);
    lemma_padded_reads_back(sec, 2);
    lemma_decimal_reads_back(sec);
    lemma_decimal_reads_back(m);
    lemma_hours_minutes_seconds(secs);
    assert(h * 3_600_000 + m * 60_000 + sec * 1000 == secs * 1000);
    if h > 0 {
        let a = hs.push('h');
        let b = ms.push('m');
        let c = ss_pad.push('s');
        lemma_one_pair_reads_back(hs, 'h', 3_600_000);
        lemma_one_pair_reads_back(ms, 'm', 60_000);
        lemma_one_pair_reads_back(ss_pad, 's', 1000);
        lemma_compound_timespec_is_the_sum_of_its_parts(b, c, m * 60_000, sec * 1000);
        lemma_plain_concat(b, c);
        lemma_compound_timespec_is_the_sum_of_its_parts(a, b + c, h * 3_600_000, m * 60_000
            + sec * 1000);
        assert(crate::terminal::status_duration_text(secs) =~= a + (b + c));
    } else if m > 0 {
        let b = decimal(m).push('m');
        let c = ss_pad.push('s');
        lemma_one_pair_reads_back(decimal(m), 'm', 60_000);
        lemma_one_pair_reads_back(ss_pad, 's', 1000);
        lemma_compound_timespec_is_the_sum_of_its_parts(b, c, m * 60_000, sec * 1000);
        assert(crate::terminal::status_duration_text(secs) =~= b + c);
    } else {
        lemma_one_pair_reads_back(ss, 's', 1000);
        assert(crate::terminal::status_duration_text(secs) =~= ss.push('s'));
    }
}

} // verus!
