//! Calendar model: UTC dates and instants as plain fields, their ASCII
//! renderings (`YYYY-MM-DD` and `YYYY-MM-DDTHH:MM:SSZ`), and the proof that
//! distinct dates render to distinct byte strings.

use vstd::prelude::*;

verus! {

/// A calendar date in UTC, the rotation key of the output file.
#[derive(Clone, Copy, Debug, PartialEq, Eq, Structural)]
pub struct UtcDate {
    pub year: u16,
    pub month: u8,
    pub day: u8,
}

impl UtcDate {
    /// Field ranges that the renderings below rely on; no calendar
    /// plausibility beyond them is needed by any caller.
    pub open spec fn wf(self) -> bool {
        &&& 1 <= self.year <= 9999
        &&& 1 <= self.month <= 12
        &&& 1 <= self.day <= 31
    }
}

/// A second-precision instant in UTC: the capture time of one snapshot.
#[derive(Clone, Copy, Debug, PartialEq, Eq, Structural)]
pub struct UtcInstant {
    pub date: UtcDate,
    pub hour: u8,
    pub minute: u8,
    pub second: u8,
}

impl UtcInstant {
    pub open spec fn wf(self) -> bool {
        &&& self.date.wf()
        &&& self.hour <= 23
        &&& self.minute <= 59
        &&& self.second <= 59
    }
}

/// The ASCII digit for `n`'s last decimal digit.
pub open spec fn digit(n: int) -> u8 {
    (48 + n % 10) as u8
}

/// `n` as two ASCII digits, zero padded; meaningful for `0 <= n < 100`.
pub open spec fn dec2(n: int) -> Seq<u8> {
    seq![digit(n / 10), digit(n)]
}

/// `n` as four ASCII digits, zero padded; meaningful for `0 <= n < 10000`.
pub open spec fn dec4(n: int) -> Seq<u8> {
    seq![digit(n / 1000), digit(n / 100), digit(n / 10), digit(n)]
}

/// `YYYY-MM-DD`.
pub open spec fn date_bytes(d: UtcDate) -> Seq<u8> {
    dec4(d.year as int) + seq![45u8] + dec2(d.month as int) + seq![45u8] + dec2(d.day as int)
}

/// `YYYY-MM-DDTHH:MM:SSZ`.
pub open spec fn instant_bytes(t: UtcInstant) -> Seq<u8> {
    date_bytes(t.date) + seq![84u8] + dec2(t.hour as int) + seq![58u8] + dec2(
        t.minute as int,
    ) + seq![58u8] + dec2(t.second as int) + seq![90u8]
}

/// Appends `n` zero padded to two digits.
pub fn push_dec2(out: &mut Vec<u8>, n: u8)
    requires
        n < 100,
    ensures
        final(out)@ == old(out)@ + dec2(n as int),
{
    out.push(48 + n / 10);
    out.push(48 + n % 10);
    proof {
        assert(final(out)@ =~= old(out)@ + dec2(n as int));
    }
}

/// Appends `n` zero padded to four digits.
pub fn push_dec4(out: &mut Vec<u8>, n: u16)
    requires
        n < 10000,
    ensures
        final(out)@ == old(out)@ + dec4(n as int),
{
    out.push(48 + (n / 1000) as u8);
    out.push(48 + ((n / 100) % 10) as u8);
    out.push(48 + ((n / 10) % 10) as u8);
    out.push(48 + (n % 10) as u8);
    proof {
        assert(final(out)@ =~= old(out)@ + dec4(n as int));
    }
}

/// Appends `YYYY-MM-DD` for `d`.
pub fn push_date_bytes(out: &mut Vec<u8>, d: &UtcDate)
    requires
        d.wf(),
    ensures
        final(out)@ == old(out)@ + date_bytes(*d),
{
    push_dec4(out, d.year);
    out.push(45);
    push_dec2(out, d.month);
    out.push(45);
    push_dec2(out, d.day);
    proof {
        assert(final(out)@ =~= old(out)@ + date_bytes(*d));
    }
}

/// Appends `YYYY-MM-DDTHH:MM:SSZ` for `t`.
pub fn push_instant_bytes(out: &mut Vec<u8>, t: &UtcInstant)
    requires
        t.wf(),
    ensures
        final(out)@ == old(out)@ + instant_bytes(*t),
{
    push_date_bytes(out, &t.date);
    out.push(84);
    push_dec2(out, t.hour);
    out.push(58);
    push_dec2(out, t.minute);
    out.push(58);
    push_dec2(out, t.second);
    out.push(90);
    proof {
        assert(final(out)@ =~= old(out)@ + instant_bytes(*t));
    }
}

proof fn lemma_digit_injective_small(a: int, b: int)
    requires
        0 <= a < 10,
        0 <= b < 10,
        digit(a) == digit(b),
    ensures
        a == b,
{
}

proof fn lemma_dec2_injective(a: int, b: int)
    requires
        0 <= a < 100,
        0 <= b < 100,
        dec2(a) == dec2(b),
    ensures
        a == b,
{
    assert(digit(a / 10) == digit(b / 10));
    assert(digit(a) == digit(b));
    lemma_digit_injective_small(a / 10, b / 10);
    lemma_digit_injective_small(a % 10, b % 10);
}

proof fn lemma_recompose_decimal(x: int)
    requires
        0 <= x < 10000,
    ensures
        x == 1000 * (x / 1000) + 100 * ((x / 100) % 10) + 10 * ((x / 10) % 10) + x % 10,
{
    vstd::arithmetic::div_mod::lemma_fundamental_div_mod(x, 10);
    vstd::arithmetic::div_mod::lemma_fundamental_div_mod(x / 10, 10);
    vstd::arithmetic::div_mod::lemma_fundamental_div_mod(x / 100, 10);
    vstd::arithmetic::div_mod::lemma_div_denominator(x, 10, 10);
    vstd::arithmetic::div_mod::lemma_div_denominator(x, 100, 10);
    vstd::arithmetic::div_mod::lemma_div_denominator(x / 10, 10, 10);
}

proof fn lemma_dec4_injective(a: int, b: int)
    requires
        0 <= a < 10000,
        0 <= b < 10000,
        dec4(a) == dec4(b),
    ensures
        a == b,
{
    assert(digit(a / 1000) == digit(b / 1000));
    assert(digit(a / 100) == digit(b / 100));
    assert(digit(a / 10) == digit(b / 10));
    assert(digit(a) == digit(b));
    lemma_digit_injective_small((a / 1000) % 10, (b / 1000) % 10);
    lemma_digit_injective_small((a / 100) % 10, (b / 100) % 10);
    lemma_digit_injective_small((a / 10) % 10, (b / 10) % 10);
    lemma_digit_injective_small(a % 10, b % 10);
    assert(a / 1000 == (a / 1000) % 10);
    assert(b / 1000 == (b / 1000) % 10);
    lemma_recompose_decimal(a);
    lemma_recompose_decimal(b);
}

/// Distinct well-formed dates never render to the same byte string, so a
/// file name carries its rotation key faithfully.
pub proof fn lemma_date_bytes_injective(d1: UtcDate, d2: UtcDate)
    requires
        d1.wf(),
        d2.wf(),
        date_bytes(d1) == date_bytes(d2),
    ensures
        d1 == d2,
{
    let s1 = date_bytes(d1);
    let s2 = date_bytes(d2);
    assert(dec4(d1.year as int) =~= s1.subrange(0, 4));
    assert(dec4(d2.year as int) =~= s2.subrange(0, 4));
    assert(dec2(d1.month as int) =~= s1.subrange(5, 7));
    assert(dec2(d2.month as int) =~= s2.subrange(5, 7));
    assert(dec2(d1.day as int) =~= s1.subrange(8, 10));
    assert(dec2(d2.day as int) =~= s2.subrange(8, 10));
    lemma_dec4_injective(d1.year as int, d2.year as int);
    lemma_dec2_injective(d1.month as int, d2.month as int);
    lemma_dec2_injective(d1.day as int, d2.day as int);
}

/// Distinct well-formed instants never render to the same byte string:
/// the timestamp of a serialized snapshot carries the capture time
/// faithfully.
#[verifier::rlimit(100)]
pub proof fn lemma_instant_bytes_injective(t1: UtcInstant, t2: UtcInstant)
    requires
        t1.wf(),
        t2.wf(),
        instant_bytes(t1) == instant_bytes(t2),
    ensures
        t1 == t2,
{
    let s1 = instant_bytes(t1);
    let s2 = instant_bytes(t2);
    assert(date_bytes(t1.date) =~= s1.subrange(0, 10));
    assert(date_bytes(t2.date) =~= s2.subrange(0, 10));
    assert(dec2(t1.hour as int) =~= s1.subrange(11, 13));
    assert(dec2(t2.hour as int) =~= s2.subrange(11, 13));
    assert(dec2(t1.minute as int) =~= s1.subrange(14, 16));
    assert(dec2(t2.minute as int) =~= s2.subrange(14, 16));
    assert(dec2(t1.second as int) =~= s1.subrange(17, 19));
    assert(dec2(t2.second as int) =~= s2.subrange(17, 19));
    lemma_date_bytes_injective(t1.date, t2.date);
    lemma_dec2_injective(t1.hour as int, t2.hour as int);
    lemma_dec2_injective(t1.minute as int, t2.minute as int);
    lemma_dec2_injective(t1.second as int, t2.second as int);
}

/// Relies on chrono::DateTime::from_timestamp and chrono's
/// Datelike/Timelike accessors (year, month, day, hour, minute, second),
/// over the raw clock from std's SystemTime: chrono documents month as
/// 1..=12, day as 1..=31, hour as 0..=23, minute and second as 0..=59
/// (leap seconds are carried by the nanosecond field). Nothing is claimed
/// of the year. `None` when the clock reads before the epoch or past
/// chrono's range; no branch panics.
#[verifier::external_body]
fn utc_now_parts() -> (r: Option<(i32, u32, u32, u32, u32, u32)>)
    ensures
        r matches Some(p) ==> 1 <= p.1 <= 12 && 1 <= p.2 <= 31 && p.3 <= 23 && p.4 <= 59 && p.5
            <= 59,
{
    let dur = std::time::SystemTime::now().duration_since(std::time::UNIX_EPOCH).ok()?;
    let t = chrono::DateTime::<chrono::Utc>::from_timestamp(dur.as_secs() as i64, 0)?;
    Some((
        chrono::Datelike::year(&t),
        chrono::Datelike::month(&t),
        chrono::Datelike::day(&t),
        chrono::Timelike::hour(&t),
        chrono::Timelike::minute(&t),
        chrono::Timelike::second(&t),
    ))
}

/// Assembles clock parts into an instant: `Some` exactly when every part
/// is in range — in particular, only years this library can render are
/// accepted — and the fields are taken over unchanged.
pub fn instant_from_parts(y: i32, mo: u32, d: u32, h: u32, mi: u32, s: u32) -> (r: Option<
    UtcInstant,
>)
    ensures
        r is Some <==> (1 <= y <= 9999 && 1 <= mo <= 12 && 1 <= d <= 31 && h <= 23 && mi <= 59
            && s <= 59),
        r matches Some(t) ==> t == (UtcInstant {
            date: UtcDate { year: y as u16, month: mo as u8, day: d as u8 },
            hour: h as u8,
            minute: mi as u8,
            second: s as u8,
        }),
        r matches Some(t) ==> t.wf(),
{
    if 1 <= y && y <= 9999 && 1 <= mo && mo <= 12 && 1 <= d && d <= 31 && h <= 23 && mi <= 59
        && s <= 59 {
        Some(
            UtcInstant {
                date: UtcDate { year: y as u16, month: mo as u8, day: d as u8 },
                hour: h as u8,
                minute: mi as u8,
                second: s as u8,
            },
        )
    } else {
        None
    }
}

/// Reads the wall clock and returns it as a well-formed instant; `None`
/// when the clock cannot be read or its year falls outside the
/// four-digit range this library can render.
pub fn now_instant() -> (r: Option<UtcInstant>)
    ensures
        r matches Some(t) ==> t.wf(),
{
    match utc_now_parts() {
        None => None,
        Some((y, mo, d, h, mi, s)) => instant_from_parts(y, mo, d, h, mi, s),
    }
}

} // verus!
