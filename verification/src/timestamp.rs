//! Calendar timestamps as plain fields, and their compact rendering
//! `YYYYMMDDHHMMSS.mmmZ` used inside storage keys.

use vstd::prelude::*;
use chrono::Datelike;
use chrono::Timelike;
use crate::numfmt::{
    lemma_padded_digits_injective, lemma_padded_digits_len, padded_digits, pow10, push_padded_u64,
};
use crate::text::chars_to_string;

verus! {

/// One instant of UTC time, millisecond precision, as plain calendar fields.
pub struct Timestamp {
    pub year: u32,
    pub month: u32,
    pub day: u32,
    pub hour: u32,
    pub minute: u32,
    pub second: u32,
    pub millisecond: u32,
}

impl Timestamp {
    /// The fields lie in the ranges of a calendar date and a time of day,
    /// with a four-digit year.
    pub open spec fn wf(self) -> bool {
        &&& self.year <= 9999
        &&& 1 <= self.month <= 12
        &&& 1 <= self.day <= 31
        &&& self.hour <= 23
        &&& self.minute <= 59
        &&& self.second <= 59
        &&& self.millisecond <= 999
    }

    /// The compact rendering: zero-padded year, month, day, hour, minute and
    /// second, then a dot, the zero-padded milliseconds and a literal `Z`.
    pub open spec fn compact_view(self) -> Seq<char> {
        padded_digits(self.year as nat, 4) + padded_digits(self.month as nat, 2) + padded_digits(
            self.day as nat,
            2,
        ) + padded_digits(self.hour as nat, 2) + padded_digits(self.minute as nat, 2)
            + padded_digits(self.second as nat, 2) + seq!['.'] + padded_digits(
            self.millisecond as nat,
            3,
        ) + seq!['Z']
    }

    /// Build a timestamp, rejecting any field outside its calendar range.
    pub fn new(year: u32, month: u32, day: u32, hour: u32, minute: u32, second: u32, millisecond: u32) -> (r: Option<Timestamp>)
        ensures
            r matches Some(t) ==> t == (Timestamp { year, month, day, hour, minute, second, millisecond }) && t.wf(),
            r is None <==> !(Timestamp { year, month, day, hour, minute, second, millisecond }).wf(),
    {
        if year <= 9999 && 1 <= month && month <= 12 && 1 <= day && day <= 31 && hour <= 23
            && minute <= 59 && second <= 59 && millisecond <= 999 {
            Some(Timestamp { year, month, day, hour, minute, second, millisecond })
        } else {
            None
        }
    }

    /// Append the compact rendering of this timestamp to `out`.
    pub fn push_compact(&self, out: &mut Vec<char>)
        ensures
            final(out)@ == old(out)@ + self.compact_view(),
    {
        push_padded_u64(out, self.year as u64, 4);
        push_padded_u64(out, self.month as u64, 2);
        push_padded_u64(out, self.day as u64, 2);
        push_padded_u64(out, self.hour as u64, 2);
        push_padded_u64(out, self.minute as u64, 2);
        push_padded_u64(out, self.second as u64, 2);
        out.push('.');
        push_padded_u64(out, self.millisecond as u64, 3);
        out.push('Z');
        proof {
            assert(final(out)@ =~= old(out)@ + self.compact_view());
        }
    }

    /// The compact rendering as a string.
    pub fn format_compact(&self) -> (r: String)
        ensures
            r@ == self.compact_view(),
    {
        let mut out: Vec<char> = Vec::new();
        self.push_compact(&mut out);
        chars_to_string(&out)
    }
}

/// The compact rendering always has exactly nineteen characters.
pub proof fn lemma_compact_len(t: Timestamp)
    ensures
        t.compact_view().len() == 19,
{
    lemma_padded_digits_len(t.year as nat, 4);
    lemma_padded_digits_len(t.month as nat, 2);
    lemma_padded_digits_len(t.day as nat, 2);
    lemma_padded_digits_len(t.hour as nat, 2);
    lemma_padded_digits_len(t.minute as nat, 2);
    lemma_padded_digits_len(t.second as nat, 2);
    lemma_padded_digits_len(t.millisecond as nat, 3);
}

/// Within the calendar ranges, the compact rendering is injective: two
/// well-formed timestamps with the same rendering are the same instant, so
/// the rendering loses nothing but sub-millisecond precision.
pub proof fn lemma_compact_injective(t1: Timestamp, t2: Timestamp)
    requires
        t1.wf(),
        t2.wf(),
        t1.compact_view() == t2.compact_view(),
    ensures
        t1 == t2,
{
    let c = t1.compact_view();
    lemma_compact_parts(t1);
    lemma_compact_parts(t2);
    assert(pow10(0) == 1);
    assert(pow10(1) == 10);
    assert(pow10(2) == 100);
    assert(pow10(3) == 1000);
    assert(pow10(4) == 10000);
    lemma_padded_digits_injective(t1.year as nat, t2.year as nat, 4);
    lemma_padded_digits_injective(t1.month as nat, t2.month as nat, 2);
    lemma_padded_digits_injective(t1.day as nat, t2.day as nat, 2);
    lemma_padded_digits_injective(t1.hour as nat, t2.hour as nat, 2);
    lemma_padded_digits_injective(t1.minute as nat, t2.minute as nat, 2);
    lemma_padded_digits_injective(t1.second as nat, t2.second as nat, 2);
    lemma_padded_digits_injective(t1.millisecond as nat, t2.millisecond as nat, 3);
}

/// Each field's digits stand at a fixed place of the compact rendering.
proof fn lemma_compact_parts(t: Timestamp)
    ensures
        padded_digits(t.year as nat, 4) == t.compact_view().subrange(0, 4),
        padded_digits(t.month as nat, 2) == t.compact_view().subrange(4, 6),
        padded_digits(t.day as nat, 2) == t.compact_view().subrange(6, 8),
        padded_digits(t.hour as nat, 2) == t.compact_view().subrange(8, 10),
        padded_digits(t.minute as nat, 2) == t.compact_view().subrange(10, 12),
        padded_digits(t.second as nat, 2) == t.compact_view().subrange(12, 14),
        padded_digits(t.millisecond as nat, 3) == t.compact_view().subrange(15, 18),
{
    lemma_padded_digits_len(t.year as nat, 4);
    lemma_padded_digits_len(t.month as nat, 2);
    lemma_padded_digits_len(t.day as nat, 2);
    lemma_padded_digits_len(t.hour as nat, 2);
    lemma_padded_digits_len(t.minute as nat, 2);
    lemma_padded_digits_len(t.second as nat, 2);
    lemma_padded_digits_len(t.millisecond as nat, 3);
    assert(padded_digits(t.year as nat, 4) =~= t.compact_view().subrange(0, 4));
    assert(padded_digits(t.month as nat, 2) =~= t.compact_view().subrange(4, 6));
    assert(padded_digits(t.day as nat, 2) =~= t.compact_view().subrange(6, 8));
    assert(padded_digits(t.hour as nat, 2) =~= t.compact_view().subrange(8, 10));
    assert(padded_digits(t.minute as nat, 2) =~= t.compact_view().subrange(10, 12));
    assert(padded_digits(t.second as nat, 2) =~= t.compact_view().subrange(12, 14));
    assert(padded_digits(t.millisecond as nat, 3) =~= t.compact_view().subrange(15, 18));
}

/// Relies on std's `SystemTime::now` and `duration_since`, and on chrono's
/// checked `DateTime::from_timestamp` with the `Datelike` and `Timelike`
/// accessors: the current UTC instant broken into calendar fields, or `None`
/// where the host clock stands before the Unix epoch or outside chrono's
/// representable range (every step is checked; nothing panics). chrono
/// documents month as 1..=12, day as 1..=31, hour as 0..=23, minute and
/// second as 0..=59, and `timestamp_subsec_millis` as 0..=1999 (values above
/// 999 only while a leap second is inserted).
#[verifier::external_body]
fn utc_now_fields() -> (r: Option<(i32, u32, u32, u32, u32, u32, u32)>)
    ensures
        r matches Some(f) ==> 1 <= f.1 <= 12 && 1 <= f.2 <= 31 && f.3 <= 23 && f.4 <= 59 && f.5
            <= 59 && f.6 <= 1999,
{
    let since_epoch =
        std::time::SystemTime::now().duration_since(std::time::UNIX_EPOCH).ok()?;
    let secs = i64::try_from(since_epoch.as_secs()).ok()?;
    let t = chrono::DateTime::<chrono::Utc>::from_timestamp(secs, since_epoch.subsec_nanos())?;
    Some((t.year(), t.month(), t.day(), t.hour(), t.minute(), t.second(),
        t.timestamp_subsec_millis()))
}

/// The current UTC time, where the clock is readable and the instant fits
/// the calendar ranges of `Timestamp` (a four-digit year and no leap-second
/// millisecond overflow).
pub fn now_timestamp() -> (r: Option<Timestamp>)
    ensures
        r matches Some(t) ==> t.wf(),
{
    match utc_now_fields() {
        Some((year, month, day, hour, minute, second, millisecond)) => {
            if 0 <= year && year <= 9999 && millisecond <= 999 {
                Timestamp::new(year as u32, month, day, hour, minute, second, millisecond)
            } else {
                None
            }
        },
        None => None,
    }
}

} // verus!
