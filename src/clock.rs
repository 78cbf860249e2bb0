use vstd::prelude::*;

use crate::text::{pad2, pad4, push_pad2, push_pad4};

verus! {

/// A wall-clock instant, to the second, with the offset of its clock from
/// UTC in minutes (east positive).
#[derive(Clone, Copy, Debug, PartialEq, Eq, Structural)]
pub struct DateTime {
    pub year: u16,
    pub month: u8,
    pub day: u8,
    pub hour: u8,
    pub minute: u8,
    pub second: u8,
    pub offset_minutes: i16,
}

impl DateTime {
    /// Every field lies in its calendar range; the year has at most four digits.
    pub open spec fn wf(self) -> bool {
        &&& self.year <= 9999
        &&& 1 <= self.month <= 12
        &&& 1 <= self.day <= 31
        &&& self.hour < 24
        &&& self.minute < 60
        &&& self.second < 60
        &&& -1439 <= self.offset_minutes <= 1439
    }

    pub fn is_valid(&self) -> (r: bool)
        ensures
            r == self.wf(),
    {
        self.year <= 9999 && 1 <= self.month && self.month <= 12 && 1 <= self.day && self.day
            <= 31 && self.hour < 24 && self.minute < 60 && self.second < 60 && -1439
            <= self.offset_minutes && self.offset_minutes <= 1439
    }
}

/// The instant as `YYYY-MM-DD HH:MM:SS`.
pub open spec fn timestamp_text(t: DateTime) -> Seq<char> {
    pad4(t.year as nat) + seq!['-'] + pad2(t.month as nat) + seq!['-'] + pad2(t.day as nat)
        + seq![' '] + pad2(t.hour as nat) + seq![':'] + pad2(t.minute as nat) + seq![':'] + pad2(
        t.second as nat,
    )
}

/// Appends `timestamp_text(*t)`.
pub fn push_timestamp(s: &mut String, t: &DateTime)
    requires
        t.wf(),
    ensures
        final(s)@ == old(s)@ + timestamp_text(*t),
{
    push_pad4(s, t.year);
    s.push('-');
    push_pad2(s, t.month);
    s.push('-');
    push_pad2(s, t.day);
    s.push(' ');
    push_pad2(s, t.hour);
    s.push(':');
    push_pad2(s, t.minute);
    s.push(':');
    push_pad2(s, t.second);
}

/// The offset as `+HH:MM` or `-HH:MM`.
pub open spec fn offset_text(offset_minutes: int) -> Seq<char> {
    let sign = if offset_minutes < 0 {
        '-'
    } else {
        '+'
    };
    let size = if offset_minutes < 0 {
        -offset_minutes
    } else {
        offset_minutes
    };
    seq![sign] + pad2((size / 60) as nat) + seq![':'] + pad2((size % 60) as nat)
}

/// The instant in RFC 3339 form: `YYYY-MM-DDTHH:MM:SS` and the offset.
pub open spec fn rfc3339_text(t: DateTime) -> Seq<char> {
    pad4(t.year as nat) + seq!['-'] + pad2(t.month as nat) + seq!['-'] + pad2(t.day as nat)
        + seq!['T'] + pad2(t.hour as nat) + seq![':'] + pad2(t.minute as nat) + seq![':'] + pad2(
        t.second as nat,
    ) + offset_text(t.offset_minutes as int)
}

/// Appends `rfc3339_text(*t)`.
pub fn push_rfc3339(s: &mut String, t: &DateTime)
    requires
        t.wf(),
    ensures
        final(s)@ == old(s)@ + rfc3339_text(*t),
{
    push_pad4(s, t.year);
    s.push('-');
    push_pad2(s, t.month);
    s.push('-');
    push_pad2(s, t.day);
    s.push('T');
    push_pad2(s, t.hour);
    s.push(':');
    push_pad2(s, t.minute);
    s.push(':');
    push_pad2(s, t.second);
    push_offset(s, t.offset_minutes);
}

/// Appends `offset_text(offset_minutes)`.
pub fn push_offset(s: &mut String, offset_minutes: i16)
    requires
        -1439 <= offset_minutes <= 1439,
    ensures
        final(s)@ == old(s)@ + offset_text(offset_minutes as int),
{
    let size: u16 = if offset_minutes < 0 {
        s.push('-');
        (-offset_minutes) as u16
    } else {
        s.push('+');
        offset_minutes as u16
    };
    assert(size / 60 < 100);
    push_pad2(s, (size / 60) as u8);
    s.push(':');
    push_pad2(s, (size % 60) as u8);
}

} // verus!
