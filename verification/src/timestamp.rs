//! The capture time that a recording's file name carries.

use vstd::prelude::*;
use vstd::string::StrSliceExecFns;
use crate::error::ArchiveError;
use crate::text::{all_digits, ends_with, four_digits, number_at, number_of, two_digits};
use crate::text::{lemma_number_of_four, lemma_number_of_two};
use crate::text::{lemma_four_digits_round_trip, lemma_two_digits_round_trip};

verus! {

/// The six numbers of a date and time of day.
#[derive(Clone, Copy, Debug, PartialEq, Eq, Structural)]
pub struct CalendarFields {
    pub year: i32,
    pub month: u32,
    pub day: u32,
    pub hour: u32,
    pub minute: u32,
    pub second: u32,
}

impl CalendarFields {
    /// Whether each number lies in the range of its field, the year within
    /// four digits.
    pub open spec fn in_range(self) -> bool {
        &&& 0 <= self.year <= 9999
        &&& 1 <= self.month <= 12
        &&& 1 <= self.day <= 31
        &&& self.hour < 24
        &&& self.minute < 60
        &&& self.second < 60
    }
}

/// The text `YYYY-MM-DD_HH-MM-SS` of the six numbers.
pub open spec fn stamp_text(f: CalendarFields) -> Seq<char> {
    four_digits(f.year as nat) + seq!['-'] + two_digits(f.month as nat) + seq!['-'] + two_digits(
        f.day as nat,
    ) + seq!['_'] + two_digits(f.hour as nat) + seq!['-'] + two_digits(f.minute as nat) + seq!['-']
        + two_digits(f.second as nat)
}

/// Whether `s` is nineteen characters in the shape `dddd-dd-dd_dd-dd-dd`.
pub open spec fn has_stamp_shape(s: Seq<char>) -> bool {
    &&& s.len() == 19
    &&& all_digits(s.subrange(0, 4))
    &&& s[4] == '-'
    &&& all_digits(s.subrange(5, 7))
    &&& s[7] == '-'
    &&& all_digits(s.subrange(8, 10))
    &&& s[10] == '_'
    &&& all_digits(s.subrange(11, 13))
    &&& s[13] == '-'
    &&& all_digits(s.subrange(14, 16))
    &&& s[16] == '-'
    &&& all_digits(s.subrange(17, 19))
}

/// The six numbers written in a text of that shape.
pub open spec fn stamp_fields(s: Seq<char>) -> CalendarFields {
    CalendarFields {
        year: number_of(s.subrange(0, 4)) as i32,
        month: number_of(s.subrange(5, 7)) as u32,
        day: number_of(s.subrange(8, 10)) as u32,
        hour: number_of(s.subrange(11, 13)) as u32,
        minute: number_of(s.subrange(14, 16)) as u32,
        second: number_of(s.subrange(17, 19)) as u32,
    }
}

/// A text of the shape is the text of the numbers written in it.
pub proof fn lemma_stamp_text_of_fields(s: Seq<char>)
    requires
        has_stamp_shape(s),
    ensures
        stamp_text(stamp_fields(s)) == s,
        0 <= stamp_fields(s).year <= 9999,
        stamp_fields(s).month < 100,
        stamp_fields(s).day < 100,
        stamp_fields(s).hour < 100,
        stamp_fields(s).minute < 100,
        stamp_fields(s).second < 100,
{
    lemma_number_of_four(s.subrange(0, 4));
    lemma_number_of_two(s.subrange(5, 7));
    lemma_number_of_two(s.subrange(8, 10));
    lemma_number_of_two(s.subrange(11, 13));
    lemma_number_of_two(s.subrange(14, 16));
    lemma_number_of_two(s.subrange(17, 19));
    assert(stamp_text(stamp_fields(s)) =~= s);
}

/// The text of six numbers in range has the shape, and the numbers
/// written in it are those six.
pub proof fn lemma_stamp_fields_of_text(f: CalendarFields)
    requires
        f.in_range(),
    ensures
        has_stamp_shape(stamp_text(f)),
        stamp_fields(stamp_text(f)) == f,
{
    let s = stamp_text(f);
    lemma_four_digits_round_trip(f.year as nat);
    lemma_two_digits_round_trip(f.month as nat);
    lemma_two_digits_round_trip(f.day as nat);
    lemma_two_digits_round_trip(f.hour as nat);
    lemma_two_digits_round_trip(f.minute as nat);
    lemma_two_digits_round_trip(f.second as nat);
    assert(s.subrange(0, 4) =~= four_digits(f.year as nat));
    assert(s.subrange(5, 7) =~= two_digits(f.month as nat));
    assert(s.subrange(8, 10) =~= two_digits(f.day as nat));
    assert(s.subrange(11, 13) =~= two_digits(f.hour as nat));
    assert(s.subrange(14, 16) =~= two_digits(f.minute as nat));
    assert(s.subrange(17, 19) =~= two_digits(f.second as nat));
}

/// Reads the six numbers of a text, if it has the shape
/// `dddd-dd-dd_dd-dd-dd`.
pub fn read_stamp(s: &str) -> (r: Option<CalendarFields>)
    ensures
        r is Some <==> has_stamp_shape(s@),
        r matches Some(f) ==> f == stamp_fields(s@),
{
    if s.unicode_len() != 19 {
        return None;
    }
    if s.get_char(4) != '-' || s.get_char(7) != '-' || s.get_char(10) != '_' || s.get_char(13)
        != '-' || s.get_char(16) != '-' {
        return None;
    }
    let year = match number_at(s, 0, 4) {
        Some(v) => v,
        None => { return None; },
    };
    let month = match number_at(s, 5, 2) {
        Some(v) => v,
        None => { return None; },
    };
    let day = match number_at(s, 8, 2) {
        Some(v) => v,
        None => { return None; },
    };
    let hour = match number_at(s, 11, 2) {
        Some(v) => v,
        None => { return None; },
    };
    let minute = match number_at(s, 14, 2) {
        Some(v) => v,
        None => { return None; },
    };
    let second = match number_at(s, 17, 2) {
        Some(v) => v,
        None => { return None; },
    };
    proof {
        lemma_stamp_text_of_fields(s@);
    }
    Some(CalendarFields { year: year as i32, month, day, hour, minute, second })
}

/// The ending of the file names that are accepted.
pub open spec fn accepted_suffix() -> Seq<char> {
    seq!['.', 'm', 'p', '4']
}

/// The pattern of the part of a file name before the ending.
pub const STAMP_FORMAT: &'static str = "%Y-%m-%d_%H-%M-%S";

/// chrono's `ParseError`, the error of `NaiveDateTime::parse_from_str`.
/// Nothing of what it holds is read.
#[verifier::external_type_specification]
#[verifier::external_body]
pub struct ExParseError(chrono::ParseError);

/// What chrono's `NaiveDateTime::parse_from_str` makes of `text` under
/// `format`: the six numbers of the date and time it returns, or `None`
/// where it returns an error.
pub uninterp spec fn chrono_datetime(text: Seq<char>, format: Seq<char>) -> Option<CalendarFields>;

/// Calls chrono's `NaiveDateTime::parse_from_str` and reads the year, month,
/// day, hour, minute and second of what it returns. Nothing is claimed of
/// the result but that it depends on the two texts alone.
#[verifier::external_body]
fn parse_datetime(text: &str, format: &str) -> (parsed: Result<CalendarFields, chrono::ParseError>)
    ensures
        chrono_datetime(text@, format@) == match parsed {
            Ok(f) => Some(f),
            Err(_) => None,
        },
{
    match chrono::NaiveDateTime::parse_from_str(text, format) {
        Ok(t) => Ok(CalendarFields {
            year: chrono::Datelike::year(&t),
            month: chrono::Datelike::month(&t),
            day: chrono::Datelike::day(&t),
            hour: chrono::Timelike::hour(&t),
            minute: chrono::Timelike::minute(&t),
            second: chrono::Timelike::second(&t),
        }),
        Err(e) => Err(e),
    }
}

/// The capture time of a recording, to the second.
#[derive(Clone, Copy, Debug, PartialEq, Eq)]
pub struct CaptureTimestamp {
    fields: CalendarFields,
}

impl View for CaptureTimestamp {
    type V = CalendarFields;

    closed spec fn view(&self) -> CalendarFields {
        self.fields
    }
}

impl CaptureTimestamp {
    #[verifier::type_invariant]
    spec fn well_formed(self) -> bool {
        self.fields.in_range()
    }

    /// The six numbers of this capture time.
    pub fn fields(&self) -> (f: CalendarFields)
        ensures
            f == self@,
            f.in_range(),
    {
        proof {
            use_type_invariant(self);
        }
        self.fields
    }

    /// The year, within four digits.
    pub fn year(&self) -> (r: i32)
        ensures
            r == self@.year,
            0 <= r <= 9999,
    {
        self.fields().year
    }

    /// The month, from 1 to 12.
    pub fn month(&self) -> (r: u32)
        ensures
            r == self@.month,
            1 <= r <= 12,
    {
        self.fields().month
    }

    /// The day of the month, from 1 to 31.
    pub fn day(&self) -> (r: u32)
        ensures
            r == self@.day,
            1 <= r <= 31,
    {
        self.fields().day
    }

    /// The hour, from 0 to 23.
    pub fn hour(&self) -> (r: u32)
        ensures
            r == self@.hour,
            r < 24,
    {
        self.fields().hour
    }

    /// The minute, from 0 to 59.
    pub fn minute(&self) -> (r: u32)
        ensures
            r == self@.minute,
            r < 60,
    {
        self.fields().minute
    }

    /// The second, from 0 to 59.
    pub fn second(&self) -> (r: u32)
        ensures
            r == self@.second,
            r < 60,
    {
        self.fields().second
    }

    /// The capture time that a file name wrote as `written`, given what the
    /// calendar made of the same text: the numbers stand where they are in
    /// range and the calendar read the same six.
    pub fn confirmed(
        written: CalendarFields,
        parsed: Option<CalendarFields>,
    ) -> (r: Result<CaptureTimestamp, ArchiveError>)
        ensures
            r is Ok <==> written.in_range() && parsed == Some(written),
            r matches Ok(ts) ==> ts@ == written,
            r matches Err(e) ==> e == ArchiveError::Format,
    {
        let in_range = 0 <= written.year && written.year <= 9999 && 1 <= written.month
            && written.month <= 12 && 1 <= written.day && written.day <= 31 && written.hour < 24
            && written.minute < 60 && written.second < 60;
        match parsed {
            Some(p) => {
                if in_range && p == written {
                    Ok(CaptureTimestamp { fields: written })
                } else {
                    Err(ArchiveError::Format)
                }
            },
            None => Err(ArchiveError::Format),
        }
    }
}

/// The capture time that a file name carries: the name ends in `.mp4`, the
/// part before it has the shape `YYYY-MM-DD_HH-MM-SS`, its numbers are in
/// range, and the calendar reads the same six numbers from it.
///
/// A name whose seconds are written as `60` carries none. The calendar
/// takes such a text for a leap second and reads it as second 59, which is
/// not what the name wrote; a capture time has its seconds from 0 to 59.
pub open spec fn capture_of(name: Seq<char>) -> Option<CalendarFields> {
    let stem = name.subrange(0, name.len() - 4);
    if ends_with(name, accepted_suffix()) && has_stamp_shape(stem) && stamp_fields(stem).in_range()
        && chrono_datetime(stem, STAMP_FORMAT@) == Some(stamp_fields(stem)) {
        Some(stamp_fields(stem))
    } else {
        None
    }
}

/// The part of a file name before the ending `.mp4`, if it ends so.
pub fn strip_accepted_suffix(name: &str) -> (r: Option<&str>)
    ensures
        r is Some <==> ends_with(name@, accepted_suffix()),
        r matches Some(stem) ==> stem@ == name@.subrange(0, name@.len() - 4),
{
    let n = name.unicode_len();
    if n < 4 {
        return None;
    }
    let ghost tail = name@.subrange(name@.len() - 4, name@.len() as int);
    assert(tail[0] == name@[n - 4] && tail[1] == name@[n - 3] && tail[2] == name@[n - 2] && tail[3]
        == name@[n - 1]);
    if name.get_char(n - 4) == '.' && name.get_char(n - 3) == 'm' && name.get_char(n - 2) == 'p'
        && name.get_char(n - 1) == '4' {
        assert(tail =~= accepted_suffix());
        Some(name.substring_char(0, n - 4))
    } else {
        None
    }
}

/// Reads the capture time from a file name.
pub fn capture_from_name(name: &str) -> (r: Result<CaptureTimestamp, ArchiveError>)
    ensures
        r matches Ok(ts) ==> capture_of(name@) == Some(ts@),
        r matches Err(e) ==> e == ArchiveError::Format && capture_of(name@) is None,
{
    let stem = match strip_accepted_suffix(name) {
        Some(stem) => stem,
        None => { return Err(ArchiveError::Format); },
    };
    let written = match read_stamp(stem) {
        Some(written) => written,
        None => { return Err(ArchiveError::Format); },
    };
    match parse_datetime(stem, STAMP_FORMAT) {
        Ok(parsed) => CaptureTimestamp::confirmed(written, Some(parsed)),
        Err(_) => Err(ArchiveError::Format),
    }
}

/// Extraction loses nothing: the capture time read from a file name, written
/// out again in the shape of the name, is the name; and its numbers are in
/// range.
pub proof fn lemma_capture_round_trip(name: Seq<char>)
    requires
        capture_of(name) is Some,
    ensures
        capture_of(name)->0.in_range(),
        stamp_text(capture_of(name)->0) + accepted_suffix() == name,
        stamp_fields(stamp_text(capture_of(name)->0)) == capture_of(name)->0,
{
    let stem = name.subrange(0, name.len() - 4);
    lemma_stamp_text_of_fields(stem);
    lemma_stamp_fields_of_text(capture_of(name)->0);
    assert(stem + accepted_suffix() =~= name);
}

} // verus!
