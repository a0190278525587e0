//! What the archive copy of a recording is called.

use vstd::prelude::*;
use vstd::string::StringExecFns;
use crate::text::{append_decimal, append_four_digits, append_two_digits};
use crate::text::{decimal, four_digits, number_of, two_digits};
use crate::text::{lemma_decimal_injective, lemma_decimal_round_trip};
use crate::text::lemma_two_digits_round_trip;
use crate::timestamp::{accepted_suffix, CalendarFields, CaptureTimestamp};

verus! {

/// The programme that a recording is filed under.
#[derive(Clone, Copy, Debug, PartialEq, Eq, Structural)]
pub enum OutputCategory {
    /// The first recording of a day.
    Primary,
    /// Every further recording of that day.
    Secondary,
}

impl OutputCategory {
    /// The title that names of this category begin with.
    pub open spec fn title_text(self) -> Seq<char> {
        match self {
            OutputCategory::Primary => "Primary"@,
            OutputCategory::Secondary => "Secondary"@,
        }
    }

    /// The tag that the sidecar of this category carries.
    pub open spec fn tag_text(self) -> Seq<char> {
        match self {
            OutputCategory::Primary => "Primary"@,
            OutputCategory::Secondary => "Secondary"@,
        }
    }

    /// The title that names of this category begin with.
    pub fn title(self) -> (r: &'static str)
        ensures
            r@ == self.title_text(),
    {
        match self {
            OutputCategory::Primary => "Primary",
            OutputCategory::Secondary => "Secondary",
        }
    }

    /// The tag that the sidecar of this category carries.
    pub fn tag(self) -> (r: &'static str)
        ensures
            r@ == self.tag_text(),
    {
        match self {
            OutputCategory::Primary => "Primary",
            OutputCategory::Secondary => "Secondary",
        }
    }
}

/// The English name of a month, `1` for January.
pub open spec fn month_name(month: int) -> Seq<char> {
    if month == 1 {
        "January"@
    } else if month == 2 {
        "February"@
    } else if month == 3 {
        "March"@
    } else if month == 4 {
        "April"@
    } else if month == 5 {
        "May"@
    } else if month == 6 {
        "June"@
    } else if month == 7 {
        "July"@
    } else if month == 8 {
        "August"@
    } else if month == 9 {
        "September"@
    } else if month == 10 {
        "October"@
    } else if month == 11 {
        "November"@
    } else {
        "December"@
    }
}

/// A date written as month name, day and year, the day as `day_text`
/// writes it.
pub open spec fn written_date(f: CalendarFields, day_text: Seq<char>) -> Seq<char> {
    month_name(f.month as int) + " "@ + day_text + " "@ + four_digits(f.year as nat)
}

/// The date as file names write it: the day in two digits.
pub open spec fn name_date(f: CalendarFields) -> Seq<char> {
    written_date(f, two_digits(f.day as nat))
}

/// The date as titles show it: the day without a leading zero.
pub open spec fn title_date(f: CalendarFields) -> Seq<char> {
    written_date(f, decimal(f.day as nat))
}

/// The directory of a month below the output root: the year, then the
/// month as number and name.
pub open spec fn directory_text(f: CalendarFields) -> Seq<char> {
    four_digits(f.year as nat) + "/"@ + two_digits(f.month as nat) + "-"@ + month_name(
        f.month as int,
    )
}

/// What follows the date in a name: nothing, or the number that tells
/// this recording from earlier ones of the same day.
pub open spec fn suffix_text(suffix: Option<nat>) -> Seq<char> {
    match suffix {
        None => Seq::<char>::empty(),
        Some(n) => " ("@ + decimal(n) + ")"@,
    }
}

/// The name of the archive copy without its ending.
pub open spec fn base_name_text(
    f: CalendarFields,
    category: OutputCategory,
    suffix: Option<nat>,
) -> Seq<char> {
    category.title_text() + " | "@ + name_date(f) + suffix_text(suffix)
}

/// The title that the sidecar shows.
pub open spec fn display_title_text(
    f: CalendarFields,
    category: OutputCategory,
    suffix: Option<nat>,
) -> Seq<char> {
    category.title_text() + " | "@ + title_date(f) + suffix_text(suffix)
}

/// The file name of the archive copy.
pub open spec fn file_name_text(
    f: CalendarFields,
    category: OutputCategory,
    suffix: Option<nat>,
) -> Seq<char> {
    base_name_text(f, category, suffix) + accepted_suffix()
}

/// The path of the archive copy below the output root.
pub open spec fn video_path_text(
    f: CalendarFields,
    category: OutputCategory,
    suffix: Option<nat>,
) -> Seq<char> {
    directory_text(f) + "/"@ + file_name_text(f, category, suffix)
}

/// The path of the sidecar below the output root: that of the archive
/// copy with the ending `.nfo`.
pub open spec fn sidecar_path_text(
    f: CalendarFields,
    category: OutputCategory,
    suffix: Option<nat>,
) -> Seq<char> {
    directory_text(f) + "/"@ + base_name_text(f, category, suffix) + ".nfo"@
}

/// The English name of a month.
pub(crate) fn month_name_of(month: u32) -> (r: &'static str)
    requires
        1 <= month <= 12,
    ensures
        r@ == month_name(month as int),
{
    if month == 1 {
        "January"
    } else if month == 2 {
        "February"
    } else if month == 3 {
        "March"
    } else if month == 4 {
        "April"
    } else if month == 5 {
        "May"
    } else if month == 6 {
        "June"
    } else if month == 7 {
        "July"
    } else if month == 8 {
        "August"
    } else if month == 9 {
        "September"
    } else if month == 10 {
        "October"
    } else if month == 11 {
        "November"
    } else {
        "December"
    }
}

/// Appends the date as file names write it.
fn append_name_date(out: &mut String, f: CalendarFields)
    requires
        f.in_range(),
    ensures
        final(out)@ == old(out)@ + name_date(f),
{
    out.append(month_name_of(f.month));
    out.append(" ");
    append_two_digits(out, f.day);
    out.append(" ");
    append_four_digits(out, f.year as u32);
    assert(out@ =~= old(out)@ + name_date(f));
}

/// Appends the date as titles show it.
fn append_title_date(out: &mut String, f: CalendarFields)
    requires
        f.in_range(),
    ensures
        final(out)@ == old(out)@ + title_date(f),
{
    out.append(month_name_of(f.month));
    out.append(" ");
    append_decimal(out, f.day as u128);
    out.append(" ");
    append_four_digits(out, f.year as u32);
    assert(out@ =~= old(out)@ + title_date(f));
}

/// Appends the directory of the month.
fn append_directory(out: &mut String, f: CalendarFields)
    requires
        f.in_range(),
    ensures
        final(out)@ == old(out)@ + directory_text(f),
{
    append_four_digits(out, f.year as u32);
    out.append("/");
    append_two_digits(out, f.month);
    out.append("-");
    out.append(month_name_of(f.month));
    assert(out@ =~= old(out)@ + directory_text(f));
}

/// The number of a suffix as contracts speak of it.
pub open spec fn suffix_number(suffix: Option<u128>) -> Option<nat> {
    match suffix {
        None => None,
        Some(n) => Some(n as nat),
    }
}

/// Appends what follows the date in a name.
fn append_suffix(out: &mut String, suffix: Option<u128>)
    ensures
        final(out)@ == old(out)@ + suffix_text(suffix_number(suffix)),
{
    match suffix {
        None => {
            assert(out@ =~= old(out)@ + suffix_text(suffix_number(suffix)));
        },
        Some(n) => {
            out.append(" (");
            append_decimal(out, n);
            out.append(")");
            assert(out@ =~= old(out)@ + suffix_text(suffix_number(suffix)));
        },
    }
}

/// Appends the name of the archive copy without its ending.
fn append_base_name(
    out: &mut String,
    f: CalendarFields,
    category: OutputCategory,
    suffix: Option<u128>,
)
    requires
        f.in_range(),
    ensures
        final(out)@ == old(out)@ + base_name_text(f, category, suffix_number(suffix)),
{
    out.append(category.title());
    out.append(" | ");
    append_name_date(out, f);
    append_suffix(out, suffix);
    assert(out@ =~= old(out)@ + base_name_text(f, category, suffix_number(suffix)));
}

/// The file name that a recording of this date, category and suffix gets.
pub fn file_name_for(
    timestamp: &CaptureTimestamp,
    category: OutputCategory,
    suffix: Option<u128>,
) -> (r: String)
    ensures
        r@ == file_name_text(timestamp@, category, suffix_number(suffix)),
{
    let mut out = String::new();
    append_base_name(&mut out, timestamp.fields(), category, suffix);
    out.append(".mp4");
    proof {
        reveal_strlit(".mp4");
        assert(".mp4"@ =~= accepted_suffix());
        assert(out@ =~= file_name_text(timestamp@, category, suffix_number(suffix)));
    }
    out
}

/// The directory of the month of `timestamp` below the output root.
pub fn directory_for(timestamp: &CaptureTimestamp) -> (r: String)
    ensures
        r@ == directory_text(timestamp@),
{
    let mut out = String::new();
    append_directory(&mut out, timestamp.fields());
    assert(out@ =~= directory_text(timestamp@));
    out
}

/// The name, without its ending, that a recording of this date, category
/// and suffix gets.
pub fn base_name_for(
    timestamp: &CaptureTimestamp,
    category: OutputCategory,
    suffix: Option<u128>,
) -> (r: String)
    ensures
        r@ == base_name_text(timestamp@, category, suffix_number(suffix)),
{
    let mut out = String::new();
    append_base_name(&mut out, timestamp.fields(), category, suffix);
    assert(out@ =~= base_name_text(timestamp@, category, suffix_number(suffix)));
    out
}

/// The title that the sidecar of such a recording shows.
pub fn display_title_for(
    timestamp: &CaptureTimestamp,
    category: OutputCategory,
    suffix: Option<u128>,
) -> (r: String)
    ensures
        r@ == display_title_text(timestamp@, category, suffix_number(suffix)),
{
    let mut out = String::new();
    out.append(category.title());
    out.append(" | ");
    append_title_date(&mut out, timestamp.fields());
    append_suffix(&mut out, suffix);
    assert(out@ =~= display_title_text(timestamp@, category, suffix_number(suffix)));
    out
}

/// The path of the archive copy below the output root.
pub fn video_path_for(
    timestamp: &CaptureTimestamp,
    category: OutputCategory,
    suffix: Option<u128>,
) -> (r: String)
    ensures
        r@ == video_path_text(timestamp@, category, suffix_number(suffix)),
{
    let mut out = String::new();
    append_directory(&mut out, timestamp.fields());
    out.append("/");
    append_base_name(&mut out, timestamp.fields(), category, suffix);
    out.append(".mp4");
    proof {
        reveal_strlit(".mp4");
        assert(".mp4"@ =~= accepted_suffix());
        assert(out@ =~= video_path_text(timestamp@, category, suffix_number(suffix)));
    }
    out
}

/// The path of the sidecar below the output root.
pub fn sidecar_path_for(
    timestamp: &CaptureTimestamp,
    category: OutputCategory,
    suffix: Option<u128>,
) -> (r: String)
    ensures
        r@ == sidecar_path_text(timestamp@, category, suffix_number(suffix)),
{
    let mut out = String::new();
    append_directory(&mut out, timestamp.fields());
    out.append("/");
    append_base_name(&mut out, timestamp.fields(), category, suffix);
    out.append(".nfo");
    assert(out@ =~= sidecar_path_text(timestamp@, category, suffix_number(suffix)));
    out
}

/// The date of a name and the date of a title are one date: they differ
/// in how the day is written and in nothing else, and both ways of writing
/// it, with and without a leading zero, write the same day.
pub proof fn lemma_date_forms_agree(f: CalendarFields)
    requires
        f.in_range(),
    ensures
        name_date(f) == written_date(f, two_digits(f.day as nat)),
        title_date(f) == written_date(f, decimal(f.day as nat)),
        number_of(two_digits(f.day as nat)) == f.day,
        number_of(decimal(f.day as nat)) == f.day,
        f.day >= 10 ==> name_date(f) == title_date(f),
{
    lemma_two_digits_round_trip(f.day as nat);
    lemma_decimal_round_trip(f.day as nat);
    if f.day >= 10 {
        let d = f.day as nat;
        assert(decimal(d / 10) =~= seq![crate::text::digit_char((d / 10) as int)]);
        assert(decimal(d) =~= two_digits(d));
    }
}

/// Names with different numbers differ.
pub proof fn lemma_numbered_names_differ(f: CalendarFields, category: OutputCategory, a: nat, b: nat)
    requires
        file_name_text(f, category, Some(a)) == file_name_text(f, category, Some(b)),
    ensures
        a == b,
{
    let head = base_name_text(f, category, None) + " ("@;
    let tail = ")"@ + accepted_suffix();
    let ta = file_name_text(f, category, Some(a));
    let tb = file_name_text(f, category, Some(b));
    assert(base_name_text(f, category, None) =~= category.title_text() + " | "@
        + name_date(f));
    assert(ta =~= head + decimal(a) + tail);
    assert(tb =~= head + decimal(b) + tail);
    assert(decimal(a).len() == decimal(b).len());
    assert(decimal(a) =~= ta.subrange(head.len() as int, (head.len() + decimal(a).len()) as int));
    assert(decimal(b) =~= tb.subrange(head.len() as int, (head.len() + decimal(b).len()) as int));
    lemma_decimal_injective(a, b);
}

/// The slots of one day have different file names: a name tells the
/// category and the number.
pub proof fn lemma_names_differ(
    f: CalendarFields,
    first: OutputCategory,
    first_suffix: Option<nat>,
    second: OutputCategory,
    second_suffix: Option<nat>,
)
    requires
        file_name_text(f, first, first_suffix) == file_name_text(f, second, second_suffix),
    ensures
        first == second,
        first_suffix == second_suffix,
{
    reveal_strlit("Primary");
    reveal_strlit("Secondary");
    let a = file_name_text(f, first, first_suffix);
    let b = file_name_text(f, second, second_suffix);
    assert(a[0] == first.title_text()[0]);
    assert(b[0] == second.title_text()[0]);
    assert(first == second);
    let bare = file_name_text(f, first, None);
    match (first_suffix, second_suffix) {
        (Some(n), Some(m)) => {
            lemma_numbered_names_differ(f, first, n, m);
        },
        (Some(n), None) => {
            assert(decimal(n).len() >= 1);
            assert(suffix_text(Some(n)).len() >= decimal(n).len());
            assert(a.len() > bare.len());
        },
        (None, Some(m)) => {
            assert(decimal(m).len() >= 1);
            assert(suffix_text(Some(m)).len() >= decimal(m).len());
            assert(b.len() > bare.len());
        },
        (None, None) => {},
    }
}

/// Each month has a name of its own.
pub proof fn lemma_month_names_differ(a: int, b: int)
    requires
        1 <= a <= 12,
        1 <= b <= 12,
        month_name(a) == month_name(b),
    ensures
        a == b,
{
    reveal_strlit("January");
    reveal_strlit("February");
    reveal_strlit("March");
    reveal_strlit("April");
    reveal_strlit("May");
    reveal_strlit("June");
    reveal_strlit("July");
    reveal_strlit("August");
    reveal_strlit("September");
    reveal_strlit("October");
    reveal_strlit("November");
    reveal_strlit("December");
    let s = month_name(a);
    let t = month_name(b);
    assert(s.len() == t.len());
    assert(s[0] == t[0]);
    assert(s[2] == t[2]);
}

} // verus!
