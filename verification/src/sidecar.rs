//! The metadata document that is written beside each archive copy.

use vstd::prelude::*;
use vstd::string::StringExecFns;
use crate::naming::display_title_text;
use crate::resolver::{OutputSlot, SlotChoice};
use crate::text::{append_four_digits, append_two_digits, four_digits, two_digits};
use crate::timestamp::CalendarFields;

verus! {

/// The fields of a sidecar as text.
pub struct RecordText {
    pub title: Seq<char>,
    pub show_title: Seq<char>,
    pub season: Seq<char>,
    pub episode: Seq<char>,
    pub aired: Seq<char>,
    pub display_season: Seq<char>,
    pub display_episode: Seq<char>,
    pub tag: Seq<char>,
}

/// The fields of the sidecar of one archive copy.
#[derive(Debug, PartialEq, Eq)]
pub struct ArchiveRecord {
    /// The display title, with the day written without a leading zero.
    pub title: String,
    /// The name of the show, the same for every recording.
    pub show_title: String,
    /// The year.
    pub season: String,
    /// Month and day, two digits each.
    pub episode: String,
    /// The date as `YYYY-MM-DD`.
    pub aired: String,
    /// The year again.
    pub display_season: String,
    /// Month and day again.
    pub display_episode: String,
    /// The tag of the category.
    pub tag: String,
}

impl View for ArchiveRecord {
    type V = RecordText;

    open spec fn view(&self) -> RecordText {
        RecordText {
            title: self.title@,
            show_title: self.show_title@,
            season: self.season@,
            episode: self.episode@,
            aired: self.aired@,
            display_season: self.display_season@,
            display_episode: self.display_episode@,
            tag: self.tag@,
        }
    }
}

/// Month and day of a date, two digits each.
pub open spec fn episode_text(f: CalendarFields) -> Seq<char> {
    two_digits(f.month as nat) + two_digits(f.day as nat)
}

/// A date as `YYYY-MM-DD`.
pub open spec fn aired_text(f: CalendarFields) -> Seq<char> {
    four_digits(f.year as nat) + "-"@ + two_digits(f.month as nat) + "-"@ + two_digits(f.day as nat)
}

/// The sidecar fields of the recording in `slot`: all of them follow from
/// its date, category and suffix.
pub open spec fn record_of(slot: SlotChoice) -> RecordText {
    RecordText {
        title: display_title_text(slot.captured, slot.category, slot.suffix),
        show_title: "LiveStreams"@,
        season: four_digits(slot.captured.year as nat),
        episode: episode_text(slot.captured),
        aired: aired_text(slot.captured),
        display_season: four_digits(slot.captured.year as nat),
        display_episode: episode_text(slot.captured),
        tag: slot.category.tag_text(),
    }
}

/// The document that holds the fields of `r`.
pub open spec fn document_text(r: RecordText) -> Seq<char> {
    "<?xml version=\"1.0\" encoding=\"UTF-8\" standalone=\"yes\"?>\n<episodedetails>\n    <title>"@
        + r.title + "</title>\n    <showtitle>"@ + r.show_title + "</showtitle>\n    <season>"@
        + r.season + "</season>\n    <episode>"@ + r.episode + "</episode>\n    <aired>"@ + r.aired
        + "</aired>\n    <displayseason>"@ + r.display_season
        + "</displayseason>\n    <displayepisode>"@ + r.display_episode
        + "</displayepisode>\n    <tag>"@ + r.tag + "</tag>\n</episodedetails>"@
}

/// The year of a date in four digits.
fn season_of(f: CalendarFields) -> (r: String)
    requires
        f.in_range(),
    ensures
        r@ == four_digits(f.year as nat),
{
    let mut out = String::new();
    append_four_digits(&mut out, f.year as u32);
    assert(out@ =~= four_digits(f.year as nat));
    out
}

/// Month and day of a date, two digits each.
fn episode_of(f: CalendarFields) -> (r: String)
    requires
        f.in_range(),
    ensures
        r@ == episode_text(f),
{
    let mut out = String::new();
    append_two_digits(&mut out, f.month);
    append_two_digits(&mut out, f.day);
    assert(out@ =~= episode_text(f));
    out
}

/// A date as `YYYY-MM-DD`.
fn aired_of(f: CalendarFields) -> (r: String)
    requires
        f.in_range(),
    ensures
        r@ == aired_text(f),
{
    let mut out = String::new();
    append_four_digits(&mut out, f.year as u32);
    out.append("-");
    append_two_digits(&mut out, f.month);
    out.append("-");
    append_two_digits(&mut out, f.day);
    assert(out@ =~= aired_text(f));
    out
}

impl ArchiveRecord {
    /// The sidecar fields of the recording in `slot`.
    pub fn describe(slot: &OutputSlot) -> (record: ArchiveRecord)
        ensures
            record@ == record_of(slot@),
    {
        let f = slot.timestamp().fields();
        ArchiveRecord {
            title: slot.display_title(),
            show_title: String::from_str("LiveStreams"),
            season: season_of(f),
            episode: episode_of(f),
            aired: aired_of(f),
            display_season: season_of(f),
            display_episode: episode_of(f),
            tag: String::from_str(slot.category().tag()),
        }
    }

    /// The document that holds these fields.
    pub fn render(&self) -> (document: String)
        ensures
            document@ == document_text(self@),
    {
        let mut out = String::new();
        out.append(
            "<?xml version=\"1.0\" encoding=\"UTF-8\" standalone=\"yes\"?>\n<episodedetails>\n    <title>",
        );
        out.append(self.title.as_str());
        out.append("</title>\n    <showtitle>");
        out.append(self.show_title.as_str());
        out.append("</showtitle>\n    <season>");
        out.append(self.season.as_str());
        out.append("</season>\n    <episode>");
        out.append(self.episode.as_str());
        out.append("</episode>\n    <aired>");
        out.append(self.aired.as_str());
        out.append("</aired>\n    <displayseason>");
        out.append(self.display_season.as_str());
        out.append("</displayseason>\n    <displayepisode>");
        out.append(self.display_episode.as_str());
        out.append("</displayepisode>\n    <tag>");
        out.append(self.tag.as_str());
        out.append("</tag>\n</episodedetails>");
        assert(out@ =~= document_text(self@));
        out
    }
}

} // verus!
