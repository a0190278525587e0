//! Which category and which name a new recording gets, given the names
//! that its month directory already holds.

use vstd::prelude::*;
use vstd::seq_lib::seq_to_set_is_finite;
use vstd::set_lib::lemma_len_subset;
use crate::naming::{base_name_for, directory_for, display_title_for, file_name_for};
use crate::naming::{sidecar_path_for, video_path_for};
use crate::naming::{base_name_text, directory_text, display_title_text, file_name_text};
use crate::naming::{sidecar_path_text, suffix_number, video_path_text};
use crate::naming::{lemma_numbered_names_differ, OutputCategory};
use crate::timestamp::{CalendarFields, CaptureTimestamp};

verus! {

/// What an output slot stands for: the date, the category and the
/// number, if any, that tells the recording from earlier ones of its day.
pub struct SlotChoice {
    pub captured: CalendarFields,
    pub category: OutputCategory,
    pub suffix: Option<nat>,
}

/// Whether one of the file names in `existing` is `name`.
pub open spec fn listed(existing: Seq<String>, name: Seq<char>) -> bool {
    exists|i: int| 0 <= i < existing.len() && (#[trigger] existing[i])@ == name
}

/// Whether the directory already holds the file of this date, category
/// and suffix.
pub open spec fn taken(
    existing: Seq<String>,
    f: CalendarFields,
    category: OutputCategory,
    suffix: Option<nat>,
) -> bool {
    listed(existing, file_name_text(f, category, suffix))
}

/// Whether `n` is the smallest number from 1 whose secondary name the
/// directory does not hold yet.
pub open spec fn is_first_free(existing: Seq<String>, f: CalendarFields, n: nat) -> bool {
    &&& n >= 1
    &&& !taken(existing, f, OutputCategory::Secondary, Some(n))
    &&& forall|k: nat| 1 <= k < n ==> taken(existing, f, OutputCategory::Secondary, Some(k))
}

/// The rule that picks category and suffix; the first case that applies
/// decides. A day has one primary recording; the second is secondary;
/// every further one is secondary with the smallest number from 1 whose
/// name is still free.
pub open spec fn resolves_to(
    existing: Seq<String>,
    f: CalendarFields,
    category: OutputCategory,
    suffix: Option<nat>,
) -> bool {
    if !taken(existing, f, OutputCategory::Primary, None) {
        category == OutputCategory::Primary && suffix is None
    } else if !taken(existing, f, OutputCategory::Secondary, None) {
        category == OutputCategory::Secondary && suffix is None
    } else {
        &&& category == OutputCategory::Secondary
        &&& suffix matches Some(n)
        &&& is_first_free(existing, f, n)
    }
}

/// The slot that the rule picks for a recording of date `f`.
pub open spec fn resolution(existing: Seq<String>, f: CalendarFields) -> SlotChoice {
    choose|c: SlotChoice| c.captured == f && resolves_to(existing, f, c.category, c.suffix)
}

/// Where the names numbered 1 to `n` are all taken, the directory holds
/// at least `n` names.
pub proof fn lemma_taken_numbers_bound(existing: Seq<String>, f: CalendarFields, n: nat)
    requires
        forall|k: nat| 1 <= k <= n ==> taken(existing, f, OutputCategory::Secondary, Some(k)),
    ensures
        n <= existing.len(),
{
    let numbered = Seq::new(
        n,
        |i: int| file_name_text(f, OutputCategory::Secondary, Some((i + 1) as nat)),
    );
    let names = existing.map_values(|s: String| s@);
    assert forall|i: int, j: int| 0 <= i < n && 0 <= j < n && i != j implies numbered[i]
        != numbered[j] by {
        if numbered[i] == numbered[j] {
            lemma_numbered_names_differ(
                f,
                OutputCategory::Secondary,
                (i + 1) as nat,
                (j + 1) as nat,
            );
        }
    }
    assert(numbered.no_duplicates());
    numbered.unique_seq_to_set();
    names.lemma_cardinality_of_set();
    seq_to_set_is_finite(names);
    assert forall|t: Seq<char>| numbered.to_set().contains(t) implies names.to_set().contains(
        t,
    ) by {
        let i = choose|i: int| 0 <= i < numbered.len() && numbered[i] == t;
        assert(taken(existing, f, OutputCategory::Secondary, Some((i + 1) as nat)));
        let j = choose|j: int| 0 <= j < existing.len() && (#[trigger] existing[j])@ == t;
        assert(names[j] == t);
    }
    lemma_len_subset(numbered.to_set(), names.to_set());
}

/// Some number from `n` on is the first free one, where all below `n`
/// are taken.
proof fn lemma_first_free_from(existing: Seq<String>, f: CalendarFields, n: nat)
    requires
        n >= 1,
        forall|k: nat| 1 <= k < n ==> taken(existing, f, OutputCategory::Secondary, Some(k)),
    ensures
        exists|m: nat| is_first_free(existing, f, m),
    decreases existing.len() + 1 - n,
{
    if taken(existing, f, OutputCategory::Secondary, Some(n)) {
        lemma_taken_numbers_bound(existing, f, n);
        lemma_first_free_from(existing, f, n + 1);
    } else {
        assert(is_first_free(existing, f, n));
    }
}

/// The rule picks a slot whatever the directory holds, and the name of
/// that slot is not in the directory.
pub proof fn lemma_resolution_exists(existing: Seq<String>, f: CalendarFields)
    ensures
        resolution(existing, f).captured == f,
        resolves_to(
            existing,
            f,
            resolution(existing, f).category,
            resolution(existing, f).suffix,
        ),
        !taken(existing, f, resolution(existing, f).category, resolution(existing, f).suffix),
{
    let witness = if !taken(existing, f, OutputCategory::Primary, None) {
        SlotChoice { captured: f, category: OutputCategory::Primary, suffix: None }
    } else if !taken(existing, f, OutputCategory::Secondary, None) {
        SlotChoice { captured: f, category: OutputCategory::Secondary, suffix: None }
    } else {
        lemma_first_free_from(existing, f, 1);
        let n = choose|m: nat| is_first_free(existing, f, m);
        SlotChoice { captured: f, category: OutputCategory::Secondary, suffix: Some(n) }
    };
    assert(witness.captured == f && resolves_to(existing, f, witness.category, witness.suffix));
}

/// The rule picks one slot and no other.
pub proof fn lemma_resolution_unique(existing: Seq<String>, c: SlotChoice)
    requires
        resolves_to(existing, c.captured, c.category, c.suffix),
    ensures
        resolution(existing, c.captured) == c,
{
    let f = c.captured;
    let d = resolution(existing, f);
    assert(d.captured == f && resolves_to(existing, f, d.category, d.suffix));
    if c.suffix is Some && d.suffix is Some {
        let n = c.suffix->0;
        let m = d.suffix->0;
        if n < m {
            assert(taken(existing, f, OutputCategory::Secondary, Some(n)));
        }
        if m < n {
            assert(taken(existing, f, OutputCategory::Secondary, Some(m)));
        }
    }
}

/// A recording of a day that has its primary recording is secondary.
pub proof fn lemma_second_recording_is_secondary(existing: Seq<String>, f: CalendarFields)
    requires
        taken(existing, f, OutputCategory::Primary, None),
    ensures
        resolution(existing, f).category == OutputCategory::Secondary,
{
    lemma_resolution_exists(existing, f);
}

/// A recording of a day that has both its primary and its secondary
/// recording is secondary with a number: 1 where that name is free, 2
/// where only the name with 1 is taken.
pub proof fn lemma_further_recordings_are_numbered(existing: Seq<String>, f: CalendarFields)
    requires
        taken(existing, f, OutputCategory::Primary, None),
        taken(existing, f, OutputCategory::Secondary, None),
    ensures
        resolution(existing, f).category == OutputCategory::Secondary,
        resolution(existing, f).suffix is Some,
        !taken(existing, f, OutputCategory::Secondary, Some(1)) ==> resolution(existing, f).suffix
            == Some(1nat),
        taken(existing, f, OutputCategory::Secondary, Some(1)) && !taken(
            existing,
            f,
            OutputCategory::Secondary,
            Some(2),
        ) ==> resolution(existing, f).suffix == Some(2nat),
{
    lemma_resolution_exists(existing, f);
    let n = resolution(existing, f).suffix->0;
    if !taken(existing, f, OutputCategory::Secondary, Some(1)) {
        if n > 1 {
            assert(taken(existing, f, OutputCategory::Secondary, Some(1nat)));
        }
    } else if !taken(existing, f, OutputCategory::Secondary, Some(2)) {
        if n > 2 {
            assert(taken(existing, f, OutputCategory::Secondary, Some(2nat)));
        }
    }
}

/// A day never gets a second primary recording, and a number only on a
/// secondary one.
pub proof fn lemma_one_primary_a_day(existing: Seq<String>, f: CalendarFields)
    ensures
        resolution(existing, f).category == OutputCategory::Primary <==> !taken(
            existing,
            f,
            OutputCategory::Primary,
            None,
        ),
        resolution(existing, f).suffix is Some ==> resolution(existing, f).category
            == OutputCategory::Secondary,
{
    lemma_resolution_exists(existing, f);
}

/// Whether one of the file names in `existing` is `name`.
pub fn is_listed(existing: &Vec<String>, name: &String) -> (r: bool)
    ensures
        r == listed(existing@, name@),
{
    let mut i: usize = 0;
    while i < existing.len()
        invariant
            i <= existing.len(),
            forall|j: int| 0 <= j < i ==> (#[trigger] existing@[j])@ != name@,
        decreases existing.len() - i,
    {
        if existing[i] == *name {
            return true;
        }
        i = i + 1;
    }
    false
}

/// The destination that was resolved for one recording.
#[derive(Clone, Copy, Debug, PartialEq, Eq)]
pub struct OutputSlot {
    timestamp: CaptureTimestamp,
    category: OutputCategory,
    suffix: Option<u128>,
}

impl View for OutputSlot {
    type V = SlotChoice;

    closed spec fn view(&self) -> SlotChoice {
        SlotChoice {
            captured: self.timestamp@,
            category: self.category,
            suffix: suffix_number(self.suffix),
        }
    }
}

impl OutputSlot {
    #[verifier::type_invariant]
    spec fn well_formed(self) -> bool {
        self.suffix matches Some(n) ==> n >= 1 && self.category == OutputCategory::Secondary
    }

    /// Resolves the slot of a recording captured at `timestamp`, given the
    /// file names that the directory of its month holds. The name of the
    /// slot is not among them.
    pub fn resolve(timestamp: CaptureTimestamp, existing: &Vec<String>) -> (slot: OutputSlot)
        ensures
            slot@.captured == timestamp@,
            resolves_to(existing@, timestamp@, slot@.category, slot@.suffix),
            slot@ == resolution(existing@, timestamp@),
            !taken(existing@, timestamp@, slot@.category, slot@.suffix),
            slot@.suffix matches Some(n) ==> 1 <= n <= existing@.len() + 1,
    {
        let primary = file_name_for(&timestamp, OutputCategory::Primary, None);
        if !is_listed(existing, &primary) {
            let slot = OutputSlot { timestamp, category: OutputCategory::Primary, suffix: None };
            proof {
                lemma_resolution_unique(existing@, slot@);
            }
            return slot;
        }
        let secondary = file_name_for(&timestamp, OutputCategory::Secondary, None);
        if !is_listed(existing, &secondary) {
            let slot = OutputSlot { timestamp, category: OutputCategory::Secondary, suffix: None };
            proof {
                lemma_resolution_unique(existing@, slot@);
            }
            return slot;
        }
        assert(existing@.len() == existing.len());
        let mut n: u128 = 1;
        let mut name = file_name_for(&timestamp, OutputCategory::Secondary, Some(n));
        while is_listed(existing, &name)
            invariant
                1 <= n <= existing@.len() + 1,
                existing@.len() <= usize::MAX,
                name@ == file_name_text(timestamp@, OutputCategory::Secondary, Some(n as nat)),
                forall|k: nat|
                    1 <= k < n ==> taken(
                        existing@,
                        timestamp@,
                        OutputCategory::Secondary,
                        Some(k),
                    ),
            decreases existing@.len() + 1 - n,
        {
            proof {
                lemma_taken_numbers_bound(existing@, timestamp@, n as nat);
            }
            n = n + 1;
            name = file_name_for(&timestamp, OutputCategory::Secondary, Some(n));
        }
        let slot = OutputSlot { timestamp, category: OutputCategory::Secondary, suffix: Some(n) };
        proof {
            lemma_resolution_unique(existing@, slot@);
        }
        slot
    }

    /// The capture time of the recording.
    pub fn timestamp(&self) -> (r: CaptureTimestamp)
        ensures
            r@ == self@.captured,
    {
        self.timestamp
    }

    /// The category that the recording is filed under.
    pub fn category(&self) -> (r: OutputCategory)
        ensures
            r == self@.category,
    {
        self.category
    }

    /// The number that tells the recording from earlier ones of its day,
    /// if it needs one.
    pub fn suffix(&self) -> (r: Option<u128>)
        ensures
            suffix_number(r) == self@.suffix,
            r matches Some(n) ==> n >= 1 && self@.category == OutputCategory::Secondary,
    {
        proof {
            use_type_invariant(self);
        }
        self.suffix
    }

    /// The directory of the recording's month below the output root.
    pub fn directory(&self) -> (r: String)
        ensures
            r@ == directory_text(self@.captured),
    {
        directory_for(&self.timestamp)
    }

    /// The name of the archive copy without its ending.
    pub fn base_name(&self) -> (r: String)
        ensures
            r@ == base_name_text(self@.captured, self@.category, self@.suffix),
    {
        base_name_for(&self.timestamp, self.category, self.suffix)
    }

    /// The file name of the archive copy.
    pub fn file_name(&self) -> (r: String)
        ensures
            r@ == file_name_text(self@.captured, self@.category, self@.suffix),
    {
        file_name_for(&self.timestamp, self.category, self.suffix)
    }

    /// The title that the sidecar shows.
    pub fn display_title(&self) -> (r: String)
        ensures
            r@ == display_title_text(self@.captured, self@.category, self@.suffix),
    {
        display_title_for(&self.timestamp, self.category, self.suffix)
    }

    /// The path of the archive copy below the output root.
    pub fn video_path(&self) -> (r: String)
        ensures
            r@ == video_path_text(self@.captured, self@.category, self@.suffix),
    {
        video_path_for(&self.timestamp, self.category, self.suffix)
    }

    /// The path of the sidecar below the output root.
    pub fn sidecar_path(&self) -> (r: String)
        ensures
            r@ == sidecar_path_text(self@.captured, self@.category, self@.suffix),
    {
        sidecar_path_for(&self.timestamp, self.category, self.suffix)
    }
}

/// Whether a recording of this capture time has no archive copy yet, in
/// either category: such a file is taken up when the process starts.
pub fn is_unarchived(timestamp: &CaptureTimestamp, existing: &Vec<String>) -> (r: bool)
    ensures
        r == (!taken(existing@, timestamp@, OutputCategory::Primary, None) && !taken(
            existing@,
            timestamp@,
            OutputCategory::Secondary,
            None,
        )),
{
    let primary = file_name_for(timestamp, OutputCategory::Primary, None);
    let secondary = file_name_for(timestamp, OutputCategory::Secondary, None);
    !is_listed(existing, &primary) && !is_listed(existing, &secondary)
}

} // verus!
