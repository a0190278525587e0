use livestream_archiver::naming::{base_name_for, directory_for, display_title_for, file_name_for};
use livestream_archiver::naming::{sidecar_path_for, video_path_for, OutputCategory};
use livestream_archiver::resolver::{is_listed, is_unarchived, OutputSlot};
use livestream_archiver::timestamp::{capture_from_name, CaptureTimestamp};

fn at(name: &str) -> CaptureTimestamp {
    capture_from_name(name).unwrap()
}

fn names(list: &[&str]) -> Vec<String> {
    list.iter().map(|s| s.to_string()).collect()
}

#[test]
fn first_recording_of_a_day_is_primary() {
    let slot = OutputSlot::resolve(at("2024-12-27_18-42-36.mp4"), &Vec::new());
    assert_eq!(slot.category(), OutputCategory::Primary);
    assert_eq!(slot.suffix(), None);
    assert_eq!(slot.timestamp(), at("2024-12-27_18-42-36.mp4"));
    assert_eq!(slot.directory(), "2024/12-December");
    assert_eq!(slot.base_name(), "Primary | December 27 2024");
    assert_eq!(slot.file_name(), "Primary | December 27 2024.mp4");
    assert_eq!(slot.display_title(), "Primary | December 27 2024");
    assert_eq!(slot.video_path(), "2024/12-December/Primary | December 27 2024.mp4");
    assert_eq!(slot.sidecar_path(), "2024/12-December/Primary | December 27 2024.nfo");
}

#[test]
fn second_recording_of_a_day_is_secondary() {
    let existing = names(&["Primary | December 27 2024.mp4"]);
    let slot = OutputSlot::resolve(at("2024-12-27_20-00-00.mp4"), &existing);
    assert_eq!(slot.category(), OutputCategory::Secondary);
    assert_eq!(slot.suffix(), None);
    assert_eq!(slot.file_name(), "Secondary | December 27 2024.mp4");
    assert_eq!(slot.video_path(), "2024/12-December/Secondary | December 27 2024.mp4");
}

#[test]
fn third_and_fourth_recording_are_numbered() {
    let mut existing =
        names(&["Primary | December 27 2024.mp4", "Secondary | December 27 2024.mp4"]);
    let third = OutputSlot::resolve(at("2024-12-27_21-00-00.mp4"), &existing);
    assert_eq!(third.category(), OutputCategory::Secondary);
    assert_eq!(third.suffix(), Some(1));
    assert_eq!(third.file_name(), "Secondary | December 27 2024 (1).mp4");
    assert_eq!(third.display_title(), "Secondary | December 27 2024 (1)");
    existing.push(third.file_name());
    let fourth = OutputSlot::resolve(at("2024-12-27_22-00-00.mp4"), &existing);
    assert_eq!(fourth.category(), OutputCategory::Secondary);
    assert_eq!(fourth.suffix(), Some(2));
    assert_eq!(fourth.file_name(), "Secondary | December 27 2024 (2).mp4");
    assert_eq!(fourth.sidecar_path(), "2024/12-December/Secondary | December 27 2024 (2).nfo");
}

#[test]
fn a_day_gets_one_primary_and_any_number_of_secondaries() {
    let ts = at("2025-01-04_09-00-00.mp4");
    let mut existing: Vec<String> = Vec::new();
    let mut got: Vec<String> = Vec::new();
    for _ in 0..13 {
        let slot = OutputSlot::resolve(ts, &existing);
        assert!(!existing.contains(&slot.file_name()));
        got.push(slot.base_name());
        existing.push(slot.file_name());
    }
    assert_eq!(got[0], "Primary | January 04 2025");
    assert_eq!(got[1], "Secondary | January 04 2025");
    assert_eq!(got[2], "Secondary | January 04 2025 (1)");
    assert_eq!(got[10], "Secondary | January 04 2025 (9)");
    assert_eq!(got[11], "Secondary | January 04 2025 (10)");
    assert_eq!(got[12], "Secondary | January 04 2025 (11)");
}

#[test]
fn the_smallest_free_number_is_taken() {
    let existing = names(&[
        "Secondary | December 27 2024 (3).mp4",
        "Secondary | December 27 2024.mp4",
        "Primary | December 27 2024.mp4",
        "Secondary | December 27 2024 (1).mp4",
    ]);
    let slot = OutputSlot::resolve(at("2024-12-27_18-42-36.mp4"), &existing);
    assert_eq!(slot.suffix(), Some(2));
}

#[test]
fn a_missing_primary_is_filled_first() {
    let existing =
        names(&["Secondary | December 27 2024.mp4", "Secondary | December 27 2024 (1).mp4"]);
    let slot = OutputSlot::resolve(at("2024-12-27_18-42-36.mp4"), &existing);
    assert_eq!(slot.category(), OutputCategory::Primary);
    assert_eq!(slot.suffix(), None);
}

#[test]
fn other_days_and_other_files_do_not_count() {
    let existing = names(&[
        "Primary | December 26 2024.mp4",
        "Primary | December 27 2024.nfo",
        "Primary | December 27 2024",
        "primary | December 27 2024.mp4",
        "Primary | December 27 2023.mp4",
    ]);
    let slot = OutputSlot::resolve(at("2024-12-27_18-42-36.mp4"), &existing);
    assert_eq!(slot.category(), OutputCategory::Primary);
}

#[test]
fn names_pad_the_day_and_titles_do_not() {
    let ts = at("2024-03-05_08-00-00.mp4");
    assert_eq!(directory_for(&ts), "2024/03-March");
    assert_eq!(base_name_for(&ts, OutputCategory::Primary, None), "Primary | March 05 2024");
    assert_eq!(display_title_for(&ts, OutputCategory::Primary, None), "Primary | March 5 2024");
    assert_eq!(
        file_name_for(&ts, OutputCategory::Secondary, Some(12)),
        "Secondary | March 05 2024 (12).mp4"
    );
    assert_eq!(
        display_title_for(&ts, OutputCategory::Secondary, Some(12)),
        "Secondary | March 5 2024 (12)"
    );
    assert_eq!(
        video_path_for(&ts, OutputCategory::Secondary, Some(7)),
        "2024/03-March/Secondary | March 05 2024 (7).mp4"
    );
    assert_eq!(
        sidecar_path_for(&ts, OutputCategory::Primary, None),
        "2024/03-March/Primary | March 05 2024.nfo"
    );
}

#[test]
fn every_month_has_its_name() {
    let months = [
        "January",
        "February",
        "March",
        "April",
        "May",
        "June",
        "July",
        "August",
        "September",
        "October",
        "November",
        "December",
    ];
    for (i, month) in months.iter().enumerate() {
        let ts = at(&format!("2023-{:02}-15_12-00-00.mp4", i + 1));
        assert_eq!(directory_for(&ts), format!("2023/{:02}-{}", i + 1, month));
        assert_eq!(
            base_name_for(&ts, OutputCategory::Primary, None),
            format!("Primary | {} 15 2023", month)
        );
    }
}

#[test]
fn years_are_written_in_four_digits() {
    let ts = at("0042-07-09_00-00-00.mp4");
    assert_eq!(directory_for(&ts), "0042/07-July");
    assert_eq!(base_name_for(&ts, OutputCategory::Primary, None), "Primary | July 09 0042");
    assert_eq!(display_title_for(&ts, OutputCategory::Primary, None), "Primary | July 9 0042");
}

#[test]
fn large_numbers_are_written_in_full() {
    let ts = at("2024-12-27_18-42-36.mp4");
    assert_eq!(
        base_name_for(&ts, OutputCategory::Secondary, Some(u128::MAX)),
        "Secondary | December 27 2024 (340282366920938463463374607431768211455)"
    );
    assert_eq!(
        base_name_for(&ts, OutputCategory::Secondary, Some(1000)),
        "Secondary | December 27 2024 (1000)"
    );
}

#[test]
fn categories_have_title_and_tag() {
    assert_eq!(OutputCategory::Primary.title(), "Primary");
    assert_eq!(OutputCategory::Secondary.title(), "Secondary");
    assert_eq!(OutputCategory::Primary.tag(), "Primary");
    assert_eq!(OutputCategory::Secondary.tag(), "Secondary");
}

#[test]
fn listing_is_by_whole_name() {
    let existing = names(&["a.mp4", "b.mp4"]);
    assert!(is_listed(&existing, &"a.mp4".to_string()));
    assert!(is_listed(&existing, &"b.mp4".to_string()));
    assert!(!is_listed(&existing, &"a.mp".to_string()));
    assert!(!is_listed(&existing, &"".to_string()));
    assert!(!is_listed(&Vec::new(), &"a.mp4".to_string()));
}

#[test]
fn a_recording_is_unarchived_while_neither_category_holds_its_day() {
    let ts = at("2024-12-27_18-42-36.mp4");
    assert!(is_unarchived(&ts, &Vec::new()));
    assert!(is_unarchived(&ts, &names(&["Primary | December 26 2024.mp4"])));
    assert!(is_unarchived(&ts, &names(&["Secondary | December 27 2024 (1).mp4"])));
    assert!(!is_unarchived(&ts, &names(&["Primary | December 27 2024.mp4"])));
    assert!(!is_unarchived(&ts, &names(&["Secondary | December 27 2024.mp4"])));
}

#[test]
fn both_forms_of_the_day_write_the_same_day() {
    for day in 1..=31u32 {
        let ts = at(&format!("2024-01-{:02}_12-00-00.mp4", day));
        let name = base_name_for(&ts, OutputCategory::Primary, None);
        let title = display_title_for(&ts, OutputCategory::Primary, None);
        let in_name: Vec<&str> = name.split(' ').collect();
        let in_title: Vec<&str> = title.split(' ').collect();
        assert_eq!(in_name.len(), 5);
        assert_eq!(in_title.len(), 5);
        assert_eq!(in_name[3].len(), 2);
        assert_eq!(in_name[3].parse::<u32>(), Ok(day));
        assert_eq!(in_title[3].parse::<u32>(), Ok(day));
        assert_eq!(in_title[3], day.to_string());
        assert_eq!(in_name[2], in_title[2]);
        assert_eq!(in_name[4], in_title[4]);
        assert_eq!(ts.day(), day);
    }
}
