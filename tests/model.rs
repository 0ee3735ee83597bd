use ur_connect::model::{format_entries, Recurrence, TimetableEntry};

fn entry(date: &str, time: &str, title: &str, location: &str, rec: Option<Recurrence>) -> TimetableEntry {
    TimetableEntry::new(date.to_string(), time.to_string(), title.to_string(), location.to_string(), rec)
}

#[test]
fn formats_entries_into_lines() {
    let entries = vec![
        TimetableEntry::new(
            "2025-01-01".to_string(),
            "10:00 - 12:00".to_string(),
            "Sample Lecture".to_string(),
            "Room 101".to_string(),
            None,
        ),
        TimetableEntry::new(
            "2025-01-02".to_string(),
            "".to_string(),
            "Consultation".to_string(),
            "Building A".to_string(),
            None,
        ),
    ];

    let formatted = format_entries(&entries);
    assert!(formatted.contains("Sample Lecture @ Room 101"));
    assert!(formatted.contains("Consultation @ Building A"));
}

#[test]
fn format_joins_lines_with_newline() {
    let entries = vec![entry("2025-01-01", "", "A", "", None), entry("2025-01-02", "", "B", "", None)];
    assert_eq!(format_entries(&entries), "2025-01-01 A\n2025-01-02 B");
}

#[test]
fn format_of_no_entries_is_notice() {
    assert_eq!(format_entries(&Vec::new()), "No timetable entries found.");
}

#[test]
fn render_full_entry() {
    let e = entry("2025-01-01", "10:00 - 12:00", "Sample Lecture", "Room 101", None);
    assert_eq!(e.render(), "2025-01-01 10:00 - 12:00 Sample Lecture @ Room 101");
}

#[test]
fn render_without_location_drops_at() {
    let e = entry("2025-01-01", "10:00 - 12:00", "Sample Lecture", "", None);
    assert_eq!(e.render(), "2025-01-01 10:00 - 12:00 Sample Lecture");
}

#[test]
fn render_location_only() {
    let e = entry("", "", "", "Building A", None);
    assert_eq!(e.render(), "Building A");
}

#[test]
fn render_skips_empty_time() {
    let e = entry("2025-01-02", "", "Consultation", "Building A", None);
    assert_eq!(e.render(), "2025-01-02 Consultation @ Building A");
}

#[test]
fn render_with_weekly_recurrence() {
    let e = entry("2025-01-01", "10:00", "Seminar", "", Some(Recurrence::Weekly));
    assert_eq!(e.render(), "2025-01-01 10:00 Seminar \u{2022} Weekly");
}

#[test]
fn render_recurrence_alone() {
    let e = entry("", "", "", "", Some(Recurrence::Daily));
    assert_eq!(e.render(), "Daily");
}

#[test]
fn render_custom_recurrence_verbatim() {
    let rec = Recurrence::from_freq("BIWEEKLY");
    assert!(matches!(&rec, Some(Recurrence::Custom(s)) if s == "BIWEEKLY"));
    let e = entry("2025-01-01", "", "Seminar", "Room 1", rec);
    assert_eq!(e.render(), "2025-01-01 Seminar @ Room 1 \u{2022} BIWEEKLY");
}

#[test]
fn recurrence_labels() {
    assert_eq!(Recurrence::Daily.render(), "Daily");
    assert_eq!(Recurrence::Weekly.render(), "Weekly");
    assert_eq!(Recurrence::Monthly.render(), "Monthly");
    assert_eq!(Recurrence::Yearly.render(), "Yearly");
}

#[test]
fn from_freq_any_case() {
    assert!(matches!(Recurrence::from_freq("daily"), Some(Recurrence::Daily)));
    assert!(matches!(Recurrence::from_freq("Weekly"), Some(Recurrence::Weekly)));
    assert!(matches!(Recurrence::from_freq("MONTHLY"), Some(Recurrence::Monthly)));
    assert!(matches!(Recurrence::from_freq("yearly"), Some(Recurrence::Yearly)));
    assert!(matches!(Recurrence::from_freq("hourly"), Some(Recurrence::Custom(s)) if s == "hourly"));
    assert!(matches!(Recurrence::from_freq("BiWeekly"), Some(Recurrence::Custom(s)) if s == "BiWeekly"));
    assert!(Recurrence::from_freq("").is_none());
}
