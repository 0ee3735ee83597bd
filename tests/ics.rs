use ur_connect::ics::{
    date_text, event_entry, parse_ics, parse_ics_date, recurrence_from_rule, resolve_local, strip_params,
    time_text, LocalChoice, Property, Stamp,
};
use ur_connect::model::Recurrence;

fn stamp(year: i32, month: u32, day: u32, hour: u32, minute: u32, timestamp: i64) -> Stamp {
    Stamp { year, month, day, hour, minute, timestamp }
}

fn prop(name: &str, value: &str) -> Property {
    Property { name: name.to_string(), value: Some(value.to_string()) }
}

#[test]
fn unfolds_and_parses_basic_event() {
    let input = "BEGIN:VCALENDAR\nBEGIN:VEVENT\nSUMMARY:Test Event\nLOCATION:Room 101\nDTSTART;TZID=Europe/Berlin:20241001T080000\nDTEND;TZID=Europe/Berlin:20241001T093000\nEND:VEVENT\nEND:VCALENDAR";
    let entries = parse_ics(input);
    assert_eq!(entries.len(), 1);
    let entry = &entries[0];
    assert_eq!(entry.title, "Test Event");
    assert_eq!(entry.location, "Room 101");
    assert_eq!(entry.time.len(), 13);
    assert!(entry.recurrence.is_none());
}

#[test]
fn captures_recurrence_frequency() {
    let input = "BEGIN:VCALENDAR\nBEGIN:VEVENT\nSUMMARY:Weekly Seminar\nDTSTART:20241001T080000Z\nDTEND:20241001T090000Z\nRRULE:FREQ=WEEKLY;BYDAY=TU\nEND:VEVENT\nEND:VCALENDAR";
    let entries = parse_ics(input);
    assert_eq!(entries.len(), 1);
    let entry = &entries[0];
    assert!(matches!(entry.recurrence, Some(Recurrence::Weekly)));
}

#[test]
fn parse_empty_feed() {
    assert!(parse_ics("").is_empty());
    assert!(parse_ics("  \n\t ").is_empty());
}

#[test]
fn parse_feed_without_events() {
    assert!(parse_ics("BEGIN:VCALENDAR\nVERSION:2.0\nEND:VCALENDAR").is_empty());
}

#[test]
fn parse_feed_keeps_order_and_description_fallback() {
    let input = "BEGIN:VCALENDAR\nBEGIN:VEVENT\nDESCRIPTION:  First  \nDTSTART:20241001\nEND:VEVENT\nBEGIN:VEVENT\nSUMMARY:Second\nEND:VEVENT\nBEGIN:VEVENT\nLOCATION:Nowhere\nEND:VEVENT\nEND:VCALENDAR";
    let entries = parse_ics(input);
    assert_eq!(entries.len(), 2);
    assert_eq!(entries[0].title, "First");
    assert_eq!(entries[0].date.len(), 10);
    assert_eq!(entries[1].title, "Second");
    assert_eq!(entries[1].date, "");
    assert_eq!(entries[1].time, "");
}

#[test]
fn rule_weekly() {
    assert!(matches!(recurrence_from_rule("FREQ=WEEKLY;BYDAY=TU"), Some(Recurrence::Weekly)));
    assert!(matches!(recurrence_from_rule("BYDAY=TU; freq = monthly "), Some(Recurrence::Monthly)));
}

#[test]
fn rule_without_frequency() {
    assert!(recurrence_from_rule("FREQ=;BYDAY=TU").is_none());
    assert!(recurrence_from_rule("BYDAY=TU").is_none());
    assert!(recurrence_from_rule("").is_none());
}

#[test]
fn rule_custom_frequency() {
    assert!(matches!(recurrence_from_rule("FREQ=biweekly"), Some(Recurrence::Custom(s)) if s == "biweekly"));
}

#[test]
fn date_and_time_texts() {
    let a = stamp(2024, 10, 1, 8, 5, 0);
    let b = stamp(2024, 10, 1, 9, 30, 0);
    assert_eq!(date_text(a), "2024-10-01");
    assert_eq!(date_text(stamp(987, 1, 2, 0, 0, 0)), "0987-01-02");
    assert_eq!(time_text(Some(a), Some(b)), "08:05 - 09:30");
    assert_eq!(time_text(Some(a), None), "08:05");
    assert_eq!(time_text(None, Some(b)), "");
}

#[test]
fn local_time_policy() {
    let early = stamp(2024, 10, 27, 2, 30, 100);
    let late = stamp(2024, 10, 27, 2, 30, 3700);
    let utc = stamp(2024, 3, 31, 2, 30, 50);
    assert!(resolve_local(LocalChoice::Ambiguous(late, early), utc) == early);
    assert!(resolve_local(LocalChoice::Ambiguous(early, late), utc) == early);
    assert!(resolve_local(LocalChoice::Single(late), utc) == late);
    assert!(resolve_local(LocalChoice::Gap, utc) == utc);
}

#[test]
fn strips_parameter_prefix() {
    let v: Vec<char> = " TZID=Europe/Berlin:20241001T080000 ".chars().collect();
    let r: String = strip_params(&v).into_iter().collect();
    assert_eq!(r, "20241001T080000");
    let v: Vec<char> = "a:b: 20241001 ".chars().collect();
    let r: String = strip_params(&v).into_iter().collect();
    assert_eq!(r, "20241001");
}

#[test]
fn reads_date_values() {
    let d = parse_ics_date("TZID=Europe/Berlin:20241001").unwrap();
    assert_eq!((d.year, d.month, d.day, d.hour, d.minute), (2024, 10, 1, 0, 0));
    let t = parse_ics_date("20241001T0815").unwrap();
    assert_eq!((t.hour, t.minute), (8, 15));
    assert!(parse_ics_date("20241001T081500Z").is_some());
    assert!(parse_ics_date("").is_none());
    assert!(parse_ics_date("TZID=X:").is_none());
    assert!(parse_ics_date("not a date").is_none());
}

#[test]
fn event_without_date_or_title_is_dropped() {
    let props = vec![prop("LOCATION", "Room 1")];
    assert!(event_entry(&props, None, None).is_none());
    let props = vec![prop("summary", " Talk "), prop("rrule", "FREQ=DAILY")];
    let e = event_entry(&props, None, None).unwrap();
    assert_eq!(e.title, "Talk");
    assert!(matches!(e.recurrence, Some(Recurrence::Daily)));
}

#[test]
fn basic_event_reads_local_wall_clock() {
    let input = "BEGIN:VCALENDAR\nBEGIN:VEVENT\nSUMMARY:Test Event\nDTSTART;TZID=Europe/Berlin:20241001T080000\nDTEND;TZID=Europe/Berlin:20241001T093000\nEND:VEVENT\nEND:VCALENDAR";
    let entries = parse_ics(input);
    assert_eq!(entries.len(), 1);
    assert_eq!(entries[0].date, "2024-10-01");
    assert_eq!(entries[0].time, "08:00 - 09:30");
}

#[test]
fn bad_date_leaves_only_date_and_time_empty() {
    let input = "BEGIN:VCALENDAR\nBEGIN:VEVENT\nSUMMARY:One\nDTSTART:20241345\nEND:VEVENT\nBEGIN:VEVENT\nSUMMARY:Two\nDTSTART:20241002\nEND:VEVENT\nEND:VCALENDAR";
    let entries = parse_ics(input);
    assert_eq!(entries.len(), 2);
    assert_eq!(entries[0].title, "One");
    assert_eq!(entries[0].date, "");
    assert_eq!(entries[0].time, "");
    assert_eq!(entries[1].title, "Two");
}

#[test]
fn utc_value_is_its_instant() {
    assert_eq!(parse_ics_date("20241001T080000Z").unwrap().timestamp, 1727769600);
    assert_eq!(parse_ics_date("DTSTART:20241001T0800Z").unwrap().timestamp, 1727769600);
    assert_eq!(parse_ics_date("19700101Z").unwrap().timestamp, 0);
}

#[test]
fn refused_dates() {
    assert!(parse_ics_date("20241345").is_none());
    assert!(parse_ics_date("20230229").is_none());
    assert!(parse_ics_date("20241001T2500").is_none());
    assert!(parse_ics_date("garbage").is_none());
    assert!(parse_ics_date("garbageZ").is_none());
}

#[test]
fn years_outside_four_digits() {
    assert_eq!(date_text(stamp(-1, 12, 31, 0, 0, 0)), "-0001-12-31");
    assert_eq!(date_text(stamp(10000, 1, 1, 0, 0, 0)), "+10000-01-01");
    assert_eq!(date_text(stamp(5, 1, 1, 0, 0, 0)), "0005-01-01");
}

#[test]
fn values_no_reading_accepts() {
    assert!(parse_ics_date("2024").is_none());
    assert!(parse_ics_date("12:30").is_none());
    assert!(parse_ics_date("2024-10-01T08:00:00+02:00").is_none());
}
