use ur_connect::dom::{
    contains_calendar_hint, extract_flow_key_from_html, extract_flow_key_from_str, find_credential_fields,
    best_menu_link, calendar_url_in_elements, find_ics_url, find_input_value, find_timetable_menu_link, normalize_text, pick_best, resolve_url, score_link,
    select_elements, Candidate,
};

const BASE: &str = "https://portal.example.org";
const FLOW: &str = "individualTimetableSchedule-flow";

#[test]
fn calendar_hint_matches_variants() {
    assert!(contains_calendar_hint("individualTimetableCalendarExport"));
    assert!(contains_calendar_hint("schedule.ics"));
}

#[test]
fn calendar_hint_rejects_unrelated() {
    assert!(!contains_calendar_hint("logout"));
    assert!(contains_calendar_hint("My ICAL feed"));
    assert!(!contains_calendar_hint(""));
}

#[test]
fn normalizes_visible_text() {
    assert_eq!(normalize_text("  Mein&nbsp;&amp; \n  Stundenplan  "), "Mein & Stundenplan");
    assert_eq!(normalize_text(""), "");
}

#[test]
fn selects_elements_with_attributes() {
    let es = select_elements("<p><a href=\"/x\">One</a><a href=\"/y\">Two</a></p>", "a[href]");
    assert_eq!(es.len(), 2);
    assert_eq!(es[1].text, "Two");
    assert_eq!(find_input_value("<input name='t' value='v1'><input name='t' value='v2'>", "input[name='t']", "value"), Some("v1".to_string()));
    assert_eq!(find_input_value("<p></p>", "input", "value"), None);
}

#[test]
fn scores_links() {
    assert_eq!(score_link("/p?_flowId=individualTimetableSchedule-flow", "", FLOW), 3);
    assert_eq!(score_link("/pages/plan/individualTimetable.xhtml", "", FLOW), 2);
    assert_eq!(score_link("/other", "Mein Stundenplan", FLOW), 1);
    assert_eq!(score_link("/other", "Timetable", FLOW), 1);
    assert_eq!(score_link("/logout", "Logout", FLOW), 0);
}

#[test]
fn flow_link_beats_keyword_link_in_either_order() {
    let a = "<a href=\"/menu?_flowId=individualTimetableSchedule-flow&x=1\">Go</a>";
    let b = "<a href=\"/somewhere\">My timetable</a>";
    let first = format!("<html><body>{}{}</body></html>", b, a);
    let second = format!("<html><body>{}{}</body></html>", a, b);
    let want = "https://portal.example.org/menu?_flowId=individualTimetableSchedule-flow&x=1";
    assert_eq!(find_timetable_menu_link(&first, BASE, FLOW).as_deref(), Some(want));
    assert_eq!(find_timetable_menu_link(&second, BASE, FLOW).as_deref(), Some(want));
}

#[test]
fn no_menu_link_without_candidates() {
    assert_eq!(find_timetable_menu_link("<a href=\"/logout\">Logout</a><a href=\"\">Timetable</a>", BASE, FLOW), None);
}

#[test]
fn picks_first_of_equal_scores() {
    let cs = vec![
        Candidate { score: 1, url: Some("a".to_string()) },
        Candidate { score: 2, url: None },
        Candidate { score: 2, url: Some("b".to_string()) },
        Candidate { score: 2, url: Some("c".to_string()) },
        Candidate { score: 0, url: Some("d".to_string()) },
    ];
    assert_eq!(pick_best(&cs), Some(2));
    assert_eq!(pick_best(&vec![Candidate { score: 0, url: Some("x".to_string()) }]), None);
}

#[test]
fn resolves_urls() {
    assert_eq!(resolve_url("/a/b.ics", BASE).as_deref(), Some("https://portal.example.org/a/b.ics"));
    assert_eq!(resolve_url("http://other.org/c", BASE).as_deref(), Some("http://other.org/c"));
    assert_eq!(resolve_url("mailto:x@y.org", BASE), None);
    assert_eq!(resolve_url("", BASE), None);
}

#[test]
fn flow_key_from_text() {
    assert_eq!(extract_flow_key_from_str("https://h.org/p?_flowExecutionKey=a%2Bb&z=1").as_deref(), Some("a+b"));
    assert_eq!(extract_flow_key_from_str("see _flowExecutionKey=e1s2-rest").as_deref(), Some("e1s2"));
    assert_eq!(extract_flow_key_from_str("_flowExecutionKey=-x"), None);
    assert_eq!(extract_flow_key_from_str("nothing here"), None);
}

#[test]
fn flow_key_from_page() {
    assert_eq!(extract_flow_key_from_html("<form><input name='_flowExecutionKey' value=' e3s1 '></form>").as_deref(), Some("e3s1"));
    assert_eq!(extract_flow_key_from_html("<a href='/p?_flowExecutionKey=e4s1'>x</a>").as_deref(), Some("e4s1"));
    assert_eq!(
        extract_flow_key_from_html("<head><meta http-equiv='Refresh' content='0; URL=/p?_flowExecutionKey=e5s1'></head>").as_deref(),
        Some("e5s1")
    );
    assert_eq!(extract_flow_key_from_html("<script>var u = '_flowExecutionKey=-';var v='_flowExecutionKey=e6s1';</script>").as_deref(), Some("e6s1"));
    assert_eq!(extract_flow_key_from_html("<p>none</p>"), None);
}

#[test]
fn ics_url_from_textarea() {
    let html = "<textarea id='cal_add_1'>https://portal.example.org/export/calendar.ics?x=1</textarea>";
    assert_eq!(find_ics_url(html, BASE).as_deref(), Some("https://portal.example.org/export/calendar.ics?x=1"));
}

#[test]
fn ics_url_from_anchor_and_raw_text() {
    let html = "<a href='/logout'>Logout</a><a href='/cal/export.ics'>Export</a>";
    assert_eq!(find_ics_url(html, BASE).as_deref(), Some("https://portal.example.org/cal/export.ics"));
    let html = "<script>var link = \"https://files.example.org/my.ics\";</script>";
    assert_eq!(find_ics_url(html, BASE).as_deref(), Some("https://files.example.org/my.ics"));
    assert_eq!(find_ics_url("<p>no link</p>", BASE), None);
}

#[test]
fn credential_fields() {
    let html = "<input type='hidden' name='tok'><input type='PASSWORD' name='pw'><input type='text'><input type='email' name='user'>";
    assert_eq!(find_credential_fields(html), ("user".to_string(), "pw".to_string()));
    assert_eq!(find_credential_fields("<p></p>"), ("asdf".to_string(), "fdsa".to_string()));
}

#[test]
fn best_link_of_selected_anchors() {
    let anchors = select_elements("<a href='/t'>Stundenplan</a><a href='/p/individualTimetable.xhtml'>x</a>", "a[href]");
    assert_eq!(best_menu_link(&anchors, BASE, FLOW).as_deref(), Some("https://portal.example.org/p/individualTimetable.xhtml"));
}

#[test]
fn calendar_url_of_selected_elements() {
    let nodes = select_elements("<input value='/x'><input data-url='/cal/feed.ics'>", "input");
    assert_eq!(calendar_url_in_elements(&nodes, BASE, false).as_deref(), Some("https://portal.example.org/cal/feed.ics"));
}
