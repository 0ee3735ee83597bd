use ur_connect::model::TimetableEntry;
use ur_connect::session::{
    build_timetable_uri, check_login_status, extract_flow_key_from_url, locate_ics_url, login_form, require_entries,
    resolve_flow_key, timetable_entry_url, SessionError,
};

#[test]
fn builds_login_form() {
    let html = "<form><input name='ajax-token' value='tok1'><input type='text' name='u'><input type='password' name='p'></form>";
    let form = login_form(html, "alice", "secret").ok().unwrap();
    let want: Vec<(String, String)> = vec![
        ("userInfo".into(), "".into()),
        ("ajax-token".into(), "tok1".into()),
        ("u".into(), "alice".into()),
        ("p".into(), "secret".into()),
        ("submit".into(), "".into()),
    ];
    assert_eq!(form, want);
}

#[test]
fn login_form_needs_token() {
    assert!(matches!(login_form("<input name='ajax-token' value=''>", "a", "b"), Err(SessionError::MissingToken)));
    assert!(matches!(login_form("<p></p>", "a", "b"), Err(SessionError::MissingToken)));
}

#[test]
fn login_status() {
    assert!(check_login_status(200).is_ok());
    assert!(matches!(check_login_status(403), Err(SessionError::LoginRejected(403))));
}

#[test]
fn timetable_uri() {
    let base = "https://portal.example.org/plan/t.xhtml?old=1";
    assert_eq!(
        build_timetable_uri(base, "f-flow", Some("e1s1")).as_deref(),
        Some("https://portal.example.org/plan/t.xhtml?_flowId=f-flow&_flowExecutionKey=e1s1")
    );
    assert_eq!(build_timetable_uri(base, "f flow", None).as_deref(), Some("https://portal.example.org/plan/t.xhtml?_flowId=f+flow"));
    assert_eq!(build_timetable_uri("not a url", "f", None), None);
}

#[test]
fn default_entry_url() {
    let r = timetable_entry_url("<a href='/logout'>Logout</a>", "https://p.org", "https://p.org/plan", "f");
    assert_eq!(r.as_deref(), Some("https://p.org/plan?_flowId=f"));
}

#[test]
fn flow_key_order() {
    assert_eq!(extract_flow_key_from_url("https://p.org/x?_flowExecutionKey=k1").as_deref(), Some("k1"));
    assert!(matches!(resolve_flow_key("<p></p>", "https://p.org/?_flowExecutionKey=k2", "https://p.org/?_flowExecutionKey=k3"), Ok(k) if k == "k2"));
    assert!(matches!(resolve_flow_key("<p></p>", "https://p.org/", "https://p.org/?_flowExecutionKey=k3"), Ok(k) if k == "k3"));
    assert!(matches!(resolve_flow_key("<p></p>", "https://p.org/", "https://p.org/"), Err(SessionError::MissingFlowKey)));
}

#[test]
fn calendar_url_order() {
    let full = "<p>none</p>";
    let entry = "<a href='/c.ics'>x</a>";
    assert!(matches!(locate_ics_url(full, entry, "https://p.org"), Ok(u) if u == "https://p.org/c.ics"));
    assert!(matches!(locate_ics_url(full, full, "https://p.org"), Err(SessionError::MissingCalendarUrl)));
}

#[test]
fn empty_calendar_is_error() {
    assert!(matches!(require_entries(Vec::new()), Err(SessionError::EmptyCalendar)));
    let e = TimetableEntry::new("d".into(), "".into(), "t".into(), "".into(), None);
    assert_eq!(require_entries(vec![e]).ok().unwrap().len(), 1);
}
