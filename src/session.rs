use vstd::prelude::*;
use crate::dom::{
    attr_of, attrs_view, ics_url_in, lookup_attr, query_pairs_of, Attr,
    extract_flow_key_from_html, find_credential_fields, find_ics_url, find_input_value,
    find_timetable_menu_link, input_value_spec, field_name_from, or_default, flow_key_in_html,
    selected, best_url, menu_candidates,
};
use crate::model::TimetableEntry;
use crate::text::{chars_of, opt_view, string_of};

verus! {

/// What stops a session from reaching the calendar.
pub enum SessionError {
    /// The login page has no anti-forgery token.
    MissingToken,
    /// The portal answered the login with this non-success status.
    LoginRejected(u16),
    /// No flow execution key could be found for the timetable.
    MissingFlowKey,
    /// No calendar export URL could be found on the timetable pages.
    MissingCalendarUrl,
    /// The calendar feed held no entries.
    EmptyCalendar,
}

pub open spec fn attr_pairs(v: Seq<(String, String)>) -> Seq<(Seq<char>, Seq<char>)> {
    v.map_values(|p: (String, String)| (p.0@, p.1@))
}

/// The fields of the login form: the token, and the credentials under the
/// field names the login page gives.
pub open spec fn login_fields(token: Seq<char>, user_field: Seq<char>, pass_field: Seq<char>, username: Seq<char>, password: Seq<char>) -> Seq<(Seq<char>, Seq<char>)> {
    seq![("userInfo"@, Seq::empty()), ("ajax-token"@, token), (user_field, username), (pass_field, password), ("submit"@, Seq::empty())]
}

/// The login form to post for a login page: an error where the page holds no
/// non-empty anti-forgery token.
pub fn login_form(html: &str, username: &str, password: &str) -> (r: Result<Vec<(String, String)>, SessionError>)
    ensures
        ({
            let tok = input_value_spec(html@, "input[name='ajax-token']"@, "value"@);
            let es = selected(html@, "input"@);
            match r {
                Ok(form) => tok matches Some(t) && t.len() > 0 && attr_pairs(form@) == login_fields(
                    t,
                    or_default(field_name_from(es, false, 0), "asdf"@),
                    or_default(field_name_from(es, true, 0), "fdsa"@),
                    username@,
                    password@,
                ),
                Err(e) => e is MissingToken && !(tok matches Some(t) && t.len() > 0),
            }
        }),
{
    let token = match find_input_value(html, "input[name='ajax-token']", "value") {
        Some(t) => t,
        None => return Err(SessionError::MissingToken),
    };
    if token.as_str().unicode_len() == 0 {
        return Err(SessionError::MissingToken);
    }
    let (user_field, pass_field) = find_credential_fields(html);
    let mut form: Vec<(String, String)> = Vec::new();
    form.push((string_of(&chars_of("userInfo")), String::new()));
    form.push((string_of(&chars_of("ajax-token")), token));
    form.push((user_field, string_of(&chars_of(username))));
    form.push((pass_field, string_of(&chars_of(password))));
    form.push((string_of(&chars_of("submit")), String::new()));
    assert(attr_pairs(form@) =~= login_fields(token@, user_field@, pass_field@, username@, password@));
    Ok(form)
}

/// Whether the portal accepted the login: a 2xx status.
pub fn check_login_status(status: u16) -> (r: Result<(), SessionError>)
    ensures
        r is Ok <==> 200 <= status < 300,
        r matches Err(e) ==> e == SessionError::LoginRejected(status),
{
    if 200 <= status && status < 300 {
        Ok(())
    } else {
        Err(SessionError::LoginRejected(status))
    }
}

/// The URL of a module address with its query replaced by the pairs, in order.
pub uninterp spec fn url_with_query(base: Seq<char>, pairs: Seq<(Seq<char>, Seq<char>)>) -> Option<Seq<char>>;

/// Relies on `url::Url::parse` and `Url::query_pairs_mut` (`clear`,
/// `append_pair`): the address with the pairs form-encoded as its query;
/// `None` where the address is no absolute URL.
#[verifier::external_body]
fn set_query(base: &str, pairs: &Vec<Attr>) -> (r: Option<String>)
    ensures
        opt_view(r) == url_with_query(base@, attrs_view(pairs@)),
{
    let mut u = url::Url::parse(base).ok()?;
    u.query_pairs_mut().clear().extend_pairs(pairs.iter().map(|p| (p.name.as_str(), p.value.as_str())));
    Some(u.to_string())
}

/// The query of a timetable address: the flow, then the key where there is one.
pub open spec fn timetable_query(flow_id: Seq<char>, flow_key: Option<Seq<char>>) -> Seq<(Seq<char>, Seq<char>)> {
    match flow_key {
        Some(k) => seq![("_flowId"@, flow_id), ("_flowExecutionKey"@, k)],
        None => seq![("_flowId"@, flow_id)],
    }
}

pub fn build_timetable_uri(base: &str, flow_id: &str, flow_key: Option<&str>) -> (r: Option<String>)
    ensures
        opt_view(r) == url_with_query(base@, timetable_query(flow_id@, match flow_key { Some(k) => Some(k@), None => None })),
{
    let mut pairs: Vec<Attr> = Vec::new();
    pairs.push(Attr { name: string_of(&chars_of("_flowId")), value: string_of(&chars_of(flow_id)) });
    match flow_key {
        Some(k) => {
            pairs.push(Attr { name: string_of(&chars_of("_flowExecutionKey")), value: string_of(&chars_of(k)) });
        },
        None => {},
    }
    assert(attrs_view(pairs@) =~= timetable_query(flow_id@, match flow_key { Some(k) => Some(k@), None => None }));
    set_query(base, &pairs)
}

/// The flow execution key in the query of a URL.
pub open spec fn url_flow_key(url: Seq<char>) -> Option<Seq<char>> {
    match query_pairs_of(url) {
        Some(ps) => attr_of(ps, "_flowExecutionKey"@),
        None => None,
    }
}

pub fn extract_flow_key_from_url(url: &str) -> (r: Option<String>)
    ensures
        opt_view(r) == url_flow_key(url@),
{
    match crate::dom::query_pairs(url) {
        Some(ps) => lookup_attr(&ps, "_flowExecutionKey"),
        None => None,
    }
}

/// The flow execution key of the timetable: from the entry page, else from
/// the URL it ended at, else from the URL that was asked for.
pub fn resolve_flow_key(entry_html: &str, final_url: &str, entry_url: &str) -> (r: Result<String, SessionError>)
    ensures
        ({
            let k = if flow_key_in_html(entry_html@) is Some {
                flow_key_in_html(entry_html@)
            } else if url_flow_key(final_url@) is Some {
                url_flow_key(final_url@)
            } else {
                url_flow_key(entry_url@)
            };
            match r {
                Ok(key) => k == Some(key@),
                Err(e) => k is None && e is MissingFlowKey,
            }
        }),
{
    match extract_flow_key_from_html(entry_html) {
        Some(k) => return Ok(k),
        None => {},
    }
    match extract_flow_key_from_url(final_url) {
        Some(k) => return Ok(k),
        None => {},
    }
    match extract_flow_key_from_url(entry_url) {
        Some(k) => Ok(k),
        None => Err(SessionError::MissingFlowKey),
    }
}

/// The calendar export URL: from the full timetable page, else from the
/// entry page.
pub fn locate_ics_url(full_html: &str, entry_html: &str, base: &str) -> (r: Result<String, SessionError>)
    ensures
        ({
            let u = if ics_url_in(full_html@, base@) is Some {
                ics_url_in(full_html@, base@)
            } else {
                ics_url_in(entry_html@, base@)
            };
            match r {
                Ok(url) => u == Some(url@),
                Err(e) => u is None && e is MissingCalendarUrl,
            }
        }),
{
    match find_ics_url(full_html, base) {
        Some(u) => return Ok(u),
        None => {},
    }
    match find_ics_url(entry_html, base) {
        Some(u) => Ok(u),
        None => Err(SessionError::MissingCalendarUrl),
    }
}

/// The entry page of the timetable: the best menu link of the landing page,
/// else the module address with the flow alone.
pub fn timetable_entry_url(landing_html: &str, base: &str, timetable_base: &str, flow_id: &str) -> (r: Option<String>)
    ensures
        ({
            let cs = menu_candidates(landing_html@, base@, flow_id@);
            if forall|j: int| !crate::dom::usable(cs, j) {
                opt_view(r) == url_with_query(timetable_base@, timetable_query(flow_id@, None))
            } else {
                r is Some && best_url(cs, opt_view(r))
            }
        }),
{
    match find_timetable_menu_link(landing_html, base, flow_id) {
        Some(u) => Some(u),
        None => build_timetable_uri(timetable_base, flow_id, None),
    }
}

/// A downloaded feed's entries: an error where there is none.
pub fn require_entries(entries: Vec<TimetableEntry>) -> (r: Result<Vec<TimetableEntry>, SessionError>)
    ensures
        entries@.len() == 0 ==> (r matches Err(e) && e is EmptyCalendar),
        entries@.len() > 0 ==> (r matches Ok(v) && v@ == entries@),
{
    if entries.len() == 0 {
        Err(SessionError::EmptyCalendar)
    } else {
        Ok(entries)
    }
}

} // verus!
