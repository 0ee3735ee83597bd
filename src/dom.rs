use vstd::prelude::*;
use kuchiki::traits::TendrilSink;
use crate::ics::or_else;
use crate::text::{
    opt_view, chars_of, slice_chars, contains, contains_chars, is_white, is_white_exec, lower_seq, push_all, same_chars,
    string_of, to_lower, trim, trim_chars,
};

verus! {

/// One attribute of an element: its name and its value.
pub struct Attr {
    pub name: String,
    pub value: String,
}

/// An element of a parsed page: its attributes and its text content.
pub struct Element {
    pub attrs: Vec<Attr>,
    pub text: String,
}

pub open spec fn attrs_view(a: Seq<Attr>) -> Seq<(Seq<char>, Seq<char>)> {
    a.map_values(|x: Attr| (x.name@, x.value@))
}

pub open spec fn element_view(e: Element) -> (Seq<(Seq<char>, Seq<char>)>, Seq<char>) {
    (attrs_view(e.attrs@), e.text@)
}

pub open spec fn elements_view(es: Seq<Element>) -> Seq<(Seq<(Seq<char>, Seq<char>)>, Seq<char>)> {
    es.map_values(|e: Element| element_view(e))
}

/// The elements of the page `html` that the CSS selector picks, in document
/// order, each with its attributes and its text content.
pub uninterp spec fn selected(html: Seq<char>, selector: Seq<char>) -> Seq<(Seq<(Seq<char>, Seq<char>)>, Seq<char>)>;

/// Relies on `kuchiki::parse_html` and `NodeRef::select`: the elements that
/// match, in document order, with their attributes and text content; none
/// where the selector does not parse.
#[verifier::external_body]
pub fn select_elements(html: &str, selector: &str) -> (r: Vec<Element>)
    ensures
        elements_view(r@) == selected(html@, selector@),
{
    let document = kuchiki::parse_html().one(html);
    match document.select(selector) {
        Ok(nodes) => nodes.map(|n| Element {
            attrs: n.attributes.borrow().map.iter().map(|(k, v)| Attr { name: k.local.to_string(), value: v.value.clone() }).collect(),
            text: n.text_contents(),
        }).collect(),
        Err(_) => Vec::new(),
    }
}

/// What decoding the HTML character references of a text gives.
pub uninterp spec fn entities_decoded(s: Seq<char>) -> Seq<char>;

/// Relies on `html_escape::decode_html_entities`: the text with its
/// character references decoded.
#[verifier::external_body]
fn decode_entities(s: &str) -> (r: String)
    ensures
        r@ == entities_decoded(s@),
{
    html_escape::decode_html_entities(s).into_owned()
}

/// The value of the first attribute at or after `i` named `name`.
pub open spec fn attr_from(attrs: Seq<(Seq<char>, Seq<char>)>, name: Seq<char>, i: int) -> Option<Seq<char>>
    decreases attrs.len() - i,
{
    if i < 0 || i >= attrs.len() {
        None
    } else if attrs[i].0 == name {
        Some(attrs[i].1)
    } else {
        attr_from(attrs, name, i + 1)
    }
}

pub open spec fn attr_of(attrs: Seq<(Seq<char>, Seq<char>)>, name: Seq<char>) -> Option<Seq<char>> {
    attr_from(attrs, name, 0)
}

/// The value of the first pair in `attrs` named `name`.
pub fn lookup_attr(attrs: &Vec<Attr>, name: &str) -> (r: Option<String>)
    ensures
        opt_view(r) == attr_of(attrs_view(attrs@), name@),
{
    let target = chars_of(name);
    let mut i: usize = 0;
    while i < attrs.len()
        invariant
            i <= attrs.len(),
            target@ == name@,
            attr_of(attrs_view(attrs@), name@) == attr_from(attrs_view(attrs@), name@, i as int),
        decreases attrs.len() - i,
    {
        let a = &attrs[i];
        assert(attrs_view(attrs@)[i as int] == (a.name@, a.value@));
        if same_chars(&chars_of(a.name.as_str()), &target) {
            return Some(string_of(&chars_of(a.value.as_str())));
        }
        i = i + 1;
    }
    None
}

/// The value of the attribute `name` of an element.
pub fn attribute(e: &Element, name: &str) -> (r: Option<String>)
    ensures
        opt_view(r) == attr_of(attrs_view(e.attrs@), name@),
{
    lookup_attr(&e.attrs, name)
}

/// White space runs of `s` squeezed to one space, and none at either end.
pub open spec fn squeeze(s: Seq<char>) -> Seq<char>
    decreases s.len(),
{
    if s.len() == 0 {
        s
    } else {
        let p = squeeze(s.drop_last());
        let c = s.last();
        if is_white(c) {
            p
        } else if s.len() >= 2 && is_white(s[s.len() - 2]) && p.len() > 0 {
            p + seq![' ', c]
        } else {
            p.push(c)
        }
    }
}

/// Visible text as a page shows it: references decoded, white space runs
/// squeezed to one space, none at either end.
pub open spec fn normalized(s: Seq<char>) -> Seq<char> {
    squeeze(entities_decoded(s))
}

pub fn normalize_text(input: &str) -> (r: String)
    ensures
        r@ == normalized(input@),
{
    let s = chars_of(decode_entities(input).as_str());
    let mut out: Vec<char> = Vec::new();
    let mut i: usize = 0;
    while i < s.len()
        invariant
            i <= s.len(),
            out@ == squeeze(s@.subrange(0, i as int)),
        decreases s.len() - i,
    {
        let c = s[i];
        let ghost prefix = s@.subrange(0, i + 1);
        assert(prefix.drop_last() =~= s@.subrange(0, i as int));
        if is_white_exec(c) {
        } else if i >= 1 && is_white_exec(s[i - 1]) && out.len() > 0 {
            out.push(' ');
            out.push(c);
            assert(out@ =~= squeeze(s@.subrange(0, i as int)) + seq![' ', c]);
        } else {
            out.push(c);
        }
        i = i + 1;
    }
    assert(s@.subrange(0, s.len() as int) =~= s@);
    string_of(&out)
}

/// The text names a calendar export: in ASCII lower case it holds one of the
/// hint tokens.
pub open spec fn calendar_hint(s: Seq<char>) -> bool {
    let l = lower_seq(s);
    contains(l, "calendarexport"@) || contains(l, "calendar"@) || contains(l, "individualtimetablecalendarexport"@)
        || contains(l, "timetablecalendar"@) || contains(l, ".ics"@) || contains(l, "ical"@)
}

pub fn contains_calendar_hint(value: &str) -> (r: bool)
    ensures
        r == calendar_hint(value@),
{
    let lower = to_lower(&chars_of(value));
    contains_chars(&lower, &chars_of("calendarexport")) || contains_chars(&lower, &chars_of("calendar"))
        || contains_chars(&lower, &chars_of("individualtimetablecalendarexport"))
        || contains_chars(&lower, &chars_of("timetablecalendar")) || contains_chars(&lower, &chars_of(".ics"))
        || contains_chars(&lower, &chars_of("ical"))
}

pub open spec fn pair_view(p: Option<(String, String)>) -> Option<(Seq<char>, Seq<char>)> {
    match p {
        Some(x) => Some((x.0@, x.1@)),
        None => None,
    }
}

/// The scheme and the serialization of a text read as an absolute URL.
pub uninterp spec fn parsed_url(s: Seq<char>) -> Option<(Seq<char>, Seq<char>)>;

/// The scheme and the serialization of a reference resolved against a base URL.
pub uninterp spec fn joined_url(base: Seq<char>, s: Seq<char>) -> Option<(Seq<char>, Seq<char>)>;

/// Relies on `url::Url::parse`: `None` where the text is no absolute URL.
#[verifier::external_body]
fn parse_absolute(s: &str) -> (r: Option<(String, String)>)
    ensures
        pair_view(r) == parsed_url(s@),
{
    url::Url::parse(s).ok().map(|u| (u.scheme().to_string(), u.to_string()))
}

/// Relies on `url::Url::join` on the base read by `url::Url::parse`: `None`
/// where either fails.
#[verifier::external_body]
fn join_url(base: &str, s: &str) -> (r: Option<(String, String)>)
    ensures
        pair_view(r) == joined_url(base@, s@),
{
    url::Url::parse(base).ok()?.join(s).ok().map(|u| (u.scheme().to_string(), u.to_string()))
}

/// The URL of a parse result whose scheme starts with `http`.
pub open spec fn http_only(p: Option<(Seq<char>, Seq<char>)>) -> Option<Seq<char>> {
    match p {
        Some(x) => if x.0.len() >= 4 && x.0.subrange(0, 4) == "http"@ {
            Some(x.1)
        } else {
            None
        },
        None => None,
    }
}

/// A candidate read as an absolute http(s) URL, else resolved against the
/// base; `None` where neither gives an http(s) URL.
pub open spec fn resolved(c: Seq<char>, base: Seq<char>) -> Option<Seq<char>> {
    if c.len() == 0 {
        None
    } else if http_only(parsed_url(c)) is Some {
        http_only(parsed_url(c))
    } else {
        http_only(joined_url(base, c))
    }
}

fn http_url(p: Option<(String, String)>) -> (r: Option<String>)
    ensures
        opt_view(r) == http_only(pair_view(p)),
{
    match p {
        Some(x) => {
            let scheme = chars_of(x.0.as_str());
            if scheme.len() >= 4 && same_chars(&slice_chars(&scheme, 0, 4), &chars_of("http")) {
                Some(x.1)
            } else {
                None
            }
        },
        None => None,
    }
}

pub fn resolve_url(candidate: &str, base: &str) -> (r: Option<String>)
    ensures
        opt_view(r) == resolved(candidate@, base@),
{
    if candidate.unicode_len() == 0 {
        return None;
    }
    let abs = http_url(parse_absolute(candidate));
    if abs.is_some() {
        return abs;
    }
    http_url(join_url(base, candidate))
}

/// The relevance of a navigation link to the calendar module: 3 where the
/// href names the flow, 2 where it names the module, 1 where the text holds
/// a timetable keyword, else 0.
pub open spec fn link_score(href: Seq<char>, text: Seq<char>, flow_id: Seq<char>) -> u8 {
    let h = lower_seq(href);
    let t = lower_seq(text);
    if contains(h, "_flowid="@ + lower_seq(flow_id)) {
        3
    } else if contains(h, "individualtimetable"@) {
        2
    } else if contains(t, "stundenplan"@) || contains(t, "timetable"@) {
        1
    } else {
        0
    }
}

pub fn score_link(href: &str, text: &str, flow_id: &str) -> (r: u8)
    ensures
        r == link_score(href@, text@, flow_id@),
{
    let h = to_lower(&chars_of(href));
    let t = to_lower(&chars_of(text));
    let mut marker = chars_of("_flowid=");
    push_all(&mut marker, &to_lower(&chars_of(flow_id)));
    if contains_chars(&h, &marker) {
        3
    } else if contains_chars(&h, &chars_of("individualtimetable")) {
        2
    } else if contains_chars(&t, &chars_of("stundenplan")) || contains_chars(&t, &chars_of("timetable")) {
        1
    } else {
        0
    }
}

/// A scored link: its relevance and, where it resolved, its absolute URL.
pub struct Candidate {
    pub score: u8,
    pub url: Option<String>,
}

pub open spec fn cand_view(c: Candidate) -> (u8, Option<Seq<char>>) {
    (c.score, opt_view(c.url))
}

pub open spec fn cands_view(cs: Seq<Candidate>) -> Seq<(u8, Option<Seq<char>>)> {
    cs.map_values(|c: Candidate| cand_view(c))
}

/// A candidate that counts: scored above 0, with a URL.
pub open spec fn usable(cs: Seq<(u8, Option<Seq<char>>)>, j: int) -> bool {
    0 <= j < cs.len() && cs[j].0 > 0 && cs[j].1 is Some
}

/// Candidate `b` is the one chosen: usable, scored at least as high as every
/// usable candidate, and higher than every usable one before it.
pub open spec fn is_best(cs: Seq<(u8, Option<Seq<char>>)>, b: int) -> bool {
    &&& usable(cs, b)
    &&& forall|j: int| usable(cs, j) ==> cs[j].0 <= cs[b].0
    &&& forall|j: int| 0 <= j < b && usable(cs, j) ==> cs[j].0 < cs[b].0
}

/// `r` is the URL of the chosen candidate, or `None` where none is usable.
pub open spec fn best_url(cs: Seq<(u8, Option<Seq<char>>)>, r: Option<Seq<char>>) -> bool {
    match r {
        None => forall|j: int| !usable(cs, j),
        Some(u) => exists|b: int| is_best(cs, b) && cs[b].1 == Some(u),
    }
}

/// Of two usable candidates, one scored strictly higher is chosen over the
/// other, whichever comes first.
pub proof fn lemma_higher_score_wins(cs: Seq<(u8, Option<Seq<char>>)>, b: int, i: int, k: int)
    requires
        is_best(cs, b),
        usable(cs, i),
        usable(cs, k),
        cs[i].0 > cs[k].0,
    ensures
        b != k,
{
}

/// The index of the best candidate: the highest score, the earliest on a tie.
pub fn pick_best(cs: &Vec<Candidate>) -> (r: Option<usize>)
    ensures
        r is None <==> forall|j: int| !usable(cands_view(cs@), j),
        r matches Some(b) ==> is_best(cands_view(cs@), b as int),
{
    let ghost v = cands_view(cs@);
    let mut best: Option<usize> = None;
    let mut i: usize = 0;
    while i < cs.len()
        invariant
            i <= cs.len(),
            v == cands_view(cs@),
            best is None <==> forall|j: int| 0 <= j < i ==> !usable(v, j),
            best matches Some(b) ==> b < i && usable(v, b as int)
                && (forall|j: int| 0 <= j < i && usable(v, j) ==> v[j].0 <= v[b as int].0)
                && (forall|j: int| 0 <= j < b && usable(v, j) ==> v[j].0 < v[b as int].0),
        decreases cs.len() - i,
    {
        assert(v[i as int] == cand_view(cs@[i as int]));
        assert(usable(v, i as int) == (cs@[i as int].score > 0 && cs@[i as int].url is Some));
        if cs[i].score > 0 && cs[i].url.is_some() {
            match best {
                None => {
                    best = Some(i);
                },
                Some(b) => {
                    assert(v[b as int] == cand_view(cs@[b as int]));
                    if cs[i].score > cs[b].score {
                        best = Some(i);
                    }
                },
            }
        }
        i = i + 1;
    }
    best
}

/// The candidate of one anchor: unscored where its href is missing or empty.
pub open spec fn menu_candidate(e: (Seq<(Seq<char>, Seq<char>)>, Seq<char>), base: Seq<char>, flow_id: Seq<char>) -> (u8, Option<Seq<char>>) {
    match attr_of(e.0, "href"@) {
        Some(h) => if h.len() == 0 {
            (0u8, None)
        } else {
            let s = link_score(h, normalized(e.1), flow_id);
            if s == 0 { (0u8, None) } else { (s, resolved(h, base)) }
        },
        None => (0u8, None),
    }
}

pub open spec fn menu_candidates(html: Seq<char>, base: Seq<char>, flow_id: Seq<char>) -> Seq<(u8, Option<Seq<char>>)> {
    candidates_of(selected(html, "a[href]"@), base, flow_id)
}

/// The scored candidate of one anchor.
pub fn anchor_candidate(e: &Element, base: &str, flow_id: &str) -> (r: Candidate)
    ensures
        cand_view(r) == menu_candidate(element_view(*e), base@, flow_id@),
{
    match attribute(e, "href") {
        Some(h) => {
            if h.as_str().unicode_len() == 0 {
                Candidate { score: 0, url: None }
            } else {
                let text = normalize_text(e.text.as_str());
                let score = score_link(h.as_str(), text.as_str(), flow_id);
                if score == 0 {
                    Candidate { score: 0, url: None }
                } else {
                    Candidate { score, url: resolve_url(h.as_str(), base) }
                }
            }
        },
        None => Candidate { score: 0, url: None },
    }
}

pub open spec fn candidates_of(es: Seq<(Seq<(Seq<char>, Seq<char>)>, Seq<char>)>, base: Seq<char>, flow_id: Seq<char>) -> Seq<(u8, Option<Seq<char>>)> {
    Seq::new(es.len(), |j: int| menu_candidate(es[j], base, flow_id))
}

/// The best of the given anchors as a link to the calendar module: the
/// highest-scored one with a resolvable href, the earliest on a tie.
pub fn best_menu_link(anchors: &Vec<Element>, base: &str, flow_id: &str) -> (r: Option<String>)
    ensures
        best_url(candidates_of(elements_view(anchors@), base@, flow_id@), opt_view(r)),
{
    let ghost es = elements_view(anchors@);
    let ghost want = candidates_of(es, base@, flow_id@);
    let mut cs: Vec<Candidate> = Vec::new();
    let mut i: usize = 0;
    while i < anchors.len()
        invariant
            i <= anchors.len(),
            elements_view(anchors@) == es,
            want == candidates_of(es, base@, flow_id@),
            cands_view(cs@) == want.subrange(0, i as int),
        decreases anchors.len() - i,
    {
        let c = anchor_candidate(&anchors[i], base, flow_id);
        assert(es[i as int] == element_view(anchors@[i as int]));
        assert(cand_view(c) == want[i as int]);
        let ghost prev = cs@;
        cs.push(c);
        assert(cs@ == prev.push(c));
        assert(cands_view(cs@) =~= cands_view(prev).push(cand_view(c)));
        i = i + 1;
    }
    assert(cands_view(cs@) =~= want);
    match pick_best(&cs) {
        Some(b) => {
            let r = match &cs[b].url {
                Some(u) => Some(string_of(&chars_of(u.as_str()))),
                None => None,
            };
            assert(cands_view(cs@)[b as int] == cand_view(cs@[b as int]));
            r
        },
        None => None,
    }
}

/// The link on a landing page that leads to the calendar module: the best
/// of its anchors with an href.
pub fn find_timetable_menu_link(html: &str, base: &str, flow_id: &str) -> (r: Option<String>)
    ensures
        best_url(menu_candidates(html@, base@, flow_id@), opt_view(r)),
{
    let anchors = select_elements(html, "a[href]");
    best_menu_link(&anchors, base, flow_id)
}

/// The attribute `attr` of the first element that `selector` picks.
pub open spec fn input_value_spec(html: Seq<char>, selector: Seq<char>, attr: Seq<char>) -> Option<Seq<char>> {
    let es = selected(html, selector);
    if es.len() > 0 {
        attr_of(es[0].0, attr)
    } else {
        None
    }
}

pub fn find_input_value(html: &str, selector: &str, attr: &str) -> (r: Option<String>)
    ensures
        opt_view(r) == input_value_spec(html@, selector@, attr@),
{
    let es = select_elements(html, selector);
    if es.len() == 0 {
        return None;
    }
    assert(selected(html@, selector@)[0] == element_view(es@[0]));
    attribute(&es[0], attr)
}

/// The type of an input element, in ASCII lower case; empty where it has none.
pub open spec fn input_type(attrs: Seq<(Seq<char>, Seq<char>)>) -> Seq<char> {
    match attr_of(attrs, "type"@) {
        Some(t) => lower_seq(t),
        None => Seq::empty(),
    }
}

/// A password input, or (for `password == false`) a text or e-mail input.
pub open spec fn field_kind(attrs: Seq<(Seq<char>, Seq<char>)>, password: bool) -> bool {
    if password {
        input_type(attrs) == "password"@
    } else {
        input_type(attrs) == "text"@ || input_type(attrs) == "email"@
    }
}

/// The name of the first input at or after `i` of the kind that has a name.
pub open spec fn field_name_from(es: Seq<(Seq<(Seq<char>, Seq<char>)>, Seq<char>)>, password: bool, i: int) -> Option<Seq<char>>
    decreases es.len() - i,
{
    if i < 0 || i >= es.len() {
        None
    } else if field_kind(es[i].0, password) && attr_of(es[i].0, "name"@) is Some {
        attr_of(es[i].0, "name"@)
    } else {
        field_name_from(es, password, i + 1)
    }
}

pub open spec fn or_default(v: Option<Seq<char>>, d: Seq<char>) -> Seq<char> {
    match v {
        Some(x) => x,
        None => d,
    }
}

/// The name of the first named input of the kind among `inputs`.
pub fn field_name(inputs: &Vec<Element>, password: bool) -> (r: Option<String>)
    ensures
        opt_view(r) == field_name_from(elements_view(inputs@), password, 0),
{
    let ghost es = elements_view(inputs@);
    let mut i: usize = 0;
    while i < inputs.len()
        invariant
            i <= inputs.len(),
            es == elements_view(inputs@),
            field_name_from(es, password, 0) == field_name_from(es, password, i as int),
        decreases inputs.len() - i,
    {
        let e = &inputs[i];
        assert(es[i as int] == element_view(*e));
        let t = match attribute(e, "type") {
            Some(t) => to_lower(&chars_of(t.as_str())),
            None => Vec::new(),
        };
        assert(t@ == input_type(es[i as int].0));
        let kind = if password {
            same_chars(&t, &chars_of("password"))
        } else {
            same_chars(&t, &chars_of("text")) || same_chars(&t, &chars_of("email"))
        };
        if kind {
            let name = attribute(e, "name");
            if name.is_some() {
                return name;
            }
        }
        i = i + 1;
    }
    None
}

/// The names of the login form's user and password fields: the first named
/// text or e-mail input, and the first named password input; fixed
/// placeholder names where there is none.
pub fn find_credential_fields(html: &str) -> (r: (String, String))
    ensures
        r.0@ == or_default(field_name_from(selected(html@, "input"@), false, 0), "asdf"@),
        r.1@ == or_default(field_name_from(selected(html@, "input"@), true, 0), "fdsa"@),
{
    let inputs = select_elements(html, "input");
    let user = match field_name(&inputs, false) {
        Some(n) => n,
        None => string_of(&chars_of("asdf")),
    };
    let pass = match field_name(&inputs, true) {
        Some(n) => n,
        None => string_of(&chars_of("fdsa")),
    };
    (user, pass)
}

pub open spec fn pairs_view(p: Option<Vec<Attr>>) -> Option<Seq<(Seq<char>, Seq<char>)>> {
    match p {
        Some(v) => Some(attrs_view(v@)),
        None => None,
    }
}

/// The decoded query pairs of a text read as an absolute URL, in order.
pub uninterp spec fn query_pairs_of(s: Seq<char>) -> Option<Seq<(Seq<char>, Seq<char>)>>;

/// Relies on `url::Url::parse` and `Url::query_pairs`: the decoded pairs of
/// the query in order; `None` where the text is no absolute URL.
#[verifier::external_body]
pub(crate) fn query_pairs(s: &str) -> (r: Option<Vec<Attr>>)
    ensures
        pairs_view(r) == query_pairs_of(s@),
{
    let u = url::Url::parse(s).ok()?;
    Some(u.query_pairs().map(|(k, v)| Attr { name: k.into_owned(), value: v.into_owned() }).collect())
}

/// The first position at or after `i` where `t` occurs in `s`.
pub open spec fn first_occ_from(s: Seq<char>, t: Seq<char>, i: int) -> Option<int>
    decreases s.len() + 1 - i,
{
    if i < 0 || i + t.len() > s.len() {
        None
    } else if s.subrange(i, i + t.len()) == t {
        Some(i)
    } else {
        first_occ_from(s, t, i + 1)
    }
}

/// The first position where `t` occurs in `s`.
pub fn find_chars(s: &Vec<char>, t: &Vec<char>) -> (r: Option<usize>)
    ensures
        r is None <==> first_occ_from(s@, t@, 0) is None,
        r matches Some(k) ==> first_occ_from(s@, t@, 0) == Some(k as int) && k + t@.len() <= s@.len(),
{
    if t.len() > s.len() {
        return None;
    }
    let last = s.len() - t.len();
    let mut i: usize = 0;
    while i <= last
        invariant
            last == s.len() - t.len(),
            t.len() <= s.len(),
            first_occ_from(s@, t@, 0) == first_occ_from(s@, t@, i as int),
        decreases last + 1 - i,
    {
        if same_chars(&slice_chars(s, i, i + t.len()), t) {
            return Some(i);
        }
        if i == last {
            assert(first_occ_from(s@, t@, i + 1) is None);
            return None;
        }
        i = i + 1;
    }
    None
}

pub open spec fn is_alnum(c: char) -> bool {
    ('0' <= c && c <= '9') || ('a' <= c && c <= 'z') || ('A' <= c && c <= 'Z')
}

/// The end of the run of ASCII letters and digits of `s` that starts at `i`.
pub open spec fn alnum_end(s: Seq<char>, i: int) -> int
    decreases s.len() - i,
{
    if 0 <= i < s.len() && is_alnum(s[i]) {
        alnum_end(s, i + 1)
    } else {
        i
    }
}

/// The run of letters and digits after the first flow-key marker of a text.
pub open spec fn flow_key_in_text(s: Seq<char>) -> Option<Seq<char>> {
    match first_occ_from(s, "_flowExecutionKey="@, 0) {
        Some(k) => {
            let a = k + "_flowExecutionKey="@.len();
            if alnum_end(s, a) > a {
                Some(s.subrange(a, alnum_end(s, a)))
            } else {
                None
            }
        },
        None => None,
    }
}

/// A flow execution key named by a URL or a text: the value of the key's
/// query pair where the text is a URL that has one, else the letters and
/// digits after the first key marker.
pub open spec fn flow_key_of(s: Seq<char>) -> Option<Seq<char>> {
    match query_pairs_of(s) {
        Some(ps) => if attr_of(ps, "_flowExecutionKey"@) is Some {
            attr_of(ps, "_flowExecutionKey"@)
        } else {
            flow_key_in_text(s)
        },
        None => flow_key_in_text(s),
    }
}

pub fn extract_flow_key_from_str(input: &str) -> (r: Option<String>)
    ensures
        opt_view(r) == flow_key_of(input@),
{
    match query_pairs(input) {
        Some(ps) => {
            let v = lookup_attr(&ps, "_flowExecutionKey");
            if v.is_some() {
                return v;
            }
        },
        None => {},
    }
    let s = chars_of(input);
    let marker = chars_of("_flowExecutionKey=");
    let found = find_chars(&s, &marker);
    match found {
        Some(k) => {
            let n: usize = s.len();
            assert(k + marker@.len() <= n);
            let a = k + marker.len();
            let mut e: usize = a;
            while e < s.len() && is_alnum_exec(s[e])
                invariant
                    a <= e <= s.len(),
                    alnum_end(s@, a as int) == alnum_end(s@, e as int),
                decreases s.len() - e,
            {
                e = e + 1;
            }
            if e > a {
                Some(string_of(&slice_chars(&s, a, e)))
            } else {
                None
            }
        },
        None => None,
    }
}

fn is_alnum_exec(c: char) -> (r: bool)
    ensures
        r == is_alnum(c),
{
    ('0' <= c && c <= '9') || ('a' <= c && c <= 'z') || ('A' <= c && c <= 'Z')
}

/// Group 1 of the first match of a regular expression in a text.
pub uninterp spec fn first_capture(pattern: Seq<char>, text: Seq<char>) -> Option<Seq<char>>;

/// Relies on `regex::Regex::new` and `Regex::captures`: group 1 of the
/// leftmost match; `None` where there is none or the pattern does not compile.
#[verifier::external_body]
fn capture_group(pattern: &str, text: &str) -> (r: Option<String>)
    ensures
        opt_view(r) == first_capture(pattern@, text@),
{
    let re = regex::Regex::new(pattern).ok()?;
    re.captures(text)?.get(1).map(|m| m.as_str().to_string())
}

/// Every match of a regular expression in a text, leftmost first, not overlapping.
pub uninterp spec fn all_matches(pattern: Seq<char>, text: Seq<char>) -> Seq<Seq<char>>;

pub open spec fn strs_view(v: Seq<String>) -> Seq<Seq<char>> {
    v.map_values(|x: String| x@)
}

/// Relies on `regex::Regex::new` and `Regex::find_iter`: the matched texts in
/// order; none where the pattern does not compile.
#[verifier::external_body]
fn find_all(pattern: &str, text: &str) -> (r: Vec<String>)
    ensures
        strs_view(r@) == all_matches(pattern@, text@),
{
    match regex::Regex::new(pattern) {
        Ok(re) => re.find_iter(text).map(|m| m.as_str().to_string()).collect(),
        Err(_) => Vec::new(),
    }
}

/// The trimmed value of the first element that `selector` picks, where it is
/// not empty.
pub open spec fn key_field(html: Seq<char>, selector: Seq<char>) -> Option<Seq<char>> {
    match input_value_spec(html, selector, "value"@) {
        Some(v) => if trim(v).len() > 0 { Some(trim(v)) } else { None },
        None => None,
    }
}

/// The key named by the first anchor whose href holds the key marker.
pub open spec fn key_anchor(html: Seq<char>) -> Option<Seq<char>> {
    match input_value_spec(html, "a[href*='_flowExecutionKey=']"@, "href"@) {
        Some(h) => flow_key_of(h),
        None => None,
    }
}

/// The key named by the redirect target of a meta-refresh element.
pub open spec fn meta_key(attrs: Seq<(Seq<char>, Seq<char>)>) -> Option<Seq<char>> {
    match attr_of(attrs, "http-equiv"@) {
        Some(q) => if lower_seq(q) == "refresh"@ {
            match attr_of(attrs, "content"@) {
                Some(c) => match first_occ_from(lower_seq(c), "url="@, 0) {
                    Some(k) => flow_key_of(c.subrange(k + 4, c.len() as int)),
                    None => None,
                },
                None => None,
            }
        } else {
            None
        },
        None => None,
    }
}

pub open spec fn meta_key_from(es: Seq<(Seq<(Seq<char>, Seq<char>)>, Seq<char>)>, i: int) -> Option<Seq<char>>
    decreases es.len() - i,
{
    if i < 0 || i >= es.len() {
        None
    } else if meta_key(es[i].0) is Some {
        meta_key(es[i].0)
    } else {
        meta_key_from(es, i + 1)
    }
}

/// The flow execution key of a page, from the first of these that gives one:
/// the key form field by name, then by id; the first anchor that carries the
/// key; a meta-refresh redirect; the letters and digits after the first key
/// marker anywhere in the page.
pub open spec fn flow_key_in_html(html: Seq<char>) -> Option<Seq<char>> {
    or_else(key_field(html, "input[name='_flowExecutionKey']"@),
    or_else(key_field(html, "input#_flowExecutionKey"@),
    or_else(key_anchor(html),
    or_else(meta_key_from(selected(html, "meta[http-equiv]"@), 0),
    first_capture("_flowExecutionKey=([A-Za-z0-9]+)"@, html)))))
}

/// The trimmed, non-empty value of the first element that `selector` picks.
pub fn key_from_field(html: &str, selector: &str) -> (r: Option<String>)
    ensures
        opt_view(r) == key_field(html@, selector@),
{
    match find_input_value(html, selector, "value") {
        Some(v) => {
            let t = trim_chars(&chars_of(v.as_str()));
            if t.len() > 0 {
                Some(string_of(&t))
            } else {
                None
            }
        },
        None => None,
    }
}

/// The flow key in the redirect target of a meta-refresh element.
pub fn key_from_meta(e: &Element) -> (r: Option<String>)
    ensures
        opt_view(r) == meta_key(attrs_view(e.attrs@)),
{
    let q = match attribute(e, "http-equiv") {
        Some(q) => q,
        None => return None,
    };
    if !same_chars(&to_lower(&chars_of(q.as_str())), &chars_of("refresh")) {
        return None;
    }
    let content = match attribute(e, "content") {
        Some(c) => chars_of(c.as_str()),
        None => return None,
    };
    let lower = to_lower(&content);
    let found = find_chars(&lower, &chars_of("url="));
    match found {
        Some(k) => {
            let n: usize = content.len();
            proof {
                reveal_strlit("url=");
            }
            assert(k + 4 <= n);
            extract_flow_key_from_str(string_of(&slice_chars(&content, k + 4, content.len())).as_str())
        },
        None => None,
    }
}

pub fn extract_flow_key_from_html(html: &str) -> (r: Option<String>)
    ensures
        opt_view(r) == flow_key_in_html(html@),
{
    let r = key_from_field(html, "input[name='_flowExecutionKey']");
    if r.is_some() {
        return r;
    }
    let r = key_from_field(html, "input#_flowExecutionKey");
    if r.is_some() {
        return r;
    }
    let r = match find_input_value(html, "a[href*='_flowExecutionKey=']", "href") {
        Some(h) => extract_flow_key_from_str(h.as_str()),
        None => None,
    };
    if r.is_some() {
        return r;
    }
    let metas = select_elements(html, "meta[http-equiv]");
    let ghost es = selected(html@, "meta[http-equiv]"@);
    assert(flow_key_in_html(html@) == or_else(meta_key_from(es, 0), first_capture("_flowExecutionKey=([A-Za-z0-9]+)"@, html@)));
    let mut i: usize = 0;
    while i < metas.len()
        invariant
            i <= metas.len(),
            elements_view(metas@) == es,
            flow_key_in_html(html@) == or_else(meta_key_from(es, 0), first_capture("_flowExecutionKey=([A-Za-z0-9]+)"@, html@)),
            meta_key_from(es, 0) == meta_key_from(es, i as int),
        decreases metas.len() - i,
    {
        assert(es[i as int] == element_view(metas@[i as int]));
        let k = key_from_meta(&metas[i]);
        assert(es.len() == metas@.len());
        if k.is_some() {
            assert(meta_key_from(es, i as int) == opt_view(k));
            return k;
        }
        i = i + 1;
    }
    capture_group("_flowExecutionKey=([A-Za-z0-9]+)", html)
}

/// The first value at or after `i` that is not empty, carries a calendar
/// hint and resolves to a URL.
pub open spec fn url_in_values(vals: Seq<Seq<char>>, base: Seq<char>, i: int) -> Option<Seq<char>>
    decreases vals.len() - i,
{
    if i < 0 || i >= vals.len() {
        None
    } else if vals[i].len() > 0 && calendar_hint(vals[i]) && resolved(vals[i], base) is Some {
        resolved(vals[i], base)
    } else {
        url_in_values(vals, base, i + 1)
    }
}

/// The first value that carries a calendar hint and resolves to a URL.
pub fn find_calendar_url_in_values(values: &Vec<String>, base: &str) -> (r: Option<String>)
    ensures
        opt_view(r) == url_in_values(strs_view(values@), base@, 0),
{
    let ghost vs = strs_view(values@);
    let mut i: usize = 0;
    while i < values.len()
        invariant
            i <= values.len(),
            vs == strs_view(values@),
            url_in_values(vs, base@, 0) == url_in_values(vs, base@, i as int),
        decreases values.len() - i,
    {
        let v = values[i].as_str();
        assert(vs[i as int] == v@);
        if v.unicode_len() > 0 && contains_calendar_hint(v) {
            let u = resolve_url(v, base);
            if u.is_some() {
                return u;
            }
        }
        i = i + 1;
    }
    None
}

/// The non-empty decoded and trimmed values of the attributes `keys[i..]`, in order.
pub open spec fn attr_values(attrs: Seq<(Seq<char>, Seq<char>)>, keys: Seq<Seq<char>>, i: int) -> Seq<Seq<char>>
    decreases keys.len() - i,
{
    if i < 0 || i >= keys.len() {
        Seq::empty()
    } else {
        let rest = attr_values(attrs, keys, i + 1);
        match attr_of(attrs, keys[i]) {
            Some(v) => if trim(entities_decoded(v)).len() > 0 {
                seq![trim(entities_decoded(v))] + rest
            } else {
                rest
            },
            None => rest,
        }
    }
}

fn push_attr_value(values: &mut Vec<String>, e: &Element, key: &str)
    ensures
        strs_view(final(values)@) == strs_view(old(values)@) + match attr_of(attrs_view(e.attrs@), key@) {
            Some(v) => if trim(entities_decoded(v)).len() > 0 { seq![trim(entities_decoded(v))] } else { Seq::empty() },
            None => Seq::empty(),
        },
{
    let ghost before = values@;
    match attribute(e, key) {
        Some(v) => {
            let d = trim_chars(&chars_of(decode_entities(v.as_str()).as_str()));
            if d.len() > 0 {
                values.push(string_of(&d));
                assert(strs_view(values@) =~= strs_view(before) + seq![d@]);
            } else {
                assert(strs_view(values@) =~= strs_view(before) + Seq::<Seq<char>>::empty());
            }
        },
        None => {
            assert(strs_view(values@) =~= strs_view(before) + Seq::<Seq<char>>::empty());
        },
    }
}

pub open spec fn text_values(text: Seq<char>) -> Seq<Seq<char>> {
    if normalized(text).len() > 0 {
        seq![normalized(text)]
    } else {
        Seq::empty()
    }
}

pub open spec fn node_keys() -> Seq<Seq<char>> {
    seq!["data-page-permalink"@, "data-page-permalink-title"@, "data-url"@, "value"@]
}

/// The values of a form element that may hold a calendar URL: its visible
/// text, then its permalink, URL and value attributes.
pub open spec fn node_values(e: (Seq<(Seq<char>, Seq<char>)>, Seq<char>)) -> Seq<Seq<char>> {
    text_values(e.1) + attr_values(e.0, node_keys(), 0)
}

/// The values of an anchor that may hold a calendar URL: its href, then its
/// visible text.
pub open spec fn anchor_values(e: (Seq<(Seq<char>, Seq<char>)>, Seq<char>)) -> Seq<Seq<char>> {
    attr_values(e.0, seq!["href"@], 0) + text_values(e.1)
}

fn push_text_value(values: &mut Vec<String>, e: &Element)
    ensures
        strs_view(final(values)@) == strs_view(old(values)@) + text_values(e.text@),
{
    let ghost before = values@;
    let text = normalize_text(e.text.as_str());
    if text.as_str().unicode_len() > 0 {
        values.push(text);
        assert(strs_view(values@) =~= strs_view(before) + text_values(e.text@));
    } else {
        assert(strs_view(values@) =~= strs_view(before) + text_values(e.text@));
    }
}

/// The values of an element that may hold a calendar URL.
pub fn values_of_node(e: &Element, anchor: bool) -> (r: Vec<String>)
    ensures
        strs_view(r@) == if anchor { anchor_values(element_view(*e)) } else { node_values(element_view(*e)) },
{
    let ghost attrs = attrs_view(e.attrs@);
    let mut values: Vec<String> = Vec::new();
    if anchor {
        push_attr_value(&mut values, e, "href");
        push_text_value(&mut values, e);
        proof {
            let keys = seq!["href"@];
            assert(attr_values(attrs, keys, 1) == Seq::<Seq<char>>::empty());
        }
        assert(strs_view(values@) =~= anchor_values(element_view(*e)));
    } else {
        push_text_value(&mut values, e);
        push_attr_value(&mut values, e, "data-page-permalink");
        push_attr_value(&mut values, e, "data-page-permalink-title");
        push_attr_value(&mut values, e, "data-url");
        push_attr_value(&mut values, e, "value");
        proof {
            let keys = node_keys();
            reveal_with_fuel(attr_values, 5);
            assert(attr_values(attrs, keys, 4) == Seq::<Seq<char>>::empty());
            assert(keys[3] == "value"@);
            assert(keys[2] == "data-url"@);
            assert(keys[1] == "data-page-permalink-title"@);
            assert(keys[0] == "data-page-permalink"@);
        }
        assert(strs_view(values@) =~= node_values(element_view(*e)));
    }
    values
}

/// The first element at or after `i` whose values give a calendar URL.
pub open spec fn url_in_nodes(es: Seq<(Seq<(Seq<char>, Seq<char>)>, Seq<char>)>, base: Seq<char>, anchor: bool, i: int) -> Option<Seq<char>>
    decreases es.len() - i,
{
    if i < 0 || i >= es.len() {
        None
    } else {
        let vals = if anchor { anchor_values(es[i]) } else { node_values(es[i]) };
        if url_in_values(vals, base, 0) is Some {
            url_in_values(vals, base, 0)
        } else {
            url_in_nodes(es, base, anchor, i + 1)
        }
    }
}

/// The first of the given elements whose values give a calendar URL.
pub fn calendar_url_in_elements(nodes: &Vec<Element>, base: &str, anchor: bool) -> (r: Option<String>)
    ensures
        opt_view(r) == url_in_nodes(elements_view(nodes@), base@, anchor, 0),
{
    let ghost es = elements_view(nodes@);
    let mut i: usize = 0;
    while i < nodes.len()
        invariant
            i <= nodes.len(),
            elements_view(nodes@) == es,
            url_in_nodes(es, base@, anchor, 0) == url_in_nodes(es, base@, anchor, i as int),
        decreases nodes.len() - i,
    {
        assert(es[i as int] == element_view(nodes@[i as int]));
        let u = find_calendar_url_in_values(&values_of_node(&nodes[i], anchor), base);
        assert(es.len() == nodes@.len());
        if u.is_some() {
            assert(url_in_nodes(es, base@, anchor, i as int) == opt_view(u));
            return u;
        }
        i = i + 1;
    }
    None
}

fn url_in_selection(html: &str, selector: &str, base: &str, anchor: bool) -> (r: Option<String>)
    ensures
        opt_view(r) == url_in_nodes(selected(html@, selector@), base@, anchor, 0),
{
    calendar_url_in_elements(&select_elements(html, selector), base, anchor)
}

/// A text that looks like a URL, anywhere in a page.
pub open spec fn url_pattern() -> Seq<char> {
    "https?://[A-Za-z0-9\\-._~:/?#\\[\\]@!$&'()*+,;=%]+"@
}

/// The first URL-shaped match at or after `i` that names a calendar and resolves.
pub open spec fn url_in_matches(ms: Seq<Seq<char>>, base: Seq<char>, i: int) -> Option<Seq<char>>
    decreases ms.len() - i,
{
    if i < 0 || i >= ms.len() {
        None
    } else {
        let c = trim(entities_decoded(ms[i]));
        if (calendar_hint(c) || contains(lower_seq(c), ".ics"@)) && resolved(c, base) is Some {
            resolved(c, base)
        } else {
            url_in_matches(ms, base, i + 1)
        }
    }
}

/// The calendar export URL of a timetable page, from the first of these that
/// gives one: text areas whose id or data names a calendar export, any text
/// area, any input, any anchor, and URL-shaped text anywhere in the page.
pub open spec fn ics_url_in(html: Seq<char>, base: Seq<char>) -> Option<Seq<char>> {
    or_else(url_in_nodes(selected(html, "textarea[id*='cal_add']"@), base, false, 0),
    or_else(url_in_nodes(selected(html, "textarea[id*='ical']"@), base, false, 0),
    or_else(url_in_nodes(selected(html, "textarea[id*='calendar']"@), base, false, 0),
    or_else(url_in_nodes(selected(html, "textarea[data-page-permalink]"@), base, false, 0),
    or_else(url_in_nodes(selected(html, "textarea[data-url]"@), base, false, 0),
    or_else(url_in_nodes(selected(html, "textarea"@), base, false, 0),
    or_else(url_in_nodes(selected(html, "input"@), base, false, 0),
    or_else(url_in_nodes(selected(html, "a[href]"@), base, true, 0),
    url_in_matches(all_matches(url_pattern(), html), base, 0)))))))))
}

pub fn find_ics_url(html: &str, base: &str) -> (r: Option<String>)
    ensures
        opt_view(r) == ics_url_in(html@, base@),
{
    let r = url_in_selection(html, "textarea[id*='cal_add']", base, false);
    if r.is_some() {
        return r;
    }
    let r = url_in_selection(html, "textarea[id*='ical']", base, false);
    if r.is_some() {
        return r;
    }
    let r = url_in_selection(html, "textarea[id*='calendar']", base, false);
    if r.is_some() {
        return r;
    }
    let r = url_in_selection(html, "textarea[data-page-permalink]", base, false);
    if r.is_some() {
        return r;
    }
    let r = url_in_selection(html, "textarea[data-url]", base, false);
    if r.is_some() {
        return r;
    }
    let r = url_in_selection(html, "textarea", base, false);
    if r.is_some() {
        return r;
    }
    let r = url_in_selection(html, "input", base, false);
    if r.is_some() {
        return r;
    }
    let r = url_in_selection(html, "a[href]", base, true);
    if r.is_some() {
        return r;
    }
    let ms = find_all("https?://[A-Za-z0-9\\-._~:/?#\\[\\]@!$&'()*+,;=%]+", html);
    let ghost mv = strs_view(ms@);
    assert(ics_url_in(html@, base@) == url_in_matches(mv, base@, 0));
    let mut i: usize = 0;
    while i < ms.len()
        invariant
            i <= ms.len(),
            ics_url_in(html@, base@) == url_in_matches(mv, base@, 0),
            mv == strs_view(ms@),
            mv == all_matches(url_pattern(), html@),
            url_in_matches(mv, base@, 0) == url_in_matches(mv, base@, i as int),
        decreases ms.len() - i,
    {
        assert(mv[i as int] == ms@[i as int]@);
        let c = string_of(&trim_chars(&chars_of(decode_entities(ms[i].as_str()).as_str())));
        if contains_calendar_hint(c.as_str()) || contains_chars(&to_lower(&chars_of(c.as_str())), &chars_of(".ics")) {
            let u = resolve_url(c.as_str(), base);
            assert(mv.len() == ms@.len());
            if u.is_some() {
                assert(url_in_matches(mv, base@, i as int) == opt_view(u));
                return u;
            }
        }
        i = i + 1;
    }
    None
}

} // verus!
