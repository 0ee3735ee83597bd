use vstd::prelude::*;
use crate::text::{chars_of, push_all, same_chars, string_of, to_upper, upper_seq};

verus! {

/// How often an event repeats.
#[derive(Debug)]
pub enum Recurrence {
    Daily,
    Weekly,
    Monthly,
    Yearly,
    /// Any other frequency token, kept as it was written.
    Custom(String),
}

/// One occurrence of a timetabled event.
#[derive(Debug)]
pub struct TimetableEntry {
    pub date: String,
    pub time: String,
    pub title: String,
    pub location: String,
    pub recurrence: Option<Recurrence>,
}

impl Recurrence {
    /// The text a recurrence renders as.
    pub open spec fn label(&self) -> Seq<char> {
        match self {
            Recurrence::Daily => "Daily"@,
            Recurrence::Weekly => "Weekly"@,
            Recurrence::Monthly => "Monthly"@,
            Recurrence::Yearly => "Yearly"@,
            Recurrence::Custom(s) => s@,
        }
    }

    /// `r` is what a frequency token `freq` stands for: the four known
    /// frequencies in any ASCII case, any other non-empty token verbatim, and
    /// nothing for an empty token.
    pub open spec fn from_freq_spec(freq: Seq<char>, r: Option<Recurrence>) -> bool {
        let u = upper_seq(freq);
        if u == "DAILY"@ {
            r == Some(Recurrence::Daily)
        } else if u == "WEEKLY"@ {
            r == Some(Recurrence::Weekly)
        } else if u == "MONTHLY"@ {
            r == Some(Recurrence::Monthly)
        } else if u == "YEARLY"@ {
            r == Some(Recurrence::Yearly)
        } else if u.len() == 0 {
            r is None
        } else {
            r matches Some(Recurrence::Custom(s)) && s@ == freq
        }
    }

    pub fn from_freq(freq: &str) -> (r: Option<Recurrence>)
        ensures
            Self::from_freq_spec(freq@, r),
    {
        let u = to_upper(&chars_of(freq));
        if same_chars(&u, &chars_of("DAILY")) {
            Some(Recurrence::Daily)
        } else if same_chars(&u, &chars_of("WEEKLY")) {
            Some(Recurrence::Weekly)
        } else if same_chars(&u, &chars_of("MONTHLY")) {
            Some(Recurrence::Monthly)
        } else if same_chars(&u, &chars_of("YEARLY")) {
            Some(Recurrence::Yearly)
        } else if u.len() == 0 {
            None
        } else {
            Some(Recurrence::Custom(string_of(&chars_of(freq))))
        }
    }

    /// The recurrence as text: its name, or the custom token.
    pub fn render(&self) -> (r: String)
        ensures
            r@ == self.label(),
    {
        match self {
            Recurrence::Daily => string_of(&chars_of("Daily")),
            Recurrence::Weekly => string_of(&chars_of("Weekly")),
            Recurrence::Monthly => string_of(&chars_of("Monthly")),
            Recurrence::Yearly => string_of(&chars_of("Yearly")),
            Recurrence::Custom(s) => string_of(&chars_of(s.as_str())),
        }
    }
}

/// `a` and `b` joined by one space, where neither is empty; else the non-empty one.
pub open spec fn join_space(a: Seq<char>, b: Seq<char>) -> Seq<char> {
    if a.len() == 0 {
        b
    } else if b.len() == 0 {
        a
    } else {
        a + seq![' '] + b
    }
}

/// The non-empty parts among date, time and title, joined by spaces, then
/// `" @ <location>"` when there is a location (the location alone when no
/// part is there).
pub open spec fn entry_line(date: Seq<char>, time: Seq<char>, title: Seq<char>, location: Seq<char>) -> Seq<char> {
    let base = join_space(join_space(date, time), title);
    if location.len() == 0 {
        base
    } else if base.len() == 0 {
        location
    } else {
        base + " @ "@ + location
    }
}

/// The line, then `" \u{2022} <recurrence>"` when there is a recurrence.
pub open spec fn with_recurrence(line: Seq<char>, rec: Option<Recurrence>) -> Seq<char> {
    match rec {
        None => line,
        Some(r) => if line.len() == 0 {
            r.label()
        } else {
            line + seq![' ', '\u{2022}', ' '] + r.label()
        },
    }
}

/// Appends `b` to `a` with one space between, where neither is empty.
fn join_space_into(a: &mut Vec<char>, b: &Vec<char>)
    ensures
        final(a)@ == join_space(old(a)@, b@),
{
    if b.len() == 0 {
        return;
    }
    if a.len() == 0 {
        push_all(a, b);
        return;
    }
    a.push(' ');
    push_all(a, b);
}

impl TimetableEntry {
    pub open spec fn rendered(&self) -> Seq<char> {
        with_recurrence(
            entry_line(self.date@, self.time@, self.title@, self.location@),
            self.recurrence,
        )
    }

    pub fn new(
        date: String,
        time: String,
        title: String,
        location: String,
        recurrence: Option<Recurrence>,
    ) -> (r: Self)
        ensures
            r.date == date,
            r.time == time,
            r.title == title,
            r.location == location,
            r.recurrence == recurrence,
    {
        TimetableEntry { date, time, title, location, recurrence }
    }

    /// The entry as one line of text.
    pub fn render(&self) -> (r: String)
        ensures
            r@ == self.rendered(),
    {
        let mut line = chars_of(self.date.as_str());
        join_space_into(&mut line, &chars_of(self.time.as_str()));
        join_space_into(&mut line, &chars_of(self.title.as_str()));
        let location = chars_of(self.location.as_str());
        if location.len() > 0 {
            if line.len() == 0 {
                line = location;
            } else {
                push_all(&mut line, &chars_of(" @ "));
                push_all(&mut line, &location);
            }
        }
        match &self.recurrence {
            None => {},
            Some(rec) => {
                let label = chars_of(rec.render().as_str());
                if line.len() == 0 {
                    line = label;
                } else {
                    line.push(' ');
                    line.push('\u{2022}');
                    line.push(' ');
                    push_all(&mut line, &label);
                }
            },
        }
        string_of(&line)
    }
}

/// An entry with date, time, title and location renders as
/// `"<date> <time> <title> @ <location>"`; without a location the `@` part is
/// left out; with only a location it renders as the location alone.
pub proof fn lemma_entry_line_shape(date: Seq<char>, time: Seq<char>, title: Seq<char>, location: Seq<char>)
    requires
        date.len() > 0,
        time.len() > 0,
        title.len() > 0,
    ensures
        location.len() > 0 ==> entry_line(date, time, title, location) == date + seq![' '] + time + seq![' '] + title + " @ "@ + location,
        entry_line(date, time, title, Seq::empty()) == date + seq![' '] + time + seq![' '] + title,
        location.len() > 0 ==> entry_line(Seq::empty(), Seq::empty(), Seq::empty(), location) == location,
{
    assert(join_space(date, time).len() > 0);
    assert(date + seq![' '] + time + seq![' '] + title =~= (date + seq![' '] + time) + seq![' '] + title);
}

/// An entry with a recurrence renders as its line followed by
/// `" \u{2022} <recurrence>"`, where the line is not empty.
pub proof fn lemma_recurrence_suffix(e: TimetableEntry, r: Recurrence)
    requires
        e.recurrence == Some(r),
        entry_line(e.date@, e.time@, e.title@, e.location@).len() > 0,
    ensures
        e.rendered() == entry_line(e.date@, e.time@, e.title@, e.location@) + seq![' ', '\u{2022}', ' '] + r.label(),
{
}

/// The rendered entries, one per line.
pub open spec fn lines_of(es: Seq<TimetableEntry>) -> Seq<char>
    decreases es.len(),
{
    if es.len() == 0 {
        Seq::empty()
    } else if es.len() == 1 {
        es[0].rendered()
    } else {
        lines_of(es.drop_last()) + seq!['\n'] + es.last().rendered()
    }
}

/// The listing of a timetable: each entry on its own line, or a notice where
/// there is none.
pub open spec fn listing(es: Seq<TimetableEntry>) -> Seq<char> {
    if es.len() == 0 {
        "No timetable entries found."@
    } else {
        lines_of(es)
    }
}

pub fn format_entries(entries: &Vec<TimetableEntry>) -> (r: String)
    ensures
        r@ == listing(entries@),
{
    if entries.len() == 0 {
        return string_of(&chars_of("No timetable entries found."));
    }
    let mut out: Vec<char> = Vec::new();
    let mut i: usize = 0;
    while i < entries.len()
        invariant
            i <= entries.len(),
            out@ == lines_of(entries@.subrange(0, i as int)),
        decreases entries.len() - i,
    {
        let line = chars_of(entries[i].render().as_str());
        let ghost es = entries@.subrange(0, i + 1);
        assert(es.drop_last() =~= entries@.subrange(0, i as int));
        if i > 0 {
            out.push('\n');
        }
        push_all(&mut out, &line);
        i = i + 1;
    }
    assert(entries@.subrange(0, entries.len() as int) =~= entries@);
    string_of(&out)
}

} // verus!
