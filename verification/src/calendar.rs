//! The next-calendar-event item: the AppleScript query it sends to Calendar,
//! and how it reads the answer.
use chrono::DateTime;
use vstd::prelude::*;
use vstd::string::StringExecFns;

use crate::text::{chars_of, push_char, push_str, split_once, str_eq, string_from_range, trim, trim_spec};

verus! {

/// The next event of the user's calendars: its title and the instant it
/// starts, as seconds and nanoseconds since the Unix epoch.
pub struct NextCalendarEvent {
    pub title: String,
    pub start_secs: i64,
    pub start_nanos: u32,
}

// ----------------------------------------------------------------------------
// Truncation
// ----------------------------------------------------------------------------
/// `s` cut to at most `max` characters: unchanged when it fits, else its first
/// `max - 1` characters (none when `max` is 0) followed by an ellipsis.
pub open spec fn truncate_spec(s: Seq<char>, max: nat) -> Seq<char> {
    if s.len() <= max {
        s
    } else {
        s.take(if max >= 1 {
            max - 1
        } else {
            0
        }).push('…')
    }
}

/// Cuts `input` to at most `max_chars` characters, ending a cut text with `…`.
pub fn truncate(input: &str, max_chars: usize) -> (r: String)
    ensures
        r@ == truncate_spec(input@, max_chars as nat),
{
    let v = chars_of(input);
    if v.len() <= max_chars {
        return String::from_str(input);
    }
    let keep = if max_chars >= 1 {
        max_chars - 1
    } else {
        0
    };
    let mut out = string_from_range(v.as_slice(), 0, keep);
    assert(v@.subrange(0, keep as int) == input@.take(keep as int));
    push_char(&mut out, '…');
    out
}

/// What the calendar item's image shows, apart from the event's date, which
/// is written in the machine's time zone.
pub enum CalendarCard {
    /// The next event, with its title cut to fit.
    Event { title: String },
    /// Why the calendar could not be read, cut to fit.
    Unavailable { detail: String },
    /// No event is coming.
    NoEvent,
}

/// The longest event title the image shows.
pub const CARD_TITLE_CHARS: usize = 23;

/// The longest reason the image shows.
pub const CARD_DETAIL_CHARS: usize = 30;

/// What the image shows for the next event, or else for the reason the
/// calendar could not be read, or else that no event is coming.
pub fn calendar_card(event: Option<&NextCalendarEvent>, status: Option<&str>) -> (c: CalendarCard)
    ensures
        match event {
            Some(e) => c matches CalendarCard::Event { title } && title@ == truncate_spec(
                e.title@,
                CARD_TITLE_CHARS as nat,
            ),
            None => match status {
                Some(s) => c matches CalendarCard::Unavailable { detail } && detail@
                    == truncate_spec(s@, CARD_DETAIL_CHARS as nat),
                None => c is NoEvent,
            },
        },
{
    match event {
        Some(e) => CalendarCard::Event { title: truncate(e.title.as_str(), CARD_TITLE_CHARS) },
        None => match status {
            Some(s) => CalendarCard::Unavailable { detail: truncate(s, CARD_DETAIL_CHARS) },
            None => CalendarCard::NoEvent,
        },
    }
}

/// A truncated text never has more than `max` characters, once `max` is at least 1.
pub proof fn law_truncate_fits(s: Seq<char>, max: nat)
    requires
        max >= 1,
    ensures
        truncate_spec(s, max).len() <= max,
        s.len() <= max ==> truncate_spec(s, max) == s,
{
}

// ----------------------------------------------------------------------------
// The query
// ----------------------------------------------------------------------------
/// `s` with every double quote preceded by a backslash.
pub open spec fn escape_quotes(s: Seq<char>) -> Seq<char>
    decreases s.len(),
{
    if s.len() == 0 {
        Seq::empty()
    } else if s.last() == '"' {
        escape_quotes(s.drop_last()) + seq!['\\', '"']
    } else {
        escape_quotes(s.drop_last()).push(s.last())
    }
}

/// Escaping leaves a text without double quotes unchanged.
pub proof fn law_escape_plain(s: Seq<char>)
    requires
        !s.contains('"'),
    ensures
        escape_quotes(s) == s,
    decreases s.len(),
{
    if s.len() > 0 {
        assert(!s.drop_last().contains('"')) by {
            if s.drop_last().contains('"') {
                let i = choose|i: int| 0 <= i < s.drop_last().len() && s.drop_last()[i] == '"';
                assert(s[i] == '"');
            }
        }
        law_escape_plain(s.drop_last());
        assert(s[s.len() - 1] != '"');
        assert(s.drop_last().push(s.last()) =~= s);
    }
}

/// A calendar name as an AppleScript string literal.
pub open spec fn quoted_name(s: Seq<char>) -> Seq<char> {
    seq!['"'] + escape_quotes(s) + seq!['"']
}

/// The names as AppleScript string literals separated by `, `.
pub open spec fn quoted_names(names: Seq<Seq<char>>) -> Seq<char>
    decreases names.len(),
{
    if names.len() == 0 {
        Seq::empty()
    } else if names.len() == 1 {
        quoted_name(names[0])
    } else {
        quoted_names(names.drop_last()) + ", "@ + quoted_name(names.last())
    }
}

/// The AppleScript list of the selected calendars: `{}` when none is selected.
pub open spec fn selection_literal(names: Seq<Seq<char>>) -> Seq<char> {
    if names.len() == 0 {
        "{}"@
    } else {
        seq!['{'] + quoted_names(names) + seq!['}']
    }
}

/// The views of a list of strings.
pub open spec fn views(v: Seq<String>) -> Seq<Seq<char>> {
    v.map_values(|s: String| s@)
}

/// Appends `s` with its double quotes escaped for AppleScript.
pub fn push_escaped(out: &mut String, s: &str)
    ensures
        final(out)@ == old(out)@ + escape_quotes(s@),
{
    let v = chars_of(s);
    let mut i: usize = 0;
    let ghost start = out@;
    while i < v.len()
        invariant
            i <= v@.len(),
            v@ == s@,
            out@ == start + escape_quotes(v@.take(i as int)),
        decreases v@.len() - i,
    {
        assert(v@.take(i + 1).drop_last() == v@.take(i as int));
        if v[i] == '"' {
            push_char(out, '\\');
            push_char(out, '"');
        } else {
            push_char(out, v[i]);
        }
        i = i + 1;
    }
    assert(v@.take(v@.len() as int) == v@);
}

/// The AppleScript list literal of the selected calendar names.
pub fn selection_list(names: &[String]) -> (r: String)
    ensures
        r@ == selection_literal(views(names@)),
{
    if names.len() == 0 {
        return String::from_str("{}");
    }
    let mut out = String::new();
    push_char(&mut out, '{');
    assert(views(names@).take(0) =~= Seq::<Seq<char>>::empty());
    let mut i: usize = 0;
    while i < names.len()
        invariant
            i <= names@.len(),
            names@.len() > 0,
            out@ == seq!['{'] + quoted_names(views(names@).take(i as int)),
        decreases names@.len() - i,
    {
        let ghost before = out@;
        assert(views(names@).take(i + 1).drop_last() == views(names@).take(i as int));
        assert(views(names@).take(i + 1).last() == names@[i as int]@);
        if i > 0 {
            push_str(&mut out, ", ");
        }
        push_char(&mut out, '"');
        push_escaped(&mut out, names[i].as_str());
        push_char(&mut out, '"');
        proof {
            if i == 0 {
                assert(views(names@).take(1).len() == 1);
                assert(out@ == seq!['{'] + quoted_names(views(names@).take(1)));
            } else {
                assert(out@ == before + ", "@ + quoted_name(names@[i as int]@));
            }
        }
        i = i + 1;
    }
    assert(views(names@).take(names@.len() as int) == views(names@));
    push_char(&mut out, '}');
    out
}

/// The start of the query, before the list of selected calendars.
pub const SCRIPT_HEAD: &'static str = "set selectedCalendars to ";

/// The rest of the query: it finds the earliest event of the next 30 days in
/// the selected calendars (all of them when none is selected) and answers
/// `OK|<start as ISO 8601>|<title>`, `NONE`, or `ERROR|<message>`.
pub const SCRIPT_TAIL: &'static str = "\nset useFilter to ((count of selectedCalendars) > 0)\ntell application \"Calendar\"\n  try\n    count calendars\n  on error errMsg\n    return \"ERROR|\" & errMsg\n  end try\n\n  set nowDate to (current date)\n  set maxDate to nowDate + (30 * days)\n  set bestStart to missing value\n  set bestTitle to \"\"\n\n  repeat with c in calendars\n    set calName to (name of c as string)\n    if (not useFilter) or (selectedCalendars contains calName) then\n      set eventsList to (every event of c whose start date ≥ nowDate and start date ≤ maxDate)\n      repeat with e in eventsList\n        set s to (start date of e)\n        if (bestStart is missing value) or (s < bestStart) then\n          set bestStart to s\n          set t to (summary of e as string)\n          if t is \"\" then set t to \"(No title)\"\n          set bestTitle to t\n        end if\n      end repeat\n    end if\n  end repeat\n\n  if bestStart is missing value then\n    return \"NONE\"\n  end if\n\n  return \"OK|\" & (bestStart as «class isot») & \"|\" & bestTitle\nend tell";

/// The query that looks up the next event of the selected calendars.
pub fn next_event_script(selected_calendars: &[String]) -> (script: String)
    ensures
        script@ == SCRIPT_HEAD@ + selection_literal(views(selected_calendars@)) + SCRIPT_TAIL@,
{
    let mut script = String::from_str(SCRIPT_HEAD);
    let list = selection_list(selected_calendars);
    push_str(&mut script, list.as_str());
    push_str(&mut script, SCRIPT_TAIL);
    script
}

// ----------------------------------------------------------------------------
// The answer
// ----------------------------------------------------------------------------
/// What `chrono::DateTime::parse_from_rfc3339` makes of a text: the instant
/// it denotes (seconds and nanoseconds since the Unix epoch) when it accepts
/// the text, else the text of its error.
pub uninterp spec fn rfc3339_instant(text: Seq<char>) -> Result<(i64, u32), Seq<char>>;

/// Calls `chrono::DateTime::parse_from_rfc3339` and reads the instant of the
/// result with `timestamp` and `timestamp_subsec_nanos`; the contract claims
/// only that the outcome, or the `Display` text of the error, is the one that
/// `rfc3339_instant` names, a function of the text alone.
#[verifier::external_body]
fn parse_rfc3339(text: &str) -> (r: Result<(i64, u32), String>)
    ensures
        match r {
            Ok(t) => rfc3339_instant(text@) == Ok::<(i64, u32), Seq<char>>(t),
            Err(e) => rfc3339_instant(text@) == Err::<(i64, u32), Seq<char>>(e@),
        },
{
    match DateTime::parse_from_rfc3339(text) {
        Ok(d) => Ok((d.timestamp(), d.timestamp_subsec_nanos())),
        Err(e) => Err(e.to_string()),
    }
}

/// What the answer of the query means.
pub enum CalendarAnswer {
    /// The query could not give an event: the message to show.
    Failed(String),
    /// There is no event in the next 30 days.
    NoEvent,
    /// The next event: its start as ISO 8601 text and its title.
    Event { start: String, title: String },
}

/// Message when the query failed without saying why.
pub open spec fn msg_allow_access() -> Seq<char> {
    "Calendar unavailable. Please allow Calendar access for OpenDeck when prompted."@
}

/// Message when the answer is neither `NONE`, `ERROR|…` nor `OK|…`.
pub open spec fn msg_grant_access() -> Seq<char> {
    "Calendar unavailable. Please grant Calendar access when prompted."@
}

/// `s` starts with `p`.
pub open spec fn starts_with(s: Seq<char>, p: Seq<char>) -> bool {
    p.len() <= s.len() && s.take(p.len() as int) == p
}

/// The meaning of the query's answer, given whether the query ran
/// successfully and its standard output and error (both before trimming).
pub open spec fn answer_spec(success: bool, stdout: Seq<char>, stderr: Seq<char>) -> Result<
    Option<(Seq<char>, Seq<char>)>,
    Seq<char>,
> {
    let out = trim_spec(stdout);
    let err = trim_spec(stderr);
    if !success {
        if err.len() == 0 {
            Err(msg_allow_access())
        } else {
            Err("Calendar unavailable: "@ + err)
        }
    } else if out == "NONE"@ {
        Ok(None)
    } else if starts_with(out, "ERROR|"@) {
        Err(
            "Calendar unavailable: "@ + out.skip(6)
                + ". Please grant Calendar access when prompted."@,
        )
    } else if !out.contains('|') {
        if out == "OK"@ {
            Err("Failed to parse calendar response (missing date)"@)
        } else {
            Err(msg_grant_access())
        }
    } else {
        let status = out.take(crate::text::first_index(out, '|') as int);
        let rest = out.skip(crate::text::first_index(out, '|') as int + 1);
        if status != "OK"@ {
            Err(msg_grant_access())
        } else if !rest.contains('|') {
            Err("Failed to parse calendar response (missing title)"@)
        } else {
            Ok(
                Some(
                    (
                        rest.take(crate::text::first_index(rest, '|') as int),
                        rest.skip(crate::text::first_index(rest, '|') as int + 1),
                    ),
                ),
            )
        }
    }
}

/// Splitting at the first occurrence agrees with `first_index`.
proof fn lemma_split_first(s: Seq<char>, a: Seq<char>, b: Seq<char>, c: char)
    requires
        s == a + seq![c] + b,
        !a.contains(c),
    ensures
        s.contains(c),
        crate::text::first_index(s, c) == a.len(),
        s.take(a.len() as int) == a,
        s.skip(a.len() as int + 1) == b,
{
    assert(s[a.len() as int] == c);
    assert forall|j: int| 0 <= j < a.len() implies #[trigger] s[j] != c by {
        assert(s[j] == a[j]);
        if a[j] == c {
            assert(a.contains(c));
        }
    }
    crate::text::lemma_first_index(s, c, a.len() as int);
    assert(s.take(a.len() as int) =~= a);
    assert(s.skip(a.len() as int + 1) =~= b);
}

/// Reads the answer of the next-event query.
pub fn read_answer(success: bool, stdout: &str, stderr: &str) -> (r: CalendarAnswer)
    ensures
        match r {
            CalendarAnswer::Failed(m) => answer_spec(success, stdout@, stderr@) == Err::<
                Option<(Seq<char>, Seq<char>)>,
                Seq<char>,
            >(m@),
            CalendarAnswer::NoEvent => answer_spec(success, stdout@, stderr@) == Ok::<
                Option<(Seq<char>, Seq<char>)>,
                Seq<char>,
            >(None),
            CalendarAnswer::Event { start, title } => answer_spec(success, stdout@, stderr@)
                == Ok::<Option<(Seq<char>, Seq<char>)>, Seq<char>>(Some((start@, title@))),
        },
{
    if !success {
        let err = trim(stderr);
        if chars_of(err.as_str()).len() == 0 {
            return CalendarAnswer::Failed(
                String::from_str(
                    "Calendar unavailable. Please allow Calendar access for OpenDeck when prompted.",
                ),
            );
        }
        let mut m = String::from_str("Calendar unavailable: ");
        push_str(&mut m, err.as_str());
        return CalendarAnswer::Failed(m);
    }
    let out = trim(stdout);
    if str_eq(out.as_str(), "NONE") {
        return CalendarAnswer::NoEvent;
    }
    let v = chars_of(out.as_str());
    proof {
        reveal_strlit("ERROR|");
    }
    if v.len() >= 6 && v[0] == 'E' && v[1] == 'R' && v[2] == 'R' && v[3] == 'O' && v[4] == 'R'
        && v[5] == '|' {
        assert(v@.take(6) =~= "ERROR|"@);
        let rest = string_from_range(v.as_slice(), 6, v.len());
        let mut m = String::from_str("Calendar unavailable: ");
        push_str(&mut m, rest.as_str());
        push_str(&mut m, ". Please grant Calendar access when prompted.");
        return CalendarAnswer::Failed(m);
    }
    proof {
        if starts_with(v@, "ERROR|"@) {
            assert(v@.take(6) =~= "ERROR|"@);
            assert(v@[0] == v@.take(6)[0]);
            assert(v@[1] == v@.take(6)[1]);
            assert(v@[2] == v@.take(6)[2]);
            assert(v@[3] == v@.take(6)[3]);
            assert(v@[4] == v@.take(6)[4]);
            assert(v@[5] == v@.take(6)[5]);
        }
    }
    match split_once(out.as_str(), '|') {
        None => {
            if str_eq(out.as_str(), "OK") {
                CalendarAnswer::Failed(
                    String::from_str("Failed to parse calendar response (missing date)"),
                )
            } else {
                CalendarAnswer::Failed(
                    String::from_str(
                        "Calendar unavailable. Please grant Calendar access when prompted.",
                    ),
                )
            }
        },
        Some((status, rest)) => {
            proof {
                lemma_split_first(out@, status@, rest@, '|');
            }
            if !str_eq(status.as_str(), "OK") {
                return CalendarAnswer::Failed(
                    String::from_str(
                        "Calendar unavailable. Please grant Calendar access when prompted.",
                    ),
                );
            }
            match split_once(rest.as_str(), '|') {
                None => CalendarAnswer::Failed(
                    String::from_str("Failed to parse calendar response (missing title)"),
                ),
                Some((start, title)) => {
                    proof {
                        lemma_split_first(rest@, start@, title@, '|');
                    }
                    CalendarAnswer::Event { start, title }
                },
            }
        },
    }
}

/// The event from its title and the parsed start, or the message for a start
/// that chrono refused.
pub fn event_from_parsed(title: String, parsed: Result<(i64, u32), String>) -> (r: Result<
    Option<NextCalendarEvent>,
    String,
>)
    ensures
        match parsed {
            Ok((secs, nanos)) => r matches Ok(Some(ev)) && ev.title == title && ev.start_secs
                == secs && ev.start_nanos == nanos,
            Err(e) => r matches Err(m) && m@ == "Invalid calendar date format: "@ + e@,
        },
{
    match parsed {
        Ok((secs, nanos)) => Ok(Some(NextCalendarEvent { title, start_secs: secs, start_nanos: nanos })),
        Err(e) => {
            let mut m = String::from_str("Invalid calendar date format: ");
            push_str(&mut m, e.as_str());
            Err(m)
        },
    }
}

/// The next event, from how the query ran and what it printed: the message
/// to show when the query failed, nothing when no event is coming, else the
/// event with the start that its answer gives.
pub fn get_next_event(success: bool, stdout: &str, stderr: &str) -> (r: Result<
    Option<NextCalendarEvent>,
    String,
>)
    ensures
        match answer_spec(success, stdout@, stderr@) {
            Err(m) => r matches Err(e) && e@ == m,
            Ok(None) => r matches Ok(None),
            Ok(Some((start, title))) => match rfc3339_instant(start) {
                Ok((secs, nanos)) => r matches Ok(Some(ev)) && ev.title@ == title && ev.start_secs
                    == secs && ev.start_nanos == nanos,
                Err(pe) => r matches Err(e) && e@ == "Invalid calendar date format: "@ + pe,
            },
        },
{
    match read_answer(success, stdout, stderr) {
        CalendarAnswer::Failed(m) => Err(m),
        CalendarAnswer::NoEvent => Ok(None),
        CalendarAnswer::Event { start, title } => {
            let parsed = parse_rfc3339(start.as_str());
            event_from_parsed(title, parsed)
        },
    }
}

} // verus!
