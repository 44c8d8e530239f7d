//! The `/session` command: the calendar of sessions and who is on tea.

use vstd::prelude::*;
use vstd::string::*;

use crate::date;
use crate::date::{CivilDate, Date, Day};
use crate::model::{RotaView, SessionView};
use crate::reply;
use crate::reply::Turn;
use crate::request;
use crate::request::{CommandOption, ResolvedUser};
use crate::rota;
use crate::rota::{
    AddSessionError,
    AssignError,
    AssignOutcome,
    RescheduleError,
    Rota,
    Session,
};
use crate::text;

verus! {

impl SessionView {
    /// Who is on tea, by name, or that nobody is.
    pub open spec fn tea_name(self) -> Seq<char> {
        match self.assignee {
            Some(m) => m.name,
            None => "— split (no rota)"@,
        }
    }

    /// Who is on tea, with a mention, or that nobody is.
    pub open spec fn tea_mention(self) -> Seq<char> {
        match self.assignee {
            Some(m) => m.mention() + " is on tea. 🍵"@,
            None => "no rota this session — the group splits. 🍵"@,
        }
    }

    /// The line of a list for this session.
    pub open spec fn line(self, with_note: bool) -> Seq<char> {
        let line = "• "@ + date::pretty_kept(self.date) + " — "@ + self.tea_name();
        match self.note {
            Some(note) => if with_note {
                line + " ("@ + note + ")"@ + "\n"@
            } else {
                line + "\n"@
            },
            None => line + "\n"@,
        }
    }
}

/// The lines of a list for some sessions.
pub open spec fn lines(s: Seq<SessionView>, with_notes: bool) -> Seq<char>
    decreases s.len(),
{
    if s.len() == 0 {
        Seq::empty()
    } else {
        lines(s.drop_last(), with_notes) + s.last().line(with_notes)
    }
}

/// The reply to a text that is no date.
pub open spec fn no_date(raw: Seq<char>, example: Seq<char>) -> Seq<char> {
    "`"@ + raw + "` isn't a valid date. Use YYYY/MM/DD, e.g. "@ + example + "."@
}

/// The reply where no session is on a date.
pub open spec fn not_found(day: CivilDate) -> Seq<char> {
    "No session found on "@ + day.pretty() + "."@
}

/// The reply where a date is taken.
pub open spec fn taken(day: CivilDate) -> Seq<char> {
    "There's already a session on "@ + day.pretty() + "."@
}

/// The reply where no date was given.
pub open spec fn date_missing() -> Seq<char> {
    "You need to specify a date."@
}

/// The reply where nothing is booked.
pub open spec fn nothing_booked() -> Seq<char> {
    "No upcoming sessions. Schedule one with `/session add`."@
}

/// The note given with a session, unless it is blank.
pub open spec fn note_given(opts: Seq<CommandOption>) -> Option<Seq<char>> {
    match request::text_given(opts, "note"@) {
        Some(note) => if text::trimmed(note).len() == 0 {
            None
        } else {
            Some(note)
        },
        None => None,
    }
}

/// What booking a session comes to. It comes to nothing if a person has to be assigned while the
/// marker points behind the last one.
pub open spec fn add_turn(r: RotaView, opts: Seq<CommandOption>) -> Option<Turn> {
    let note = note_given(opts);
    match request::text_given(opts, "date"@) {
        None => Some(reply::only_say(r, date_missing())),
        Some(raw) => match date::read_date(raw) {
            None => Some(reply::only_say(r, no_date(raw, "2026/08/22"@))),
            Some(day) => if r.slot(day.iso()) is Some {
                Some(reply::only_say(r, taken(day)))
            } else if request::flag_given(opts, "skip"@) == Some(true) {
                Some(
                    Turn {
                        rota: r.booked(day.iso(), note, true),
                        reply: "📅 Scheduled **"@ + day.pretty()
                            + "** — no rota this session (the group splits). 🍵"@,
                    },
                )
            } else if r.members.len() == 0 {
                Some(
                    reply::only_say(
                        r,
                        "The rota is empty — add people with `/rota add` before scheduling sessions (or use `skip:true` for a split session)."@,
                    ),
                )
            } else {
                match r.up_next() {
                    Some(m) => Some(
                        Turn {
                            rota: r.booked(day.iso(), note, false),
                            reply: "📅 Scheduled **"@ + day.pretty() + "** — "@ + m.mention()
                                + " is on tea. 🍵"@,
                        },
                    ),
                    None => None,
                }
            },
        },
    }
}

/// The list of the upcoming sessions.
pub open spec fn upcoming_list(r: RotaView, today: CivilDate) -> Seq<char> {
    let upcoming = r.upcoming(today.iso());
    if upcoming.len() == 0 {
        nothing_booked()
    } else {
        "**📅 Upcoming sessions**\n"@ + lines(upcoming, true)
    }
}

/// The list of the past sessions, the most recent one first, and no more than twenty of them.
pub open spec fn past_list(r: RotaView, today: CivilDate) -> Seq<char> {
    let past = r.past(today.iso()).reverse();
    if past.len() == 0 {
        "No past sessions yet."@
    } else if past.len() <= 20 {
        "**📜 Past sessions**\n"@ + lines(past, true)
    } else {
        "**📜 Past sessions**\n"@ + lines(past.take(20), true) + "…and "@ + text::decimal(
            (past.len() - 20) as nat,
        ) + " earlier."@
    }
}

/// The next session.
pub open spec fn next_session(r: RotaView, today: CivilDate) -> Seq<char> {
    let upcoming = r.upcoming(today.iso());
    if upcoming.len() == 0 {
        nothing_booked()
    } else {
        let s = upcoming[0];
        let reply = "Next session: **"@ + date::pretty_kept(s.date) + "** — "@ + s.tea_mention();
        match s.note {
            Some(note) => reply + "\n> "@ + note,
            None => reply,
        }
    }
}

/// What removing a session comes to.
pub open spec fn remove_turn(r: RotaView, opts: Seq<CommandOption>) -> Turn {
    match request::text_given(opts, "date"@) {
        None => reply::only_say(r, date_missing()),
        Some(raw) => match date::read_date(raw) {
            None => reply::only_say(r, no_date(raw, "2026/08/22"@)),
            Some(day) => match r.session_on(day.iso()) {
                Some(s) => Turn {
                    rota: r.without_session(day.iso()),
                    reply: "Removed the session on "@ + date::pretty_kept(s.date) + "."@,
                },
                None => reply::only_say(r, not_found(day)),
            },
        },
    }
}

/// What moving a session comes to.
pub open spec fn reschedule_turn(r: RotaView, opts: Seq<CommandOption>) -> Turn {
    match request::text_given(opts, "from"@) {
        None => reply::only_say(r, "You need to specify the current date (`from`)."@),
        Some(from_raw) => match date::read_date(from_raw) {
            None => reply::only_say(r, no_date(from_raw, "2026/08/22"@)),
            Some(from) => match request::text_given(opts, "to"@) {
                None => reply::only_say(r, "You need to specify the new date (`to`)."@),
                Some(to_raw) => match date::read_date(to_raw) {
                    None => reply::only_say(r, no_date(to_raw, "2026/08/29"@)),
                    Some(to) => match r.slot(from.iso()) {
                        None => reply::only_say(r, not_found(from)),
                        Some(i) => if from.iso() != to.iso() && r.slot(to.iso()) is Some {
                            reply::only_say(r, taken(to))
                        } else {
                            let moved = r.moved(i, to.iso());
                            Turn {
                                rota: moved,
                                reply: "📅 Moved the session from "@ + from.pretty() + " to **"@
                                    + to.pretty() + "** — "@ + moved.session_on(
                                    to.iso(),
                                )->0.tea_mention(),
                            }
                        },
                    },
                },
            },
        },
    }
}

/// What handing a session to somebody, or skipping it, comes to.
pub open spec fn assign_turn(
    r: RotaView,
    opts: Seq<CommandOption>,
    users: Seq<ResolvedUser>,
    today: CivilDate,
) -> Turn {
    match request::text_given(opts, "date"@) {
        None => reply::only_say(r, date_missing()),
        Some(raw) => match date::read_date(raw) {
            None => reply::only_say(r, no_date(raw, "2026/08/22"@)),
            Some(day) => if request::flag_given(opts, "skip"@) == Some(true) {
                if r.slot(day.iso()) is Some {
                    Turn {
                        rota: r.with_skipped(day.iso()),
                        reply: "📅 **"@ + day.pretty()
                            + "** is now a split session — no rota. 🍵"@,
                    }
                } else {
                    reply::only_say(r, not_found(day))
                }
            } else {
                match request::user_given(opts, "user"@, users) {
                    None => reply::only_say(
                        r,
                        "You need to specify a user (or set `skip:true` for a split session)."@,
                    ),
                    Some((id, name)) => match (r.slot(day.iso()), r.seat(id)) {
                        (None, _) => reply::only_say(r, not_found(day)),
                        (_, None) => reply::only_say(
                            r,
                            "**"@ + name + "** isn't in the rota — add them with `/rota add` first."@,
                        ),
                        (Some(slot), Some(seat)) => if r.on_tea(day.iso(), id) {
                            reply::only_say(
                                r,
                                "**"@ + r.members[seat].name + "** is already on tea for "@
                                    + day.pretty() + "."@,
                            )
                        } else {
                            let covered = r.covered(slot, seat, today.iso());
                            let was = match r.sessions[slot].assignee {
                                Some(m) => m.name,
                                None => "split, no rota"@,
                            };
                            Turn {
                                rota: covered,
                                reply: "🔁 "@ + r.members[seat].mention() + " is now on tea for **"@
                                    + day.pretty() + "** (was "@ + was
                                    + ").\n**Rebalanced upcoming rota:**\n"@ + lines(
                                    covered.upcoming(today.iso()),
                                    false,
                                ),
                            }
                        },
                    },
                }
            },
        },
    }
}

/// What `/session` and a subcommand come to.
pub open spec fn session_turn(
    r: RotaView,
    sub: Seq<char>,
    opts: Seq<CommandOption>,
    users: Seq<ResolvedUser>,
    today: CivilDate,
) -> Option<Turn> {
    if sub == "add"@ {
        add_turn(r, opts)
    } else if sub == "list"@ {
        Some(reply::only_say(r, upcoming_list(r, today)))
    } else if sub == "history"@ {
        Some(reply::only_say(r, past_list(r, today)))
    } else if sub == "next"@ {
        Some(reply::only_say(r, next_session(r, today)))
    } else if sub == "remove"@ {
        Some(remove_turn(r, opts))
    } else if sub == "reschedule"@ {
        Some(reschedule_turn(r, opts))
    } else if sub == "assign"@ {
        Some(assign_turn(r, opts, users, today))
    } else {
        Some(reply::only_say(r, reply::unknown_subcommand(sub)))
    }
}

/// Who is on tea, by name, or that nobody is.
pub fn session_name(s: &Session) -> (r: String)
    ensures
        r@ == s@.tea_name(),
{
    match &s.assignee {
        Some(m) => m.name.clone(),
        None => "— split (no rota)".to_owned(),
    }
}

/// Who is on tea, with a mention, or that nobody is.
pub fn session_mention(s: &Session) -> (r: String)
    ensures
        r@ == s@.tea_mention(),
{
    match &s.assignee {
        Some(m) => {
            let mut r = m.mention();
            r.append(" is on tea. 🍵");
            r
        },
        None => "no rota this session — the group splits. 🍵".to_owned(),
    }
}

fn session_line(s: &Session, with_note: bool) -> (r: String)
    ensures
        r@ == s@.line(with_note),
{
    let mut r = reply::wrapped("• ", date::pretty_iso(s.date.as_str()).as_str(), " — ");
    r.append(session_name(s).as_str());
    if with_note {
        if let Some(note) = &s.note {
            r.append(" (");
            r.append(note.as_str());
            r.append(")");
        }
    }
    r.append("\n");
    r
}

fn session_lines(s: &[&Session], with_notes: bool) -> (r: String)
    ensures
        r@ == lines(rota::borrowed_view(s@), with_notes),
{
    let ghost all = rota::borrowed_view(s@);
    let mut r = String::new();
    let mut i: usize = 0;
    while i < s.len()
        invariant
            i <= s.len(),
            all == rota::borrowed_view(s@),
            r@ == lines(all.take(i as int), with_notes),
        decreases s.len() - i,
    {
        r.append(session_line(s[i], with_notes).as_str());
        assert(all.take(i + 1).drop_last() == all.take(i as int));
        i += 1;
    }
    assert(all.take(i as int) == all);
    r
}

/// Writes the reply to a text that is no date.
fn say_no_date(raw: &str, example: &str) -> (r: String)
    ensures
        r@ == no_date(raw@, example@),
{
    let mut r = reply::wrapped("`", raw, "` isn't a valid date. Use YYYY/MM/DD, e.g. ");
    r.append(example);
    r.append(".");
    r
}

fn say_not_found(day: Date) -> (r: String)
    ensures
        r@ == not_found(day@),
{
    reply::wrapped("No session found on ", date::pretty(day).as_str(), ".")
}

fn say_taken(day: Date) -> (r: String)
    ensures
        r@ == taken(day@),
{
    reply::wrapped("There's already a session on ", date::pretty(day).as_str(), ".")
}

fn note_option(opts: &[CommandOption]) -> (r: Option<String>)
    ensures
        rota::text_view(r) == note_given(opts@),
{
    match request::string_option(opts, "note") {
        Some(note) => if text::trim(note.as_str()).is_empty() {
            None
        } else {
            Some(note)
        },
        None => None,
    }
}

fn handle_add(rota: &mut Rota, opts: &[CommandOption]) -> (reply: Option<String>)
    ensures
        match (reply, add_turn(old(rota)@, opts@)) {
            (Some(s), Some(turn)) => s@ == turn.reply && final(rota)@ == turn.rota,
            (None, None) => final(rota)@ == old(rota)@,
            _ => false,
        },
        old(rota)@.well_formed() ==> final(rota)@.well_formed() && reply is Some,
{
    let raw = match request::string_option(opts, "date") {
        None => {
            return Some("You need to specify a date.".to_owned());
        },
        Some(raw) => raw,
    };
    let day = match date::parse_date(raw.as_str()) {
        None => {
            return Some(say_no_date(raw.as_str(), "2026/08/22"));
        },
        Some(day) => day,
    };
    let note = note_option(opts);
    let skip = request::bool_option(opts, "skip");
    let key = date::iso(day);
    if rota.members.len() > 0 && rota.current >= rota.members.len() && !skip && rota.slot_of(
        key.as_str(),
    ).is_none() {
        return None;
    }
    match rota.add_session(key, note, skip) {
        Ok(Some(assignee)) => {
            let mut r = reply::wrapped("📅 Scheduled **", date::pretty(day).as_str(), "** — ");
            r.append(assignee.mention().as_str());
            r.append(" is on tea. 🍵");
            Some(r)
        },
        Ok(None) => Some(
            reply::wrapped(
                "📅 Scheduled **",
                date::pretty(day).as_str(),
                "** — no rota this session (the group splits). 🍵",
            ),
        ),
        Err(AddSessionError::NoMembers) => Some(
            "The rota is empty — add people with `/rota add` before scheduling sessions (or use `skip:true` for a split session).".to_owned(),
        ),
        Err(AddSessionError::DuplicateDate) => Some(say_taken(day)),
    }
}

fn list_upcoming(rota: &Rota, today: Date) -> (r: String)
    ensures
        r@ == upcoming_list(rota@, today@),
{
    let upcoming = rota.upcoming(date::iso(today).as_str());
    if upcoming.len() == 0 {
        return "No upcoming sessions. Schedule one with `/session add`.".to_owned();
    }
    let mut r = "**📅 Upcoming sessions**\n".to_owned();
    r.append(session_lines(upcoming.as_slice(), true).as_str());
    r
}

fn list_past(rota: &Rota, today: Date) -> (r: String)
    ensures
        r@ == past_list(rota@, today@),
{
    let past = rota.past(date::iso(today).as_str());
    let ghost view = rota::borrowed_view(past@);
    let total = past.len();
    if total == 0 {
        return "No past sessions yet.".to_owned();
    }
    let shown: usize = if total > 20 {
        20
    } else {
        total
    };
    let mut latest: Vec<&Session> = Vec::new();
    let mut i: usize = 0;
    while i < shown
        invariant
            i <= shown <= total,
            total == past.len(),
            view == rota::borrowed_view(past@),
            rota::borrowed_view(latest@) == view.reverse().take(i as int),
        decreases shown - i,
    {
        let ghost before = latest@;
        latest.push(past[total - 1 - i]);
        assert(rota::borrowed_view(latest@) == rota::borrowed_view(before).push(
            view[total - 1 - i],
        ));
        assert(view.reverse().take(i + 1) == view.reverse().take(i as int).push(
            view.reverse()[i as int],
        ));
        i += 1;
    }
    assert(view.reverse().take(view.len() as int) == view.reverse());
    let mut r = "**📜 Past sessions**\n".to_owned();
    r.append(session_lines(latest.as_slice(), true).as_str());
    if total > 20 {
        r.append("…and ");
        r.append(text::to_decimal((total - 20) as u64).as_str());
        r.append(" earlier.");
    }
    r
}

fn show_next(rota: &Rota, today: Date) -> (r: String)
    ensures
        r@ == next_session(rota@, today@),
{
    let upcoming = rota.upcoming(date::iso(today).as_str());
    if upcoming.len() == 0 {
        return "No upcoming sessions. Schedule one with `/session add`.".to_owned();
    }
    let s = upcoming[0];
    assert(s@ == rota::borrowed_view(upcoming@)[0]);
    let mut r = reply::wrapped(
        "Next session: **",
        date::pretty_iso(s.date.as_str()).as_str(),
        "** — ",
    );
    r.append(session_mention(s).as_str());
    if let Some(note) = &s.note {
        r.append("\n> ");
        r.append(note.as_str());
    }
    r
}

fn handle_remove(rota: &mut Rota, opts: &[CommandOption]) -> (reply: String)
    ensures
        reply@ == remove_turn(old(rota)@, opts@).reply,
        final(rota)@ == remove_turn(old(rota)@, opts@).rota,
        old(rota)@.well_formed() ==> final(rota)@.well_formed(),
{
    let raw = match request::string_option(opts, "date") {
        None => {
            return "You need to specify a date.".to_owned();
        },
        Some(raw) => raw,
    };
    let day = match date::parse_date(raw.as_str()) {
        None => {
            return say_no_date(raw.as_str(), "2026/08/22");
        },
        Some(day) => day,
    };
    match rota.remove_session(date::iso(day).as_str()) {
        Some(s) => reply::wrapped(
            "Removed the session on ",
            date::pretty_iso(s.date.as_str()).as_str(),
            ".",
        ),
        None => say_not_found(day),
    }
}

fn handle_reschedule(rota: &mut Rota, opts: &[CommandOption]) -> (reply: String)
    ensures
        reply@ == reschedule_turn(old(rota)@, opts@).reply,
        final(rota)@ == reschedule_turn(old(rota)@, opts@).rota,
        old(rota)@.well_formed() ==> final(rota)@.well_formed(),
{
    let from_raw = match request::string_option(opts, "from") {
        None => {
            return "You need to specify the current date (`from`).".to_owned();
        },
        Some(raw) => raw,
    };
    let from = match date::parse_date(from_raw.as_str()) {
        None => {
            return say_no_date(from_raw.as_str(), "2026/08/22");
        },
        Some(day) => day,
    };
    let to_raw = match request::string_option(opts, "to") {
        None => {
            return "You need to specify the new date (`to`).".to_owned();
        },
        Some(raw) => raw,
    };
    let to = match date::parse_date(to_raw.as_str()) {
        None => {
            return say_no_date(to_raw.as_str(), "2026/08/29");
        },
        Some(day) => day,
    };
    match rota.reschedule_session(date::iso(from).as_str(), date::iso(to)) {
        Ok(s) => {
            let mut r = reply::wrapped(
                "📅 Moved the session from ",
                date::pretty(from).as_str(),
                " to **",
            );
            r.append(date::pretty(to).as_str());
            r.append("** — ");
            r.append(session_mention(&s).as_str());
            r
        },
        Err(RescheduleError::NotFound) => say_not_found(from),
        Err(RescheduleError::DuplicateDate) => say_taken(to),
    }
}

fn handle_assign(
    rota: &mut Rota,
    opts: &[CommandOption],
    users: &[ResolvedUser],
    day_of_command: Day,
) -> (reply: String)
    ensures
        exists|today: CivilDate| #[trigger]
            day_of_command.may_be(today) && {
                let turn = assign_turn(old(rota)@, opts@, users@, today);
                reply@ == turn.reply && final(rota)@ == turn.rota
            },
        old(rota)@.well_formed() ==> final(rota)@.well_formed(),
{
    proof {
        day_of_command.is_some_date();
    }
    let raw = match request::string_option(opts, "date") {
        None => {
            return "You need to specify a date.".to_owned();
        },
        Some(raw) => raw,
    };
    let day = match date::parse_date(raw.as_str()) {
        None => {
            return say_no_date(raw.as_str(), "2026/08/22");
        },
        Some(day) => day,
    };
    let key = date::iso(day);
    if request::bool_option(opts, "skip") {
        return if rota.skip_session(key.as_str()) {
            reply::wrapped(
                "📅 **",
                date::pretty(day).as_str(),
                "** is now a split session — no rota. 🍵",
            )
        } else {
            say_not_found(day)
        };
    }
    let (id, name) = match request::user_option(opts, "user", users) {
        None => {
            return "You need to specify a user (or set `skip:true` for a split session).".to_owned();
        },
        Some(user) => user,
    };
    let today = day_of_command.read();
    let now = date::iso(today);
    match rota.assign_session(key.as_str(), id, now.as_str()) {
        Ok(AssignOutcome::Reassigned { old: before, new }) => {
            let was = match before {
                Some(m) => m.name,
                None => "split, no rota".to_owned(),
            };
            let mut r = reply::wrapped("🔁 ", new.mention().as_str(), " is now on tea for **");
            r.append(date::pretty(day).as_str());
            r.append("** (was ");
            r.append(was.as_str());
            r.append(").\n**Rebalanced upcoming rota:**\n");
            let upcoming = rota.upcoming(now.as_str());
            r.append(session_lines(upcoming.as_slice(), false).as_str());
            r
        },
        Ok(AssignOutcome::Unchanged(m)) => {
            let mut r = reply::wrapped("**", m.name.as_str(), "** is already on tea for ");
            r.append(date::pretty(day).as_str());
            r.append(".");
            r
        },
        Err(AssignError::SessionNotFound) => say_not_found(day),
        Err(AssignError::NotAMember) => reply::wrapped(
            "**",
            name.as_str(),
            "** isn't in the rota — add them with `/rota add` first.",
        ),
    }
}

/// Answers `/session` and a subcommand, and looks at the day only where it matters.
pub(crate) fn answer_session(
    rota: &mut Rota,
    sub: &str,
    opts: &[CommandOption],
    users: &[ResolvedUser],
    day: Day,
) -> (reply: Option<String>)
    ensures
        exists|today: CivilDate| #[trigger]
            day.may_be(today) && match (
                reply,
                session_turn(old(rota)@, sub@, opts@, users@, today),
            ) {
                (Some(s), Some(turn)) => s@ == turn.reply && final(rota)@ == turn.rota,
                (None, None) => final(rota)@ == old(rota)@,
                _ => false,
            },
        old(rota)@.well_formed() ==> final(rota)@.well_formed() && reply is Some,
{
    proof {
        day.is_some_date();
    }
    if text::same(sub, "add") {
        handle_add(rota, opts)
    } else if text::same(sub, "list") {
        Some(list_upcoming(rota, day.read()))
    } else if text::same(sub, "history") {
        Some(list_past(rota, day.read()))
    } else if text::same(sub, "next") {
        Some(show_next(rota, day.read()))
    } else if text::same(sub, "remove") {
        Some(handle_remove(rota, opts))
    } else if text::same(sub, "reschedule") {
        Some(handle_reschedule(rota, opts))
    } else if text::same(sub, "assign") {
        Some(handle_assign(rota, opts, users, day))
    } else {
        Some(reply::wrapped("Unknown subcommand `", sub, "`."))
    }
}

/// Answers `/session` and a subcommand, on a given day. There is no answer where a person has to be assigned
/// while the marker points behind the last one; in a well-formed rota that does not happen.
pub fn handle_session(
    rota: &mut Rota,
    sub: &str,
    opts: &[CommandOption],
    users: &[ResolvedUser],
    today: Date,
) -> (reply: Option<String>)
    ensures
        match (reply, session_turn(old(rota)@, sub@, opts@, users@, today@)) {
            (Some(s), Some(turn)) => s@ == turn.reply && final(rota)@ == turn.rota,
            (None, None) => final(rota)@ == old(rota)@,
            _ => false,
        },
        old(rota)@.well_formed() ==> final(rota)@.well_formed() && reply is Some,
{
    answer_session(rota, sub, opts, users, Day::Given(today))
}

} // verus!
