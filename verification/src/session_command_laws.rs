//! What the subcommands of `/session` do, in terms of the calendar and the rotation before and
//! after.

use vstd::prelude::*;

use crate::calendar;
use crate::date;
use crate::date::CivilDate;
use crate::model;
use crate::model::{MemberView, RotaView, SessionView};
use crate::request;
use crate::request::{CommandOption, ResolvedUser};
use crate::rota_laws;
use crate::session_command;
use crate::session_laws;
use crate::text;
use crate::text_laws;

verus! {

proof fn lemma_names_differ()
    ensures
        "list"@ != "add"@,
        "history"@ != "add"@,
        "history"@ != "list"@,
        "next"@ != "add"@,
        "next"@ != "list"@,
        "next"@ != "history"@,
        "remove"@ != "add"@,
        "remove"@ != "list"@,
        "remove"@ != "history"@,
        "remove"@ != "next"@,
        "reschedule"@ != "add"@,
        "reschedule"@ != "list"@,
        "reschedule"@ != "history"@,
        "reschedule"@ != "next"@,
        "reschedule"@ != "remove"@,
        "assign"@ != "add"@,
        "assign"@ != "list"@,
        "assign"@ != "history"@,
        "assign"@ != "next"@,
        "assign"@ != "remove"@,
        "assign"@ != "reschedule"@,
{
    reveal_strlit("add");
    reveal_strlit("list");
    reveal_strlit("history");
    reveal_strlit("next");
    reveal_strlit("remove");
    reveal_strlit("reschedule");
    reveal_strlit("assign");
    assert("add"@.len() == 3 && "list"@.len() == 4 && "history"@.len() == 7);
    assert("next"@.len() == 4 && "remove"@.len() == 6 && "reschedule"@.len() == 10);
    assert("assign"@.len() == 6);
    assert("list"@[0] == 'l' && "next"@[0] == 'n' && "remove"@[0] == 'r' && "assign"@[0] == 'a');
}

/// Who is on tea is told by name or by a mention, and where nobody is, that is told.
pub proof fn who_is_on_tea_is_told(s: SessionView)
    ensures
        s.assignee matches Some(m) ==> s.tea_name() == m.name && s.tea_mention() == m.mention()
            + " is on tea. 🍵"@,
        s.assignee is None ==> s.tea_name() == "— split (no rota)"@ && s.tea_mention()
            == "no rota this session — the group splits. 🍵"@,
{
}

/// A note is kept as it was given, unless it is all white space.
pub proof fn notes_are_kept(opts: Seq<CommandOption>)
    ensures
        session_command::note_given(opts) == match request::text_given(opts, "note"@) {
            Some(note) => if exists|i: int| 0 <= i < note.len() && !text::is_white(#[trigger] note[i]) {
                Some(note)
            } else {
                None
            },
            None => None,
        },
{
    if let Some(note) = request::text_given(opts, "note"@) {
        text_laws::blank_is_all_white_space(note);
    }
}

/// `/session add` on a free date books one session there, with the note that was given. Unless the
/// rota is skipped, the person that the marker points at is on tea, the reply mentions the very
/// person who is on tea for that session afterwards, and the marker moves on by one place. All
/// other sessions stay, and so do the order and the master.
pub proof fn booking_a_session(
    r: RotaView,
    opts: Seq<CommandOption>,
    users: Seq<ResolvedUser>,
    today: CivilDate,
    raw: Seq<char>,
    day: CivilDate,
    other: Seq<char>,
)
    requires
        request::text_given(opts, "date"@) == Some(raw),
        date::read_date(raw) == Some(day),
        r.slot(day.iso()) is None,
        request::flag_given(opts, "skip"@) == Some(true) || 0 <= r.current < r.members.len(),
    ensures
        ({
            let out = session_command::session_turn(r, "add"@, opts, users, today);
            let t = out->0;
            let skip = request::flag_given(opts, "skip"@) == Some(true);
            let n = r.members.len() as int;
            let new = SessionView {
                date: day.iso(),
                assignee: if skip {
                    None
                } else {
                    Some(r.members[r.current])
                },
                note: session_command::note_given(opts),
            };
            &&& out is Some
            &&& t.rota.session_on(day.iso()) == Some(new)
            &&& t.rota.sessions.to_multiset() == r.sessions.to_multiset().insert(new)
            &&& t.rota.sessions.len() == r.sessions.len() + 1
            &&& calendar::sorted(t.rota.sessions)
            &&& other != day.iso() ==> t.rota.session_on(other) == r.session_on(other)
            &&& other != day.iso() ==> t.rota.sessions.filter(|e: SessionView| e.date == other)
                == r.sessions.filter(|e: SessionView| e.date == other)
            &&& t.rota.members == r.members
            &&& t.rota.master == r.master
            &&& t.rota.master_channel == r.master_channel
            &&& t.rota.current == if skip {
                r.current
            } else {
                (r.current + 1) % n
            }
            &&& !skip ==> t.reply == "📅 Scheduled **"@ + day.pretty() + "** — "@
                + t.rota.session_on(day.iso())->0.tea_mention()
            &&& skip ==> t.reply == "📅 Scheduled **"@ + day.pretty()
                + "** — no rota this session (the group splits). 🍵"@
        }),
{
    let skip = request::flag_given(opts, "skip"@) == Some(true);
    let note = session_command::note_given(opts);
    session_laws::booking_adds_one_session(r, day.iso(), note, skip, other);
    if !skip {
        let m = r.members[r.current];
        let front = "📅 Scheduled **"@ + day.pretty() + "** — "@;
        assert(front + m.mention() + " is on tea. 🍵"@ =~= front + (m.mention()
            + " is on tea. 🍵"@));
    }
}

/// `/session add` books nothing where the date is taken, or where somebody would have to be put on
/// tea and nobody is in the rotation; the reply tells which it is.
pub proof fn booking_can_be_refused(
    r: RotaView,
    opts: Seq<CommandOption>,
    users: Seq<ResolvedUser>,
    today: CivilDate,
    raw: Seq<char>,
    day: CivilDate,
)
    requires
        request::text_given(opts, "date"@) == Some(raw),
        date::read_date(raw) == Some(day),
    ensures
        ({
            let out = session_command::session_turn(r, "add"@, opts, users, today);
            let skip = request::flag_given(opts, "skip"@) == Some(true);
            &&& r.slot(day.iso()) is Some ==> out is Some && out->0.rota == r && out->0.reply
                == "There's already a session on "@ + day.pretty() + "."@
            &&& r.slot(day.iso()) is None && !skip && r.members.len() == 0 ==> out is Some
                && out->0.rota == r && out->0.reply
                == "The rota is empty — add people with `/rota add` before scheduling sessions (or use `skip:true` for a split session)."@
            &&& out is None <==> r.slot(day.iso()) is None && !skip && r.members.len() > 0 && !(0
                <= r.current < r.members.len())
        }),
{
}

/// Without a date, or with a text that is no date, `/session add`, `remove` and `assign` change
/// nothing, and say what is wrong.
pub proof fn a_date_is_asked_for(
    r: RotaView,
    sub: Seq<char>,
    opts: Seq<CommandOption>,
    users: Seq<ResolvedUser>,
    today: CivilDate,
)
    requires
        sub == "add"@ || sub == "remove"@ || sub == "assign"@,
    ensures
        ({
            let out = session_command::session_turn(r, sub, opts, users, today);
            match request::text_given(opts, "date"@) {
                None => out is Some && out->0.rota == r && out->0.reply
                    == "You need to specify a date."@,
                Some(raw) => date::read_date(raw) is None ==> out is Some && out->0.rota == r
                    && out->0.reply == "`"@ + raw
                    + "` isn't a valid date. Use YYYY/MM/DD, e.g. "@ + "2026/08/22"@ + "."@,
            }
        }),
{
    lemma_names_differ();
}

/// `/session remove` takes the session on a date out of the calendar, and nothing else changes.
pub proof fn removing_a_session(
    r: RotaView,
    opts: Seq<CommandOption>,
    users: Seq<ResolvedUser>,
    today: CivilDate,
    raw: Seq<char>,
    day: CivilDate,
)
    requires
        request::text_given(opts, "date"@) == Some(raw),
        date::read_date(raw) == Some(day),
    ensures
        ({
            let out = session_command::session_turn(r, "remove"@, opts, users, today);
            let t = out->0;
            &&& out is Some
            &&& t.rota.members == r.members
            &&& t.rota.current == r.current
            &&& t.rota.master == r.master
            &&& t.rota.master_channel == r.master_channel
            &&& match r.slot(day.iso()) {
                Some(i) => {
                    &&& t.rota.sessions == r.sessions.remove(i)
                    &&& r.calendar_sorted() ==> t.rota.slot(day.iso()) is None
                    &&& t.reply == "Removed the session on "@ + day.pretty() + "."@
                },
                None => {
                    &&& t.rota == r
                    &&& t.reply == "No session found on "@ + day.pretty() + "."@
                },
            }
        }),
{
    lemma_names_differ();
    if let Some(i) = r.slot(day.iso()) {
        session_laws::sessions_are_found_by_date(r, day.iso(), i);
        crate::command_laws::removal_names_the_date(r, opts, day);
        if r.calendar_sorted() {
            calendar::sorted_dates_are_distinct(r.sessions);
            let t = session_command::session_turn(r, "remove"@, opts, users, today)->0;
            assert forall|j: int| 0 <= j < t.rota.sessions.len() implies (
            #[trigger] t.rota.sessions[j]).date != day.iso() by {
                let k = if j < i {
                    j
                } else {
                    j + 1
                };
                assert(t.rota.sessions[j] == r.sessions[k]);
                if k < i {
                    assert(r.sessions[k].date != r.sessions[i].date);
                } else {
                    assert(r.sessions[i].date != r.sessions[k].date);
                }
            }
            session_laws::sessions_are_found_by_date(t.rota, day.iso(), 0);
        }
    }
}

/// `/session reschedule` moves the session on a date to a free one, be it earlier or later: there it
/// stands with the assignee and the note that it had, and the old date is free. All other sessions
/// stay, and so do the order, the marker and the master. The reply tells who is on tea.
pub proof fn moving_a_session(
    r: RotaView,
    opts: Seq<CommandOption>,
    users: Seq<ResolvedUser>,
    today: CivilDate,
    from_raw: Seq<char>,
    from: CivilDate,
    to_raw: Seq<char>,
    to: CivilDate,
    i: int,
    other: Seq<char>,
)
    requires
        request::text_given(opts, "from"@) == Some(from_raw),
        date::read_date(from_raw) == Some(from),
        request::text_given(opts, "to"@) == Some(to_raw),
        date::read_date(to_raw) == Some(to),
        r.slot(from.iso()) == Some(i),
        from == to || r.slot(to.iso()) is None,
    ensures
        ({
            let out = session_command::session_turn(r, "reschedule"@, opts, users, today);
            let t = out->0;
            let old = r.sessions[i];
            let new = SessionView { date: to.iso(), assignee: old.assignee, note: old.note };
            &&& out is Some
            &&& t.rota.sessions.to_multiset() == r.sessions.to_multiset().remove(old).insert(new)
            &&& t.rota.sessions.len() == r.sessions.len()
            &&& calendar::sorted(t.rota.sessions)
            &&& t.rota.sessions.filter(|e: SessionView| e.date == other) == r.sessions.update(
                i,
                new,
            ).filter(|e: SessionView| e.date == other)
            &&& from != to || r.calendar_sorted() ==> t.rota.session_on(to.iso()) == Some(new)
            &&& r.calendar_sorted() && from != to ==> t.rota.slot(from.iso()) is None
            &&& r.calendar_sorted() && other != from.iso() && other != to.iso()
                ==> t.rota.session_on(other) == r.session_on(other)
            &&& t.rota.members == r.members
            &&& t.rota.current == r.current
            &&& t.rota.master == r.master
            &&& t.rota.master_channel == r.master_channel
            &&& t.reply == "📅 Moved the session from "@ + from.pretty() + " to **"@ + to.pretty()
                + "** — "@ + t.rota.session_on(to.iso())->0.tea_mention()
        }),
{
    broadcast use vstd::seq_lib::group_to_multiset_ensures;

    lemma_names_differ();
    crate::date_laws::read_dates_are_valid(from_raw);
    crate::date_laws::read_dates_are_valid(to_raw);
    if from.iso() == to.iso() {
        crate::date_laws::kept_dates_differ(from, to);
    }
    session_laws::sessions_are_found_by_date(r, from.iso(), i);
    let old = r.sessions[i];
    let new = SessionView { date: to.iso(), assignee: old.assignee, note: old.note };
    let all = r.sessions.update(i, new);
    let t = r.moved(i, to.iso());
    assert(new == (SessionView { date: to.iso(), ..old }));
    calendar::sorting_is_stable(all, to.iso());
    calendar::sorting_is_stable(all, other);
    vstd::seq_lib::to_multiset_update(r.sessions, i, new);
    assert(r.sessions.contains(old));
    assert(t.sessions.to_multiset() =~= r.sessions.to_multiset().remove(old).insert(new));
    if r.calendar_sorted() {
        session_laws::moving_keeps_the_session(r, i, to.iso(), other);
    }
    if from != to {
        session_laws::sessions_are_found_by_date(r, to.iso(), 0);
        calendar::sorting_keeps(all, i);
        let k = choose|k: int| 0 <= k < t.sessions.len() && t.sessions[k] == all[i];
        let on = |s: SessionView| s.date == to.iso();
        model::lemma_first_place(t.sessions, on);
        assert(on(t.sessions[k]));
        let q = t.slot(to.iso())->0;
        calendar::sorting_adds_nothing(all, q);
        let p = choose|p: int| 0 <= p < all.len() && all[p] == t.sessions[q];
        model::lemma_first_place(r.sessions, on);
        assert(p != i ==> !on(r.sessions[p]));
    }
}

/// `/session reschedule` changes nothing where no session is on the date to move from, where the
/// date to move to is taken, or where one of the dates is missing or is none; the reply tells
/// which it is.
pub proof fn moving_can_be_refused(
    r: RotaView,
    opts: Seq<CommandOption>,
    users: Seq<ResolvedUser>,
    today: CivilDate,
)
    ensures
        ({
            let out = session_command::session_turn(r, "reschedule"@, opts, users, today);
            let t = out->0;
            &&& out is Some
            &&& match request::text_given(opts, "from"@) {
                None => t.rota == r && t.reply
                    == "You need to specify the current date (`from`)."@,
                Some(from_raw) => match date::read_date(from_raw) {
                    None => t.rota == r && t.reply == "`"@ + from_raw
                        + "` isn't a valid date. Use YYYY/MM/DD, e.g. "@ + "2026/08/22"@ + "."@,
                    Some(from) => match request::text_given(opts, "to"@) {
                        None => t.rota == r && t.reply
                            == "You need to specify the new date (`to`)."@,
                        Some(to_raw) => match date::read_date(to_raw) {
                            None => t.rota == r && t.reply == "`"@ + to_raw
                                + "` isn't a valid date. Use YYYY/MM/DD, e.g. "@ + "2026/08/29"@
                                + "."@,
                            Some(to) => {
                                &&& r.slot(from.iso()) is None ==> t.rota == r && t.reply
                                    == "No session found on "@ + from.pretty() + "."@
                                &&& r.slot(from.iso()) is Some && from != to && r.slot(
                                    to.iso(),
                                ) is Some ==> t.rota == r && t.reply
                                    == "There's already a session on "@ + to.pretty() + "."@
                            },
                        },
                    },
                },
            }
        }),
{
    lemma_names_differ();
    if let Some(from_raw) = request::text_given(opts, "from"@) {
        if let Some(to_raw) = request::text_given(opts, "to"@) {
            crate::date_laws::read_dates_are_valid(from_raw);
            crate::date_laws::read_dates_are_valid(to_raw);
            if let Some(from) = date::read_date(from_raw) {
                if let Some(to) = date::read_date(to_raw) {
                    if from.iso() == to.iso() {
                        crate::date_laws::kept_dates_differ(from, to);
                    }
                }
            }
        }
    }
}

/// `/session assign` with `skip` takes whoever is on tea off one session, and nothing else changes.
pub proof fn skipping_a_session(
    r: RotaView,
    opts: Seq<CommandOption>,
    users: Seq<ResolvedUser>,
    today: CivilDate,
    raw: Seq<char>,
    day: CivilDate,
    k: int,
)
    requires
        request::text_given(opts, "date"@) == Some(raw),
        date::read_date(raw) == Some(day),
        request::flag_given(opts, "skip"@) == Some(true),
    ensures
        ({
            let out = session_command::session_turn(r, "assign"@, opts, users, today);
            let t = out->0;
            &&& out is Some
            &&& t.rota.members == r.members
            &&& t.rota.current == r.current
            &&& t.rota.master == r.master
            &&& t.rota.master_channel == r.master_channel
            &&& t.rota.sessions.len() == r.sessions.len()
            &&& match r.slot(day.iso()) {
                Some(i) => {
                    &&& t.rota.sessions[i].assignee is None
                    &&& t.rota.sessions[i].date == r.sessions[i].date
                    &&& t.rota.sessions[i].note == r.sessions[i].note
                    &&& 0 <= k < r.sessions.len() && k != i ==> t.rota.sessions[k] == r.sessions[k]
                    &&& t.reply == "📅 **"@ + day.pretty()
                        + "** is now a split session — no rota. 🍵"@
                },
                None => {
                    &&& t.rota == r
                    &&& t.reply == "No session found on "@ + day.pretty() + "."@
                },
            }
        }),
{
    lemma_names_differ();
    if let Some(i) = r.slot(day.iso()) {
        session_laws::sessions_are_found_by_date(r, day.iso(), i);
    }
}

/// `/session assign` with a user hands one session to them and sends them to the end of the order.
/// The sessions after it that are not past and have somebody on tea go to the people of the new
/// order in turn, from its front; all others stay as they are, and so do all dates and notes. The
/// marker goes on behind the last of the sessions that were handed out.
pub proof fn handing_a_session_over(
    r: RotaView,
    opts: Seq<CommandOption>,
    users: Seq<ResolvedUser>,
    today: CivilDate,
    raw: Seq<char>,
    day: CivilDate,
    id: u64,
    name: Seq<char>,
    slot: int,
    seat: int,
    k: int,
)
    requires
        request::text_given(opts, "date"@) == Some(raw),
        date::read_date(raw) == Some(day),
        request::flag_given(opts, "skip"@) != Some(true),
        request::user_given(opts, "user"@, users) == Some((id, name)),
        r.slot(day.iso()) == Some(slot),
        r.seat(id) == Some(seat),
        !(r.sessions[slot].assignee is Some && r.sessions[slot].assignee->0.id == id),
        0 <= k < r.sessions.len(),
    ensures
        ({
            let out = session_command::session_turn(r, "assign"@, opts, users, today);
            let t = out->0.rota;
            let n = r.members.len() as int;
            let order = r.members.remove(seat).push(r.members[seat]);
            let old = r.sessions[k];
            let now = today.iso();
            &&& out is Some
            &&& t.members == order
            &&& t.master == r.master
            &&& t.master_channel == r.master_channel
            &&& t.sessions.len() == r.sessions.len()
            &&& t.sessions[slot].assignee == Some(r.members[seat])
            &&& t.sessions[k].date == old.date
            &&& t.sessions[k].note == old.note
            &&& k != slot ==> t.sessions[k].assignee == if text::text_before(day.iso(), old.date)
                && !text::text_before(old.date, now) && old.assignee is Some {
                Some(order[session_laws::to_hand_out(r.sessions, day.iso(), now, k) % n])
            } else {
                old.assignee
            }
            &&& t.current == session_laws::to_hand_out(
                r.sessions,
                day.iso(),
                now,
                r.sessions.len() as int,
            ) % n
            &&& t.up_next() == Some(order[t.current])
        }),
{
    lemma_names_differ();
    session_laws::sessions_are_found_by_date(r, day.iso(), slot);
    rota_laws::people_are_found_by_id(r, id, seat);
    session_laws::covering_hands_out_in_turn(r, slot, seat, today.iso(), k);
}

/// Handing a session over is fair: of the sessions that are handed out anew nobody gets two more
/// than anybody else, and nobody has got fewer of them than the person who is up next.
pub proof fn handing_over_is_fair(
    r: RotaView,
    opts: Seq<CommandOption>,
    users: Seq<ResolvedUser>,
    today: CivilDate,
    raw: Seq<char>,
    day: CivilDate,
    id: u64,
    name: Seq<char>,
    slot: int,
    seat: int,
    i: int,
    j: int,
)
    requires
        r.distinct_members(),
        request::text_given(opts, "date"@) == Some(raw),
        date::read_date(raw) == Some(day),
        request::flag_given(opts, "skip"@) != Some(true),
        request::user_given(opts, "user"@, users) == Some((id, name)),
        r.slot(day.iso()) == Some(slot),
        r.seat(id) == Some(seat),
        !(r.sessions[slot].assignee is Some && r.sessions[slot].assignee->0.id == id),
        0 <= i < r.members.len(),
        0 <= j < r.members.len(),
    ensures
        ({
            let t = session_command::session_turn(r, "assign"@, opts, users, today)->0.rota;
            let all = r.sessions.len() as int;
            let dealt = |m: MemberView|
                session_laws::dealt_to(r.sessions, t.sessions, day.iso(), today.iso(), m, all);
            &&& -1 <= dealt(t.members[i]) - dealt(t.members[j]) <= 1
            &&& t.up_next() is Some
            &&& dealt(t.up_next()->0) <= dealt(t.members[j])
        }),
{
    lemma_names_differ();
    session_laws::sessions_are_found_by_date(r, day.iso(), slot);
    rota_laws::people_are_found_by_id(r, id, seat);
    session_laws::covering_is_fair(r, slot, seat, today.iso(), i, j);
}

/// The reply to `/session assign` mentions who is on tea now and names who was, and behind that it
/// lists the upcoming sessions as they are now.
pub proof fn handing_over_is_told(
    r: RotaView,
    opts: Seq<CommandOption>,
    users: Seq<ResolvedUser>,
    today: CivilDate,
    raw: Seq<char>,
    day: CivilDate,
    id: u64,
    name: Seq<char>,
    slot: int,
    seat: int,
)
    requires
        request::text_given(opts, "date"@) == Some(raw),
        date::read_date(raw) == Some(day),
        request::flag_given(opts, "skip"@) != Some(true),
        request::user_given(opts, "user"@, users) == Some((id, name)),
        r.slot(day.iso()) == Some(slot),
        r.seat(id) == Some(seat),
        !(r.sessions[slot].assignee is Some && r.sessions[slot].assignee->0.id == id),
    ensures
        ({
            let t = session_command::session_turn(r, "assign"@, opts, users, today)->0;
            t.reply == "🔁 "@ + t.rota.sessions[slot].assignee->0.mention()
                + " is now on tea for **"@ + day.pretty() + "** (was "@ + (
            match r.sessions[slot].assignee {
                Some(m) => m.name,
                None => "split, no rota"@,
            }) + ").\n**Rebalanced upcoming rota:**\n"@ + session_command::lines(
                t.rota.sessions.filter(
                    |e: SessionView| !text::text_before(e.date, today.iso()),
                ),
                false,
            )
        }),
{
    lemma_names_differ();
    session_laws::sessions_are_found_by_date(r, day.iso(), slot);
    rota_laws::people_are_found_by_id(r, id, seat);
    session_laws::covering_hands_out_in_turn(r, slot, seat, today.iso(), slot);
}

/// `/session assign` changes nothing where there is no such session, where the person is not in the
/// rotation or is on tea already, or where nobody is named; the reply tells which it is.
pub proof fn handing_over_can_be_refused(
    r: RotaView,
    opts: Seq<CommandOption>,
    users: Seq<ResolvedUser>,
    today: CivilDate,
    raw: Seq<char>,
    day: CivilDate,
)
    requires
        request::text_given(opts, "date"@) == Some(raw),
        date::read_date(raw) == Some(day),
        request::flag_given(opts, "skip"@) != Some(true),
    ensures
        ({
            let out = session_command::session_turn(r, "assign"@, opts, users, today);
            let t = out->0;
            &&& out is Some
            &&& match request::user_given(opts, "user"@, users) {
                None => t.rota == r && t.reply
                    == "You need to specify a user (or set `skip:true` for a split session)."@,
                Some((id, name)) => {
                    &&& r.slot(day.iso()) is None ==> t.rota == r && t.reply
                        == "No session found on "@ + day.pretty() + "."@
                    &&& r.slot(day.iso()) is Some && r.seat(id) is None ==> t.rota == r && t.reply
                        == "**"@ + name
                        + "** isn't in the rota — add them with `/rota add` first."@
                    &&& r.slot(day.iso()) is Some && r.seat(id) is Some && (
                    r.sessions[r.slot(day.iso())->0].assignee matches Some(m) && m.id == id)
                        ==> t.rota == r && t.reply == "**"@ + r.members[r.seat(id)->0].name
                        + "** is already on tea for "@ + day.pretty() + "."@
                },
            }
        }),
{
    lemma_names_differ();
}

/// A list has one line for each session, in order: its date, who is on tea, and the note, if notes
/// are shown and there is one.
pub proof fn lists_have_a_line_for_each_session(
    s: Seq<SessionView>,
    x: SessionView,
    with_notes: bool,
)
    ensures
        session_command::lines(Seq::empty(), with_notes) == Seq::<char>::empty(),
        session_command::lines(s.push(x), with_notes) == session_command::lines(s, with_notes)
            + "• "@ + date::pretty_kept(x.date) + " — "@ + (match x.assignee {
            Some(m) => m.name,
            None => "— split (no rota)"@,
        }) + (if with_notes && x.note is Some {
            " ("@ + x.note->0 + ")"@
        } else {
            Seq::empty()
        }) + "\n"@,
{
    let who = match x.assignee {
        Some(m) => m.name,
        None => "— split (no rota)"@,
    };
    let note = if with_notes && x.note is Some {
        " ("@ + x.note->0 + ")"@
    } else {
        Seq::empty()
    };
    assert(s.push(x).drop_last() == s);
    let front = session_command::lines(s, with_notes);
    let line = "• "@ + date::pretty_kept(x.date) + " — "@ + who;
    assert(x.line(with_notes) =~= line + note + "\n"@);
    assert(front + x.line(with_notes) =~= front + "• "@ + date::pretty_kept(x.date) + " — "@ + who
        + note + "\n"@);
}

/// `/session list` lists exactly the sessions that are not before today, in the order of the
/// calendar, with their notes.
pub proof fn the_list_shows_what_is_to_come(
    r: RotaView,
    opts: Seq<CommandOption>,
    users: Seq<ResolvedUser>,
    today: CivilDate,
)
    ensures
        ({
            let out = session_command::session_turn(r, "list"@, opts, users, today);
            let coming = r.sessions.filter(
                |e: SessionView| !text::text_before(e.date, today.iso()),
            );
            &&& out is Some
            &&& out->0.rota == r
            &&& out->0.reply == if coming.len() == 0 {
                "No upcoming sessions. Schedule one with `/session add`."@
            } else {
                "**📅 Upcoming sessions**\n"@ + session_command::lines(coming, true)
            }
        }),
{
    lemma_names_differ();
}

/// `/session history` lists the sessions before today, the latest first, with their notes; of more
/// than twenty it lists the latest twenty, and tells how many there are besides.
pub proof fn history_shows_what_has_been(
    r: RotaView,
    opts: Seq<CommandOption>,
    users: Seq<ResolvedUser>,
    today: CivilDate,
    shown: Seq<SessionView>,
)
    requires
        ({
            let past = r.sessions.filter(|e: SessionView| text::text_before(e.date, today.iso()));
            &&& shown.len() == if past.len() > 20 {
                20
            } else {
                past.len()
            }
            &&& forall|k: int|
                0 <= k < shown.len() ==> #[trigger] shown[k] == past[past.len() - 1 - k]
        }),
    ensures
        ({
            let out = session_command::session_turn(r, "history"@, opts, users, today);
            let past = r.sessions.filter(|e: SessionView| text::text_before(e.date, today.iso()));
            &&& out is Some
            &&& out->0.rota == r
            &&& past.len() == 0 ==> out->0.reply == "No past sessions yet."@
            &&& 0 < past.len() <= 20 ==> out->0.reply == "**📜 Past sessions**\n"@
                + session_command::lines(shown, true)
            &&& past.len() > 20 ==> out->0.reply == "**📜 Past sessions**\n"@
                + session_command::lines(shown, true) + "…and "@ + text::decimal(
                (past.len() - 20) as nat,
            ) + " earlier."@
        }),
{
    lemma_names_differ();
    let past = r.sessions.filter(|e: SessionView| text::text_before(e.date, today.iso()));
    if past.len() > 20 {
        assert(past.reverse().take(20) =~= shown);
    } else {
        assert(past.reverse() =~= shown);
    }
}

/// `/session next` shows the first session of the calendar that is not before today: its date, who
/// is on tea, and its note.
pub proof fn the_next_session_is_shown(
    r: RotaView,
    opts: Seq<CommandOption>,
    users: Seq<ResolvedUser>,
    today: CivilDate,
    k: int,
)
    requires
        0 <= k <= r.sessions.len(),
        forall|j: int|
            0 <= j < k ==> text::text_before((#[trigger] r.sessions[j]).date, today.iso()),
        k < r.sessions.len() ==> !text::text_before(r.sessions[k].date, today.iso()),
    ensures
        ({
            let out = session_command::session_turn(r, "next"@, opts, users, today);
            let s = r.sessions[k];
            &&& out is Some
            &&& out->0.rota == r
            &&& k == r.sessions.len() ==> out->0.reply
                == "No upcoming sessions. Schedule one with `/session add`."@
            &&& k < r.sessions.len() ==> out->0.reply == "Next session: **"@ + date::pretty_kept(
                s.date,
            ) + "** — "@ + s.tea_mention() + (match s.note {
                Some(note) => "\n> "@ + note,
                None => Seq::empty(),
            })
        }),
{
    lemma_names_differ();
    let coming = |e: SessionView| !text::text_before(e.date, today.iso());
    assert forall|j: int| 0 <= j < k implies !coming(#[trigger] r.sessions[j]) by {
        assert(text::text_before(r.sessions[j].date, today.iso()));
    }
    session_laws::lemma_first_is_first_of_filter(r.sessions, coming);
    if k < r.sessions.len() {
        model::lemma_first_place_is(r.sessions, coming, k);
        let s = r.sessions[k];
        let front = "Next session: **"@ + date::pretty_kept(s.date) + "** — "@ + s.tea_mention();
        match s.note {
            Some(note) => {
                assert(front + "\n> "@ + note =~= front + ("\n> "@ + note));
            },
            None => {
                assert(front + Seq::<char>::empty() =~= front);
            },
        }
    } else {
        model::lemma_first_place_none(r.sessions, coming);
    }
}

} // verus!
