//! Every operation keeps a rota well formed.

use vstd::prelude::*;

use crate::calendar;
use crate::model;
use crate::model::{MemberView, RotaView, SessionView};

verus! {

/// An empty rota is well formed.
pub proof fn empty_is_well_formed()
    ensures
        RotaView::empty().well_formed(),
{
}

/// Adding a person keeps a rota well formed.
pub proof fn with_member_keeps(r: RotaView, m: MemberView)
    requires
        r.well_formed(),
    ensures
        r.with_member(m).well_formed(),
{
    let is_m = |x: MemberView| x.id == m.id;
    model::lemma_first_place(r.members, is_m);
    if r.seat(m.id) is None {
        let s = r.with_member(m);
        assert forall|i: int, j: int| 0 <= i < j < s.members.len() implies s.members[i].id
            != s.members[j].id by {
            assert(!is_m(r.members[i]));
        }
    }
}

/// Removing a person keeps a rota well formed.
pub proof fn without_member_keeps(r: RotaView, id: u64)
    requires
        r.well_formed(),
    ensures
        r.without_member(id).well_formed(),
{
    model::lemma_first_place(r.members, |x: MemberView| x.id == id);
}

/// Moving the marker on keeps a rota well formed.
pub proof fn advanced_keeps(r: RotaView)
    requires
        r.well_formed(),
    ensures
        r.advanced().well_formed(),
{
}

/// Moving the marker to a person keeps a rota well formed.
pub proof fn pointed_at_keeps(r: RotaView, id: u64)
    requires
        r.well_formed(),
    ensures
        r.pointed_at(id).well_formed(),
{
    model::lemma_first_place(r.members, |x: MemberView| x.id == id);
}

/// Booking a session on a free date keeps a calendar in order.
pub proof fn booked_keeps_the_calendar(
    r: RotaView,
    date: Seq<char>,
    note: Option<Seq<char>>,
    skip: bool,
)
    requires
        r.calendar_sorted(),
        r.slot(date) is None,
    ensures
        r.booked(date, note, skip).calendar_sorted(),
{
    let on = |s: SessionView| s.date == date;
    model::lemma_first_place(r.sessions, on);
    calendar::sorted_dates_are_distinct(r.sessions);
    let assignee = if skip {
        None
    } else {
        r.up_next()
    };
    let all = r.sessions.push(SessionView { date, assignee, note });
    assert forall|i: int, j: int| 0 <= i < j < all.len() implies all[i].date != all[j].date by {
        assert(!on(r.sessions[i]));
    }
    calendar::sorting_distinct_dates(all);
}

/// Booking a session on a free date keeps a rota well formed.
pub proof fn booked_keeps(r: RotaView, date: Seq<char>, note: Option<Seq<char>>, skip: bool)
    requires
        r.well_formed(),
        r.slot(date) is None,
    ensures
        r.booked(date, note, skip).well_formed(),
{
    booked_keeps_the_calendar(r, date, note, skip);
}

/// Skipping a session keeps a rota well formed.
pub proof fn with_skipped_keeps(r: RotaView, date: Seq<char>)
    requires
        r.well_formed(),
    ensures
        r.with_skipped(date).well_formed(),
{
    model::lemma_first_place(r.sessions, |s: SessionView| s.date == date);
    let s = r.with_skipped(date).sessions;
    assert(forall|i: int| 0 <= i < s.len() ==> (#[trigger] s[i]).date == r.sessions[i].date);
}

/// Removing a session keeps a rota well formed.
pub proof fn without_session_keeps(r: RotaView, date: Seq<char>)
    requires
        r.well_formed(),
    ensures
        r.without_session(date).well_formed(),
{
    model::lemma_first_place(r.sessions, |s: SessionView| s.date == date);
}

/// Moving a session to its own date or to a free one keeps a calendar in order.
pub proof fn moved_keeps_the_calendar(r: RotaView, i: int, to: Seq<char>)
    requires
        r.calendar_sorted(),
        0 <= i < r.sessions.len(),
        r.sessions[i].date == to || r.slot(to) is None,
    ensures
        r.moved(i, to).calendar_sorted(),
{
    let on = |s: SessionView| s.date == to;
    model::lemma_first_place(r.sessions, on);
    calendar::sorted_dates_are_distinct(r.sessions);
    let all = r.sessions.update(i, SessionView { date: to, ..r.sessions[i] });
    assert forall|a: int, b: int| 0 <= a < b < all.len() implies all[a].date != all[b].date by {
        if r.sessions[i].date != to {
            assert(!on(r.sessions[a]));
            assert(!on(r.sessions[b]));
        }
    }
    calendar::sorting_distinct_dates(all);
}

/// Moving a session to its own date or to a free one keeps a rota well formed.
pub proof fn moved_keeps(r: RotaView, i: int, to: Seq<char>)
    requires
        r.well_formed(),
        0 <= i < r.sessions.len(),
        r.sessions[i].date == to || r.slot(to) is None,
    ensures
        r.moved(i, to).well_formed(),
{
    moved_keeps_the_calendar(r, i, to);
}

/// Covering a session keeps a rota well formed.
pub proof fn covered_keeps(r: RotaView, slot: int, seat: int, today: Seq<char>)
    requires
        r.well_formed(),
        0 <= slot < r.sessions.len(),
        0 <= seat < r.members.len(),
    ensures
        r.covered(slot, seat, today).well_formed(),
{
    let s = r.covered(slot, seat, today);
    assert(forall|i: int|
        0 <= i < s.sessions.len() ==> (#[trigger] s.sessions[i]).date == r.sessions[i].date);
    assert(s.members.len() == r.members.len());
}

/// Exchanging two people keeps a rota well formed.
pub proof fn swapped_keeps(r: RotaView, i: int, j: int, today: Seq<char>)
    requires
        r.well_formed(),
        0 <= i < r.members.len(),
        0 <= j < r.members.len(),
    ensures
        r.swapped(i, j, today).well_formed(),
{
    let s = r.swapped(i, j, today);
    assert(forall|k: int|
        0 <= k < s.sessions.len() ==> (#[trigger] s.sessions[k]).date == r.sessions[k].date);
}

} // verus!
