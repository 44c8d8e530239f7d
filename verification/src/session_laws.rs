//! What holds of the calendar: of booking, moving, removing and covering sessions.

use vstd::prelude::*;

use crate::calendar;
use crate::model;
use crate::model::{MemberView, RotaView, SessionView};
use crate::text;
use crate::upkeep;

verus! {

proof fn lemma_slot_is(r: RotaView, i: int)
    requires
        r.calendar_sorted(),
        0 <= i < r.sessions.len(),
    ensures
        r.slot(r.sessions[i].date) == Some(i),
{
    let on = |s: SessionView| s.date == r.sessions[i].date;
    calendar::sorted_dates_are_distinct(r.sessions);
    assert forall|j: int| 0 <= j < i implies !on(#[trigger] r.sessions[j]) by {
        assert(r.sessions[j].date != r.sessions[i].date);
    }
    model::lemma_first_place_is(r.sessions, on, i);
}

proof fn lemma_slot(r: RotaView, date: Seq<char>)
    ensures
        match r.slot(date) {
            Some(i) => 0 <= i < r.sessions.len() && r.sessions[i].date == date,
            None => forall|j: int| 0 <= j < r.sessions.len() ==> (#[trigger] r.sessions[j]).date
                != date,
        },
{
    let on = |s: SessionView| s.date == date;
    model::lemma_first_place(r.sessions, on);
    if r.slot(date) is None {
        assert forall|j: int| 0 <= j < r.sessions.len() implies (#[trigger] r.sessions[j]).date
            != date by {
            assert(!on(r.sessions[j]));
        }
    }
}

/// A session put on a free date stands there, and no other date is touched.
proof fn lemma_with_session(r: RotaView, s: SessionView, date: Seq<char>)
    requires
        r.calendar_sorted(),
        r.slot(s.date) is None,
    ensures
        r.with_session(s).calendar_sorted(),
        r.with_session(s).session_on(s.date) == Some(s),
        date != s.date ==> r.with_session(s).session_on(date) == r.session_on(date),
        r.with_session(s).without_session(s.date).sessions == r.sessions,
{
    let later = |e: SessionView| text::text_before(s.date, e.date);
    let all = r.sessions.push(s);
    let t = r.with_session(s);
    lemma_slot(r, s.date);
    calendar::sorted_dates_are_distinct(r.sessions);
    assert(calendar::distinct_dates(all));
    calendar::sorting_distinct_dates(all);
    calendar::sorting_sorted_dates(r.sessions);
    assert(all.drop_last() == r.sessions);
    model::lemma_first_place(r.sessions, later);
    let p = match model::first_place(r.sessions, later) {
        Some(p) => p,
        None => r.sessions.len() as int,
    };
    assert(t.sessions == r.sessions.insert(p, s));
    lemma_slot_is(t, p);
    assert(t.sessions.remove(p) == r.sessions);
    if date != s.date {
        lemma_slot(r, date);
        lemma_slot(t, date);
        match r.slot(date) {
            Some(i) => {
                let k = if i < p {
                    i
                } else {
                    i + 1
                };
                assert(t.sessions[k] == r.sessions[i]);
                lemma_slot_is(t, k);
            },
            None => {
                if let Some(k) = t.slot(date) {
                    let i = if k < p {
                        k
                    } else {
                        k - 1
                    };
                    assert(t.sessions[k] == r.sessions[i]);
                }
            },
        }
    }
}

/// A booked session stands in the calendar, with whoever was up next on tea, and no session on
/// another date is touched.
pub proof fn booking_books(
    r: RotaView,
    date: Seq<char>,
    note: Option<Seq<char>>,
    skip: bool,
    other: Seq<char>,
)
    requires
        r.calendar_sorted(),
        r.slot(date) is None,
    ensures
        r.booked(date, note, skip).session_on(date) == Some(
            (SessionView {
                date,
                assignee: if skip {
                    None
                } else {
                    r.up_next()
                },
                note,
            }),
        ),
        other != date ==> r.booked(date, note, skip).session_on(other) == r.session_on(other),
{
    let assignee = if skip {
        None
    } else {
        r.up_next()
    };
    lemma_with_session(r, SessionView { date, assignee, note }, other);
}

/// A skipped session uses no turn: the order and the marker stay.
pub proof fn skipping_uses_no_turn(r: RotaView, date: Seq<char>, note: Option<Seq<char>>)
    ensures
        r.booked(date, note, true).members == r.members,
        r.booked(date, note, true).current == r.current,
        r.with_skipped(date).members == r.members,
        r.with_skipped(date).current == r.current,
{
}

/// Removing a session that has just been booked gives the calendar back.
pub proof fn removing_undoes_booking(
    r: RotaView,
    date: Seq<char>,
    note: Option<Seq<char>>,
    skip: bool,
)
    requires
        r.calendar_sorted(),
        r.slot(date) is None,
    ensures
        r.booked(date, note, skip).without_session(date).sessions == r.sessions,
{
    let assignee = if skip {
        None
    } else {
        r.up_next()
    };
    lemma_with_session(r, SessionView { date, assignee, note }, date);
}

/// Removing, skipping and moving sessions leave the rotation alone: nobody's turn changes.
pub proof fn calendar_changes_leave_the_rotation(
    r: RotaView,
    date: Seq<char>,
    i: int,
    to: Seq<char>,
)
    ensures
        r.without_session(date).members == r.members,
        r.without_session(date).current == r.current,
        r.with_skipped(date).members == r.members,
        r.with_skipped(date).current == r.current,
        r.moved(i, to).members == r.members,
        r.moved(i, to).current == r.current,
{
}

/// A session to book.
pub struct Booking {
    pub date: Seq<char>,
    pub note: Option<Seq<char>>,
    pub skip: bool,
}

/// The rota after sessions have been booked, one after the other.
pub open spec fn booked_all(r: RotaView, bookings: Seq<Booking>) -> RotaView
    decreases bookings.len(),
{
    if bookings.len() == 0 {
        r
    } else {
        let b = bookings.last();
        booked_all(r, bookings.drop_last()).booked(b.date, b.note, b.skip)
    }
}

/// How many of the bookings use a turn.
pub open spec fn turns_used(bookings: Seq<Booking>) -> nat {
    bookings.filter(|b: Booking| !b.skip).len()
}

/// Whether the bookings are on dates that are free, and no two of them on the same date.
pub open spec fn on_free_dates(r: RotaView, bookings: Seq<Booking>) -> bool {
    &&& forall|i: int| 0 <= i < bookings.len() ==> r.slot((#[trigger] bookings[i]).date) is None
    &&& forall|i: int, j: int|
        0 <= i < j < bookings.len() ==> bookings[i].date != bookings[j].date
}

proof fn lemma_booked_all(r: RotaView, bookings: Seq<Booking>, other: Seq<char>)
    requires
        r.marker_valid(),
        r.calendar_sorted(),
        r.members.len() > 0,
        on_free_dates(r, bookings),
    ensures
        booked_all(r, bookings).calendar_sorted(),
        booked_all(r, bookings).members == r.members,
        booked_all(r, bookings).current == (r.current + turns_used(bookings))
            % r.members.len() as int,
        (forall|i: int| 0 <= i < bookings.len() ==> (#[trigger] bookings[i]).date != other)
            ==> booked_all(r, bookings).session_on(other) == r.session_on(other),
    decreases bookings.len(),
{
    let n = r.members.len() as int;
    if bookings.len() == 0 {
        reveal(Seq::filter);
        vstd::arithmetic::div_mod::lemma_small_mod(r.current as nat, n as nat);
    } else {
        let fewer = bookings.drop_last();
        let last = bookings.last();
        assert(bookings[bookings.len() - 1] == last);
        assert forall|i: int| 0 <= i < fewer.len() implies r.slot((#[trigger] fewer[i]).date) is None
            && fewer[i].date != last.date by {
            assert(fewer[i] == bookings[i]);
        }
        lemma_booked_all(r, fewer, last.date);
        lemma_booked_all(r, fewer, other);
        let b = booked_all(r, fewer);
        assert(b.slot(last.date) is None);
        upkeep::booked_keeps_the_calendar(b, last.date, last.note, last.skip);
        booking_books(b, last.date, last.note, last.skip, other);
        fewer.lemma_filter_push(last, |b: Booking| !b.skip);
        assert(fewer.push(last) == bookings);
        let used = r.current + turns_used(fewer);
        vstd::arithmetic::div_mod::lemma_add_mod_noop(used, 1, n);
        vstd::arithmetic::div_mod::lemma_add_mod_noop(used % n, 1, n);
        vstd::arithmetic::div_mod::lemma_mod_twice(used, n);
        if forall|i: int| 0 <= i < bookings.len() ==> (#[trigger] bookings[i]).date != other {
            assert forall|i: int| 0 <= i < fewer.len() implies (#[trigger] fewer[i]).date
                != other by {
                assert(fewer[i] == bookings[i]);
            }
        }
    }
}

/// Booking free dates one after the other goes through the rotation in order, from whoever is up
/// next, and round again: so tea duty is spread across the group. Those that skip the rota have
/// nobody on tea and use no turn, wherever they stand between the others.
pub proof fn bookings_go_round(r: RotaView, bookings: Seq<Booking>, i: int)
    requires
        r.marker_valid(),
        r.calendar_sorted(),
        r.members.len() > 0,
        on_free_dates(r, bookings),
        0 <= i < bookings.len(),
    ensures
        booked_all(r, bookings).session_on(bookings[i].date) == Some(
            (SessionView {
                date: bookings[i].date,
                assignee: if bookings[i].skip {
                    None
                } else {
                    Some(
                        r.members[(r.current + turns_used(bookings.take(i)))
                            % r.members.len() as int],
                    )
                },
                note: bookings[i].note,
            }),
        ),
        booked_all(r, bookings).members == r.members,
        booked_all(r, bookings).current == (r.current + turns_used(bookings))
            % r.members.len() as int,
    decreases bookings.len(),
{
    let fewer = bookings.drop_last();
    let last = bookings.last();
    assert(bookings[bookings.len() - 1] == last);
    assert forall|k: int| 0 <= k < fewer.len() implies r.slot((#[trigger] fewer[k]).date) is None
        && fewer[k].date != last.date by {
        assert(fewer[k] == bookings[k]);
    }
    lemma_booked_all(r, bookings, last.date);
    lemma_booked_all(r, fewer, last.date);
    let b = booked_all(r, fewer);
    assert(b.slot(last.date) is None);
    booking_books(b, last.date, last.note, last.skip, bookings[i].date);
    if i == bookings.len() - 1 {
        assert(bookings.take(i) == fewer);
        let place = (r.current + turns_used(fewer)) % r.members.len() as int;
        assert(0 <= place < r.members.len()) by {
            vstd::arithmetic::div_mod::lemma_mod_bound(
                r.current + turns_used(fewer),
                r.members.len() as int,
            );
        }
    } else {
        bookings_go_round(r, fewer, i);
        assert(fewer[i] == bookings[i]);
        assert(fewer.take(i) == bookings.take(i));
    }
}

proof fn lemma_contains_last(a: Seq<SessionView>, b: Seq<SessionView>)
    requires
        a.len() > 0,
        b.len() > 0,
        calendar::strictly_sorted(a),
        calendar::strictly_sorted(b),
        a.to_multiset() == b.to_multiset(),
    ensures
        a.last() == b.last(),
{
    broadcast use vstd::seq_lib::group_to_multiset_ensures;

    let x = a[a.len() - 1];
    let y = b[b.len() - 1];
    assert(a.to_multiset().count(x) > 0);
    assert(b.to_multiset().count(y) > 0);
    assert(b.contains(x));
    assert(a.contains(y));
    let i = choose|i: int| 0 <= i < b.len() && b[i] == x;
    let j = choose|j: int| 0 <= j < a.len() && a[j] == y;
    if i < b.len() - 1 && j < a.len() - 1 {
        assert(text::text_before(x.date, y.date));
        assert(text::text_before(y.date, x.date));
        text::text_before_is_transitive(x.date, y.date, x.date);
        text::text_before_is_irreflexive(x.date);
    }
}

proof fn lemma_calendars_agree(a: Seq<SessionView>, b: Seq<SessionView>)
    requires
        calendar::strictly_sorted(a),
        calendar::strictly_sorted(b),
        a.to_multiset() == b.to_multiset(),
    ensures
        a == b,
    decreases a.len(),
{
    broadcast use vstd::seq_lib::group_to_multiset_ensures;

    vstd::seq_lib::to_multiset_len(a);
    vstd::seq_lib::to_multiset_len(b);
    if a.len() > 0 {
        lemma_contains_last(a, b);
        let x = a.drop_last();
        let y = b.drop_last();
        assert(a == x.push(a.last()));
        assert(b == y.push(b.last()));
        vstd::seq_lib::to_multiset_remove(a, a.len() - 1);
        vstd::seq_lib::to_multiset_remove(b, b.len() - 1);
        assert(a.remove(a.len() - 1) == x);
        assert(b.remove(b.len() - 1) == y);
        lemma_calendars_agree(x, y);
    } else {
        assert(a =~= b);
    }
}

/// A moved session stands on its new date with the assignee and the note that it had, and the
/// rest of the calendar is as it was.
pub proof fn moving_keeps_the_session(r: RotaView, i: int, to: Seq<char>, other: Seq<char>)
    requires
        r.calendar_sorted(),
        0 <= i < r.sessions.len(),
        r.sessions[i].date == to || r.slot(to) is None,
    ensures
        r.moved(i, to).session_on(to) == Some((SessionView { date: to, ..r.sessions[i] })),
        other != to && other != r.sessions[i].date ==> r.moved(i, to).session_on(other)
            == r.session_on(other),
        to != r.sessions[i].date ==> r.moved(i, to).slot(r.sessions[i].date) is None,
{
    let x = SessionView { date: to, ..r.sessions[i] };
    let all = r.sessions.update(i, x);
    let t = r.moved(i, to);
    let from = r.sessions[i].date;
    upkeep::moved_keeps_the_calendar(r, i, to);
    calendar::sorted_dates_are_distinct(r.sessions);
    calendar::sorting_keeps(all, i);
    let k = choose|k: int| 0 <= k < t.sessions.len() && t.sessions[k] == x;
    lemma_slot_is(t, k);
    if other != to && other != from {
        lemma_slot(r, other);
        lemma_slot(t, other);
        match r.slot(other) {
            Some(p) => {
                assert(all[p] == r.sessions[p]);
                calendar::sorting_keeps(all, p);
                let q = choose|q: int| 0 <= q < t.sessions.len() && t.sessions[q] == all[p];
                lemma_slot_is(t, q);
            },
            None => {
                if let Some(q) = t.slot(other) {
                    calendar::sorting_adds_nothing(all, q);
                    let p = choose|p: int| 0 <= p < all.len() && all[p] == t.sessions[q];
                    assert(p != i ==> all[p] == r.sessions[p]);
                }
            },
        }
    }
    if to != from {
        lemma_slot(t, from);
        if let Some(q) = t.slot(from) {
            calendar::sorting_adds_nothing(all, q);
            let p = choose|p: int| 0 <= p < all.len() && all[p] == t.sessions[q];
            assert(p != i ==> all[p] == r.sessions[p]);
        }
    }
}

/// Moving a session onto its own date changes nothing.
pub proof fn moving_onto_itself_changes_nothing(r: RotaView, i: int)
    requires
        r.calendar_sorted(),
        0 <= i < r.sessions.len(),
    ensures
        r.moved(i, r.sessions[i].date) == r,
{
    let x = SessionView { date: r.sessions[i].date, ..r.sessions[i] };
    assert(r.sessions.update(i, x) == r.sessions);
    calendar::sorting_sorted_dates(r.sessions);
}

/// Moving a session to a free date and back gives the rota back.
pub proof fn moving_back_undoes_moving(r: RotaView, i: int, to: Seq<char>)
    requires
        r.calendar_sorted(),
        0 <= i < r.sessions.len(),
        r.slot(to) is None,
    ensures
        r.moved(i, to).slot(to) is Some,
        r.moved(i, to).moved(r.moved(i, to).slot(to)->0, r.sessions[i].date) == r,
{
    broadcast use vstd::seq_lib::group_to_multiset_ensures;

    let from = r.sessions[i].date;
    let x = SessionView { date: to, ..r.sessions[i] };
    let all = r.sessions.update(i, x);
    let t = r.moved(i, to);
    lemma_slot(r, to);
    moving_keeps_the_session(r, i, to, from);
    upkeep::moved_keeps_the_calendar(r, i, to);
    let k = t.slot(to)->0;
    lemma_slot(t, to);
    assert(t.sessions[k] == x);
    let y = SessionView { date: from, ..t.sessions[k] };
    assert(y == r.sessions[i]);
    let u = t.moved(k, from);
    upkeep::moved_keeps_the_calendar(t, k, from);
    calendar::sorting_is_stable(all, from);
    calendar::sorting_is_stable(t.sessions.update(k, y), from);
    vstd::seq_lib::to_multiset_update(r.sessions, i, x);
    vstd::seq_lib::to_multiset_update(t.sessions, k, y);
    assert(r.sessions.contains(r.sessions[i]));
    assert(r.sessions.to_multiset().count(r.sessions[i]) > 0);
    assert(u.sessions.to_multiset() =~= r.sessions.to_multiset());
    lemma_calendars_agree(u.sessions, r.sessions);
    assert(u =~= r);
}

proof fn lemma_split_push(s: Seq<SessionView>, x: SessionView, today: Seq<char>)
    ensures
        text::text_before(x.date, today) ==> model::past_of(s.push(x), today) == model::past_of(
            s,
            today,
        ).push(x) && model::upcoming_of(s.push(x), today) == model::upcoming_of(s, today),
        !text::text_before(x.date, today) ==> model::past_of(s.push(x), today) == model::past_of(
            s,
            today,
        ) && model::upcoming_of(s.push(x), today) == model::upcoming_of(s, today).push(x),
{
    s.lemma_filter_push(x, |e: SessionView| text::text_before(e.date, today));
    s.lemma_filter_push(x, |e: SessionView| !text::text_before(e.date, today));
}

proof fn lemma_nothing_upcoming(s: Seq<SessionView>, today: Seq<char>)
    requires
        forall|i: int| 0 <= i < s.len() ==> text::text_before((#[trigger] s[i]).date, today),
    ensures
        model::upcoming_of(s, today) == Seq::<SessionView>::empty(),
{
    calendar::lemma_filter_nothing(s, |e: SessionView| !text::text_before(e.date, today));
}

proof fn lemma_split(s: Seq<SessionView>, today: Seq<char>) -> (at: int)
    requires
        calendar::sorted(s),
    ensures
        0 <= at <= s.len(),
        model::past_of(s, today) == s.take(at),
        model::upcoming_of(s, today) == s.skip(at),
    decreases s.len(),
{
    if s.len() > 0 {
        let rest = s.drop_last();
        let x = s.last();
        assert(rest.push(x) == s);
        let at = lemma_split(rest, today);
        lemma_split_push(rest, x, today);
        if text::text_before(x.date, today) {
            assert forall|i: int| 0 <= i < rest.len() implies text::text_before(
                (#[trigger] rest[i]).date,
                today,
            ) by {
                assert(!text::text_before(s[s.len() - 1].date, s[i].date));
                text::text_before_is_total(s[i].date, x.date);
                if s[i].date != x.date {
                    text::text_before_is_transitive(s[i].date, x.date, today);
                }
            }
            lemma_nothing_upcoming(rest, today);
            assert(rest.skip(at).len() == 0);
            assert(rest.take(at).push(x) =~= s.take(s.len() as int));
            assert(rest.skip(at) =~= s.skip(s.len() as int));
            s.len() as int
        } else {
            assert(rest.take(at) =~= s.take(at));
            assert(rest.skip(at).push(x) =~= s.skip(at));
            at
        }
    } else {
        lemma_nothing_upcoming(s, today);
        calendar::lemma_filter_nothing(s, |e: SessionView| text::text_before(e.date, today));
        assert(s.take(0) =~= Seq::<SessionView>::empty());
        assert(s.skip(0) =~= Seq::<SessionView>::empty());
        0
    }
}

/// The calendar is made of the past sessions, and behind them the upcoming ones: each session is
/// one or the other.
pub proof fn past_and_upcoming_make_the_calendar(r: RotaView, today: Seq<char>)
    requires
        calendar::sorted(r.sessions),
    ensures
        r.past(today) == r.sessions.take(r.past(today).len() as int),
        r.upcoming(today) == r.sessions.skip(r.past(today).len() as int),
        r.past(today).len() + r.upcoming(today).len() == r.sessions.len(),
{
    let at = lemma_split(r.sessions, today);
}

/// The substitute goes to the back, and all others keep their order.
pub proof fn covering_sends_to_the_back(r: RotaView, slot: int, seat: int, today: Seq<char>)
    requires
        r.distinct_members(),
        0 <= seat < r.members.len(),
    ensures
        r.covered(slot, seat, today).members == r.members.filter(
            |m: MemberView| m.id != r.members[seat].id,
        ).push(r.members[seat]),
{
    crate::rota_laws::lemma_filter_others(r.members, seat);
}

/// The covered session goes to the substitute. A session on or before that date, a past one and
/// a skipped one keep whoever is on tea, or nobody.
pub proof fn covering_reaches_only_later_sessions(
    r: RotaView,
    slot: int,
    seat: int,
    today: Seq<char>,
    i: int,
)
    requires
        0 <= slot < r.sessions.len(),
        0 <= seat < r.members.len(),
        0 <= i < r.sessions.len(),
    ensures
        r.covered(slot, seat, today).sessions[slot].assignee == Some(r.members[seat]),
        i != slot && !text::text_before(r.sessions[slot].date, r.sessions[i].date) ==> r.covered(
            slot,
            seat,
            today,
        ).sessions[i] == r.sessions[i],
        i != slot && text::text_before(r.sessions[i].date, today) ==> r.covered(
            slot,
            seat,
            today,
        ).sessions[i] == r.sessions[i],
        i != slot && r.sessions[i].assignee is None ==> r.covered(slot, seat, today).sessions[i]
            == r.sessions[i],
        r.covered(slot, seat, today).sessions[i].date == r.sessions[i].date,
        r.covered(slot, seat, today).sessions[i].note == r.sessions[i].note,
{
}

/// How many of the first `k` sessions that are handed out anew go to the person at place `j` of
/// the new order.
pub open spec fn share(
    r: RotaView,
    slot: int,
    seat: int,
    today: Seq<char>,
    j: int,
    k: int,
) -> int
    decreases k,
{
    if k <= 0 {
        0
    } else {
        let given = model::is_due(r.sessions[k - 1], r.sessions[slot].date, today) && r.covered(
            slot,
            seat,
            today,
        ).sessions[k - 1].assignee == Some(r.sent_to_back(seat)[j]);
        share(r, slot, seat, today, j, k - 1) + if given {
            1int
        } else {
            0
        }
    }
}

proof fn lemma_share(r: RotaView, slot: int, seat: int, today: Seq<char>, j: int, k: int)
    requires
        r.distinct_members(),
        0 <= slot < r.sessions.len(),
        0 <= seat < r.members.len(),
        0 <= j < r.members.len(),
        0 <= k <= r.sessions.len(),
    ensures
        ({
            let n = r.members.len() as int;
            let t = model::turns(r.sessions.take(k), r.sessions[slot].date, today) as int;
            share(r, slot, seat, today, j, k) == (t + n - 1 - j) / n
        }),
    decreases k,
{
    let n = r.members.len() as int;
    let date = r.sessions[slot].date;
    let due = |e: SessionView| model::is_due(e, date, today);
    if k == 0 {
        assert(r.sessions.take(0) == Seq::<SessionView>::empty());
        reveal(Seq::filter);
        assert(model::turns(r.sessions.take(0), date, today) == 0);
        assert((n - 1 - j) / n == 0) by (nonlinear_arith)
            requires
                0 <= j < n,
        ;
    } else {
        lemma_share(r, slot, seat, today, j, k - 1);
        let s = r.sessions[k - 1];
        let t = model::turns(r.sessions.take(k - 1), date, today) as int;
        assert(r.sessions.take(k) == r.sessions.take(k - 1).push(s));
        r.sessions.take(k - 1).lemma_filter_push(s, due);
        text::text_before_is_irreflexive(date);
        if due(s) {
            let order = r.sent_to_back(seat);
            assert(order.len() == n);
            let p = t % n;
            assert(0 <= p < n) by (nonlinear_arith)
                requires
                    p == t % n,
                    n > 0,
            ;
            assert(r.covered(slot, seat, today).sessions[k - 1].assignee == Some(order[p]));
            assert(order[p] == order[j] <==> p == j) by {
                let place = |k: int|
                    if k == n - 1 {
                        seat
                    } else if k < seat {
                        k
                    } else {
                        k + 1
                    };
                assert(order[p] == r.members[place(p)]);
                assert(order[j] == r.members[place(j)]);
                if place(p) < place(j) {
                    assert(r.members[place(p)].id != r.members[place(j)].id);
                } else if place(j) < place(p) {
                    assert(r.members[place(j)].id != r.members[place(p)].id);
                }
            }
            assert((t + 1 + n - 1 - j) / n == (t + n - 1 - j) / n + (if p == j {
                1int
            } else {
                0
            })) by (nonlinear_arith)
                requires
                    p == t % n,
                    n > 0,
                    0 <= j < n,
                    t >= 0,
            ;
        }
    }
}

/// The sessions that are handed out anew are spread evenly: of any two people of the rotation,
/// one gets at most one session more than the other.
pub proof fn covering_spreads_evenly(
    r: RotaView,
    slot: int,
    seat: int,
    today: Seq<char>,
    i: int,
    j: int,
)
    requires
        r.distinct_members(),
        0 <= slot < r.sessions.len(),
        0 <= i < r.members.len(),
        0 <= j < r.members.len(),
        0 <= seat < r.members.len(),
    ensures
        ({
            let all = r.sessions.len() as int;
            let mine = share(r, slot, seat, today, i, all);
            let yours = share(r, slot, seat, today, j, all);
            -1 <= mine - yours <= 1
        }),
{
    let n = r.members.len() as int;
    let all = r.sessions.len() as int;
    lemma_share(r, slot, seat, today, i, all);
    lemma_share(r, slot, seat, today, j, all);
    let t = model::turns(r.sessions.take(all), r.sessions[slot].date, today) as int;
    let a = (t + n - 1 - i) / n;
    let b = (t + n - 1 - j) / n;
    assert(-1 <= a - b <= 1) by (nonlinear_arith)
        requires
            a == (t + n - 1 - i) / n,
            b == (t + n - 1 - j) / n,
            n > 0,
            0 <= i < n,
            0 <= j < n,
            t >= 0,
    ;
}

/// Nobody gets fewer of the sessions that are handed out anew than anybody behind them in the new
/// order.
pub proof fn shares_never_rise_along_the_order(
    r: RotaView,
    slot: int,
    seat: int,
    today: Seq<char>,
    i: int,
    j: int,
)
    requires
        r.distinct_members(),
        0 <= slot < r.sessions.len(),
        0 <= seat < r.members.len(),
        0 <= i <= j < r.members.len(),
    ensures
        ({
            let all = r.sessions.len() as int;
            share(r, slot, seat, today, j, all) <= share(r, slot, seat, today, i, all)
        }),
{
    let n = r.members.len() as int;
    let all = r.sessions.len() as int;
    lemma_share(r, slot, seat, today, i, all);
    lemma_share(r, slot, seat, today, j, all);
    let t = model::turns(r.sessions.take(all), r.sessions[slot].date, today) as int;
    vstd::arithmetic::div_mod::lemma_div_is_ordered(t + n - 1 - j, t + n - 1 - i, n);
}

/// Whoever is up next after a session has been covered is there, and nobody has got fewer of the
/// sessions that were handed out anew: so the next booking is fair too.
pub proof fn covering_goes_on_with_a_least_share(
    r: RotaView,
    slot: int,
    seat: int,
    today: Seq<char>,
    j: int,
)
    requires
        r.distinct_members(),
        0 <= slot < r.sessions.len(),
        0 <= seat < r.members.len(),
        0 <= j < r.members.len(),
    ensures
        ({
            let all = r.sessions.len() as int;
            let covered = r.covered(slot, seat, today);
            &&& covered.up_next() == Some(r.sent_to_back(seat)[covered.current])
            &&& share(r, slot, seat, today, covered.current, all) <= share(
                r,
                slot,
                seat,
                today,
                j,
                all,
            )
        }),
{
    let n = r.members.len() as int;
    let all = r.sessions.len() as int;
    let t = model::turns(r.sessions, r.sessions[slot].date, today) as int;
    assert(r.sessions.take(all) == r.sessions);
    assert(r.sent_to_back(seat).len() == n);
    let c = t % n;
    vstd::arithmetic::div_mod::lemma_mod_bound(t, n);
    assert(r.covered(slot, seat, today).current == c);
    lemma_share(r, slot, seat, today, c, all);
    lemma_share(r, slot, seat, today, j, all);
    assert((t + n - 1 - c) / n <= (t + n - 1 - j) / n) by (nonlinear_arith)
        requires
            c == t % n,
            n > 0,
            0 <= j < n,
            t >= 0,
    ;
}

/// Exchanging two people twice puts everybody back into their place, and every session back into
/// the hands it was in.
pub proof fn swapping_twice_undoes_swapping(r: RotaView, i: int, j: int, today: Seq<char>, k: int)
    requires
        r.distinct_members(),
        0 <= i < r.members.len(),
        0 <= j < r.members.len(),
        0 <= k < r.sessions.len(),
    ensures
        r.swapped(i, j, today).swapped(i, j, today).members == r.members,
        ({
            let s = r.swapped(i, j, today).swapped(i, j, today).sessions[k];
            &&& s.date == r.sessions[k].date
            &&& s.note == r.sessions[k].note
            &&& match (s.assignee, r.sessions[k].assignee) {
                (Some(a), Some(b)) => a.id == b.id,
                (None, None) => true,
                _ => false,
            }
        }),
{
    assert(r.swapped(i, j, today).swapped(i, j, today).members =~= r.members);
    assert(i != j ==> r.members[i].id != r.members[j].id) by {
        if i < j {
            assert(r.members[i].id != r.members[j].id);
        }
        if j < i {
            assert(r.members[j].id != r.members[i].id);
        }
    }
}

/// Exchanging two people reaches nobody else: all others keep their places and their sessions, and
/// so does everybody in the past.
pub proof fn swapping_reaches_only_the_two(
    r: RotaView,
    i: int,
    j: int,
    today: Seq<char>,
    m: int,
    k: int,
)
    requires
        0 <= i < r.members.len(),
        0 <= j < r.members.len(),
        0 <= m < r.members.len(),
        0 <= k < r.sessions.len(),
    ensures
        r.swapped(i, j, today).members[i] == r.members[j],
        r.swapped(i, j, today).members[j] == r.members[i],
        m != i && m != j ==> r.swapped(i, j, today).members[m] == r.members[m],
        text::text_before(r.sessions[k].date, today) ==> r.swapped(i, j, today).sessions[k]
            == r.sessions[k],
        (match r.sessions[k].assignee {
            Some(a) => a.id != r.members[i].id && a.id != r.members[j].id,
            None => true,
        }) ==> r.swapped(i, j, today).sessions[k] == r.sessions[k],
{
}

/// A session is at the first place that has its date, and nowhere if no place has it.
pub proof fn sessions_are_found_by_date(r: RotaView, date: Seq<char>, i: int)
    ensures
        0 <= i < r.sessions.len() && r.sessions[i].date == date && (forall|j: int|
            0 <= j < i ==> (#[trigger] r.sessions[j]).date != date) ==> r.slot(date) == Some(i)
            && r.session_on(date) == Some(r.sessions[i]),
        (forall|j: int| 0 <= j < r.sessions.len() ==> (#[trigger] r.sessions[j]).date != date)
            ==> r.slot(date) is None && r.session_on(date) is None,
        r.slot(date) == Some(i) ==> 0 <= i < r.sessions.len() && r.sessions[i].date == date
            && r.session_on(date) == Some(r.sessions[i]),
        r.calendar_sorted() && 0 <= i < r.sessions.len() && r.sessions[i].date == date ==> r.slot(
            date,
        ) == Some(i),
{
    let on = |s: SessionView| s.date == date;
    model::lemma_first_place(r.sessions, on);
    if 0 <= i < r.sessions.len() && r.sessions[i].date == date {
        if r.calendar_sorted() {
            lemma_slot_is(r, i);
        }
        if forall|j: int| 0 <= j < i ==> (#[trigger] r.sessions[j]).date != date {
            assert forall|j: int| 0 <= j < i implies !on(#[trigger] r.sessions[j]) by {
                assert(r.sessions[j].date != date);
            }
            model::lemma_first_place_is(r.sessions, on, i);
        }
    }
    if forall|j: int| 0 <= j < r.sessions.len() ==> (#[trigger] r.sessions[j]).date != date {
        assert forall|j: int| 0 <= j < r.sessions.len() implies !on(#[trigger] r.sessions[j]) by {
            assert(r.sessions[j].date != date);
        }
        model::lemma_first_place_none(r.sessions, on);
    }
}

pub proof fn lemma_first_is_first_of_filter(s: Seq<SessionView>, p: spec_fn(SessionView) -> bool)
    ensures
        match model::first_place(s, p) {
            Some(i) => s.filter(p).len() > 0 && s.filter(p)[0] == s[i],
            None => s.filter(p).len() == 0,
        },
    decreases s.len(),
{
    model::lemma_first_place(s, p);
    if s.len() == 0 {
        reveal(Seq::filter);
    } else {
        let rest = s.drop_last();
        let x = s.last();
        assert(rest.push(x) == s);
        rest.lemma_filter_push(x, p);
        lemma_first_is_first_of_filter(rest, p);
        model::lemma_first_place(rest, p);
        match model::first_place(rest, p) {
            Some(i) => {
                assert forall|j: int| 0 <= j < i implies !p(#[trigger] s[j]) by {
                    assert(s[j] == rest[j]);
                }
                assert(s[i] == rest[i]);
                model::lemma_first_place_is(s, p, i);
            },
            None => {
                assert forall|j: int| 0 <= j < s.len() - 1 implies !p(#[trigger] s[j]) by {
                    assert(s[j] == rest[j]);
                }
                if p(x) {
                    model::lemma_first_place_is(s, p, s.len() - 1);
                } else {
                    model::lemma_first_place_none(s, p);
                }
            },
        }
    }
}

/// A booked session stands in the calendar, in whatever order the calendar was: on its date it is
/// the only one, and on every other date the same sessions stand in the same order as before.
pub proof fn booking_adds_one_session(
    r: RotaView,
    date: Seq<char>,
    note: Option<Seq<char>>,
    skip: bool,
    other: Seq<char>,
)
    requires
        r.slot(date) is None,
    ensures
        ({
            let assignee = if skip {
                None
            } else if 0 <= r.current < r.members.len() {
                Some(r.members[r.current])
            } else {
                None
            };
            let new = SessionView { date, assignee, note };
            let t = r.booked(date, note, skip);
            &&& t.session_on(date) == Some(new)
            &&& t.sessions.to_multiset() == r.sessions.to_multiset().insert(new)
            &&& calendar::sorted(t.sessions)
            &&& t.sessions.len() == r.sessions.len() + 1
            &&& other != date ==> t.sessions.filter(|e: SessionView| e.date == other)
                == r.sessions.filter(|e: SessionView| e.date == other)
            &&& other != date ==> t.session_on(other) == r.session_on(other)
        }),
{
    broadcast use vstd::seq_lib::group_to_multiset_ensures;

    let assignee = if skip {
        None
    } else {
        r.up_next()
    };
    let new = SessionView { date, assignee, note };
    let all = r.sessions.push(new);
    let t = r.booked(date, note, skip);
    calendar::sorting_is_stable(all, date);
    calendar::sorting_is_stable(all, other);
    vstd::seq_lib::to_multiset_build(r.sessions, new);
    let here = |e: SessionView| e.date == date;
    let there = |e: SessionView| e.date == other;
    r.sessions.lemma_filter_push(new, here);
    r.sessions.lemma_filter_push(new, there);
    lemma_first_is_first_of_filter(r.sessions, here);
    lemma_first_is_first_of_filter(t.sessions, here);
    lemma_first_is_first_of_filter(r.sessions, there);
    lemma_first_is_first_of_filter(t.sessions, there);
}

/// How many of the first `k` sessions come after a date, are not past, and have somebody on tea.
pub open spec fn to_hand_out(
    s: Seq<SessionView>,
    date: Seq<char>,
    today: Seq<char>,
    k: int,
) -> int
    decreases k,
{
    if k <= 0 {
        0
    } else {
        to_hand_out(s, date, today, k - 1) + if text::text_before(date, s[k - 1].date)
            && !text::text_before(s[k - 1].date, today) && s[k - 1].assignee is Some {
            1int
        } else {
            0
        }
    }
}

proof fn lemma_to_hand_out(s: Seq<SessionView>, date: Seq<char>, today: Seq<char>, k: int)
    requires
        0 <= k <= s.len(),
    ensures
        to_hand_out(s, date, today, k) == model::turns(s.take(k), date, today),
    decreases k,
{
    let due = |e: SessionView| model::is_due(e, date, today);
    if k == 0 {
        reveal(Seq::filter);
    } else {
        lemma_to_hand_out(s, date, today, k - 1);
        assert(s.take(k) == s.take(k - 1).push(s[k - 1]));
        s.take(k - 1).lemma_filter_push(s[k - 1], due);
    }
}

/// What covering a session does. It goes to the substitute, who goes to the end of the order. The
/// sessions after it that are not past and have somebody on tea go to the people of the new order
/// in turn, from its front, whatever their notes; all others stay as they are. The marker goes on
/// where that left off.
pub proof fn covering_hands_out_in_turn(
    r: RotaView,
    slot: int,
    seat: int,
    today: Seq<char>,
    k: int,
)
    requires
        0 <= slot < r.sessions.len(),
        0 <= seat < r.members.len(),
        0 <= k < r.sessions.len(),
    ensures
        ({
            let t = r.covered(slot, seat, today);
            let n = r.members.len() as int;
            let order = r.members.remove(seat).push(r.members[seat]);
            let date = r.sessions[slot].date;
            let old = r.sessions[k];
            &&& t.members == order
            &&& t.master == r.master
            &&& t.master_channel == r.master_channel
            &&& t.sessions.len() == r.sessions.len()
            &&& t.sessions[slot].assignee == Some(r.members[seat])
            &&& t.sessions[k].date == old.date
            &&& t.sessions[k].note == old.note
            &&& k != slot ==> t.sessions[k].assignee == if text::text_before(date, old.date)
                && !text::text_before(old.date, today) && old.assignee is Some {
                Some(order[to_hand_out(r.sessions, date, today, k) % n])
            } else {
                old.assignee
            }
            &&& t.current == to_hand_out(r.sessions, date, today, r.sessions.len() as int) % n
            &&& t.up_next() == Some(order[t.current])
        }),
{
    let date = r.sessions[slot].date;
    lemma_to_hand_out(r.sessions, date, today, k);
    lemma_to_hand_out(r.sessions, date, today, r.sessions.len() as int);
    assert(r.sessions.take(r.sessions.len() as int) == r.sessions);
    vstd::arithmetic::div_mod::lemma_mod_bound(
        to_hand_out(r.sessions, date, today, r.sessions.len() as int),
        r.members.len() as int,
    );
}

/// How many of the first `k` sessions that were handed out anew have gone to a person, going by the
/// calendar before and after.
pub open spec fn dealt_to(
    before: Seq<SessionView>,
    after: Seq<SessionView>,
    date: Seq<char>,
    today: Seq<char>,
    m: MemberView,
    k: int,
) -> int
    decreases k,
{
    if k <= 0 {
        0
    } else {
        dealt_to(before, after, date, today, m, k - 1) + if text::text_before(
            date,
            before[k - 1].date,
        ) && !text::text_before(before[k - 1].date, today) && before[k - 1].assignee is Some
            && after[k - 1].assignee == Some(m) {
            1int
        } else {
            0
        }
    }
}

proof fn lemma_dealt_to(r: RotaView, slot: int, seat: int, today: Seq<char>, j: int, k: int)
    requires
        0 <= slot < r.sessions.len(),
        0 <= k <= r.sessions.len(),
    ensures
        dealt_to(
            r.sessions,
            r.covered(slot, seat, today).sessions,
            r.sessions[slot].date,
            today,
            r.sent_to_back(seat)[j],
            k,
        ) == share(r, slot, seat, today, j, k),
    decreases k,
{
    if k > 0 {
        lemma_dealt_to(r, slot, seat, today, j, k - 1);
    }
}

/// Covering is fair: of the sessions that are handed out anew nobody gets two more than anybody
/// else, and nobody has got fewer than the person who is up next.
pub proof fn covering_is_fair(
    r: RotaView,
    slot: int,
    seat: int,
    today: Seq<char>,
    i: int,
    j: int,
)
    requires
        r.distinct_members(),
        0 <= slot < r.sessions.len(),
        0 <= seat < r.members.len(),
        0 <= i < r.members.len(),
        0 <= j < r.members.len(),
    ensures
        ({
            let t = r.covered(slot, seat, today);
            let date = r.sessions[slot].date;
            let all = r.sessions.len() as int;
            let of_i = dealt_to(r.sessions, t.sessions, date, today, t.members[i], all);
            let of_j = dealt_to(r.sessions, t.sessions, date, today, t.members[j], all);
            &&& -1 <= of_i - of_j <= 1
            &&& t.up_next() matches Some(next) && dealt_to(
                r.sessions,
                t.sessions,
                date,
                today,
                next,
                all,
            ) <= of_j
        }),
{
    let all = r.sessions.len() as int;
    covering_spreads_evenly(r, slot, seat, today, i, j);
    covering_goes_on_with_a_least_share(r, slot, seat, today, j);
    lemma_dealt_to(r, slot, seat, today, i, all);
    lemma_dealt_to(r, slot, seat, today, j, all);
    lemma_dealt_to(r, slot, seat, today, r.covered(slot, seat, today).current, all);
}

/// What exchanging two people does: each takes the place of the other in the order. From `today`
/// on each takes over the sessions of the other, whatever the notes; dates and notes stay, and so
/// do the marker and all other sessions.
pub proof fn swapping_swaps(r: RotaView, i: int, j: int, today: Seq<char>, m: int, k: int)
    requires
        0 <= i < r.members.len(),
        0 <= j < r.members.len(),
        0 <= m < r.members.len(),
        0 <= k < r.sessions.len(),
    ensures
        ({
            let t = r.swapped(i, j, today);
            let a = r.members[i];
            let b = r.members[j];
            let old = r.sessions[k];
            &&& t.members.len() == r.members.len()
            &&& t.members[m] == if m == j {
                a
            } else if m == i {
                b
            } else {
                r.members[m]
            }
            &&& t.current == r.current
            &&& t.master == r.master
            &&& t.master_channel == r.master_channel
            &&& t.sessions.len() == r.sessions.len()
            &&& t.sessions[k].date == old.date
            &&& t.sessions[k].note == old.note
            &&& t.sessions[k].assignee == if !text::text_before(old.date, today)
                && old.assignee is Some && old.assignee->0.id == a.id {
                Some(b)
            } else if !text::text_before(old.date, today) && old.assignee is Some
                && old.assignee->0.id == b.id {
                Some(a)
            } else {
                old.assignee
            }
        }),
{
}

} // verus!
