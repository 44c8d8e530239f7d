//! The mathematical model of a rota: who is in it, whose turn it is, and which sessions are booked.
//!
//! Every operation of [`crate::rota::Rota`] is stated as a function from one [`RotaView`] to the
//! next.

use vstd::prelude::*;

use crate::text;

verus! {

/// A person in the rotation.
pub struct MemberView {
    pub id: u64,
    pub name: Seq<char>,
}

impl MemberView {
    /// A mention of the person.
    pub open spec fn mention(self) -> Seq<char> {
        "<@"@ + text::decimal(self.id as nat) + ">"@
    }
}

/// A session on a date, and who brings the tea to it. Without an assignee it is skipped.
pub struct SessionView {
    pub date: Seq<char>,
    pub assignee: Option<MemberView>,
    pub note: Option<Seq<char>>,
}

/// A rotation and its calendar.
#[verifier::ext_equal]
pub struct RotaView {
    /// The people, in the order of their turns.
    pub members: Seq<MemberView>,
    /// The place in `members` of the person who is up next.
    pub current: int,
    /// The calendar.
    pub sessions: Seq<SessionView>,
    /// The butler's master, once there is one.
    pub master: Option<MemberView>,
    /// The channel in which the master was named.
    pub master_channel: Option<u64>,
}

/// The first place in a sequence at which a predicate holds.
pub open spec fn first_place<A>(s: Seq<A>, p: spec_fn(A) -> bool) -> Option<int>
    decreases s.len(),
{
    if s.len() == 0 {
        None
    } else if p(s[0]) {
        Some(0)
    } else {
        match first_place(s.drop_first(), p) {
            Some(i) => Some(i + 1),
            None => None,
        }
    }
}

/// A place is the first one as soon as the predicate holds there and at no place before.
pub proof fn lemma_first_place_is<A>(s: Seq<A>, p: spec_fn(A) -> bool, i: int)
    requires
        0 <= i < s.len(),
        p(s[i]),
        forall|j: int| 0 <= j < i ==> !p(#[trigger] s[j]),
    ensures
        first_place(s, p) == Some(i),
    decreases s.len(),
{
    if i > 0 {
        let rest = s.drop_first();
        assert forall|j: int| 0 <= j < i - 1 implies !p(#[trigger] rest[j]) by {
            assert(rest[j] == s[j + 1]);
        }
        lemma_first_place_is(rest, p, i - 1);
    }
}

/// Where the predicate never holds there is no first place.
pub proof fn lemma_first_place_none<A>(s: Seq<A>, p: spec_fn(A) -> bool)
    requires
        forall|j: int| 0 <= j < s.len() ==> !p(#[trigger] s[j]),
    ensures
        first_place(s, p) is None,
    decreases s.len(),
{
    if s.len() > 0 {
        let rest = s.drop_first();
        assert forall|j: int| 0 <= j < rest.len() implies !p(#[trigger] rest[j]) by {
            assert(rest[j] == s[j + 1]);
        }
        lemma_first_place_none(rest, p);
    }
}

/// What the first place tells of the sequence.
pub proof fn lemma_first_place<A>(s: Seq<A>, p: spec_fn(A) -> bool)
    ensures
        match first_place(s, p) {
            Some(i) => 0 <= i < s.len() && p(s[i]) && forall|j: int|
                0 <= j < i ==> !p(#[trigger] s[j]),
            None => forall|j: int| 0 <= j < s.len() ==> !p(#[trigger] s[j]),
        },
    decreases s.len(),
{
    if s.len() > 0 && !p(s[0]) {
        let rest = s.drop_first();
        lemma_first_place(rest, p);
        assert forall|j: int|
            0 <= j < s.len() && (first_place(s, p) matches Some(i) ==> j < i) implies !p(
            #[trigger] s[j],
        ) by {
            if j > 0 {
                assert(s[j] == rest[j - 1]);
            }
        }
    }
}

/// A session put into a calendar: behind every session that is not later than it.
pub open spec fn insert_by_date(s: Seq<SessionView>, x: SessionView) -> Seq<SessionView> {
    match first_place(s, |e: SessionView| text::text_before(x.date, e.date)) {
        Some(i) => s.insert(i, x),
        None => s.push(x),
    }
}

/// A calendar in the order of its dates. Sessions on one date keep their order.
pub open spec fn sort_by_date(s: Seq<SessionView>) -> Seq<SessionView>
    decreases s.len(),
{
    if s.len() == 0 {
        s
    } else {
        insert_by_date(sort_by_date(s.drop_last()), s.last())
    }
}

/// Whether a session is handed out anew when the session on `date` changes hands: it comes after
/// that date, it is not past, and somebody is on tea.
pub open spec fn is_due(s: SessionView, date: Seq<char>, today: Seq<char>) -> bool {
    text::text_before(date, s.date) && !text::text_before(s.date, today) && s.assignee is Some
}

/// How many of the given sessions are handed out anew.
pub open spec fn turns(s: Seq<SessionView>, date: Seq<char>, today: Seq<char>) -> nat {
    s.filter(|e: SessionView| is_due(e, date, today)).len()
}

/// The calendar after the session at `covered` went to `substitute`, and those that are due were
/// handed out in the given order, from its front.
pub open spec fn rebalanced(
    s: Seq<SessionView>,
    covered: int,
    substitute: MemberView,
    order: Seq<MemberView>,
    today: Seq<char>,
) -> Seq<SessionView> {
    let date = s[covered].date;
    Seq::new(
        s.len(),
        |k: int|
            if k == covered {
                SessionView { assignee: Some(substitute), ..s[k] }
            } else if is_due(s[k], date, today) {
                SessionView {
                    assignee: Some(order[turns(s.take(k), date, today) as int % order.len() as int]),
                    ..s[k]
                }
            } else {
                s[k]
            },
    )
}

/// A session after two people changed places: on and after `today` each stands in for the other.
pub open spec fn exchanged(
    s: SessionView,
    a: MemberView,
    b: MemberView,
    today: Seq<char>,
) -> SessionView {
    if text::text_before(s.date, today) {
        s
    } else {
        match s.assignee {
            Some(m) => if m.id == a.id {
                SessionView { assignee: Some(b), ..s }
            } else if m.id == b.id {
                SessionView { assignee: Some(a), ..s }
            } else {
                s
            },
            None => s,
        }
    }
}

/// Those of the sessions that are on or after a date.
pub open spec fn upcoming_of(s: Seq<SessionView>, today: Seq<char>) -> Seq<SessionView> {
    s.filter(|e: SessionView| !text::text_before(e.date, today))
}

/// Those of the sessions that are before a date.
pub open spec fn past_of(s: Seq<SessionView>, today: Seq<char>) -> Seq<SessionView> {
    s.filter(|e: SessionView| text::text_before(e.date, today))
}

impl RotaView {
    /// A rota with nobody in it and no session booked.
    pub open spec fn empty() -> Self {
        RotaView {
            members: Seq::empty(),
            current: 0,
            sessions: Seq::empty(),
            master: None,
            master_channel: None,
        }
    }

    /// Nobody is in the rotation twice.
    pub open spec fn distinct_members(self) -> bool {
        forall|i: int, j: int|
            0 <= i < j < self.members.len() ==> self.members[i].id != self.members[j].id
    }

    /// One person is marked as up next, unless nobody is there.
    pub open spec fn marker_valid(self) -> bool {
        if self.members.len() == 0 {
            self.current == 0
        } else {
            0 <= self.current < self.members.len()
        }
    }

    /// The calendar is in the order of its dates, and no date occurs twice.
    pub open spec fn calendar_sorted(self) -> bool {
        forall|i: int, j: int|
            0 <= i < j < self.sessions.len() ==> text::text_before(
                self.sessions[i].date,
                self.sessions[j].date,
            )
    }

    /// What every operation keeps.
    pub open spec fn well_formed(self) -> bool {
        self.distinct_members() && self.marker_valid() && self.calendar_sorted()
    }

    /// The place of a person in the rotation.
    pub open spec fn seat(self, id: u64) -> Option<int> {
        first_place(self.members, |m: MemberView| m.id == id)
    }

    /// The place of the session on a date in the calendar.
    pub open spec fn slot(self, date: Seq<char>) -> Option<int> {
        first_place(self.sessions, |s: SessionView| s.date == date)
    }

    /// The session on a date.
    pub open spec fn session_on(self, date: Seq<char>) -> Option<SessionView> {
        match self.slot(date) {
            Some(i) => Some(self.sessions[i]),
            None => None,
        }
    }

    /// The person who is up next.
    pub open spec fn up_next(self) -> Option<MemberView> {
        if 0 <= self.current < self.members.len() {
            Some(self.members[self.current])
        } else {
            None
        }
    }

    /// The marker brought back into range.
    pub open spec fn normalised(self) -> Self {
        RotaView {
            current: if self.members.len() == 0 {
                0
            } else {
                self.current % self.members.len() as int
            },
            ..self
        }
    }

    /// A person added at the end, unless already there.
    pub open spec fn with_member(self, m: MemberView) -> Self {
        if self.seat(m.id) is Some {
            self
        } else {
            RotaView { members: self.members.push(m), ..self }.normalised()
        }
    }

    /// A person taken out. The marker follows the person that it points at.
    pub open spec fn without_member(self, id: u64) -> Self {
        match self.seat(id) {
            Some(i) => RotaView {
                members: self.members.remove(i),
                current: if i < self.current {
                    self.current - 1
                } else {
                    self.current
                },
                ..self
            }.normalised(),
            None => self,
        }
    }

    /// The marker moved on to the following person, and from the last one to the first.
    pub open spec fn advanced(self) -> Self {
        if self.members.len() == 0 {
            self
        } else {
            RotaView { current: (self.current + 1) % self.members.len() as int, ..self }
        }
    }

    /// The marker moved to a person, if that person is there.
    pub open spec fn pointed_at(self, id: u64) -> Self {
        match self.seat(id) {
            Some(i) => RotaView { current: i, ..self },
            None => self,
        }
    }

    /// Nobody in the rotation any more.
    pub open spec fn cleared(self) -> Self {
        RotaView { members: Seq::empty(), current: 0, ..self }
    }

    /// The master named, unless there is one.
    pub open spec fn with_master(self, m: MemberView, channel: u64) -> Self {
        if self.master is Some {
            self
        } else {
            RotaView { master: Some(m), master_channel: Some(channel), ..self }
        }
    }

    /// A session added to the calendar.
    pub open spec fn with_session(self, s: SessionView) -> Self {
        RotaView { sessions: sort_by_date(self.sessions.push(s)), ..self }
    }

    /// A session booked on a free date. Unless it is skipped, it goes to the person who is up
    /// next, and the marker moves on.
    pub open spec fn booked(self, date: Seq<char>, note: Option<Seq<char>>, skip: bool) -> Self {
        if skip {
            self.with_session(SessionView { date, assignee: None, note })
        } else {
            self.with_session(SessionView { date, assignee: self.up_next(), note }).advanced()
        }
    }

    /// The session on a date without an assignee.
    pub open spec fn with_skipped(self, date: Seq<char>) -> Self {
        match self.slot(date) {
            Some(i) => RotaView {
                sessions: self.sessions.update(
                    i,
                    SessionView { assignee: None, ..self.sessions[i] },
                ),
                ..self
            },
            None => self,
        }
    }

    /// The session on a date taken out of the calendar.
    pub open spec fn without_session(self, date: Seq<char>) -> Self {
        match self.slot(date) {
            Some(i) => RotaView { sessions: self.sessions.remove(i), ..self },
            None => self,
        }
    }

    /// The session at a place moved to another date, with its assignee and note.
    pub open spec fn moved(self, i: int, to: Seq<char>) -> Self {
        RotaView {
            sessions: sort_by_date(
                self.sessions.update(i, SessionView { date: to, ..self.sessions[i] }),
            ),
            ..self
        }
    }

    /// Whether a person is on tea on a date.
    pub open spec fn on_tea(self, date: Seq<char>, id: u64) -> bool {
        match self.slot(date) {
            Some(i) => self.sessions[i].assignee matches Some(m) && m.id == id,
            None => false,
        }
    }

    /// The order of turns after the person at a place went to the back.
    pub open spec fn sent_to_back(self, seat: int) -> Seq<MemberView> {
        self.members.remove(seat).push(self.members[seat])
    }

    /// The session at `slot` covered by the person at `seat`, who goes to the back; the sessions
    /// that are due are handed out anew, and the marker goes on behind the last of them.
    pub open spec fn covered(self, slot: int, seat: int, today: Seq<char>) -> Self {
        let order = self.sent_to_back(seat);
        RotaView {
            members: order,
            current: turns(self.sessions, self.sessions[slot].date, today) as int
                % order.len() as int,
            sessions: rebalanced(self.sessions, slot, self.members[seat], order, today),
            ..self
        }
    }

    /// The people at two places in each other's stead, in the rotation and in the calendar from
    /// `today` on.
    pub open spec fn swapped(self, i: int, j: int, today: Seq<char>) -> Self {
        let a = self.members[i];
        let b = self.members[j];
        RotaView {
            members: self.members.update(i, b).update(j, a),
            sessions: self.sessions.map_values(|s: SessionView| exchanged(s, a, b, today)),
            ..self
        }
    }

    /// The sessions on or after a date.
    pub open spec fn upcoming(self, today: Seq<char>) -> Seq<SessionView> {
        upcoming_of(self.sessions, today)
    }

    /// The sessions before a date.
    pub open spec fn past(self, today: Seq<char>) -> Seq<SessionView> {
        past_of(self.sessions, today)
    }
}

} // verus!
