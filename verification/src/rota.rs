//! The rota itself: members, the marker of whose turn it is, and the calendar of sessions.

use vstd::prelude::*;
use vstd::string::*;

use crate::calendar;
use crate::model;
use crate::model::{MemberView, RotaView, SessionView};
use crate::text;
use crate::upkeep;

verus! {

/// A single person in the rotation.
#[derive(Debug, PartialEq, Eq)]
pub struct Member {
    /// The user id, by which the person is mentioned.
    pub id: u64,
    /// A name for people to read.
    pub name: String,
}

impl View for Member {
    type V = MemberView;

    open spec fn view(&self) -> MemberView {
        MemberView { id: self.id, name: self.name@ }
    }
}

impl Member {
    /// A mention of the person, which notifies them.
    pub fn mention(&self) -> (r: String)
        ensures
            r@ == self@.mention(),
    {
        let mut r = "<@".to_owned();
        r.append(text::to_decimal(self.id).as_str());
        r.append(">");
        r
    }
}

impl Clone for Member {
    fn clone(&self) -> (r: Self)
        ensures
            r@ == self@,
    {
        Member { id: self.id, name: self.name.clone() }
    }
}

/// What stands for an optional member in the model.
pub open spec fn member_view(m: Option<Member>) -> Option<MemberView> {
    match m {
        Some(m) => Some(m@),
        None => None,
    }
}

/// What stands for an optional text in the model.
pub open spec fn text_view(t: Option<String>) -> Option<Seq<char>> {
    match t {
        Some(t) => Some(t@),
        None => None,
    }
}

fn clone_member(m: &Option<Member>) -> (r: Option<Member>)
    ensures
        member_view(r) == member_view(*m),
{
    match m {
        Some(m) => Some(m.clone()),
        None => None,
    }
}

fn clone_text(t: &Option<String>) -> (r: Option<String>)
    ensures
        text_view(r) == text_view(*t),
{
    match t {
        Some(t) => Some(t.clone()),
        None => None,
    }
}

/// A session on a date, with the person who brings the tea. That person is the one who was up
/// next when the session was booked.
#[derive(Debug, PartialEq, Eq)]
pub struct Session {
    /// The date, `YYYY/MM/DD`, which sorts chronologically as plain text.
    pub date: String,
    /// Who brings the tea. `None` means that the session is skipped: nobody is on tea, and no
    /// turn is used.
    pub assignee: Option<Member>,
    /// A free note, such as a chapter or a place.
    pub note: Option<String>,
}

impl View for Session {
    type V = SessionView;

    open spec fn view(&self) -> SessionView {
        SessionView {
            date: self.date@,
            assignee: member_view(self.assignee),
            note: text_view(self.note),
        }
    }
}

impl Clone for Session {
    fn clone(&self) -> (r: Self)
        ensures
            r@ == self@,
    {
        Session {
            date: self.date.clone(),
            assignee: clone_member(&self.assignee),
            note: clone_text(&self.note),
        }
    }
}

impl Session {
    /// Whether nobody is on tea for this session.
    pub fn is_skipped(&self) -> (r: bool)
        ensures
            r == (self@.assignee is None),
    {
        self.assignee.is_none()
    }
}

/// What stands for a list of members in the model.
pub open spec fn members_view(s: Seq<Member>) -> Seq<MemberView> {
    s.map_values(|m: Member| m@)
}

/// What stands for a list of sessions in the model.
pub open spec fn sessions_view(s: Seq<Session>) -> Seq<SessionView> {
    s.map_values(|s: Session| s@)
}

/// What stands for a list of borrowed sessions in the model.
pub open spec fn borrowed_view(s: Seq<&Session>) -> Seq<SessionView> {
    s.map_values(|s: &Session| s@)
}

/// Whom the butler serves, and where he was told so. Nothing but [`Rota::set_master`] names a
/// master.
#[derive(Debug)]
pub struct Service {
    master: Option<Member>,
    channel: Option<u64>,
}

impl Service {
    /// The master, once there is one.
    pub closed spec fn master(self) -> Option<MemberView> {
        member_view(self.master)
    }

    /// The channel in which the master was named.
    pub closed spec fn channel(self) -> Option<u64> {
        self.channel
    }
}

/// A fixed rotation and its calendar.
#[derive(Debug)]
pub struct Rota {
    /// The people in the rotation, in order.
    pub members: Vec<Member>,
    /// The place in `members` of the person who is up next.
    pub current: usize,
    /// The booked sessions, in the order of their dates.
    pub sessions: Vec<Session>,
    /// The one and only master, named once, and the channel in which that was done.
    pub service: Service,
}

impl View for Rota {
    type V = RotaView;

    open spec fn view(&self) -> RotaView {
        RotaView {
            members: members_view(self.members@),
            current: self.current as int,
            sessions: sessions_view(self.sessions@),
            master: self.service.master(),
            master_channel: self.service.channel(),
        }
    }
}

/// Puts sessions in the order of their dates; those on one date keep their order.
fn sort_sessions(v: &mut Vec<Session>)
    ensures
        sessions_view(final(v)@) == model::sort_by_date(sessions_view(old(v)@)),
{
    let ghost before = sessions_view(v@);
    let mut i: usize = 0;
    assert(before.skip(0) == before);
    assert(model::sort_by_date(before.take(0)) + before.skip(0) == before);
    while i < v.len()
        invariant
            i <= v.len(),
            v.len() == before.len(),
            model::sort_by_date(before.take(i as int)).len() == i,
            sessions_view(v@) == model::sort_by_date(before.take(i as int)) + before.skip(i as int),
        decreases v.len() - i,
    {
        let ghost front = model::sort_by_date(before.take(i as int));
        let ghost whole = sessions_view(v@);
        let x = v.remove(i);
        assert(x@ == whole[i as int]);
        assert(x@ == before[i as int]);
        let ghost later = |e: SessionView| text::text_before(x@.date, e.date);
        let mut p: usize = 0;
        while p < i && !text::precedes(x.date.as_str(), v[p].date.as_str())
            invariant
                p <= i,
                i <= v.len(),
                front.len() == i,
                later == |e: SessionView| text::text_before(x@.date, e.date),
                sessions_view(v@) == whole.remove(i as int),
                whole == front + before.skip(i as int),
                i < before.len(),
                forall|j: int| 0 <= j < p ==> !later(#[trigger] front[j]),
            decreases i - p,
        {
            assert(front[p as int] == sessions_view(v@)[p as int]);
            p += 1;
        }
        proof {
            assert(before.take(i + 1).drop_last() == before.take(i as int));
            assert(p < i ==> front[p as int] == sessions_view(v@)[p as int]);
            if p < i {
                model::lemma_first_place_is(front, later, p as int);
            } else {
                model::lemma_first_place_none(front, later);
            }
        }
        let ghost y = x@;
        v.insert(p, x);
        assert(sessions_view(v@) == whole.remove(i as int).insert(p as int, y));
        assert(sessions_view(v@) == front.insert(p as int, y) + before.skip(i + 1));
        assert(front.insert(i as int, y) == front.push(y));
        i += 1;
    }
    assert(before.take(i as int) == before);
}

/// Why booking a session can fail.
#[derive(Debug, PartialEq, Eq)]
pub enum AddSessionError {
    /// Nobody is in the rotation, so there is nobody to assign.
    NoMembers,
    /// There is a session on that date.
    DuplicateDate,
}

/// Why moving a session can fail.
#[derive(Debug, PartialEq, Eq)]
pub enum RescheduleError {
    /// There is no session on the date to move from.
    NotFound,
    /// There is another session on the date to move to.
    DuplicateDate,
}

/// Why handing a session to somebody can fail.
#[derive(Debug, PartialEq, Eq)]
pub enum AssignError {
    /// There is no session on that date.
    SessionNotFound,
    /// The substitute is not in the rotation.
    NotAMember,
}

/// What came of handing a session to somebody.
#[derive(Debug, PartialEq, Eq)]
pub enum AssignOutcome {
    /// The session went from `old` (`None` if it was skipped) to `new`.
    Reassigned { old: Option<Member>, new: Member },
    /// That person was on tea for the session already; nothing changed.
    Unchanged(Member),
}

/// Why exchanging two people can fail.
#[derive(Debug, PartialEq, Eq)]
pub enum SwapError {
    /// The first person is not in the rotation.
    FirstNotAMember,
    /// The second person is not in the rotation.
    SecondNotAMember,
}

impl Default for Rota {
    fn default() -> (r: Self)
        ensures
            r@ == RotaView::empty(),
    {
        let r = Rota {
            members: Vec::new(),
            current: 0,
            sessions: Vec::new(),
            service: Service { master: None, channel: None },
        };
        assert(r@ =~= RotaView::empty());
        r
    }
}

impl Clone for Rota {
    fn clone(&self) -> (r: Self)
        ensures
            r@ == self@,
    {
        let r = Rota {
            members: self.members.clone(),
            current: self.current,
            sessions: self.sessions.clone(),
            service: Service {
                master: clone_member(&self.service.master),
                channel: self.service.channel,
            },
        };
        assert(r@.members =~= self@.members);
        assert(r@.sessions =~= self@.sessions);
        r
    }
}

impl Rota {
    /// A rota made of what has been kept of one.
    pub fn from_parts(
        members: Vec<Member>,
        current: usize,
        sessions: Vec<Session>,
        master: Option<Member>,
        master_channel: Option<u64>,
    ) -> (r: Self)
        ensures
            r@ == (RotaView {
                members: members_view(members@),
                current: current as int,
                sessions: sessions_view(sessions@),
                master: member_view(master),
                master_channel,
            }),
    {
        Rota {
            members,
            current,
            sessions,
            service: Service { master, channel: master_channel },
        }
    }

    /// The person who is up next, unless nobody is there.
    pub fn current_member(&self) -> (r: Option<&Member>)
        ensures
            match r {
                Some(m) => self@.up_next() == Some(m@),
                None => self@.up_next() is None,
            },
    {
        if self.current < self.members.len() {
            Some(&self.members[self.current])
        } else {
            None
        }
    }

    /// Brings the marker back into range.
    fn normalise(&mut self)
        ensures
            final(self)@ == old(self)@.normalised(),
    {
        if self.members.len() == 0 {
            self.current = 0;
        } else {
            self.current = self.current % self.members.len();
        }
    }

    /// The place of a person.
    fn seat_of(&self, id: u64) -> (r: Option<usize>)
        ensures
            match r {
                Some(i) => self@.seat(id) == Some(i as int) && i < self.members.len(),
                None => self@.seat(id) is None,
            },
    {
        let ghost is_them = |m: MemberView| m.id == id;
        let mut i: usize = 0;
        while i < self.members.len()
            invariant
                i <= self.members.len(),
                is_them == |m: MemberView| m.id == id,
                forall|j: int| 0 <= j < i ==> !is_them(#[trigger] self@.members[j]),
            decreases self.members.len() - i,
        {
            if self.members[i].id == id {
                proof {
                    model::lemma_first_place_is(self@.members, is_them, i as int);
                }
                return Some(i);
            }
            i += 1;
        }
        proof {
            model::lemma_first_place_none(self@.members, is_them);
        }
        None
    }

    /// The place of the session on a date.
    pub(crate) fn slot_of(&self, date: &str) -> (r: Option<usize>)
        ensures
            match r {
                Some(i) => self@.slot(date@) == Some(i as int) && i < self.sessions.len()
                    && self@.sessions[i as int].date == date@,
                None => self@.slot(date@) is None,
            },
    {
        let ghost on = |s: SessionView| s.date == date@;
        let mut i: usize = 0;
        while i < self.sessions.len()
            invariant
                i <= self.sessions.len(),
                on == |s: SessionView| s.date == date@,
                forall|j: int| 0 <= j < i ==> !on(#[trigger] self@.sessions[j]),
            decreases self.sessions.len() - i,
        {
            if text::same(self.sessions[i].date.as_str(), date) {
                proof {
                    model::lemma_first_place_is(self@.sessions, on, i as int);
                }
                return Some(i);
            }
            i += 1;
        }
        proof {
            model::lemma_first_place_none(self@.sessions, on);
        }
        None
    }

    /// Adds a person at the end of the rotation, unless they are in it.
    pub fn add(&mut self, member: Member) -> (r: bool)
        ensures
            r == (old(self)@.seat(member.id) is None),
            final(self)@ == old(self)@.with_member(member@),
            old(self)@.well_formed() ==> final(self)@.well_formed(),
    {
        proof {
            if self@.well_formed() {
                upkeep::with_member_keeps(self@, member@);
            }
        }
        if self.seat_of(member.id).is_some() {
            return false;
        }
        self.members.push(member);
        assert(self@.members == old(self)@.members.push(member@));
        self.normalise();
        true
    }

    /// Takes a person out of the rotation. Whoever is up next stays so, unless it is them.
    pub fn remove(&mut self, id: u64) -> (r: Option<Member>)
        ensures
            match r {
                Some(m) => old(self)@.seat(id) is Some && m@ == old(
                    self,
                )@.members[old(self)@.seat(id)->0],
                None => old(self)@.seat(id) is None,
            },
            final(self)@ == old(self)@.without_member(id),
            old(self)@.well_formed() ==> final(self)@.well_formed(),
    {
        proof {
            if self@.well_formed() {
                upkeep::without_member_keeps(self@, id);
            }
        }
        match self.seat_of(id) {
            None => None,
            Some(pos) => {
                let removed = self.members.remove(pos);
                assert(self@.members == old(self)@.members.remove(pos as int));
                if pos < self.current {
                    self.current = self.current - 1;
                }
                self.normalise();
                Some(removed)
            },
        }
    }

    /// Moves the marker on to the following person, and returns them.
    pub fn advance(&mut self) -> (r: Option<&Member>)
        requires
            old(self)@.members.len() > 0 ==> old(self)@.current < usize::MAX,
        ensures
            match r {
                Some(m) => old(self)@.members.len() > 0 && final(self)@.up_next() == Some(m@),
                None => old(self)@.members.len() == 0,
            },
            final(self)@ == old(self)@.advanced(),
            old(self)@.well_formed() ==> final(self)@.well_formed(),
    {
        if self.members.len() == 0 {
            return None;
        }
        self.current = (self.current + 1) % self.members.len();
        Some(&self.members[self.current])
    }

    /// Moves the marker to a person, if they are in the rotation.
    pub fn set_current(&mut self, id: u64) -> (r: bool)
        ensures
            r == (old(self)@.seat(id) is Some),
            final(self)@ == old(self)@.pointed_at(id),
            old(self)@.well_formed() ==> final(self)@.well_formed(),
    {
        match self.seat_of(id) {
            Some(pos) => {
                self.current = pos;
                true
            },
            None => false,
        }
    }

    /// Takes everybody out of the rotation. The calendar stays.
    pub fn clear(&mut self)
        ensures
            final(self)@ == old(self)@.cleared(),
            old(self)@.well_formed() ==> final(self)@.well_formed(),
    {
        self.members.clear();
        self.current = 0;
        assert(self@.members =~= Seq::empty());
    }

    /// The master, once one has been named.
    pub fn master(&self) -> (r: Option<&Member>)
        ensures
            match r {
                Some(m) => self@.master == Some(m@),
                None => self@.master is None,
            },
    {
        self.service.master.as_ref()
    }

    /// The channel in which the master was named.
    pub fn master_channel(&self) -> (r: Option<u64>)
        ensures
            r == self@.master_channel,
    {
        self.service.channel
    }

    /// Names the master. This happens once: if there is a master, that one is returned as the
    /// error, and nothing changes.
    pub fn set_master(&mut self, member: Member, channel_id: u64) -> (r: Result<(), Member>)
        ensures
            match r {
                Ok(()) => old(self)@.master is None,
                Err(m) => old(self)@.master == Some(m@),
            },
            final(self)@ == old(self)@.with_master(member@, channel_id),
            old(self)@.well_formed() ==> final(self)@.well_formed(),
    {
        if let Some(existing) = &self.service.master {
            return Err(existing.clone());
        }
        self.service = Service { master: Some(member), channel: Some(channel_id) };
        Ok(())
    }

    /// Books a session on a date. Unless `skip` is set, it goes to the person who is up next, and
    /// the marker moves on. A skipped session has nobody on tea and uses no turn.
    pub fn add_session(&mut self, date: String, note: Option<String>, skip: bool) -> (r: Result<
        Option<Member>,
        AddSessionError,
    >)
        requires
            !skip && old(self)@.slot(date@) is None && old(self)@.members.len() > 0 ==> old(
                self,
            )@.current < old(self)@.members.len(),
        ensures
            match r {
                Ok(assignee) => {
                    &&& old(self)@.slot(date@) is None
                    &&& skip || old(self)@.members.len() > 0
                    &&& member_view(assignee) == if skip {
                        None
                    } else {
                        old(self)@.up_next()
                    }
                    &&& final(self)@ == old(self)@.booked(date@, text_view(note), skip)
                },
                Err(AddSessionError::DuplicateDate) => {
                    &&& old(self)@.slot(date@) is Some
                    &&& final(self)@ == old(self)@
                },
                Err(AddSessionError::NoMembers) => {
                    &&& old(self)@.slot(date@) is None
                    &&& !skip && old(self)@.members.len() == 0
                    &&& final(self)@ == old(self)@
                },
            },
            old(self)@.well_formed() ==> final(self)@.well_formed(),
    {
        if self.slot_of(date.as_str()).is_some() {
            return Err(AddSessionError::DuplicateDate);
        }
        proof {
            if self@.well_formed() {
                upkeep::booked_keeps(self@, date@, text_view(note), skip);
            }
        }
        if skip {
            let session = Session { date, assignee: None, note };
            let ghost s = session@;
            self.sessions.push(session);
            assert(self@.sessions == old(self)@.sessions.push(s));
            sort_sessions(&mut self.sessions);
            return Ok(None);
        }
        if self.members.len() == 0 {
            return Err(AddSessionError::NoMembers);
        }
        let assignee = self.members[self.current].clone();
        let session = Session { date, assignee: Some(assignee.clone()), note };
        let ghost s = session@;
        self.sessions.push(session);
        assert(self@.sessions == old(self)@.sessions.push(s));
        sort_sessions(&mut self.sessions);
        self.advance();
        Ok(Some(assignee))
    }

    /// Takes whoever is on tea off the session on a date. The rotation is not changed.
    pub fn skip_session(&mut self, date: &str) -> (r: bool)
        ensures
            r == (old(self)@.slot(date@) is Some),
            final(self)@ == old(self)@.with_skipped(date@),
            old(self)@.well_formed() ==> final(self)@.well_formed(),
    {
        proof {
            if self@.well_formed() {
                upkeep::with_skipped_keeps(self@, date@);
            }
        }
        match self.slot_of(date) {
            Some(i) => {
                self.sessions[i].assignee = None;
                assert(self@.sessions == old(self)@.sessions.update(
                    i as int,
                    SessionView { assignee: None, ..old(self)@.sessions[i as int] },
                ));
                true
            },
            None => false,
        }
    }

    /// Takes the session on a date out of the calendar.
    pub fn remove_session(&mut self, date: &str) -> (r: Option<Session>)
        ensures
            match r {
                Some(s) => old(self)@.session_on(date@) == Some(s@),
                None => old(self)@.session_on(date@) is None,
            },
            final(self)@ == old(self)@.without_session(date@),
            old(self)@.well_formed() ==> final(self)@.well_formed(),
    {
        proof {
            if self@.well_formed() {
                upkeep::without_session_keeps(self@, date@);
            }
        }
        match self.slot_of(date) {
            None => None,
            Some(pos) => {
                let removed = self.sessions.remove(pos);
                assert(self@.sessions == old(self)@.sessions.remove(pos as int));
                Some(removed)
            },
        }
    }

    /// Moves the session on `from` to the date `to`, with its assignee and note, and returns it.
    pub fn reschedule_session(&mut self, from: &str, to: String) -> (r: Result<
        Session,
        RescheduleError,
    >)
        ensures
            match r {
                Ok(s) => {
                    &&& old(self)@.slot(from@) is Some
                    &&& from@ == to@ || old(self)@.slot(to@) is None
                    &&& final(self)@ == old(self)@.moved(old(self)@.slot(from@)->0, to@)
                    &&& final(self)@.session_on(to@) == Some(s@)
                },
                Err(RescheduleError::NotFound) => {
                    &&& old(self)@.slot(from@) is None
                    &&& final(self)@ == old(self)@
                },
                Err(RescheduleError::DuplicateDate) => {
                    &&& old(self)@.slot(from@) is Some
                    &&& from@ != to@ && old(self)@.slot(to@) is Some
                    &&& final(self)@ == old(self)@
                },
            },
            old(self)@.well_formed() ==> final(self)@.well_formed(),
    {
        match self.slot_of(from) {
            None => Err(RescheduleError::NotFound),
            Some(pos) => {
                if !text::same(self.sessions[pos].date.as_str(), to.as_str()) && self.slot_of(
                    to.as_str(),
                ).is_some() {
                    return Err(RescheduleError::DuplicateDate);
                }
                proof {
                    if self@.well_formed() {
                        upkeep::moved_keeps(self@, pos as int, to@);
                    }
                }
                let ghost all = self@.sessions.update(
                    pos as int,
                    SessionView { date: to@, ..self@.sessions[pos as int] },
                );
                self.sessions[pos].date = to.clone();
                assert(self@.sessions == all);
                sort_sessions(&mut self.sessions);
                proof {
                    calendar::sorting_keeps(all, pos as int);
                    model::lemma_first_place(self@.sessions, |s: SessionView| s.date == to@);
                }
                match self.slot_of(to.as_str()) {
                    Some(i) => Ok(self.sessions[i].clone()),
                    None => Err(RescheduleError::NotFound),
                }
            },
        }
    }

    /// Hands the session on `date` to a person of the rotation, and shares out the sessions behind
    /// it anew.
    ///
    /// The substitute has just taken a turn, so they go to the back of the rotation. The sessions
    /// after `date` that are not past (`today` or later) then go round in the new order, from its
    /// front. Those without anybody on tea stay so and use no turn. All others, those on or before
    /// `date` and those before `today`, keep whoever is on tea.
    pub fn assign_session(&mut self, date: &str, member_id: u64, today: &str) -> (r: Result<
        AssignOutcome,
        AssignError,
    >)
        ensures
            match r {
                Ok(AssignOutcome::Unchanged(m)) => {
                    &&& old(self)@.seat(member_id) is Some
                    &&& old(self)@.on_tea(date@, member_id)
                    &&& m@ == old(self)@.members[old(self)@.seat(member_id)->0]
                    &&& final(self)@ == old(self)@
                },
                Ok(AssignOutcome::Reassigned { old: before, new }) => {
                    let slot = old(self)@.slot(date@)->0;
                    let seat = old(self)@.seat(member_id)->0;
                    &&& old(self)@.slot(date@) is Some
                    &&& old(self)@.seat(member_id) is Some
                    &&& !old(self)@.on_tea(date@, member_id)
                    &&& member_view(before) == old(self)@.sessions[slot].assignee
                    &&& new@ == old(self)@.members[seat]
                    &&& final(self)@ == old(self)@.covered(slot, seat, today@)
                },
                Err(AssignError::SessionNotFound) => {
                    &&& old(self)@.slot(date@) is None
                    &&& final(self)@ == old(self)@
                },
                Err(AssignError::NotAMember) => {
                    &&& old(self)@.slot(date@) is Some
                    &&& old(self)@.seat(member_id) is None
                    &&& final(self)@ == old(self)@
                },
            },
            old(self)@.well_formed() ==> final(self)@.well_formed(),
    {
        let s_pos = match self.slot_of(date) {
            None => {
                return Err(AssignError::SessionNotFound);
            },
            Some(i) => i,
        };
        let m_pos = match self.seat_of(member_id) {
            None => {
                return Err(AssignError::NotAMember);
            },
            Some(i) => i,
        };
        let ghost sessions = self@.sessions;
        let ghost members = self@.members;
        let already = match &self.sessions[s_pos].assignee {
            Some(a) => a.id == member_id,
            None => false,
        };
        if already {
            return Ok(AssignOutcome::Unchanged(self.members[m_pos].clone()));
        }
        proof {
            if self@.well_formed() {
                upkeep::covered_keeps(self@, s_pos as int, m_pos as int, today@);
            }
        }
        let before = clone_member(&self.sessions[s_pos].assignee);
        let new = self.members[m_pos].clone();
        self.sessions[s_pos].assignee = Some(new.clone());
        let substitute = self.members.remove(m_pos);
        self.members.push(substitute);
        let ghost order = members.remove(m_pos as int).push(members[m_pos as int]);
        assert(self@.members == order);
        let ghost wanted = model::rebalanced(sessions, s_pos as int, new@, order, today@);
        let ghost due = |e: SessionView| model::is_due(e, date@, today@);
        let mut turn: usize = 0;
        let mut k: usize = 0;
        assert(model::turns(sessions.take(0), date@, today@) == 0) by {
            reveal(Seq::filter);
        }
        while k < self.sessions.len()
            invariant
                k <= self.sessions.len(),
                turn <= k,
                s_pos < sessions.len(),
                self@.members == order,
                order.len() > 0,
                self@.sessions.len() == sessions.len(),
                wanted == model::rebalanced(sessions, s_pos as int, new@, order, today@),
                sessions[s_pos as int].date == date@,
                due == |e: SessionView| model::is_due(e, date@, today@),
                turn == model::turns(sessions.take(k as int), date@, today@),
                self.service == old(self).service,
                forall|j: int| 0 <= j < k ==> #[trigger] self@.sessions[j] == wanted[j],
                forall|j: int|
                    k <= j < sessions.len() && j != s_pos ==> #[trigger] self@.sessions[j]
                        == sessions[j],
                self@.sessions[s_pos as int] == wanted[s_pos as int],
            decreases self.sessions.len() - k,
        {
            proof {
                text::text_before_is_irreflexive(date@);
                assert(sessions.take(k + 1) == sessions.take(k as int).push(sessions[k as int]));
                sessions.take(k as int).lemma_filter_push(sessions[k as int], due);
            }
            assert(self@.sessions[k as int].date == sessions[k as int].date);
            if text::precedes(date, self.sessions[k].date.as_str()) && !text::precedes(
                self.sessions[k].date.as_str(),
                today,
            ) && !self.sessions[k].is_skipped() {
                assert(due(sessions[k as int]));
                let ghost list = self@.sessions;
                let next = self.members[turn % self.members.len()].clone();
                self.sessions[k].assignee = Some(next);
                assert(self@.sessions == list.update(
                    k as int,
                    SessionView { assignee: Some(next@), ..list[k as int] },
                ));
                turn += 1;
            } else {
                assert(!due(sessions[k as int]));
            }
            k += 1;
        }
        assert(sessions.take(k as int) == sessions);
        assert(self@.sessions == wanted);
        self.current = turn % self.members.len();
        Ok(AssignOutcome::Reassigned { old: before, new })
    }

    /// Exchanges two people: each takes the other's place in the rotation, and in the sessions
    /// from `today` on. The marker stays at its place.
    pub fn swap(&mut self, first: u64, second: u64, today: &str) -> (r: Result<(), SwapError>)
        ensures
            match r {
                Ok(()) => {
                    &&& old(self)@.seat(first) is Some
                    &&& old(self)@.seat(second) is Some
                    &&& final(self)@ == old(self)@.swapped(
                        old(self)@.seat(first)->0,
                        old(self)@.seat(second)->0,
                        today@,
                    )
                },
                Err(SwapError::FirstNotAMember) => old(self)@.seat(first) is None && final(self)@
                    == old(self)@,
                Err(SwapError::SecondNotAMember) => old(self)@.seat(first) is Some && old(
                    self,
                )@.seat(second) is None && final(self)@ == old(self)@,
            },
            old(self)@.well_formed() ==> final(self)@.well_formed(),
    {
        let i = match self.seat_of(first) {
            None => {
                return Err(SwapError::FirstNotAMember);
            },
            Some(i) => i,
        };
        let j = match self.seat_of(second) {
            None => {
                return Err(SwapError::SecondNotAMember);
            },
            Some(j) => j,
        };
        proof {
            if self@.well_formed() {
                upkeep::swapped_keeps(self@, i as int, j as int, today@);
            }
        }
        let ghost sessions = self@.sessions;
        let a = self.members[i].clone();
        let b = self.members[j].clone();
        self.members[i] = b.clone();
        self.members[j] = a.clone();
        assert(self@.members == old(self)@.members.update(i as int, b@).update(j as int, a@));
        let mut k: usize = 0;
        while k < self.sessions.len()
            invariant
                k <= self.sessions.len(),
                self@.members == old(self)@.members.update(i as int, b@).update(j as int, a@),
                self.current == old(self).current,
                self.service == old(self).service,
                self@.sessions.len() == sessions.len(),
                forall|n: int|
                    0 <= n < k ==> #[trigger] self@.sessions[n] == model::exchanged(
                        sessions[n],
                        a@,
                        b@,
                        today@,
                    ),
                forall|n: int|
                    k <= n < sessions.len() ==> #[trigger] self@.sessions[n] == sessions[n],
            decreases self.sessions.len() - k,
        {
            let ghost list = self@.sessions;
            assert(list[k as int] == sessions[k as int]);
            if !text::precedes(self.sessions[k].date.as_str(), today) {
                let stand_in = match &self.sessions[k].assignee {
                    Some(m) => if m.id == a.id {
                        Some(b.clone())
                    } else if m.id == b.id {
                        Some(a.clone())
                    } else {
                        None
                    },
                    None => None,
                };
                if stand_in.is_some() {
                    self.sessions[k].assignee = stand_in;
                    assert(self@.sessions == list.update(
                        k as int,
                        SessionView { assignee: member_view(stand_in), ..list[k as int] },
                    ));
                }
            }
            k += 1;
        }
        assert(self@.sessions == sessions.map_values(
            |s: SessionView| model::exchanged(s, a@, b@, today@),
        ));
        Ok(())
    }

    /// The sessions on or after `today`, in the order of the calendar.
    pub fn upcoming(&self, today: &str) -> (r: Vec<&Session>)
        ensures
            borrowed_view(r@) == self@.upcoming(today@),
    {
        let mut r: Vec<&Session> = Vec::new();
        let ghost keep = |e: SessionView| !text::text_before(e.date, today@);
        let mut i: usize = 0;
        assert(borrowed_view(r@) =~= self@.sessions.take(0).filter(keep)) by {
            reveal(Seq::filter);
        }
        while i < self.sessions.len()
            invariant
                i <= self.sessions.len(),
                keep == |e: SessionView| !text::text_before(e.date, today@),
                borrowed_view(r@) == self@.sessions.take(i as int).filter(keep),
            decreases self.sessions.len() - i,
        {
            let ghost before = r@;
            if !text::precedes(self.sessions[i].date.as_str(), today) {
                r.push(&self.sessions[i]);
                assert(borrowed_view(r@) == borrowed_view(before).push(self@.sessions[i as int]));
            }
            proof {
                assert(self@.sessions.take(i + 1) == self@.sessions.take(i as int).push(
                    self@.sessions[i as int],
                ));
                self@.sessions.take(i as int).lemma_filter_push(self@.sessions[i as int], keep);
            }
            i += 1;
        }
        assert(self@.sessions.take(i as int) == self@.sessions);
        r
    }

    /// The sessions before `today`, in the order of the calendar.
    pub fn past(&self, today: &str) -> (r: Vec<&Session>)
        ensures
            borrowed_view(r@) == self@.past(today@),
    {
        let mut r: Vec<&Session> = Vec::new();
        let ghost keep = |e: SessionView| text::text_before(e.date, today@);
        let mut i: usize = 0;
        assert(borrowed_view(r@) =~= self@.sessions.take(0).filter(keep)) by {
            reveal(Seq::filter);
        }
        while i < self.sessions.len()
            invariant
                i <= self.sessions.len(),
                keep == |e: SessionView| text::text_before(e.date, today@),
                borrowed_view(r@) == self@.sessions.take(i as int).filter(keep),
            decreases self.sessions.len() - i,
        {
            let ghost before = r@;
            if text::precedes(self.sessions[i].date.as_str(), today) {
                r.push(&self.sessions[i]);
                assert(borrowed_view(r@) == borrowed_view(before).push(self@.sessions[i as int]));
            }
            proof {
                assert(self@.sessions.take(i + 1) == self@.sessions.take(i as int).push(
                    self@.sessions[i as int],
                ));
                self@.sessions.take(i as int).lemma_filter_push(self@.sessions[i as int], keep);
            }
            i += 1;
        }
        assert(self@.sessions.take(i as int) == self@.sessions);
        r
    }
}

} // verus!
