//! What holds of the rotation: of its order, of the marker, and of the master.

use vstd::prelude::*;

use crate::model;
use crate::model::{MemberView, RotaView};

verus! {

/// Adding somebody who has been added changes nothing, whatever name they come with.
pub proof fn adding_is_idempotent(r: RotaView, m: MemberView, again: MemberView)
    requires
        m.id == again.id,
    ensures
        r.with_member(m).seat(again.id) is Some,
        r.with_member(m).with_member(again) == r.with_member(m),
{
    let s = r.with_member(m);
    let is_them = |x: MemberView| x.id == m.id;
    if r.seat(m.id) is None {
        model::lemma_first_place(s.members, is_them);
        assert(is_them(s.members[r.members.len() as int]));
    }
}

/// Adding somebody keeps the person who is up next, and the order of all who are there.
pub proof fn adding_keeps_up_next(r: RotaView, m: MemberView)
    requires
        r.marker_valid(),
        r.members.len() > 0,
    ensures
        r.with_member(m).up_next() == r.up_next(),
        r.with_member(m).members.take(r.members.len() as int) == r.members,
{
    vstd::arithmetic::div_mod::lemma_small_mod(r.current as nat, r.members.len() + 1);
    assert(r.with_member(m).members.take(r.members.len() as int) =~= r.members);
}

/// Removing somebody else keeps the person who is up next.
pub proof fn removing_others_keeps_up_next(r: RotaView, id: u64)
    requires
        r.marker_valid(),
        r.up_next() matches Some(m) && m.id != id,
    ensures
        r.without_member(id).up_next() == r.up_next(),
{
    model::lemma_first_place(r.members, |x: MemberView| x.id == id);
    if let Some(i) = r.seat(id) {
        let place = if i < r.current {
            r.current - 1
        } else {
            r.current
        };
        assert(r.current != i);
        vstd::arithmetic::div_mod::lemma_small_mod(place as nat, (r.members.len() - 1) as nat);
    }
}

pub proof fn lemma_filter_others(s: Seq<MemberView>, i: int)
    requires
        0 <= i < s.len(),
        forall|a: int, b: int| 0 <= a < b < s.len() ==> s[a].id != s[b].id,
    ensures
        s.remove(i) == s.filter(|m: MemberView| m.id != s[i].id),
    decreases s.len(),
{
    let other = |m: MemberView| m.id != s[i].id;
    reveal(Seq::filter);
    let rest = s.drop_last();
    if i == s.len() - 1 {
        assert(s.remove(i) == rest);
        lemma_filter_all(rest, other);
    } else {
        assert(rest[i] == s[i]);
        lemma_filter_others(rest, i);
        assert(s.remove(i) == rest.remove(i).push(s.last()));
        assert(s[i].id != s[s.len() - 1].id);
    }
}

proof fn lemma_filter_all(s: Seq<MemberView>, p: spec_fn(MemberView) -> bool)
    requires
        forall|i: int| 0 <= i < s.len() ==> p(#[trigger] s[i]),
    ensures
        s.filter(p) == s,
    decreases s.len(),
{
    reveal(Seq::filter);
    if s.len() > 0 {
        let rest = s.drop_last();
        assert forall|i: int| 0 <= i < rest.len() implies p(#[trigger] rest[i]) by {
            assert(rest[i] == s[i]);
        }
        lemma_filter_all(rest, p);
        assert(p(s[s.len() - 1]));
        assert(rest.push(s.last()) == s);
    }
}

/// Removing somebody takes them out and keeps everybody else in their order.
pub proof fn removing_keeps_the_order(r: RotaView, id: u64)
    requires
        r.distinct_members(),
    ensures
        r.without_member(id).members == r.members.filter(|m: MemberView| m.id != id),
{
    let is_them = |x: MemberView| x.id == id;
    model::lemma_first_place(r.members, is_them);
    match r.seat(id) {
        Some(i) => {
            lemma_filter_others(r.members, i);
        },
        None => {
            let other = |m: MemberView| m.id != id;
            assert forall|i: int| 0 <= i < r.members.len() implies other(
                #[trigger] r.members[i],
            ) by {
                assert(!is_them(r.members[i]));
            }
            lemma_filter_all(r.members, other);
        },
    }
}

/// Removing somebody who has just been added undoes the addition.
pub proof fn removing_undoes_adding(r: RotaView, m: MemberView)
    requires
        r.marker_valid(),
        r.seat(m.id) is None,
    ensures
        r.with_member(m).without_member(m.id) == r,
{
    let s = r.with_member(m);
    let is_them = |x: MemberView| x.id == m.id;
    model::lemma_first_place(r.members, is_them);
    assert forall|j: int| 0 <= j < r.members.len() implies !is_them(#[trigger] s.members[j]) by {
        assert(!is_them(r.members[j]));
    }
    model::lemma_first_place_is(s.members, is_them, r.members.len() as int);
    assert(s.members.remove(r.members.len() as int) == r.members);
    vstd::arithmetic::div_mod::lemma_small_mod(r.current as nat, r.members.len() + 1);
    if r.members.len() > 0 {
        vstd::arithmetic::div_mod::lemma_small_mod(r.current as nat, r.members.len());
    }
    assert(s.without_member(m.id) =~= r);
}

/// The rota after the marker has moved on a number of times.
pub open spec fn advanced_times(r: RotaView, times: nat) -> RotaView
    decreases times,
{
    if times == 0 {
        r
    } else {
        advanced_times(r, (times - 1) as nat).advanced()
    }
}

/// The marker goes through the rotation in order, and from its end to its front.
pub proof fn marker_goes_round(r: RotaView, times: nat)
    requires
        r.marker_valid(),
        r.members.len() > 0,
    ensures
        advanced_times(r, times) == (RotaView {
            current: (r.current + times) % r.members.len() as int,
            ..r
        }),
    decreases times,
{
    let n = r.members.len() as int;
    if times == 0 {
        vstd::arithmetic::div_mod::lemma_small_mod(r.current as nat, n as nat);
    } else {
        marker_goes_round(r, (times - 1) as nat);
        vstd::arithmetic::div_mod::lemma_add_mod_noop(r.current + times - 1, 1, n);
        vstd::arithmetic::div_mod::lemma_add_mod_noop((r.current + times - 1) % n, 1, n);
        vstd::arithmetic::div_mod::lemma_mod_twice(r.current + times - 1, n);
    }
}

/// After as many turns as there are people, the same person is up next again.
pub proof fn marker_comes_back(r: RotaView)
    requires
        r.marker_valid(),
        r.members.len() > 0,
    ensures
        advanced_times(r, r.members.len()) == r,
{
    let n = r.members.len() as int;
    marker_goes_round(r, r.members.len());
    vstd::arithmetic::div_mod::lemma_mod_add_multiples_vanish(r.current, n);
    vstd::arithmetic::div_mod::lemma_small_mod(r.current as nat, n as nat);
}

/// The marker can be put on anybody who is there, and then they are up next.
pub proof fn pointing_marks_up_next(r: RotaView, id: u64)
    requires
        r.seat(id) is Some,
    ensures
        r.pointed_at(id).up_next() matches Some(m) && m.id == id,
{
    model::lemma_first_place(r.members, |x: MemberView| x.id == id);
}

/// One person is always up next, as long as anybody is in the rotation.
pub proof fn somebody_is_up_next(r: RotaView)
    requires
        r.marker_valid(),
    ensures
        r.up_next() is Some <==> r.members.len() > 0,
{
}

/// No change of the rotation reaches the sessions that are booked, and none reaches the master.
pub proof fn rotation_changes_leave_the_calendar(r: RotaView, m: MemberView, id: u64)
    ensures
        r.with_member(m).sessions == r.sessions,
        r.without_member(id).sessions == r.sessions,
        r.advanced().sessions == r.sessions,
        r.pointed_at(id).sessions == r.sessions,
        r.cleared().sessions == r.sessions,
        r.with_member(m).master == r.master,
        r.without_member(id).master == r.master,
        r.advanced().master == r.master,
        r.pointed_at(id).master == r.master,
        r.cleared().master == r.master,
{
}

/// The master is named once: whoever is named later, the first one stays, and so does the
/// channel.
pub proof fn master_is_named_once(
    r: RotaView,
    first: MemberView,
    channel: u64,
    second: MemberView,
    other_channel: u64,
)
    ensures
        r.with_master(first, channel).master is Some,
        r.with_master(first, channel).with_master(second, other_channel) == r.with_master(
            first,
            channel,
        ),
        r.master is None ==> r.with_master(first, channel).master == Some(first),
        r.master is None ==> r.with_master(first, channel).master_channel == Some(channel),
{
}

/// A person is at the first place that has their id, and nowhere if no place has it.
pub proof fn people_are_found_by_id(r: RotaView, id: u64, i: int)
    ensures
        0 <= i < r.members.len() && r.members[i].id == id && (forall|j: int|
            0 <= j < i ==> (#[trigger] r.members[j]).id != id) ==> r.seat(id) == Some(i),
        (forall|j: int| 0 <= j < r.members.len() ==> (#[trigger] r.members[j]).id != id)
            ==> r.seat(id) is None,
        r.seat(id) == Some(i) ==> 0 <= i < r.members.len() && r.members[i].id == id,
        r.distinct_members() && 0 <= i < r.members.len() && r.members[i].id == id ==> r.seat(id)
            == Some(i),
{
    let is_them = |m: MemberView| m.id == id;
    model::lemma_first_place(r.members, is_them);
    if 0 <= i < r.members.len() && r.members[i].id == id {
        if r.distinct_members() || forall|j: int|
            0 <= j < i ==> (#[trigger] r.members[j]).id != id {
            assert forall|j: int| 0 <= j < i implies !is_them(#[trigger] r.members[j]) by {
                assert(r.members[j].id != id);
            }
            model::lemma_first_place_is(r.members, is_them, i);
        }
    }
    if forall|j: int| 0 <= j < r.members.len() ==> (#[trigger] r.members[j]).id != id {
        assert forall|j: int| 0 <= j < r.members.len() implies !is_them(#[trigger] r.members[j]) by {
            assert(r.members[j].id != id);
        }
        model::lemma_first_place_none(r.members, is_them);
    }
}

/// The person who is up next is the one that the marker points at.
pub proof fn the_marker_points_at_who_is_up_next(r: RotaView)
    ensures
        0 <= r.current < r.members.len() ==> r.up_next() == Some(r.members[r.current]),
        !(0 <= r.current < r.members.len()) ==> r.up_next() is None,
{
}

/// When somebody is removed, everybody else stays in order. Whoever is up next stays so; if it is
/// the one who leaves, the following person is, or from the end of the rotation the first one.
pub proof fn removing_hands_on_the_marker(r: RotaView, id: u64, i: int)
    requires
        r.seat(id) == Some(i),
    ensures
        ({
            let s = r.without_member(id);
            let n = r.members.len();
            &&& s.members == r.members.remove(i)
            &&& n == 1 ==> s.current == 0
            &&& 0 <= r.current < n && r.current != i ==> s.members[s.current]
                == r.members[r.current]
            &&& r.current == i && i + 1 < n ==> s.members[s.current] == r.members[i + 1]
            &&& r.current == i && i + 1 == n && n > 1 ==> s.members[s.current] == r.members[0]
            &&& n > 1 ==> 0 <= s.current < n - 1
            &&& r.current >= n && n > 1 ==> s.current == (r.current - 1) % (n - 1)
        }),
{
    people_are_found_by_id(r, id, i);
    let n = r.members.len() as int;
    let place = if i < r.current {
        r.current - 1
    } else {
        r.current
    };
    if n > 1 {
        vstd::arithmetic::div_mod::lemma_mod_bound(place, n - 1);
        if 0 <= place < n - 1 {
            vstd::arithmetic::div_mod::lemma_small_mod(place as nat, (n - 1) as nat);
        } else if place == n - 1 {
            vstd::arithmetic::div_mod::lemma_mod_self_0(n - 1);
        }
    }
}

/// Moving the marker on takes it one place further, and from the end to the front; from a place
/// behind the end it comes back into the rotation.
pub proof fn moving_on_goes_one_place_further(r: RotaView)
    ensures
        r.members.len() > 0 ==> r.advanced().current == (r.current + 1) % r.members.len() as int,
        0 <= r.current && r.current + 1 < r.members.len() ==> r.advanced().current == r.current + 1,
        r.current + 1 == r.members.len() && r.members.len() > 0 ==> r.advanced().current == 0,
        r.members.len() == 0 ==> r.advanced() == r,
        r.advanced().members == r.members,
        r.advanced().sessions == r.sessions,
        r.advanced().master == r.master,
        r.advanced().master_channel == r.master_channel,
{
    let n = r.members.len() as int;
    if 0 <= r.current && r.current + 1 < n {
        vstd::arithmetic::div_mod::lemma_small_mod((r.current + 1) as nat, n as nat);
    } else if r.current + 1 == n && n > 0 {
        vstd::arithmetic::div_mod::lemma_mod_self_0(n);
    }
}

} // verus!
