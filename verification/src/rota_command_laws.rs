//! What the subcommands of `/rota` and `/potsworth` do, in terms of the rota before and after.

use vstd::prelude::*;

use crate::date::CivilDate;
use crate::model::{MemberView, RotaView};
use crate::potsworth_command;
use crate::request;
use crate::request::{CommandOption, ResolvedUser};
use crate::rota_command;
use crate::rota_laws;
use crate::session_laws;
use crate::text;

verus! {

proof fn lemma_names_differ()
    ensures
        "whose_turn"@ != "list"@,
        "add"@ != "list"@,
        "add"@ != "whose_turn"@,
        "remove"@ != "list"@,
        "remove"@ != "whose_turn"@,
        "remove"@ != "add"@,
        "set_next"@ != "list"@,
        "set_next"@ != "whose_turn"@,
        "set_next"@ != "add"@,
        "set_next"@ != "remove"@,
        "swap"@ != "list"@,
        "swap"@ != "whose_turn"@,
        "swap"@ != "add"@,
        "swap"@ != "remove"@,
        "swap"@ != "set_next"@,
        "clear"@ != "list"@,
        "clear"@ != "whose_turn"@,
        "clear"@ != "add"@,
        "clear"@ != "remove"@,
        "clear"@ != "set_next"@,
        "clear"@ != "swap"@,
{
    reveal_strlit("list");
    reveal_strlit("whose_turn");
    reveal_strlit("add");
    reveal_strlit("remove");
    reveal_strlit("set_next");
    reveal_strlit("swap");
    reveal_strlit("clear");
    assert("list"@.len() == 4 && "whose_turn"@.len() == 10 && "add"@.len() == 3);
    assert("remove"@.len() == 6 && "set_next"@.len() == 8 && "swap"@.len() == 4);
    assert("clear"@.len() == 5);
    assert("list"@[0] == 'l' && "swap"@[0] == 's');
}

/// `/rota add` puts a person who is not there at the end of the rotation, under the name that they
/// go by. Nobody else moves, the marker stays, and so do the calendar and the master. The butler
/// himself, and somebody who is there, are not added, and the reply says which it was.
pub proof fn adding_a_person(
    r: RotaView,
    opts: Seq<CommandOption>,
    users: Seq<ResolvedUser>,
    bot_id: u64,
    today: CivilDate,
    id: u64,
    name: Seq<char>,
)
    requires
        request::user_given(opts, "user"@, users) == Some((id, name)),
    ensures
        ({
            let t = rota_command::rota_turn(r, "add"@, opts, users, bot_id, today);
            let butler = bot_id != 0 && id == bot_id;
            let there = exists|i: int| 0 <= i < r.members.len() && (#[trigger] r.members[i]).id == id;
            let n = r.members.len() as int;
            &&& t.rota.sessions == r.sessions
            &&& t.rota.master == r.master
            &&& t.rota.master_channel == r.master_channel
            &&& butler || there ==> t.rota == r
            &&& !butler && !there ==> t.rota.members == r.members.push(MemberView { id, name })
                && t.rota.current == r.current % (n + 1)
            &&& 0 <= r.current < n ==> t.rota.current == r.current
            &&& t.reply == if butler {
                "🤵🏻‍♂️ I'm the butler — I serve the tea, I don't bring it!"@
            } else if there {
                "**"@ + name + "** is already in the rota."@
            } else {
                "Added **"@ + name + "** to the rota."@
            }
        }),
{
    lemma_names_differ();
    let there = exists|i: int| 0 <= i < r.members.len() && (#[trigger] r.members[i]).id == id;
    let n = r.members.len() as int;
    if there {
        let i = choose|i: int| 0 <= i < r.members.len() && (#[trigger] r.members[i]).id == id;
        if r.seat(id) is None {
            crate::model::lemma_first_place(r.members, |m: MemberView| m.id == id);
            let is_them = |m: MemberView| m.id == id;
            assert(is_them(r.members[i]));
        }
    } else {
        rota_laws::people_are_found_by_id(r, id, 0);
    }
    if 0 <= r.current < n {
        vstd::arithmetic::div_mod::lemma_small_mod(r.current as nat, (n + 1) as nat);
    }
}

/// `/rota remove` takes exactly one person out: everybody else stays, in their order. Whoever is up
/// next stays so, and if it is the one who leaves, the following person is. The calendar and the
/// master stay, and the reply names who left.
pub proof fn removing_a_person(
    r: RotaView,
    opts: Seq<CommandOption>,
    users: Seq<ResolvedUser>,
    bot_id: u64,
    today: CivilDate,
    id: u64,
    name: Seq<char>,
    i: int,
)
    requires
        request::user_given(opts, "user"@, users) == Some((id, name)),
        0 <= i < r.members.len(),
        r.members[i].id == id,
        forall|j: int| 0 <= j < i ==> (#[trigger] r.members[j]).id != id,
    ensures
        ({
            let t = rota_command::rota_turn(r, "remove"@, opts, users, bot_id, today);
            let n = r.members.len();
            &&& t.rota.members == r.members.remove(i)
            &&& t.rota.sessions == r.sessions
            &&& t.rota.master == r.master
            &&& t.rota.master_channel == r.master_channel
            &&& 0 <= r.current < n && r.current != i ==> t.rota.members[t.rota.current]
                == r.members[r.current] && t.rota.up_next() == r.up_next()
            &&& r.current == i && i + 1 < n ==> t.rota.members[t.rota.current] == r.members[i + 1]
            &&& r.current == i && i + 1 == n && n > 1 ==> t.rota.members[t.rota.current]
                == r.members[0]
            &&& n > 1 ==> 0 <= t.rota.current < n - 1
            &&& n == 1 ==> t.rota.current == 0
            &&& t.reply == "Removed **"@ + r.members[i].name + "** from the rota."@
        }),
{
    lemma_names_differ();
    rota_laws::people_are_found_by_id(r, id, i);
    rota_laws::removing_hands_on_the_marker(r, id, i);
}

/// `/rota remove` takes out those with the id that was given, and keeps all others in their order.
pub proof fn removing_keeps_all_others(
    r: RotaView,
    opts: Seq<CommandOption>,
    users: Seq<ResolvedUser>,
    bot_id: u64,
    today: CivilDate,
    id: u64,
    name: Seq<char>,
)
    requires
        request::user_given(opts, "user"@, users) == Some((id, name)),
        r.distinct_members(),
    ensures
        rota_command::rota_turn(r, "remove"@, opts, users, bot_id, today).rota.members
            == r.members.filter(|m: MemberView| m.id != id),
{
    lemma_names_differ();
    rota_laws::removing_keeps_the_order(r, id);
}

/// `/rota remove` and `/rota set_next` change nothing where the person is not in the rotation, and
/// say so.
pub proof fn strangers_are_told_apart(
    r: RotaView,
    opts: Seq<CommandOption>,
    users: Seq<ResolvedUser>,
    bot_id: u64,
    today: CivilDate,
    id: u64,
    name: Seq<char>,
)
    requires
        request::user_given(opts, "user"@, users) == Some((id, name)),
        forall|j: int| 0 <= j < r.members.len() ==> (#[trigger] r.members[j]).id != id,
    ensures
        ({
            let remove = rota_command::rota_turn(r, "remove"@, opts, users, bot_id, today);
            let set_next = rota_command::rota_turn(r, "set_next"@, opts, users, bot_id, today);
            &&& remove.rota == r
            &&& remove.reply == "That person isn't in the rota."@
            &&& set_next.rota == r
            &&& set_next.reply == "**"@ + name + "** isn't in the rota — add them first."@
        }),
{
    lemma_names_differ();
    rota_laws::people_are_found_by_id(r, id, 0);
}

/// `/rota set_next` puts the marker on the person that was given, and changes nothing else.
pub proof fn setting_who_is_up_next(
    r: RotaView,
    opts: Seq<CommandOption>,
    users: Seq<ResolvedUser>,
    bot_id: u64,
    today: CivilDate,
    id: u64,
    name: Seq<char>,
    i: int,
)
    requires
        request::user_given(opts, "user"@, users) == Some((id, name)),
        0 <= i < r.members.len(),
        r.members[i].id == id,
        forall|j: int| 0 <= j < i ==> (#[trigger] r.members[j]).id != id,
    ensures
        ({
            let t = rota_command::rota_turn(r, "set_next"@, opts, users, bot_id, today);
            &&& t.rota.current == i
            &&& t.rota.up_next() == Some(r.members[i])
            &&& t.rota.members == r.members
            &&& t.rota.sessions == r.sessions
            &&& t.rota.master == r.master
            &&& t.rota.master_channel == r.master_channel
            &&& t.reply == "Set **"@ + name + "** as up next. 🍵"@
        }),
{
    lemma_names_differ();
    rota_laws::people_are_found_by_id(r, id, i);
}

/// `/rota swap` puts each of two people into the place of the other. From today on each takes over
/// the sessions of the other, whatever their notes. All else stays: the marker, the places of the
/// others, past sessions and those of others, every date and every note.
pub proof fn swapping_two_people(
    r: RotaView,
    opts: Seq<CommandOption>,
    users: Seq<ResolvedUser>,
    bot_id: u64,
    today: CivilDate,
    first: (u64, Seq<char>),
    second: (u64, Seq<char>),
    i: int,
    j: int,
    m: int,
    k: int,
)
    requires
        request::user_given(opts, "user1"@, users) == Some(first),
        request::user_given(opts, "user2"@, users) == Some(second),
        r.seat(first.0) == Some(i),
        r.seat(second.0) == Some(j),
        0 <= m < r.members.len(),
    ensures
        ({
            let t = rota_command::rota_turn(r, "swap"@, opts, users, bot_id, today);
            let a = r.members[i];
            let b = r.members[j];
            let old = r.sessions[k];
            let due = !text::text_before(old.date, today.iso());
            &&& t.rota.members.len() == r.members.len()
            &&& t.rota.members[m] == if m == j {
                a
            } else if m == i {
                b
            } else {
                r.members[m]
            }
            &&& t.rota.current == r.current
            &&& t.rota.master == r.master
            &&& t.rota.master_channel == r.master_channel
            &&& t.rota.sessions.len() == r.sessions.len()
            &&& 0 <= k < r.sessions.len() ==> {
                &&& t.rota.sessions[k].date == old.date
                &&& t.rota.sessions[k].note == old.note
                &&& t.rota.sessions[k].assignee == if due && old.assignee is Some
                    && old.assignee->0.id == first.0 {
                    Some(b)
                } else if due && old.assignee is Some && old.assignee->0.id == second.0 {
                    Some(a)
                } else {
                    old.assignee
                }
            }
            &&& t.reply == "🔁 Swapped **"@ + first.1 + "** and **"@ + second.1
                + "** in the rota and their upcoming sessions."@
        }),
{
    lemma_names_differ();
    rota_laws::people_are_found_by_id(r, first.0, i);
    rota_laws::people_are_found_by_id(r, second.0, j);
    if 0 <= k < r.sessions.len() {
        session_laws::swapping_swaps(r, i, j, today.iso(), m, k);
    }
}

/// `/rota swap` needs two people of the rotation: else nothing changes, and the reply names the
/// first of them who is not there.
pub proof fn swapping_needs_two_members(
    r: RotaView,
    opts: Seq<CommandOption>,
    users: Seq<ResolvedUser>,
    bot_id: u64,
    today: CivilDate,
)
    ensures
        ({
            let t = rota_command::rota_turn(r, "swap"@, opts, users, bot_id, today);
            match (
                request::user_given(opts, "user1"@, users),
                request::user_given(opts, "user2"@, users),
            ) {
                (Some(first), Some(second)) => {
                    &&& r.seat(first.0) is None ==> t.rota == r && t.reply == "**"@ + first.1
                        + "** isn't in the rota — add them first."@
                    &&& r.seat(first.0) is Some && r.seat(second.0) is None ==> t.rota == r && t.reply
                        == "**"@ + second.1 + "** isn't in the rota — add them first."@
                },
                _ => t.rota == r && t.reply == "You need to specify two users."@,
            }
        }),
{
    lemma_names_differ();
}

/// `/rota clear` takes everybody out of the rotation, and leaves the calendar and the master.
pub proof fn clearing_the_rotation(
    r: RotaView,
    opts: Seq<CommandOption>,
    users: Seq<ResolvedUser>,
    bot_id: u64,
    today: CivilDate,
)
    ensures
        ({
            let t = rota_command::rota_turn(r, "clear"@, opts, users, bot_id, today);
            &&& t.rota.members.len() == 0
            &&& t.rota.current == 0
            &&& t.rota.sessions == r.sessions
            &&& t.rota.master == r.master
            &&& t.rota.master_channel == r.master_channel
            &&& t.reply == "Cleared the rota."@
        }),
{
    lemma_names_differ();
}

/// Without a user `/rota add`, `remove` and `set_next` change nothing, and ask for one.
pub proof fn a_user_is_asked_for(
    r: RotaView,
    sub: Seq<char>,
    opts: Seq<CommandOption>,
    users: Seq<ResolvedUser>,
    bot_id: u64,
    today: CivilDate,
)
    requires
        sub == "add"@ || sub == "remove"@ || sub == "set_next"@,
        request::user_given(opts, "user"@, users) is None,
    ensures
        ({
            let t = rota_command::rota_turn(r, sub, opts, users, bot_id, today);
            t.rota == r && t.reply == "You need to specify a user."@
        }),
{
    lemma_names_differ();
}

/// `/rota list` shows every person of the rotation by name and number, in order, one line for each.
/// A hand points at the one who is up next, and at nobody else, and behind the list that person is
/// mentioned.
pub proof fn the_list_shows_everybody(
    r: RotaView,
    opts: Seq<CommandOption>,
    users: Seq<ResolvedUser>,
    bot_id: u64,
    today: CivilDate,
    k: nat,
)
    ensures
        ({
            let t = rota_command::rota_turn(r, "list"@, opts, users, bot_id, today);
            let n = r.members.len();
            &&& t.rota == r
            &&& n == 0 ==> t.reply == "The rota is empty. Add people with `/rota add`."@
            &&& n > 0 ==> t.reply == "**🍵 Tea rota**\n"@ + rota_command::rota_lines(r, n) + (if 0
                <= r.current < n {
                "\nUp next: "@ + r.members[r.current].mention() + " 🍵"@
            } else {
                Seq::empty()
            })
            &&& rota_command::rota_lines(r, 0) == Seq::<char>::empty()
            &&& k < n ==> rota_command::rota_lines(r, k + 1) == rota_command::rota_lines(r, k) + (
            if k == r.current {
                "👉 "@
            } else {
                "   "@
            }) + text::decimal(k + 1) + ". "@ + r.members[k as int].name + "\n"@
        }),
{
    let t = rota_command::rota_turn(r, "list"@, opts, users, bot_id, today);
    let n = r.members.len();
    let list = "**🍵 Tea rota**\n"@ + rota_command::rota_lines(r, n);
    if n > 0 {
        if 0 <= r.current < n {
            let tail = "\nUp next: "@ + r.members[r.current].mention() + " 🍵"@;
            assert(list + "\nUp next: "@ + r.members[r.current].mention() + " 🍵"@ =~= list + tail);
        } else {
            assert(list =~= list + Seq::<char>::empty());
        }
    }
    if k < n {
        let hand = if k == r.current {
            "👉 "@
        } else {
            "   "@
        };
        let lines = rota_command::rota_lines(r, k);
        let number = text::decimal(k + 1);
        let name = r.members[k as int].name;
        assert(rota_command::rota_lines(r, k + 1) == lines + (hand + number + ". "@ + name + "\n"@));
        assert(lines + (hand + number + ". "@ + name + "\n"@) =~= lines + hand + number + ". "@ + name
            + "\n"@);
    }
}

/// `/rota whose_turn` mentions the person that the marker points at.
pub proof fn whose_turn_it_is(
    r: RotaView,
    opts: Seq<CommandOption>,
    users: Seq<ResolvedUser>,
    bot_id: u64,
    today: CivilDate,
)
    ensures
        ({
            let t = rota_command::rota_turn(r, "whose_turn"@, opts, users, bot_id, today);
            &&& t.rota == r
            &&& t.reply == if 0 <= r.current < r.members.len() {
                "It's "@ + r.members[r.current].mention() + "'s turn to bring the tea! 🍵"@
            } else {
                "The rota is empty. Add people with `/rota add`."@
            }
        }),
{
    lemma_names_differ();
}

/// `/potsworth add` names the master where there is none, in the channel in which it is given, and
/// changes nothing else. It changes nothing where there is a master or where the butler names
/// himself, and the reply tells which it was.
pub proof fn naming_the_master(
    r: RotaView,
    opts: Seq<CommandOption>,
    users: Seq<ResolvedUser>,
    channel: u64,
    bot_id: u64,
    id: u64,
    name: Seq<char>,
)
    requires
        request::user_given(opts, "master"@, users) == Some((id, name)),
    ensures
        ({
            let t = potsworth_command::potsworth_turn(r, "add"@, opts, users, channel, bot_id);
            let butler = bot_id != 0 && id == bot_id;
            &&& t.rota.members == r.members
            &&& t.rota.current == r.current
            &&& t.rota.sessions == r.sessions
            &&& r.master is Some || butler ==> t.rota == r
            &&& r.master is None && !butler ==> t.rota.master == Some(MemberView { id, name })
                && t.rota.master_channel == Some(channel)
            &&& t.reply == if r.master is Some {
                r.master->0.mention() + " is Potsworth's only master!"@
            } else if butler {
                "🤵🏻‍♂️ A butler cannot serve himself, I'm afraid."@
            } else {
                "At your service. "@ + t.rota.master->0.mention()
                    + " is now my one and only master. I shall attend to my duties here in <#"@
                    + text::decimal(channel as nat) + ">. 🤵🏻‍♂️☕"@
            }
        }),
{
    if r.master is None && !(bot_id != 0 && id == bot_id) {
        let t = potsworth_command::potsworth_turn(r, "add"@, opts, users, channel, bot_id);
        reveal_strlit("At your service. <@");
        reveal_strlit("At your service. ");
        reveal_strlit("<@");
        reveal_strlit(
            "> is now my one and only master. I shall attend to my duties here in <#",
        );
        reveal_strlit(">");
        reveal_strlit(" is now my one and only master. I shall attend to my duties here in <#");
        assert("At your service. <@"@ =~= "At your service. "@ + "<@"@);
        assert("> is now my one and only master. I shall attend to my duties here in <#"@ =~= ">"@
            + " is now my one and only master. I shall attend to my duties here in <#"@);
        assert(t.reply =~= "At your service. "@ + t.rota.master->0.mention()
            + " is now my one and only master. I shall attend to my duties here in <#"@
            + text::decimal(channel as nat) + ">. 🤵🏻‍♂️☕"@);
    }
}

/// Without a user `/potsworth add` changes nothing, and asks for one.
pub proof fn a_master_is_asked_for(
    r: RotaView,
    opts: Seq<CommandOption>,
    users: Seq<ResolvedUser>,
    channel: u64,
    bot_id: u64,
)
    requires
        request::user_given(opts, "master"@, users) is None,
    ensures
        ({
            let t = potsworth_command::potsworth_turn(r, "add"@, opts, users, channel, bot_id);
            t.rota == r && t.reply == "You need to specify a user."@
        }),
{
}

} // verus!
