//! The `/rota` command: the people and whose turn it is.

use vstd::prelude::*;
use vstd::string::*;

use crate::date;
use crate::date::{CivilDate, Date, Day};
use crate::model::{MemberView, RotaView};
use crate::reply;
use crate::reply::Turn;
use crate::request;
use crate::request::{CommandOption, ResolvedUser};
use crate::rota::{Member, Rota, SwapError};
use crate::text;

verus! {

/// The reply while nobody is in the rotation.
pub open spec fn nobody_there() -> Seq<char> {
    "The rota is empty. Add people with `/rota add`."@
}

/// The line of the list for the person at a place; a hand points at whoever is up next.
pub open spec fn rota_line(r: RotaView, i: int) -> Seq<char> {
    (if i == r.current {
        "👉 "@
    } else {
        "   "@
    }) + text::decimal((i + 1) as nat) + ". "@ + r.members[i].name + "\n"@
}

/// The lines of the list for the first people of the rotation.
pub open spec fn rota_lines(r: RotaView, count: nat) -> Seq<char>
    decreases count,
{
    if count == 0 {
        Seq::empty()
    } else {
        rota_lines(r, (count - 1) as nat) + rota_line(r, count - 1)
    }
}

/// The list of the rotation.
pub open spec fn rota_list(r: RotaView) -> Seq<char> {
    let list = "**🍵 Tea rota**\n"@ + rota_lines(r, r.members.len());
    if r.members.len() == 0 {
        nobody_there()
    } else {
        match r.up_next() {
            Some(m) => list + "\nUp next: "@ + m.mention() + " 🍵"@,
            None => list,
        }
    }
}

/// The reply to somebody who is not in the rotation.
pub open spec fn add_them_first(name: Seq<char>) -> Seq<char> {
    "**"@ + name + "** isn't in the rota — add them first."@
}

/// What `/rota` and a subcommand come to.
pub open spec fn rota_turn(
    r: RotaView,
    sub: Seq<char>,
    opts: Seq<CommandOption>,
    users: Seq<ResolvedUser>,
    bot_id: u64,
    today: CivilDate,
) -> Turn {
    if sub == "list"@ {
        reply::only_say(r, rota_list(r))
    } else if sub == "whose_turn"@ {
        match r.up_next() {
            Some(m) => reply::only_say(
                r,
                "It's "@ + m.mention() + "'s turn to bring the tea! 🍵"@,
            ),
            None => reply::only_say(r, nobody_there()),
        }
    } else if sub == "add"@ {
        match request::user_given(opts, "user"@, users) {
            None => reply::only_say(r, "You need to specify a user."@),
            Some((id, name)) => if bot_id != 0 && id == bot_id {
                reply::only_say(r, "🤵🏻‍♂️ I'm the butler — I serve the tea, I don't bring it!"@)
            } else if r.seat(id) is Some {
                reply::only_say(r, "**"@ + name + "** is already in the rota."@)
            } else {
                Turn {
                    rota: r.with_member(MemberView { id, name }),
                    reply: "Added **"@ + name + "** to the rota."@,
                }
            },
        }
    } else if sub == "remove"@ {
        match request::user_given(opts, "user"@, users) {
            None => reply::only_say(r, "You need to specify a user."@),
            Some((id, _)) => match r.seat(id) {
                Some(i) => Turn {
                    rota: r.without_member(id),
                    reply: "Removed **"@ + r.members[i].name + "** from the rota."@,
                },
                None => reply::only_say(r, "That person isn't in the rota."@),
            },
        }
    } else if sub == "set_next"@ {
        match request::user_given(opts, "user"@, users) {
            None => reply::only_say(r, "You need to specify a user."@),
            Some((id, name)) => if r.seat(id) is Some {
                Turn {
                    rota: r.pointed_at(id),
                    reply: "Set **"@ + name + "** as up next. 🍵"@,
                }
            } else {
                reply::only_say(r, add_them_first(name))
            },
        }
    } else if sub == "swap"@ {
        match (
            request::user_given(opts, "user1"@, users),
            request::user_given(opts, "user2"@, users),
        ) {
            (Some((a, a_name)), Some((b, b_name))) => match (r.seat(a), r.seat(b)) {
                (None, _) => reply::only_say(r, add_them_first(a_name)),
                (_, None) => reply::only_say(r, add_them_first(b_name)),
                (Some(i), Some(j)) => Turn {
                    rota: r.swapped(i, j, today.iso()),
                    reply: "🔁 Swapped **"@ + a_name + "** and **"@ + b_name
                        + "** in the rota and their upcoming sessions."@,
                },
            },
            _ => reply::only_say(r, "You need to specify two users."@),
        }
    } else if sub == "clear"@ {
        Turn { rota: r.cleared(), reply: "Cleared the rota."@ }
    } else {
        reply::only_say(r, reply::unknown_subcommand(sub))
    }
}

/// Writes the list of the rotation.
fn list_members(rota: &Rota) -> (r: String)
    ensures
        r@ == rota_list(rota@),
{
    if rota.members.len() == 0 {
        return "The rota is empty. Add people with `/rota add`.".to_owned();
    }
    let mut lines = String::new();
    let mut i: usize = 0;
    while i < rota.members.len()
        invariant
            i <= rota.members.len(),
            lines@ == rota_lines(rota@, i as nat),
        decreases rota.members.len() - i,
    {
        let mut line = if i == rota.current {
            "👉 ".to_owned()
        } else {
            "   ".to_owned()
        };
        line.append(text::to_decimal((i + 1) as u64).as_str());
        line.append(". ");
        line.append(rota.members[i].name.as_str());
        line.append("\n");
        assert(line@ == rota_line(rota@, i as int));
        lines.append(line.as_str());
        i += 1;
    }
    let mut r = "**🍵 Tea rota**\n".to_owned();
    r.append(lines.as_str());
    if let Some(m) = rota.current_member() {
        r.append("\nUp next: ");
        r.append(m.mention().as_str());
        r.append(" 🍵");
    }
    r
}

/// Answers `/rota` and a subcommand, and looks at the day only where it matters.
pub(crate) fn answer_rota(
    rota: &mut Rota,
    sub: &str,
    opts: &[CommandOption],
    users: &[ResolvedUser],
    bot_id: u64,
    day: Day,
) -> (reply: String)
    ensures
        exists|today: CivilDate| #[trigger]
            day.may_be(today) && {
                let turn = rota_turn(old(rota)@, sub@, opts@, users@, bot_id, today);
                final(rota)@ == turn.rota && reply@ == turn.reply
            },
        old(rota)@.well_formed() ==> final(rota)@.well_formed(),
{
    proof {
        day.is_some_date();
    }
    if text::same(sub, "list") {
        list_members(rota)
    } else if text::same(sub, "whose_turn") {
        match rota.current_member() {
            Some(m) => reply::wrapped("It's ", m.mention().as_str(), "'s turn to bring the tea! 🍵"),
            None => "The rota is empty. Add people with `/rota add`.".to_owned(),
        }
    } else if text::same(sub, "add") {
        match request::user_option(opts, "user", users) {
            None => "You need to specify a user.".to_owned(),
            Some((id, name)) => if bot_id != 0 && id == bot_id {
                "🤵🏻‍♂️ I'm the butler — I serve the tea, I don't bring it!".to_owned()
            } else if rota.add(Member { id, name: name.clone() }) {
                reply::wrapped("Added **", name.as_str(), "** to the rota.")
            } else {
                reply::wrapped("**", name.as_str(), "** is already in the rota.")
            },
        }
    } else if text::same(sub, "remove") {
        match request::user_option(opts, "user", users) {
            None => "You need to specify a user.".to_owned(),
            Some((id, _)) => match rota.remove(id) {
                Some(m) => reply::wrapped("Removed **", m.name.as_str(), "** from the rota."),
                None => "That person isn't in the rota.".to_owned(),
            },
        }
    } else if text::same(sub, "set_next") {
        match request::user_option(opts, "user", users) {
            None => "You need to specify a user.".to_owned(),
            Some((id, name)) => if rota.set_current(id) {
                reply::wrapped("Set **", name.as_str(), "** as up next. 🍵")
            } else {
                reply::wrapped("**", name.as_str(), "** isn't in the rota — add them first.")
            },
        }
    } else if text::same(sub, "swap") {
        match (
            request::user_option(opts, "user1", users),
            request::user_option(opts, "user2", users),
        ) {
            (Some((a, a_name)), Some((b, b_name))) => match rota.swap(
                a,
                b,
                date::iso(day.read()).as_str(),
            ) {
                Ok(()) => {
                    let mut reply = reply::wrapped("🔁 Swapped **", a_name.as_str(), "** and **");
                    reply.append(b_name.as_str());
                    reply.append("** in the rota and their upcoming sessions.");
                    reply
                },
                Err(SwapError::FirstNotAMember) => reply::wrapped(
                    "**",
                    a_name.as_str(),
                    "** isn't in the rota — add them first.",
                ),
                Err(SwapError::SecondNotAMember) => reply::wrapped(
                    "**",
                    b_name.as_str(),
                    "** isn't in the rota — add them first.",
                ),
            },
            _ => "You need to specify two users.".to_owned(),
        }
    } else if text::same(sub, "clear") {
        rota.clear();
        "Cleared the rota.".to_owned()
    } else {
        reply::wrapped("Unknown subcommand `", sub, "`.")
    }
}

/// Answers `/rota` and a subcommand, on a given day.
pub fn handle_rota(
    rota: &mut Rota,
    sub: &str,
    opts: &[CommandOption],
    users: &[ResolvedUser],
    bot_id: u64,
    today: Date,
) -> (reply: String)
    ensures
        ({
            let turn = rota_turn(old(rota)@, sub@, opts@, users@, bot_id, today@);
            final(rota)@ == turn.rota && reply@ == turn.reply
        }),
        old(rota)@.well_formed() ==> final(rota)@.well_formed(),
{
    answer_rota(rota, sub, opts, users, bot_id, Day::Given(today))
}

} // verus!
