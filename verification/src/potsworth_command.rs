//! The `/potsworth` command: whom the butler serves.

use vstd::prelude::*;
use vstd::string::*;

use crate::model::{MemberView, RotaView};
use crate::reply;
use crate::reply::Turn;
use crate::request;
use crate::request::{CommandOption, ResolvedUser};
use crate::rota::{Member, Rota};
use crate::text;

verus! {

/// What `/potsworth` and a subcommand come to. The master is named once, and is never the butler.
pub open spec fn potsworth_turn(
    r: RotaView,
    sub: Seq<char>,
    opts: Seq<CommandOption>,
    users: Seq<ResolvedUser>,
    channel: u64,
    bot_id: u64,
) -> Turn {
    if sub == "add"@ {
        match request::user_given(opts, "master"@, users) {
            None => reply::only_say(r, "You need to specify a user."@),
            Some((id, name)) => match r.master {
                Some(master) => reply::only_say(
                    r,
                    master.mention() + " is Potsworth's only master!"@,
                ),
                None => if bot_id != 0 && id == bot_id {
                    reply::only_say(r, "🤵🏻‍♂️ A butler cannot serve himself, I'm afraid."@)
                } else {
                    Turn {
                        rota: r.with_master(MemberView { id, name }, channel),
                        reply: "At your service. <@"@ + text::decimal(id as nat)
                            + "> is now my one and only master. I shall attend to my duties here in <#"@
                            + text::decimal(channel as nat) + ">. 🤵🏻‍♂️☕"@,
                    }
                },
            },
        }
    } else {
        reply::only_say(r, reply::unknown_subcommand(sub))
    }
}

/// Answers `/potsworth` and a subcommand that was given in a channel.
pub fn handle_potsworth(
    rota: &mut Rota,
    sub: &str,
    opts: &[CommandOption],
    users: &[ResolvedUser],
    channel: u64,
    bot_id: u64,
) -> (reply: String)
    ensures
        ({
            let turn = potsworth_turn(old(rota)@, sub@, opts@, users@, channel, bot_id);
            final(rota)@ == turn.rota && reply@ == turn.reply
        }),
        old(rota)@.well_formed() ==> final(rota)@.well_formed(),
{
    if !text::same(sub, "add") {
        return reply::wrapped("Unknown subcommand `", sub, "`.");
    }
    let (id, name) = match request::user_option(opts, "master", users) {
        None => {
            return "You need to specify a user.".to_owned();
        },
        Some(user) => user,
    };
    if let Some(existing) = rota.master() {
        let mut r = existing.mention();
        r.append(" is Potsworth's only master!");
        return r;
    }
    if bot_id != 0 && id == bot_id {
        return "🤵🏻‍♂️ A butler cannot serve himself, I'm afraid.".to_owned();
    }
    let _ = rota.set_master(Member { id, name }, channel);
    let mut r = reply::wrapped(
        "At your service. <@",
        text::to_decimal(id).as_str(),
        "> is now my one and only master. I shall attend to my duties here in <#",
    );
    r.append(text::to_decimal(channel).as_str());
    r.append(">. 🤵🏻‍♂️☕");
    r
}

} // verus!
