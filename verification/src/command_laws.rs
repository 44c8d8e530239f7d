//! What holds of the commands.

use vstd::prelude::*;

use crate::calendar;
use crate::date;
use crate::date::CivilDate;
use crate::date_laws;
use crate::model;
use crate::model::{MemberView, RotaView};
use crate::potsworth_command;
use crate::registry;
use crate::reply;
use crate::request;
use crate::request::{CommandOption, Request, ResolvedUser};
use crate::rota_command;
use crate::session_command;
use crate::store;
use crate::text;

verus! {

/// Each channel has its own rota: a command given in one channel leaves those of all others alone.
pub proof fn channels_are_independent(
    s: Map<u64, RotaView>,
    req: Request,
    bot_id: u64,
    today: CivilDate,
    other: u64,
)
    requires
        other != req.channel_id,
    ensures
        store::outcome(s, req, bot_id, today) matches Some(o) ==> store::rota_of(o.store, other)
            == store::rota_of(s, other),
{
}

/// What a command replies and changes depends on no other channel.
pub proof fn replies_depend_on_the_channel_alone(
    s: Map<u64, RotaView>,
    t: Map<u64, RotaView>,
    req: Request,
    bot_id: u64,
    today: CivilDate,
)
    requires
        store::rota_of(s, req.channel_id) == store::rota_of(t, req.channel_id),
    ensures
        match (
            store::outcome(s, req, bot_id, today),
            store::outcome(t, req, bot_id, today),
        ) {
            (Some(a), Some(b)) => {
                &&& a.text == b.text
                &&& a.ephemeral == b.ephemeral
                &&& a.save == b.save
                &&& store::rota_of(a.store, req.channel_id) == store::rota_of(
                    b.store,
                    req.channel_id,
                )
            },
            (None, None) => true,
            _ => false,
        },
{
}

/// In a well-formed store every command is served in the channel in which it is given: the butler
/// sends nobody to another channel.
pub proof fn commands_are_served_in_every_channel(
    s: Map<u64, RotaView>,
    req: Request,
    bot_id: u64,
    today: CivilDate,
)
    requires
        store::store_well_formed(s),
        store::is_addressed(req),
    ensures
        ({
            let turn = store::dispatch(store::rota_of(s, req.channel_id), req, bot_id, today);
            let o = store::outcome(s, req, bot_id, today);
            &&& o is Some
            &&& turn is Some
            &&& o->0.text == turn->0.reply
            &&& o->0.store == s.insert(req.channel_id, turn->0.rota)
            &&& o->0.save
        }),
{
    let r = store::rota_of(s, req.channel_id);
    assert(r.well_formed());
    assert(r.members.len() > 0 ==> r.up_next() is Some);
}

/// The butler reacts to being mentioned by somebody else in a server, whatever the channel and
/// whatever is kept of it.
pub proof fn reactions_fire_in_every_channel(
    bot_id: u64,
    author_id: u64,
    guild_id: u64,
    mentions: Seq<u64>,
)
    requires
        bot_id != 0,
        author_id != bot_id,
        mentions.contains(bot_id),
    ensures
        store::should_react(bot_id, author_id, Some(guild_id), mentions),
{
}

/// Whether the day matters to a command: it does where upcoming sessions are told from past ones.
pub open spec fn asks_for_the_day(req: Request) -> bool {
    let sub = req.options@[0].name@;
    ||| req.name@ == "session"@ && (sub == "list"@ || sub == "history"@ || sub == "next"@ || sub
        == "assign"@)
    ||| req.name@ == "rota"@ && sub == "swap"@
}

/// To all other commands the day does not matter: they come to the same on any two days.
pub proof fn the_day_matters_to_few_commands(
    s: Map<u64, RotaView>,
    req: Request,
    bot_id: u64,
    today: CivilDate,
    another_day: CivilDate,
)
    requires
        store::is_addressed(req) ==> !asks_for_the_day(req),
    ensures
        store::outcome(s, req, bot_id, today) == store::outcome(s, req, bot_id, another_day),
{
}

/// Outside a server nothing is done, and the reply says so.
pub proof fn direct_messages_are_refused(
    s: Map<u64, RotaView>,
    req: Request,
    bot_id: u64,
    today: CivilDate,
)
    requires
        req.guild_id is None,
    ensures
        store::outcome(s, req, bot_id, today) == Some(
            (store::Outcome {
                store: s,
                text: "The tea rota only works inside a server, not in DMs."@,
                ephemeral: false,
                save: false,
            }),
        ),
{
}

/// Whoever gives `public` decides who sees the reply to a command that is served.
pub proof fn public_decides_who_sees_the_reply(
    s: Map<u64, RotaView>,
    req: Request,
    bot_id: u64,
    today: CivilDate,
    public: bool,
)
    requires
        store::store_well_formed(s),
        store::is_addressed(req),
        request::flag_given(req.options@[0].value->SubCommand_0@, "public"@) == Some(public),
    ensures
        store::outcome(s, req, bot_id, today) matches Some(o) && o.ephemeral == !public,
{
    commands_are_served_in_every_channel(s, req, bot_id, today);
}

/// Without `public`, the lists are for the one who asked, and all else is for the channel.
pub proof fn only_lists_are_private(
    s: Map<u64, RotaView>,
    req: Request,
    bot_id: u64,
    today: CivilDate,
)
    requires
        store::store_well_formed(s),
        store::is_addressed(req),
        request::flag_given(req.options@[0].value->SubCommand_0@, "public"@) is None,
    ensures
        store::outcome(s, req, bot_id, today) matches Some(o) && (o.ephemeral <==> (
        req.options@[0].name@ == "list"@ && (req.name@ == "rota"@ || req.name@ == "session"@))),
{
    commands_are_served_in_every_channel(s, req, bot_id, today);
}

/// Once there is a master, every attempt to name one is met with the same words and changes
/// nothing.
pub proof fn only_one_master(
    r: RotaView,
    opts: Seq<CommandOption>,
    users: Seq<ResolvedUser>,
    channel: u64,
    bot_id: u64,
    master: MemberView,
)
    requires
        r.master == Some(master),
        request::user_given(opts, "master"@, users) is Some,
    ensures
        potsworth_command::potsworth_turn(r, "add"@, opts, users, channel, bot_id)
            == reply::only_say(r, master.mention() + " is Potsworth's only master!"@),
{
}

/// `/rota` never touches the master.
pub proof fn rota_commands_leave_the_master(
    r: RotaView,
    sub: Seq<char>,
    opts: Seq<CommandOption>,
    users: Seq<ResolvedUser>,
    bot_id: u64,
    today: CivilDate,
)
    ensures
        ({
            let t = rota_command::rota_turn(r, sub, opts, users, bot_id, today).rota;
            t.master == r.master && t.master_channel == r.master_channel
        }),
{
}

/// `/session` never touches the master.
pub proof fn session_commands_leave_the_master(
    r: RotaView,
    sub: Seq<char>,
    opts: Seq<CommandOption>,
    users: Seq<ResolvedUser>,
    today: CivilDate,
)
    ensures
        session_command::session_turn(r, sub, opts, users, today) matches Some(turn) ==> {
            turn.rota.master == r.master && turn.rota.master_channel == r.master_channel
        },
{
}

/// No command ever changes the master once there is one.
pub proof fn the_master_stays(
    s: Map<u64, RotaView>,
    req: Request,
    bot_id: u64,
    today: CivilDate,
    channel: u64,
)
    requires
        store::rota_of(s, channel).master is Some,
    ensures
        store::outcome(s, req, bot_id, today) matches Some(o) ==> {
            &&& store::rota_of(o.store, channel).master == store::rota_of(s, channel).master
            &&& store::rota_of(o.store, channel).master_channel == store::rota_of(
                s,
                channel,
            ).master_channel
        },
{
    let r = store::rota_of(s, req.channel_id);
    let sub = req.options@[0].name@;
    let opts = req.options@[0].value->SubCommand_0@;
    rota_commands_leave_the_master(r, sub, opts, req.users@, bot_id, today);
    session_commands_leave_the_master(r, sub, opts, req.users@, today);
    if channel != req.channel_id {
        channels_are_independent(s, req, bot_id, today, channel);
    }
}

proof fn lemma_seat_absent(r: RotaView, id: u64)
    ensures
        r.seat(id) is None <==> forall|i: int|
            0 <= i < r.members.len() ==> (#[trigger] r.members[i]).id != id,
{
    let is_them = |m: MemberView| m.id == id;
    model::lemma_first_place(r.members, is_them);
    match r.seat(id) {
        Some(i) => {
            assert(r.members[i].id == id);
        },
        None => {
            assert forall|i: int| 0 <= i < r.members.len() implies (#[trigger] r.members[i]).id
                != id by {
                assert(!is_them(r.members[i]));
            }
        },
    }
}

/// The butler does not bring the tea: no command puts him into the rotation.
pub proof fn the_butler_is_never_in_the_rotation(
    r: RotaView,
    req: Request,
    bot_id: u64,
    today: CivilDate,
)
    requires
        bot_id != 0,
        r.seat(bot_id) is None,
    ensures
        store::dispatch(r, req, bot_id, today) matches Some(turn) ==> turn.rota.seat(bot_id) is None,
{
    lemma_seat_absent(r, bot_id);
    if let Some(turn) = store::dispatch(r, req, bot_id, today) {
        let opts = req.options@[0].value->SubCommand_0@;
        let users = req.users@;
        if let Some((id, _)) = request::user_given(opts, "user"@, users) {
            model::lemma_first_place(r.members, |m: MemberView| m.id == id);
        }
        if let Some((id, _)) = request::user_given(opts, "user1"@, users) {
            model::lemma_first_place(r.members, |m: MemberView| m.id == id);
        }
        if let Some((id, _)) = request::user_given(opts, "user2"@, users) {
            model::lemma_first_place(r.members, |m: MemberView| m.id == id);
        }
        assert forall|i: int| 0 <= i < turn.rota.members.len() implies (
        #[trigger] turn.rota.members[i]).id != bot_id by {}
        lemma_seat_absent(turn.rota, bot_id);
    }
}

/// Only booking a session moves the marker on: `/session add` does so by one place, and not at all
/// if it books nothing or skips the rota. Of the other subcommands of `/session`, only `assign`
/// changes the rotation.
pub proof fn only_booking_moves_the_marker_on(
    r: RotaView,
    sub: Seq<char>,
    opts: Seq<CommandOption>,
    users: Seq<ResolvedUser>,
    today: CivilDate,
)
    requires
        sub != "assign"@,
    ensures
        session_command::session_turn(r, sub, opts, users, today) matches Some(turn) ==> {
            let booked = sub == "add"@ && turn.rota.sessions != r.sessions;
            &&& turn.rota.members == r.members
            &&& turn.rota.current == if booked && request::flag_given(opts, "skip"@) != Some(true) {
                r.advanced().current
            } else {
                r.current
            }
        },
{
    assert forall|s: model::SessionView| #[trigger]
        r.with_session(s).sessions.len() == r.sessions.len() + 1 by {
        calendar::sorting_is_stable(r.sessions.push(s), s.date);
    }
}

/// Outside `/session` the marker stays at its place, unless somebody is set as up next, or people
/// leave the rotation.
pub proof fn other_commands_leave_the_marker(
    r: RotaView,
    sub: Seq<char>,
    opts: Seq<CommandOption>,
    users: Seq<ResolvedUser>,
    channel: u64,
    bot_id: u64,
    today: CivilDate,
)
    requires
        r.marker_valid(),
    ensures
        sub != "set_next"@ && sub != "remove"@ && sub != "clear"@ ==> rota_command::rota_turn(
            r,
            sub,
            opts,
            users,
            bot_id,
            today,
        ).rota.current == r.current,
        potsworth_command::potsworth_turn(r, sub, opts, users, channel, bot_id).rota.current
            == r.current,
{
    if r.members.len() > 0 {
        vstd::arithmetic::div_mod::lemma_small_mod(r.current as nat, r.members.len() + 1);
    } else {
        vstd::arithmetic::div_mod::lemma_small_mod(0, 1);
    }
}

/// Looking changes nothing: neither the lists, nor whose turn it is, nor the next session.
pub proof fn looking_changes_nothing(
    r: RotaView,
    opts: Seq<CommandOption>,
    users: Seq<ResolvedUser>,
    bot_id: u64,
    today: CivilDate,
)
    ensures
        rota_command::rota_turn(r, "list"@, opts, users, bot_id, today).rota == r,
        rota_command::rota_turn(r, "whose_turn"@, opts, users, bot_id, today).rota == r,
        session_command::session_turn(r, "list"@, opts, users, today)->0.rota == r,
        session_command::session_turn(r, "history"@, opts, users, today)->0.rota == r,
        session_command::session_turn(r, "next"@, opts, users, today)->0.rota == r,
{
    reveal_strlit("add");
    reveal_strlit("list");
    reveal_strlit("whose_turn");
    reveal_strlit("history");
    reveal_strlit("next");
    assert("list"@.len() == 4 && "add"@.len() == 3 && "history"@.len() == 7);
    assert("next"@[0] == 'n' && "list"@[0] == 'l');
    assert("whose_turn"@.len() == 10);
}

/// `/rota` never touches the calendar, except where two people are swapped.
pub proof fn rota_commands_leave_the_calendar(
    r: RotaView,
    sub: Seq<char>,
    opts: Seq<CommandOption>,
    users: Seq<ResolvedUser>,
    bot_id: u64,
    today: CivilDate,
)
    requires
        sub != "swap"@,
    ensures
        rota_command::rota_turn(r, sub, opts, users, bot_id, today).rota.sessions == r.sessions,
{
}

/// A command that names a subcommand which is not offered says so and changes nothing.
pub proof fn unknown_subcommands_change_nothing(
    r: RotaView,
    sub: Seq<char>,
    opts: Seq<CommandOption>,
    users: Seq<ResolvedUser>,
    channel: u64,
    bot_id: u64,
    today: CivilDate,
)
    ensures
        (forall|i: int|
            0 <= i < registry::rota_command().subcommands.len() ==> sub
                != #[trigger] registry::rota_command().subcommands[i].name)
            ==> rota_command::rota_turn(r, sub, opts, users, bot_id, today) == reply::only_say(
            r,
            reply::unknown_subcommand(sub),
        ),
        (forall|i: int|
            0 <= i < registry::session_command().subcommands.len() ==> sub
                != #[trigger] registry::session_command().subcommands[i].name)
            ==> session_command::session_turn(r, sub, opts, users, today) == Some(
            reply::only_say(r, reply::unknown_subcommand(sub)),
        ),
        (forall|i: int|
            0 <= i < registry::potsworth_command().subcommands.len() ==> sub
                != #[trigger] registry::potsworth_command().subcommands[i].name)
            ==> potsworth_command::potsworth_turn(r, sub, opts, users, channel, bot_id)
            == reply::only_say(r, reply::unknown_subcommand(sub)),
{
    let rota = registry::rota_command().subcommands;
    let session = registry::session_command().subcommands;
    let potsworth = registry::potsworth_command().subcommands;
    assert(rota[0].name == "list"@);
    assert(rota[1].name == "whose_turn"@);
    assert(rota[2].name == "add"@);
    assert(rota[3].name == "remove"@);
    assert(rota[4].name == "set_next"@);
    assert(rota[5].name == "swap"@);
    assert(rota[6].name == "clear"@);
    assert(session[0].name == "add"@);
    assert(session[1].name == "list"@);
    assert(session[2].name == "next"@);
    assert(session[3].name == "history"@);
    assert(session[4].name == "remove"@);
    assert(session[5].name == "reschedule"@);
    assert(session[6].name == "assign"@);
    assert(potsworth[0].name == "add"@);
}

/// Every subcommand takes the option `public`.
pub proof fn every_subcommand_takes_public(i: int)
    ensures
        0 <= i < registry::rota_command().subcommands.len()
            ==> registry::rota_command().subcommands[i].options.last().name == "public"@,
        0 <= i < registry::session_command().subcommands.len()
            ==> registry::session_command().subcommands[i].options.last().name == "public"@,
        0 <= i < registry::potsworth_command().subcommands.len()
            ==> registry::potsworth_command().subcommands[i].options.last().name == "public"@,
{
}

/// A date that was booked is shown, when the session is removed, as the date that it is.
pub proof fn removal_names_the_date(r: RotaView, opts: Seq<CommandOption>, day: CivilDate)
    requires
        request::text_given(opts, "date"@) matches Some(raw) && date::read_date(raw) == Some(day),
        r.session_on(day.iso()) is Some,
    ensures
        session_command::remove_turn(r, opts).reply == "Removed the session on "@ + day.pretty()
            + "."@,
{
    model::lemma_first_place(
        r.sessions,
        |s: model::SessionView| s.date == day.iso(),
    );
    date_laws::read_dates_are_valid(request::text_given(opts, "date"@)->0);
    date_laws::kept_date_is_shown(day);
}

/// A channel of which nothing is kept has an empty rota.
pub proof fn channels_start_empty(s: Map<u64, RotaView>, channel: u64)
    ensures
        s.contains_key(channel) ==> store::rota_of(s, channel) == s[channel],
        !s.contains_key(channel) ==> {
            let r = store::rota_of(s, channel);
            &&& r.members.len() == 0
            &&& r.current == 0
            &&& r.sessions.len() == 0
            &&& r.master is None
            &&& r.master_channel is None
        },
{
}

/// A command in a server comes to what its name and its subcommand come to for the rota of the
/// channel: that rota and no other is changed, the reply is that of the subcommand, and the state is
/// kept. A name that is not known says so and changes nothing.
pub proof fn commands_come_to_what_they_name(
    s: Map<u64, RotaView>,
    req: Request,
    bot_id: u64,
    today: CivilDate,
    opts: Seq<CommandOption>,
)
    requires
        req.guild_id is Some,
        req.options@.len() > 0,
        req.options@[0].value matches request::TopValue::SubCommand(given) && given@ == opts,
        store::rota_of(s, req.channel_id).master_channel matches Some(bound) ==> bound
            == req.channel_id,
    ensures
        ({
            let r = store::rota_of(s, req.channel_id);
            let sub = req.options@[0].name@;
            let users = req.users@;
            let turn = if req.name@ == "rota"@ {
                Some(rota_command::rota_turn(r, sub, opts, users, bot_id, today))
            } else if req.name@ == "session"@ {
                session_command::session_turn(r, sub, opts, users, today)
            } else if req.name@ == "potsworth"@ {
                Some(
                    potsworth_command::potsworth_turn(
                        r,
                        sub,
                        opts,
                        users,
                        req.channel_id,
                        bot_id,
                    ),
                )
            } else {
                Some(
                    reply::Turn { rota: r, reply: "Unknown command `"@ + req.name@ + "`."@ },
                )
            };
            match (store::outcome(s, req, bot_id, today), turn) {
                (Some(o), Some(t)) => {
                    &&& o.store == s.insert(req.channel_id, t.rota)
                    &&& o.text == t.reply
                    &&& o.save
                    &&& o.ephemeral == !request::shown_to_all(req.name@, sub, opts)
                },
                (None, None) => true,
                _ => false,
            }
        }),
{
    reveal_strlit("rota");
    reveal_strlit("session");
    reveal_strlit("potsworth");
    assert("rota"@.len() == 4 && "session"@.len() == 7 && "potsworth"@.len() == 9);
}

/// A command that is not served changes nothing, and nothing is kept: one outside a server, one
/// without a subcommand, and one for a rota that is bound to another channel. The reply tells which
/// it is, and of the last kind only the one who asked sees it.
pub proof fn some_commands_are_not_served(
    s: Map<u64, RotaView>,
    req: Request,
    bot_id: u64,
    today: CivilDate,
)
    ensures
        ({
            let out = store::outcome(s, req, bot_id, today);
            let bound = store::rota_of(s, req.channel_id).master_channel;
            let bare = req.options@.len() == 0 || req.options@[0].value is Other;
            let elsewhere = bound is Some && bound != Some(req.channel_id);
            &&& req.guild_id is None || bare || elsewhere ==> out is Some && out->0.store == s
                && !out->0.save
            &&& req.guild_id is None ==> out->0.text
                == "The tea rota only works inside a server, not in DMs."@ && !out->0.ephemeral
            &&& req.guild_id is Some && bare ==> out->0.text == "Unknown command."@
                && !out->0.ephemeral
            &&& req.guild_id is Some && !bare && elsewhere ==> out->0.text
                == "🤵🏻‍♂️ I only attend to my duties in <#"@ + text::decimal(bound->0 as nat) + ">."@
                && out->0.ephemeral
        }),
{
}

/// The butler reacts to nothing else: not to himself, not outside a server, not to messages that do
/// not mention him, and not before he knows who he is.
pub proof fn nothing_else_gets_a_reaction(
    bot_id: u64,
    author_id: u64,
    guild_id: Option<u64>,
    mentions: Seq<u64>,
)
    ensures
        store::should_react(bot_id, author_id, guild_id, mentions) <==> bot_id != 0 && author_id
            != bot_id && guild_id is Some && exists|i: int|
            0 <= i < mentions.len() && mentions[i] == bot_id,
{
}

/// Whether a command offers a subcommand under a name at a place, and what it takes besides
/// `public`: options of these kinds, under these names, asked for or not.
pub open spec fn offers(
    c: registry::CommandModel,
    i: int,
    name: Seq<char>,
    taken: Seq<(registry::OptionKind, Seq<char>, bool)>,
) -> bool {
    let options = c.subcommands[i].options;
    &&& c.subcommands[i].name == name
    &&& options.len() == taken.len() + 1
    &&& forall|k: int|
        0 <= k < taken.len() ==> (#[trigger] options[k]).kind == taken[k].0 && options[k].name
            == taken[k].1 && options[k].required == taken[k].2
    &&& options.last().kind == registry::OptionKind::Flag
    &&& options.last().name == "public"@
    &&& !options.last().required
}

/// The options that are offered are those that the subcommands read. One that a subcommand cannot do
/// without is asked for.
pub proof fn what_is_read_is_offered()
    ensures
        registry::rota_command().name == "rota"@,
        registry::rota_command().subcommands.len() == 7,
        offers(registry::rota_command(), 0, "list"@, seq![]),
        offers(registry::rota_command(), 1, "whose_turn"@, seq![]),
        offers(
            registry::rota_command(),
            2,
            "add"@,
            seq![(registry::OptionKind::User, "user"@, true)],
        ),
        offers(
            registry::rota_command(),
            3,
            "remove"@,
            seq![(registry::OptionKind::User, "user"@, true)],
        ),
        offers(
            registry::rota_command(),
            4,
            "set_next"@,
            seq![(registry::OptionKind::User, "user"@, true)],
        ),
        offers(
            registry::rota_command(),
            5,
            "swap"@,
            seq![
                (registry::OptionKind::User, "user1"@, true),
                (registry::OptionKind::User, "user2"@, true),
            ],
        ),
        offers(registry::rota_command(), 6, "clear"@, seq![]),
        registry::session_command().name == "session"@,
        registry::session_command().subcommands.len() == 7,
        offers(
            registry::session_command(),
            0,
            "add"@,
            seq![
                (registry::OptionKind::Text, "date"@, true),
                (registry::OptionKind::Text, "note"@, false),
                (registry::OptionKind::Flag, "skip"@, false),
            ],
        ),
        offers(registry::session_command(), 1, "list"@, seq![]),
        offers(registry::session_command(), 2, "next"@, seq![]),
        offers(registry::session_command(), 3, "history"@, seq![]),
        offers(
            registry::session_command(),
            4,
            "remove"@,
            seq![(registry::OptionKind::Text, "date"@, true)],
        ),
        offers(
            registry::session_command(),
            5,
            "reschedule"@,
            seq![
                (registry::OptionKind::Text, "from"@, true),
                (registry::OptionKind::Text, "to"@, true),
            ],
        ),
        offers(
            registry::session_command(),
            6,
            "assign"@,
            seq![
                (registry::OptionKind::Text, "date"@, true),
                (registry::OptionKind::User, "user"@, false),
                (registry::OptionKind::Flag, "skip"@, false),
            ],
        ),
        registry::potsworth_command().name == "potsworth"@,
        registry::potsworth_command().subcommands.len() == 1,
        offers(
            registry::potsworth_command(),
            0,
            "add"@,
            seq![(registry::OptionKind::User, "master"@, true)],
        ),
{
}

/// The reply to a subcommand that does not exist holds its name.
pub proof fn unknown_subcommands_are_named(sub: Seq<char>)
    ensures
        ({
            let reply = reply::unknown_subcommand(sub);
            &&& reply == "Unknown subcommand `"@ + sub + "`."@
            &&& reply.len() == sub.len() + 22
            &&& reply.subrange(20, reply.len() - 2) == sub
        }),
{
    reveal_strlit("Unknown subcommand `");
    reveal_strlit("`.");
    let reply = reply::unknown_subcommand(sub);
    assert(reply.subrange(20, reply.len() - 2) =~= sub);
}

} // verus!
