//! The commands: what is asked, what is answered, and who sees it.

use potsworth::date::{parse_date, Date};
use potsworth::potsworth_command::handle_potsworth;
use potsworth::request::{
    accepts_command, bool_option, is_public, registration_guild, string_option, user_option,
    CommandOption, OptionValue, Request, ResolvedUser, TopOption, TopValue,
};
use potsworth::rota::{Member, Rota, Session};
use potsworth::rota_command::handle_rota;
use potsworth::session_command::{handle_session, session_mention, session_name};
use potsworth::store::{channel_of_key, Response, Store};

const BOT: u64 = 99;
const GAME: u64 = 7;

fn day(raw: &str) -> Date {
    parse_date(raw).unwrap()
}

fn user(name: &str, id: u64) -> CommandOption {
    CommandOption { name: name.to_string(), value: OptionValue::User(id) }
}

fn words(name: &str, value: &str) -> CommandOption {
    CommandOption { name: name.to_string(), value: OptionValue::Text(value.to_string()) }
}

fn flag(name: &str, value: bool) -> CommandOption {
    CommandOption { name: name.to_string(), value: OptionValue::Flag(value) }
}

fn people() -> Vec<ResolvedUser> {
    [(1, "Alice"), (2, "Bob"), (3, "Carol"), (BOT, "Potsworth")]
        .iter()
        .map(|(id, name)| ResolvedUser {
            id: *id,
            global_name: Some(name.to_string()),
            name: name.to_lowercase(),
        })
        .collect()
}

fn request(channel: u64, name: &str, sub: &str, opts: Vec<CommandOption>) -> Request {
    Request {
        guild_id: Some(1000),
        channel_id: channel,
        name: name.to_string(),
        options: vec![TopOption { name: sub.to_string(), value: TopValue::SubCommand(opts) }],
        users: people(),
    }
}

/// Gives a command in a channel on 15 August 2026.
fn give(
    store: &mut Store,
    channel: u64,
    name: &str,
    sub: &str,
    opts: Vec<CommandOption>,
) -> Response {
    store.handle_on(&request(channel, name, sub, opts), BOT, day("2026/08/15")).unwrap()
}

fn say(store: &mut Store, name: &str, sub: &str, opts: Vec<CommandOption>) -> String {
    give(store, GAME, name, sub, opts).text
}

/// A store with Alice, Bob and Carol in the rotation of one channel.
fn party() -> Store {
    let mut store = Store::default();
    for id in 1..=3 {
        say(&mut store, "rota", "add", vec![user("user", id)]);
    }
    store
}

/// The party with four sessions on Saturdays.
fn booked_party() -> Store {
    let mut store = party();
    for date in ["2026/08/22", "2026/08/29", "2026/09/05", "2026/09/12"] {
        say(&mut store, "session", "add", vec![words("date", date)]);
    }
    store
}

fn tea(store: &Store) -> Vec<u64> {
    let rota = store.rota(GAME).unwrap();
    rota.sessions.iter().map(|s| s.assignee.as_ref().map_or(0, |a| a.id)).collect()
}

fn order(store: &Store) -> Vec<u64> {
    store.rota(GAME).unwrap().members.iter().map(|m| m.id).collect()
}

#[test]
fn options_are_found_by_name() {
    let opts = vec![words("note", "a"), words("note", "b"), user("user", 5), flag("skip", true)];
    assert_eq!(string_option(&opts, "note").as_deref(), Some("a"));
    assert_eq!(string_option(&opts, "user"), None);
    assert_eq!(string_option(&opts, "date"), None);
    assert!(bool_option(&opts, "skip"));
    assert!(!bool_option(&opts, "note"));
    assert!(!bool_option(&[flag("skip", false)], "skip"));
    assert!(!bool_option(&[], "skip"));
    let other = [CommandOption { name: "user".to_string(), value: OptionValue::Other }];
    assert_eq!(user_option(&other, "user", &people()), None);
}

#[test]
fn users_are_called_by_their_best_name() {
    let opts = [user("a", 1), user("b", 2), user("c", 3)];
    let users = [
        ResolvedUser { id: 1, global_name: Some("Alice".to_string()), name: "alice99".to_string() },
        ResolvedUser { id: 2, global_name: None, name: "bob99".to_string() },
    ];
    assert_eq!(user_option(&opts, "a", &users), Some((1, "Alice".to_string())));
    assert_eq!(user_option(&opts, "b", &users), Some((2, "bob99".to_string())));
    assert_eq!(user_option(&opts, "c", &users), Some((3, "User 3".to_string())));
    assert_eq!(user_option(&opts, "d", &users), None);
}

#[test]
fn only_lists_are_private() {
    assert!(!is_public("rota", "list", &[]));
    assert!(!is_public("session", "list", &[]));
    assert!(is_public("potsworth", "list", &[]));
    assert!(is_public("rota", "whose_turn", &[]));
    assert!(is_public("session", "history", &[]));
    assert!(is_public("rota", "list", &[flag("public", true)]));
    assert!(!is_public("rota", "add", &[flag("public", false)]));
    assert!(is_public("rota", "add", &[words("public", "false")]));
}

#[test]
fn our_commands_are_accepted() {
    for name in ["rota", "session", "potsworth"] {
        assert!(accepts_command(name));
    }
    for name in ["", "Rota", "rota ", "tea"] {
        assert!(!accepts_command(name));
    }
}

#[test]
fn registration_goes_to_the_test_server() {
    assert_eq!(registration_guild(None), None);
    assert_eq!(registration_guild(Some("")), None);
    assert_eq!(registration_guild(Some("abc")), None);
    assert_eq!(registration_guild(Some("123456789")), Some(123456789));
}

#[test]
fn an_empty_rota_says_so() {
    let mut store = Store::default();
    let empty = "The rota is empty. Add people with `/rota add`.";
    assert_eq!(say(&mut store, "rota", "list", vec![]), empty);
    assert_eq!(say(&mut store, "rota", "whose_turn", vec![]), empty);
    assert_eq!(
        say(&mut store, "session", "add", vec![words("date", "2026/08/22")]),
        "The rota is empty — add people with `/rota add` before scheduling sessions (or use \
         `skip:true` for a split session)."
    );
}

#[test]
fn people_come_and_go() {
    let mut store = Store::default();
    assert_eq!(
        say(&mut store, "rota", "add", vec![user("user", 1)]),
        "Added **Alice** to the rota."
    );
    assert_eq!(
        say(&mut store, "rota", "add", vec![user("user", 1)]),
        "**Alice** is already in the rota."
    );
    assert_eq!(say(&mut store, "rota", "add", vec![]), "You need to specify a user.");
    assert_eq!(
        say(&mut store, "rota", "add", vec![user("user", BOT)]),
        "🤵🏻‍♂️ I'm the butler — I serve the tea, I don't bring it!"
    );
    assert_eq!(order(&store), [1]);
    assert_eq!(
        say(&mut store, "rota", "remove", vec![user("user", 2)]),
        "That person isn't in the rota."
    );
    assert_eq!(say(&mut store, "rota", "remove", vec![]), "You need to specify a user.");
    assert_eq!(
        say(&mut store, "rota", "remove", vec![user("user", 1)]),
        "Removed **Alice** from the rota."
    );
    assert!(order(&store).is_empty());
}

#[test]
fn before_the_butler_knows_himself_anybody_is_added() {
    let mut rota = Rota::default();
    let reply =
        handle_rota(&mut rota, "add", &[user("user", 0)], &people(), 0, day("2026/08/15"));
    assert_eq!(reply, "Added **User 0** to the rota.");
}

#[test]
fn the_list_points_at_who_is_up_next() {
    let mut store = party();
    assert_eq!(
        say(&mut store, "rota", "set_next", vec![user("user", 2)]),
        "Set **Bob** as up next. 🍵"
    );
    assert_eq!(
        say(&mut store, "rota", "list", vec![]),
        "**🍵 Tea rota**\n   1. Alice\n👉 2. Bob\n   3. Carol\n\nUp next: <@2> 🍵"
    );
    assert_eq!(
        say(&mut store, "rota", "whose_turn", vec![]),
        "It's <@2>'s turn to bring the tea! 🍵"
    );
    assert_eq!(say(&mut store, "rota", "set_next", vec![]), "You need to specify a user.");
    assert_eq!(
        say(&mut store, "rota", "set_next", vec![user("user", 4)]),
        "**User 4** isn't in the rota — add them first."
    );
    assert_eq!(store.rota(GAME).unwrap().current, 1);
}

#[test]
fn a_marker_behind_the_last_points_at_nobody() {
    let mut rota = Rota::from_parts(
        vec![Member { id: 1, name: "Alice".to_string() }],
        5,
        vec![],
        None,
        None,
    );
    let today = day("2026/08/15");
    let list = handle_rota(&mut rota, "list", &[], &[], BOT, today);
    assert_eq!(list, "**🍵 Tea rota**\n   1. Alice\n");
    let whose = handle_rota(&mut rota, "whose_turn", &[], &[], BOT, today);
    assert_eq!(whose, "The rota is empty. Add people with `/rota add`.");
    assert_eq!(handle_session(&mut rota, "add", &[words("date", "2026/08/22")], &[], today), None);
    assert!(rota.sessions.is_empty());
    assert!(rota.advance().is_some());
}

#[test]
fn clearing_empties_the_rotation() {
    let mut store = booked_party();
    assert_eq!(say(&mut store, "rota", "clear", vec![]), "Cleared the rota.");
    assert!(order(&store).is_empty());
    assert_eq!(tea(&store), [1, 2, 3, 1]);
}

#[test]
fn swapping_by_command() {
    let mut store = booked_party();
    let both = |a: u64, b: u64| vec![user("user1", a), user("user2", b)];
    assert_eq!(
        say(&mut store, "rota", "swap", both(1, 3)),
        "🔁 Swapped **Alice** and **Carol** in the rota and their upcoming sessions."
    );
    assert_eq!(order(&store), [3, 2, 1]);
    assert_eq!(tea(&store), [3, 2, 1, 3]);
    assert_eq!(
        say(&mut store, "rota", "swap", both(4, 3)),
        "**User 4** isn't in the rota — add them first."
    );
    assert_eq!(
        say(&mut store, "rota", "swap", both(3, 5)),
        "**User 5** isn't in the rota — add them first."
    );
    assert_eq!(
        say(&mut store, "rota", "swap", vec![user("user1", 1)]),
        "You need to specify two users."
    );
}

#[test]
fn unknown_things_change_nothing() {
    let mut store = booked_party();
    for name in ["rota", "session", "potsworth"] {
        assert_eq!(say(&mut store, name, "brew", vec![]), "Unknown subcommand `brew`.");
    }
    assert_eq!(say(&mut store, "rota", "next", vec![]), "Unknown subcommand `next`.");
    assert_eq!(say(&mut store, "tea", "brew", vec![]), "Unknown command `tea`.");
    assert_eq!(order(&store), [1, 2, 3]);
    assert_eq!(tea(&store), [1, 2, 3, 1]);
    assert_eq!(store.rota(GAME).unwrap().current, 1);
}

#[test]
fn booking_by_command() {
    let mut store = party();
    assert_eq!(
        say(&mut store, "session", "add", vec![words("date", " 2026/8/22 "), words("note", "Ch. 1")]),
        "📅 Scheduled **Sat 22 Aug 2026** — <@1> is on tea. 🍵"
    );
    assert_eq!(
        say(&mut store, "session", "add", vec![words("date", "2026/08/22")]),
        "There's already a session on Sat 22 Aug 2026."
    );
    assert_eq!(
        say(
            &mut store,
            "session",
            "add",
            vec![words("date", "2026/08/29"), words("note", "  "), flag("skip", true)]
        ),
        "📅 Scheduled **Sat 29 Aug 2026** — no rota this session (the group splits). 🍵"
    );
    assert_eq!(say(&mut store, "session", "add", vec![]), "You need to specify a date.");
    assert_eq!(
        say(&mut store, "session", "add", vec![words("date", "soon")]),
        "`soon` isn't a valid date. Use YYYY/MM/DD, e.g. 2026/08/22."
    );
    let sessions = &store.rota(GAME).unwrap().sessions;
    assert_eq!(sessions.len(), 2);
    assert_eq!(sessions[0].date, "2026/08/22");
    assert_eq!(sessions[0].note.as_deref(), Some("Ch. 1"));
    assert_eq!(sessions[1].note, None);
    assert_eq!(tea(&store), [1, 0]);
    assert_eq!(store.rota(GAME).unwrap().current, 1);
}

#[test]
fn the_calendar_is_listed() {
    let mut store = party();
    let none = "No upcoming sessions. Schedule one with `/session add`.";
    assert_eq!(say(&mut store, "session", "list", vec![]), none);
    assert_eq!(say(&mut store, "session", "next", vec![]), none);
    assert_eq!(say(&mut store, "session", "history", vec![]), "No past sessions yet.");
    let add = |store: &mut Store, date: &str, more: Vec<CommandOption>| {
        let mut opts = vec![words("date", date)];
        opts.extend(more);
        say(store, "session", "add", opts)
    };
    add(&mut store, "2026/08/15", vec![words("note", "at Bob's")]);
    add(&mut store, "2026/08/01", vec![words("note", "start")]);
    add(&mut store, "2026/08/08", vec![]);
    add(&mut store, "2026/08/22", vec![flag("skip", true)]);
    assert_eq!(
        say(&mut store, "session", "list", vec![]),
        "**📅 Upcoming sessions**\n• Sat 15 Aug 2026 — Alice (at Bob's)\n\
         • Sat 22 Aug 2026 — — split (no rota)\n"
    );
    assert_eq!(
        say(&mut store, "session", "next", vec![]),
        "Next session: **Sat 15 Aug 2026** — <@1> is on tea. 🍵\n> at Bob's"
    );
    assert_eq!(
        say(&mut store, "session", "history", vec![]),
        "**📜 Past sessions**\n• Sat 08 Aug 2026 — Carol\n• Sat 01 Aug 2026 — Bob (start)\n"
    );
}

#[test]
fn history_shows_the_last_twenty() {
    let mut rota = Rota::default();
    rota.add(Member { id: 1, name: "Alice".to_string() });
    let today = day("2026/08/15");
    for d in 1..=20 {
        rota.add_session(format!("2026/01/{d:02}"), None, true).unwrap();
    }
    let twenty = handle_session(&mut rota, "history", &[], &[], today).unwrap();
    assert_eq!(twenty.lines().count(), 21);
    assert!(twenty.ends_with("Thu 01 Jan 2026 — — split (no rota)\n"));
    for d in 21..=23 {
        rota.add_session(format!("2026/01/{d:02}"), None, false).unwrap();
    }
    let more = handle_session(&mut rota, "history", &[], &[], today).unwrap();
    assert!(more.starts_with("**📜 Past sessions**\n• Fri 23 Jan 2026 — Alice\n"));
    assert!(more.ends_with("• Sun 04 Jan 2026 — — split (no rota)\n…and 3 earlier."));
}

#[test]
fn a_kept_text_that_is_no_date_is_shown_as_it_is() {
    let mut rota = Rota::default();
    rota.add_session("one day".to_string(), None, true).unwrap();
    let reply = handle_session(&mut rota, "next", &[], &[], day("2026/08/15")).unwrap();
    assert_eq!(reply, "Next session: **one day** — no rota this session — the group splits. 🍵");
}

#[test]
fn sessions_tell_who_is_on_tea() {
    let mut s = Session {
        date: "2026/08/22".to_string(),
        assignee: Some(Member { id: 4, name: "Dave".to_string() }),
        note: None,
    };
    assert_eq!(session_name(&s), "Dave");
    assert_eq!(session_mention(&s), "<@4> is on tea. 🍵");
    assert!(!s.is_skipped());
    s.assignee = None;
    assert_eq!(session_name(&s), "— split (no rota)");
    assert_eq!(session_mention(&s), "no rota this session — the group splits. 🍵");
    assert!(s.is_skipped());
}

#[test]
fn removing_by_command() {
    let mut store = booked_party();
    let date = |d: &str| vec![words("date", d)];
    assert_eq!(
        say(&mut store, "session", "remove", date("2026/8/29")),
        "Removed the session on Sat 29 Aug 2026."
    );
    assert_eq!(
        say(&mut store, "session", "remove", date("2026/08/29")),
        "No session found on Sat 29 Aug 2026."
    );
    assert_eq!(say(&mut store, "session", "remove", vec![]), "You need to specify a date.");
    assert_eq!(
        say(&mut store, "session", "remove", date("29 Aug")),
        "`29 Aug` isn't a valid date. Use YYYY/MM/DD, e.g. 2026/08/22."
    );
    assert_eq!(tea(&store), [1, 3, 1]);
}

#[test]
fn moving_by_command() {
    let mut store = booked_party();
    let both = |from: &str, to: &str| vec![words("from", from), words("to", to)];
    assert_eq!(
        say(&mut store, "session", "reschedule", both("2026/08/22", "2026/09/01")),
        "📅 Moved the session from Sat 22 Aug 2026 to **Tue 01 Sep 2026** — <@1> is on tea. 🍵"
    );
    assert_eq!(tea(&store), [2, 1, 3, 1]);
    assert_eq!(
        say(&mut store, "session", "reschedule", both("2026/08/22", "2026/09/02")),
        "No session found on Sat 22 Aug 2026."
    );
    assert_eq!(
        say(&mut store, "session", "reschedule", both("2026/09/01", "2026/09/05")),
        "There's already a session on Sat 05 Sep 2026."
    );
    assert_eq!(
        say(&mut store, "session", "reschedule", vec![]),
        "You need to specify the current date (`from`)."
    );
    assert_eq!(
        say(&mut store, "session", "reschedule", vec![words("from", "x")]),
        "`x` isn't a valid date. Use YYYY/MM/DD, e.g. 2026/08/22."
    );
    assert_eq!(
        say(&mut store, "session", "reschedule", vec![words("from", "2026/09/01")]),
        "You need to specify the new date (`to`)."
    );
    assert_eq!(
        say(&mut store, "session", "reschedule", both("2026/09/01", "y")),
        "`y` isn't a valid date. Use YYYY/MM/DD, e.g. 2026/08/29."
    );
}

#[test]
fn covering_by_command() {
    let mut store = booked_party();
    assert_eq!(
        say(&mut store, "session", "assign", vec![words("date", "2026/08/22"), user("user", 2)]),
        "🔁 <@2> is now on tea for **Sat 22 Aug 2026** (was Alice).\n\
         **Rebalanced upcoming rota:**\n• Sat 22 Aug 2026 — Bob\n• Sat 29 Aug 2026 — Alice\n\
         • Sat 05 Sep 2026 — Carol\n• Sat 12 Sep 2026 — Bob\n"
    );
    assert_eq!(order(&store), [1, 3, 2]);
    assert_eq!(tea(&store), [2, 1, 3, 2]);
    assert_eq!(
        say(&mut store, "session", "assign", vec![words("date", "2026/08/22"), user("user", 2)]),
        "**Bob** is already on tea for Sat 22 Aug 2026."
    );
    assert_eq!(
        say(&mut store, "session", "assign", vec![words("date", "2026/08/22"), user("user", 4)]),
        "**User 4** isn't in the rota — add them with `/rota add` first."
    );
    assert_eq!(
        say(&mut store, "session", "assign", vec![words("date", "2026/08/23"), user("user", 4)]),
        "No session found on Sun 23 Aug 2026."
    );
    assert_eq!(
        say(&mut store, "session", "assign", vec![words("date", "2026/08/22")]),
        "You need to specify a user (or set `skip:true` for a split session)."
    );
    assert_eq!(
        say(&mut store, "session", "assign", vec![user("user", 2)]),
        "You need to specify a date."
    );
    assert_eq!(
        say(&mut store, "session", "assign", vec![words("date", ""), user("user", 2)]),
        "`` isn't a valid date. Use YYYY/MM/DD, e.g. 2026/08/22."
    );
}

#[test]
fn skipping_by_command() {
    let mut store = booked_party();
    let skip = |d: &str| vec![words("date", d), flag("skip", true)];
    assert_eq!(
        say(&mut store, "session", "assign", skip("2026/08/29")),
        "📅 **Sat 29 Aug 2026** is now a split session — no rota. 🍵"
    );
    assert_eq!(tea(&store), [1, 0, 3, 1]);
    assert_eq!(
        say(&mut store, "session", "assign", skip("2026/08/30")),
        "No session found on Sun 30 Aug 2026."
    );
    assert_eq!(
        say(&mut store, "session", "assign", vec![words("date", "2026/08/29"), user("user", 3)]),
        "🔁 <@3> is now on tea for **Sat 29 Aug 2026** (was split, no rota).\n\
         **Rebalanced upcoming rota:**\n• Sat 22 Aug 2026 — Alice\n• Sat 29 Aug 2026 — Carol\n\
         • Sat 05 Sep 2026 — Alice\n• Sat 12 Sep 2026 — Bob\n"
    );
}

#[test]
fn there_is_only_one_master() {
    let mut store = Store::default();
    assert_eq!(say(&mut store, "potsworth", "add", vec![]), "You need to specify a user.");
    assert_eq!(
        say(&mut store, "potsworth", "add", vec![user("master", BOT)]),
        "🤵🏻‍♂️ A butler cannot serve himself, I'm afraid."
    );
    assert_eq!(
        say(&mut store, "potsworth", "add", vec![user("master", 1)]),
        "At your service. <@1> is now my one and only master. I shall attend to my duties here in \
         <#7>. 🤵🏻‍♂️☕"
    );
    assert_eq!(
        say(&mut store, "potsworth", "add", vec![user("master", 2)]),
        "<@1> is Potsworth's only master!"
    );
    assert_eq!(
        say(&mut store, "potsworth", "add", vec![user("master", BOT)]),
        "<@1> is Potsworth's only master!"
    );
    let rota = store.rota(GAME).unwrap();
    assert_eq!(rota.master().unwrap().name, "Alice");
    assert_eq!(rota.master_channel(), Some(GAME));
    // Another channel has a master of its own.
    let elsewhere = give(&mut store, 8, "potsworth", "add", vec![user("master", 2)]).text;
    assert!(elsewhere.starts_with("At your service. <@2>"));
}

#[test]
fn potsworth_is_bound_by_the_first_call() {
    let mut rota = Rota::default();
    let reply = handle_potsworth(&mut rota, "add", &[user("master", 3)], &people(), 12, BOT);
    assert!(reply.contains("<@3>") && reply.contains("<#12>"));
    assert_eq!(rota.master_channel(), Some(12));
}

#[test]
fn a_rota_bound_elsewhere_is_not_served() {
    let mut store = Store::default();
    *store.rota_mut(GAME) = Rota::from_parts(
        vec![],
        0,
        vec![],
        Some(Member { id: 1, name: "Alice".to_string() }),
        Some(21),
    );
    let refused = give(&mut store, GAME, "rota", "add", vec![user("user", 2)]);
    assert_eq!(refused.text, "🤵🏻‍♂️ I only attend to my duties in <#21>.");
    assert!(refused.ephemeral);
    assert!(!refused.save);
    assert!(order(&store).is_empty());
    // A mention gets its cup of tea all the same.
    assert!(store.reacts_to(BOT, 1, Some(1), GAME, &[BOT]));
}

#[test]
fn channels_are_independent() {
    let mut store = booked_party();
    give(&mut store, 8, "rota", "add", vec![user("user", 3)]);
    let reply = give(&mut store, 8, "session", "add", vec![words("date", "2026/08/22")]).text;
    assert_eq!(reply, "📅 Scheduled **Sat 22 Aug 2026** — <@3> is on tea. 🍵");
    assert_eq!(order(&store), [1, 2, 3]);
    assert_eq!(tea(&store), [1, 2, 3, 1]);
    assert_eq!(store.rota(8).unwrap().sessions.len(), 1);
    let mut channels = store.channels();
    channels.sort();
    assert_eq!(channels, [7, 8]);
}

#[test]
fn commands_need_a_server_and_a_subcommand() {
    let mut store = Store::default();
    let today = day("2026/08/15");
    let mut direct = request(GAME, "rota", "add", vec![user("user", 1)]);
    direct.guild_id = None;
    let refused = store.handle_on(&direct, BOT, today).unwrap();
    assert_eq!(
        refused,
        Response {
            text: "The tea rota only works inside a server, not in DMs.".to_string(),
            ephemeral: false,
            save: false,
        }
    );
    let unknown = Response { text: "Unknown command.".to_string(), ephemeral: false, save: false };
    let mut bare = request(GAME, "rota", "add", vec![]);
    bare.options[0].value = TopValue::Other;
    assert_eq!(store.handle_on(&bare, BOT, today).unwrap(), unknown);
    bare.options.clear();
    assert_eq!(store.handle_on(&bare, BOT, today).unwrap(), unknown);
    assert!(store.rota(GAME).is_none());
    assert!(store.channels().is_empty());
}

#[test]
fn replies_are_shown_and_kept() {
    let mut store = party();
    let list = give(&mut store, GAME, "rota", "list", vec![]);
    assert!(list.ephemeral && list.save);
    assert!(!give(&mut store, GAME, "rota", "list", vec![flag("public", true)]).ephemeral);
    let turn = give(&mut store, GAME, "rota", "whose_turn", vec![]);
    assert!(!turn.ephemeral && turn.save);
    assert!(give(&mut store, GAME, "rota", "whose_turn", vec![flag("public", false)]).ephemeral);
}

#[test]
fn the_clock_decides_what_is_past() {
    let mut store = Store::default();
    let old = request(GAME, "session", "add", vec![words("date", "2000/01/01"), flag("skip", true)]);
    let far = request(GAME, "session", "add", vec![words("date", "9999/01/01"), flag("skip", true)]);
    store.handle(&old, BOT).unwrap();
    store.handle(&far, BOT).unwrap();
    let next = store.handle(&request(GAME, "session", "next", vec![]), BOT).unwrap().text;
    assert!(next.starts_with("Next session: **Fri 01 Jan 9999**"));
    let past = store.handle(&request(GAME, "session", "history", vec![]), BOT).unwrap().text;
    assert_eq!(past, "**📜 Past sessions**\n• Sat 01 Jan 2000 — — split (no rota)\n");
}

#[test]
fn the_butler_reacts_where_he_is_mentioned() {
    let mut store = Store::default();
    assert!(store.reacts_to(BOT, 1, Some(1000), GAME, &[5, BOT]));
    assert!(!store.reacts_to(BOT, 1, Some(1000), GAME, &[5]));
    assert!(!store.reacts_to(BOT, 1, Some(1000), GAME, &[]));
    assert!(!store.reacts_to(BOT, 1, None, GAME, &[BOT]));
    assert!(!store.reacts_to(BOT, BOT, Some(1000), GAME, &[BOT]));
    assert!(!store.reacts_to(0, 1, Some(1000), GAME, &[0]));
    give(&mut store, GAME, "potsworth", "add", vec![user("master", 1)]);
    assert!(store.reacts_to(BOT, 1, Some(1000), GAME, &[BOT]));
    assert!(store.reacts_to(BOT, 1, Some(1000), 8, &[BOT]));
}

#[test]
fn keys_are_channel_ids_in_decimal() {
    assert_eq!(channel_of_key("0"), Some(0));
    assert_eq!(channel_of_key("1234567890123456789"), Some(1234567890123456789));
    assert_eq!(channel_of_key("18446744073709551615"), Some(u64::MAX));
    for key in ["", "007", "+7", " 7", "7 ", "tea", "18446744073709551616"] {
        assert_eq!(channel_of_key(key), None);
    }
}

#[test]
fn only_booking_moves_the_marker() {
    let mut store = booked_party();
    let date = |d: &str| vec![words("date", d)];
    let marker = |store: &Store| store.rota(GAME).unwrap().current;
    assert_eq!(marker(&store), 1);
    say(&mut store, "session", "add", date("2026/08/22"));
    say(&mut store, "session", "add", vec![words("date", "2026/10/03"), flag("skip", true)]);
    say(&mut store, "session", "remove", date("2026/08/22"));
    say(&mut store, "session", "list", vec![]);
    say(&mut store, "rota", "whose_turn", vec![]);
    say(&mut store, "rota", "add", vec![user("user", 4)]);
    say(&mut store, "rota", "swap", vec![user("user1", 1), user("user2", 2)]);
    say(&mut store, "potsworth", "add", vec![user("master", 1)]);
    assert_eq!(marker(&store), 1);
    say(&mut store, "session", "add", date("2026/10/10"));
    assert_eq!(marker(&store), 2);
}

#[test]
fn the_butler_stays_out_of_the_rotation() {
    let mut store = party();
    say(&mut store, "rota", "add", vec![user("user", BOT)]);
    say(&mut store, "rota", "set_next", vec![user("user", BOT)]);
    say(&mut store, "rota", "swap", vec![user("user1", 1), user("user2", BOT)]);
    assert_eq!(order(&store), [1, 2, 3]);
}

#[test]
fn the_day_matters_to_few_commands() {
    for (name, sub, opts) in [
        ("rota", "whose_turn", vec![]),
        ("rota", "list", vec![]),
        ("session", "remove", vec![words("date", "2026/08/22")]),
        ("session", "assign", vec![words("date", "2026/08/22"), flag("skip", true)]),
        ("session", "assign", vec![words("date", "soon"), user("user", 1)]),
    ] {
        let asked = request(GAME, name, sub, opts);
        let mut one = booked_party();
        let mut other = booked_party();
        let mut now = booked_party();
        let reply = one.handle_on(&asked, BOT, day("2000/01/01"));
        assert_eq!(other.handle_on(&asked, BOT, day("9999/12/31")), reply);
        assert_eq!(now.handle(&asked, BOT), reply);
        assert_eq!(tea(&one), tea(&other));
        assert_eq!(tea(&one), tea(&now));
    }
}
