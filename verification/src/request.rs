//! What a user asks for: a command, its subcommand and the options given with it.

use vstd::prelude::*;
use vstd::string::*;

use crate::model;
use crate::text;

verus! {

/// The value given for an option.
#[derive(Debug)]
pub enum OptionValue {
    /// A user, by id.
    User(u64),
    /// A text.
    Text(String),
    /// Yes or no.
    Flag(bool),
    /// Anything else.
    Other,
}

/// An option given with a subcommand.
#[derive(Debug)]
pub struct CommandOption {
    pub name: String,
    pub value: OptionValue,
}

/// What stands directly under a command.
#[derive(Debug)]
pub enum TopValue {
    /// A subcommand with its options.
    SubCommand(Vec<CommandOption>),
    /// Anything else.
    Other,
}

/// A named entry directly under a command.
#[derive(Debug)]
pub struct TopOption {
    pub name: String,
    pub value: TopValue,
}

/// What is known of a user that an option names.
#[derive(Debug)]
pub struct ResolvedUser {
    pub id: u64,
    /// The name that the user goes by everywhere, if they have chosen one.
    pub global_name: Option<String>,
    /// The name of the account.
    pub name: String,
}

/// A command as it comes in.
#[derive(Debug)]
pub struct Request {
    /// The server in which it was given; none for a direct message.
    pub guild_id: Option<u64>,
    /// The channel in which it was given.
    pub channel_id: u64,
    /// The name of the command.
    pub name: String,
    /// What stands under the command; the first entry is its subcommand.
    pub options: Vec<TopOption>,
    /// The users that the options name.
    pub users: Vec<ResolvedUser>,
}

/// Whether an option has a name.
pub open spec fn has_name(name: Seq<char>) -> spec_fn(CommandOption) -> bool {
    |o: CommandOption| o.name@ == name
}

/// The value of the first option of a name.
pub open spec fn value_given(opts: Seq<CommandOption>, name: Seq<char>) -> Option<OptionValue> {
    match model::first_place(opts, has_name(name)) {
        Some(i) => Some(opts[i].value),
        None => None,
    }
}

/// The text given for an option.
pub open spec fn text_given(opts: Seq<CommandOption>, name: Seq<char>) -> Option<Seq<char>> {
    match value_given(opts, name) {
        Some(OptionValue::Text(s)) => Some(s@),
        _ => None,
    }
}

/// The yes or no given for an option.
pub open spec fn flag_given(opts: Seq<CommandOption>, name: Seq<char>) -> Option<bool> {
    match value_given(opts, name) {
        Some(OptionValue::Flag(b)) => Some(b),
        _ => None,
    }
}

/// How a user is called: by the name they go by everywhere, else by that of the account, and by
/// their number if nothing is known of them.
pub open spec fn display_name(users: Seq<ResolvedUser>, id: u64) -> Seq<char> {
    match model::first_place(users, |u: ResolvedUser| u.id == id) {
        Some(i) => match users[i].global_name {
            Some(n) => n@,
            None => users[i].name@,
        },
        None => "User "@ + text::decimal(id as nat),
    }
}

/// The user given for an option, and how they are called.
pub open spec fn user_given(
    opts: Seq<CommandOption>,
    name: Seq<char>,
    users: Seq<ResolvedUser>,
) -> Option<(u64, Seq<char>)> {
    match value_given(opts, name) {
        Some(OptionValue::User(id)) => Some((id, display_name(users, id))),
        _ => None,
    }
}

fn find_option<'a>(opts: &'a [CommandOption], name: &str) -> (r: Option<&'a OptionValue>)
    ensures
        match r {
            Some(v) => value_given(opts@, name@) == Some(*v),
            None => value_given(opts@, name@) is None,
        },
{
    let ghost named = has_name(name@);
    let mut i: usize = 0;
    while i < opts.len()
        invariant
            i <= opts.len(),
            named == has_name(name@),
            forall|j: int| 0 <= j < i ==> !named(#[trigger] opts@[j]),
        decreases opts.len() - i,
    {
        if text::same(opts[i].name.as_str(), name) {
            proof {
                model::lemma_first_place_is(opts@, named, i as int);
            }
            return Some(&opts[i].value);
        }
        i += 1;
    }
    proof {
        model::lemma_first_place_none(opts@, named);
    }
    None
}

fn name_of(users: &[ResolvedUser], id: u64) -> (r: String)
    ensures
        r@ == display_name(users@, id),
{
    let ghost is_them = |u: ResolvedUser| u.id == id;
    let mut i: usize = 0;
    while i < users.len()
        invariant
            i <= users.len(),
            is_them == |u: ResolvedUser| u.id == id,
            forall|j: int| 0 <= j < i ==> !is_them(#[trigger] users@[j]),
        decreases users.len() - i,
    {
        if users[i].id == id {
            proof {
                model::lemma_first_place_is(users@, is_them, i as int);
            }
            return match &users[i].global_name {
                Some(n) => n.clone(),
                None => users[i].name.clone(),
            };
        }
        i += 1;
    }
    proof {
        model::lemma_first_place_none(users@, is_them);
    }
    let mut r = "User ".to_owned();
    r.append(text::to_decimal(id).as_str());
    r
}

/// The user given for an option: their id and how they are called.
pub fn user_option(opts: &[CommandOption], name: &str, users: &[ResolvedUser]) -> (r: Option<
    (u64, String),
>)
    ensures
        match r {
            Some((id, display)) => user_given(opts@, name@, users@) == Some((id, display@)),
            None => user_given(opts@, name@, users@) is None,
        },
{
    match find_option(opts, name) {
        Some(OptionValue::User(id)) => Some((*id, name_of(users, *id))),
        _ => None,
    }
}

/// The text given for an option.
pub fn string_option(opts: &[CommandOption], name: &str) -> (r: Option<String>)
    ensures
        match r {
            Some(s) => text_given(opts@, name@) == Some(s@),
            None => text_given(opts@, name@) is None,
        },
{
    match find_option(opts, name) {
        Some(OptionValue::Text(s)) => Some(s.clone()),
        _ => None,
    }
}

/// Whether an option was given as yes.
pub fn bool_option(opts: &[CommandOption], name: &str) -> (r: bool)
    ensures
        r == (flag_given(opts@, name@) == Some(true)),
{
    match find_option(opts, name) {
        Some(OptionValue::Flag(b)) => *b,
        _ => false,
    }
}

/// Whether the reply to a subcommand is shown to everyone. The lists are for the one who asked,
/// all else is for the channel, unless the option `public` says otherwise.
pub open spec fn shown_to_all(
    command: Seq<char>,
    sub: Seq<char>,
    opts: Seq<CommandOption>,
) -> bool {
    match flag_given(opts, "public"@) {
        Some(public) => public,
        None => !(sub == "list"@ && (command == "rota"@ || command == "session"@)),
    }
}

/// Tells who sees the reply to a subcommand (see [`shown_to_all`]).
pub fn is_public(command: &str, sub: &str, opts: &[CommandOption]) -> (r: bool)
    ensures
        r == shown_to_all(command@, sub@, opts@),
{
    match find_option(opts, "public") {
        Some(OptionValue::Flag(public)) => *public,
        _ => !(text::same(sub, "list") && (text::same(command, "rota") || text::same(
            command,
            "session",
        ))),
    }
}

/// Whether a command is one of ours.
pub open spec fn is_ours(name: Seq<char>) -> bool {
    name == "rota"@ || name == "session"@ || name == "potsworth"@
}

/// Tells our commands from others (see [`is_ours`]).
pub fn accepts_command(name: &str) -> (r: bool)
    ensures
        r == is_ours(name@),
{
    text::same(name, "rota") || text::same(name, "session") || text::same(name, "potsworth")
}

/// The server with which commands are registered: the one whose number is given. Without such a
/// number they are registered everywhere.
pub open spec fn registered_with(test_guild_id: Option<Seq<char>>) -> Option<u64> {
    match test_guild_id {
        Some(s) => text::read_u64(s),
        None => None,
    }
}

/// Where commands are registered: with the one server whose number is given, else everywhere.
pub fn registration_guild(test_guild_id: Option<&str>) -> (r: Option<u64>)
    ensures
        r == registered_with(
            match test_guild_id {
                Some(s) => Some(s@),
                None => None,
            },
        ),
        r == match test_guild_id {
            Some(s) => text::read_u64(s@),
            None => None,
        },
{
    match test_guild_id {
        Some(s) => text::parse_u64(s),
        None => None,
    }
}

} // verus!
