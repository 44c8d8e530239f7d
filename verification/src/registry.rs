//! The commands as they are offered to users.

use vstd::prelude::*;

verus! {

/// What kind of value an option takes.
#[derive(Debug, Clone, Copy, PartialEq, Eq, Structural)]
pub enum OptionKind {
    User,
    Text,
    Flag,
}

/// An option of a subcommand.
#[derive(Debug)]
pub struct OptionSpec {
    pub kind: OptionKind,
    pub name: &'static str,
    pub description: &'static str,
    pub required: bool,
}

/// A subcommand with its options.
#[derive(Debug)]
pub struct SubcommandSpec {
    pub name: &'static str,
    pub description: &'static str,
    pub options: Vec<OptionSpec>,
}

/// A command with its subcommands.
#[derive(Debug)]
pub struct CommandSpec {
    pub name: &'static str,
    pub description: &'static str,
    pub subcommands: Vec<SubcommandSpec>,
}

/// The model of an option.
pub struct OptionModel {
    pub kind: OptionKind,
    pub name: Seq<char>,
    pub description: Seq<char>,
    pub required: bool,
}

/// The model of a subcommand.
pub struct SubcommandModel {
    pub name: Seq<char>,
    pub description: Seq<char>,
    pub options: Seq<OptionModel>,
}

/// The model of a command.
pub struct CommandModel {
    pub name: Seq<char>,
    pub description: Seq<char>,
    pub subcommands: Seq<SubcommandModel>,
}

impl View for OptionSpec {
    type V = OptionModel;

    open spec fn view(&self) -> OptionModel {
        OptionModel {
            kind: self.kind,
            name: self.name@,
            description: self.description@,
            required: self.required,
        }
    }
}

impl View for SubcommandSpec {
    type V = SubcommandModel;

    open spec fn view(&self) -> SubcommandModel {
        SubcommandModel {
            name: self.name@,
            description: self.description@,
            options: self.options@.map_values(|o: OptionSpec| o@),
        }
    }
}

impl View for CommandSpec {
    type V = CommandModel;

    open spec fn view(&self) -> CommandModel {
        CommandModel {
            name: self.name@,
            description: self.description@,
            subcommands: self.subcommands@.map_values(|s: SubcommandSpec| s@),
        }
    }
}

/// An option in the model.
pub open spec fn option(
    kind: OptionKind,
    name: Seq<char>,
    description: Seq<char>,
    required: bool,
) -> OptionModel {
    OptionModel { kind, name, description, required }
}

/// A subcommand in the model. Behind its own options comes the one for who sees the reply.
pub open spec fn subcommand(
    name: Seq<char>,
    description: Seq<char>,
    options: Seq<OptionModel>,
) -> SubcommandModel {
    SubcommandModel {
        name,
        description,
        options: options.push(
            option(
                OptionKind::Flag,
                "public"@,
                "Show the reply to everyone, or only to you"@,
                false,
            ),
        ),
    }
}

fn make_option(
    kind: OptionKind,
    name: &'static str,
    description: &'static str,
    required: bool,
) -> (r: OptionSpec)
    ensures
        r@ == option(kind, name@, description@, required),
{
    OptionSpec { kind, name, description, required }
}

fn make_subcommand(
    name: &'static str,
    description: &'static str,
    options: Vec<OptionSpec>,
) -> (r: SubcommandSpec)
    ensures
        r@ == subcommand(name@, description@, options@.map_values(|o: OptionSpec| o@)),
{
    let ghost given = options@.map_values(|o: OptionSpec| o@);
    let mut options = options;
    options.push(
        make_option(
            OptionKind::Flag,
            "public",
            "Show the reply to everyone, or only to you",
            false,
        ),
    );
    let r = SubcommandSpec { name, description, options };
    assert(r@.options =~= subcommand(name@, description@, given).options);
    r
}

/// The `/rota` command.
pub open spec fn rota_command() -> CommandModel {
    CommandModel {
        name: "rota"@,
        description: "Manage the D&D tea rota"@,
        subcommands: seq![
            subcommand("list"@, "Show the rota order and whose turn is next"@, seq![]),
            subcommand("whose_turn"@, "Show whose turn it is to bring tea"@, seq![]),
            subcommand(
                "add"@,
                "Add a person to the rota"@,
                seq![
                    option(OptionKind::User, "user"@, "Person to add"@, true),
                ],
            ),
            subcommand(
                "remove"@,
                "Remove a person from the rota"@,
                seq![
                    option(OptionKind::User, "user"@, "Person to remove"@, true),
                ],
            ),
            subcommand(
                "set_next"@,
                "Set who is up next in the rota"@,
                seq![
                    option(OptionKind::User, "user"@, "Person who is up next"@, true),
                ],
            ),
            subcommand(
                "swap"@,
                "Swap two people's order in the rota and their upcoming sessions"@,
                seq![
                    option(OptionKind::User, "user1"@, "First person to swap"@, true),
                    option(OptionKind::User, "user2"@, "Second person to swap"@, true),
                ],
            ),
            subcommand("clear"@, "Remove everyone from the rota"@, seq![]),
        ],
    }
}

/// The `/session` command.
pub open spec fn session_command() -> CommandModel {
    CommandModel {
        name: "session"@,
        description: "Schedule and track D&D session dates"@,
        subcommands: seq![
            subcommand(
                "add"@,
                "Schedule a session; assigns the next person in the rota to tea"@,
                seq![
                    option(OptionKind::Text, "date"@, "Date as YYYY/MM/DD"@, true),
                    option(OptionKind::Text, "note"@, "Optional note (e.g. chapter or location)"@, false),
                    option(OptionKind::Flag, "skip"@, "Split / no rota: no one is on tea and no turn is used"@, false),
                ],
            ),
            subcommand("list"@, "List upcoming sessions and who's on tea"@, seq![]),
            subcommand("next"@, "Show the next upcoming session"@, seq![]),
            subcommand("history"@, "List past sessions (most recent first)"@, seq![]),
            subcommand(
                "remove"@,
                "Remove a scheduled session by date"@,
                seq![
                    option(OptionKind::Text, "date"@, "Date as YYYY/MM/DD"@, true),
                ],
            ),
            subcommand(
                "reschedule"@,
                "Move a scheduled session to a new date"@,
                seq![
                    option(OptionKind::Text, "from"@, "Current date of the session (YYYY/MM/DD)"@, true),
                    option(OptionKind::Text, "to"@, "New date for the session (YYYY/MM/DD)"@, true),
                ],
            ),
            subcommand(
                "assign"@,
                "Change who's on tea for a session (moves them to the back of the rota)"@,
                seq![
                    option(OptionKind::Text, "date"@, "Date as YYYY/MM/DD"@, true),
                    option(OptionKind::User, "user"@, "Person to put on tea for that session"@, false),
                    option(OptionKind::Flag, "skip"@, "Split / no rota this session instead of assigning someone"@, false),
                ],
            ),
        ],
    }
}

/// The `/potsworth` command.
pub open spec fn potsworth_command() -> CommandModel {
    CommandModel {
        name: "potsworth"@,
        description: "Potsworth, at your service"@,
        subcommands: seq![
            subcommand(
                "add"@,
                "Assign Potsworth's master — can only ever be done once per channel"@,
                seq![
                    option(OptionKind::User, "master"@, "The user Potsworth will serve"@, true),
                ],
            ),
        ],
    }
}

/// Builds the `/rota` command with all of its subcommands.
pub fn build_rota_command() -> (r: CommandSpec)
    ensures
        r@ == rota_command(),
{
    let list = make_subcommand("list", "Show the rota order and whose turn is next", Vec::new());
    assert(list@.options =~= rota_command().subcommands[0].options);
    let whose_turn = make_subcommand("whose_turn", "Show whose turn it is to bring tea", Vec::new());
    assert(whose_turn@.options =~= rota_command().subcommands[1].options);
    let add = make_subcommand(
        "add",
        "Add a person to the rota",
        vec![
            make_option(OptionKind::User, "user", "Person to add", true),
        ],
    );
    assert(add@.options =~= rota_command().subcommands[2].options);
    let remove = make_subcommand(
        "remove",
        "Remove a person from the rota",
        vec![
            make_option(OptionKind::User, "user", "Person to remove", true),
        ],
    );
    assert(remove@.options =~= rota_command().subcommands[3].options);
    let set_next = make_subcommand(
        "set_next",
        "Set who is up next in the rota",
        vec![
            make_option(OptionKind::User, "user", "Person who is up next", true),
        ],
    );
    assert(set_next@.options =~= rota_command().subcommands[4].options);
    let swap = make_subcommand(
        "swap",
        "Swap two people's order in the rota and their upcoming sessions",
        vec![
            make_option(OptionKind::User, "user1", "First person to swap", true),
            make_option(OptionKind::User, "user2", "Second person to swap", true),
        ],
    );
    assert(swap@.options =~= rota_command().subcommands[5].options);
    let clear = make_subcommand("clear", "Remove everyone from the rota", Vec::new());
    assert(clear@.options =~= rota_command().subcommands[6].options);
    let r = CommandSpec {
        name: "rota",
        description: "Manage the D&D tea rota",
        subcommands: vec![list, whose_turn, add, remove, set_next, swap, clear],
    };
    assert(r@.subcommands =~= rota_command().subcommands);
    r
}

/// Builds the `/session` command with all of its subcommands.
pub fn build_session_command() -> (r: CommandSpec)
    ensures
        r@ == session_command(),
{
    let add = make_subcommand(
        "add",
        "Schedule a session; assigns the next person in the rota to tea",
        vec![
            make_option(OptionKind::Text, "date", "Date as YYYY/MM/DD", true),
            make_option(OptionKind::Text, "note", "Optional note (e.g. chapter or location)", false),
            make_option(OptionKind::Flag, "skip", "Split / no rota: no one is on tea and no turn is used", false),
        ],
    );
    assert(add@.options =~= session_command().subcommands[0].options);
    let list = make_subcommand("list", "List upcoming sessions and who's on tea", Vec::new());
    assert(list@.options =~= session_command().subcommands[1].options);
    let next = make_subcommand("next", "Show the next upcoming session", Vec::new());
    assert(next@.options =~= session_command().subcommands[2].options);
    let history = make_subcommand("history", "List past sessions (most recent first)", Vec::new());
    assert(history@.options =~= session_command().subcommands[3].options);
    let remove = make_subcommand(
        "remove",
        "Remove a scheduled session by date",
        vec![
            make_option(OptionKind::Text, "date", "Date as YYYY/MM/DD", true),
        ],
    );
    assert(remove@.options =~= session_command().subcommands[4].options);
    let reschedule = make_subcommand(
        "reschedule",
        "Move a scheduled session to a new date",
        vec![
            make_option(OptionKind::Text, "from", "Current date of the session (YYYY/MM/DD)", true),
            make_option(OptionKind::Text, "to", "New date for the session (YYYY/MM/DD)", true),
        ],
    );
    assert(reschedule@.options =~= session_command().subcommands[5].options);
    let assign = make_subcommand(
        "assign",
        "Change who's on tea for a session (moves them to the back of the rota)",
        vec![
            make_option(OptionKind::Text, "date", "Date as YYYY/MM/DD", true),
            make_option(OptionKind::User, "user", "Person to put on tea for that session", false),
            make_option(OptionKind::Flag, "skip", "Split / no rota this session instead of assigning someone", false),
        ],
    );
    assert(assign@.options =~= session_command().subcommands[6].options);
    let r = CommandSpec {
        name: "session",
        description: "Schedule and track D&D session dates",
        subcommands: vec![add, list, next, history, remove, reschedule, assign],
    };
    assert(r@.subcommands =~= session_command().subcommands);
    r
}

/// Builds the `/potsworth` command with all of its subcommands.
pub fn build_potsworth_command() -> (r: CommandSpec)
    ensures
        r@ == potsworth_command(),
{
    let add = make_subcommand(
        "add",
        "Assign Potsworth's master — can only ever be done once per channel",
        vec![
            make_option(OptionKind::User, "master", "The user Potsworth will serve", true),
        ],
    );
    assert(add@.options =~= potsworth_command().subcommands[0].options);
    let r = CommandSpec {
        name: "potsworth",
        description: "Potsworth, at your service",
        subcommands: vec![add],
    };
    assert(r@.subcommands =~= potsworth_command().subcommands);
    r
}

} // verus!
