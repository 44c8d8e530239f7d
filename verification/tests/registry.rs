//! The commands as they are offered.

use potsworth::registry::{
    build_potsworth_command, build_rota_command, build_session_command, CommandSpec, OptionKind,
};

fn names(c: &CommandSpec) -> Vec<&str> {
    c.subcommands.iter().map(|s| s.name).collect()
}

fn options(c: &CommandSpec, sub: &str) -> Vec<(OptionKind, &'static str, bool)> {
    let s = c.subcommands.iter().find(|s| s.name == sub).unwrap();
    s.options.iter().map(|o| (o.kind, o.name, o.required)).collect()
}

const PUBLIC: (OptionKind, &str, bool) = (OptionKind::Flag, "public", false);

#[test]
fn rota_subcommands() {
    let c = build_rota_command();
    assert_eq!((c.name, c.description), ("rota", "Manage the D&D tea rota"));
    assert_eq!(names(&c), ["list", "whose_turn", "add", "remove", "set_next", "swap", "clear"]);
    assert_eq!(options(&c, "list"), [PUBLIC]);
    assert_eq!(options(&c, "add"), [(OptionKind::User, "user", true), PUBLIC]);
    assert_eq!(
        options(&c, "swap"),
        [(OptionKind::User, "user1", true), (OptionKind::User, "user2", true), PUBLIC]
    );
}

#[test]
fn session_subcommands() {
    let c = build_session_command();
    assert_eq!((c.name, c.description), ("session", "Schedule and track D&D session dates"));
    assert_eq!(
        names(&c),
        ["add", "list", "next", "history", "remove", "reschedule", "assign"]
    );
    assert_eq!(
        options(&c, "add"),
        [
            (OptionKind::Text, "date", true),
            (OptionKind::Text, "note", false),
            (OptionKind::Flag, "skip", false),
            PUBLIC,
        ]
    );
    assert_eq!(
        options(&c, "assign"),
        [
            (OptionKind::Text, "date", true),
            (OptionKind::User, "user", false),
            (OptionKind::Flag, "skip", false),
            PUBLIC,
        ]
    );
    assert_eq!(
        options(&c, "reschedule"),
        [(OptionKind::Text, "from", true), (OptionKind::Text, "to", true), PUBLIC]
    );
}

#[test]
fn potsworth_subcommands() {
    let c = build_potsworth_command();
    assert_eq!((c.name, c.description), ("potsworth", "Potsworth, at your service"));
    assert_eq!(names(&c), ["add"]);
    assert_eq!(options(&c, "add"), [(OptionKind::User, "master", true), PUBLIC]);
    assert_eq!(
        c.subcommands[0].description,
        "Assign Potsworth's master — can only ever be done once per channel"
    );
}

#[test]
fn every_subcommand_takes_public() {
    for c in [build_rota_command(), build_session_command(), build_potsworth_command()] {
        for s in &c.subcommands {
            assert_eq!(s.options.last().unwrap().name, "public");
        }
    }
}
