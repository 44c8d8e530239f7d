//! What is read from a request.

use vstd::prelude::*;

use crate::model;
use crate::request;
use crate::request::{CommandOption, OptionValue, ResolvedUser};
use crate::text;
use crate::text_laws;

verus! {

/// Of the options of one name the first one counts, and it counts only for what it holds: a text,
/// a yes or no, or a user.
pub proof fn the_first_option_of_a_name_counts(
    opts: Seq<CommandOption>,
    name: Seq<char>,
    users: Seq<ResolvedUser>,
    i: int,
)
    requires
        0 <= i < opts.len(),
        opts[i].name@ == name,
        forall|j: int| 0 <= j < i ==> (#[trigger] opts[j]).name@ != name,
    ensures
        request::value_given(opts, name) == Some(opts[i].value),
        match opts[i].value {
            OptionValue::Text(s) => {
                &&& request::text_given(opts, name) == Some(s@)
                &&& request::flag_given(opts, name) is None
                &&& request::user_given(opts, name, users) is None
            },
            OptionValue::Flag(b) => {
                &&& request::text_given(opts, name) is None
                &&& request::flag_given(opts, name) == Some(b)
                &&& request::user_given(opts, name, users) is None
            },
            OptionValue::User(id) => {
                &&& request::text_given(opts, name) is None
                &&& request::flag_given(opts, name) is None
                &&& request::user_given(opts, name, users) == Some(
                    (id, request::display_name(users, id)),
                )
            },
            OptionValue::Other => {
                &&& request::text_given(opts, name) is None
                &&& request::flag_given(opts, name) is None
                &&& request::user_given(opts, name, users) is None
            },
        },
{
    let named = request::has_name(name);
    assert forall|j: int| 0 <= j < i implies !named(#[trigger] opts[j]) by {
        assert(opts[j].name@ != name);
    }
    model::lemma_first_place_is(opts, named, i);
}

/// An option that was not given holds nothing.
pub proof fn what_is_not_given_holds_nothing(
    opts: Seq<CommandOption>,
    name: Seq<char>,
    users: Seq<ResolvedUser>,
)
    requires
        forall|j: int| 0 <= j < opts.len() ==> (#[trigger] opts[j]).name@ != name,
    ensures
        request::value_given(opts, name) is None,
        request::text_given(opts, name) is None,
        request::flag_given(opts, name) is None,
        request::user_given(opts, name, users) is None,
{
    let named = request::has_name(name);
    assert forall|j: int| 0 <= j < opts.len() implies !named(#[trigger] opts[j]) by {
        assert(opts[j].name@ != name);
    }
    model::lemma_first_place_none(opts, named);
}

/// A user goes by the name that they have chosen, else by that of the account.
pub proof fn users_go_by_their_names(users: Seq<ResolvedUser>, id: u64, i: int)
    requires
        0 <= i < users.len(),
        users[i].id == id,
        forall|j: int| 0 <= j < i ==> (#[trigger] users[j]).id != id,
    ensures
        users[i].global_name matches Some(chosen) ==> request::display_name(users, id) == chosen@,
        users[i].global_name is None ==> request::display_name(users, id) == users[i].name@,
{
    let is_them = |u: ResolvedUser| u.id == id;
    assert forall|j: int| 0 <= j < i implies !is_them(#[trigger] users[j]) by {
        assert(users[j].id != id);
    }
    model::lemma_first_place_is(users, is_them, i);
}

/// A user of whom nothing is known goes by their number.
pub proof fn unknown_users_go_by_their_number(users: Seq<ResolvedUser>, id: u64)
    requires
        forall|j: int| 0 <= j < users.len() ==> (#[trigger] users[j]).id != id,
    ensures
        request::display_name(users, id) == "User "@ + text::decimal(id as nat),
{
    let is_them = |u: ResolvedUser| u.id == id;
    assert forall|j: int| 0 <= j < users.len() implies !is_them(#[trigger] users[j]) by {
        assert(users[j].id != id);
    }
    model::lemma_first_place_none(users, is_them);
}

/// The option `public` decides who sees a reply. Without it the lists of `/rota` and `/session` are
/// for the one who asked, and all else is for everyone.
pub proof fn who_sees_a_reply(
    command: Seq<char>,
    sub: Seq<char>,
    opts: Seq<CommandOption>,
)
    ensures
        request::flag_given(opts, "public"@) matches Some(public) ==> request::shown_to_all(
            command,
            sub,
            opts,
        ) == public,
        request::flag_given(opts, "public"@) is None ==> (request::shown_to_all(command, sub, opts)
            <==> sub != "list"@ || command != "rota"@ && command != "session"@),
{
}

/// The commands that are ours are `rota`, `session` and `potsworth`.
pub proof fn our_commands(name: Seq<char>)
    ensures
        request::is_ours(name) <==> name == "rota"@ || name == "session"@ || name == "potsworth"@,
{
}

/// Commands are registered with the server whose number is given, and everywhere if none is.
pub proof fn registration_goes_by_the_number(given: Seq<char>, n: u64)
    ensures
        request::registered_with(Some(text::decimal(n as nat))) == Some(n),
        request::registered_with(Some(given)) == text::read_u64(given),
        request::registered_with(None) is None,
{
    let none = Seq::<char>::empty();
    text_laws::numbers_are_read(none, n);
    assert(none + text::decimal(n as nat) == text::decimal(n as nat));
}

} // verus!
